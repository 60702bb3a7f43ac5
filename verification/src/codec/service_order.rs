//! `ServiceOrder` on the wire.

use vstd::prelude::*;
use crate::cbor::same_text;
use crate::codec::service::{decode_service, encode_service_as};
use crate::coder::{text_slot, Decoder, Encoder};
use crate::error::{DecodeError, EncodeError};
use crate::grammar::{
    blank, entries_bytes, first_missing, lemma_entries_bytes_end, lemma_entry_written,
    lemma_field_bytes, lemma_indexed_step, lemma_keyed_step, lemma_parse_field,
    lemma_parse_record, lemma_record_bytes, parse_indexed, parse_keyed, parse_record,
    record_bytes,
};
use crate::model::{service_slot, Service, ServiceOrder};
use crate::schema::{position_from, Layout, Schema, Value};

verus! {

/// The fields seen so far.
struct Parts {
    amount: Option<String>,
    service: Option<Service>,
}

impl Parts {
    spec fn slots(&self) -> Seq<Value> {
        seq![
            text_slot(self.amount),
            service_slot(self.service),
        ]
    }

    fn new() -> (parts: Parts)
        ensures
            parts.slots() == blank(Schema::ServiceOrder),
    {
        let parts = Parts { amount: None, service: None };
        assert(parts.slots() =~= blank(Schema::ServiceOrder));
        parts
    }
}

/// Writes a `ServiceOrder` in the given layout.
pub fn encode_service_order_as(e: &mut Encoder, val: &ServiceOrder, layout: Layout) -> (r: Result<
    (),
    EncodeError,
>)
    ensures
        r is Ok,
        final(e).written() == old(e).written() + record_bytes(
            Schema::ServiceOrder,
            val.values(),
            layout,
        ),
{
    let ghost schema = Schema::ServiceOrder;
    let ghost values = val.values();
    let ghost target = e.written() + record_bytes(schema, values, layout);
    e.begin(layout, 2)?;
    proof {
        lemma_record_bytes(schema, values, layout);
        assert(e.written() + entries_bytes(schema, values, layout, 0, 2) =~= target);
        lemma_entry_written(schema, values, layout, 0, e.written(), target);
        lemma_field_bytes(schema, 0, values[0], layout);
    }
    e.key(layout, "amount")?;
    e.text(val.amount.as_str())?;
    proof {
        lemma_entry_written(schema, values, layout, 1, e.written(), target);
        lemma_field_bytes(schema, 1, values[1], layout);
    }
    e.key(layout, "service")?;
    encode_service_as(e, &val.service, layout)?;
    proof {
        lemma_entries_bytes_end(schema, values, layout, 2);
        assert(e.written() =~= target);
    }
    Ok(())
}

/// Writes a `ServiceOrder` in the layout by name.
pub fn encode_service_order(e: &mut Encoder, val: &ServiceOrder) -> (r: Result<(), EncodeError>)
    ensures
        r is Ok,
        final(e).written() == old(e).written() + record_bytes(
            Schema::ServiceOrder,
            val.values(),
            Layout::Mapping,
        ),
{
    encode_service_order_as(e, val, Layout::Mapping)
}

/// Reads the `n` entries of the layout by position.
fn read_indexed(d: &mut Decoder<'_>, n: u64) -> (r: Result<Parts, DecodeError>)
    ensures
        final(d).input() == old(d).input(),
        match parse_indexed(
            Schema::ServiceOrder,
            old(d).input(),
            old(d).position(),
            0,
            n as int,
            blank(Schema::ServiceOrder),
        ) {
            Ok((values, end)) => r matches Ok(parts) && parts.slots() == values
                && final(d).position() == end,
            Err(e) => r == Err::<Parts, DecodeError>(e),
        },
{
    let ghost schema = Schema::ServiceOrder;
    let ghost buf = d.input();
    let ghost start = d.position();
    let mut parts = Parts::new();
    let mut i: u64 = 0;
    while i < n
        invariant
            i <= n,
            d.input() == buf,
            buf == old(d).input(),
            start == old(d).position(),
            schema == Schema::ServiceOrder,
            parse_indexed(schema, buf, start, 0, n as int, blank(schema)) == parse_indexed(
                schema,
                buf,
                d.position(),
                i as int,
                n as int,
                parts.slots(),
            ),
        decreases n - i,
    {
        let ghost before = parts.slots();
        proof {
            lemma_indexed_step(schema, buf, d.position(), i as int, n as int, before);
            lemma_parse_field(schema, i as int, buf, d.position());
        }
        if i == 0 {
            parts.amount = d.text_field(false)?;
            assert(parts.slots() =~= before.update(0, text_slot(parts.amount)));
        } else if i == 1 {
            if d.absent(false) {
                parts.service = None;
            } else {
                match decode_service(d) {
                    Ok(inner) => {
                        parts.service = Some(inner);
                    },
                    Err(e) => {
                        return Err(
                            DecodeError::InField {
                                struct_name: "ServiceOrder",
                                field_name: "service",
                                source: Box::new(e),
                            },
                        );
                    },
                }
            }
            assert(parts.slots() =~= before.update(1, service_slot(parts.service)));
        } else {
            d.skip()?;
        }
        i += 1;
    }
    Ok(parts)
}

/// Reads the `n` entries of the layout by name.
fn read_keyed(d: &mut Decoder<'_>, n: u64) -> (r: Result<Parts, DecodeError>)
    ensures
        final(d).input() == old(d).input(),
        match parse_keyed(
            Schema::ServiceOrder,
            old(d).input(),
            old(d).position(),
            n as int,
            blank(Schema::ServiceOrder),
        ) {
            Ok((values, end)) => r matches Ok(parts) && parts.slots() == values
                && final(d).position() == end,
            Err(e) => r == Err::<Parts, DecodeError>(e),
        },
{
    let ghost schema = Schema::ServiceOrder;
    let ghost buf = d.input();
    let ghost start = d.position();
    let mut parts = Parts::new();
    let mut i: u64 = 0;
    while i < n
        invariant
            i <= n,
            d.input() == buf,
            buf == old(d).input(),
            start == old(d).position(),
            schema == Schema::ServiceOrder,
            parse_keyed(schema, buf, start, n as int, blank(schema)) == parse_keyed(
                schema,
                buf,
                d.position(),
                n - i,
                parts.slots(),
            ),
        decreases n - i,
    {
        let ghost before = parts.slots();
        proof {
            lemma_keyed_step(schema, buf, d.position(), n - i, before);
        }
        let key = d.text()?;
        proof {
            reveal_with_fuel(position_from, 3);
            lemma_parse_field(schema, 0, buf, d.position());
            lemma_parse_field(schema, 1, buf, d.position());
        }
        if same_text(key.as_str(), "amount") {
            parts.amount = d.text_field(false)?;
            assert(parts.slots() =~= before.update(0, text_slot(parts.amount)));
        } else if same_text(key.as_str(), "service") {
            if d.absent(false) {
                parts.service = None;
            } else {
                match decode_service(d) {
                    Ok(inner) => {
                        parts.service = Some(inner);
                    },
                    Err(e) => {
                        return Err(
                            DecodeError::InField {
                                struct_name: "ServiceOrder",
                                field_name: "service",
                                source: Box::new(e),
                            },
                        );
                    },
                }
            }
            assert(parts.slots() =~= before.update(1, service_slot(parts.service)));
        } else {
            d.skip()?;
        }
        i += 1;
    }
    Ok(parts)
}

/// Reads a `ServiceOrder` in either layout.
pub fn decode_service_order(d: &mut Decoder<'_>) -> (r: Result<ServiceOrder, DecodeError>)
    ensures
        final(d).input() == old(d).input(),
        match parse_record(Schema::ServiceOrder, old(d).input(), old(d).position()) {
            Ok((values, end)) => r matches Ok(val) && val.values() == values
                && final(d).position() == end,
            Err(e) => r == Err::<ServiceOrder, DecodeError>(e),
        },
{
    proof {
        lemma_parse_record(Schema::ServiceOrder, d.input(), d.position());
    }
    let (layout, n) = d.begin(Schema::ServiceOrder)?;
    let parts = match layout {
        Layout::Array => read_indexed(d, n)?,
        Layout::Mapping => read_keyed(d, n)?,
    };
    let ghost slots = parts.slots();
    proof {
        reveal_with_fuel(first_missing, 3);
    }
    let amount = match parts.amount {
        Some(x) => x,
        None => {
            return Err(
                DecodeError::MissingField {
                    struct_name: "ServiceOrder",
                    field_name: "amount",
                    field_index: 0,
                },
            );
        },
    };
    let service = match parts.service {
        Some(x) => x,
        None => {
            return Err(
                DecodeError::MissingField {
                    struct_name: "ServiceOrder",
                    field_name: "service",
                    field_index: 1,
                },
            );
        },
    };
    let val = ServiceOrder { amount, service };
    assert(val.values() =~= slots);
    Ok(val)
}

} // verus!

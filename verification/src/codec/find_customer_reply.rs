//! `FindCustomerReply` on the wire.

use vstd::prelude::*;
use crate::cbor::same_text;
use crate::codec::customer::{decode_customer, encode_customer_as};
use crate::coder::{Decoder, Encoder};
use crate::error::{DecodeError, EncodeError};
use crate::grammar::{
    blank, entries_bytes, first_missing, lemma_entries_bytes_end, lemma_entry_written,
    lemma_field_bytes, lemma_indexed_step, lemma_keyed_step, lemma_parse_field,
    lemma_parse_record, lemma_record_bytes, parse_indexed, parse_keyed, parse_record,
    record_bytes,
};
use crate::model::{customer_slot, Customer, FindCustomerReply};
use crate::schema::{position_from, Layout, Schema, Value};

verus! {

/// The fields seen so far.
struct Parts {
    customer: Option<Customer>,
}

impl Parts {
    spec fn slots(&self) -> Seq<Value> {
        seq![customer_slot(self.customer)]
    }

    fn new() -> (parts: Parts)
        ensures
            parts.slots() == blank(Schema::FindCustomerReply),
    {
        let parts = Parts { customer: None };
        assert(parts.slots() =~= blank(Schema::FindCustomerReply));
        parts
    }
}

/// Writes a `FindCustomerReply` in the given layout.
pub fn encode_find_customer_reply_as(
    e: &mut Encoder,
    val: &FindCustomerReply,
    layout: Layout,
) -> (r: Result<
    (),
    EncodeError,
>)
    ensures
        r is Ok,
        final(e).written() == old(e).written() + record_bytes(
            Schema::FindCustomerReply,
            val.values(),
            layout,
        ),
{
    let ghost schema = Schema::FindCustomerReply;
    let ghost values = val.values();
    let ghost target = e.written() + record_bytes(schema, values, layout);
    e.begin(layout, 1)?;
    proof {
        lemma_record_bytes(schema, values, layout);
        assert(e.written() + entries_bytes(schema, values, layout, 0, 1) =~= target);
        lemma_entry_written(schema, values, layout, 0, e.written(), target);
        lemma_field_bytes(schema, 0, values[0], layout);
    }
    e.key(layout, "customer")?;
    match &val.customer {
        Some(inner) => encode_customer_as(e, inner, layout)?,
        None => e.null()?,
    }
    proof {
        lemma_entries_bytes_end(schema, values, layout, 1);
        assert(e.written() =~= target);
    }
    Ok(())
}

/// Writes a `FindCustomerReply` in the layout by name.
pub fn encode_find_customer_reply(
    e: &mut Encoder,
    val: &FindCustomerReply,
) -> (r: Result<(), EncodeError>)
    ensures
        r is Ok,
        final(e).written() == old(e).written() + record_bytes(
            Schema::FindCustomerReply,
            val.values(),
            Layout::Mapping,
        ),
{
    encode_find_customer_reply_as(e, val, Layout::Mapping)
}

/// Reads the `n` entries of the layout by position.
fn read_indexed(d: &mut Decoder<'_>, n: u64) -> (r: Result<Parts, DecodeError>)
    ensures
        final(d).input() == old(d).input(),
        match parse_indexed(
            Schema::FindCustomerReply,
            old(d).input(),
            old(d).position(),
            0,
            n as int,
            blank(Schema::FindCustomerReply),
        ) {
            Ok((values, end)) => r matches Ok(parts) && parts.slots() == values
                && final(d).position() == end,
            Err(e) => r == Err::<Parts, DecodeError>(e),
        },
{
    let ghost schema = Schema::FindCustomerReply;
    let ghost buf = d.input();
    let ghost start = d.position();
    let mut parts = Parts::new();
    let mut i: u64 = 0;
    while i < n
        invariant
            i <= n,
            d.input() == buf,
            buf == old(d).input(),
            start == old(d).position(),
            schema == Schema::FindCustomerReply,
            parse_indexed(schema, buf, start, 0, n as int, blank(schema)) == parse_indexed(
                schema,
                buf,
                d.position(),
                i as int,
                n as int,
                parts.slots(),
            ),
        decreases n - i,
    {
        let ghost before = parts.slots();
        proof {
            lemma_indexed_step(schema, buf, d.position(), i as int, n as int, before);
            lemma_parse_field(schema, i as int, buf, d.position());
        }
        if i == 0 {
            if d.absent(true) {
                parts.customer = None;
            } else {
                match decode_customer(d) {
                    Ok(inner) => {
                        parts.customer = Some(inner);
                    },
                    Err(e) => {
                        return Err(
                            DecodeError::InField {
                                struct_name: "FindCustomerReply",
                                field_name: "customer",
                                source: Box::new(e),
                            },
                        );
                    },
                }
            }
            assert(parts.slots() =~= before.update(0, customer_slot(parts.customer)));
        } else {
            d.skip()?;
        }
        i += 1;
    }
    Ok(parts)
}

/// Reads the `n` entries of the layout by name.
fn read_keyed(d: &mut Decoder<'_>, n: u64) -> (r: Result<Parts, DecodeError>)
    ensures
        final(d).input() == old(d).input(),
        match parse_keyed(
            Schema::FindCustomerReply,
            old(d).input(),
            old(d).position(),
            n as int,
            blank(Schema::FindCustomerReply),
        ) {
            Ok((values, end)) => r matches Ok(parts) && parts.slots() == values
                && final(d).position() == end,
            Err(e) => r == Err::<Parts, DecodeError>(e),
        },
{
    let ghost schema = Schema::FindCustomerReply;
    let ghost buf = d.input();
    let ghost start = d.position();
    let mut parts = Parts::new();
    let mut i: u64 = 0;
    while i < n
        invariant
            i <= n,
            d.input() == buf,
            buf == old(d).input(),
            start == old(d).position(),
            schema == Schema::FindCustomerReply,
            parse_keyed(schema, buf, start, n as int, blank(schema)) == parse_keyed(
                schema,
                buf,
                d.position(),
                n - i,
                parts.slots(),
            ),
        decreases n - i,
    {
        let ghost before = parts.slots();
        proof {
            lemma_keyed_step(schema, buf, d.position(), n - i, before);
        }
        let key = d.text()?;
        proof {
            reveal_with_fuel(position_from, 2);
            lemma_parse_field(schema, 0, buf, d.position());
        }
        if same_text(key.as_str(), "customer") {
            if d.absent(true) {
                parts.customer = None;
            } else {
                match decode_customer(d) {
                    Ok(inner) => {
                        parts.customer = Some(inner);
                    },
                    Err(e) => {
                        return Err(
                            DecodeError::InField {
                                struct_name: "FindCustomerReply",
                                field_name: "customer",
                                source: Box::new(e),
                            },
                        );
                    },
                }
            }
            assert(parts.slots() =~= before.update(0, customer_slot(parts.customer)));
        } else {
            d.skip()?;
        }
        i += 1;
    }
    Ok(parts)
}

/// Reads a `FindCustomerReply` in either layout.
pub fn decode_find_customer_reply(
    d: &mut Decoder<'_>,
) -> (r: Result<FindCustomerReply, DecodeError>)
    ensures
        final(d).input() == old(d).input(),
        match parse_record(Schema::FindCustomerReply, old(d).input(), old(d).position()) {
            Ok((values, end)) => r matches Ok(val) && val.values() == values
                && final(d).position() == end,
            Err(e) => r == Err::<FindCustomerReply, DecodeError>(e),
        },
{
    proof {
        lemma_parse_record(Schema::FindCustomerReply, d.input(), d.position());
    }
    let (layout, n) = d.begin(Schema::FindCustomerReply)?;
    let parts = match layout {
        Layout::Array => read_indexed(d, n)?,
        Layout::Mapping => read_keyed(d, n)?,
    };
    let ghost slots = parts.slots();
    proof {
        reveal_with_fuel(first_missing, 2);
    }
    let customer = parts.customer;
    let val = FindCustomerReply { customer };
    assert(val.values() =~= slots);
    Ok(val)
}

} // verus!

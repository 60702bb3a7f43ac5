//! `AddCustomerRequest` on the wire.

use vstd::prelude::*;
use crate::cbor::same_text;
use crate::coder::{text_slot, Decoder, Encoder};
use crate::error::{DecodeError, EncodeError};
use crate::grammar::{
    blank, entries_bytes, first_missing, lemma_entries_bytes_end, lemma_entry_written,
    lemma_field_bytes, lemma_indexed_step, lemma_keyed_step, lemma_parse_field,
    lemma_parse_record, lemma_record_bytes, parse_indexed, parse_keyed, parse_record,
    record_bytes,
};
use crate::model::AddCustomerRequest;
use crate::schema::{position_from, Layout, Schema, Value};

verus! {

/// The fields seen so far.
struct Parts {
    customer: Option<String>,
    group: Option<String>,
}

impl Parts {
    spec fn slots(&self) -> Seq<Value> {
        seq![
            text_slot(self.customer),
            text_slot(self.group),
        ]
    }

    fn new() -> (parts: Parts)
        ensures
            parts.slots() == blank(Schema::AddCustomerRequest),
    {
        let parts = Parts { customer: None, group: None };
        assert(parts.slots() =~= blank(Schema::AddCustomerRequest));
        parts
    }
}

/// Writes an `AddCustomerRequest` in the given layout.
pub fn encode_add_customer_request_as(
    e: &mut Encoder,
    val: &AddCustomerRequest,
    layout: Layout,
) -> (r: Result<
    (),
    EncodeError,
>)
    ensures
        r is Ok,
        final(e).written() == old(e).written() + record_bytes(
            Schema::AddCustomerRequest,
            val.values(),
            layout,
        ),
{
    let ghost schema = Schema::AddCustomerRequest;
    let ghost values = val.values();
    let ghost target = e.written() + record_bytes(schema, values, layout);
    e.begin(layout, 2)?;
    proof {
        lemma_record_bytes(schema, values, layout);
        assert(e.written() + entries_bytes(schema, values, layout, 0, 2) =~= target);
        lemma_entry_written(schema, values, layout, 0, e.written(), target);
        lemma_field_bytes(schema, 0, values[0], layout);
    }
    e.key(layout, "customer")?;
    e.text(val.customer.as_str())?;
    proof {
        lemma_entry_written(schema, values, layout, 1, e.written(), target);
        lemma_field_bytes(schema, 1, values[1], layout);
    }
    e.key(layout, "group")?;
    e.text(val.group.as_str())?;
    proof {
        lemma_entries_bytes_end(schema, values, layout, 2);
        assert(e.written() =~= target);
    }
    Ok(())
}

/// Writes an `AddCustomerRequest` in the layout by name.
pub fn encode_add_customer_request(
    e: &mut Encoder,
    val: &AddCustomerRequest,
) -> (r: Result<(), EncodeError>)
    ensures
        r is Ok,
        final(e).written() == old(e).written() + record_bytes(
            Schema::AddCustomerRequest,
            val.values(),
            Layout::Mapping,
        ),
{
    encode_add_customer_request_as(e, val, Layout::Mapping)
}

/// Reads the `n` entries of the layout by position.
fn read_indexed(d: &mut Decoder<'_>, n: u64) -> (r: Result<Parts, DecodeError>)
    ensures
        final(d).input() == old(d).input(),
        match parse_indexed(
            Schema::AddCustomerRequest,
            old(d).input(),
            old(d).position(),
            0,
            n as int,
            blank(Schema::AddCustomerRequest),
        ) {
            Ok((values, end)) => r matches Ok(parts) && parts.slots() == values
                && final(d).position() == end,
            Err(e) => r == Err::<Parts, DecodeError>(e),
        },
{
    let ghost schema = Schema::AddCustomerRequest;
    let ghost buf = d.input();
    let ghost start = d.position();
    let mut parts = Parts::new();
    let mut i: u64 = 0;
    while i < n
        invariant
            i <= n,
            d.input() == buf,
            buf == old(d).input(),
            start == old(d).position(),
            schema == Schema::AddCustomerRequest,
            parse_indexed(schema, buf, start, 0, n as int, blank(schema)) == parse_indexed(
                schema,
                buf,
                d.position(),
                i as int,
                n as int,
                parts.slots(),
            ),
        decreases n - i,
    {
        let ghost before = parts.slots();
        proof {
            lemma_indexed_step(schema, buf, d.position(), i as int, n as int, before);
            lemma_parse_field(schema, i as int, buf, d.position());
        }
        if i == 0 {
            parts.customer = d.text_field(false)?;
            assert(parts.slots() =~= before.update(0, text_slot(parts.customer)));
        } else if i == 1 {
            parts.group = d.text_field(false)?;
            assert(parts.slots() =~= before.update(1, text_slot(parts.group)));
        } else {
            d.skip()?;
        }
        i += 1;
    }
    Ok(parts)
}

/// Reads the `n` entries of the layout by name.
fn read_keyed(d: &mut Decoder<'_>, n: u64) -> (r: Result<Parts, DecodeError>)
    ensures
        final(d).input() == old(d).input(),
        match parse_keyed(
            Schema::AddCustomerRequest,
            old(d).input(),
            old(d).position(),
            n as int,
            blank(Schema::AddCustomerRequest),
        ) {
            Ok((values, end)) => r matches Ok(parts) && parts.slots() == values
                && final(d).position() == end,
            Err(e) => r == Err::<Parts, DecodeError>(e),
        },
{
    let ghost schema = Schema::AddCustomerRequest;
    let ghost buf = d.input();
    let ghost start = d.position();
    let mut parts = Parts::new();
    let mut i: u64 = 0;
    while i < n
        invariant
            i <= n,
            d.input() == buf,
            buf == old(d).input(),
            start == old(d).position(),
            schema == Schema::AddCustomerRequest,
            parse_keyed(schema, buf, start, n as int, blank(schema)) == parse_keyed(
                schema,
                buf,
                d.position(),
                n - i,
                parts.slots(),
            ),
        decreases n - i,
    {
        let ghost before = parts.slots();
        proof {
            lemma_keyed_step(schema, buf, d.position(), n - i, before);
        }
        let key = d.text()?;
        proof {
            reveal_with_fuel(position_from, 3);
            lemma_parse_field(schema, 0, buf, d.position());
            lemma_parse_field(schema, 1, buf, d.position());
        }
        if same_text(key.as_str(), "customer") {
            parts.customer = d.text_field(false)?;
            assert(parts.slots() =~= before.update(0, text_slot(parts.customer)));
        } else if same_text(key.as_str(), "group") {
            parts.group = d.text_field(false)?;
            assert(parts.slots() =~= before.update(1, text_slot(parts.group)));
        } else {
            d.skip()?;
        }
        i += 1;
    }
    Ok(parts)
}

/// Reads an `AddCustomerRequest` in either layout.
pub fn decode_add_customer_request(
    d: &mut Decoder<'_>,
) -> (r: Result<AddCustomerRequest, DecodeError>)
    ensures
        final(d).input() == old(d).input(),
        match parse_record(Schema::AddCustomerRequest, old(d).input(), old(d).position()) {
            Ok((values, end)) => r matches Ok(val) && val.values() == values
                && final(d).position() == end,
            Err(e) => r == Err::<AddCustomerRequest, DecodeError>(e),
        },
{
    proof {
        lemma_parse_record(Schema::AddCustomerRequest, d.input(), d.position());
    }
    let (layout, n) = d.begin(Schema::AddCustomerRequest)?;
    let parts = match layout {
        Layout::Array => read_indexed(d, n)?,
        Layout::Mapping => read_keyed(d, n)?,
    };
    let ghost slots = parts.slots();
    proof {
        reveal_with_fuel(first_missing, 3);
    }
    let customer = match parts.customer {
        Some(x) => x,
        None => {
            return Err(
                DecodeError::MissingField {
                    struct_name: "AddCustomerRequest",
                    field_name: "customer",
                    field_index: 0,
                },
            );
        },
    };
    let group = match parts.group {
        Some(x) => x,
        None => {
            return Err(
                DecodeError::MissingField {
                    struct_name: "AddCustomerRequest",
                    field_name: "group",
                    field_index: 1,
                },
            );
        },
    };
    let val = AddCustomerRequest { customer, group };
    assert(val.values() =~= slots);
    Ok(val)
}

} // verus!

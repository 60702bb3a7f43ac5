//! `CustomerGroup` on the wire.

use vstd::prelude::*;
use crate::cbor::same_text;
use crate::coder::{text_list_slot, text_slot, Decoder, Encoder};
use crate::error::{DecodeError, EncodeError};
use crate::grammar::{
    blank, entries_bytes, first_missing, lemma_entries_bytes_end, lemma_entry_written,
    lemma_field_bytes, lemma_indexed_step, lemma_keyed_step, lemma_parse_field,
    lemma_parse_record, lemma_record_bytes, parse_indexed, parse_keyed, parse_record,
    record_bytes,
};
use crate::model::CustomerGroup;
use crate::schema::{position_from, Layout, Schema, Value};

verus! {

/// The fields seen so far.
struct Parts {
    members: Option<Vec<String>>,
    name: Option<String>,
}

impl Parts {
    spec fn slots(&self) -> Seq<Value> {
        seq![
            text_list_slot(self.members),
            text_slot(self.name),
        ]
    }

    fn new() -> (parts: Parts)
        ensures
            parts.slots() == blank(Schema::CustomerGroup),
    {
        let parts = Parts { members: None, name: None };
        assert(parts.slots() =~= blank(Schema::CustomerGroup));
        parts
    }
}

/// Writes a `CustomerGroup` in the given layout.
pub fn encode_customer_group_as(e: &mut Encoder, val: &CustomerGroup, layout: Layout) -> (r: Result<
    (),
    EncodeError,
>)
    ensures
        r is Ok,
        final(e).written() == old(e).written() + record_bytes(
            Schema::CustomerGroup,
            val.values(),
            layout,
        ),
{
    let ghost schema = Schema::CustomerGroup;
    let ghost values = val.values();
    let ghost target = e.written() + record_bytes(schema, values, layout);
    e.begin(layout, 2)?;
    proof {
        lemma_record_bytes(schema, values, layout);
        assert(e.written() + entries_bytes(schema, values, layout, 0, 2) =~= target);
        lemma_entry_written(schema, values, layout, 0, e.written(), target);
        lemma_field_bytes(schema, 0, values[0], layout);
    }
    e.key(layout, "members")?;
    e.optional_text_list(&val.members)?;
    proof {
        lemma_entry_written(schema, values, layout, 1, e.written(), target);
        lemma_field_bytes(schema, 1, values[1], layout);
    }
    e.key(layout, "name")?;
    e.text(val.name.as_str())?;
    proof {
        lemma_entries_bytes_end(schema, values, layout, 2);
        assert(e.written() =~= target);
    }
    Ok(())
}

/// Writes a `CustomerGroup` in the layout by name.
pub fn encode_customer_group(e: &mut Encoder, val: &CustomerGroup) -> (r: Result<(), EncodeError>)
    ensures
        r is Ok,
        final(e).written() == old(e).written() + record_bytes(
            Schema::CustomerGroup,
            val.values(),
            Layout::Mapping,
        ),
{
    encode_customer_group_as(e, val, Layout::Mapping)
}

/// Reads the `n` entries of the layout by position.
fn read_indexed(d: &mut Decoder<'_>, n: u64) -> (r: Result<Parts, DecodeError>)
    ensures
        final(d).input() == old(d).input(),
        match parse_indexed(
            Schema::CustomerGroup,
            old(d).input(),
            old(d).position(),
            0,
            n as int,
            blank(Schema::CustomerGroup),
        ) {
            Ok((values, end)) => r matches Ok(parts) && parts.slots() == values
                && final(d).position() == end,
            Err(e) => r == Err::<Parts, DecodeError>(e),
        },
{
    let ghost schema = Schema::CustomerGroup;
    let ghost buf = d.input();
    let ghost start = d.position();
    let mut parts = Parts::new();
    let mut i: u64 = 0;
    while i < n
        invariant
            i <= n,
            d.input() == buf,
            buf == old(d).input(),
            start == old(d).position(),
            schema == Schema::CustomerGroup,
            parse_indexed(schema, buf, start, 0, n as int, blank(schema)) == parse_indexed(
                schema,
                buf,
                d.position(),
                i as int,
                n as int,
                parts.slots(),
            ),
        decreases n - i,
    {
        let ghost before = parts.slots();
        proof {
            lemma_indexed_step(schema, buf, d.position(), i as int, n as int, before);
            lemma_parse_field(schema, i as int, buf, d.position());
        }
        if i == 0 {
            parts.members = d.text_list_field(true)?;
            assert(parts.slots() =~= before.update(0, text_list_slot(parts.members)));
        } else if i == 1 {
            parts.name = d.text_field(false)?;
            assert(parts.slots() =~= before.update(1, text_slot(parts.name)));
        } else {
            d.skip()?;
        }
        i += 1;
    }
    Ok(parts)
}

/// Reads the `n` entries of the layout by name.
fn read_keyed(d: &mut Decoder<'_>, n: u64) -> (r: Result<Parts, DecodeError>)
    ensures
        final(d).input() == old(d).input(),
        match parse_keyed(
            Schema::CustomerGroup,
            old(d).input(),
            old(d).position(),
            n as int,
            blank(Schema::CustomerGroup),
        ) {
            Ok((values, end)) => r matches Ok(parts) && parts.slots() == values
                && final(d).position() == end,
            Err(e) => r == Err::<Parts, DecodeError>(e),
        },
{
    let ghost schema = Schema::CustomerGroup;
    let ghost buf = d.input();
    let ghost start = d.position();
    let mut parts = Parts::new();
    let mut i: u64 = 0;
    while i < n
        invariant
            i <= n,
            d.input() == buf,
            buf == old(d).input(),
            start == old(d).position(),
            schema == Schema::CustomerGroup,
            parse_keyed(schema, buf, start, n as int, blank(schema)) == parse_keyed(
                schema,
                buf,
                d.position(),
                n - i,
                parts.slots(),
            ),
        decreases n - i,
    {
        let ghost before = parts.slots();
        proof {
            lemma_keyed_step(schema, buf, d.position(), n - i, before);
        }
        let key = d.text()?;
        proof {
            reveal_with_fuel(position_from, 3);
            lemma_parse_field(schema, 0, buf, d.position());
            lemma_parse_field(schema, 1, buf, d.position());
        }
        if same_text(key.as_str(), "members") {
            parts.members = d.text_list_field(true)?;
            assert(parts.slots() =~= before.update(0, text_list_slot(parts.members)));
        } else if same_text(key.as_str(), "name") {
            parts.name = d.text_field(false)?;
            assert(parts.slots() =~= before.update(1, text_slot(parts.name)));
        } else {
            d.skip()?;
        }
        i += 1;
    }
    Ok(parts)
}

/// Reads a `CustomerGroup` in either layout.
pub fn decode_customer_group(d: &mut Decoder<'_>) -> (r: Result<CustomerGroup, DecodeError>)
    ensures
        final(d).input() == old(d).input(),
        match parse_record(Schema::CustomerGroup, old(d).input(), old(d).position()) {
            Ok((values, end)) => r matches Ok(val) && val.values() == values
                && final(d).position() == end,
            Err(e) => r == Err::<CustomerGroup, DecodeError>(e),
        },
{
    proof {
        lemma_parse_record(Schema::CustomerGroup, d.input(), d.position());
    }
    let (layout, n) = d.begin(Schema::CustomerGroup)?;
    let parts = match layout {
        Layout::Array => read_indexed(d, n)?,
        Layout::Mapping => read_keyed(d, n)?,
    };
    let ghost slots = parts.slots();
    proof {
        reveal_with_fuel(first_missing, 3);
    }
    let members = parts.members;
    let name = match parts.name {
        Some(x) => x,
        None => {
            return Err(
                DecodeError::MissingField {
                    struct_name: "CustomerGroup",
                    field_name: "name",
                    field_index: 1,
                },
            );
        },
    };
    let val = CustomerGroup { members, name };
    assert(val.values() =~= slots);
    Ok(val)
}

} // verus!

//! `Customer` on the wire.

use vstd::prelude::*;
use crate::cbor::same_text;
use crate::coder::{text_slot, Decoder, Encoder};
use crate::error::{DecodeError, EncodeError};
use crate::grammar::{
    blank, entries_bytes, first_missing, lemma_entries_bytes_end, lemma_entry_written,
    lemma_field_bytes, lemma_indexed_step, lemma_keyed_step, lemma_parse_field,
    lemma_parse_record, lemma_record_bytes, parse_indexed, parse_keyed, parse_record,
    record_bytes,
};
use crate::model::Customer;
use crate::schema::{position_from, Layout, Schema, Value};

verus! {

/// The fields seen so far.
struct Parts {
    address: Option<String>,
    city: Option<String>,
    email: Option<String>,
    first_name: Option<String>,
    id: Option<String>,
    last_name: Option<String>,
    telephone: Option<String>,
}

impl Parts {
    spec fn slots(&self) -> Seq<Value> {
        seq![
            text_slot(self.address),
            text_slot(self.city),
            text_slot(self.email),
            text_slot(self.first_name),
            text_slot(self.id),
            text_slot(self.last_name),
            text_slot(self.telephone),
        ]
    }

    fn new() -> (parts: Parts)
        ensures
            parts.slots() == blank(Schema::Customer),
    {
        let parts = Parts {
            address: None,
            city: None,
            email: None,
            first_name: None,
            id: None,
            last_name: None,
            telephone: None,
        };
        assert(parts.slots() =~= blank(Schema::Customer));
        parts
    }
}

/// Writes a `Customer` in the given layout.
pub fn encode_customer_as(e: &mut Encoder, val: &Customer, layout: Layout) -> (r: Result<
    (),
    EncodeError,
>)
    ensures
        r is Ok,
        final(e).written() == old(e).written() + record_bytes(
            Schema::Customer,
            val.values(),
            layout,
        ),
{
    let ghost schema = Schema::Customer;
    let ghost values = val.values();
    let ghost target = e.written() + record_bytes(schema, values, layout);
    e.begin(layout, 7)?;
    proof {
        lemma_record_bytes(schema, values, layout);
        assert(e.written() + entries_bytes(schema, values, layout, 0, 7) =~= target);
        lemma_entry_written(schema, values, layout, 0, e.written(), target);
        lemma_field_bytes(schema, 0, values[0], layout);
    }
    e.key(layout, "address")?;
    e.optional_text(&val.address)?;
    proof {
        lemma_entry_written(schema, values, layout, 1, e.written(), target);
        lemma_field_bytes(schema, 1, values[1], layout);
    }
    e.key(layout, "city")?;
    e.optional_text(&val.city)?;
    proof {
        lemma_entry_written(schema, values, layout, 2, e.written(), target);
        lemma_field_bytes(schema, 2, values[2], layout);
    }
    e.key(layout, "email")?;
    e.text(val.email.as_str())?;
    proof {
        lemma_entry_written(schema, values, layout, 3, e.written(), target);
        lemma_field_bytes(schema, 3, values[3], layout);
    }
    e.key(layout, "firstName")?;
    e.text(val.first_name.as_str())?;
    proof {
        lemma_entry_written(schema, values, layout, 4, e.written(), target);
        lemma_field_bytes(schema, 4, values[4], layout);
    }
    e.key(layout, "id")?;
    e.optional_text(&val.id)?;
    proof {
        lemma_entry_written(schema, values, layout, 5, e.written(), target);
        lemma_field_bytes(schema, 5, values[5], layout);
    }
    e.key(layout, "lastName")?;
    e.optional_text(&val.last_name)?;
    proof {
        lemma_entry_written(schema, values, layout, 6, e.written(), target);
        lemma_field_bytes(schema, 6, values[6], layout);
    }
    e.key(layout, "telephone")?;
    e.optional_text(&val.telephone)?;
    proof {
        lemma_entries_bytes_end(schema, values, layout, 7);
        assert(e.written() =~= target);
    }
    Ok(())
}

/// Writes a `Customer` in the layout by name.
pub fn encode_customer(e: &mut Encoder, val: &Customer) -> (r: Result<(), EncodeError>)
    ensures
        r is Ok,
        final(e).written() == old(e).written() + record_bytes(
            Schema::Customer,
            val.values(),
            Layout::Mapping,
        ),
{
    encode_customer_as(e, val, Layout::Mapping)
}

/// Reads the `n` entries of the layout by position.
fn read_indexed(d: &mut Decoder<'_>, n: u64) -> (r: Result<Parts, DecodeError>)
    ensures
        final(d).input() == old(d).input(),
        match parse_indexed(
            Schema::Customer,
            old(d).input(),
            old(d).position(),
            0,
            n as int,
            blank(Schema::Customer),
        ) {
            Ok((values, end)) => r matches Ok(parts) && parts.slots() == values
                && final(d).position() == end,
            Err(e) => r == Err::<Parts, DecodeError>(e),
        },
{
    let ghost schema = Schema::Customer;
    let ghost buf = d.input();
    let ghost start = d.position();
    let mut parts = Parts::new();
    let mut i: u64 = 0;
    while i < n
        invariant
            i <= n,
            d.input() == buf,
            buf == old(d).input(),
            start == old(d).position(),
            schema == Schema::Customer,
            parse_indexed(schema, buf, start, 0, n as int, blank(schema)) == parse_indexed(
                schema,
                buf,
                d.position(),
                i as int,
                n as int,
                parts.slots(),
            ),
        decreases n - i,
    {
        let ghost before = parts.slots();
        proof {
            lemma_indexed_step(schema, buf, d.position(), i as int, n as int, before);
            lemma_parse_field(schema, i as int, buf, d.position());
        }
        if i == 0 {
            parts.address = d.text_field(true)?;
            assert(parts.slots() =~= before.update(0, text_slot(parts.address)));
        } else if i == 1 {
            parts.city = d.text_field(true)?;
            assert(parts.slots() =~= before.update(1, text_slot(parts.city)));
        } else if i == 2 {
            parts.email = d.text_field(false)?;
            assert(parts.slots() =~= before.update(2, text_slot(parts.email)));
        } else if i == 3 {
            parts.first_name = d.text_field(false)?;
            assert(parts.slots() =~= before.update(3, text_slot(parts.first_name)));
        } else if i == 4 {
            parts.id = d.text_field(true)?;
            assert(parts.slots() =~= before.update(4, text_slot(parts.id)));
        } else if i == 5 {
            parts.last_name = d.text_field(true)?;
            assert(parts.slots() =~= before.update(5, text_slot(parts.last_name)));
        } else if i == 6 {
            parts.telephone = d.text_field(true)?;
            assert(parts.slots() =~= before.update(6, text_slot(parts.telephone)));
        } else {
            d.skip()?;
        }
        i += 1;
    }
    Ok(parts)
}

/// Reads the `n` entries of the layout by name.
fn read_keyed(d: &mut Decoder<'_>, n: u64) -> (r: Result<Parts, DecodeError>)
    ensures
        final(d).input() == old(d).input(),
        match parse_keyed(
            Schema::Customer,
            old(d).input(),
            old(d).position(),
            n as int,
            blank(Schema::Customer),
        ) {
            Ok((values, end)) => r matches Ok(parts) && parts.slots() == values
                && final(d).position() == end,
            Err(e) => r == Err::<Parts, DecodeError>(e),
        },
{
    let ghost schema = Schema::Customer;
    let ghost buf = d.input();
    let ghost start = d.position();
    let mut parts = Parts::new();
    let mut i: u64 = 0;
    while i < n
        invariant
            i <= n,
            d.input() == buf,
            buf == old(d).input(),
            start == old(d).position(),
            schema == Schema::Customer,
            parse_keyed(schema, buf, start, n as int, blank(schema)) == parse_keyed(
                schema,
                buf,
                d.position(),
                n - i,
                parts.slots(),
            ),
        decreases n - i,
    {
        let ghost before = parts.slots();
        proof {
            lemma_keyed_step(schema, buf, d.position(), n - i, before);
        }
        let key = d.text()?;
        proof {
            reveal_with_fuel(position_from, 8);
            lemma_parse_field(schema, 0, buf, d.position());
            lemma_parse_field(schema, 1, buf, d.position());
            lemma_parse_field(schema, 2, buf, d.position());
            lemma_parse_field(schema, 3, buf, d.position());
            lemma_parse_field(schema, 4, buf, d.position());
            lemma_parse_field(schema, 5, buf, d.position());
            lemma_parse_field(schema, 6, buf, d.position());
        }
        if same_text(key.as_str(), "address") {
            parts.address = d.text_field(true)?;
            assert(parts.slots() =~= before.update(0, text_slot(parts.address)));
        } else if same_text(key.as_str(), "city") {
            parts.city = d.text_field(true)?;
            assert(parts.slots() =~= before.update(1, text_slot(parts.city)));
        } else if same_text(key.as_str(), "email") {
            parts.email = d.text_field(false)?;
            assert(parts.slots() =~= before.update(2, text_slot(parts.email)));
        } else if same_text(key.as_str(), "firstName") {
            parts.first_name = d.text_field(false)?;
            assert(parts.slots() =~= before.update(3, text_slot(parts.first_name)));
        } else if same_text(key.as_str(), "id") {
            parts.id = d.text_field(true)?;
            assert(parts.slots() =~= before.update(4, text_slot(parts.id)));
        } else if same_text(key.as_str(), "lastName") {
            parts.last_name = d.text_field(true)?;
            assert(parts.slots() =~= before.update(5, text_slot(parts.last_name)));
        } else if same_text(key.as_str(), "telephone") {
            parts.telephone = d.text_field(true)?;
            assert(parts.slots() =~= before.update(6, text_slot(parts.telephone)));
        } else {
            d.skip()?;
        }
        i += 1;
    }
    Ok(parts)
}

/// Reads a `Customer` in either layout.
pub fn decode_customer(d: &mut Decoder<'_>) -> (r: Result<Customer, DecodeError>)
    ensures
        final(d).input() == old(d).input(),
        match parse_record(Schema::Customer, old(d).input(), old(d).position()) {
            Ok((values, end)) => r matches Ok(val) && val.values() == values
                && final(d).position() == end,
            Err(e) => r == Err::<Customer, DecodeError>(e),
        },
{
    proof {
        lemma_parse_record(Schema::Customer, d.input(), d.position());
    }
    let (layout, n) = d.begin(Schema::Customer)?;
    let parts = match layout {
        Layout::Array => read_indexed(d, n)?,
        Layout::Mapping => read_keyed(d, n)?,
    };
    let ghost slots = parts.slots();
    proof {
        reveal_with_fuel(first_missing, 8);
    }
    let address = parts.address;
    let city = parts.city;
    let email = match parts.email {
        Some(x) => x,
        None => {
            return Err(
                DecodeError::MissingField {
                    struct_name: "Customer",
                    field_name: "email",
                    field_index: 2,
                },
            );
        },
    };
    let first_name = match parts.first_name {
        Some(x) => x,
        None => {
            return Err(
                DecodeError::MissingField {
                    struct_name: "Customer",
                    field_name: "first_name",
                    field_index: 3,
                },
            );
        },
    };
    let id = parts.id;
    let last_name = parts.last_name;
    let telephone = parts.telephone;
    let val = Customer {
        address,
        city,
        email,
        first_name,
        id,
        last_name,
        telephone,
    };
    assert(val.values() =~= slots);
    Ok(val)
}

} // verus!

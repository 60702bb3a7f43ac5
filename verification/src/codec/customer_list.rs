//! A list of customers on the wire: an array of `Customer` structs.

use vstd::prelude::*;
use crate::codec::customer::{decode_customer, encode_customer_as};
use crate::coder::{Decoder, Encoder};
use crate::error::{DecodeError, EncodeError};
use crate::grammar::{
    parse_array_head, parse_record_list, parse_records, record_list_bytes, records_bytes,
};
use crate::model::Customer;
use crate::schema::{Layout, Schema, Value};

verus! {

/// The fields of each customer, in wire order.
pub open spec fn customers_values(items: Seq<Customer>) -> Seq<Seq<Value>> {
    Seq::new(items.len(), |i: int| items[i].values())
}

/// Confirms that a list of customers is short enough to travel, and each
/// customer in it.
pub fn confirm_customers(items: &Vec<Customer>)
    ensures
        items@.len() <= u64::MAX,
        forall|k: int| 0 <= k < items@.len() ==> (#[trigger] items@[k]).fits(),
{
    let mut i: usize = 0;
    while i < items.len()
        invariant
            i <= items.len(),
            forall|k: int| 0 <= k < i ==> (#[trigger] items@[k]).fits(),
        decreases items.len() - i,
    {
        items[i].confirm();
        i += 1;
    }
}

/// Writes a list of customers, each in the given layout.
pub fn encode_customer_list_as(
    e: &mut Encoder,
    items: &Vec<Customer>,
    layout: Layout,
) -> (r: Result<
    (),
    EncodeError,
>)
    ensures
        r is Ok,
        final(e).written() == old(e).written() + record_list_bytes(
            Schema::Customer,
            customers_values(items@),
            layout,
        ),
{
    let ghost all = customers_values(items@);
    let ghost target = e.written() + record_list_bytes(Schema::Customer, all, layout);
    let n: usize = items.len();
    e.array(n as u64)?;
    assert(e.written() + records_bytes(Schema::Customer, all, layout, 0) =~= target);
    let mut i: usize = 0;
    while i < n
        invariant
            i <= n,
            n == items.len(),
            all == customers_values(items@),
            e.written() + records_bytes(Schema::Customer, all, layout, i as int) == target,
        decreases n - i,
    {
        let ghost before = e.written();
        encode_customer_as(e, &items[i], layout)?;
        proof {
            assert(all[i as int] == items@[i as int].values());
            assert(e.written() + records_bytes(Schema::Customer, all, layout, i + 1) =~= before
                + records_bytes(Schema::Customer, all, layout, i as int));
        }
        i += 1;
    }
    proof {
        assert(e.written() =~= e.written() + records_bytes(Schema::Customer, all, layout, n as int));
    }
    Ok(())
}

/// Writes a list of customers, each in the layout by name.
pub fn encode_customer_list(e: &mut Encoder, items: &Vec<Customer>) -> (r: Result<(), EncodeError>)
    ensures
        r is Ok,
        final(e).written() == old(e).written() + record_list_bytes(
            Schema::Customer,
            customers_values(items@),
            Layout::Mapping,
        ),
{
    encode_customer_list_as(e, items, Layout::Mapping)
}

/// Reads a list of customers, each in either layout.
pub fn decode_customer_list(d: &mut Decoder<'_>) -> (r: Result<Vec<Customer>, DecodeError>)
    ensures
        final(d).input() == old(d).input(),
        match parse_record_list(Schema::Customer, old(d).input(), old(d).position()) {
            Ok((records, end)) => r matches Ok(items) && customers_values(items@) == records
                && final(d).position() == end,
            Err(e) => r == Err::<Vec<Customer>, DecodeError>(e),
        },
{
    let ghost buf = d.input();
    let ghost origin = d.position();
    let n: u64 = d.array()?;
    let ghost start = d.position();
    let mut out: Vec<Customer> = Vec::new();
    let mut i: u64 = 0;
    proof {
        assert(customers_values(out@) =~= Seq::<Seq<Value>>::empty());
    }
    while i < n
        invariant
            i <= n,
            d.input() == buf,
            buf == old(d).input(),
            origin == old(d).position(),
            parse_array_head(buf, origin) == Ok::<(int, int), DecodeError>((n as int, start)),
            parse_records(Schema::Customer, buf, start, n as int, Seq::empty()) == parse_records(
                Schema::Customer,
                buf,
                d.position(),
                n - i,
                customers_values(out@),
            ),
        decreases n - i,
    {
        let ghost before = customers_values(out@);
        let item = decode_customer(d)?;
        out.push(item);
        proof {
            assert(customers_values(out@) =~= before.push(item.values()));
        }
        i += 1;
    }
    Ok(out)
}

} // verus!

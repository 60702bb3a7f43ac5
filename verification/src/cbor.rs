//! The calls into `minicbor`, which turns single CBOR items into bytes
//! and back.
//!
//! Each function here holds one call. Its contract is taken from the
//! source of `minicbor` and is not proved.
//!
//! The writers append to a vector. A vector takes every byte, so a write
//! to it does not fail: each writer says that it is done. The readers
//! work on the input and a position in it, and hand back the position
//! behind what they read. An item is skipped only once its end is known
//! to lie within the input.

use vstd::prelude::*;
use crate::error::WireKind;
use crate::wire::{
    count_at, flag_at, flag_bytes, head_bytes, item_end, kind_at, null_bytes, text_at,
    text_bytes, MAJOR_ARRAY, MAJOR_MAP,
};

verus! {

/// `minicbor::decode::Error`: why a read failed. Nothing is known of it.
#[verifier::external_type_specification]
#[verifier::external_body]
pub struct ExDecodeError(minicbor::decode::Error);

/// `Encoder::array`: appends the head of an array of `len` items.
#[verifier::external_body]
pub(crate) fn put_array_head(out: &mut Vec<u8>, len: u64) -> (done: bool)
    ensures
        done,
        final(out)@ == old(out)@ + head_bytes(MAJOR_ARRAY, len as int),
{
    minicbor::Encoder::new(out).array(len).is_ok()
}

/// `Encoder::map`: appends the head of a map of `len` entries.
#[verifier::external_body]
pub(crate) fn put_map_head(out: &mut Vec<u8>, len: u64) -> (done: bool)
    ensures
        done,
        final(out)@ == old(out)@ + head_bytes(MAJOR_MAP, len as int),
{
    minicbor::Encoder::new(out).map(len).is_ok()
}

/// `Encoder::str`: appends a text item, the length in bytes and the text
/// in UTF-8.
#[verifier::external_body]
pub(crate) fn put_text(out: &mut Vec<u8>, s: &str) -> (done: bool)
    ensures
        done,
        final(out)@ == old(out)@ + text_bytes(s@),
{
    minicbor::Encoder::new(out).str(s).is_ok()
}

/// `Encoder::bool`: appends the one byte of a flag.
#[verifier::external_body]
pub(crate) fn put_flag(out: &mut Vec<u8>, x: bool) -> (done: bool)
    ensures
        done,
        final(out)@ == old(out)@ + flag_bytes(x),
{
    minicbor::Encoder::new(out).bool(x).is_ok()
}

/// `Encoder::null`: appends the one byte of a null.
#[verifier::external_body]
pub(crate) fn put_null(out: &mut Vec<u8>) -> (done: bool)
    ensures
        done,
        final(out)@ == old(out)@ + null_bytes(),
{
    minicbor::Encoder::new(out).null().is_ok()
}

/// `Decoder::datatype` at `pos`: the kind of the next item, read off its
/// first byte. It fails where `kind_at` has no answer.
#[verifier::external_body]
pub(crate) fn peek_kind(buf: &[u8], pos: usize) -> (r: Result<WireKind, minicbor::decode::Error>)
    ensures
        r is Ok <==> kind_at(buf@, pos as int) is Some,
        r matches Ok(k) ==> kind_at(buf@, pos as int) == Some(k),
{
    let mut d = minicbor::Decoder::new(buf);
    d.set_position(pos);
    Ok(match d.datatype()? {
        minicbor::data::Type::Bool => WireKind::Flag,
        minicbor::data::Type::Null => WireKind::Null,
        minicbor::data::Type::String => WireKind::Text,
        minicbor::data::Type::Array => WireKind::Array,
        minicbor::data::Type::Map => WireKind::Mapping,
        _ => WireKind::Other,
    })
}

/// `Decoder::bool` at `pos`: the flag and the position behind it.
#[verifier::external_body]
pub(crate) fn read_flag(
    buf: &[u8],
    pos: usize,
) -> (r: Result<(bool, usize), minicbor::decode::Error>)
    ensures
        r is Ok <==> flag_at(buf@, pos as int) is Some,
        r matches Ok((x, p)) ==> flag_at(buf@, pos as int) == Some((x, p as int)),
{
    let mut d = minicbor::Decoder::new(buf);
    d.set_position(pos);
    let x = d.bool()?;
    Ok((x, d.position()))
}

/// `Decoder::str` at `pos`: the text of definite length and the position
/// behind it. The text must lie within the input and be UTF-8.
#[verifier::external_body]
pub(crate) fn read_text(
    buf: &[u8],
    pos: usize,
) -> (r: Result<(String, usize), minicbor::decode::Error>)
    ensures
        r is Ok <==> text_at(buf@, pos as int) is Some,
        r matches Ok((s, p)) ==> text_at(buf@, pos as int) == Some((s@, p as int)),
{
    let mut d = minicbor::Decoder::new(buf);
    d.set_position(pos);
    let s = d.str()?.to_string();
    Ok((s, d.position()))
}

/// What `read_array_head` and `read_map_head` hand back, as the numbers
/// that `count_at` speaks of.
pub open spec fn head_read(len: Option<u64>, pos: usize) -> (Option<int>, int) {
    (
        match len {
            Some(n) => Some(n as int),
            None => None,
        },
        pos as int,
    )
}

/// `Decoder::array` at `pos`: the number of items that the head announces,
/// none for an array of indefinite length, and the position behind the head.
#[verifier::external_body]
pub(crate) fn read_array_head(buf: &[u8], pos: usize) -> (r: Result<
    (Option<u64>, usize),
    minicbor::decode::Error,
>)
    ensures
        r is Ok <==> count_at(buf@, pos as int, MAJOR_ARRAY) is Some,
        r matches Ok((n, p)) ==> count_at(buf@, pos as int, MAJOR_ARRAY) == Some(head_read(n, p)),
{
    let mut d = minicbor::Decoder::new(buf);
    d.set_position(pos);
    let n = d.array()?;
    Ok((n, d.position()))
}

/// `Decoder::map` at `pos`: the number of entries that the head announces,
/// none for a map of indefinite length, and the position behind the head.
#[verifier::external_body]
pub(crate) fn read_map_head(buf: &[u8], pos: usize) -> (r: Result<
    (Option<u64>, usize),
    minicbor::decode::Error,
>)
    ensures
        r is Ok <==> count_at(buf@, pos as int, MAJOR_MAP) is Some,
        r matches Ok((n, p)) ==> count_at(buf@, pos as int, MAJOR_MAP) == Some(head_read(n, p)),
{
    let mut d = minicbor::Decoder::new(buf);
    d.set_position(pos);
    let n = d.map()?;
    Ok((n, d.position()))
}

/// `Decoder::skip` at `pos`: the position behind the item. The item must
/// be closed within the input, which is what `item_end` asks: every string
/// lies within the input, every array and map holds the items that its
/// head announces, and every item of indefinite length has its break. The
/// call then reads to the end of the item and does not fail. On a string
/// of indefinite length that the end of the input leaves open the call
/// would not return.
#[verifier::external_body]
pub(crate) fn skip_item(buf: &[u8], pos: usize) -> (r: Result<usize, minicbor::decode::Error>)
    requires
        item_end(buf@, pos as int) is Some,
    ensures
        r is Ok,
        r matches Ok(p) ==> item_end(buf@, pos as int) == Some(p as int),
{
    let mut d = minicbor::Decoder::new(buf);
    d.set_position(pos);
    d.skip()?;
    Ok(d.position())
}

/// `str::eq`: whether two texts hold the same characters.
#[verifier::external_body]
pub(crate) fn same_text(a: &str, b: &str) -> (r: bool)
    ensures
        r == (a@ == b@),
{
    a == b
}

} // verus!

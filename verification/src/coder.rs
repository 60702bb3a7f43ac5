//! The encoder that collects the bytes of a message and the decoder that
//! walks over them.

use vstd::prelude::*;
use crate::cbor::{
    peek_kind, put_array_head, put_flag, put_map_head, put_null, put_text, read_array_head,
    read_flag, read_map_head, read_text, skip_item,
};
use crate::error::{DecodeError, EncodeError, WireKind};
use crate::grammar::{
    absent_at, key_bytes, layout_major, parse_array_head, parse_flag, parse_flag_value,
    parse_kind, parse_record_head, parse_skip, parse_text, parse_text_list,
    parse_text_list_value, parse_text_value, parse_texts, text_list_bytes, texts_bytes,
};
use crate::scan::find_end;
use crate::schema::{Layout, Schema, Value};
use crate::wire::{flag_bytes, head_bytes, null_bytes, text_bytes, MAJOR_ARRAY};

verus! {

/// The value of a field that may hold a text.
pub open spec fn text_slot(x: Option<String>) -> Value {
    match x {
        Some(s) => Value::Text(s@),
        None => Value::Absent,
    }
}

/// The value of a field that may hold a flag.
pub open spec fn flag_slot(x: Option<bool>) -> Value {
    match x {
        Some(b) => Value::Flag(b),
        None => Value::Absent,
    }
}

/// The value of a field that may hold a list of texts.
pub open spec fn text_list_slot(x: Option<Vec<String>>) -> Value {
    match x {
        Some(items) => Value::TextList(items.deep_view()),
        None => Value::Absent,
    }
}

/// The bytes of a value that holds no struct.
pub open spec fn plain_bytes(v: Value) -> Seq<u8> {
    match v {
        Value::Absent => null_bytes(),
        Value::Text(s) => text_bytes(s),
        Value::Flag(x) => flag_bytes(x),
        Value::TextList(items) => text_list_bytes(items),
        Value::Record(_) => Seq::empty(),
    }
}

/// Collects the bytes of a message.
pub struct Encoder {
    out: Vec<u8>,
}

impl Encoder {
    /// The bytes written so far.
    pub closed spec fn written(&self) -> Seq<u8> {
        self.out@
    }

    pub fn new() -> (e: Encoder)
        ensures
            e.written() == Seq::<u8>::empty(),
    {
        Encoder { out: Vec::new() }
    }

    /// Hands out the bytes written.
    pub fn into_inner(self) -> (out: Vec<u8>)
        ensures
            out@ == self.written(),
    {
        self.out
    }

    /// Writes the head of a struct of `len` fields.
    pub fn begin(&mut self, layout: Layout, len: u64) -> (r: Result<(), EncodeError>)
        ensures
            r is Ok,
            final(self).written() == old(self).written() + head_bytes(
                layout_major(layout),
                len as int,
            ),
    {
        let done = match layout {
            Layout::Array => put_array_head(&mut self.out, len),
            Layout::Mapping => put_map_head(&mut self.out, len),
        };
        if done {
            Ok(())
        } else {
            Err(EncodeError)
        }
    }

    /// Writes the head of an array of `len` items.
    pub fn array(&mut self, len: u64) -> (r: Result<(), EncodeError>)
        ensures
            r is Ok,
            final(self).written() == old(self).written() + head_bytes(MAJOR_ARRAY, len as int),
    {
        if put_array_head(&mut self.out, len) {
            Ok(())
        } else {
            Err(EncodeError)
        }
    }

    /// Writes what stands before a field's value.
    pub fn key(&mut self, layout: Layout, key: &str) -> (r: Result<(), EncodeError>)
        ensures
            r is Ok,
            final(self).written() == old(self).written() + key_bytes(layout, key@),
    {
        match layout {
            Layout::Array => Ok(()),
            Layout::Mapping => self.text(key),
        }
    }

    pub fn text(&mut self, s: &str) -> (r: Result<(), EncodeError>)
        ensures
            r is Ok,
            final(self).written() == old(self).written() + text_bytes(s@),
    {
        if put_text(&mut self.out, s) {
            Ok(())
        } else {
            Err(EncodeError)
        }
    }

    pub fn flag(&mut self, x: bool) -> (r: Result<(), EncodeError>)
        ensures
            r is Ok,
            final(self).written() == old(self).written() + flag_bytes(x),
    {
        if put_flag(&mut self.out, x) {
            Ok(())
        } else {
            Err(EncodeError)
        }
    }

    pub fn null(&mut self) -> (r: Result<(), EncodeError>)
        ensures
            r is Ok,
            final(self).written() == old(self).written() + null_bytes(),
    {
        if put_null(&mut self.out) {
            Ok(())
        } else {
            Err(EncodeError)
        }
    }

    /// Writes a text, or a null where there is none.
    pub fn optional_text(&mut self, x: &Option<String>) -> (r: Result<(), EncodeError>)
        ensures
            r is Ok,
            final(self).written() == old(self).written() + plain_bytes(text_slot(*x)),
    {
        match x {
            Some(s) => self.text(s.as_str()),
            None => self.null(),
        }
    }

    /// Writes a list of texts.
    pub fn text_list(&mut self, items: &Vec<String>) -> (r: Result<(), EncodeError>)
        ensures
            r is Ok,
            final(self).written() == old(self).written() + text_list_bytes(items.deep_view()),
    {
        let ghost start = self.written();
        let ghost all = items.deep_view();
        let n: usize = items.len();
        self.array(n as u64)?;
        let mut i: usize = 0;
        while i < n
            invariant
                i <= n,
                n == items.len(),
                all == items.deep_view(),
                self.written() + texts_bytes(all, i as int) == start + text_list_bytes(all),
            decreases n - i,
        {
            let ghost before = self.written();
            self.text(items[i].as_str())?;
            proof {
                assert(all[i as int] == items@[i as int]@);
                assert(self.written() + texts_bytes(all, i + 1) =~= before + texts_bytes(
                    all,
                    i as int,
                ));
            }
            i += 1;
        }
        proof {
            assert(self.written() =~= self.written() + texts_bytes(all, n as int));
        }
        Ok(())
    }

    /// Writes a list of texts, or a null where there is none.
    pub fn optional_text_list(&mut self, x: &Option<Vec<String>>) -> (r: Result<(), EncodeError>)
        ensures
            r is Ok,
            final(self).written() == old(self).written() + plain_bytes(text_list_slot(*x)),
    {
        match x {
            Some(items) => self.text_list(items),
            None => self.null(),
        }
    }
}

/// Walks over the bytes of a message.
pub struct Decoder<'b> {
    buf: &'b [u8],
    pos: usize,
}

impl<'b> Decoder<'b> {
    /// The bytes that the decoder walks over.
    pub closed spec fn input(&self) -> Seq<u8> {
        self.buf@
    }

    /// The index of the byte that the decoder reads next.
    pub closed spec fn position(&self) -> int {
        self.pos as int
    }

    pub fn new(bytes: &'b [u8]) -> (d: Decoder<'b>)
        ensures
            d.input() == bytes@,
            d.position() == 0,
    {
        Decoder { buf: bytes, pos: 0 }
    }

    /// The index of the byte that the decoder reads next.
    pub fn offset(&self) -> (r: usize)
        ensures
            r == self.position(),
    {
        self.pos
    }

    /// Whether every byte has been read.
    pub fn at_end(&self) -> (r: bool)
        ensures
            r == (self.position() >= self.input().len()),
    {
        self.pos >= self.buf.len()
    }

    /// The kind of the next item. Reads nothing.
    pub fn kind(&self) -> (r: Result<WireKind, DecodeError>)
        ensures
            r == parse_kind(self.input(), self.position()),
    {
        match peek_kind(self.buf, self.pos) {
            Ok(k) => Ok(k),
            Err(_) => Err(DecodeError::Malformed),
        }
    }

    /// Reads a text.
    pub fn text(&mut self) -> (r: Result<String, DecodeError>)
        ensures
            final(self).input() == old(self).input(),
            match parse_text(old(self).input(), old(self).position()) {
                Ok((s, p)) => r matches Ok(t) && t@ == s && final(self).position() == p,
                Err(e) => r == Err::<String, DecodeError>(e)
                    && final(self).position() == old(self).position(),
            },
    {
        match self.kind()? {
            WireKind::Text => match read_text(self.buf, self.pos) {
                Ok((s, p)) => {
                    self.pos = p;
                    Ok(s)
                },
                Err(_) => Err(DecodeError::Malformed),
            },
            k => Err(DecodeError::TypeMismatch { expected: WireKind::Text, found: k }),
        }
    }

    /// Reads a flag.
    pub fn flag(&mut self) -> (r: Result<bool, DecodeError>)
        ensures
            final(self).input() == old(self).input(),
            match parse_flag(old(self).input(), old(self).position()) {
                Ok((x, p)) => r == Ok::<bool, DecodeError>(x) && final(self).position() == p,
                Err(e) => r == Err::<bool, DecodeError>(e)
                    && final(self).position() == old(self).position(),
            },
    {
        match self.kind()? {
            WireKind::Flag => match read_flag(self.buf, self.pos) {
                Ok((x, p)) => {
                    self.pos = p;
                    Ok(x)
                },
                Err(_) => Err(DecodeError::Malformed),
            },
            k => Err(DecodeError::TypeMismatch { expected: WireKind::Flag, found: k }),
        }
    }

    /// Reads the head of an array of definite length: the number of items.
    pub fn array(&mut self) -> (r: Result<u64, DecodeError>)
        ensures
            final(self).input() == old(self).input(),
            match parse_array_head(old(self).input(), old(self).position()) {
                Ok((n, p)) => r == Ok::<u64, DecodeError>(n as u64)
                    && n == n as u64
                    && final(self).position() == p,
                Err(e) => r == Err::<u64, DecodeError>(e)
                    && final(self).position() == old(self).position(),
            },
    {
        match self.kind()? {
            WireKind::Array => match read_array_head(self.buf, self.pos) {
                Ok((Some(n), p)) => {
                    self.pos = p;
                    Ok(n)
                },
                _ => Err(DecodeError::Malformed),
            },
            k => Err(DecodeError::TypeMismatch { expected: WireKind::Array, found: k }),
        }
    }

    /// Reads the head of a struct: its layout and the number of entries.
    pub fn begin(&mut self, schema: Schema) -> (r: Result<(Layout, u64), DecodeError>)
        ensures
            final(self).input() == old(self).input(),
            match parse_record_head(schema, old(self).input(), old(self).position()) {
                Ok(((layout, n), p)) => r == Ok::<(Layout, u64), DecodeError>((layout, n as u64))
                    && n == n as u64 && final(self).position() == p,
                Err(e) => r == Err::<(Layout, u64), DecodeError>(e) && final(self).position()
                    == old(self).position(),
            },
    {
        match self.kind()? {
            WireKind::Array => match read_array_head(self.buf, self.pos) {
                Ok((Some(n), p)) => {
                    self.pos = p;
                    Ok((Layout::Array, n))
                },
                _ => Err(DecodeError::Malformed),
            },
            WireKind::Mapping => match read_map_head(self.buf, self.pos) {
                Ok((Some(n), p)) => {
                    self.pos = p;
                    Ok((Layout::Mapping, n))
                },
                _ => Err(DecodeError::Malformed),
            },
            k => Err(DecodeError::NotAStruct { struct_name: schema.struct_name(), found: k }),
        }
    }

    /// Skips the next item, whatever it holds, if it is closed within the
    /// input. Where the input ends before the item does, the input is
    /// malformed.
    pub fn skip(&mut self) -> (r: Result<(), DecodeError>)
        ensures
            final(self).input() == old(self).input(),
            match parse_skip(old(self).input(), old(self).position()) {
                Ok(p) => r is Ok && final(self).position() == p,
                Err(e) => r == Err::<(), DecodeError>(e) && final(self).position() == old(self).position(),
            },
    {
        match find_end(self.buf, self.pos) {
            Some(_) => match skip_item(self.buf, self.pos) {
                Ok(p) => {
                    self.pos = p;
                    Ok(())
                },
                Err(_) => Err(DecodeError::Malformed),
            },
            None => Err(DecodeError::Malformed),
        }
    }

    /// Whether a null stands where an optional field is due. Reads the
    /// null if so.
    pub fn absent(&mut self, optional: bool) -> (r: bool)
        ensures
            final(self).input() == old(self).input(),
            r == absent_at(optional, old(self).input(), old(self).position()),
            r ==> final(self).position() == old(self).position() + 1,
            !r ==> final(self).position() == old(self).position(),
    {
        if !optional {
            return false;
        }
        match peek_kind(self.buf, self.pos) {
            Ok(WireKind::Null) => {
                let len: usize = self.buf.len();
                assert(self.pos < len);
                self.pos = self.pos + 1;
                true
            },
            _ => false,
        }
    }

    /// Reads the value of a field that holds a text.
    pub fn text_field(&mut self, optional: bool) -> (r: Result<Option<String>, DecodeError>)
        ensures
            final(self).input() == old(self).input(),
            match parse_text_value(optional, old(self).input(), old(self).position()) {
                Ok((v, p)) => r matches Ok(x) && text_slot(x) == v && final(self).position() == p,
                Err(e) => r == Err::<Option<String>, DecodeError>(e),
            },
    {
        if self.absent(optional) {
            Ok(None)
        } else {
            Ok(Some(self.text()?))
        }
    }

    /// Reads the value of a field that holds a flag.
    pub fn flag_field(&mut self, optional: bool) -> (r: Result<Option<bool>, DecodeError>)
        ensures
            final(self).input() == old(self).input(),
            match parse_flag_value(optional, old(self).input(), old(self).position()) {
                Ok((v, p)) => r matches Ok(x) && flag_slot(x) == v && final(self).position() == p,
                Err(e) => r == Err::<Option<bool>, DecodeError>(e),
            },
    {
        if self.absent(optional) {
            Ok(None)
        } else {
            Ok(Some(self.flag()?))
        }
    }

    /// Reads a list of texts.
    pub fn text_list(&mut self) -> (r: Result<Vec<String>, DecodeError>)
        ensures
            final(self).input() == old(self).input(),
            match parse_text_list(old(self).input(), old(self).position()) {
                Ok((items, p)) => r matches Ok(v)
                    && v.deep_view() == items
                    && final(self).position() == p,
                Err(e) => r == Err::<Vec<String>, DecodeError>(e),
            },
    {
        let ghost buf = self.input();
        let ghost origin = self.position();
        let n: u64 = self.array()?;
        let ghost start = self.position();
        let mut out: Vec<String> = Vec::new();
        let mut i: u64 = 0;
        proof {
            assert(out.deep_view() =~= Seq::<Seq<char>>::empty());
        }
        while i < n
            invariant
                i <= n,
                self.input() == buf,
                buf == old(self).input(),
                origin == old(self).position(),
                parse_array_head(buf, origin) == Ok::<(int, int), DecodeError>((n as int, start)),
                parse_texts(buf, start, n as int, Seq::empty()) == parse_texts(
                    buf,
                    self.position(),
                    n - i,
                    out.deep_view(),
                ),
            decreases n - i,
        {
            let ghost before = out.deep_view();
            let s = self.text()?;
            out.push(s);
            proof {
                assert(out.deep_view() =~= before.push(s@));
            }
            i += 1;
        }
        Ok(out)
    }

    /// Reads the value of a field that holds a list of texts.
    pub fn text_list_field(&mut self, optional: bool) -> (r: Result<
        Option<Vec<String>>,
        DecodeError,
    >)
        ensures
            final(self).input() == old(self).input(),
            match parse_text_list_value(optional, old(self).input(), old(self).position()) {
                Ok((v, p)) => r matches Ok(x) && text_list_slot(x) == v && final(self).position()
                    == p,
                Err(e) => r == Err::<Option<Vec<String>>, DecodeError>(e),
            },
    {
        if self.absent(optional) {
            Ok(None)
        } else {
            Ok(Some(self.text_list()?))
        }
    }
}

} // verus!

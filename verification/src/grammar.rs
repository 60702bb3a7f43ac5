//! The wire format of a struct: which bytes stand for which values.
//!
//! A struct travels as an array of its fields in wire order, or as a map
//! from field names to fields in any order. A reader tells the two apart
//! by the first byte.

use vstd::prelude::*;
use crate::error::{DecodeError, WireKind};
use crate::schema::{FieldType, Layout, Schema, Value};
use crate::wire::{
    count_at, flag_at, flag_bytes, head_bytes, kind_at, null_bytes, skip_at, text_at, text_bytes,
    MAJOR_ARRAY, MAJOR_MAP,
};

verus! {

// ---------------------------------------------------------------- writing

/// The texts from `i` on, one item after the other.
pub open spec fn texts_bytes(items: Seq<Seq<char>>, i: int) -> Seq<u8>
    decreases items.len() - i,
{
    if i < 0 || i >= items.len() {
        Seq::empty()
    } else {
        text_bytes(items[i]) + texts_bytes(items, i + 1)
    }
}

/// A list of texts: an array of text items.
pub open spec fn text_list_bytes(items: Seq<Seq<char>>) -> Seq<u8> {
    head_bytes(MAJOR_ARRAY, items.len() as int) + texts_bytes(items, 0)
}

/// The first byte's major type for a layout.
pub open spec fn layout_major(layout: Layout) -> u8 {
    match layout {
        Layout::Array => MAJOR_ARRAY,
        Layout::Mapping => MAJOR_MAP,
    }
}

/// The value of field `i`. An absent value travels as a null.
pub open spec fn field_bytes(schema: Schema, i: int, v: Value, layout: Layout) -> Seq<u8>
    decreases schema.depth(), 0nat, 0nat,
{
    match v {
        Value::Absent => null_bytes(),
        Value::Text(s) => text_bytes(s),
        Value::Flag(x) => flag_bytes(x),
        Value::TextList(items) => text_list_bytes(items),
        Value::Record(values) => match schema.nested(i) {
            Some(inner) => record_bytes(inner, values, layout),
            None => Seq::empty(),
        },
    }
}

/// What stands before a field's value: in the layout by name its key, in
/// the layout by position nothing.
pub open spec fn key_bytes(layout: Layout, key: Seq<char>) -> Seq<u8> {
    match layout {
        Layout::Array => Seq::empty(),
        Layout::Mapping => text_bytes(key),
    }
}

/// The fields from `i` up to `m`. In the layout by name each value follows
/// its key.
pub open spec fn entries_bytes(
    schema: Schema,
    values: Seq<Value>,
    layout: Layout,
    i: int,
    m: int,
) -> Seq<u8>
    decreases schema.depth(), 1nat, m - i,
{
    if i < 0 || i >= m || i >= schema.fields().len() {
        Seq::empty()
    } else {
        key_bytes(layout, schema.fields()[i].key@) + field_bytes(schema, i, values[i], layout)
            + entries_bytes(schema, values, layout, i + 1, m)
    }
}

/// A struct: the head with the number of fields, then every field.
pub open spec fn record_bytes(schema: Schema, values: Seq<Value>, layout: Layout) -> Seq<u8>
    decreases schema.depth(), 2nat, 0nat,
{
    head_bytes(layout_major(layout), schema.fields().len() as int) + entries_bytes(
        schema,
        values,
        layout,
        0,
        schema.fields().len() as int,
    )
}

/// The records from `i` on, one struct after the other.
pub open spec fn records_bytes(
    schema: Schema,
    records: Seq<Seq<Value>>,
    layout: Layout,
    i: int,
) -> Seq<u8>
    decreases records.len() - i,
{
    if i < 0 || i >= records.len() {
        Seq::empty()
    } else {
        record_bytes(schema, records[i], layout) + records_bytes(schema, records, layout, i + 1)
    }
}

/// A list of structs: an array of structs.
pub open spec fn record_list_bytes(
    schema: Schema,
    records: Seq<Seq<Value>>,
    layout: Layout,
) -> Seq<u8> {
    head_bytes(MAJOR_ARRAY, records.len() as int) + records_bytes(schema, records, layout, 0)
}

// ---------------------------------------------------------------- reading

/// What reading gives: the value and the position behind it, or the failure.
pub type Parsed<T> = Result<(T, int), DecodeError>;

/// The kind of the item at `pos`. Where the first byte cannot be
/// classified, the input is malformed.
pub open spec fn parse_kind(buf: Seq<u8>, pos: int) -> Result<WireKind, DecodeError> {
    match kind_at(buf, pos) {
        Some(k) => Ok(k),
        None => Err(DecodeError::Malformed),
    }
}

/// A text. An item of another kind is a mismatch; a text that is cut
/// short or is not UTF-8 is malformed.
pub open spec fn parse_text(buf: Seq<u8>, pos: int) -> Parsed<Seq<char>> {
    match kind_at(buf, pos) {
        None => Err(DecodeError::Malformed),
        Some(WireKind::Text) => match text_at(buf, pos) {
            Some(found) => Ok(found),
            None => Err(DecodeError::Malformed),
        },
        Some(k) => Err(DecodeError::TypeMismatch { expected: WireKind::Text, found: k }),
    }
}

/// A flag.
pub open spec fn parse_flag(buf: Seq<u8>, pos: int) -> Parsed<bool> {
    match kind_at(buf, pos) {
        None => Err(DecodeError::Malformed),
        Some(WireKind::Flag) => match flag_at(buf, pos) {
            Some(found) => Ok(found),
            None => Err(DecodeError::Malformed),
        },
        Some(k) => Err(DecodeError::TypeMismatch { expected: WireKind::Flag, found: k }),
    }
}

/// The head of an array of definite length: the number of items.
pub open spec fn parse_array_head(buf: Seq<u8>, pos: int) -> Parsed<int> {
    match kind_at(buf, pos) {
        None => Err(DecodeError::Malformed),
        Some(WireKind::Array) => match count_at(buf, pos, MAJOR_ARRAY) {
            Some((Some(n), p)) => Ok((n, p)),
            _ => Err(DecodeError::Malformed),
        },
        Some(k) => Err(DecodeError::TypeMismatch { expected: WireKind::Array, found: k }),
    }
}

/// `remaining` texts, one behind the other, added to `acc`.
pub open spec fn parse_texts(buf: Seq<u8>, pos: int, remaining: int, acc: Seq<Seq<char>>) -> Parsed<
    Seq<Seq<char>>,
>
    decreases remaining,
{
    if remaining <= 0 {
        Ok((acc, pos))
    } else {
        match parse_text(buf, pos) {
            Ok((s, p)) => parse_texts(buf, p, remaining - 1, acc.push(s)),
            Err(e) => Err(e),
        }
    }
}

/// A list of texts.
pub open spec fn parse_text_list(buf: Seq<u8>, pos: int) -> Parsed<Seq<Seq<char>>> {
    match parse_array_head(buf, pos) {
        Ok((n, p)) => parse_texts(buf, p, n, Seq::empty()),
        Err(e) => Err(e),
    }
}

/// Skipping the item at `pos`, whatever it holds. An item that is not
/// closed within the input is malformed.
pub open spec fn parse_skip(buf: Seq<u8>, pos: int) -> Result<int, DecodeError> {
    match skip_at(buf, pos) {
        Some(p) => Ok(p),
        None => Err(DecodeError::Malformed),
    }
}

/// A struct with no field seen yet.
pub open spec fn blank(schema: Schema) -> Seq<Value> {
    Seq::new(schema.fields().len(), |i: int| Value::Absent)
}

/// The first field from `i` on that the struct cannot do without and that
/// `values` does not hold.
pub open spec fn first_missing(schema: Schema, values: Seq<Value>, i: int) -> Option<int>
    decreases schema.fields().len() - i,
{
    if i < 0 || i >= schema.fields().len() {
        None
    } else if !schema.fields()[i].optional && values[i] is Absent {
        Some(i)
    } else {
        first_missing(schema, values, i + 1)
    }
}

/// The failure that reports field `i` as missing.
pub open spec fn missing_field(schema: Schema, i: int) -> DecodeError {
    DecodeError::MissingField {
        struct_name: schema.name(),
        field_name: schema.fields()[i].name,
        field_index: i as u64,
    }
}

/// The failure of a nested struct, with the field that holds it.
pub open spec fn in_field(schema: Schema, i: int, source: DecodeError) -> DecodeError {
    DecodeError::InField {
        struct_name: schema.name(),
        field_name: schema.fields()[i].name,
        source: Box::new(source),
    }
}

/// Whether the place of an optional field holds a null, which means that
/// the field is absent.
pub open spec fn absent_at(optional: bool, buf: Seq<u8>, pos: int) -> bool {
    optional && kind_at(buf, pos) == Some(WireKind::Null)
}

/// The value of a field that holds a text.
pub open spec fn parse_text_value(optional: bool, buf: Seq<u8>, pos: int) -> Parsed<Value> {
    if absent_at(optional, buf, pos) {
        Ok((Value::Absent, pos + 1))
    } else {
        match parse_text(buf, pos) {
            Ok((s, p)) => Ok((Value::Text(s), p)),
            Err(e) => Err(e),
        }
    }
}

/// The value of a field that holds a flag.
pub open spec fn parse_flag_value(optional: bool, buf: Seq<u8>, pos: int) -> Parsed<Value> {
    if absent_at(optional, buf, pos) {
        Ok((Value::Absent, pos + 1))
    } else {
        match parse_flag(buf, pos) {
            Ok((x, p)) => Ok((Value::Flag(x), p)),
            Err(e) => Err(e),
        }
    }
}

/// The value of a field that holds a list of texts.
pub open spec fn parse_text_list_value(optional: bool, buf: Seq<u8>, pos: int) -> Parsed<Value> {
    if absent_at(optional, buf, pos) {
        Ok((Value::Absent, pos + 1))
    } else {
        match parse_text_list(buf, pos) {
            Ok((items, p)) => Ok((Value::TextList(items), p)),
            Err(e) => Err(e),
        }
    }
}

/// What the reading of a nested struct means for the field `i` that holds
/// it: its values, or its failure together with the field's name.
pub open spec fn nested_value(schema: Schema, i: int, inner: Parsed<Seq<Value>>) -> Parsed<Value> {
    match inner {
        Ok((values, p)) => Ok((Value::Record(values), p)),
        Err(e) => Err(in_field(schema, i, e)),
    }
}

/// The value of field `i`.
pub open spec fn parse_field(schema: Schema, i: int, buf: Seq<u8>, pos: int) -> Parsed<Value>
    decreases schema.depth(), 0nat, 0nat,
{
    let def = schema.fields()[i];
    match def.ty {
        FieldType::Text => parse_text_value(def.optional, buf, pos),
        FieldType::Flag => parse_flag_value(def.optional, buf, pos),
        FieldType::TextList => parse_text_list_value(def.optional, buf, pos),
        FieldType::Record(_) => if absent_at(def.optional, buf, pos) {
            Ok((Value::Absent, pos + 1))
        } else {
            match schema.nested(i) {
                Some(inner) => nested_value(schema, i, parse_record(inner, buf, pos)),
                None => Err(DecodeError::Malformed),
            }
        },
    }
}

/// The entries `i` to `n` of the layout by position. Entry `i` is field
/// `i`; an entry behind the last field is skipped.
pub open spec fn parse_indexed(
    schema: Schema,
    buf: Seq<u8>,
    pos: int,
    i: int,
    n: int,
    acc: Seq<Value>,
) -> Parsed<
    Seq<Value>,
>
    decreases schema.depth(), 1nat, n - i,
{
    if i >= n {
        Ok((acc, pos))
    } else if 0 <= i < schema.fields().len() {
        match parse_field(schema, i, buf, pos) {
            Ok((v, p)) => parse_indexed(schema, buf, p, i + 1, n, acc.update(i, v)),
            Err(e) => Err(e),
        }
    } else {
        match parse_skip(buf, pos) {
            Ok(p) => parse_indexed(schema, buf, p, i + 1, n, acc),
            Err(e) => Err(e),
        }
    }
}

/// `remaining` entries of the layout by name. The key says which field
/// follows; the value under an unknown key is skipped.
pub open spec fn parse_keyed(
    schema: Schema,
    buf: Seq<u8>,
    pos: int,
    remaining: int,
    acc: Seq<Value>,
) -> Parsed<
    Seq<Value>,
>
    decreases schema.depth(), 1nat, remaining,
{
    if remaining <= 0 {
        Ok((acc, pos))
    } else {
        match parse_text(buf, pos) {
            Err(e) => Err(e),
            Ok((key, p)) => match schema.position_of(key) {
                Some(i) => match parse_field(schema, i, buf, p) {
                    Ok((v, q)) => parse_keyed(schema, buf, q, remaining - 1, acc.update(i, v)),
                    Err(e) => Err(e),
                },
                None => match parse_skip(buf, p) {
                    Ok(q) => parse_keyed(schema, buf, q, remaining - 1, acc),
                    Err(e) => Err(e),
                },
            },
        }
    }
}

/// What the entries of a struct amount to once all are read: the values,
/// unless a field that the struct cannot do without is not among them.
pub open spec fn complete(schema: Schema, entries: Parsed<Seq<Value>>) -> Parsed<Seq<Value>> {
    match entries {
        Ok((values, end)) => match first_missing(schema, values, 0) {
            Some(i) => Err(missing_field(schema, i)),
            None => Ok((values, end)),
        },
        Err(e) => Err(e),
    }
}

/// The head of a struct: the layout that the first byte announces and the
/// number of entries.
pub open spec fn parse_record_head(
    schema: Schema,
    buf: Seq<u8>,
    pos: int,
) -> Parsed<(Layout, int)> {
    match kind_at(buf, pos) {
        None => Err(DecodeError::Malformed),
        Some(WireKind::Array) => match count_at(buf, pos, MAJOR_ARRAY) {
            Some((Some(n), p)) => Ok(((Layout::Array, n), p)),
            _ => Err(DecodeError::Malformed),
        },
        Some(WireKind::Mapping) => match count_at(buf, pos, MAJOR_MAP) {
            Some((Some(n), p)) => Ok(((Layout::Mapping, n), p)),
            _ => Err(DecodeError::Malformed),
        },
        Some(k) => Err(DecodeError::NotAStruct { struct_name: schema.name(), found: k }),
    }
}

/// The `n` entries of a struct from `pos` on, in the given layout.
pub open spec fn parse_entries(
    schema: Schema,
    layout: Layout,
    buf: Seq<u8>,
    pos: int,
    n: int,
) -> Parsed<
    Seq<Value>,
>
    decreases schema.depth(), 2nat, 0nat,
{
    match layout {
        Layout::Array => parse_indexed(schema, buf, pos, 0, n, blank(schema)),
        Layout::Mapping => parse_keyed(schema, buf, pos, n, blank(schema)),
    }
}

/// A struct in either layout.
pub open spec fn parse_record(schema: Schema, buf: Seq<u8>, pos: int) -> Parsed<Seq<Value>>
    decreases schema.depth(), 3nat, 0nat,
{
    match parse_record_head(schema, buf, pos) {
        Ok(((layout, n), p)) => complete(schema, parse_entries(schema, layout, buf, p, n)),
        Err(e) => Err(e),
    }
}

/// `remaining` structs, one behind the other, added to `acc`.
pub open spec fn parse_records(
    schema: Schema,
    buf: Seq<u8>,
    pos: int,
    remaining: int,
    acc: Seq<Seq<Value>>,
) -> Parsed<
    Seq<Seq<Value>>,
>
    decreases remaining,
{
    if remaining <= 0 {
        Ok((acc, pos))
    } else {
        match parse_record(schema, buf, pos) {
            Ok((values, p)) => parse_records(schema, buf, p, remaining - 1, acc.push(values)),
            Err(e) => Err(e),
        }
    }
}

/// A list of structs.
pub open spec fn parse_record_list(
    schema: Schema,
    buf: Seq<u8>,
    pos: int,
) -> Parsed<Seq<Seq<Value>>> {
    match parse_array_head(buf, pos) {
        Ok((n, p)) => parse_records(schema, buf, p, n, Seq::empty()),
        Err(e) => Err(e),
    }
}

// ------------------------------------------------------------ unfoldings

/// What the fields from `i` up to `m` start with.
pub proof fn lemma_entries_bytes_step(
    schema: Schema,
    values: Seq<Value>,
    layout: Layout,
    i: int,
    m: int,
)
    requires
        0 <= i < m <= schema.fields().len(),
    ensures
        entries_bytes(schema, values, layout, i, m) == key_bytes(layout, schema.fields()[i].key@)
            + field_bytes(schema, i, values[i], layout) + entries_bytes(
            schema,
            values,
            layout,
            i + 1,
            m,
        ),
{
}

/// No field lies between `m` and `m`.
pub proof fn lemma_entries_bytes_end(schema: Schema, values: Seq<Value>, layout: Layout, m: int)
    ensures
        entries_bytes(schema, values, layout, m, m) == Seq::<u8>::empty(),
{
}

/// Writing field `i` behind the fields before it leaves the fields behind
/// it to write.
pub proof fn lemma_entry_written(
    schema: Schema,
    values: Seq<Value>,
    layout: Layout,
    i: int,
    before: Seq<u8>,
    target: Seq<u8>,
)
    requires
        0 <= i < schema.fields().len(),
        before + entries_bytes(schema, values, layout, i, schema.fields().len() as int) == target,
    ensures
        before + key_bytes(layout, schema.fields()[i].key@) + field_bytes(
            schema,
            i,
            values[i],
            layout,
        ) + entries_bytes(schema, values, layout, i + 1, schema.fields().len() as int) == target,
{
    let key = key_bytes(layout, schema.fields()[i].key@);
    let field = field_bytes(schema, i, values[i], layout);
    let rest = entries_bytes(schema, values, layout, i + 1, schema.fields().len() as int);
    assert(before + key + field + rest =~= before + (key + field + rest));
}

/// The bytes of a field's value, by what the value is.
pub proof fn lemma_field_bytes(schema: Schema, i: int, v: Value, layout: Layout)
    ensures
        field_bytes(schema, i, v, layout) == match v {
            Value::Absent => null_bytes(),
            Value::Text(s) => text_bytes(s),
            Value::Flag(x) => flag_bytes(x),
            Value::TextList(items) => text_list_bytes(items),
            Value::Record(values) => match schema.nested(i) {
                Some(inner) => record_bytes(inner, values, layout),
                None => Seq::empty(),
            },
        },
{
}

/// The bytes of a struct: the head and the fields.
pub proof fn lemma_record_bytes(schema: Schema, values: Seq<Value>, layout: Layout)
    ensures
        record_bytes(schema, values, layout) == head_bytes(
            layout_major(layout),
            schema.fields().len() as int,
        ) + entries_bytes(schema, values, layout, 0, schema.fields().len() as int),
{
}

/// One entry of the layout by position.
pub proof fn lemma_indexed_step(
    schema: Schema,
    buf: Seq<u8>,
    pos: int,
    i: int,
    n: int,
    acc: Seq<Value>,
)
    requires
        0 <= i < n,
    ensures
        parse_indexed(schema, buf, pos, i, n, acc) == if i < schema.fields().len() {
            match parse_field(schema, i, buf, pos) {
                Ok((v, p)) => parse_indexed(schema, buf, p, i + 1, n, acc.update(i, v)),
                Err(e) => Err(e),
            }
        } else {
            match parse_skip(buf, pos) {
                Ok(p) => parse_indexed(schema, buf, p, i + 1, n, acc),
                Err(e) => Err(e),
            }
        },
{
}

/// One entry of the layout by name.
pub proof fn lemma_keyed_step(
    schema: Schema,
    buf: Seq<u8>,
    pos: int,
    remaining: int,
    acc: Seq<Value>,
)
    requires
        0 < remaining,
    ensures
        parse_keyed(schema, buf, pos, remaining, acc) == match parse_text(buf, pos) {
            Err(e) => Err(e),
            Ok((key, p)) => match schema.position_of(key) {
                Some(i) => match parse_field(schema, i, buf, p) {
                    Ok((v, q)) => parse_keyed(schema, buf, q, remaining - 1, acc.update(i, v)),
                    Err(e) => Err(e),
                },
                None => match parse_skip(buf, p) {
                    Ok(q) => parse_keyed(schema, buf, q, remaining - 1, acc),
                    Err(e) => Err(e),
                },
            },
        },
{
}

/// The value of a field, by what the field holds.
pub proof fn lemma_parse_field(schema: Schema, i: int, buf: Seq<u8>, pos: int)
    ensures
        parse_field(schema, i, buf, pos) == match schema.fields()[i].ty {
            FieldType::Text => parse_text_value(schema.fields()[i].optional, buf, pos),
            FieldType::Flag => parse_flag_value(schema.fields()[i].optional, buf, pos),
            FieldType::TextList => parse_text_list_value(schema.fields()[i].optional, buf, pos),
            FieldType::Record(_) => if absent_at(schema.fields()[i].optional, buf, pos) {
                Ok((Value::Absent, pos + 1))
            } else {
                match schema.nested(i) {
                    Some(inner) => nested_value(schema, i, parse_record(inner, buf, pos)),
                    None => Err(DecodeError::Malformed),
                }
            },
        },
{
}

/// A struct: its head, its entries, and the test that none is missing.
pub proof fn lemma_parse_record(schema: Schema, buf: Seq<u8>, pos: int)
    ensures
        parse_record(schema, buf, pos) == match parse_record_head(schema, buf, pos) {
            Ok(((layout, n), p)) => complete(
                schema,
                match layout {
                    Layout::Array => parse_indexed(schema, buf, p, 0, n, blank(schema)),
                    Layout::Mapping => parse_keyed(schema, buf, p, n, blank(schema)),
                },
            ),
            Err(e) => Err(e),
        },
{
}

} // verus!

//! What holds of the wire format of every struct.

use vstd::prelude::*;
use vstd::utf8::encode_utf8;
use crate::error::{DecodeError, WireKind};
use crate::grammar::{
    blank, entries_bytes, field_bytes, first_missing, key_bytes, layout_major,
    lemma_entries_bytes_end, lemma_entries_bytes_step, lemma_field_bytes, lemma_indexed_step,
    lemma_keyed_step, lemma_parse_field, lemma_parse_record, lemma_record_bytes, missing_field,
    parse_field, parse_indexed, parse_keyed, parse_record, parse_record_list, parse_records,
    parse_text, parse_text_list, parse_texts, record_bytes, record_list_bytes, records_bytes,
    text_list_bytes, texts_bytes,
};
use crate::schema::{position_from, Layout, Schema, Value};
use crate::wire::{
    frames_end, head_bytes, kind_at, lemma_items_one_by_one, skip_at, text_bytes, Frame,
    MAJOR_ARRAY, MAJOR_MAP,
};
use crate::wire_laws::{
    confirm_text, holds_at, lemma_count_round_trip, lemma_flag_round_trip, lemma_head_bytes_len,
    lemma_holds_at_split, lemma_holds_at_start, lemma_null_round_trip, lemma_text_round_trip,
    text_fits,
};

verus! {

// ------------------------------------------------------- values that fit

/// Whether a list of texts is short enough to travel, and each text in it.
pub open spec fn texts_fit(items: Seq<Seq<char>>) -> bool {
    &&& items.len() <= u64::MAX
    &&& forall|k: int| 0 <= k < items.len() ==> text_fits(#[trigger] items[k])
}

/// Confirms that a list of texts is short enough to travel, and each text
/// in it.
pub fn confirm_texts(items: &Vec<String>)
    ensures
        texts_fit(items.deep_view()),
{
    let ghost all = items.deep_view();
    let mut i: usize = 0;
    while i < items.len()
        invariant
            i <= items.len(),
            all == items.deep_view(),
            forall|k: int| 0 <= k < i ==> text_fits(#[trigger] all[k]),
        decreases items.len() - i,
    {
        assert(all[i as int] == items@[i as int]@);
        confirm_text(items[i].as_str());
        i += 1;
    }
}

/// Whether `v` can be the value of field `i`: it is of the field's type,
/// absent only where the struct can do without the field, and short enough
/// to travel.
pub open spec fn value_fits(schema: Schema, i: int, v: Value) -> bool
    decreases schema.depth(), 0nat, 0nat,
{
    let def = schema.fields()[i];
    match v {
        Value::Absent => def.optional,
        Value::Text(s) => def.ty is Text && text_fits(s),
        Value::Flag(_) => def.ty is Flag,
        Value::TextList(items) => def.ty is TextList && texts_fit(items),
        Value::Record(values) => def.ty is Record && match schema.nested(i) {
            Some(inner) => values_fit(inner, values),
            None => false,
        },
    }
}

/// Whether each of `values` from `i` on fits its field.
pub open spec fn fit_from(schema: Schema, values: Seq<Value>, i: int) -> bool
    decreases schema.depth(), 1nat, schema.fields().len() - i,
{
    if i < 0 || i >= schema.fields().len() {
        true
    } else {
        value_fits(schema, i, values[i]) && fit_from(schema, values, i + 1)
    }
}

/// Whether `values` can be the fields of a struct: one value for each
/// field, and each fits its field.
pub open spec fn values_fit(schema: Schema, values: Seq<Value>) -> bool
    decreases schema.depth(), 2nat, 0nat,
{
    values.len() == schema.fields().len() && fit_from(schema, values, 0)
}

/// What fits from `j` on fits at each place behind `j`.
pub proof fn lemma_fit_from(schema: Schema, values: Seq<Value>, j: int, i: int)
    requires
        fit_from(schema, values, j),
        0 <= j <= i < schema.fields().len(),
    ensures
        value_fits(schema, i, values[i]),
    decreases i - j,
{
    if j < i {
        lemma_fit_from(schema, values, j + 1, i);
    }
}

/// What fits as the fields of a struct has one value for each field, and
/// each fits its field.
pub proof fn lemma_values_fit(schema: Schema, values: Seq<Value>, i: int)
    requires
        values_fit(schema, values),
        0 <= i < schema.fields().len(),
    ensures
        values.len() == schema.fields().len(),
        value_fits(schema, i, values[i]),
{
    lemma_fit_from(schema, values, 0, i);
}

/// Values that each fit their field fit from every place on.
pub proof fn lemma_fit_from_intro(schema: Schema, values: Seq<Value>, i: int)
    requires
        0 <= i,
        forall|k: int|
            0 <= k < schema.fields().len() ==> #[trigger] value_fits(schema, k, values[k]),
    ensures
        fit_from(schema, values, i),
    decreases schema.fields().len() - i,
{
    if i < schema.fields().len() {
        assert(value_fits(schema, i, values[i]));
        lemma_fit_from_intro(schema, values, i + 1);
    }
}

/// One value for each field, each fitting its field, can be the fields
/// of a struct.
pub proof fn lemma_values_fit_intro(schema: Schema, values: Seq<Value>)
    requires
        values.len() == schema.fields().len(),
        forall|k: int|
            0 <= k < schema.fields().len() ==> #[trigger] value_fits(schema, k, values[k]),
    ensures
        values_fit(schema, values),
{
    lemma_fit_from_intro(schema, values, 0);
}

/// The values read once the fields `i` up to `m` of `values` have taken
/// their places in `acc`.
pub open spec fn merged(acc: Seq<Value>, values: Seq<Value>, i: int, m: int) -> Seq<Value> {
    Seq::new(
        acc.len(),
        |k: int|
            if i <= k < m {
                values[k]
            } else {
                acc[k]
            },
    )
}

/// A text takes at most four bytes for each character.
pub proof fn lemma_encoded_len(s: Seq<char>)
    ensures
        encode_utf8(s).len() <= 4 * s.len(),
    decreases s.len(),
{
    if s.len() > 0 {
        lemma_encoded_len(s.drop_first());
    }
}

/// Whether each field's key is short enough to travel and leads back to
/// the field.
pub open spec fn keys_usable(schema: Schema) -> bool {
    forall|i: int|
        0 <= i < schema.fields().len() ==> text_fits(#[trigger] schema.fields()[i].key@)
            && schema.position_of(schema.fields()[i].key@) == Some(i)
}

/// The keys of every struct are usable: no two fields of a struct travel
/// under the same key.
pub proof fn lemma_keys_usable(schema: Schema)
    ensures
        keys_usable(schema),
{
    reveal_strlit("id");
    reveal_strlit("success");
    reveal_strlit("address");
    reveal_strlit("city");
    reveal_strlit("email");
    reveal_strlit("firstName");
    reveal_strlit("lastName");
    reveal_strlit("telephone");
    reveal_strlit("customer");
    reveal_strlit("amount");
    reveal_strlit("service");
    reveal_strlit("client");
    reveal_strlit("members");
    reveal_strlit("name");
    reveal_strlit("group");
    reveal_with_fuel(position_from, 8);
    assert forall|i: int| 0 <= i < schema.fields().len() implies text_fits(
        #[trigger] schema.fields()[i].key@,
    ) && schema.position_of(schema.fields()[i].key@) == Some(i) by {
        lemma_encoded_len(schema.fields()[i].key@);
        if schema == Schema::Customer {
            assert("firstName"@[0] != "telephone"@[0]);
        }
    }
}

/// Where every field that the struct cannot do without has a value, none
/// is missing.
pub proof fn lemma_nothing_missing(schema: Schema, values: Seq<Value>, i: int)
    requires
        values_fit(schema, values),
        0 <= i,
    ensures
        first_missing(schema, values, i) is None,
    decreases schema.fields().len() - i,
{
    if i < schema.fields().len() {
        lemma_values_fit(schema, values, i);
        lemma_nothing_missing(schema, values, i + 1);
    }
}

// ------------------------------------------------------------ lists of texts

/// How long the texts from `i` on are on the wire.
pub proof fn lemma_texts_round_trip(
    buf: Seq<u8>,
    pos: int,
    items: Seq<Seq<char>>,
    i: int,
    acc: Seq<Seq<char>>,
)
    requires
        0 <= i <= items.len(),
        texts_fit(items),
        holds_at(buf, pos, texts_bytes(items, i)),
    ensures
        parse_texts(buf, pos, items.len() - i, acc) == Ok::<(Seq<Seq<char>>, int), DecodeError>(
            (acc + items.subrange(i, items.len() as int), pos + texts_bytes(items, i).len()),
        ),
    decreases items.len() - i,
{
    if i < items.len() {
        let first = text_bytes(items[i]);
        let rest = texts_bytes(items, i + 1);
        lemma_holds_at_split(buf, pos, first, rest);
        lemma_text_round_trip(buf, pos, items[i]);
        lemma_texts_round_trip(buf, pos + first.len(), items, i + 1, acc.push(items[i]));
        assert(acc.push(items[i]) + items.subrange(i + 1, items.len() as int) =~= acc
            + items.subrange(i, items.len() as int));
    } else {
        assert(acc + items.subrange(i, items.len() as int) =~= acc);
    }
}

/// A list of texts is read back as it was written.
pub proof fn lemma_text_list_round_trip(buf: Seq<u8>, pos: int, items: Seq<Seq<char>>)
    requires
        texts_fit(items),
        holds_at(buf, pos, text_list_bytes(items)),
    ensures
        kind_at(buf, pos) == Some(WireKind::Array),
        parse_text_list(buf, pos) == Ok::<(Seq<Seq<char>>, int), DecodeError>(
            (items, pos + text_list_bytes(items).len()),
        ),
{
    let head = head_bytes(MAJOR_ARRAY, items.len() as int);
    lemma_holds_at_split(buf, pos, head, texts_bytes(items, 0));
    lemma_count_round_trip(buf, pos, MAJOR_ARRAY, items.len() as int);
    lemma_head_bytes_len(MAJOR_ARRAY, items.len() as int);
    lemma_texts_round_trip(buf, pos + head.len(), items, 0, Seq::empty());
    assert(Seq::<Seq<char>>::empty() + items.subrange(0, items.len() as int) =~= items);
}

// ------------------------------------------------------------------ structs

/// A field's value is read back as it was written.
pub proof fn lemma_field_round_trip(
    schema: Schema,
    i: int,
    v: Value,
    layout: Layout,
    buf: Seq<u8>,
    pos: int,
)
    requires
        0 <= i < schema.fields().len(),
        value_fits(schema, i, v),
        holds_at(buf, pos, field_bytes(schema, i, v, layout)),
    ensures
        parse_field(schema, i, buf, pos) == Ok::<(Value, int), DecodeError>(
            (v, pos + field_bytes(schema, i, v, layout).len()),
        ),
    decreases schema.depth(), 0nat, 0nat,
{
    lemma_parse_field(schema, i, buf, pos);
    lemma_field_bytes(schema, i, v, layout);
    match v {
        Value::Absent => {
            lemma_null_round_trip(buf, pos);
        },
        Value::Text(s) => {
            lemma_text_round_trip(buf, pos, s);
        },
        Value::Flag(x) => {
            lemma_flag_round_trip(buf, pos, x);
        },
        Value::TextList(items) => {
            lemma_text_list_round_trip(buf, pos, items);
        },
        Value::Record(values) => {
            let inner = schema.nested(i)->0;
            lemma_record_round_trip(inner, values, layout, buf, pos);
            lemma_parse_record(inner, buf, pos);
        },
    }
}

/// Reading the fields `i` up to `m` of the layout by position leaves the
/// reader behind them, with their values in place.
pub proof fn lemma_indexed_range(
    schema: Schema,
    values: Seq<Value>,
    buf: Seq<u8>,
    pos: int,
    i: int,
    m: int,
    n: int,
    acc: Seq<Value>,
)
    requires
        values_fit(schema, values),
        0 <= i <= m <= schema.fields().len(),
        m <= n,
        acc.len() == schema.fields().len(),
        holds_at(buf, pos, entries_bytes(schema, values, Layout::Array, i, m)),
    ensures
        parse_indexed(schema, buf, pos, i, n, acc) == parse_indexed(
            schema,
            buf,
            pos + entries_bytes(schema, values, Layout::Array, i, m).len(),
            m,
            n,
            merged(acc, values, i, m),
        ),
    decreases schema.depth(), 1nat, m - i,
{
    if i < m {
        let field = field_bytes(schema, i, values[i], Layout::Array);
        let rest = entries_bytes(schema, values, Layout::Array, i + 1, m);
        lemma_entries_bytes_step(schema, values, Layout::Array, i, m);
        assert(key_bytes(Layout::Array, schema.fields()[i].key@) + field =~= field);
        lemma_holds_at_split(buf, pos, field, rest);
        lemma_values_fit(schema, values, i);
        lemma_field_round_trip(schema, i, values[i], Layout::Array, buf, pos);
        lemma_indexed_step(schema, buf, pos, i, n, acc);
        lemma_indexed_range(
            schema,
            values,
            buf,
            pos + field.len(),
            i + 1,
            m,
            n,
            acc.update(i, values[i]),
        );
        assert(merged(acc.update(i, values[i]), values, i + 1, m) =~= merged(acc, values, i, m));
    } else {
        lemma_entries_bytes_end(schema, values, Layout::Array, m);
        assert(merged(acc, values, i, m) =~= acc);
    }
}

/// Reading the fields `i` up to `m` of the layout by name leaves the
/// reader behind them, with their values in place.
pub proof fn lemma_keyed_range(
    schema: Schema,
    values: Seq<Value>,
    buf: Seq<u8>,
    pos: int,
    i: int,
    m: int,
    remaining: int,
    acc: Seq<Value>,
)
    requires
        values_fit(schema, values),
        0 <= i <= m <= schema.fields().len(),
        m - i <= remaining,
        acc.len() == schema.fields().len(),
        holds_at(buf, pos, entries_bytes(schema, values, Layout::Mapping, i, m)),
    ensures
        parse_keyed(schema, buf, pos, remaining, acc) == parse_keyed(
            schema,
            buf,
            pos + entries_bytes(schema, values, Layout::Mapping, i, m).len(),
            remaining - (m - i),
            merged(acc, values, i, m),
        ),
    decreases schema.depth(), 1nat, m - i,
{
    if i < m {
        let key = text_bytes(schema.fields()[i].key@);
        let field = field_bytes(schema, i, values[i], Layout::Mapping);
        let rest = entries_bytes(schema, values, Layout::Mapping, i + 1, m);
        lemma_entries_bytes_step(schema, values, Layout::Mapping, i, m);
        lemma_keys_usable(schema);
        lemma_holds_at_split(buf, pos, key + field, rest);
        lemma_holds_at_split(buf, pos, key, field);
        lemma_text_round_trip(buf, pos, schema.fields()[i].key@);
        lemma_values_fit(schema, values, i);
        lemma_field_round_trip(schema, i, values[i], Layout::Mapping, buf, pos + key.len());
        lemma_keyed_step(schema, buf, pos, remaining, acc);
        lemma_keyed_range(
            schema,
            values,
            buf,
            pos + key.len() + field.len(),
            i + 1,
            m,
            remaining - 1,
            acc.update(i, values[i]),
        );
        assert(merged(acc.update(i, values[i]), values, i + 1, m) =~= merged(acc, values, i, m));
    } else {
        lemma_entries_bytes_end(schema, values, Layout::Mapping, m);
        assert(merged(acc, values, i, m) =~= acc);
    }
}

/// Reading gives back what was written: a struct written in either layout
/// is read back with the same values, and the reader stops behind it.
pub proof fn lemma_record_round_trip(
    schema: Schema,
    values: Seq<Value>,
    layout: Layout,
    buf: Seq<u8>,
    pos: int,
)
    requires
        values_fit(schema, values),
        holds_at(buf, pos, record_bytes(schema, values, layout)),
    ensures
        parse_record(schema, buf, pos) == Ok::<(Seq<Value>, int), DecodeError>(
            (values, pos + record_bytes(schema, values, layout).len()),
        ),
    decreases schema.depth(), 2nat, 0nat,
{
    let count = schema.fields().len() as int;
    let head = head_bytes(layout_major(layout), count);
    let entries = entries_bytes(schema, values, layout, 0, count);
    lemma_record_bytes(schema, values, layout);
    lemma_holds_at_split(buf, pos, head, entries);
    lemma_count_round_trip(buf, pos, layout_major(layout), count);
    lemma_head_bytes_len(layout_major(layout), count);
    lemma_parse_record(schema, buf, pos);
    lemma_nothing_missing(schema, values, 0);
    assert(merged(blank(schema), values, 0, count) =~= values);
    match layout {
        Layout::Array => {
            lemma_indexed_range(schema, values, buf, pos + head.len(), 0, count, count, blank(schema));
        },
        Layout::Mapping => {
            lemma_keyed_range(schema, values, buf, pos + head.len(), 0, count, count, blank(schema));
        },
    }
}

/// What was written is read: the bytes of a struct, whatever follows
/// them, are read as the struct's values, and the reader stops where the
/// struct ends.
pub proof fn lemma_written_is_read(
    schema: Schema,
    values: Seq<Value>,
    layout: Layout,
    rest: Seq<u8>,
)
    requires
        values_fit(schema, values),
    ensures
        parse_record(schema, record_bytes(schema, values, layout) + rest, 0) == Ok::<
            (Seq<Value>, int),
            DecodeError,
        >((values, record_bytes(schema, values, layout).len() as int)),
{
    let bytes = record_bytes(schema, values, layout);
    lemma_holds_at_start(bytes, rest);
    lemma_record_round_trip(schema, values, layout, bytes + rest, 0);
}

/// A text that travels alone is read back as it was written.
pub proof fn lemma_text_is_read(s: Seq<char>, rest: Seq<u8>)
    requires
        text_fits(s),
    ensures
        parse_text(text_bytes(s) + rest, 0) == Ok::<(Seq<char>, int), DecodeError>(
            (s, text_bytes(s).len() as int),
        ),
{
    lemma_holds_at_start(text_bytes(s), rest);
    lemma_text_round_trip(text_bytes(s) + rest, 0, s);
}

/// A list of structs that travels alone is read back as it was written.
pub proof fn lemma_list_is_read(
    schema: Schema,
    records: Seq<Seq<Value>>,
    layout: Layout,
    rest: Seq<u8>,
)
    requires
        records.len() <= u64::MAX,
        forall|k: int| 0 <= k < records.len() ==> values_fit(schema, #[trigger] records[k]),
    ensures
        parse_record_list(schema, record_list_bytes(schema, records, layout) + rest, 0) == Ok::<
            (Seq<Seq<Value>>, int),
            DecodeError,
        >((records, record_list_bytes(schema, records, layout).len() as int)),
{
    let bytes = record_list_bytes(schema, records, layout);
    lemma_holds_at_start(bytes, rest);
    lemma_record_list_round_trip(schema, records, layout, bytes + rest, 0);
}

/// Structs written one behind the other are read back one by one.
pub proof fn lemma_records_round_trip(
    schema: Schema,
    records: Seq<Seq<Value>>,
    layout: Layout,
    buf: Seq<u8>,
    pos: int,
    i: int,
    acc: Seq<Seq<Value>>,
)
    requires
        0 <= i <= records.len(),
        forall|k: int| 0 <= k < records.len() ==> values_fit(schema, #[trigger] records[k]),
        holds_at(buf, pos, records_bytes(schema, records, layout, i)),
    ensures
        parse_records(schema, buf, pos, records.len() - i, acc) == Ok::<
            (Seq<Seq<Value>>, int),
            DecodeError,
        >(
            (
                acc + records.subrange(i, records.len() as int),
                pos + records_bytes(schema, records, layout, i).len(),
            ),
        ),
    decreases records.len() - i,
{
    if i < records.len() {
        let first = record_bytes(schema, records[i], layout);
        let rest = records_bytes(schema, records, layout, i + 1);
        lemma_holds_at_split(buf, pos, first, rest);
        lemma_record_round_trip(schema, records[i], layout, buf, pos);
        lemma_records_round_trip(
            schema,
            records,
            layout,
            buf,
            pos + first.len(),
            i + 1,
            acc.push(records[i]),
        );
        assert(acc.push(records[i]) + records.subrange(i + 1, records.len() as int) =~= acc
            + records.subrange(i, records.len() as int));
    } else {
        assert(acc + records.subrange(i, records.len() as int) =~= acc);
    }
}

/// A list of structs is read back as it was written.
pub proof fn lemma_record_list_round_trip(
    schema: Schema,
    records: Seq<Seq<Value>>,
    layout: Layout,
    buf: Seq<u8>,
    pos: int,
)
    requires
        records.len() <= u64::MAX,
        forall|k: int| 0 <= k < records.len() ==> values_fit(schema, #[trigger] records[k]),
        holds_at(buf, pos, record_list_bytes(schema, records, layout)),
    ensures
        parse_record_list(schema, buf, pos) == Ok::<(Seq<Seq<Value>>, int), DecodeError>(
            (records, pos + record_list_bytes(schema, records, layout).len()),
        ),
{
    let head = head_bytes(MAJOR_ARRAY, records.len() as int);
    lemma_holds_at_split(buf, pos, head, records_bytes(schema, records, layout, 0));
    lemma_count_round_trip(buf, pos, MAJOR_ARRAY, records.len() as int);
    lemma_head_bytes_len(MAJOR_ARRAY, records.len() as int);
    lemma_records_round_trip(schema, records, layout, buf, pos + head.len(), 0, Seq::empty());
    assert(Seq::<Seq<Value>>::empty() + records.subrange(0, records.len() as int) =~= records);
}

// ------------------------------------------------- entries that are not known

/// The position behind `k` items from `pos` on, each skipped in turn.
pub open spec fn skips_end(buf: Seq<u8>, pos: int, k: nat) -> Option<int>
    decreases k,
{
    if k == 0 {
        Some(pos)
    } else {
        match skip_at(buf, pos) {
            Some(p) => skips_end(buf, p, (k - 1) as nat),
            None => None,
        }
    }
}

/// Skipping `k` items in turn ends where a walk through `k` items ends.
pub proof fn lemma_skips_are_items(buf: Seq<u8>, pos: int, k: nat)
    ensures
        skips_end(buf, pos, k) == frames_end(buf, pos, seq![Frame::Items(k)]),
    decreases k,
{
    if k == 0 {
        assert(seq![Frame::Items(0)].drop_last() =~= Seq::<Frame>::empty());
        reveal_with_fuel(frames_end, 2);
    } else {
        lemma_items_one_by_one(buf, pos, k);
        match skip_at(buf, pos) {
            Some(mid) => {
                lemma_skips_are_items(buf, mid, (k - 1) as nat);
            },
            None => {},
        }
    }
}

/// The entries of the layout by position that lie behind the last field
/// are skipped.
pub proof fn lemma_trailing_skipped(
    schema: Schema,
    buf: Seq<u8>,
    pos: int,
    i: int,
    n: int,
    acc: Seq<Value>,
)
    requires
        schema.fields().len() <= i <= n,
        skips_end(buf, pos, (n - i) as nat) is Some,
    ensures
        parse_indexed(schema, buf, pos, i, n, acc) == Ok::<(Seq<Value>, int), DecodeError>(
            (acc, skips_end(buf, pos, (n - i) as nat)->0),
        ),
    decreases n - i,
{
    if i < n {
        lemma_indexed_step(schema, buf, pos, i, n, acc);
        let mid = skip_at(buf, pos)->0;
        lemma_trailing_skipped(schema, buf, mid, i + 1, n, acc);
    }
}

/// The position behind `k` entries of the layout by name whose keys the
/// struct does not know and whose values can be skipped, whatever they
/// hold.
pub open spec fn unknown_entries_end(schema: Schema, buf: Seq<u8>, pos: int, k: nat) -> Option<int>
    decreases k,
{
    if k == 0 {
        Some(pos)
    } else {
        match parse_text(buf, pos) {
            Ok((key, p)) => match (schema.position_of(key), skip_at(buf, p)) {
                (None, Some(q)) => unknown_entries_end(schema, buf, q, (k - 1) as nat),
                _ => None,
            },
            Err(_) => None,
        }
    }
}

/// The entries of the layout by name whose keys the struct does not know
/// are skipped.
pub proof fn lemma_unknown_skipped(schema: Schema, buf: Seq<u8>, pos: int, k: nat, acc: Seq<Value>)
    requires
        unknown_entries_end(schema, buf, pos, k) is Some,
    ensures
        parse_keyed(schema, buf, pos, k as int, acc) == Ok::<(Seq<Value>, int), DecodeError>(
            (acc, unknown_entries_end(schema, buf, pos, k)->0),
        ),
    decreases k,
{
    if k > 0 {
        lemma_keyed_step(schema, buf, pos, k as int, acc);
        let p = parse_text(buf, pos)->Ok_0.1;
        let q = skip_at(buf, p)->0;
        lemma_unknown_skipped(schema, buf, q, (k - 1) as nat, acc);
    }
}

/// The bytes of a struct whose head announces `count` entries and which
/// holds the fields before `m`.
pub open spec fn record_bytes_counted(
    schema: Schema,
    values: Seq<Value>,
    layout: Layout,
    count: int,
    m: int,
) -> Seq<u8> {
    head_bytes(layout_major(layout), count) + entries_bytes(schema, values, layout, 0, m)
}

/// A reader that knows fewer fields than were written reads the fields it
/// knows. In the layout by position: where `k` more items that can be
/// skipped, whatever they hold, follow the fields of a struct and the head
/// counts them in, the struct is read with the same values, and the
/// reader stops behind the items.
pub proof fn lemma_trailing_items_ignored(
    schema: Schema,
    values: Seq<Value>,
    k: nat,
    buf: Seq<u8>,
    pos: int,
    end: int,
)
    requires
        values_fit(schema, values),
        schema.fields().len() + k <= u64::MAX,
        holds_at(
            buf,
            pos,
            record_bytes_counted(
                schema,
                values,
                Layout::Array,
                (schema.fields().len() + k) as int,
                schema.fields().len() as int,
            ),
        ),
        skips_end(
            buf,
            pos + record_bytes_counted(
                schema,
                values,
                Layout::Array,
                (schema.fields().len() + k) as int,
                schema.fields().len() as int,
            ).len(),
            k,
        ) == Some(end),
    ensures
        parse_record(schema, buf, pos) == Ok::<(Seq<Value>, int), DecodeError>((values, end)),
{
    let count = schema.fields().len() as int;
    let head = head_bytes(MAJOR_ARRAY, count + k);
    let entries = entries_bytes(schema, values, Layout::Array, 0, count);
    lemma_holds_at_split(buf, pos, head, entries);
    lemma_count_round_trip(buf, pos, MAJOR_ARRAY, count + k);
    lemma_head_bytes_len(MAJOR_ARRAY, count + k);
    lemma_parse_record(schema, buf, pos);
    lemma_nothing_missing(schema, values, 0);
    assert(merged(blank(schema), values, 0, count) =~= values);
    lemma_indexed_range(schema, values, buf, pos + head.len(), 0, count, count + k, blank(schema));
    lemma_trailing_skipped(schema, buf, pos + head.len() + entries.len(), count, count + k, values);
}

/// A reader that knows fewer fields than were written reads the fields it
/// knows. In the layout by name: where `k` more entries under keys that
/// the struct does not know, with values that can be skipped, follow the
/// fields and the head counts them in, the struct is read with the same
/// values, and the reader stops behind the entries.
pub proof fn lemma_unknown_entries_ignored(
    schema: Schema,
    values: Seq<Value>,
    k: nat,
    buf: Seq<u8>,
    pos: int,
    end: int,
)
    requires
        values_fit(schema, values),
        schema.fields().len() + k <= u64::MAX,
        holds_at(
            buf,
            pos,
            record_bytes_counted(
                schema,
                values,
                Layout::Mapping,
                (schema.fields().len() + k) as int,
                schema.fields().len() as int,
            ),
        ),
        unknown_entries_end(
            schema,
            buf,
            pos + record_bytes_counted(
                schema,
                values,
                Layout::Mapping,
                (schema.fields().len() + k) as int,
                schema.fields().len() as int,
            ).len(),
            k,
        ) == Some(end),
    ensures
        parse_record(schema, buf, pos) == Ok::<(Seq<Value>, int), DecodeError>((values, end)),
{
    let count = schema.fields().len() as int;
    let head = head_bytes(MAJOR_MAP, count + k);
    let entries = entries_bytes(schema, values, Layout::Mapping, 0, count);
    lemma_holds_at_split(buf, pos, head, entries);
    lemma_count_round_trip(buf, pos, MAJOR_MAP, count + k);
    lemma_head_bytes_len(MAJOR_MAP, count + k);
    lemma_parse_record(schema, buf, pos);
    lemma_nothing_missing(schema, values, 0);
    assert(merged(blank(schema), values, 0, count) =~= values);
    lemma_keyed_range(schema, values, buf, pos + head.len(), 0, count, count + k, blank(schema));
    lemma_unknown_skipped(schema, buf, pos + head.len() + entries.len(), k, values);
}

// ------------------------------------------------------- fields left out

/// The first field from `i` on that the struct cannot do without.
pub open spec fn first_required(schema: Schema, i: int) -> Option<int>
    decreases schema.fields().len() - i,
{
    if i < 0 || i >= schema.fields().len() {
        None
    } else if !schema.fields()[i].optional {
        Some(i)
    } else {
        first_required(schema, i + 1)
    }
}

/// Where only the fields before `m` have values, the first field that is
/// missing is the first from `m` on that the struct cannot do without.
pub proof fn lemma_missing_behind(schema: Schema, values: Seq<Value>, m: int, i: int)
    requires
        values_fit(schema, values),
        0 <= i,
        0 <= m <= schema.fields().len(),
    ensures
        first_missing(schema, merged(blank(schema), values, 0, m), i) == first_required(
            schema,
            if i < m {
                m
            } else {
                i
            },
        ),
    decreases schema.fields().len() - i,
{
    if i < schema.fields().len() {
        lemma_values_fit(schema, values, i);
        lemma_missing_behind(schema, values, m, i + 1);
    } else {
        reveal_with_fuel(first_required, 1);
    }
}

/// A struct whose array ends before field `m` cannot be read where a
/// field from `m` on is one that the struct cannot do without: the
/// failure names the first such field. Where the struct can do without
/// all of them, they are read as absent.
pub proof fn lemma_short_array(schema: Schema, values: Seq<Value>, m: int, buf: Seq<u8>, pos: int)
    requires
        values_fit(schema, values),
        0 <= m <= schema.fields().len(),
        holds_at(buf, pos, record_bytes_counted(schema, values, Layout::Array, m, m)),
    ensures
        parse_record(schema, buf, pos) == match first_required(schema, m) {
            Some(j) => Err::<(Seq<Value>, int), DecodeError>(missing_field(schema, j)),
            None => Ok(
                (
                    merged(blank(schema), values, 0, m),
                    pos + record_bytes_counted(schema, values, Layout::Array, m, m).len(),
                ),
            ),
        },
{
    let head = head_bytes(MAJOR_ARRAY, m);
    let entries = entries_bytes(schema, values, Layout::Array, 0, m);
    lemma_holds_at_split(buf, pos, head, entries);
    lemma_count_round_trip(buf, pos, MAJOR_ARRAY, m);
    lemma_head_bytes_len(MAJOR_ARRAY, m);
    lemma_parse_record(schema, buf, pos);
    lemma_indexed_range(schema, values, buf, pos + head.len(), 0, m, m, blank(schema));
    lemma_missing_behind(schema, values, m, 0);
}

/// Where every field but `j` has a value, field `j` is the one missing if
/// the struct cannot do without it, and none is missing if it can.
pub proof fn lemma_missing_one(schema: Schema, values: Seq<Value>, j: int, i: int)
    requires
        values_fit(schema, values),
        0 <= i,
        0 <= j < schema.fields().len(),
    ensures
        first_missing(schema, values.update(j, Value::Absent), i) == if i <= j
            && !schema.fields()[j].optional {
            Some(j)
        } else {
            None
        },
    decreases schema.fields().len() - i,
{
    if i < schema.fields().len() {
        lemma_values_fit(schema, values, i);
        lemma_missing_one(schema, values, j, i + 1);
    }
}

/// The bytes of a struct in the layout by name with the entry of field
/// `j` left out.
pub open spec fn record_bytes_without(schema: Schema, values: Seq<Value>, j: int) -> Seq<u8> {
    record_bytes_counted(schema, values, Layout::Mapping, schema.fields().len() - 1, j)
        + entries_bytes(schema, values, Layout::Mapping, j + 1, schema.fields().len() as int)
}

/// A struct written by name without the entry of a field that it cannot
/// do without cannot be read: the failure names that field. Without the
/// entry of a field that it can do without, the struct is read with that
/// field absent.
pub proof fn lemma_erased_entry(schema: Schema, values: Seq<Value>, j: int, buf: Seq<u8>, pos: int)
    requires
        values_fit(schema, values),
        0 <= j < schema.fields().len(),
        holds_at(buf, pos, record_bytes_without(schema, values, j)),
    ensures
        parse_record(schema, buf, pos) == if schema.fields()[j].optional {
            Ok::<(Seq<Value>, int), DecodeError>(
                (
                    values.update(j, Value::Absent),
                    pos + record_bytes_without(schema, values, j).len(),
                ),
            )
        } else {
            Err(missing_field(schema, j))
        },
{
    let count = schema.fields().len() as int;
    let head = head_bytes(MAJOR_MAP, count - 1);
    let before = entries_bytes(schema, values, Layout::Mapping, 0, j);
    let behind = entries_bytes(schema, values, Layout::Mapping, j + 1, count);
    lemma_holds_at_split(buf, pos, head + before, behind);
    lemma_holds_at_split(buf, pos, head, before);
    lemma_count_round_trip(buf, pos, MAJOR_MAP, count - 1);
    lemma_head_bytes_len(MAJOR_MAP, count - 1);
    lemma_parse_record(schema, buf, pos);
    let start = pos + head.len();
    let first = merged(blank(schema), values, 0, j);
    lemma_keyed_range(schema, values, buf, start, 0, j, count - 1, blank(schema));
    lemma_keyed_range(schema, values, buf, start + before.len(), j + 1, count, count - 1 - j, first);
    assert(merged(first, values, j + 1, count) =~= values.update(j, Value::Absent));
    lemma_missing_one(schema, values, j, 0);
}

} // verus!

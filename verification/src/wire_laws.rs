//! What is read back from the bytes of a single item.

use vstd::prelude::*;
use vstd::utf8::{encode_utf8, encode_utf8_decode_utf8, encode_utf8_valid_utf8};
use crate::error::WireKind;
use crate::wire::{
    arg_at, be_bytes, be_value, count_at, flag_at, flag_bytes, head_bytes, info_of, kind_at,
    major_of, null_bytes, text_at, text_bytes, MAJOR_ARRAY, MAJOR_MAP, MAJOR_TEXT,
};

verus! {

/// Whether `buf` holds the bytes of `chunk` from `pos` on.
pub open spec fn holds_at(buf: Seq<u8>, pos: int, chunk: Seq<u8>) -> bool {
    &&& 0 <= pos
    &&& pos + chunk.len() <= buf.len()
    &&& buf.subrange(pos, pos + chunk.len()) == chunk
}

/// The bytes of a chunk, one by one.
pub proof fn lemma_holds_at_index(buf: Seq<u8>, pos: int, chunk: Seq<u8>, k: int)
    requires
        holds_at(buf, pos, chunk),
        0 <= k < chunk.len(),
    ensures
        buf[pos + k] == chunk[k],
{
    assert(buf.subrange(pos, pos + chunk.len())[k] == buf[pos + k]);
}

/// Two chunks, one behind the other, are held where each of them is.
pub proof fn lemma_holds_at_split(buf: Seq<u8>, pos: int, a: Seq<u8>, b: Seq<u8>)
    ensures
        holds_at(buf, pos, a + b) <==> holds_at(buf, pos, a) && holds_at(buf, pos + a.len(), b),
{
    if holds_at(buf, pos, a + b) {
        assert(buf.subrange(pos, pos + a.len()) =~= a) by {
            assert forall|k: int| 0 <= k < a.len() implies buf.subrange(pos, pos + a.len())[k]
                == a[k] by {
                lemma_holds_at_index(buf, pos, a + b, k);
            }
        }
        assert(buf.subrange(pos + a.len(), pos + a.len() + b.len()) =~= b) by {
            assert forall|k: int| 0 <= k < b.len() implies buf.subrange(
                pos + a.len(),
                pos + a.len() + b.len(),
            )[k] == b[k] by {
                lemma_holds_at_index(buf, pos, a + b, a.len() + k);
            }
        }
    }
    if holds_at(buf, pos, a) && holds_at(buf, pos + a.len(), b) {
        assert(buf.subrange(pos, pos + (a + b).len()) =~= a + b) by {
            assert forall|k: int| 0 <= k < (a + b).len() implies buf.subrange(
                pos,
                pos + (a + b).len(),
            )[k] == (a + b)[k] by {
                if k < a.len() {
                    lemma_holds_at_index(buf, pos, a, k);
                } else {
                    lemma_holds_at_index(buf, pos + a.len(), b, k - a.len());
                }
            }
        }
    }
}

/// The bytes of a message hold each message at its start.
pub proof fn lemma_holds_at_start(chunk: Seq<u8>, rest: Seq<u8>)
    ensures
        holds_at(chunk + rest, 0, chunk),
{
    assert((chunk + rest).subrange(0, chunk.len() as int) =~= chunk);
}

/// The numbers that `width` bytes can hold lie below this.
pub open spec fn limit(width: nat) -> int
    decreases width,
{
    if width == 0 {
        1
    } else {
        256 * limit((width - 1) as nat)
    }
}

pub proof fn lemma_be_bytes_len(n: int, width: nat)
    ensures
        be_bytes(n, width).len() == width,
    decreases width,
{
    if width > 0 {
        lemma_be_bytes_len(n / 256, (width - 1) as nat);
    }
}

/// The bytes of a number hold that number.
pub proof fn lemma_be_round_trip(buf: Seq<u8>, pos: int, n: int, width: nat)
    requires
        0 <= n < limit(width),
        holds_at(buf, pos, be_bytes(n, width)),
    ensures
        be_value(buf, pos, width) == n,
    decreases width,
{
    if width > 0 {
        let shorter = be_bytes(n / 256, (width - 1) as nat);
        lemma_be_bytes_len(n, width);
        lemma_be_bytes_len(n / 256, (width - 1) as nat);
        assert(be_bytes(n, width) == shorter + seq![(n % 256) as u8]) by {
            assert(shorter.push((n % 256) as u8) =~= shorter + seq![(n % 256) as u8]);
        }
        lemma_holds_at_split(buf, pos, shorter, seq![(n % 256) as u8]);
        lemma_holds_at_index(buf, pos + shorter.len(), seq![(n % 256) as u8], 0);
        lemma_be_round_trip(buf, pos, n / 256, (width - 1) as nat);
    }
}

/// How long the head of an item with argument `n` is.
pub open spec fn head_len(n: int) -> int {
    if n < 24 {
        1
    } else if n < 0x100 {
        2
    } else if n < 0x1_0000 {
        3
    } else if n < 0x1_0000_0000 {
        5
    } else {
        9
    }
}

pub proof fn lemma_head_bytes_len(major: u8, n: int)
    ensures
        head_bytes(major, n).len() == head_len(n),
{
    lemma_be_bytes_len(n, 2);
    lemma_be_bytes_len(n, 4);
    lemma_be_bytes_len(n, 8);
}

/// A head is read back as the major type and the argument that it was
/// written with.
pub proof fn lemma_head_round_trip(buf: Seq<u8>, pos: int, major: u8, n: int)
    requires
        major < 8,
        0 <= n <= u64::MAX,
        holds_at(buf, pos, head_bytes(major, n)),
    ensures
        0 <= pos < buf.len(),
        major_of(buf[pos]) == major,
        info_of(buf[pos]) <= 27,
        buf[pos] == major * 32 + info_of(buf[pos]),
        n < 24 ==> info_of(buf[pos]) == n,
        n >= 24 ==> info_of(buf[pos]) >= 24,
        arg_at(buf, pos) == Some((n, pos + head_len(n))),
{
    lemma_head_bytes_len(major, n);
    lemma_holds_at_index(buf, pos, head_bytes(major, n), 0);
    reveal_with_fuel(limit, 9);
    if n < 24 {
    } else if n < 0x100 {
        lemma_holds_at_index(buf, pos, head_bytes(major, n), 1);
        reveal_with_fuel(be_value, 2);
    } else {
        let width: nat = if n < 0x1_0000 {
            2
        } else if n < 0x1_0000_0000 {
            4
        } else {
            8
        };
        let first = seq![(major * 32 + 24 + (if width == 2 { 1int } else if width == 4 { 2 } else { 3 })) as u8];
        assert(head_bytes(major, n) == first + be_bytes(n, width));
        lemma_holds_at_split(buf, pos, first, be_bytes(n, width));
        lemma_be_round_trip(buf, pos + 1, n, width);
        lemma_be_bytes_len(n, width);
    }
}

/// How long a text item is.
pub open spec fn text_len(s: Seq<char>) -> int {
    head_len(encode_utf8(s).len() as int) + encode_utf8(s).len()
}

/// Whether a text is short enough to travel.
pub open spec fn text_fits(s: Seq<char>) -> bool {
    encode_utf8(s).len() <= u64::MAX
}

/// Confirms that a text is short enough to travel. Its bytes lie in
/// memory, so their number is one that the head of an item can hold.
pub fn confirm_text(s: &str)
    ensures
        text_fits(s@),
{
    let bytes = s.as_bytes();
    let _count: usize = bytes.len();
}

/// A text item is read back as the text that it was written from.
pub proof fn lemma_text_round_trip(buf: Seq<u8>, pos: int, s: Seq<char>)
    requires
        text_fits(s),
        holds_at(buf, pos, text_bytes(s)),
    ensures
        text_bytes(s).len() == text_len(s),
        kind_at(buf, pos) == Some(WireKind::Text),
        text_at(buf, pos) == Some((s, pos + text_len(s))),
{
    let content = encode_utf8(s);
    let n = content.len() as int;
    let head = head_bytes(MAJOR_TEXT, n);
    lemma_head_bytes_len(MAJOR_TEXT, n);
    lemma_holds_at_split(buf, pos, head, content);
    lemma_head_round_trip(buf, pos, MAJOR_TEXT, n);
    encode_utf8_valid_utf8(s);
    encode_utf8_decode_utf8(s);
    assert(buf.subrange(pos + head_len(n), pos + head_len(n) + n) == content);
}

/// A flag is read back as it was written.
pub proof fn lemma_flag_round_trip(buf: Seq<u8>, pos: int, x: bool)
    requires
        holds_at(buf, pos, flag_bytes(x)),
    ensures
        kind_at(buf, pos) == Some(WireKind::Flag),
        flag_at(buf, pos) == Some((x, pos + 1)),
{
    lemma_holds_at_index(buf, pos, flag_bytes(x), 0);
}

/// A null is read back as a null.
pub proof fn lemma_null_round_trip(buf: Seq<u8>, pos: int)
    requires
        holds_at(buf, pos, null_bytes()),
    ensures
        kind_at(buf, pos) == Some(WireKind::Null),
{
    lemma_holds_at_index(buf, pos, null_bytes(), 0);
}

/// The head of an array or a map is read back as its kind and the number
/// of entries that it was written with.
pub proof fn lemma_count_round_trip(buf: Seq<u8>, pos: int, major: u8, n: int)
    requires
        major == MAJOR_ARRAY || major == MAJOR_MAP,
        0 <= n <= u64::MAX,
        holds_at(buf, pos, head_bytes(major, n)),
    ensures
        kind_at(buf, pos) == Some(
            if major == MAJOR_ARRAY {
                WireKind::Array
            } else {
                WireKind::Mapping
            },
        ),
        count_at(buf, pos, major) == Some((Some(n), pos + head_len(n))),
{
    lemma_head_round_trip(buf, pos, major, n);
}

} // verus!

//! The byte layout of the CBOR items that the codec writes and reads.
//!
//! Every item starts with one byte: its upper three bits hold the major
//! type, its lower five bits either a small argument or the width of the
//! argument that follows, most significant byte first.

use vstd::prelude::*;
use vstd::utf8::{decode_utf8, encode_utf8, valid_utf8};
use crate::error::WireKind;

verus! {

pub const MAJOR_BYTES: u8 = 2;

pub const MAJOR_TEXT: u8 = 3;

pub const MAJOR_ARRAY: u8 = 4;

pub const MAJOR_MAP: u8 = 5;

pub const MAJOR_TAG: u8 = 6;

pub const BYTE_FALSE: u8 = 0xf4;

pub const BYTE_TRUE: u8 = 0xf5;

pub const BYTE_NULL: u8 = 0xf6;

/// The major type that a first byte announces.
pub open spec fn major_of(b: u8) -> int {
    b as int / 32
}

/// The lower five bits of a first byte.
pub open spec fn info_of(b: u8) -> int {
    b as int % 32
}

/// The `width` low bytes of `n`, most significant first.
pub open spec fn be_bytes(n: int, width: nat) -> Seq<u8>
    decreases width,
{
    if width == 0 {
        Seq::empty()
    } else {
        be_bytes(n / 256, (width - 1) as nat).push((n % 256) as u8)
    }
}

/// The number that the `width` bytes from `pos` on hold, most significant
/// first.
pub open spec fn be_value(buf: Seq<u8>, pos: int, width: nat) -> int
    decreases width,
{
    if width == 0 {
        0
    } else {
        be_value(buf, pos, (width - 1) as nat) * 256 + buf[pos + width - 1] as int
    }
}

/// The head of an item: major type and argument, in the shortest form.
pub open spec fn head_bytes(major: u8, n: int) -> Seq<u8> {
    if n < 24 {
        seq![(major * 32 + n) as u8]
    } else if n < 0x100 {
        seq![(major * 32 + 24) as u8, n as u8]
    } else if n < 0x1_0000 {
        seq![(major * 32 + 25) as u8] + be_bytes(n, 2)
    } else if n < 0x1_0000_0000 {
        seq![(major * 32 + 26) as u8] + be_bytes(n, 4)
    } else {
        seq![(major * 32 + 27) as u8] + be_bytes(n, 8)
    }
}

/// A text item: the head with the length in bytes, then the text in UTF-8.
pub open spec fn text_bytes(s: Seq<char>) -> Seq<u8> {
    head_bytes(MAJOR_TEXT, encode_utf8(s).len() as int) + encode_utf8(s)
}

pub open spec fn flag_bytes(x: bool) -> Seq<u8> {
    seq![if x { BYTE_TRUE } else { BYTE_FALSE }]
}

pub open spec fn null_bytes() -> Seq<u8> {
    seq![BYTE_NULL]
}

/// How many bytes of argument follow a first byte whose lower bits are `info`.
pub open spec fn arg_width(info: int) -> nat {
    if info < 24 {
        0
    } else if info == 24 {
        1
    } else if info == 25 {
        2
    } else if info == 26 {
        4
    } else {
        8
    }
}

/// The argument of the head at `pos` and the position behind the head.
/// There is none where the input ends first or the lower bits are above 27.
pub open spec fn arg_at(buf: Seq<u8>, pos: int) -> Option<(int, int)> {
    if !(0 <= pos < buf.len()) {
        None
    } else {
        let info = info_of(buf[pos]);
        let width = arg_width(info);
        if info < 24 {
            Some((info, pos + 1))
        } else if info <= 27 && pos + 1 + width <= buf.len() {
            Some((be_value(buf, pos + 1, width), pos + 1 + width))
        } else {
            None
        }
    }
}

/// The kind of the item at `pos`, where the first byte can be classified.
/// It cannot where the input has ended, or where a negative number's one
/// byte of head is the last byte of the input.
pub open spec fn kind_at(buf: Seq<u8>, pos: int) -> Option<WireKind> {
    if !(0 <= pos < buf.len()) {
        None
    } else {
        let b = buf[pos];
        if 0x38 <= b <= 0x3b && pos + 1 >= buf.len() {
            None
        } else if b == BYTE_FALSE || b == BYTE_TRUE {
            Some(WireKind::Flag)
        } else if b == BYTE_NULL {
            Some(WireKind::Null)
        } else if 0x60 <= b <= 0x7b {
            Some(WireKind::Text)
        } else if 0x80 <= b <= 0x9b {
            Some(WireKind::Array)
        } else if 0xa0 <= b <= 0xbb {
            Some(WireKind::Mapping)
        } else {
            Some(WireKind::Other)
        }
    }
}

/// The flag at `pos` and the position behind it.
pub open spec fn flag_at(buf: Seq<u8>, pos: int) -> Option<(bool, int)> {
    if 0 <= pos < buf.len() && (buf[pos] == BYTE_FALSE || buf[pos] == BYTE_TRUE) {
        Some((buf[pos] == BYTE_TRUE, pos + 1))
    } else {
        None
    }
}

/// The text of definite length at `pos` and the position behind it.
/// There is none where the item is no such text, where the input ends
/// before the text does, or where the bytes are not UTF-8.
pub open spec fn text_at(buf: Seq<u8>, pos: int) -> Option<(Seq<char>, int)> {
    if 0 <= pos < buf.len() && major_of(buf[pos]) == MAJOR_TEXT && info_of(buf[pos]) != 31 {
        match arg_at(buf, pos) {
            Some((n, p)) => {
                if p + n <= buf.len() && valid_utf8(buf.subrange(p, p + n)) {
                    Some((decode_utf8(buf.subrange(p, p + n)), p + n))
                } else {
                    None
                }
            },
            None => None,
        }
    } else {
        None
    }
}

/// The number of entries that the head of major type `major` at `pos`
/// announces (none for a head of indefinite length), and the position
/// behind the head.
pub open spec fn count_at(buf: Seq<u8>, pos: int, major: u8) -> Option<(Option<int>, int)> {
    if 0 <= pos < buf.len() && major_of(buf[pos]) == major {
        if info_of(buf[pos]) == 31 {
            Some((None, pos + 1))
        } else {
            match arg_at(buf, pos) {
                Some((n, p)) => Some((Some(n), p)),
                None => None,
            }
        }
    } else {
        None
    }
}

/// Bytes hold a number that is not negative.
pub proof fn lemma_be_value_not_negative(buf: Seq<u8>, pos: int, width: nat)
    ensures
        0 <= be_value(buf, pos, width),
    decreases width,
{
    if width > 0 {
        lemma_be_value_not_negative(buf, pos, (width - 1) as nat);
    }
}

/// A head is at least one byte long, and its argument is not negative.
pub proof fn lemma_arg_at_bounds(buf: Seq<u8>, pos: int)
    ensures
        arg_at(buf, pos) matches Some((n, p)) ==> 0 <= n && pos < p <= buf.len(),
{
    if 0 <= pos < buf.len() {
        lemma_be_value_not_negative(buf, pos + 1, arg_width(info_of(buf[pos])));
    }
}

/// The byte that closes an item of indefinite length.
pub const BYTE_BREAK: u8 = 0xff;

/// What a reader that walks through an item still has before it.
pub enum Frame {
    /// That many more items.
    Items(nat),
    /// Items until a break: the rest of an array or a map of indefinite
    /// length.
    Open,
    /// Chunks until a break: the rest of a byte string or a text of
    /// indefinite length. Each chunk is a string of definite length of the
    /// major type that the frame holds.
    Chunks(u8),
}

/// The frames once an item has been taken off the top frame, which is a
/// count of items or an open container.
pub open spec fn counted(frames: Seq<Frame>) -> Seq<Frame> {
    match frames.last() {
        Frame::Items(n) => frames.drop_last().push(Frame::Items((n - 1) as nat)),
        _ => frames,
    }
}

/// The position behind all that `frames` has before it, from `pos` on,
/// the last frame first.
///
/// An item is a number, a simple value (a flag and a null are such), a
/// float, a byte string or a text that lies within the input, an array or
/// a map with as many items as its head announces, or a tag before an
/// item. An item may also be of indefinite length: an array or a map
/// whose items run up to a break, or a byte string or a text whose chunks
/// run up to a break. The bytes of a text need not be UTF-8, and the items
/// of a map of indefinite length are not counted in pairs.
///
/// There is no such position where the input ends first, where a break
/// stands in the place of an item that a count or a tag announces, where
/// a chunk is not a string of definite length of its string's major type,
/// or where the lower bits of a first byte are 28 to 30, or 31 on a
/// number, a tag or a simple value.
pub open spec fn frames_end(buf: Seq<u8>, pos: int, frames: Seq<Frame>) -> Option<int>
    decreases buf.len() - pos, frames.len(),
{
    if frames.len() == 0 {
        Some(pos)
    } else if frames.last() == Frame::Items(0) {
        frames_end(buf, pos, frames.drop_last())
    } else if !(0 <= pos < buf.len()) {
        None
    } else {
        proof {
            lemma_arg_at_bounds(buf, pos);
        }
        let first = buf[pos];
        let major = major_of(first);
        let open = info_of(first) == 31;
        match frames.last() {
            Frame::Chunks(of) => {
                if first == BYTE_BREAK {
                    frames_end(buf, pos + 1, frames.drop_last())
                } else if major == of && !open {
                    match arg_at(buf, pos) {
                        Some((n, p)) => if p + n <= buf.len() {
                            frames_end(buf, p + n, frames)
                        } else {
                            None
                        },
                        None => None,
                    }
                } else {
                    None
                }
            },
            top => {
                if first == BYTE_BREAK {
                    if top is Open {
                        frames_end(buf, pos + 1, frames.drop_last())
                    } else {
                        None
                    }
                } else if open {
                    if major == MAJOR_BYTES || major == MAJOR_TEXT {
                        frames_end(buf, pos + 1, counted(frames).push(Frame::Chunks(first / 32)))
                    } else if major == MAJOR_ARRAY || major == MAJOR_MAP {
                        frames_end(buf, pos + 1, counted(frames).push(Frame::Open))
                    } else {
                        None
                    }
                } else {
                    match arg_at(buf, pos) {
                        Some((n, p)) => {
                            if major == MAJOR_BYTES || major == MAJOR_TEXT {
                                if p + n <= buf.len() {
                                    frames_end(buf, p + n, counted(frames))
                                } else {
                                    None
                                }
                            } else if major == MAJOR_ARRAY {
                                frames_end(buf, p, counted(frames).push(Frame::Items(n as nat)))
                            } else if major == MAJOR_MAP {
                                frames_end(
                                    buf,
                                    p,
                                    counted(frames).push(Frame::Items(2 * n as nat)),
                                )
                            } else if major == MAJOR_TAG {
                                frames_end(buf, p, counted(frames).push(Frame::Items(1)))
                            } else {
                                frames_end(buf, p, counted(frames))
                            }
                        },
                        None => None,
                    }
                }
            },
        }
    }
}

/// The position behind the item at `pos`.
pub open spec fn item_end(buf: Seq<u8>, pos: int) -> Option<int> {
    frames_end(buf, pos, seq![Frame::Items(1)])
}

/// The position behind the item at `pos`, if the item can be skipped: it
/// must be closed within the input.
pub open spec fn skip_at(buf: Seq<u8>, pos: int) -> Option<int> {
    item_end(buf, pos)
}

/// How many bytes `frames` takes at least: one for each item, and one for
/// the break of each open container or string.
pub open spec fn weight(frames: Seq<Frame>) -> nat
    decreases frames.len(),
{
    if frames.len() == 0 {
        0
    } else {
        weight(frames.drop_last()) + match frames.last() {
            Frame::Items(n) => n,
            _ => 1,
        }
    }
}

/// The weight of frames with one more on top.
pub proof fn lemma_weight_push(frames: Seq<Frame>, top: Frame)
    ensures
        weight(frames.push(top)) == weight(frames) + match top {
            Frame::Items(n) => n,
            _ => 1,
        },
{
    assert(frames.push(top).drop_last() =~= frames);
}

/// The weight of frames once an item has been taken off.
pub proof fn lemma_weight_counted(frames: Seq<Frame>)
    requires
        frames.len() > 0,
        frames.last() != Frame::Items(0),
        !(frames.last() is Chunks),
    ensures
        weight(counted(frames)) + 1 >= weight(frames),
        weight(counted(frames)) <= weight(frames),
{
    match frames.last() {
        Frame::Items(n) => {
            lemma_weight_push(frames.drop_last(), Frame::Items((n - 1) as nat));
        },
        _ => {},
    }
}

/// Each item takes at least one byte, and so does each break: what
/// `frames` has before it ends no earlier than its weight in bytes behind
/// `pos`, and within the input.
pub proof fn lemma_frames_take_bytes(buf: Seq<u8>, pos: int, frames: Seq<Frame>)
    requires
        0 <= pos <= buf.len(),
    ensures
        frames_end(buf, pos, frames) matches Some(end) ==> pos + weight(frames) <= end
            <= buf.len(),
    decreases buf.len() - pos, frames.len(),
{
    if frames.len() == 0 {
    } else if frames.last() == Frame::Items(0) {
        lemma_frames_take_bytes(buf, pos, frames.drop_last());
    } else if pos < buf.len() {
        lemma_arg_at_bounds(buf, pos);
        let first = buf[pos];
        let major = major_of(first);
        let open = info_of(first) == 31;
        match frames.last() {
            Frame::Chunks(of) => {
                if first == BYTE_BREAK {
                    lemma_frames_take_bytes(buf, pos + 1, frames.drop_last());
                } else if major == of && !open {
                    match arg_at(buf, pos) {
                        Some((n, p)) => {
                            if p + n <= buf.len() {
                                lemma_frames_take_bytes(buf, p + n, frames);
                            }
                        },
                        None => {},
                    }
                }
            },
            top => {
                if first == BYTE_BREAK {
                    if top is Open {
                        lemma_frames_take_bytes(buf, pos + 1, frames.drop_last());
                    }
                } else {
                    lemma_weight_counted(frames);
                    let rest = counted(frames);
                    if open {
                        if major == MAJOR_BYTES || major == MAJOR_TEXT {
                            lemma_weight_push(rest, Frame::Chunks(first / 32));
                            lemma_frames_take_bytes(buf, pos + 1, rest.push(Frame::Chunks(first / 32)));
                        } else if major == MAJOR_ARRAY || major == MAJOR_MAP {
                            lemma_weight_push(rest, Frame::Open);
                            lemma_frames_take_bytes(buf, pos + 1, rest.push(Frame::Open));
                        }
                    } else {
                        match arg_at(buf, pos) {
                            Some((n, p)) => {
                                if major == MAJOR_BYTES || major == MAJOR_TEXT {
                                    if p + n <= buf.len() {
                                        lemma_frames_take_bytes(buf, p + n, rest);
                                    }
                                } else if major == MAJOR_ARRAY {
                                    lemma_weight_push(rest, Frame::Items(n as nat));
                                    lemma_frames_take_bytes(buf, p, rest.push(Frame::Items(n as nat)));
                                } else if major == MAJOR_MAP {
                                    lemma_weight_push(rest, Frame::Items(2 * n as nat));
                                    lemma_frames_take_bytes(
                                        buf,
                                        p,
                                        rest.push(Frame::Items(2 * n as nat)),
                                    );
                                } else if major == MAJOR_TAG {
                                    lemma_weight_push(rest, Frame::Items(1));
                                    lemma_frames_take_bytes(buf, p, rest.push(Frame::Items(1)));
                                } else {
                                    lemma_frames_take_bytes(buf, p, rest);
                                }
                            },
                            None => {},
                        }
                    }
                }
            },
        }
    }
}

/// What lies below the frames on top plays no part until they are done:
/// the walk through `base` with `top` on it is the walk through `top`,
/// then the walk through `base`.
pub proof fn lemma_frames_on_top(buf: Seq<u8>, pos: int, base: Seq<Frame>, top: Seq<Frame>)
    ensures
        frames_end(buf, pos, base + top) == match frames_end(buf, pos, top) {
            Some(mid) => frames_end(buf, mid, base),
            None => None,
        },
    decreases buf.len() - pos, top.len(),
{
    let all = base + top;
    if top.len() == 0 {
        assert(all =~= base);
    } else {
        assert(all.last() == top.last());
        assert(all.drop_last() =~= base + top.drop_last());
        if top.last() == Frame::Items(0) {
            lemma_frames_on_top(buf, pos, base, top.drop_last());
        } else if 0 <= pos < buf.len() {
            lemma_arg_at_bounds(buf, pos);
            let first = buf[pos];
            let major = major_of(first);
            let open = info_of(first) == 31;
            assert(counted(all) =~= base + counted(top));
            let rest = counted(top);
            match top.last() {
                Frame::Chunks(of) => {
                    if first == BYTE_BREAK {
                        lemma_frames_on_top(buf, pos + 1, base, top.drop_last());
                    } else if major == of && !open {
                        match arg_at(buf, pos) {
                            Some((n, p)) => {
                                if p + n <= buf.len() {
                                    lemma_frames_on_top(buf, p + n, base, top);
                                }
                            },
                            None => {},
                        }
                    }
                },
                last => {
                    if first == BYTE_BREAK {
                        if last is Open {
                            lemma_frames_on_top(buf, pos + 1, base, top.drop_last());
                        }
                    } else if open {
                        if major == MAJOR_BYTES || major == MAJOR_TEXT {
                            let next = rest.push(Frame::Chunks(first / 32));
                            assert((base + rest).push(Frame::Chunks(first / 32)) =~= base + next);
                            lemma_frames_on_top(buf, pos + 1, base, next);
                        } else if major == MAJOR_ARRAY || major == MAJOR_MAP {
                            let next = rest.push(Frame::Open);
                            assert((base + rest).push(Frame::Open) =~= base + next);
                            lemma_frames_on_top(buf, pos + 1, base, next);
                        }
                    } else {
                        match arg_at(buf, pos) {
                            Some((n, p)) => {
                                if major == MAJOR_BYTES || major == MAJOR_TEXT {
                                    if p + n <= buf.len() {
                                        lemma_frames_on_top(buf, p + n, base, rest);
                                    }
                                } else if major == MAJOR_ARRAY {
                                    let next = rest.push(Frame::Items(n as nat));
                                    assert((base + rest).push(Frame::Items(n as nat)) =~= base
                                        + next);
                                    lemma_frames_on_top(buf, p, base, next);
                                } else if major == MAJOR_MAP {
                                    let next = rest.push(Frame::Items(2 * n as nat));
                                    assert((base + rest).push(Frame::Items(2 * n as nat)) =~= base
                                        + next);
                                    lemma_frames_on_top(buf, p, base, next);
                                } else if major == MAJOR_TAG {
                                    let next = rest.push(Frame::Items(1));
                                    assert((base + rest).push(Frame::Items(1)) =~= base + next);
                                    lemma_frames_on_top(buf, p, base, next);
                                } else {
                                    lemma_frames_on_top(buf, p, base, rest);
                                }
                            },
                            None => {},
                        }
                    }
                },
            }
        }
    }
}

/// The first of `count` items ends where the item at `pos` ends, and the
/// others follow it.
pub proof fn lemma_items_one_by_one(buf: Seq<u8>, pos: int, count: nat)
    requires
        count > 0,
    ensures
        frames_end(buf, pos, seq![Frame::Items(count)]) == match item_end(buf, pos) {
            Some(mid) => frames_end(buf, mid, seq![Frame::Items((count - 1) as nat)]),
            None => None,
        },
{
    let more = seq![Frame::Items((count - 1) as nat)];
    let one = seq![Frame::Items(1)];
    // Both walks start alike: the item is taken off the count, and what it
    // opens comes on top.
    lemma_frames_on_top(buf, pos, more, one);
    lemma_started_alike(buf, pos, count);
}

/// A count of items and a single item on top of the count less one walk
/// alike.
proof fn lemma_started_alike(buf: Seq<u8>, pos: int, count: nat)
    requires
        count > 0,
    ensures
        frames_end(buf, pos, seq![Frame::Items(count)]) == frames_end(
            buf,
            pos,
            seq![Frame::Items((count - 1) as nat)] + seq![Frame::Items(1)],
        ),
{
    let whole = seq![Frame::Items(count)];
    let more = seq![Frame::Items((count - 1) as nat)];
    let split = more + seq![Frame::Items(1)];
    assert(counted(whole) =~= more);
    assert(counted(split) =~= more + seq![Frame::Items(0)]);
    if 0 <= pos < buf.len() {
        lemma_arg_at_bounds(buf, pos);
        let first = buf[pos];
        let major = major_of(first);
        let open = info_of(first) == 31;
        // What the item opens lies on `more` in the one walk and on `more`
        // with an empty count in the other, and an empty count is dropped
        // once what lies on it is done.
        if first != BYTE_BREAK {
            if open {
                if major == MAJOR_BYTES || major == MAJOR_TEXT {
                    lemma_over_empty_count(buf, pos + 1, more, seq![Frame::Chunks(first / 32)]);
                } else if major == MAJOR_ARRAY || major == MAJOR_MAP {
                    lemma_over_empty_count(buf, pos + 1, more, seq![Frame::Open]);
                }
            } else {
                match arg_at(buf, pos) {
                    Some((n, p)) => {
                        if major == MAJOR_BYTES || major == MAJOR_TEXT {
                            if p + n <= buf.len() {
                                lemma_over_empty_count(buf, p + n, more, Seq::empty());
                            }
                        } else if major == MAJOR_ARRAY {
                            lemma_over_empty_count(buf, p, more, seq![Frame::Items(n as nat)]);
                        } else if major == MAJOR_MAP {
                            lemma_over_empty_count(buf, p, more, seq![Frame::Items(2 * n as nat)]);
                        } else if major == MAJOR_TAG {
                            lemma_over_empty_count(buf, p, more, seq![Frame::Items(1)]);
                        } else {
                            lemma_over_empty_count(buf, p, more, Seq::empty());
                        }
                    },
                    None => {},
                }
            }
        }
    }
}

/// An empty count below the frames on top changes nothing.
proof fn lemma_over_empty_count(buf: Seq<u8>, pos: int, base: Seq<Frame>, top: Seq<Frame>)
    ensures
        frames_end(buf, pos, base + top) == frames_end(
            buf,
            pos,
            base + seq![Frame::Items(0)] + top,
        ),
{
    let padded = base + seq![Frame::Items(0)];
    lemma_frames_on_top(buf, pos, base, top);
    lemma_frames_on_top(buf, pos, padded, top);
    assert(padded.drop_last() =~= base);
    assert(base + seq![Frame::Items(0)] + top =~= padded + top);
    match frames_end(buf, pos, top) {
        Some(mid) => {
            assert(frames_end(buf, mid, padded) == frames_end(buf, mid, base));
        },
        None => {},
    }
}

} // verus!

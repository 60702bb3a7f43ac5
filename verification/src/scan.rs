//! Finding the end of an item before it is skipped.
//!
//! An unknown field is skipped whatever it holds, as long as it is closed
//! within the input: its end is then found by walking over its heads and
//! breaks. An item that the end of the input leaves open is not skipped,
//! and a struct that holds one in an unknown field is malformed.

use vstd::prelude::*;
use crate::wire::{
    arg_at, arg_width, be_value, counted, frames_end, info_of, item_end, lemma_arg_at_bounds,
    lemma_frames_take_bytes, lemma_weight_push, Frame, BYTE_BREAK, MAJOR_ARRAY, MAJOR_BYTES,
    MAJOR_MAP, MAJOR_TAG, MAJOR_TEXT,
};

verus! {

/// The byte at `i` as a number.
fn byte(buf: &[u8], i: usize) -> (r: u64)
    requires
        i < buf@.len(),
    ensures
        r == buf@[i as int],
{
    buf[i] as u64
}

/// Reads the argument of the head at `pos`: the argument and the position
/// behind the head.
pub fn head_arg(buf: &[u8], pos: usize) -> (r: Option<(u64, usize)>)
    ensures
        match arg_at(buf@, pos as int) {
            Some((n, p)) => r == Some((n as u64, p as usize)) && n == n as u64 && p == p as usize,
            None => r is None,
        },
{
    let len: usize = buf.len();
    if pos >= len {
        return None;
    }
    let info: u8 = buf[pos] % 32;
    if info < 24 {
        return Some((info as u64, pos + 1));
    }
    if info > 27 {
        return None;
    }
    let width: usize = if info == 24 {
        1
    } else if info == 25 {
        2
    } else if info == 26 {
        4
    } else {
        8
    };
    if len - pos - 1 < width {
        return None;
    }
    let at: usize = pos + 1;
    proof {
        reveal_with_fuel(be_value, 9);
        assert(arg_width(info_of(buf@[pos as int])) == width);
    }
    let value: u64 = if width == 1 {
        byte(buf, at)
    } else if width == 2 {
        byte(buf, at) * 256 + byte(buf, at + 1)
    } else if width == 4 {
        ((byte(buf, at) * 256 + byte(buf, at + 1)) * 256 + byte(buf, at + 2)) * 256 + byte(
            buf,
            at + 3,
        )
    } else {
        let high: u64 = ((byte(buf, at) * 256 + byte(buf, at + 1)) * 256 + byte(buf, at + 2))
            * 256 + byte(buf, at + 3);
        let low: u64 = ((byte(buf, at + 4) * 256 + byte(buf, at + 5)) * 256 + byte(buf, at + 6))
            * 256 + byte(buf, at + 7);
        high * 0x1_0000_0000 + low
    };
    Some((value, at + width))
}

/// What the walk through an item still has before it.
enum Pending {
    Items(usize),
    Open,
    Chunks(u8),
}

impl Pending {
    spec fn frame(self) -> Frame {
        match self {
            Pending::Items(n) => Frame::Items(n as nat),
            Pending::Open => Frame::Open,
            Pending::Chunks(of) => Frame::Chunks(of),
        }
    }
}

/// The frames that a stack stands for.
spec fn frames_of(stack: Seq<Pending>) -> Seq<Frame> {
    Seq::new(stack.len(), |i: int| stack[i].frame())
}

/// Finds the position behind the item at `pos`, if the item is closed
/// within the input.
pub fn find_end(buf: &[u8], pos: usize) -> (r: Option<usize>)
    ensures
        match item_end(buf@, pos as int) {
            Some(end) => r == Some(end as usize) && end == end as usize,
            None => r is None,
        },
{
    let len: usize = buf.len();
    if pos >= len {
        return None;
    }
    let mut stack: Vec<Pending> = Vec::new();
    stack.push(Pending::Items(1));
    let mut at: usize = pos;
    proof {
        assert(frames_of(stack@) =~= seq![Frame::Items(1)]);
    }
    while stack.len() > 0
        invariant
            len == buf@.len(),
            at <= len,
            item_end(buf@, pos as int) == frames_end(buf@, at as int, frames_of(stack@)),
        decreases len - at, stack.len(),
    {
        let ghost frames = frames_of(stack@);
        let top = match stack.pop() {
            Some(top) => top,
            None => {
                return None;
            },
        };
        proof {
            assert(frames_of(stack@) =~= frames.drop_last());
            assert(frames.last() == top.frame());
            lemma_arg_at_bounds(buf@, at as int);
        }
        let mut begins: bool = false;
        match top {
            Pending::Items(n) => {
                if n > 0 {
                    if at >= len || buf[at] == BYTE_BREAK {
                        return None;
                    }
                    stack.push(Pending::Items(n - 1));
                    begins = true;
                }
            },
            Pending::Open => {
                if at >= len {
                    return None;
                }
                if buf[at] == BYTE_BREAK {
                    at = at + 1;
                } else {
                    stack.push(Pending::Open);
                    begins = true;
                }
            },
            Pending::Chunks(of) => {
                if at >= len {
                    return None;
                }
                let first: u8 = buf[at];
                if first == BYTE_BREAK {
                    at = at + 1;
                } else if first / 32 == of && first % 32 != 31 {
                    let (n, p) = match head_arg(buf, at) {
                        Some(found) => found,
                        None => {
                            return None;
                        },
                    };
                    if n > (len - p) as u64 {
                        return None;
                    }
                    at = p + n as usize;
                    stack.push(Pending::Chunks(of));
                    proof {
                        assert(frames_of(stack@) =~= frames);
                    }
                } else {
                    return None;
                }
            },
        }
        if begins {
            let ghost rest = frames_of(stack@);
            proof {
                assert(rest =~= counted(frames));
            }
            let first: u8 = buf[at];
            let major: u8 = first / 32;
            if first % 32 == 31 {
                if major == MAJOR_BYTES || major == MAJOR_TEXT {
                    stack.push(Pending::Chunks(major));
                    at = at + 1;
                    proof {
                        assert(frames_of(stack@) =~= rest.push(Frame::Chunks(major)));
                    }
                } else if major == MAJOR_ARRAY || major == MAJOR_MAP {
                    stack.push(Pending::Open);
                    at = at + 1;
                    proof {
                        assert(frames_of(stack@) =~= rest.push(Frame::Open));
                    }
                } else {
                    return None;
                }
            } else {
                let (n, p) = match head_arg(buf, at) {
                    Some(found) => found,
                    None => {
                        return None;
                    },
                };
                let room: usize = len - p;
                if major == MAJOR_BYTES || major == MAJOR_TEXT {
                    if n > room as u64 {
                        return None;
                    }
                    at = p + n as usize;
                } else if major == MAJOR_ARRAY {
                    proof {
                        lemma_weight_push(rest, Frame::Items(n as nat));
                        lemma_frames_take_bytes(buf@, p as int, rest.push(Frame::Items(n as nat)));
                    }
                    if n > room as u64 {
                        return None;
                    }
                    stack.push(Pending::Items(n as usize));
                    at = p;
                    proof {
                        assert(frames_of(stack@) =~= rest.push(Frame::Items(n as nat)));
                    }
                } else if major == MAJOR_MAP {
                    proof {
                        lemma_weight_push(rest, Frame::Items(2 * n as nat));
                        lemma_frames_take_bytes(
                            buf@,
                            p as int,
                            rest.push(Frame::Items(2 * n as nat)),
                        );
                    }
                    if n > (room / 2) as u64 {
                        return None;
                    }
                    stack.push(Pending::Items(2 * (n as usize)));
                    at = p;
                    proof {
                        assert(frames_of(stack@) =~= rest.push(Frame::Items(2 * n as nat)));
                    }
                } else if major == MAJOR_TAG {
                    stack.push(Pending::Items(1));
                    at = p;
                    proof {
                        assert(frames_of(stack@) =~= rest.push(Frame::Items(1)));
                    }
                } else {
                    at = p;
                }
            }
        }
    }
    proof {
        assert(frames_of(stack@) =~= Seq::<Frame>::empty());
    }
    Some(at)
}

} // verus!

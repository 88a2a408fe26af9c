//! A script that builds a fresh vector for every operation and reads its
//! arguments one after another from a moving position in the input.
//!
//! The first eight bytes of the input's first half give the number of
//! operations; each starts with a byte that chooses one of fifteen, each on
//! a vector of its own element type and inline size, and then reads what it
//! needs from the bytes that follow. A run halts where a read runs past the
//! input or a size computation overflows, and stops quietly where a code is
//! no character.
//!
//! The outside crate leaves a few results to the allocator: the capacity of
//! a vector taken over from a `Vec`, and whether a `try_reserve` that could
//! succeed does. What a run reports is stated for every such choice
//! (`Choices`); a run owes the outcome of one of them.
use vstd::prelude::*;
use crate::medley::{charn15, chars_halt, pushes_cap, reads_ok, u8n22};
use crate::bytes::_to_u128;
use crate::script::{
    fits, i32s_at, read_bool, read_char, read_i16, read_i32, read_i64, read_i8, read_isize, read_u16, read_u32,
    read_u64, read_u8, read_usize, u32s_at, usize_at, Halt,
};
use crate::bytes::be_u32;
use crate::sv_u32::{
    small_vec_u32_as_slice, small_vec_u32_capacity, small_vec_u32_is_empty, small_vec_u32_push,
    small_vec_u32_reserve, small_vec_u32_with_capacity, sv_u32_cap, sv_u32_items,
};
use crate::sv_u8n32::{
    small_vec_u8n32_as_mut_slice, small_vec_u8n32_capacity, small_vec_u8n32_extend_from_slice,
    small_vec_u8n32_from_vec, small_vec_u8n32_reserve, sv_u8n32_cap,
};
use crate::small_vec::{
    exact_growth_overflows, exact_growth_overflows_exec, growth_overflows, growth_overflows_exec, grown,
    law_lex_order_reflexive, lemma_small_growth_sized, next_pow2, open_cap, Order,
};
use crate::stream_script::{try_cap, Choices};
use crate::survey::{bytes_at, codes_at, i16_at, i64_at, i8_at, isizes_at, u128_at, u16_at};

pub mod u64n8;
pub mod i32n12;
pub mod booln24;
pub mod u16n14;
pub mod i64n16;
pub mod isizen15;
pub mod u128n16;
pub mod i16n30;
pub mod i8n64;

verus! {

/// What the script reports, one value per printed line.
#[derive(Debug, PartialEq, Eq)]
pub enum Event {
    /// The `u32` items, as a list.
    U32s(Vec<u32>),
    /// One `u32` item.
    U32(u32),
    /// One byte item.
    U8(u8),
    /// "Length: n".
    Length(usize),
    /// "Capacity: c".
    Capacity(usize),
    /// "Popped: x".
    Popped(i32),
    /// "Ptr: p".
    Ptr(usize),
    /// "Equal: b".
    Equal(bool),
    /// The order of a vector and its clone.
    Compared(Order),
    /// "Removed: c".
    Removed(char),
    /// "Is empty: b".
    IsEmpty(bool),
    /// "Vec len: n".
    VecLen(usize),
    /// "ToSmallVec len: n".
    ToSmallVecLen(usize),
    /// "Swapped: x".
    Swapped(u8),
    /// "Try reserve succeeded" or "Try reserve failed".
    TryReserve(bool),
    /// "Deref len: n".
    DerefLen(usize),
    /// "AsRef len: n".
    AsRefLen(usize),
    /// "Borrow len: n".
    BorrowLen(usize),
    /// "MutBorrow len: n".
    MutBorrowLen(usize),
    /// "Iter val: x".
    IterVal(i8),
    /// An operation on floating-point items, left to the caller: the
    /// operation's number and the position of its arguments.
    FloatOp(u8, usize),
}

/// What the script is owed to report; an address may be any, and a
/// character is owed by its code.
pub enum Expect {
    U32s(Seq<u32>),
    U32(u32),
    U8(u8),
    Length(nat),
    Capacity(nat),
    Popped(i32),
    Ptr,
    Equal(bool),
    Compared(Order),
    Removed(u32),
    IsEmpty(bool),
    VecLen(nat),
    ToSmallVecLen(nat),
    Swapped(u8),
    TryReserve(bool),
    DerefLen(nat),
    AsRefLen(nat),
    BorrowLen(nat),
    MutBorrowLen(nat),
    IterVal(i8),
    FloatOp(u8, nat),
}

/// Whether a reported event is the one that was owed.
pub open spec fn event_matches(e: Event, x: Expect) -> bool {
    match e {
        Event::U32s(v) => x == Expect::U32s(v@),
        Event::U32(v) => x == Expect::U32(v),
        Event::U8(v) => x == Expect::U8(v),
        Event::Length(n) => x == Expect::Length(n as nat),
        Event::Capacity(n) => x == Expect::Capacity(n as nat),
        Event::Popped(v) => x == Expect::Popped(v),
        Event::Ptr(_) => x is Ptr,
        Event::Equal(b) => x == Expect::Equal(b),
        Event::Compared(o) => x == Expect::Compared(o),
        Event::Removed(c) => x == Expect::Removed(c as u32),
        Event::IsEmpty(b) => x == Expect::IsEmpty(b),
        Event::VecLen(n) => x == Expect::VecLen(n as nat),
        Event::ToSmallVecLen(n) => x == Expect::ToSmallVecLen(n as nat),
        Event::Swapped(v) => x == Expect::Swapped(v),
        Event::TryReserve(b) => x == Expect::TryReserve(b),
        Event::DerefLen(n) => x == Expect::DerefLen(n as nat),
        Event::AsRefLen(n) => x == Expect::AsRefLen(n as nat),
        Event::BorrowLen(n) => x == Expect::BorrowLen(n as nat),
        Event::MutBorrowLen(n) => x == Expect::MutBorrowLen(n as nat),
        Event::IterVal(v) => x == Expect::IterVal(v),
        Event::FloatOp(op, at) => x == Expect::FloatOp(op, at as nat),
    }
}

/// Whether the reported events are, one for one, those owed.
pub open spec fn events_match(a: Seq<Event>, x: Seq<Expect>) -> bool {
    &&& a.len() == x.len()
    &&& forall|i: int| 0 <= i < a.len() ==> #[trigger] event_matches(a[i], x[i])
}

/// Reported events, followed by more, match what was owed followed by more.
proof fn lemma_events_match_append(a: Seq<Event>, x: Seq<Expect>, b: Seq<Event>, y: Seq<Expect>)
    requires
        events_match(a, x),
        events_match(b, y),
    ensures
        events_match(a + b, x + y),
{
    assert forall|i: int| 0 <= i < (a + b).len() implies #[trigger] event_matches((a + b)[i], (x + y)[i]) by {
        if i < a.len() {
            assert(event_matches(a[i], x[i]));
        } else {
            assert(event_matches(b[i - a.len()], y[i - a.len()]));
        }
    }
}

/// What an operation is owed: its events, why it halts if it does, and
/// otherwise the position of the next operation.
pub type Step = (Seq<Expect>, Option<Halt>, int);

/// An operation that halts with `h` before reporting anything.
pub open spec fn stop(h: Halt) -> Step {
    (Seq::empty(), Some(h), 0)
}

/// An operation that reports `shown`, then halts with `h`.
pub open spec fn stop_after(shown: Seq<Expect>, h: Halt) -> Step {
    (shown, Some(h), 0)
}

/// An operation that reports `shown` and ends before position `p`.
pub open spec fn go(shown: Seq<Expect>, p: int) -> Step {
    (shown, None, p)
}

/// The count read at `at`, modulo 65.
pub open spec fn count65(g: Seq<u8>, at: int) -> nat {
    usize_at(g, at) as nat % 65
}

/// The `n` items of `k` bytes each read at `start`.
pub open spec fn u16s_at(g: Seq<u8>, start: int, n: nat) -> Seq<u16> {
    Seq::new(n, |k: int| u16_at(g, start + 2 * k))
}

pub open spec fn i16s_at(g: Seq<u8>, start: int, n: nat) -> Seq<i16> {
    Seq::new(n, |k: int| i16_at(g, start + 2 * k))
}

pub open spec fn i64s_at(g: Seq<u8>, start: int, n: nat) -> Seq<i64> {
    Seq::new(n, |k: int| i64_at(g, start + 8 * k))
}

pub open spec fn u128s_at(g: Seq<u8>, start: int, n: nat) -> Seq<u128> {
    Seq::new(n, |k: int| u128_at(g, start + 16 * k))
}

pub open spec fn i8s_at(g: Seq<u8>, start: int, n: nat) -> Seq<i8> {
    Seq::new(n, |k: int| i8_at(g, start + k))
}

pub open spec fn bools_at(g: Seq<u8>, start: int, n: nat) -> Seq<bool> {
    Seq::new(n, |k: int| g[start + k] % 2 == 0)
}

pub open spec fn each_u8(s: Seq<u8>) -> Seq<Expect> {
    s.map_values(|v: u8| Expect::U8(v))
}

pub open spec fn each_iter_val(s: Seq<i8>) -> Seq<Expect> {
    s.map_values(|v: i8| Expect::IterVal(v))
}

/// Operation 0: a `SmallVec<[u32; 16]>` of a read capacity, reserving a read
/// amount, with read values pushed; report the items, then the one at a
/// read index.
pub open spec fn op_0(g: Seq<u8>, off: int) -> Step {
    if !fits(g, off, 8) {
        stop(Halt::InputExhausted)
    } else if exact_growth_overflows(0, 16, usize_at(g, off) as nat, 4) {
        stop(Halt::CapacityOverflow)
    } else if !fits(g, off + 8, 8) {
        stop(Halt::InputExhausted)
    } else {
        let n0 = usize_at(g, off) as nat;
        let c0: nat = if n0 <= 16 { 16 } else { n0 };
        if growth_overflows(0, c0, usize_at(g, off + 8) as nat, 4) {
            stop(Halt::CapacityOverflow)
        } else if !fits(g, off + 16, 8) {
            stop(Halt::InputExhausted)
        } else {
            let n = count65(g, off + 16);
            if !reads_ok(g, off + 24, 4, 4, n) {
                stop(Halt::InputExhausted)
            } else {
                let vals = u32s_at(g, off + 24, 4, n);
                let p = off + 24 + 4 * n;
                let shown = seq![Expect::U32s(vals)];
                if n == 0 {
                    go(shown, p)
                } else if !fits(g, p, 8) {
                    stop_after(shown, Halt::InputExhausted)
                } else {
                    go(shown.push(Expect::U32(vals[(usize_at(g, p) as nat % n) as int])), p + 8)
                }
            }
        }
    }
}

/// Operation 1: read bytes taken over by a `SmallVec<[u8; 32]>` (capacity
/// `c.cap` where left open), reserving a read amount, extended by more read
/// bytes; report every byte.
pub open spec fn op_1(g: Seq<u8>, off: int, c: Choices) -> Step {
    if !fits(g, off, 8) {
        stop(Halt::InputExhausted)
    } else {
        let n = count65(g, off);
        let p = off + 8 + n;
        if !reads_ok(g, off + 8, 1, 1, n) || !fits(g, p, 8) {
            stop(Halt::InputExhausted)
        } else if growth_overflows(n, open_cap(c.cap, n, 32, 1), usize_at(g, p) as nat, 1) {
            stop(Halt::CapacityOverflow)
        } else if !fits(g, p + 8, 8) {
            stop(Halt::InputExhausted)
        } else {
            let m = count65(g, p + 8);
            if !reads_ok(g, p + 16, 1, 1, m) {
                stop(Halt::InputExhausted)
            } else {
                go(each_u8(bytes_at(g, off + 8, n) + bytes_at(g, p + 16, m)), p + 16 + m)
            }
        }
    }
}

/// Operation 2: copies of a read `u64` in a `SmallVec<[u64; 8]>` (capacity
/// `c.cap` where left open), reserving a read amount; report the length and
/// capacity, then truncate to a read length.
pub open spec fn op_2(g: Seq<u8>, off: int, c: Choices) -> Step {
    if !fits(g, off, 8) || !fits(g, off + 8, 8) || !fits(g, off + 16, 8) {
        stop(Halt::InputExhausted)
    } else {
        let n = count65(g, off);
        let c0 = if n <= 8 { 8 } else { open_cap(c.cap, n, 8, 8) };
        let r = usize_at(g, off + 16) as nat;
        if growth_overflows(n, c0, r, 8) {
            stop(Halt::CapacityOverflow)
        } else {
            let shown = seq![Expect::Length(n), Expect::Capacity(grown(n, c0, r))];
            if !fits(g, off + 24, 8) {
                stop_after(shown, Halt::InputExhausted)
            } else {
                go(shown, off + 32)
            }
        }
    }
}

/// Operation 3: read values taken over by a `SmallVec<[i32; 12]>`
/// (capacity `c.cap`), reserving a read amount; pop and report the last,
/// then insert a read value at a read position.
pub open spec fn op_3(g: Seq<u8>, off: int, c: Choices) -> Step {
    if !fits(g, off, 8) {
        stop(Halt::InputExhausted)
    } else {
        let n = count65(g, off);
        let p = off + 8 + 4 * n;
        if !reads_ok(g, off + 8, 4, 4, n) || !fits(g, p, 8) {
            stop(Halt::InputExhausted)
        } else if growth_overflows(n, open_cap(c.cap, n, 12, 4), usize_at(g, p) as nat, 4) {
            stop(Halt::CapacityOverflow)
        } else {
            let shown = if n > 0 {
                seq![Expect::Popped(i32s_at(g, off + 8, 4, n).last())]
            } else {
                Seq::empty()
            };
            if !fits(g, p + 8, 8) || !fits(g, p + 16, 4) {
                stop_after(shown, Halt::InputExhausted)
            } else {
                go(shown, p + 20)
            }
        }
    }
}

/// Operation 4: read `f32` values in a `SmallVec<[f32; 20]>` (capacity
/// `c.cap` where left open), reserving a read amount, then a read range
/// drained and reported, which is left to the caller.
pub open spec fn op_4(g: Seq<u8>, off: int, c: Choices) -> Step {
    if !fits(g, off, 8) {
        stop(Halt::InputExhausted)
    } else {
        let n = count65(g, off);
        let p = off + 8 + 4 * n;
        if !reads_ok(g, off + 8, 4, 4, n) || !fits(g, p, 8) {
            stop(Halt::InputExhausted)
        } else if growth_overflows(n, if n <= 20 { 20 } else { open_cap(c.cap, n, 20, 4) }, usize_at(g, p) as nat, 4) {
            stop(Halt::CapacityOverflow)
        } else if !fits(g, p + 8, 8) || !fits(g, p + 16, 8) {
            stop(Halt::InputExhausted)
        } else {
            go(seq![Expect::FloatOp(4, off as nat)], p + 24)
        }
    }
}

/// The start of operation 5: the vector made by the constructor read at
/// `off` (its length and capacity, `c.cap` where left open) and the position
/// after its arguments.
pub open spec fn built_5(g: Seq<u8>, off: int, c: Choices) -> Result<(nat, nat, int), Halt> {
    let choice = g[off] % 3;
    if choice == 0 {
        Ok((0, 24, off + 1))
    } else if choice == 1 {
        if !fits(g, off + 1, 8) {
            Err(Halt::InputExhausted)
        } else {
            let n0 = usize_at(g, off + 1) as nat;
            if exact_growth_overflows(0, 24, n0, 1) {
                Err(Halt::CapacityOverflow)
            } else {
                Ok((0, if n0 <= 24 { 24 } else { n0 }, off + 9))
            }
        }
    } else if !fits(g, off + 1, 1) || !fits(g, off + 2, 8) {
        Err(Halt::InputExhausted)
    } else {
        let n = count65(g, off + 2);
        Ok((n, if n <= 24 { 24 } else { open_cap(c.cap, n, 24, 1) }, off + 10))
    }
}

/// Operation 5: a `SmallVec<[bool; 24]>` made by one of three constructors,
/// reserving a read amount, with read flags pushed, shrunk; report its
/// address.
pub open spec fn op_5(g: Seq<u8>, off: int, c: Choices) -> Step {
    if !fits(g, off, 1) {
        stop(Halt::InputExhausted)
    } else {
        match built_5(g, off, c) {
            Err(h) => stop(h),
            Ok(b) => {
                let p = b.2;
                if !fits(g, p, 8) {
                    stop(Halt::InputExhausted)
                } else if growth_overflows(b.0, b.1, usize_at(g, p) as nat, 1) {
                    stop(Halt::CapacityOverflow)
                } else if !fits(g, p + 8, 8) {
                    stop(Halt::InputExhausted)
                } else {
                    let m = count65(g, p + 8);
                    if !reads_ok(g, p + 16, 1, 1, m) {
                        stop(Halt::InputExhausted)
                    } else {
                        go(seq![Expect::Ptr], p + 16 + m)
                    }
                }
            },
        }
    }
}

/// Operation 6: two `SmallVec<[u16; 14]>` of read values, the first reserving
/// a read amount; append the second to the first, report whether they are
/// equal, and the first's order against a clone.
pub open spec fn op_6(g: Seq<u8>, off: int) -> Step {
    if !fits(g, off, 8) {
        stop(Halt::InputExhausted)
    } else {
        let a = count65(g, off);
        let p1 = off + 8 + 2 * a;
        if !reads_ok(g, off + 8, 2, 2, a) || !fits(g, p1, 8) {
            stop(Halt::InputExhausted)
        } else {
            let b = count65(g, p1);
            let p2 = p1 + 8 + 2 * b;
            if !reads_ok(g, p1 + 8, 2, 2, b) || !fits(g, p2, 8) {
                stop(Halt::InputExhausted)
            } else if growth_overflows(a, pushes_cap(0, 14, a), usize_at(g, p2) as nat, 2) {
                stop(Halt::CapacityOverflow)
            } else {
                go(seq![Expect::Equal(a + b == 0), Expect::Compared(Order::Equal)], p2 + 8)
            }
        }
    }
}

/// Operation 7: read characters pushed to a `SmallVec<[char; 15]>`,
/// reserving a read amount; remove one at a read index and report it, clear,
/// report that it is empty.
pub open spec fn op_7(g: Seq<u8>, off: int) -> Step {
    if !fits(g, off, 8) {
        stop(Halt::InputExhausted)
    } else {
        let n = count65(g, off);
        match chars_halt(g, off + 8, 0, n) {
            Some(h) => stop(h),
            None => {
                let p = off + 8 + 4 * n;
                if !fits(g, p, 8) {
                    stop(Halt::InputExhausted)
                } else if growth_overflows(n, pushes_cap(0, 15, n), usize_at(g, p) as nat, 4) {
                    stop(Halt::CapacityOverflow)
                } else if n == 0 {
                    go(seq![Expect::IsEmpty(true)], p + 8)
                } else if !fits(g, p + 8, 8) {
                    stop(Halt::InputExhausted)
                } else {
                    let codes = codes_at(g, off + 8, n);
                    go(
                        seq![Expect::Removed(codes[(usize_at(g, p + 8) as nat % n) as int]), Expect::IsEmpty(true)],
                        p + 16,
                    )
                }
            },
        }
    }
}

/// Operation 8: read values collected into a `SmallVec<[i64; 16]>`,
/// reserving a read amount, resized to a read length with a read value;
/// report the length of the `Vec` it turns into.
pub open spec fn op_8(g: Seq<u8>, off: int) -> Step {
    if !fits(g, off, 8) {
        stop(Halt::InputExhausted)
    } else {
        let n = count65(g, off);
        let p = off + 8 + 8 * n;
        if !reads_ok(g, off + 8, 8, 8, n) || !fits(g, p, 8) {
            stop(Halt::InputExhausted)
        } else if growth_overflows(n, grown(0, 16, n), usize_at(g, p) as nat, 8) {
            stop(Halt::CapacityOverflow)
        } else if !fits(g, p + 8, 8) || !fits(g, p + 16, 8) {
            stop(Halt::InputExhausted)
        } else {
            go(seq![Expect::VecLen(count65(g, p + 8))], p + 24)
        }
    }
}

/// Operation 9: read bytes copied into a `SmallVec<[u8; 22]>` (capacity
/// `c.cap` where left open), reserving a read amount; report the length of
/// another copy, then swap-remove one at a read index and report it.
pub open spec fn op_9(g: Seq<u8>, off: int, c: Choices) -> Step {
    if !fits(g, off, 8) {
        stop(Halt::InputExhausted)
    } else {
        let n = count65(g, off);
        let p = off + 8 + n;
        if !reads_ok(g, off + 8, 1, 1, n) || !fits(g, p, 8) {
            stop(Halt::InputExhausted)
        } else if growth_overflows(n, if n <= 22 { 22 } else { open_cap(c.cap, n, 22, 1) }, usize_at(g, p) as nat, 1) {
            stop(Halt::CapacityOverflow)
        } else {
            let shown = seq![Expect::ToSmallVecLen(n)];
            if n == 0 {
                go(shown, p + 8)
            } else if !fits(g, p + 8, 8) {
                stop_after(shown, Halt::InputExhausted)
            } else {
                go(shown.push(Expect::Swapped(g[off + 8 + (usize_at(g, p + 8) as nat % n)])), p + 16)
            }
        }
    }
}

/// Operation 10: read `f64` values pushed to a `SmallVec<[f64; 18]>`,
/// reserving a read amount; repeats removed and its addresses reported,
/// which is left to the caller.
pub open spec fn op_10(g: Seq<u8>, off: int) -> Step {
    if !fits(g, off, 8) {
        stop(Halt::InputExhausted)
    } else {
        let n = count65(g, off);
        let p = off + 8 + 8 * n;
        if !reads_ok(g, off + 8, 8, 8, n) || !fits(g, p, 8) {
            stop(Halt::InputExhausted)
        } else if growth_overflows(n, pushes_cap(0, 18, n), usize_at(g, p) as nat, 8) {
            stop(Halt::CapacityOverflow)
        } else {
            go(seq![Expect::FloatOp(10, off as nat)], p + 8)
        }
    }
}

/// Operation 11: read values pushed to a `SmallVec<[isize; 15]>` with room
/// for them, reserving a read amount; try to reserve another (its success
/// left to the allocator where it could succeed, `c.try_ok`) and report
/// whether it did, reserve exactly a third, report the length.
pub open spec fn op_11(g: Seq<u8>, off: int, c: Choices) -> Step {
    let z = vstd::layout::size_of::<isize>();
    if !fits(g, off, 8) {
        stop(Halt::InputExhausted)
    } else {
        let n = count65(g, off);
        let p = off + 8 + 8 * n;
        let c0: nat = if n <= 15 { 15 } else { n };
        if !reads_ok(g, off + 8, 8, 8, n) || !fits(g, p, 8) {
            stop(Halt::InputExhausted)
        } else if growth_overflows(n, c0, usize_at(g, p) as nat, z) {
            stop(Halt::CapacityOverflow)
        } else if !fits(g, p + 8, 8) {
            stop(Halt::InputExhausted)
        } else {
            let c1 = grown(n, c0, usize_at(g, p) as nat);
            let t = usize_at(g, p + 8) as nat;
            let ok = !growth_overflows(n, c1, t, z) && (c1 - n >= t || c.try_ok);
            let c2 = try_cap(n, c1, t, z, c.try_ok);
            let shown = seq![Expect::TryReserve(ok)];
            if !fits(g, p + 16, 8) {
                stop_after(shown, Halt::InputExhausted)
            } else if exact_growth_overflows(n, c2, usize_at(g, p + 16) as nat, z) {
                stop_after(shown, Halt::CapacityOverflow)
            } else {
                go(shown.push(Expect::DerefLen(n)), p + 24)
            }
        }
    }
}

/// Operation 12: read values pushed to a `SmallVec<[u128; 16]>`, reserving a
/// read amount; insert more read values at a read position, report the
/// length.
pub open spec fn op_12(g: Seq<u8>, off: int) -> Step {
    if !fits(g, off, 8) {
        stop(Halt::InputExhausted)
    } else {
        let n = count65(g, off);
        let p = off + 8 + 16 * n;
        if !reads_ok(g, off + 8, 16, 16, n) || !fits(g, p, 8) {
            stop(Halt::InputExhausted)
        } else if growth_overflows(n, pushes_cap(0, 16, n), usize_at(g, p) as nat, 16) {
            stop(Halt::CapacityOverflow)
        } else if !fits(g, p + 8, 8) || !fits(g, p + 16, 8) {
            stop(Halt::InputExhausted)
        } else {
            let m = count65(g, p + 16);
            if !reads_ok(g, p + 24, 16, 16, m) {
                stop(Halt::InputExhausted)
            } else {
                go(seq![Expect::AsRefLen(n + m)], p + 24 + 16 * m)
            }
        }
    }
}

/// Operation 13: read values copied into a `SmallVec<[i16; 30]>` (capacity
/// `c.cap` where left open), reserving a read amount; insert more read values
/// at a read position, report the length twice.
pub open spec fn op_13(g: Seq<u8>, off: int, c: Choices) -> Step {
    if !fits(g, off, 8) {
        stop(Halt::InputExhausted)
    } else {
        let n = count65(g, off);
        let p = off + 8 + 2 * n;
        if !reads_ok(g, off + 8, 2, 2, n) || !fits(g, p, 8) {
            stop(Halt::InputExhausted)
        } else if growth_overflows(n, if n <= 30 { 30 } else { open_cap(c.cap, n, 30, 2) }, usize_at(g, p) as nat, 2) {
            stop(Halt::CapacityOverflow)
        } else if !fits(g, p + 8, 8) || !fits(g, p + 16, 8) {
            stop(Halt::InputExhausted)
        } else {
            let m = count65(g, p + 16);
            if !reads_ok(g, p + 24, 2, 2, m) {
                stop(Halt::InputExhausted)
            } else {
                go(seq![Expect::BorrowLen(n + m), Expect::MutBorrowLen(n + m)], p + 24 + 2 * m)
            }
        }
    }
}

/// Operation 14 (and any other number): read values pushed to a
/// `SmallVec<[i8; 64]>`, reserving a read amount; report each as it is
/// consumed.
pub open spec fn op_14(g: Seq<u8>, off: int) -> Step {
    if !fits(g, off, 8) {
        stop(Halt::InputExhausted)
    } else {
        let n = count65(g, off);
        let p = off + 8 + n;
        if !reads_ok(g, off + 8, 1, 1, n) || !fits(g, p, 8) {
            stop(Halt::InputExhausted)
        } else if growth_overflows(n, 64, usize_at(g, p) as nat, 1) {
            stop(Halt::CapacityOverflow)
        } else {
            go(each_iter_val(i8s_at(g, off + 8, n)), p + 8)
        }
    }
}

/// What operation `op`, whose arguments start at `off`, is owed, the
/// allocator's choices being `c`.
#[verifier::opaque]
pub open spec fn op_step(g: Seq<u8>, op: u8, off: int, c: Choices) -> Step {
    if op == 0 {
        op_0(g, off)
    } else if op == 1 {
        op_1(g, off, c)
    } else if op == 2 {
        op_2(g, off, c)
    } else if op == 3 {
        op_3(g, off, c)
    } else if op == 4 {
        op_4(g, off, c)
    } else if op == 5 {
        op_5(g, off, c)
    } else if op == 6 {
        op_6(g, off)
    } else if op == 7 {
        op_7(g, off)
    } else if op == 8 {
        op_8(g, off)
    } else if op == 9 {
        op_9(g, off, c)
    } else if op == 10 {
        op_10(g, off)
    } else if op == 11 {
        op_11(g, off, c)
    } else if op == 12 {
        op_12(g, off)
    } else if op == 13 {
        op_13(g, off, c)
    } else {
        op_14(g, off)
    }
}

/// What operations `k` up to `count` owe, the first reading its kind at
/// `off`; the allocator's choices of operation `k` are `cs[0]`, of the next
/// `cs[1]`, and so on.
pub open spec fn ops_from(g: Seq<u8>, k: nat, count: nat, off: int, cs: Seq<Choices>) -> (Seq<Expect>, Option<Halt>)
    decreases count - k,
{
    if k >= count {
        (Seq::empty(), None)
    } else if !fits(g, off, 1) {
        (Seq::empty(), Some(Halt::InputExhausted))
    } else {
        let s = op_step(g, g[off] % 15, off + 1, cs[0]);
        if s.1 is Some {
            (s.0, s.1)
        } else {
            let rest = ops_from(g, k + 1, count, s.2, cs.drop_first());
            (s.0 + rest.0, rest.1)
        }
    }
}

/// What a whole run is owed, the allocator's choices being `cs`. Inputs
/// shorter than 250 bytes are ignored.
pub open spec fn script_outcome(input_len: nat, g: Seq<u8>, cs: Seq<Choices>) -> (Seq<Expect>, Option<Halt>) {
    if input_len < 250 {
        (Seq::empty(), None)
    } else if !fits(g, 0, 8) {
        (Seq::empty(), Some(Halt::InputExhausted))
    } else {
        ops_from(g, 0, count65(g, 0), 8, cs)
    }
}

/// The big-endian `u128` at `i`, or `None` when it does not fit.
fn read_u128(s: &[u8], i: usize) -> (r: Option<u128>)
    ensures
        r == if fits(s@, i as int, 16) { Some(u128_at(s@, i as int)) } else { None::<u128> },
{
    if i <= s.len() && s.len() - i >= 16 {
        Some(_to_u128(s, i))
    } else {
        None
    }
}

/// The `n` values read at `start`, 1 byte apart, or `None` when a read runs past
/// the end.
fn read_bytes_at(g: &[u8], start: usize, n: usize) -> (r: Option<Vec<u8>>)
    requires
        start <= g.len(),
        n <= 64,
    ensures
        r is Some <==> reads_ok(g@, start as int, 1, 1, n as nat),
        r matches Some(v) ==> v@ == bytes_at(g@, start as int, n as nat),
{
    let mut v: Vec<u8> = Vec::new();
    let mut k: usize = 0;
    while k < n
        invariant
            k <= n <= 64,
            start <= g.len(),
            v@ == bytes_at(g@, start as int, k as nat),
            k > 0 ==> fits(g@, start + 1 * (k - 1), 1),
        decreases n - k,
    {
        if g.len() - start < 1 * k + 1 {
            return None;
        }
        let x = match read_u8(g, start + 1 * k) {
            Some(x) => x,
            None => return None,
        };
        v.push(x);
        k = k + 1;
        assert(v@ =~= bytes_at(g@, start as int, k as nat));
    }
    Some(v)
}

/// The `n` values read at `start`, 4 bytes apart, or `None` when a read runs past
/// the end.
fn read_u32s_at(g: &[u8], start: usize, n: usize) -> (r: Option<Vec<u32>>)
    requires
        start <= g.len(),
        n <= 64,
    ensures
        r is Some <==> reads_ok(g@, start as int, 4, 4, n as nat),
        r matches Some(v) ==> v@ == u32s_at(g@, start as int, 4, n as nat),
{
    let mut v: Vec<u32> = Vec::new();
    let mut k: usize = 0;
    while k < n
        invariant
            k <= n <= 64,
            start <= g.len(),
            v@ == u32s_at(g@, start as int, 4, k as nat),
            k > 0 ==> fits(g@, start + 4 * (k - 1), 4),
        decreases n - k,
    {
        if g.len() - start < 4 * k + 4 {
            return None;
        }
        let x = match read_u32(g, start + 4 * k) {
            Some(x) => x,
            None => return None,
        };
        v.push(x);
        k = k + 1;
        assert(v@ =~= u32s_at(g@, start as int, 4, k as nat));
    }
    Some(v)
}

/// The `n` values read at `start`, 4 bytes apart, or `None` when a read runs past
/// the end.
fn read_i32s_at(g: &[u8], start: usize, n: usize) -> (r: Option<Vec<i32>>)
    requires
        start <= g.len(),
        n <= 64,
    ensures
        r is Some <==> reads_ok(g@, start as int, 4, 4, n as nat),
        r matches Some(v) ==> v@ == i32s_at(g@, start as int, 4, n as nat),
{
    let mut v: Vec<i32> = Vec::new();
    let mut k: usize = 0;
    while k < n
        invariant
            k <= n <= 64,
            start <= g.len(),
            v@ == i32s_at(g@, start as int, 4, k as nat),
            k > 0 ==> fits(g@, start + 4 * (k - 1), 4),
        decreases n - k,
    {
        if g.len() - start < 4 * k + 4 {
            return None;
        }
        let x = match read_i32(g, start + 4 * k) {
            Some(x) => x,
            None => return None,
        };
        v.push(x);
        k = k + 1;
        assert(v@ =~= i32s_at(g@, start as int, 4, k as nat));
    }
    Some(v)
}

/// The `n` values read at `start`, 2 bytes apart, or `None` when a read runs past
/// the end.
fn read_u16s_at(g: &[u8], start: usize, n: usize) -> (r: Option<Vec<u16>>)
    requires
        start <= g.len(),
        n <= 64,
    ensures
        r is Some <==> reads_ok(g@, start as int, 2, 2, n as nat),
        r matches Some(v) ==> v@ == u16s_at(g@, start as int, n as nat),
{
    let mut v: Vec<u16> = Vec::new();
    let mut k: usize = 0;
    while k < n
        invariant
            k <= n <= 64,
            start <= g.len(),
            v@ == u16s_at(g@, start as int, k as nat),
            k > 0 ==> fits(g@, start + 2 * (k - 1), 2),
        decreases n - k,
    {
        if g.len() - start < 2 * k + 2 {
            return None;
        }
        let x = match read_u16(g, start + 2 * k) {
            Some(x) => x,
            None => return None,
        };
        v.push(x);
        k = k + 1;
        assert(v@ =~= u16s_at(g@, start as int, k as nat));
    }
    Some(v)
}

/// The `n` values read at `start`, 2 bytes apart, or `None` when a read runs past
/// the end.
fn read_i16s_at(g: &[u8], start: usize, n: usize) -> (r: Option<Vec<i16>>)
    requires
        start <= g.len(),
        n <= 64,
    ensures
        r is Some <==> reads_ok(g@, start as int, 2, 2, n as nat),
        r matches Some(v) ==> v@ == i16s_at(g@, start as int, n as nat),
{
    let mut v: Vec<i16> = Vec::new();
    let mut k: usize = 0;
    while k < n
        invariant
            k <= n <= 64,
            start <= g.len(),
            v@ == i16s_at(g@, start as int, k as nat),
            k > 0 ==> fits(g@, start + 2 * (k - 1), 2),
        decreases n - k,
    {
        if g.len() - start < 2 * k + 2 {
            return None;
        }
        let x = match read_i16(g, start + 2 * k) {
            Some(x) => x,
            None => return None,
        };
        v.push(x);
        k = k + 1;
        assert(v@ =~= i16s_at(g@, start as int, k as nat));
    }
    Some(v)
}

/// The `n` values read at `start`, 8 bytes apart, or `None` when a read runs past
/// the end.
fn read_i64s_at(g: &[u8], start: usize, n: usize) -> (r: Option<Vec<i64>>)
    requires
        start <= g.len(),
        n <= 64,
    ensures
        r is Some <==> reads_ok(g@, start as int, 8, 8, n as nat),
        r matches Some(v) ==> v@ == i64s_at(g@, start as int, n as nat),
{
    let mut v: Vec<i64> = Vec::new();
    let mut k: usize = 0;
    while k < n
        invariant
            k <= n <= 64,
            start <= g.len(),
            v@ == i64s_at(g@, start as int, k as nat),
            k > 0 ==> fits(g@, start + 8 * (k - 1), 8),
        decreases n - k,
    {
        if g.len() - start < 8 * k + 8 {
            return None;
        }
        let x = match read_i64(g, start + 8 * k) {
            Some(x) => x,
            None => return None,
        };
        v.push(x);
        k = k + 1;
        assert(v@ =~= i64s_at(g@, start as int, k as nat));
    }
    Some(v)
}

/// The `n` values read at `start`, 8 bytes apart, or `None` when a read runs past
/// the end.
fn read_isizes_at(g: &[u8], start: usize, n: usize) -> (r: Option<Vec<isize>>)
    requires
        start <= g.len(),
        n <= 64,
    ensures
        r is Some <==> reads_ok(g@, start as int, 8, 8, n as nat),
        r matches Some(v) ==> v@ == isizes_at(g@, start as int, n as nat),
{
    let mut v: Vec<isize> = Vec::new();
    let mut k: usize = 0;
    while k < n
        invariant
            k <= n <= 64,
            start <= g.len(),
            v@ == isizes_at(g@, start as int, k as nat),
            k > 0 ==> fits(g@, start + 8 * (k - 1), 8),
        decreases n - k,
    {
        if g.len() - start < 8 * k + 8 {
            return None;
        }
        let x = match read_isize(g, start + 8 * k) {
            Some(x) => x,
            None => return None,
        };
        v.push(x);
        k = k + 1;
        assert(v@ =~= isizes_at(g@, start as int, k as nat));
    }
    Some(v)
}

/// The `n` values read at `start`, 16 bytes apart, or `None` when a read runs past
/// the end.
fn read_u128s_at(g: &[u8], start: usize, n: usize) -> (r: Option<Vec<u128>>)
    requires
        start <= g.len(),
        n <= 64,
    ensures
        r is Some <==> reads_ok(g@, start as int, 16, 16, n as nat),
        r matches Some(v) ==> v@ == u128s_at(g@, start as int, n as nat),
{
    let mut v: Vec<u128> = Vec::new();
    let mut k: usize = 0;
    while k < n
        invariant
            k <= n <= 64,
            start <= g.len(),
            v@ == u128s_at(g@, start as int, k as nat),
            k > 0 ==> fits(g@, start + 16 * (k - 1), 16),
        decreases n - k,
    {
        if g.len() - start < 16 * k + 16 {
            return None;
        }
        let x = match read_u128(g, start + 16 * k) {
            Some(x) => x,
            None => return None,
        };
        v.push(x);
        k = k + 1;
        assert(v@ =~= u128s_at(g@, start as int, k as nat));
    }
    Some(v)
}

/// The `n` values read at `start`, 1 byte apart, or `None` when a read runs past
/// the end.
fn read_i8s_at(g: &[u8], start: usize, n: usize) -> (r: Option<Vec<i8>>)
    requires
        start <= g.len(),
        n <= 64,
    ensures
        r is Some <==> reads_ok(g@, start as int, 1, 1, n as nat),
        r matches Some(v) ==> v@ == i8s_at(g@, start as int, n as nat),
{
    let mut v: Vec<i8> = Vec::new();
    let mut k: usize = 0;
    while k < n
        invariant
            k <= n <= 64,
            start <= g.len(),
            v@ == i8s_at(g@, start as int, k as nat),
            k > 0 ==> fits(g@, start + 1 * (k - 1), 1),
        decreases n - k,
    {
        if g.len() - start < 1 * k + 1 {
            return None;
        }
        let x = match read_i8(g, start + 1 * k) {
            Some(x) => x,
            None => return None,
        };
        v.push(x);
        k = k + 1;
        assert(v@ =~= i8s_at(g@, start as int, k as nat));
    }
    Some(v)
}

/// The `n` values read at `start`, 1 byte apart, or `None` when a read runs past
/// the end.
fn read_bools_at(g: &[u8], start: usize, n: usize) -> (r: Option<Vec<bool>>)
    requires
        start <= g.len(),
        n <= 64,
    ensures
        r is Some <==> reads_ok(g@, start as int, 1, 1, n as nat),
        r matches Some(v) ==> v@ == bools_at(g@, start as int, n as nat),
{
    let mut v: Vec<bool> = Vec::new();
    let mut k: usize = 0;
    while k < n
        invariant
            k <= n <= 64,
            start <= g.len(),
            v@ == bools_at(g@, start as int, k as nat),
            k > 0 ==> fits(g@, start + 1 * (k - 1), 1),
        decreases n - k,
    {
        if g.len() - start < 1 * k + 1 {
            return None;
        }
        let x = match read_bool(g, start + 1 * k) {
            Some(x) => x,
            None => return None,
        };
        v.push(x);
        k = k + 1;
        assert(v@ =~= bools_at(g@, start as int, k as nat));
    }
    Some(v)
}

/// Pushes that fit in the capacity leave it as it was.
proof fn lemma_pushes_fit(len: nat, cap: nat, k: nat)
    requires
        len + k <= cap,
    ensures
        pushes_cap(len, cap, k) == cap,
    decreases k,
{
    if k > 0 {
        lemma_pushes_fit(len, cap, (k - 1) as nat);
    }
}

/// The choices of an operation that leaves nothing to the allocator.
pub open spec fn no_choice() -> Choices {
    Choices { cap: 0, try_ok: false }
}

/// `e`, reported after events that match `owed`.
fn push_event(events: &mut Vec<Event>, owed: Ghost<Seq<Expect>>, e: Event, x: Ghost<Expect>)
    requires
        events_match(old(events)@, owed@),
        event_matches(e, x@),
    ensures
        events_match(final(events)@, owed@.push(x@)),
{
    events.push(e);
    assert(forall|i: int| 0 <= i < events@.len() ==> #[trigger] event_matches(events@[i], owed@.push(x@)[i]));
}

/// Operation 0 (see `op_0`).
#[verifier::loop_isolation(false)]
fn run_op_0(g: &[u8], off: usize) -> (r: (Vec<Event>, Option<Halt>, usize))
    requires
        off <= g.len(),
    ensures
        events_match(r.0@, op_0(g@, off as int).0),
        r.1 == op_0(g@, off as int).1,
        r.1 is None ==> r.2 == op_0(g@, off as int).2 && r.2 <= g.len(),
{
    let n0 = match read_usize(g, off) {
        Some(x) => x,
        None => return (Vec::new(), Some(Halt::InputExhausted), 0),
    };
    if exact_growth_overflows_exec(0, 16, n0, 4) {
        return (Vec::new(), Some(Halt::CapacityOverflow), 0);
    }
    let mut v = small_vec_u32_with_capacity(n0);
    let r = match read_usize(g, off + 8) {
        Some(x) => x,
        None => return (Vec::new(), Some(Halt::InputExhausted), 0),
    };
    if growth_overflows_exec(0, small_vec_u32_capacity(&v), r, 4) {
        return (Vec::new(), Some(Halt::CapacityOverflow), 0);
    }
    small_vec_u32_reserve(&mut v, r);
    let n = match read_usize(g, off + 16) {
        Some(x) => x % 65,
        None => return (Vec::new(), Some(Halt::InputExhausted), 0),
    };
    let vals = match read_u32s_at(g, off + 24, n) {
        Some(w) => w,
        None => return (Vec::new(), Some(Halt::InputExhausted), 0),
    };
    let ghost cap0 = sv_u32_cap(v);
    let ghost base = sv_u32_items(v);
    assert(base.len() <= 64);
    let mut j: usize = 0;
    while j < vals.len()
        invariant
            j <= vals@.len() <= 64,
            base.len() <= 64,
            v.wf(),
            sv_u32_items(v) == base + vals@.take(j as int),
            sv_u32_cap(v) == pushes_cap(base.len(), cap0, j as nat),
        decreases vals.len() - j,
    {
        proof {
            broadcast use vstd::layout::layout_of_primitives;
            lemma_small_growth_sized((base.len() + j) as nat, sv_u32_cap(v), 1, 4);
        }
        small_vec_u32_push(&mut v, vals[j]);
        j = j + 1;
        assert(sv_u32_items(v) =~= base + vals@.take(j as int));
    }
    assert(vals@.take(vals@.len() as int) =~= vals@);
    let p = off + 24 + 4 * n;
    let mut events: Vec<Event> = Vec::new();
    events.push(Event::U32s(vstd::slice::slice_to_vec(small_vec_u32_as_slice(&v))));
    let ghost shown = seq![Expect::U32s(vals@)];
    assert(events_match(events@, shown));
    if small_vec_u32_is_empty(&v) {
        return (events, None, p);
    }
    let k = match read_usize(g, p) {
        Some(x) => x % n,
        None => return (events, Some(Halt::InputExhausted), 0),
    };
    let x = small_vec_u32_as_slice(&v)[k];
    push_event(&mut events, Ghost(shown), Event::U32(x), Ghost(Expect::U32(vals@[k as int])));
    assert(shown.push(Expect::U32(vals@[k as int])) =~= op_0(g@, off as int).0);
    (events, None, p + 8)
}

/// Operation 1 (see `op_1`); the capacity the vector took over is the
/// choice.
#[verifier::loop_isolation(false)]
fn run_op_1(g: &[u8], off: usize) -> (r: (Vec<Event>, Option<Halt>, usize, Ghost<Choices>))
    requires
        off <= g.len(),
    ensures
        events_match(r.0@, op_1(g@, off as int, r.3@).0),
        r.1 == op_1(g@, off as int, r.3@).1,
        r.1 is None ==> r.2 == op_1(g@, off as int, r.3@).2 && r.2 <= g.len(),
{
    let none = Ghost(no_choice());
    let n = match read_usize(g, off) {
        Some(x) => x % 65,
        None => return (Vec::new(), Some(Halt::InputExhausted), 0, none),
    };
    let bytes = match read_bytes_at(g, off + 8, n) {
        Some(w) => w,
        None => return (Vec::new(), Some(Halt::InputExhausted), 0, none),
    };
    let p = off + 8 + n;
    let mut v = small_vec_u8n32_from_vec(bytes);
    let ghost c = Choices { cap: sv_u8n32_cap(v), try_ok: false };
    let r = match read_usize(g, p) {
        Some(x) => x,
        None => return (Vec::new(), Some(Halt::InputExhausted), 0, Ghost(c)),
    };
    if growth_overflows_exec(n, small_vec_u8n32_capacity(&v), r, 1) {
        return (Vec::new(), Some(Halt::CapacityOverflow), 0, Ghost(c));
    }
    small_vec_u8n32_reserve(&mut v, r);
    let m = match read_usize(g, p + 8) {
        Some(x) => x % 65,
        None => return (Vec::new(), Some(Halt::InputExhausted), 0, Ghost(c)),
    };
    let more = match read_bytes_at(g, p + 16, m) {
        Some(w) => w,
        None => return (Vec::new(), Some(Halt::InputExhausted), 0, Ghost(c)),
    };
    proof {
        lemma_small_growth_sized(n as nat, sv_u8n32_cap(v), m as nat, 1);
    }
    small_vec_u8n32_extend_from_slice(&mut v, more.as_slice());
    let all = small_vec_u8n32_as_mut_slice(&mut v);
    let mut events: Vec<Event> = Vec::new();
    let mut k: usize = 0;
    while k < all.len()
        invariant
            k <= all@.len(),
            events@.len() == k,
            forall|i: int| 0 <= i < k ==> #[trigger] event_matches(events@[i], each_u8(all@)[i]),
        decreases all.len() - k,
    {
        events.push(Event::U8(all[k]));
        k = k + 1;
    }
    (events, None, p + 16 + m, Ghost(c))
}

/// Operation 2 (see `op_2`); the capacity of copies that do not fit inline
/// is the choice.
fn run_op_2(g: &[u8], off: usize) -> (r: (Vec<Event>, Option<Halt>, usize, Ghost<Choices>))
    requires
        off <= g.len(),
    ensures
        events_match(r.0@, op_2(g@, off as int, r.3@).0),
        r.1 == op_2(g@, off as int, r.3@).1,
        r.1 is None ==> r.2 == op_2(g@, off as int, r.3@).2 && r.2 <= g.len(),
{
    let none = Ghost(no_choice());
    let n = match read_usize(g, off) {
        Some(x) => x % 65,
        None => return (Vec::new(), Some(Halt::InputExhausted), 0, none),
    };
    let e = match read_u64(g, off + 8) {
        Some(x) => x,
        None => return (Vec::new(), Some(Halt::InputExhausted), 0, none),
    };
    let r = match read_usize(g, off + 16) {
        Some(x) => x,
        None => return (Vec::new(), Some(Halt::InputExhausted), 0, none),
    };
    proof {
        broadcast use vstd::layout::layout_of_primitives;
    }
    let mut v = u64n8::small_vec_u64n8_from_elem(e, n);
    let ghost c = Choices { cap: u64n8::sv_u64n8_cap(v), try_ok: false };
    if growth_overflows_exec(n, u64n8::small_vec_u64n8_capacity(&v), r, 8) {
        return (Vec::new(), Some(Halt::CapacityOverflow), 0, Ghost(c));
    }
    u64n8::small_vec_u64n8_reserve(&mut v, r);
    let len = u64n8::small_vec_u64n8_len(&v);
    let mut events: Vec<Event> = Vec::new();
    events.push(Event::Length(len));
    events.push(Event::Capacity(u64n8::small_vec_u64n8_capacity(&v)));
    proof {
        let x = op_2(g@, off as int, c).0;
        assert(forall|i: int| 0 <= i < events@.len() ==> #[trigger] event_matches(events@[i], x[i]));
    }
    let t = match read_usize(g, off + 24) {
        Some(x) => x % (len + 1),
        None => return (events, Some(Halt::InputExhausted), 0, Ghost(c)),
    };
    u64n8::small_vec_u64n8_truncate(&mut v, t);
    (events, None, off + 32, Ghost(c))
}

/// Operation 3 (see `op_3`); the capacity the vector took over is the
/// choice.
#[verifier::loop_isolation(false)]
fn run_op_3(g: &[u8], off: usize) -> (r: (Vec<Event>, Option<Halt>, usize, Ghost<Choices>))
    requires
        off <= g.len(),
    ensures
        events_match(r.0@, op_3(g@, off as int, r.3@).0),
        r.1 == op_3(g@, off as int, r.3@).1,
        r.1 is None ==> r.2 == op_3(g@, off as int, r.3@).2 && r.2 <= g.len(),
{
    let none = Ghost(no_choice());
    let n = match read_usize(g, off) {
        Some(x) => x % 65,
        None => return (Vec::new(), Some(Halt::InputExhausted), 0, none),
    };
    let vals = match read_i32s_at(g, off + 8, n) {
        Some(w) => w,
        None => return (Vec::new(), Some(Halt::InputExhausted), 0, none),
    };
    let p = off + 8 + 4 * n;
    proof {
        broadcast use vstd::layout::layout_of_primitives;
    }
    let mut v = i32n12::small_vec_i32n12_from_vec(vals);
    let ghost c = Choices { cap: i32n12::sv_i32n12_cap(v), try_ok: false };
    let r = match read_usize(g, p) {
        Some(x) => x,
        None => return (Vec::new(), Some(Halt::InputExhausted), 0, Ghost(c)),
    };
    if growth_overflows_exec(n, i32n12::small_vec_i32n12_capacity(&v), r, 4) {
        return (Vec::new(), Some(Halt::CapacityOverflow), 0, Ghost(c));
    }
    i32n12::small_vec_i32n12_reserve(&mut v, r);
    let mut events: Vec<Event> = Vec::new();
    if !i32n12::small_vec_i32n12_is_empty(&v) {
        if let Some(x) = i32n12::small_vec_i32n12_pop(&mut v) {
            events.push(Event::Popped(x));
        }
    }
    proof {
        let x = op_3(g@, off as int, c).0;
        assert(forall|i: int| 0 <= i < events@.len() ==> #[trigger] event_matches(events@[i], x[i]));
    }
    let len = i32n12::small_vec_i32n12_len(&v);
    let at = match read_usize(g, p + 8) {
        Some(x) => x % (len + 1),
        None => return (events, Some(Halt::InputExhausted), 0, Ghost(c)),
    };
    let x = match read_i32(g, p + 16) {
        Some(x) => x,
        None => return (events, Some(Halt::InputExhausted), 0, Ghost(c)),
    };
    i32n12::small_vec_i32n12_insert(&mut v, at, x);
    (events, None, p + 20, Ghost(c))
}

/// Operation 4 (see `op_4`): the reads and reservation are checked here; the
/// items, being floating-point, are left to the caller. Where more than fit
/// inline are copied, the capacity is taken to be their number, the least
/// one that the crate allows.
fn run_op_4(g: &[u8], off: usize) -> (r: (Vec<Event>, Option<Halt>, usize, Ghost<Choices>))
    requires
        off <= g.len(),
    ensures
        events_match(r.0@, op_4(g@, off as int, r.3@).0),
        r.1 == op_4(g@, off as int, r.3@).1,
        r.1 is None ==> r.2 == op_4(g@, off as int, r.3@).2 && r.2 <= g.len(),
{
    let none = Ghost(no_choice());
    let n = match read_usize(g, off) {
        Some(x) => x % 65,
        None => return (Vec::new(), Some(Halt::InputExhausted), 0, none),
    };
    if g.len() - (off + 8) < 4 * n {
        proof {
            assert(n > 0);
        }
        return (Vec::new(), Some(Halt::InputExhausted), 0, none);
    }
    let p = off + 8 + 4 * n;
    let ghost c = Choices { cap: if n <= 20 { 20 } else { n as nat }, try_ok: false };
    let r = match read_usize(g, p) {
        Some(x) => x,
        None => return (Vec::new(), Some(Halt::InputExhausted), 0, Ghost(c)),
    };
    let cap: usize = if n <= 20 { 20 } else { n };
    if growth_overflows_exec(n, cap, r, 4) {
        return (Vec::new(), Some(Halt::CapacityOverflow), 0, Ghost(c));
    }
    if g.len() - p < 24 {
        return (Vec::new(), Some(Halt::InputExhausted), 0, Ghost(c));
    }
    let events = vec![Event::FloatOp(4, off)];
    proof {
        let x = op_4(g@, off as int, c).0;
        assert(forall|i: int| 0 <= i < events@.len() ==> #[trigger] event_matches(events@[i], x[i]));
    }
    (events, None, p + 24, Ghost(c))
}

/// The vector of operation 5 (see `built_5`) and the position after its
/// arguments; where its capacity is left open, the one it got.
fn build_5(g: &[u8], off: usize) -> (r: (Result<(booln24::SmallVecBoolN24, usize), Halt>, Ghost<Choices>))
    requires
        off < g.len(),
    ensures
        match r.0 {
            Ok((v, p)) => v.wf() && built_5(g@, off as int, r.1@) == Ok::<(nat, nat, int), Halt>(
                (booln24::sv_booln24_items(v).len(), booln24::sv_booln24_cap(v), p as int),
            ) && booln24::sv_booln24_items(v).len() <= 64 && p <= g.len(),
            Err(h) => built_5(g@, off as int, r.1@) == Err::<(nat, nat, int), Halt>(h),
        },
{
    let none = Ghost(no_choice());
    let choice = g[off] % 3;
    if choice == 0 {
        (Ok((booln24::small_vec_booln24_new(), off + 1)), none)
    } else if choice == 1 {
        let n0 = match read_usize(g, off + 1) {
            Some(x) => x,
            None => return (Err(Halt::InputExhausted), none),
        };
        if exact_growth_overflows_exec(0, 24, n0, 1) {
            return (Err(Halt::CapacityOverflow), none);
        }
        proof {
            broadcast use vstd::layout::layout_of_primitives;
        }
        (Ok((booln24::small_vec_booln24_with_capacity(n0), off + 9)), none)
    } else {
        let e = match read_bool(g, off + 1) {
            Some(x) => x,
            None => return (Err(Halt::InputExhausted), none),
        };
        let n = match read_usize(g, off + 2) {
            Some(x) => x % 65,
            None => return (Err(Halt::InputExhausted), none),
        };
        proof {
            broadcast use vstd::layout::layout_of_primitives;
        }
        let v = booln24::small_vec_booln24_from_elem(e, n);
        let ghost c = Choices { cap: booln24::sv_booln24_cap(v), try_ok: false };
        (Ok((v, off + 10)), Ghost(c))
    }
}

/// Operation 5 (see `op_5`).
#[verifier::loop_isolation(false)]
fn run_op_5(g: &[u8], off: usize) -> (r: (Vec<Event>, Option<Halt>, usize, Ghost<Choices>))
    requires
        off <= g.len(),
    ensures
        events_match(r.0@, op_5(g@, off as int, r.3@).0),
        r.1 == op_5(g@, off as int, r.3@).1,
        r.1 is None ==> r.2 == op_5(g@, off as int, r.3@).2 && r.2 <= g.len(),
{
    if off >= g.len() {
        return (Vec::new(), Some(Halt::InputExhausted), 0, Ghost(no_choice()));
    }
    let (built, Ghost(c)) = build_5(g, off);
    let (mut v, p) = match built {
        Ok(x) => x,
        Err(h) => return (Vec::new(), Some(h), 0, Ghost(c)),
    };
    let r = match read_usize(g, p) {
        Some(x) => x,
        None => return (Vec::new(), Some(Halt::InputExhausted), 0, Ghost(c)),
    };
    if growth_overflows_exec(booln24::small_vec_booln24_len(&v), booln24::small_vec_booln24_capacity(&v), r, 1) {
        return (Vec::new(), Some(Halt::CapacityOverflow), 0, Ghost(c));
    }
    proof {
        broadcast use vstd::layout::layout_of_primitives;
    }
    booln24::small_vec_booln24_reserve(&mut v, r);
    let m = match read_usize(g, p + 8) {
        Some(x) => x % 65,
        None => return (Vec::new(), Some(Halt::InputExhausted), 0, Ghost(c)),
    };
    let flags = match read_bools_at(g, p + 16, m) {
        Some(w) => w,
        None => return (Vec::new(), Some(Halt::InputExhausted), 0, Ghost(c)),
    };
    let ghost cap0 = booln24::sv_booln24_cap(v);
    let ghost base = booln24::sv_booln24_items(v);
    assert(base.len() <= 64);
    let mut j: usize = 0;
    while j < flags.len()
        invariant
            j <= flags@.len() <= 64,
            base.len() <= 64,
            v.wf(),
            booln24::sv_booln24_items(v) == base + flags@.take(j as int),
            booln24::sv_booln24_cap(v) == pushes_cap(base.len(), cap0, j as nat),
        decreases flags.len() - j,
    {
        proof {
            broadcast use vstd::layout::layout_of_primitives;
            lemma_small_growth_sized((base.len() + j) as nat, booln24::sv_booln24_cap(v), 1, 1);
        }
        booln24::small_vec_booln24_push(&mut v, flags[j]);
        j = j + 1;
        assert(booln24::sv_booln24_items(v) =~= base + flags@.take(j as int));
    }
    assert(flags@.take(flags@.len() as int) =~= flags@);
    booln24::small_vec_booln24_shrink_to_fit(&mut v);
    let events = vec![Event::Ptr(booln24::small_vec_booln24_as_ptr(&v))];
    proof {
        let x = op_5(g@, off as int, c).0;
        assert(forall|i: int| 0 <= i < events@.len() ==> #[trigger] event_matches(events@[i], x[i]));
    }
    (events, None, p + 16 + m, Ghost(c))
}

/// Operation 6 (see `op_6`).
#[verifier::loop_isolation(false)]
fn run_op_6(g: &[u8], off: usize) -> (r: (Vec<Event>, Option<Halt>, usize))
    requires
        off <= g.len(),
    ensures
        events_match(r.0@, op_6(g@, off as int).0),
        r.1 == op_6(g@, off as int).1,
        r.1 is None ==> r.2 == op_6(g@, off as int).2 && r.2 <= g.len(),
{
    let mut v = u16n14::small_vec_u16n14_new();
    let mut w = u16n14::small_vec_u16n14_new();
    let a = match read_usize(g, off) {
        Some(x) => x % 65,
        None => return (Vec::new(), Some(Halt::InputExhausted), 0),
    };
    let first = match read_u16s_at(g, off + 8, a) {
        Some(x) => x,
        None => return (Vec::new(), Some(Halt::InputExhausted), 0),
    };
    let ghost cap0 = u16n14::sv_u16n14_cap(v);
    let ghost base = u16n14::sv_u16n14_items(v);
    assert(base.len() <= 64);
    let mut j: usize = 0;
    while j < first.len()
        invariant
            j <= first@.len() <= 64,
            base.len() <= 64,
            v.wf(),
            u16n14::sv_u16n14_items(v) == base + first@.take(j as int),
            u16n14::sv_u16n14_cap(v) == pushes_cap(base.len(), cap0, j as nat),
        decreases first.len() - j,
    {
        proof {
            broadcast use vstd::layout::layout_of_primitives;
            lemma_small_growth_sized((base.len() + j) as nat, u16n14::sv_u16n14_cap(v), 1, 2);
        }
        u16n14::small_vec_u16n14_push(&mut v, first[j]);
        j = j + 1;
        assert(u16n14::sv_u16n14_items(v) =~= base + first@.take(j as int));
    }
    assert(first@.take(first@.len() as int) =~= first@);
    let p1 = off + 8 + 2 * a;
    let b = match read_usize(g, p1) {
        Some(x) => x % 65,
        None => return (Vec::new(), Some(Halt::InputExhausted), 0),
    };
    let second = match read_u16s_at(g, p1 + 8, b) {
        Some(x) => x,
        None => return (Vec::new(), Some(Halt::InputExhausted), 0),
    };
    let ghost cap0 = u16n14::sv_u16n14_cap(w);
    let ghost base = u16n14::sv_u16n14_items(w);
    assert(base.len() <= 64);
    let mut j: usize = 0;
    while j < second.len()
        invariant
            j <= second@.len() <= 64,
            base.len() <= 64,
            w.wf(),
            u16n14::sv_u16n14_items(w) == base + second@.take(j as int),
            u16n14::sv_u16n14_cap(w) == pushes_cap(base.len(), cap0, j as nat),
        decreases second.len() - j,
    {
        proof {
            broadcast use vstd::layout::layout_of_primitives;
            lemma_small_growth_sized((base.len() + j) as nat, u16n14::sv_u16n14_cap(w), 1, 2);
        }
        u16n14::small_vec_u16n14_push(&mut w, second[j]);
        j = j + 1;
        assert(u16n14::sv_u16n14_items(w) =~= base + second@.take(j as int));
    }
    assert(second@.take(second@.len() as int) =~= second@);
    let p2 = p1 + 8 + 2 * b;
    let r = match read_usize(g, p2) {
        Some(x) => x,
        None => return (Vec::new(), Some(Halt::InputExhausted), 0),
    };
    if growth_overflows_exec(a, u16n14::small_vec_u16n14_capacity(&v), r, 2) {
        return (Vec::new(), Some(Halt::CapacityOverflow), 0);
    }
    u16n14::small_vec_u16n14_reserve(&mut v, r);
    proof {
        lemma_small_growth_sized(a as nat, u16n14::sv_u16n14_cap(v), b as nat, 2);
    }
    u16n14::small_vec_u16n14_append(&mut v, &mut w);
    let mut events: Vec<Event> = Vec::new();
    events.push(Event::Equal(u16n14::small_vec_u16n14_eq(&v, &w)));
    proof {
        lemma_small_growth_sized(0, 14, (a + b) as nat, 2);
        law_lex_order_reflexive(u16n14::u16_ints(u16n14::sv_u16n14_items(v)));
    }
    let twin = u16n14::small_vec_u16n14_clone(&v);
    events.push(Event::Compared(u16n14::small_vec_u16n14_compare(&v, &twin)));
    proof {
        let x = op_6(g@, off as int).0;
        assert(forall|i: int| 0 <= i < events@.len() ==> #[trigger] event_matches(events@[i], x[i]));
    }
    (events, None, p2 + 8)
}

/// Operation 7 (see `op_7`).
#[verifier::loop_isolation(false)]
fn run_op_7(g: &[u8], off: usize) -> (r: (Vec<Event>, Option<Halt>, usize))
    requires
        off <= g.len(),
    ensures
        events_match(r.0@, op_7(g@, off as int).0),
        r.1 == op_7(g@, off as int).1,
        r.1 is None ==> r.2 == op_7(g@, off as int).2 && r.2 <= g.len(),
{
    let mut v = charn15::small_vec_charn15_new();
    let n = match read_usize(g, off) {
        Some(x) => x % 65,
        None => return (Vec::new(), Some(Halt::InputExhausted), 0),
    };
    let mut j: usize = 0;
    while j < n
        invariant
            j <= n <= 64,
            off + 8 <= g.len(),
            v.wf(),
            charn15::sv_charn15_items(v).len() == j,
            charn15::sv_charn15_cap(v) == pushes_cap(0, 15, j as nat),
            forall|k: int| 0 <= k < j ==> (#[trigger] charn15::sv_charn15_items(v)[k]) as u32 == be_u32(g@, off + 8 + 4 * k),
            chars_halt(g@, off + 8, 0, n as nat) == chars_halt(g@, off + 8, j as nat, n as nat),
            j > 0 ==> fits(g@, off + 8 + 4 * (j - 1), 4),
        decreases n - j,
    {
        if g.len() - (off + 8) < 4 * j {
            return (Vec::new(), Some(Halt::InputExhausted), 0);
        }
        let c = match read_char(g, off + 8 + 4 * j) {
            Ok(c) => c,
            Err(h) => return (Vec::new(), Some(h), 0),
        };
        proof {
            broadcast use vstd::layout::layout_of_primitives;
            lemma_small_growth_sized(j as nat, charn15::sv_charn15_cap(v), 1, vstd::layout::size_of::<char>());
        }
        charn15::small_vec_charn15_push(&mut v, c);
        j = j + 1;
    }
    let p = off + 8 + 4 * n;
    let r = match read_usize(g, p) {
        Some(x) => x,
        None => return (Vec::new(), Some(Halt::InputExhausted), 0),
    };
    if growth_overflows_exec(n, charn15::small_vec_charn15_capacity(&v), r, 4) {
        return (Vec::new(), Some(Halt::CapacityOverflow), 0);
    }
    proof {
        broadcast use vstd::layout::layout_of_primitives;
    }
    charn15::small_vec_charn15_reserve(&mut v, r);
    let mut events: Vec<Event> = Vec::new();
    let mut next = p + 8;
    if !charn15::small_vec_charn15_is_empty(&v) {
        let k = match read_usize(g, p + 8) {
            Some(x) => x % n,
            None => return (Vec::new(), Some(Halt::InputExhausted), 0),
        };
        events.push(Event::Removed(charn15::small_vec_charn15_remove(&mut v, k)));
        next = p + 16;
    }
    charn15::small_vec_charn15_clear(&mut v);
    events.push(Event::IsEmpty(charn15::small_vec_charn15_is_empty(&v)));
    proof {
        let x = op_7(g@, off as int).0;
        assert(forall|i: int| 0 <= i < events@.len() ==> #[trigger] event_matches(events@[i], x[i]));
    }
    (events, None, next)
}

/// Operation 8 (see `op_8`).
fn run_op_8(g: &[u8], off: usize) -> (r: (Vec<Event>, Option<Halt>, usize))
    requires
        off <= g.len(),
    ensures
        events_match(r.0@, op_8(g@, off as int).0),
        r.1 == op_8(g@, off as int).1,
        r.1 is None ==> r.2 == op_8(g@, off as int).2 && r.2 <= g.len(),
{
    let n = match read_usize(g, off) {
        Some(x) => x % 65,
        None => return (Vec::new(), Some(Halt::InputExhausted), 0),
    };
    let vals = match read_i64s_at(g, off + 8, n) {
        Some(w) => w,
        None => return (Vec::new(), Some(Halt::InputExhausted), 0),
    };
    let p = off + 8 + 8 * n;
    proof {
        broadcast use vstd::layout::layout_of_primitives;
        lemma_small_growth_sized(0, 16, n as nat, 8);
    }
    let mut v = i64n16::small_vec_i64n16_from_iter(vals);
    let r = match read_usize(g, p) {
        Some(x) => x,
        None => return (Vec::new(), Some(Halt::InputExhausted), 0),
    };
    if growth_overflows_exec(n, i64n16::small_vec_i64n16_capacity(&v), r, 8) {
        return (Vec::new(), Some(Halt::CapacityOverflow), 0);
    }
    i64n16::small_vec_i64n16_reserve(&mut v, r);
    let len = match read_usize(g, p + 8) {
        Some(x) => x % 65,
        None => return (Vec::new(), Some(Halt::InputExhausted), 0),
    };
    let value = match read_i64(g, p + 16) {
        Some(x) => x,
        None => return (Vec::new(), Some(Halt::InputExhausted), 0),
    };
    proof {
        if len > n {
            lemma_small_growth_sized(n as nat, i64n16::sv_i64n16_cap(v), (len - n) as nat, 8);
        }
    }
    i64n16::small_vec_i64n16_resize(&mut v, len, value);
    let whole = i64n16::small_vec_i64n16_into_vec(v);
    let events = vec![Event::VecLen(whole.len())];
    proof {
        let x = op_8(g@, off as int).0;
        assert(forall|i: int| 0 <= i < events@.len() ==> #[trigger] event_matches(events@[i], x[i]));
    }
    (events, None, p + 24)
}

/// Operation 9 (see `op_9`); the capacity of a copy of more items than fit
/// inline is the choice.
fn run_op_9(g: &[u8], off: usize) -> (r: (Vec<Event>, Option<Halt>, usize, Ghost<Choices>))
    requires
        off <= g.len(),
    ensures
        events_match(r.0@, op_9(g@, off as int, r.3@).0),
        r.1 == op_9(g@, off as int, r.3@).1,
        r.1 is None ==> r.2 == op_9(g@, off as int, r.3@).2 && r.2 <= g.len(),
{
    let none = Ghost(no_choice());
    let n = match read_usize(g, off) {
        Some(x) => x % 65,
        None => return (Vec::new(), Some(Halt::InputExhausted), 0, none),
    };
    let bytes = match read_bytes_at(g, off + 8, n) {
        Some(w) => w,
        None => return (Vec::new(), Some(Halt::InputExhausted), 0, none),
    };
    let p = off + 8 + n;
    let mut v = u8n22::small_vec_u8n22_from_slice(bytes.as_slice());
    let ghost c = Choices { cap: u8n22::sv_u8n22_cap(v), try_ok: false };
    let r = match read_usize(g, p) {
        Some(x) => x,
        None => return (Vec::new(), Some(Halt::InputExhausted), 0, Ghost(c)),
    };
    if growth_overflows_exec(n, u8n22::small_vec_u8n22_capacity(&v), r, 1) {
        return (Vec::new(), Some(Halt::CapacityOverflow), 0, Ghost(c));
    }
    proof {
        broadcast use vstd::layout::layout_of_primitives;
    }
    u8n22::small_vec_u8n22_reserve(&mut v, r);
    let copy = u8n22::small_vec_u8n22_to_small_vec(bytes.as_slice());
    let mut events: Vec<Event> = Vec::new();
    events.push(Event::ToSmallVecLen(u8n22::small_vec_u8n22_len(&copy)));
    let ghost shown = seq![Expect::ToSmallVecLen(n as nat)];
    assert(events_match(events@, shown));
    if u8n22::small_vec_u8n22_is_empty(&v) {
        return (events, None, p + 8, Ghost(c));
    }
    let k = match read_usize(g, p + 8) {
        Some(x) => x % n,
        None => return (events, Some(Halt::InputExhausted), 0, Ghost(c)),
    };
    let x = u8n22::small_vec_u8n22_swap_remove(&mut v, k);
    push_event(&mut events, Ghost(shown), Event::Swapped(x), Ghost(Expect::Swapped(bytes@[k as int])));
    (events, None, p + 16, Ghost(c))
}

/// Operation 10 (see `op_10`): the reads and reservation are checked here;
/// the items, being floating-point, are left to the caller.
fn run_op_10(g: &[u8], off: usize) -> (r: (Vec<Event>, Option<Halt>, usize))
    requires
        off <= g.len(),
    ensures
        events_match(r.0@, op_10(g@, off as int).0),
        r.1 == op_10(g@, off as int).1,
        r.1 is None ==> r.2 == op_10(g@, off as int).2 && r.2 <= g.len(),
{
    let n = match read_usize(g, off) {
        Some(x) => x % 65,
        None => return (Vec::new(), Some(Halt::InputExhausted), 0),
    };
    if g.len() - (off + 8) < 8 * n {
        return (Vec::new(), Some(Halt::InputExhausted), 0);
    }
    let p = off + 8 + 8 * n;
    let r = match read_usize(g, p) {
        Some(x) => x,
        None => return (Vec::new(), Some(Halt::InputExhausted), 0),
    };
    let cap = pushed_cap_18(n);
    if growth_overflows_exec(n, cap, r, 8) {
        return (Vec::new(), Some(Halt::CapacityOverflow), 0);
    }
    let events = vec![Event::FloatOp(10, off)];
    proof {
        let x = op_10(g@, off as int).0;
        assert(forall|i: int| 0 <= i < events@.len() ==> #[trigger] event_matches(events@[i], x[i]));
    }
    (events, None, p + 8)
}

/// The capacity after up to 64 pushes onto an empty vector of inline size
/// 18: it grows to 32, then to 64.
proof fn lemma_pushes_cap_18(k: nat)
    requires
        k <= 64,
    ensures
        pushes_cap(0, 18, k) == (if k <= 18 { 18nat } else if k <= 32 { 32nat } else { 64nat }),
    decreases k,
{
    if k > 0 {
        lemma_pushes_cap_18((k - 1) as nat);
        reveal_with_fuel(next_pow2, 7);
        assert(next_pow2(19) == 32);
        assert(next_pow2(33) == 64);
    }
}

/// The capacity after `n` pushes onto an empty vector of inline size 18.
fn pushed_cap_18(n: usize) -> (r: usize)
    requires
        n <= 64,
    ensures
        r == pushes_cap(0, 18, n as nat),
{
    proof {
        lemma_pushes_cap_18(n as nat);
    }
    if n <= 18 {
        18
    } else if n <= 32 {
        32
    } else {
        64
    }
}

/// Operation 11 (see `op_11`); whether a `try_reserve` that could succeed
/// did is the choice.
#[verifier::loop_isolation(false)]
fn run_op_11(g: &[u8], off: usize) -> (r: (Vec<Event>, Option<Halt>, usize, Ghost<Choices>))
    requires
        off <= g.len(),
    ensures
        events_match(r.0@, op_11(g@, off as int, r.3@).0),
        r.1 == op_11(g@, off as int, r.3@).1,
        r.1 is None ==> r.2 == op_11(g@, off as int, r.3@).2 && r.2 <= g.len(),
{
    let none = Ghost(no_choice());
    let z = core::mem::size_of::<isize>();
    proof {
        broadcast use vstd::layout::layout_of_primitives;
    }
    let n = match read_usize(g, off) {
        Some(x) => x % 65,
        None => return (Vec::new(), Some(Halt::InputExhausted), 0, none),
    };
    assert(!exact_growth_overflows(0, 15, n as nat, vstd::layout::size_of::<isize>())) by {
        assert(n * vstd::layout::size_of::<isize>() <= 64 * 8) by (nonlinear_arith)
            requires
                n <= 64,
                vstd::layout::size_of::<isize>() <= 8,
        ;
    }
    let mut v = isizen15::small_vec_isizen15_with_capacity(n);
    let vals = match read_isizes_at(g, off + 8, n) {
        Some(w) => w,
        None => return (Vec::new(), Some(Halt::InputExhausted), 0, none),
    };
    let ghost cap0 = isizen15::sv_isizen15_cap(v);
    let ghost base = isizen15::sv_isizen15_items(v);
    assert(base.len() <= 64);
    let mut j: usize = 0;
    while j < vals.len()
        invariant
            j <= vals@.len() <= 64,
            base.len() <= 64,
            v.wf(),
            isizen15::sv_isizen15_items(v) == base + vals@.take(j as int),
            isizen15::sv_isizen15_cap(v) == pushes_cap(base.len(), cap0, j as nat),
        decreases vals.len() - j,
    {
        proof {
            broadcast use vstd::layout::layout_of_primitives;
            lemma_small_growth_sized((base.len() + j) as nat, isizen15::sv_isizen15_cap(v), 1, vstd::layout::size_of::<isize>());
        }
        isizen15::small_vec_isizen15_push(&mut v, vals[j]);
        j = j + 1;
        assert(isizen15::sv_isizen15_items(v) =~= base + vals@.take(j as int));
    }
    assert(vals@.take(vals@.len() as int) =~= vals@);
    proof {
        lemma_pushes_fit(0, cap0, n as nat);
    }
    let p = off + 8 + 8 * n;
    let a = match read_usize(g, p) {
        Some(x) => x,
        None => return (Vec::new(), Some(Halt::InputExhausted), 0, none),
    };
    if growth_overflows_exec(n, isizen15::small_vec_isizen15_capacity(&v), a, z) {
        return (Vec::new(), Some(Halt::CapacityOverflow), 0, none);
    }
    isizen15::small_vec_isizen15_reserve(&mut v, a);
    let t = match read_usize(g, p + 8) {
        Some(x) => x,
        None => return (Vec::new(), Some(Halt::InputExhausted), 0, none),
    };
    let ok = match isizen15::small_vec_isizen15_try_reserve(&mut v, t) {
        Ok(_) => true,
        Err(_) => false,
    };
    let ghost c = Choices { cap: 0, try_ok: ok };
    let mut events: Vec<Event> = Vec::new();
    events.push(Event::TryReserve(ok));
    let ghost shown = seq![Expect::TryReserve(ok)];
    assert(events_match(events@, shown));
    let x = match read_usize(g, p + 16) {
        Some(x) => x,
        None => return (events, Some(Halt::InputExhausted), 0, Ghost(c)),
    };
    if exact_growth_overflows_exec(n, isizen15::small_vec_isizen15_capacity(&v), x, z) {
        return (events, Some(Halt::CapacityOverflow), 0, Ghost(c));
    }
    isizen15::small_vec_isizen15_reserve_exact(&mut v, x);
    let len = isizen15::small_vec_isizen15_deref(&v).len();
    push_event(&mut events, Ghost(shown), Event::DerefLen(len), Ghost(Expect::DerefLen(n as nat)));
    (events, None, p + 24, Ghost(c))
}

/// Operation 12 (see `op_12`).
#[verifier::loop_isolation(false)]
fn run_op_12(g: &[u8], off: usize) -> (r: (Vec<Event>, Option<Halt>, usize))
    requires
        off <= g.len(),
    ensures
        events_match(r.0@, op_12(g@, off as int).0),
        r.1 == op_12(g@, off as int).1,
        r.1 is None ==> r.2 == op_12(g@, off as int).2 && r.2 <= g.len(),
{
    let mut v = u128n16::small_vec_u128n16_new();
    let n = match read_usize(g, off) {
        Some(x) => x % 65,
        None => return (Vec::new(), Some(Halt::InputExhausted), 0),
    };
    let vals = match read_u128s_at(g, off + 8, n) {
        Some(w) => w,
        None => return (Vec::new(), Some(Halt::InputExhausted), 0),
    };
    let ghost cap0 = u128n16::sv_u128n16_cap(v);
    let ghost base = u128n16::sv_u128n16_items(v);
    assert(base.len() <= 64);
    let mut j: usize = 0;
    while j < vals.len()
        invariant
            j <= vals@.len() <= 64,
            base.len() <= 64,
            v.wf(),
            u128n16::sv_u128n16_items(v) == base + vals@.take(j as int),
            u128n16::sv_u128n16_cap(v) == pushes_cap(base.len(), cap0, j as nat),
        decreases vals.len() - j,
    {
        proof {
            broadcast use vstd::layout::layout_of_primitives;
            lemma_small_growth_sized((base.len() + j) as nat, u128n16::sv_u128n16_cap(v), 1, 16);
        }
        u128n16::small_vec_u128n16_push(&mut v, vals[j]);
        j = j + 1;
        assert(u128n16::sv_u128n16_items(v) =~= base + vals@.take(j as int));
    }
    assert(vals@.take(vals@.len() as int) =~= vals@);
    let p = off + 8 + 16 * n;
    let r = match read_usize(g, p) {
        Some(x) => x,
        None => return (Vec::new(), Some(Halt::InputExhausted), 0),
    };
    if growth_overflows_exec(n, u128n16::small_vec_u128n16_capacity(&v), r, 16) {
        return (Vec::new(), Some(Halt::CapacityOverflow), 0);
    }
    u128n16::small_vec_u128n16_reserve(&mut v, r);
    let at = match read_usize(g, p + 8) {
        Some(x) => x % (n + 1),
        None => return (Vec::new(), Some(Halt::InputExhausted), 0),
    };
    let m = match read_usize(g, p + 16) {
        Some(x) => x % 65,
        None => return (Vec::new(), Some(Halt::InputExhausted), 0),
    };
    let more = match read_u128s_at(g, p + 24, m) {
        Some(w) => w,
        None => return (Vec::new(), Some(Halt::InputExhausted), 0),
    };
    proof {
        lemma_small_growth_sized(n as nat, u128n16::sv_u128n16_cap(v), m as nat, 16);
    }
    u128n16::small_vec_u128n16_insert_many(&mut v, at, more);
    let events = vec![Event::AsRefLen(u128n16::small_vec_u128n16_as_ref(&v).len())];
    proof {
        let x = op_12(g@, off as int).0;
        assert(forall|i: int| 0 <= i < events@.len() ==> #[trigger] event_matches(events@[i], x[i]));
    }
    (events, None, p + 24 + 16 * m)
}

/// Operation 13 (see `op_13`); the capacity of a copy of more items than fit
/// inline is the choice.
fn run_op_13(g: &[u8], off: usize) -> (r: (Vec<Event>, Option<Halt>, usize, Ghost<Choices>))
    requires
        off <= g.len(),
    ensures
        events_match(r.0@, op_13(g@, off as int, r.3@).0),
        r.1 == op_13(g@, off as int, r.3@).1,
        r.1 is None ==> r.2 == op_13(g@, off as int, r.3@).2 && r.2 <= g.len(),
{
    let none = Ghost(no_choice());
    let n = match read_usize(g, off) {
        Some(x) => x % 65,
        None => return (Vec::new(), Some(Halt::InputExhausted), 0, none),
    };
    let vals = match read_i16s_at(g, off + 8, n) {
        Some(w) => w,
        None => return (Vec::new(), Some(Halt::InputExhausted), 0, none),
    };
    let p = off + 8 + 2 * n;
    let mut v = i16n30::small_vec_i16n30_from_slice(vals.as_slice());
    let ghost c = Choices { cap: i16n30::sv_i16n30_cap(v), try_ok: false };
    let r = match read_usize(g, p) {
        Some(x) => x,
        None => return (Vec::new(), Some(Halt::InputExhausted), 0, Ghost(c)),
    };
    if growth_overflows_exec(n, i16n30::small_vec_i16n30_capacity(&v), r, 2) {
        return (Vec::new(), Some(Halt::CapacityOverflow), 0, Ghost(c));
    }
    proof {
        broadcast use vstd::layout::layout_of_primitives;
    }
    i16n30::small_vec_i16n30_reserve(&mut v, r);
    let at = match read_usize(g, p + 8) {
        Some(x) => x % (n + 1),
        None => return (Vec::new(), Some(Halt::InputExhausted), 0, Ghost(c)),
    };
    let m = match read_usize(g, p + 16) {
        Some(x) => x % 65,
        None => return (Vec::new(), Some(Halt::InputExhausted), 0, Ghost(c)),
    };
    let more = match read_i16s_at(g, p + 24, m) {
        Some(w) => w,
        None => return (Vec::new(), Some(Halt::InputExhausted), 0, Ghost(c)),
    };
    proof {
        lemma_small_growth_sized(n as nat, i16n30::sv_i16n30_cap(v), m as nat, 2);
    }
    i16n30::small_vec_i16n30_insert_from_slice(&mut v, at, more.as_slice());
    let mut events: Vec<Event> = Vec::new();
    events.push(Event::BorrowLen(i16n30::small_vec_i16n30_borrow(&v).len()));
    let whole = i16n30::small_vec_i16n30_borrow_mut(&mut v);
    events.push(Event::MutBorrowLen(whole.len()));
    proof {
        let x = op_13(g@, off as int, c).0;
        assert(forall|i: int| 0 <= i < events@.len() ==> #[trigger] event_matches(events@[i], x[i]));
    }
    (events, None, p + 24 + 2 * m, Ghost(c))
}

/// Operation 14 (see `op_14`).
#[verifier::loop_isolation(false)]
fn run_op_14(g: &[u8], off: usize) -> (r: (Vec<Event>, Option<Halt>, usize))
    requires
        off <= g.len(),
    ensures
        events_match(r.0@, op_14(g@, off as int).0),
        r.1 == op_14(g@, off as int).1,
        r.1 is None ==> r.2 == op_14(g@, off as int).2 && r.2 <= g.len(),
{
    let mut v = i8n64::small_vec_i8n64_new();
    let n = match read_usize(g, off) {
        Some(x) => x % 65,
        None => return (Vec::new(), Some(Halt::InputExhausted), 0),
    };
    let vals = match read_i8s_at(g, off + 8, n) {
        Some(w) => w,
        None => return (Vec::new(), Some(Halt::InputExhausted), 0),
    };
    let ghost cap0 = i8n64::sv_i8n64_cap(v);
    let ghost base = i8n64::sv_i8n64_items(v);
    assert(base.len() <= 64);
    let mut j: usize = 0;
    while j < vals.len()
        invariant
            j <= vals@.len() <= 64,
            base.len() <= 64,
            v.wf(),
            i8n64::sv_i8n64_items(v) == base + vals@.take(j as int),
            i8n64::sv_i8n64_cap(v) == pushes_cap(base.len(), cap0, j as nat),
        decreases vals.len() - j,
    {
        proof {
            broadcast use vstd::layout::layout_of_primitives;
            lemma_small_growth_sized((base.len() + j) as nat, i8n64::sv_i8n64_cap(v), 1, 1);
        }
        i8n64::small_vec_i8n64_push(&mut v, vals[j]);
        j = j + 1;
        assert(i8n64::sv_i8n64_items(v) =~= base + vals@.take(j as int));
    }
    assert(vals@.take(vals@.len() as int) =~= vals@);
    proof {
        lemma_pushes_fit(0, cap0, n as nat);
    }
    let p = off + 8 + n;
    let r = match read_usize(g, p) {
        Some(x) => x,
        None => return (Vec::new(), Some(Halt::InputExhausted), 0),
    };
    if growth_overflows_exec(n, i8n64::small_vec_i8n64_capacity(&v), r, 1) {
        return (Vec::new(), Some(Halt::CapacityOverflow), 0);
    }
    i8n64::small_vec_i8n64_reserve(&mut v, r);
    let items = i8n64::small_vec_i8n64_into_iter_collect(v);
    let mut events: Vec<Event> = Vec::new();
    let mut k: usize = 0;
    while k < items.len()
        invariant
            k <= items@.len(),
            events@.len() == k,
            forall|i: int| 0 <= i < k ==> #[trigger] event_matches(events@[i], each_iter_val(items@)[i]),
        decreases items.len() - k,
    {
        events.push(Event::IterVal(items[k]));
        k = k + 1;
    }
    (events, None, p + 8)
}

/// The operation `op` whose arguments start at `off` (see `op_step`); what
/// the allocator chose in it is the choice.
fn run_op(g: &[u8], op: u8, off: usize) -> (r: (Vec<Event>, Option<Halt>, usize, Ghost<Choices>))
    requires
        off <= g.len(),
    ensures
        events_match(r.0@, op_step(g@, op, off as int, r.3@).0),
        r.1 == op_step(g@, op, off as int, r.3@).1,
        r.1 is None ==> r.2 == op_step(g@, op, off as int, r.3@).2 && r.2 <= g.len(),
{
    reveal(op_step);
    let none = Ghost(no_choice());
    if op == 1 {
        return run_op_1(g, off);
    } else if op == 2 {
        return run_op_2(g, off);
    } else if op == 3 {
        return run_op_3(g, off);
    } else if op == 4 {
        return run_op_4(g, off);
    } else if op == 5 {
        return run_op_5(g, off);
    } else if op == 9 {
        return run_op_9(g, off);
    } else if op == 11 {
        return run_op_11(g, off);
    } else if op == 13 {
        return run_op_13(g, off);
    }
    let (events, halt, next) = if op == 0 {
        run_op_0(g, off)
    } else if op == 6 {
        run_op_6(g, off)
    } else if op == 7 {
        run_op_7(g, off)
    } else if op == 8 {
        run_op_8(g, off)
    } else if op == 10 {
        run_op_10(g, off)
    } else if op == 12 {
        run_op_12(g, off)
    } else {
        run_op_14(g, off)
    };
    (events, halt, next, none)
}

/// Once operation `k` has run without halting, the run's outcome is what was
/// owed so far and its events, followed by what the later operations owe.
proof fn lemma_run_continues(
    input_len: nat,
    g: Seq<u8>,
    k: nat,
    count: nat,
    off: int,
    done: Seq<Choices>,
    owed: Seq<Expect>,
    c: Choices,
)
    requires
        forall|rest: Seq<Choices>|
            #![trigger ops_from(g, k, count, off, rest)]
            script_outcome(input_len, g, done + rest) == (
                owed + ops_from(g, k, count, off, rest).0,
                ops_from(g, k, count, off, rest).1,
            ),
        k < count,
        fits(g, off, 1),
        op_step(g, g[off] % 15, off + 1, c).1 is None,
    ensures
        ({
            let s = op_step(g, g[off] % 15, off + 1, c);
            forall|rest: Seq<Choices>|
                #![trigger ops_from(g, k + 1, count, s.2, rest)]
                script_outcome(input_len, g, done.push(c) + rest) == (
                    (owed + s.0) + ops_from(g, k + 1, count, s.2, rest).0,
                    ops_from(g, k + 1, count, s.2, rest).1,
                )
        }),
{
    let s = op_step(g, g[off] % 15, off + 1, c);
    assert forall|rest: Seq<Choices>|
        #![trigger ops_from(g, k + 1, count, s.2, rest)]
        script_outcome(input_len, g, done.push(c) + rest) == (
            (owed + s.0) + ops_from(g, k + 1, count, s.2, rest).0,
            ops_from(g, k + 1, count, s.2, rest).1,
        ) by {
        let full = seq![c] + rest;
        assert(done.push(c) + rest =~= done + full);
        assert(full.drop_first() =~= rest);
        let tail = ops_from(g, k + 1, count, s.2, rest);
        assert(ops_from(g, k, count, off, full) == (s.0 + tail.0, tail.1));
        assert(owed + (s.0 + tail.0) =~= (owed + s.0) + tail.0);
    }
}

/// Where operation `k` halts, the run's outcome is what was owed so far and
/// its events, and the halt.
proof fn lemma_run_halts(
    input_len: nat,
    g: Seq<u8>,
    k: nat,
    count: nat,
    off: int,
    done: Seq<Choices>,
    owed: Seq<Expect>,
    c: Choices,
)
    requires
        forall|rest: Seq<Choices>|
            #![trigger ops_from(g, k, count, off, rest)]
            script_outcome(input_len, g, done + rest) == (
                owed + ops_from(g, k, count, off, rest).0,
                ops_from(g, k, count, off, rest).1,
            ),
        k < count,
        fits(g, off, 1),
        op_step(g, g[off] % 15, off + 1, c).1 is Some,
    ensures
        script_outcome(input_len, g, done.push(c)) == (
            owed + op_step(g, g[off] % 15, off + 1, c).0,
            op_step(g, g[off] % 15, off + 1, c).1,
        ),
{
    let full = seq![c];
    assert(done.push(c) =~= done + full);
    assert(full[0] == c);
    assert(ops_from(g, k, count, off, full) == (
        op_step(g, g[off] % 15, off + 1, c).0,
        op_step(g, g[off] % 15, off + 1, c).1,
    ));
}

/// The events of a run, and why it stopped early, if it did.
pub struct Run {
    pub events: Vec<Event>,
    pub halt: Option<Halt>,
}

/// Runs the script of an input of `input_len` bytes whose first half is `g`.
/// What it reports is owed for some choices of the allocator; operations on
/// floating-point items are left to the caller, each reported as `FloatOp`
/// in its place.
pub fn run(input_len: usize, g: &[u8]) -> (r: Run)
    ensures
        exists|cs: Seq<Choices>|
            #![trigger script_outcome(input_len as nat, g@, cs)]
            events_match(r.events@, script_outcome(input_len as nat, g@, cs).0) && r.halt
                == script_outcome(input_len as nat, g@, cs).1,
{
    let mut events: Vec<Event> = Vec::new();
    let ghost none = Seq::<Choices>::empty();
    if input_len < 250 {
        assert(script_outcome(input_len as nat, g@, none).0 =~= Seq::<Expect>::empty());
        return Run { events, halt: None };
    }
    let count = match read_usize(g, 0) {
        Some(x) => x % 65,
        None => {
            assert(script_outcome(input_len as nat, g@, none).0 =~= Seq::<Expect>::empty());
            return Run { events, halt: Some(Halt::InputExhausted) };
        },
    };
    let mut off: usize = 8;
    let ghost mut done = Seq::<Choices>::empty();
    let ghost mut owed = Seq::<Expect>::empty();
    let ghost n = count as nat;
    let ghost mut at: int = 8;
    let ghost mut gk: nat = 0;
    assert forall|rest: Seq<Choices>|
        #![trigger ops_from(g@, gk, n, at, rest)]
        script_outcome(input_len as nat, g@, done + rest) == (
            owed + ops_from(g@, gk, n, at, rest).0,
            ops_from(g@, gk, n, at, rest).1,
        ) by {
        assert(done + rest =~= rest);
        assert(owed + ops_from(g@, gk, n, at, rest).0 =~= ops_from(g@, gk, n, at, rest).0);
    }
    let mut k: usize = 0;
    while k < count
        invariant
            k <= count < 65,
            input_len >= 250,
            fits(g@, 0, 8),
            n == count as nat,
            n == count65(g@, 0),
            off <= g.len(),
            at == off as int,
            gk == k as nat,
            none == Seq::<Choices>::empty(),
            events_match(events@, owed),
            forall|rest: Seq<Choices>|
                #![trigger ops_from(g@, gk, n, at, rest)]
                script_outcome(input_len as nat, g@, done + rest) == (
                    owed + ops_from(g@, gk, n, at, rest).0,
                    ops_from(g@, gk, n, at, rest).1,
                ),
        decreases count - k,
    {
        if off >= g.len() {
            proof {
                assert(ops_from(g@, gk, n, at, none) == (Seq::<Expect>::empty(), Some(Halt::InputExhausted)));
                assert(owed + Seq::<Expect>::empty() =~= owed);
                assert(done + none =~= done);
            }
            return Run { events, halt: Some(Halt::InputExhausted) };
        }
        let op = g[off] % 15;
        let (evs, halt, next, Ghost(c)) = run_op(g, op, off + 1);
        let ghost s = op_step(g@, op, (off + 1) as int, c);
        proof {
            lemma_events_match_append(events@, owed, evs@, s.0);
        }
        let mut evs = evs;
        events.append(&mut evs);
        if halt.is_some() {
            proof {
                lemma_run_halts(input_len as nat, g@, gk, n, at, done, owed, c);
            }
            return Run { events, halt };
        }
        proof {
            lemma_run_continues(input_len as nat, g@, gk, n, at, done, owed, c);
            done = done.push(c);
            owed = owed + s.0;
            gk = gk + 1;
            at = s.2;
        }
        off = next;
        k = k + 1;
    }
    proof {
        assert(ops_from(g@, gk, n, at, none) == (Seq::<Expect>::empty(), None::<Halt>));
        assert(done + none =~= done);
        assert(owed + Seq::<Expect>::empty() =~= owed);
    }
    Run { events, halt: None }
}

} // verus!

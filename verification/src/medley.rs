//! A script of thirty kinds of operation, each on a fresh vector of its own
//! element type and inline size.
use vstd::prelude::*;
use crate::bytes::mixed_i16;
use crate::script::{
    char_halt, fits, i32_at, i32s_at, read_bool, read_char, read_i128, read_i16, read_i32, read_i64, read_i8,
    read_isize, read_text, read_u16, read_u32, read_u64, read_u8, read_usize, text_of, u32_at, u32s_at,
    usize_at, Halt,
};
use crate::sv_i32n15::{
    small_vec_i32n15_as_slice, small_vec_i32n15_clear, small_vec_i32n15_len, small_vec_i32n15_push,
    small_vec_i32n15_spilled, small_vec_i32n15_with_capacity, sv_i32n15_cap, sv_i32n15_items,
};
use crate::small_vec::{
    exact_growth_overflows, exact_growth_overflows_exec, exact_grown, growth_overflows, growth_overflows_exec,
    grown, law_lex_order_reflexive, lemma_small_growth_sized, lemma_small_push, open_cap, Order,
};
use crate::sv_u8n32::{
    small_vec_u8n32_clear, small_vec_u8n32_is_empty, small_vec_u8n32_len, small_vec_u8n32_new,
    small_vec_u8n32_push, small_vec_u8n32_remove, sv_u8n32_cap, sv_u8n32_items,
};
use crate::sv_string::{
    small_vec_string12_capacity, small_vec_string12_into_boxed_slice, small_vec_string12_len,
    small_vec_string12_push, small_vec_string12_with_capacity, sv_str12_cap, sv_str12_items, texts,
};

pub mod u64n12;
pub mod booln18;
pub mod charn25;
pub mod stringn14;
pub mod u8n22;
pub mod i16n16;
pub mod isizen11;
pub mod u32n19;
pub mod i8n17;
pub mod u16n21;
pub mod i64n23;
pub mod usizen26;
pub mod charn15;
pub mod booln20;
pub mod u64n11;
pub mod i32n18;
pub mod u16n25;
pub mod i128n15;
pub mod booln30;
pub mod u32n20;
pub mod charn18;
pub mod isizen30;

verus! {

/// What the script reports, one value per printed line.
#[derive(Debug, PartialEq, Eq)]
pub enum Event {
    /// The `i32` items pushed (operation 0).
    Ints(Vec<i32>),
    /// Whether the vector spilled (operation 0).
    Spilled(bool),
    /// A length.
    Len(usize),
    /// "Capacity: a -> b" around `shrink_to_fit`.
    CapacityChange(usize, usize),
    /// The first flag drained.
    Flag(bool),
    /// An address from `as_ptr`.
    Ptr(usize),
    /// An address from `as_mut_ptr`.
    MutPtr(usize),
    /// Whether the vector is empty.
    Empty(bool),
    /// "Spilled: b" (operation 5).
    SpilledNote(bool),
    /// "Length after clear: n".
    LengthAfterClear(usize),
    /// The bytes, through `as_mut_slice`.
    Bytes(Vec<u8>),
    /// The `i16` items, through `Deref`.
    Shorts(Vec<i16>),
    /// The order of a vector and its clone.
    Compared(Order),
    /// "Capacity after clear: c".
    CapacityAfterClear(usize),
    /// "Popped: x".
    Popped(u32),
    /// "Removed: x".
    Removed(u32),
    /// "Equal: b".
    Equal(bool),
    /// "Vec length: n".
    VecLength(usize),
    /// "Boxed slice length: n".
    BoxedLen(usize),
    /// "Removed element: x".
    RemovedElement(u8),
    /// "Collected length: n".
    CollectedLen(usize),
    /// The first five `u32` items.
    Words(Vec<u32>),
    /// "Array size: n".
    ArraySize(usize),
    /// An operation on floating-point items, left to the caller: the
    /// operation's number and its position in the run.
    FloatOp(u8, usize),
}

/// What the script is owed to report; an address may be any.
pub enum Expect {
    Ints(Seq<i32>),
    Spilled(bool),
    Len(nat),
    CapacityChange(nat, nat),
    Flag(bool),
    Ptr,
    MutPtr,
    Empty(bool),
    SpilledNote(bool),
    LengthAfterClear(nat),
    Bytes(Seq<u8>),
    Shorts(Seq<i16>),
    Compared(Order),
    CapacityAfterClear(nat),
    Popped(u32),
    Removed(u32),
    Equal(bool),
    VecLength(nat),
    BoxedLen(nat),
    RemovedElement(u8),
    CollectedLen(nat),
    Words(Seq<u32>),
    ArraySize(nat),
    FloatOp(u8, nat),
}

/// Whether a reported event is the one that was owed.
pub open spec fn event_matches(e: Event, x: Expect) -> bool {
    match e {
        Event::Ints(v) => x == Expect::Ints(v@),
        Event::Spilled(b) => x == Expect::Spilled(b),
        Event::Len(n) => x == Expect::Len(n as nat),
        Event::CapacityChange(a, b) => x == Expect::CapacityChange(a as nat, b as nat),
        Event::Flag(b) => x == Expect::Flag(b),
        Event::Ptr(_) => x is Ptr,
        Event::MutPtr(_) => x is MutPtr,
        Event::Empty(b) => x == Expect::Empty(b),
        Event::SpilledNote(b) => x == Expect::SpilledNote(b),
        Event::LengthAfterClear(n) => x == Expect::LengthAfterClear(n as nat),
        Event::Bytes(v) => x == Expect::Bytes(v@),
        Event::Shorts(v) => x == Expect::Shorts(v@),
        Event::Compared(o) => x == Expect::Compared(o),
        Event::CapacityAfterClear(c) => x == Expect::CapacityAfterClear(c as nat),
        Event::Popped(v) => x == Expect::Popped(v),
        Event::Removed(v) => x == Expect::Removed(v),
        Event::Equal(b) => x == Expect::Equal(b),
        Event::VecLength(n) => x == Expect::VecLength(n as nat),
        Event::BoxedLen(n) => x == Expect::BoxedLen(n as nat),
        Event::RemovedElement(v) => x == Expect::RemovedElement(v),
        Event::CollectedLen(n) => x == Expect::CollectedLen(n as nat),
        Event::Words(v) => x == Expect::Words(v@),
        Event::ArraySize(n) => x == Expect::ArraySize(n as nat),
        Event::FloatOp(op, at) => x == Expect::FloatOp(op, at as nat),
    }
}

/// Whether the reported events are, one for one, those owed.
pub open spec fn events_match(a: Seq<Event>, x: Seq<Expect>) -> bool {
    &&& a.len() == x.len()
    &&& forall|i: int| 0 <= i < a.len() ==> #[trigger] event_matches(a[i], x[i])
}

/// Reported events, followed by more, match what was owed followed by more.
proof fn lemma_events_match_append(a: Seq<Event>, x: Seq<Expect>, b: Seq<Event>, y: Seq<Expect>)
    requires
        events_match(a, x),
        events_match(b, y),
    ensures
        events_match(a + b, x + y),
{
    assert forall|i: int| 0 <= i < (a + b).len() implies #[trigger] event_matches((a + b)[i], (x + y)[i]) by {
        if i < a.len() {
            assert(event_matches(a[i], x[i]));
        } else {
            assert(event_matches(b[i - a.len()], y[i - a.len()]));
        }
    }
}

/// What an operation is owed: its events, and why it halts, if it does.
pub type Outcome = (Seq<Expect>, Option<Halt>);

/// An operation that halts with `h` before reporting anything.
pub open spec fn halted(h: Halt) -> Outcome {
    (Seq::empty(), Some(h))
}

/// An operation that reports `events` and does not halt.
pub open spec fn done(events: Seq<Expect>) -> Outcome {
    (events, None)
}

/// Whether `count` reads of `width` bytes at `start`, `stride` apart, lie
/// inside `g`.
pub open spec fn reads_ok(g: Seq<u8>, start: int, stride: int, width: int, count: nat) -> bool {
    count == 0 || fits(g, start + stride * (count - 1), width)
}

/// Why reading characters `j` to `count` at `start`, four bytes apart,
/// stops the run, if it does.
pub open spec fn chars_halt(g: Seq<u8>, start: int, j: nat, count: nat) -> Option<Halt>
    decreases count - j,
{
    if j >= count {
        None
    } else {
        match char_halt(g, start + 4 * j) {
            Some(h) => Some(h),
            None => chars_halt(g, start, j + 1, count),
        }
    }
}

/// The capacity after `k` pushes onto `len` items in capacity `cap`.
pub open spec fn pushes_cap(len: nat, cap: nat, k: nat) -> nat
    decreases k,
{
    if k == 0 {
        cap
    } else {
        grown((len + k - 1) as nat, pushes_cap(len, cap, (k - 1) as nat), 1)
    }
}

/// The size in bytes of a `String`.
pub open spec fn text_size() -> nat {
    vstd::layout::size_of::<String>()
}

/// Pushes of texts `p` to `count`: text `p` has (the `usize` at
/// `lens + 8 * p`, modulo `modulus`) bytes at `texts + 8 * p`. The result is
/// the capacity after them from `len` items in `cap`, or why they stop.
pub open spec fn text_pushes(g: Seq<u8>, lens: int, texts: int, modulus: nat, p: nat, count: nat, len: nat, cap: nat) -> Result<nat, Halt>
    decreases count - p,
{
    if p >= count {
        Ok(cap)
    } else if !fits(g, lens + 8 * p, 8) {
        Err(Halt::InputExhausted)
    } else {
        match text_of(g, texts + 8 * p, (usize_at(g, lens + 8 * p) % modulus as usize) as nat) {
            Err(h) => Err(h),
            Ok(_) => if growth_overflows(len, cap, 1, text_size()) {
                Err(Halt::CapacityOverflow)
            } else {
                text_pushes(g, lens, texts, modulus, p + 1, count, len + 1, grown(len, cap, 1))
            },
        }
    }
}

/// The count read at `at`, modulo `m`.
pub open spec fn count_at(g: Seq<u8>, at: int, m: nat) -> nat {
    (usize_at(g, at) as nat) % m
}


/// Operation 0: a `SmallVec<[i32; 15]>` with a read capacity, read values
/// pushed; report them and whether it spilled, clear, report the length.
pub open spec fn op_0(g: Seq<u8>, b: int) -> Outcome {
    if !fits(g, b, 8) {
        halted(Halt::InputExhausted)
    } else {
        let n0 = usize_at(g, b) as nat;
        if exact_growth_overflows(0, 15, n0, 4) {
            halted(Halt::CapacityOverflow)
        } else if !fits(g, b + 8, 8) {
            halted(Halt::InputExhausted)
        } else {
            let count = count_at(g, b + 8, 65);
            if !reads_ok(g, b + 16, 4, 4, count) {
                halted(Halt::InputExhausted)
            } else {
                let cap = pushes_cap(0, if n0 <= 15 { 15 } else { n0 }, count);
                done(seq![Expect::Ints(i32s_at(g, b + 16, 4, count)), Expect::Spilled(cap > 15), Expect::Len(0)])
            }
        }
    }
}

/// Operation 2: copies of a read `u64` in a `SmallVec<[u64; 12]>`; report
/// the capacity before and after `shrink_to_fit`. Where more copies than fit
/// inline are asked for, the vector takes over a `Vec` of capacity `c`.
pub open spec fn op_2(g: Seq<u8>, b: int, c: nat) -> Outcome {
    if !fits(g, b, 8) || !fits(g, b + 8, 8) {
        halted(Halt::InputExhausted)
    } else {
        let n = count_at(g, b + 8, 65);
        let before = if n <= 12 { 12 } else { open_cap(c, n, 12, vstd::layout::size_of::<u64>()) };
        let after = if before == 12 || n <= 12 { 12 } else { n };
        done(seq![Expect::CapacityChange(before, after)])
    }
}

/// Operation 3: read flags pushed to a `SmallVec<[bool; 18]>`; drain a read
/// range and report its first flag.
pub open spec fn op_3(g: Seq<u8>, b: int) -> Outcome {
    if !fits(g, b, 8) {
        halted(Halt::InputExhausted)
    } else {
        let count = count_at(g, b, 65);
        if !reads_ok(g, b + 8, 1, 1, count) || !fits(g, b + 16, 8) || !fits(g, b + 24, 8) {
            halted(Halt::InputExhausted)
        } else {
            let start = usize_at(g, b + 16) as int;
            let end = usize_at(g, b + 24) as int;
            if !(start <= end && end <= count) {
                halted(Halt::OutOfRange)
            } else if start < end {
                done(seq![Expect::Flag(g[b + 8 + start] % 2 == 0)])
            } else {
                done(Seq::empty())
            }
        }
    }
}

/// Operation 4: read characters copied into a `SmallVec<[char; 25]>`;
/// report its addresses, clear, report that it is empty.
pub open spec fn op_4(g: Seq<u8>, b: int) -> Outcome {
    if !fits(g, b, 8) {
        halted(Halt::InputExhausted)
    } else {
        match chars_halt(g, b + 8, 0, count_at(g, b, 65)) {
            Some(h) => halted(h),
            None => done(seq![Expect::Ptr, Expect::MutPtr, Expect::Empty(true)]),
        }
    }
}

/// Operation 5: read texts pushed to a `SmallVec<[String; 14]>` with a read
/// capacity; report whether it spilled, shrink, clear, report the length.
pub open spec fn op_5(g: Seq<u8>, b: int) -> Outcome {
    if !fits(g, b, 8) {
        halted(Halt::InputExhausted)
    } else {
        let n0 = usize_at(g, b) as nat;
        if exact_growth_overflows(0, 14, n0, text_size()) {
            halted(Halt::CapacityOverflow)
        } else if !fits(g, b + 8, 8) {
            halted(Halt::InputExhausted)
        } else {
            match text_pushes(g, b + 16, b + 24, 20, 0, count_at(g, b + 8, 10), 0, if n0 <= 14 { 14 } else { n0 }) {
                Err(h) => halted(h),
                Ok(cap) => done(seq![Expect::SpilledNote(cap > 14), Expect::LengthAfterClear(0)]),
            }
        }
    }
}

/// Operation 6: read bytes collected into a `SmallVec<[u8; 22]>`; report
/// them, then reserve a read amount.
pub open spec fn op_6(g: Seq<u8>, b: int) -> Outcome {
    if !fits(g, b, 8) {
        halted(Halt::InputExhausted)
    } else {
        let count = count_at(g, b, 65);
        if !reads_ok(g, b + 8, 1, 1, count) {
            halted(Halt::InputExhausted)
        } else {
            let shown = seq![Expect::Bytes(g.subrange(b + 8, b + 8 + count))];
            if !fits(g, b + 16, 8) {
                (shown, Some(Halt::InputExhausted))
            } else if growth_overflows(count, grown(0, 22, count), usize_at(g, b + 16) as nat, 1) {
                (shown, Some(Halt::CapacityOverflow))
            } else {
                done(shown)
            }
        }
    }
}

/// The sixteen `i16` values read at `b`, two bytes apart.
pub open spec fn shorts_at(g: Seq<u8>, b: int) -> Seq<i16> {
    Seq::new(16, |j: int| mixed_i16(g, b + 2 * j) as i16)
}

/// Operation 7: a `SmallVec<[i16; 16]>` of sixteen read values; report them
/// and their order against a clone.
pub open spec fn op_7(g: Seq<u8>, b: int) -> Outcome {
    if !reads_ok(g, b, 2, 2, 16) {
        halted(Halt::InputExhausted)
    } else {
        done(seq![Expect::Shorts(shorts_at(g, b)), Expect::Compared(Order::Equal)])
    }
}

/// Operation 9: read values pushed to a `SmallVec<[isize; 11]>`; reserve a
/// read amount, resize with a read value to a read length, clear, report the
/// capacity.
pub open spec fn op_9(g: Seq<u8>, b: int) -> Outcome {
    let z = vstd::layout::size_of::<isize>();
    if !fits(g, b, 8) {
        halted(Halt::InputExhausted)
    } else {
        let count = count_at(g, b, 65);
        if !reads_ok(g, b + 8, 8, 8, count) || !fits(g, b + 16, 8) {
            halted(Halt::InputExhausted)
        } else {
            let cap1 = pushes_cap(0, 11, count);
            let r = usize_at(g, b + 16) as nat;
            if growth_overflows(count, cap1, r, z) {
                halted(Halt::CapacityOverflow)
            } else if !fits(g, b + 24, 8) {
                halted(Halt::InputExhausted)
            } else {
                let cap2 = grown(count, cap1, r);
                let len = usize_at(g, b + 24) as nat;
                if len > count && growth_overflows(count, cap2, (len - count) as nat, z) {
                    halted(Halt::CapacityOverflow)
                } else if len > count && !fits(g, b + 32, 8) {
                    halted(Halt::InputExhausted)
                } else {
                    let cap3 = if len > count { grown(count, cap2, (len - count) as nat) } else { cap2 };
                    done(seq![Expect::CapacityAfterClear(cap3)])
                }
            }
        }
    }
}

/// Operation 10: read values pushed to a `SmallVec<[u32; 19]>`; pop and
/// report, then swap-remove at a read index and report.
pub open spec fn op_10(g: Seq<u8>, b: int) -> Outcome {
    if !fits(g, b, 8) {
        halted(Halt::InputExhausted)
    } else {
        let count = count_at(g, b, 65);
        if !reads_ok(g, b + 8, 4, 4, count) {
            halted(Halt::InputExhausted)
        } else {
            let vals = u32s_at(g, b + 8, 4, count);
            if count == 0 {
                done(Seq::empty())
            } else if count == 1 {
                done(seq![Expect::Popped(vals.last())])
            } else if !fits(g, b + 16, 8) {
                (seq![Expect::Popped(vals.last())], Some(Halt::InputExhausted))
            } else {
                let i = (usize_at(g, b + 16) as nat % (count - 1) as nat) as int;
                done(seq![Expect::Popped(vals.last()), Expect::Removed(vals[i])])
            }
        }
    }
}

/// Operations that only read: `count` values of `width` bytes at `start`,
/// `stride` apart, the count itself being read at `b` modulo 65.
pub open spec fn op_pushes(g: Seq<u8>, b: int, start: int, stride: int, width: int) -> Outcome {
    if !fits(g, b, 8) {
        halted(Halt::InputExhausted)
    } else if !reads_ok(g, start, stride, width, count_at(g, b, 65)) {
        halted(Halt::InputExhausted)
    } else {
        done(Seq::empty())
    }
}

/// Operation 11: read values pushed to a `SmallVec<[i8; 17]>`; truncate to a
/// read length, keep the even ones, clear.
pub open spec fn op_11(g: Seq<u8>, b: int) -> Outcome {
    let s = op_pushes(g, b, b + 8, 1, 1);
    if s.1 is Some {
        s
    } else if !fits(g, b + 16, 8) {
        halted(Halt::InputExhausted)
    } else {
        done(Seq::empty())
    }
}

/// Operation 12: read values pushed to two `SmallVec<[u16; 21]>`; append the
/// second to the first and report whether they are then equal.
pub open spec fn op_12(g: Seq<u8>, b: int) -> Outcome {
    if !fits(g, b, 8) {
        halted(Halt::InputExhausted)
    } else {
        let c1 = count_at(g, b, 65);
        if !reads_ok(g, b + 8, 2, 2, c1) || !fits(g, b + 16, 8) {
            halted(Halt::InputExhausted)
        } else {
            let c2 = count_at(g, b + 16, 10);
            if !reads_ok(g, b + 24, 2, 2, c2) {
                halted(Halt::InputExhausted)
            } else {
                done(seq![Expect::Equal(c1 + c2 == 0)])
            }
        }
    }
}

/// Operation 13: read values pushed to a `SmallVec<[i64; 23]>`; insert a
/// read value at a read position where it is in range, and report the length
/// of the `Vec` it becomes.
pub open spec fn op_13(g: Seq<u8>, b: int) -> Outcome {
    if !fits(g, b + 16, 8) {
        halted(Halt::InputExhausted)
    } else {
        let count = count_at(g, b + 16, 65);
        if !reads_ok(g, b + 24, 8, 8, count) {
            halted(Halt::InputExhausted)
        } else {
            let len = if usize_at(g, b) <= count { count + 1 } else { count };
            done(seq![Expect::VecLength(len)])
        }
    }
}

/// Operation 16: read texts pushed to a `SmallVec<[String; 12]>` with a read
/// capacity; report the length of the boxed slice it becomes.
pub open spec fn op_16(g: Seq<u8>, b: int) -> Outcome {
    if !fits(g, b, 8) {
        halted(Halt::InputExhausted)
    } else {
        let n0 = usize_at(g, b) as nat;
        if exact_growth_overflows(0, 12, n0, text_size()) {
            halted(Halt::CapacityOverflow)
        } else if !fits(g, b + 8, 8) {
            halted(Halt::InputExhausted)
        } else {
            let count = count_at(g, b + 8, 10);
            match text_pushes(g, b + 16, b + 24, 15, 0, count, 0, if n0 <= 12 { 12 } else { n0 }) {
                Err(h) => halted(h),
                Ok(_) => done(seq![Expect::BoxedLen(count)]),
            }
        }
    }
}

/// Operation 17: read bytes pushed to a `SmallVec<[u8; 32]>`; remove at a
/// read index and report.
pub open spec fn op_17(g: Seq<u8>, b: int) -> Outcome {
    if !fits(g, b, 8) {
        halted(Halt::InputExhausted)
    } else {
        let count = count_at(g, b, 65);
        if !reads_ok(g, b + 8, 1, 1, count) {
            halted(Halt::InputExhausted)
        } else if count == 0 {
            done(Seq::empty())
        } else if !fits(g, b + 16, 8) {
            halted(Halt::InputExhausted)
        } else {
            done(seq![Expect::RemovedElement(g[b + 8 + (usize_at(g, b + 16) as nat % count) as int])])
        }
    }
}

/// Operation 18: read characters pushed to a `SmallVec<[char; 15]>`; insert
/// two read characters at a read position where it is in range.
pub open spec fn op_18(g: Seq<u8>, b: int) -> Outcome {
    if !fits(g, b, 8) {
        halted(Halt::InputExhausted)
    } else {
        let count = count_at(g, b, 65);
        match chars_halt(g, b + 8, 0, count) {
            Some(h) => halted(h),
            None => if !fits(g, b + 16, 8) {
                halted(Halt::InputExhausted)
            } else if usize_at(g, b + 16) > count {
                done(Seq::empty())
            } else {
                match char_halt(g, b + 24) {
                    Some(h) => halted(h),
                    None => match char_halt(g, b + 28) {
                        Some(h) => halted(h),
                        None => done(Seq::empty()),
                    },
                }
            },
        }
    }
}

/// Operation 19: read flags pushed to a `SmallVec<[bool; 20]>`; resize to a
/// read length with a read flag.
pub open spec fn op_19(g: Seq<u8>, b: int) -> Outcome {
    let s = op_pushes(g, b, b + 8, 1, 1);
    if s.1 is Some {
        s
    } else if !fits(g, b + 16, 8) || !fits(g, b + 24, 1) {
        halted(Halt::InputExhausted)
    } else {
        let count = count_at(g, b, 65);
        let len = usize_at(g, b + 16) as nat;
        if len > count && growth_overflows(count, pushes_cap(0, 20, count), (len - count) as nat, 1) {
            halted(Halt::CapacityOverflow)
        } else {
            done(Seq::empty())
        }
    }
}

/// Operation 20: read values pushed to a `SmallVec<[u64; 11]>`; insert five
/// more read values at a read position where it is in range.
pub open spec fn op_20(g: Seq<u8>, b: int) -> Outcome {
    let s = op_pushes(g, b, b + 8, 8, 8);
    if s.1 is Some {
        s
    } else if !reads_ok(g, b + 16, 8, 8, 5) || !fits(g, b + 56, 8) {
        halted(Halt::InputExhausted)
    } else {
        done(Seq::empty())
    }
}

/// Operation 23: twenty read `u16` values copied into a
/// `SmallVec<[u16; 25]>`, then collected; report how many.
pub open spec fn op_23(g: Seq<u8>, b: int) -> Outcome {
    if !reads_ok(g, b, 2, 2, 20) {
        halted(Halt::InputExhausted)
    } else {
        done(seq![Expect::CollectedLen(20)])
    }
}

/// Operation 26: a `SmallVec<[bool; 30]>` reserving exactly a read amount,
/// then read flags pushed.
pub open spec fn op_26(g: Seq<u8>, b: int) -> Outcome {
    if !fits(g, b, 8) {
        halted(Halt::InputExhausted)
    } else if exact_growth_overflows(0, 30, usize_at(g, b) as nat, 1) {
        halted(Halt::CapacityOverflow)
    } else if !fits(g, b + 8, 8) || !reads_ok(g, b + 16, 1, 1, count_at(g, b + 8, 65)) {
        halted(Halt::InputExhausted)
    } else {
        done(Seq::empty())
    }
}

/// Operation 27: a `SmallVec<[u32; 20]>` of twenty read values; report the
/// first five.
pub open spec fn op_27(g: Seq<u8>, b: int) -> Outcome {
    if !reads_ok(g, b, 4, 4, 20) {
        halted(Halt::InputExhausted)
    } else {
        done(seq![Expect::Words(u32s_at(g, b, 4, 5))])
    }
}

/// Operation 28: read characters pushed to a `SmallVec<[char; 18]>`; report
/// the length seen through `AsMut`.
pub open spec fn op_28(g: Seq<u8>, b: int) -> Outcome {
    if !fits(g, b, 8) {
        halted(Halt::InputExhausted)
    } else {
        let count = count_at(g, b, 65);
        match chars_halt(g, b + 8, 0, count) {
            Some(h) => halted(h),
            None => done(seq![Expect::Len(count)]),
        }
    }
}

/// Operation 29: a `SmallVec<[isize; 30]>` reserving exactly a read amount,
/// read values pushed; report the array size where the vector gives up its
/// array (inline and full).
pub open spec fn op_29(g: Seq<u8>, b: int) -> Outcome {
    let z = vstd::layout::size_of::<isize>();
    if !fits(g, b, 8) {
        halted(Halt::InputExhausted)
    } else {
        let r = usize_at(g, b) as nat;
        if exact_growth_overflows(0, 30, r, z) {
            halted(Halt::CapacityOverflow)
        } else if !fits(g, b + 8, 8) {
            halted(Halt::InputExhausted)
        } else {
            let count = count_at(g, b + 8, 65);
            if !reads_ok(g, b + 16, 8, 8, count) {
                halted(Halt::InputExhausted)
            } else {
                let cap = pushes_cap(0, exact_grown(0, 30, r), count);
                if cap <= 30 && count == 30 {
                    done(seq![Expect::ArraySize(30)])
                } else {
                    done(Seq::empty())
                }
            }
        }
    }
}

/// Whether operation `op` works on floating-point items.
pub open spec fn is_float_op(op: u8) -> bool {
    op == 1 || op == 8 || op == 15 || op == 22 || op == 24
}

/// What operation `op`, at position `i` of the run (arguments from
/// `16 + 8 * i`), is owed, the open capacity of operation 2 being `c`.
#[verifier::opaque]
pub open spec fn op_step(g: Seq<u8>, i: nat, op: u8, c: nat) -> Outcome {
    let b = 16 + 8 * i as int;
    if is_float_op(op) {
        done(seq![Expect::FloatOp(op, i)])
    } else if op == 0 {
        op_0(g, b)
    } else if op == 2 {
        op_2(g, b, c)
    } else if op == 3 {
        op_3(g, b)
    } else if op == 4 {
        op_4(g, b)
    } else if op == 5 {
        op_5(g, b)
    } else if op == 6 {
        op_6(g, b)
    } else if op == 7 {
        op_7(g, b)
    } else if op == 9 {
        op_9(g, b)
    } else if op == 10 {
        op_10(g, b)
    } else if op == 11 {
        op_11(g, b)
    } else if op == 12 {
        op_12(g, b)
    } else if op == 13 {
        op_13(g, b)
    } else if op == 14 {
        op_pushes(g, b, b + 8, 8, 8)
    } else if op == 16 {
        op_16(g, b)
    } else if op == 17 {
        op_17(g, b)
    } else if op == 18 {
        op_18(g, b)
    } else if op == 19 {
        op_19(g, b)
    } else if op == 20 {
        op_20(g, b)
    } else if op == 21 {
        op_pushes(g, b, b + 8, 4, 4)
    } else if op == 23 {
        op_23(g, b)
    } else if op == 25 {
        op_pushes(g, b, b + 8, 16, 16)
    } else if op == 26 {
        op_26(g, b)
    } else if op == 27 {
        op_27(g, b)
    } else if op == 28 {
        op_28(g, b)
    } else {
        op_29(g, b)
    }
}

/// What operations `k` up to `count` owe, in turn, stopping at the first
/// that halts; the open capacity of operation `k` is `cs[0]`, of the next
/// `cs[1]`, and so on.
pub open spec fn ops_from(g: Seq<u8>, k: nat, count: nat, cs: Seq<nat>) -> Outcome
    decreases count - k,
{
    if k >= count {
        (Seq::empty(), None)
    } else if !fits(g, 8 + k as int, 1) {
        halted(Halt::InputExhausted)
    } else {
        let s = op_step(g, k, g[8 + k as int] % 30, cs[0]);
        if s.1 is Some {
            s
        } else {
            let rest = ops_from(g, k + 1, count, cs.drop_first());
            (s.0 + rest.0, rest.1)
        }
    }
}

/// What a whole run is owed, the open capacities being `cs`. Inputs shorter
/// than 500 bytes are ignored.
pub open spec fn script_outcome(input_len: nat, g: Seq<u8>, cs: Seq<nat>) -> Outcome {
    if input_len < 500 {
        (Seq::empty(), None)
    } else if !fits(g, 0, 8) {
        halted(Halt::InputExhausted)
    } else {
        ops_from(g, 0, count_at(g, 0, 25), cs)
    }
}

/// Operation 0 (see `op_0`).
#[verifier::loop_isolation(false)]
fn run_op_0(g: &[u8], b: usize) -> (r: (Vec<Event>, Option<Halt>))
    requires
        b <= 256,
    ensures
        events_match(r.0@, op_0(g@, b as int).0),
        r.1 == op_0(g@, b as int).1,
{
    let n0 = match read_usize(g, b) {
        Some(x) => x,
        None => return (Vec::new(), Some(Halt::InputExhausted)),
    };
    if exact_growth_overflows_exec(0, 15, n0, 4) {
        return (Vec::new(), Some(Halt::CapacityOverflow));
    }
    let mut v = small_vec_i32n15_with_capacity(n0);
    let count = match read_usize(g, b + 8) {
        Some(x) => x % 65,
        None => return (Vec::new(), Some(Halt::InputExhausted)),
    };
    let ghost cap0 = sv_i32n15_cap(v);
    let mut j: usize = 0;
    while j < count
        invariant
            j <= count <= 64,
            b <= 256,
            v.wf(),
            sv_i32n15_items(v).len() == j,
            sv_i32n15_cap(v) == pushes_cap(0, cap0, j as nat),
            forall|k: int| 0 <= k < j ==> sv_i32n15_items(v)[k] == i32_at(g@, b + 16 + 4 * k),
            j > 0 ==> fits(g@, b + 16 + 4 * (j - 1), 4),
        decreases count - j,
    {
        let x = match read_i32(g, b + 16 + 4 * j) {
            Some(x) => x,
            None => {
                assert(4 * j <= 4 * (count - 1)) by (nonlinear_arith)
                    requires
                        j < count,
                ;
                return (Vec::new(), Some(Halt::InputExhausted));
            },
        };
        proof {
            broadcast use vstd::layout::layout_of_primitives;
            lemma_small_push(j as nat, sv_i32n15_cap(v), vstd::layout::size_of::<i32>());
        }
        small_vec_i32n15_push(&mut v, x);
        j = j + 1;
    }
    let ghost pushed = sv_i32n15_items(v);
    assert(pushed =~= i32s_at(g@, b + 16, 4, count as nat));
    let mut events: Vec<Event> = Vec::new();
    let items = small_vec_i32n15_as_slice(&v);
    events.push(Event::Ints(vstd::slice::slice_to_vec(items)));
    events.push(Event::Spilled(small_vec_i32n15_spilled(&v)));
    small_vec_i32n15_clear(&mut v);
    events.push(Event::Len(small_vec_i32n15_len(&v)));
    proof {
        let x = op_0(g@, b as int).0;
        assert(forall|i: int| 0 <= i < events@.len() ==> #[trigger] event_matches(events@[i], x[i]));
    }
    (events, None)
}

/// Operation 2 (see `op_2`).
#[verifier::loop_isolation(false)]
fn run_op_2(g: &[u8], b: usize) -> (r: (Vec<Event>, Option<Halt>, Ghost<nat>))
    requires
        b <= 256,
    ensures
        events_match(r.0@, op_2(g@, b as int, r.2@).0),
        r.1 == op_2(g@, b as int, r.2@).1,
{
    let elem = match read_u64(g, b) {
        Some(x) => x,
        None => return (Vec::new(), Some(Halt::InputExhausted), Ghost(0)),
    };
    let n = match read_usize(g, b + 8) {
        Some(x) => x % 65,
        None => return (Vec::new(), Some(Halt::InputExhausted), Ghost(0)),
    };
    proof {
        broadcast use vstd::layout::layout_of_primitives;
    }
    let mut v = u64n12::small_vec_u64n12_from_elem(elem, n);
    let ghost c = u64n12::sv_u64n12_cap(v);
    let before = u64n12::small_vec_u64n12_capacity(&v);
    u64n12::small_vec_u64n12_shrink_to_fit(&mut v);
    let after = u64n12::small_vec_u64n12_capacity(&v);
    let mut events: Vec<Event> = Vec::new();
    events.push(Event::CapacityChange(before, after));
    u64n12::small_vec_u64n12_clear(&mut v);
    proof {
        let x = op_2(g@, b as int, c).0;
        assert(forall|i: int| 0 <= i < events@.len() ==> #[trigger] event_matches(events@[i], x[i]));
    }
    (events, None, Ghost(c))
}

/// Operation 3 (see `op_3`).
#[verifier::loop_isolation(false)]
fn run_op_3(g: &[u8], b: usize) -> (r: (Vec<Event>, Option<Halt>))
    requires
        b <= 256,
    ensures
        events_match(r.0@, op_3(g@, b as int).0),
        r.1 == op_3(g@, b as int).1,
{
    let count = match read_usize(g, b) {
        Some(x) => x % 65,
        None => return (Vec::new(), Some(Halt::InputExhausted)),
    };
    let mut v = booln18::small_vec_booln18_new();
    let mut j: usize = 0;
    while j < count
        invariant
            j <= count <= 64,
            b <= 256,
            v.wf(),
            booln18::sv_booln18_items(v).len() == j,
            forall|k: int| 0 <= k < j ==> booln18::sv_booln18_items(v)[k] == (g@[b + 8 + k] % 2 == 0),
            j > 0 ==> fits(g@, b + 8 + 1 * (j - 1), 1),
        decreases count - j,
    {
        let x = match read_bool(g, b + 8 + 1 * j) {
            Some(x) => x,
            None => {
                assert(1 * j <= 1 * (count - 1)) by (nonlinear_arith)
                    requires
                        j < count,
                ;
                return (Vec::new(), Some(Halt::InputExhausted));
            },
        };
        proof {
            broadcast use vstd::layout::layout_of_primitives;
            lemma_small_push(j as nat, booln18::sv_booln18_cap(v), vstd::layout::size_of::<bool>());
        }
        booln18::small_vec_booln18_push(&mut v, x);
        j = j + 1;
    }
    let start = match read_usize(g, b + 16) {
        Some(x) => x,
        None => return (Vec::new(), Some(Halt::InputExhausted)),
    };
    let end = match read_usize(g, b + 24) {
        Some(x) => x,
        None => return (Vec::new(), Some(Halt::InputExhausted)),
    };
    if !(start <= end && end <= count) {
        return (Vec::new(), Some(Halt::OutOfRange));
    }
    let drained = booln18::small_vec_booln18_drain(&mut v, start, end);
    let mut events: Vec<Event> = Vec::new();
    if drained.len() > 0 {
        events.push(Event::Flag(drained[0]));
    }
    booln18::small_vec_booln18_clear(&mut v);
    proof {
        let x = op_3(g@, b as int).0;
        assert(forall|i: int| 0 <= i < events@.len() ==> #[trigger] event_matches(events@[i], x[i]));
    }
    (events, None)
}

/// Operation 4 (see `op_4`).
#[verifier::loop_isolation(false)]
fn run_op_4(g: &[u8], b: usize) -> (r: (Vec<Event>, Option<Halt>))
    requires
        b <= 256,
    ensures
        events_match(r.0@, op_4(g@, b as int).0),
        r.1 == op_4(g@, b as int).1,
{
    let count = match read_usize(g, b) {
        Some(x) => x % 65,
        None => return (Vec::new(), Some(Halt::InputExhausted)),
    };
    let mut chars: Vec<char> = Vec::new();
    let mut j: usize = 0;
    while j < count
        invariant
            j <= count <= 64,
            b <= 256,
            chars@.len() == j,
            chars_halt(g@, b + 8, 0, count as nat) == chars_halt(g@, b + 8, j as nat, count as nat),
        decreases count - j,
    {
        let x = match read_char(g, b + 8 + 4 * j) {
            Ok(x) => x,
            Err(h) => return (Vec::new(), Some(h)),
        };
        chars.push(x);
        j = j + 1;
    }
    let mut v = charn25::small_vec_charn25_from_slice(chars.as_slice());
    let mut events: Vec<Event> = Vec::new();
    events.push(Event::Ptr(charn25::small_vec_charn25_as_ptr(&v)));
    events.push(Event::MutPtr(charn25::small_vec_charn25_as_mut_ptr(&mut v)));
    charn25::small_vec_charn25_clear(&mut v);
    events.push(Event::Empty(charn25::small_vec_charn25_is_empty(&v)));
    proof {
        let x = op_4(g@, b as int).0;
        assert(forall|i: int| 0 <= i < events@.len() ==> #[trigger] event_matches(events@[i], x[i]));
    }
    (events, None)
}

/// Operation 5 (see `op_5`).
#[verifier::loop_isolation(false)]
fn run_op_5(g: &[u8], b: usize) -> (r: (Vec<Event>, Option<Halt>))
    requires
        b <= 256,
    ensures
        events_match(r.0@, op_5(g@, b as int).0),
        r.1 == op_5(g@, b as int).1,
{
    let n0 = match read_usize(g, b) {
        Some(x) => x,
        None => return (Vec::new(), Some(Halt::InputExhausted)),
    };
    let size = core::mem::size_of::<String>();
    if exact_growth_overflows_exec(0, 14, n0, size) {
        return (Vec::new(), Some(Halt::CapacityOverflow));
    }
    let mut v = stringn14::small_vec_stringn14_with_capacity(n0);
    let count = match read_usize(g, b + 8) {
        Some(x) => x % 10,
        None => return (Vec::new(), Some(Halt::InputExhausted)),
    };
    let ghost cap0 = stringn14::sv_stringn14_cap(v);
    let mut j: usize = 0;
    while j < count
        invariant
            j <= count <= 9,
            b <= 256,
            v.wf(),
            stringn14::sv_stringn14_items(v).len() == j,
            text_pushes(g@, b + 16, b + 24, 20, 0, count as nat, 0, cap0) == text_pushes(
                g@,
                b + 16,
                b + 24,
                20,
                j as nat,
                count as nat,
                j as nat,
                stringn14::sv_stringn14_cap(v),
            ),
        decreases count - j,
    {
        let len = match read_usize(g, b + 16 + 8 * j) {
            Some(x) => x % 20,
            None => return (Vec::new(), Some(Halt::InputExhausted)),
        };
        let text = match read_text(g, b + 24 + 8 * j, len) {
            Ok(t) => t,
            Err(h) => return (Vec::new(), Some(h)),
        };
        if growth_overflows_exec(stringn14::small_vec_stringn14_len(&v), stringn14::small_vec_stringn14_capacity(&v), 1, size) {
            return (Vec::new(), Some(Halt::CapacityOverflow));
        }
        stringn14::small_vec_stringn14_push(&mut v, text);
        j = j + 1;
    }
    let mut events: Vec<Event> = Vec::new();
    events.push(Event::SpilledNote(stringn14::small_vec_stringn14_spilled(&v)));
    stringn14::small_vec_stringn14_shrink_to_fit(&mut v);
    stringn14::small_vec_stringn14_clear(&mut v);
    events.push(Event::LengthAfterClear(stringn14::small_vec_stringn14_len(&v)));
    proof {
        let x = op_5(g@, b as int).0;
        assert(forall|i: int| 0 <= i < events@.len() ==> #[trigger] event_matches(events@[i], x[i]));
    }
    (events, None)
}

/// Operation 16 (see `op_16`).
#[verifier::loop_isolation(false)]
fn run_op_16(g: &[u8], b: usize) -> (r: (Vec<Event>, Option<Halt>))
    requires
        b <= 256,
    ensures
        events_match(r.0@, op_16(g@, b as int).0),
        r.1 == op_16(g@, b as int).1,
{
    let n0 = match read_usize(g, b) {
        Some(x) => x,
        None => return (Vec::new(), Some(Halt::InputExhausted)),
    };
    let size = core::mem::size_of::<String>();
    if exact_growth_overflows_exec(0, 12, n0, size) {
        return (Vec::new(), Some(Halt::CapacityOverflow));
    }
    let mut v = small_vec_string12_with_capacity(n0);
    let count = match read_usize(g, b + 8) {
        Some(x) => x % 10,
        None => return (Vec::new(), Some(Halt::InputExhausted)),
    };
    let ghost cap0 = sv_str12_cap(v);
    let mut j: usize = 0;
    while j < count
        invariant
            j <= count <= 9,
            b <= 256,
            v.wf(),
            sv_str12_items(v).len() == j,
            text_pushes(g@, b + 16, b + 24, 15, 0, count as nat, 0, cap0) == text_pushes(
                g@,
                b + 16,
                b + 24,
                15,
                j as nat,
                count as nat,
                j as nat,
                sv_str12_cap(v),
            ),
        decreases count - j,
    {
        let len = match read_usize(g, b + 16 + 8 * j) {
            Some(x) => x % 15,
            None => return (Vec::new(), Some(Halt::InputExhausted)),
        };
        let text = match read_text(g, b + 24 + 8 * j, len) {
            Ok(t) => t,
            Err(h) => return (Vec::new(), Some(h)),
        };
        if growth_overflows_exec(small_vec_string12_len(&v), small_vec_string12_capacity(&v), 1, size) {
            return (Vec::new(), Some(Halt::CapacityOverflow));
        }
        small_vec_string12_push(&mut v, text);
        j = j + 1;
    }
    let boxed = small_vec_string12_into_boxed_slice(v);
    proof {
        assert(texts(boxed@).len() == boxed@.len());
    }
    let mut events: Vec<Event> = Vec::new();
    events.push(Event::BoxedLen(boxed.len()));
    proof {
        let x = op_16(g@, b as int).0;
        assert(forall|i: int| 0 <= i < events@.len() ==> #[trigger] event_matches(events@[i], x[i]));
    }
    (events, None)
}

/// Operation 6 (see `op_6`).
#[verifier::loop_isolation(false)]
fn run_op_6(g: &[u8], b: usize) -> (r: (Vec<Event>, Option<Halt>))
    requires
        b <= 256,
    ensures
        events_match(r.0@, op_6(g@, b as int).0),
        r.1 == op_6(g@, b as int).1,
{
    let count = match read_usize(g, b) {
        Some(x) => x % 65,
        None => return (Vec::new(), Some(Halt::InputExhausted)),
    };
    let mut bytes: Vec<u8> = Vec::new();
    let mut j: usize = 0;
    while j < count
        invariant
            j <= count <= 64,
            b <= 256,
            bytes@.len() == j,
            forall|k: int| 0 <= k < j ==> bytes@[k] == g@[b + 8 + k],
            j > 0 ==> fits(g@, b + 8 + (j - 1), 1),
        decreases count - j,
    {
        let x = match read_u8(g, b + 8 + j) {
            Some(x) => x,
            None => return (Vec::new(), Some(Halt::InputExhausted)),
        };
        bytes.push(x);
        j = j + 1;
    }
    assert(bytes@ =~= g@.subrange(b + 8, b + 8 + count));
    proof {
        lemma_small_growth_sized(0, 22, count as nat, 1);
    }
    let mut v = u8n22::small_vec_u8n22_from_iter(bytes);
    let mut events: Vec<Event> = Vec::new();
    let items = u8n22::small_vec_u8n22_as_mut_slice(&mut v);
    events.push(Event::Bytes(vstd::slice::slice_to_vec(items)));
    let r = match read_usize(g, b + 16) {
        Some(x) => x,
        None => {
            proof {
        let x = op_6(g@, b as int).0;
        assert(forall|i: int| 0 <= i < events@.len() ==> #[trigger] event_matches(events@[i], x[i]));
    }
            return (events, Some(Halt::InputExhausted));
        },
    };
    if growth_overflows_exec(u8n22::small_vec_u8n22_len(&v), u8n22::small_vec_u8n22_capacity(&v), r, 1) {
    proof {
        let x = op_6(g@, b as int).0;
        assert(forall|i: int| 0 <= i < events@.len() ==> #[trigger] event_matches(events@[i], x[i]));
    }
        return (events, Some(Halt::CapacityOverflow));
    }
    u8n22::small_vec_u8n22_reserve(&mut v, r);
    u8n22::small_vec_u8n22_clear(&mut v);
    proof {
        let x = op_6(g@, b as int).0;
        assert(forall|i: int| 0 <= i < events@.len() ==> #[trigger] event_matches(events@[i], x[i]));
    }
    (events, None)
}

/// Operation 7 (see `op_7`).
#[verifier::loop_isolation(false)]
fn run_op_7(g: &[u8], b: usize) -> (r: (Vec<Event>, Option<Halt>))
    requires
        b <= 256,
    ensures
        events_match(r.0@, op_7(g@, b as int).0),
        r.1 == op_7(g@, b as int).1,
{
    let x0 = match read_i16(g, b + 0) {
        Some(x) => x,
        None => return (Vec::new(), Some(Halt::InputExhausted)),
    };
    let x1 = match read_i16(g, b + 2) {
        Some(x) => x,
        None => return (Vec::new(), Some(Halt::InputExhausted)),
    };
    let x2 = match read_i16(g, b + 4) {
        Some(x) => x,
        None => return (Vec::new(), Some(Halt::InputExhausted)),
    };
    let x3 = match read_i16(g, b + 6) {
        Some(x) => x,
        None => return (Vec::new(), Some(Halt::InputExhausted)),
    };
    let x4 = match read_i16(g, b + 8) {
        Some(x) => x,
        None => return (Vec::new(), Some(Halt::InputExhausted)),
    };
    let x5 = match read_i16(g, b + 10) {
        Some(x) => x,
        None => return (Vec::new(), Some(Halt::InputExhausted)),
    };
    let x6 = match read_i16(g, b + 12) {
        Some(x) => x,
        None => return (Vec::new(), Some(Halt::InputExhausted)),
    };
    let x7 = match read_i16(g, b + 14) {
        Some(x) => x,
        None => return (Vec::new(), Some(Halt::InputExhausted)),
    };
    let x8 = match read_i16(g, b + 16) {
        Some(x) => x,
        None => return (Vec::new(), Some(Halt::InputExhausted)),
    };
    let x9 = match read_i16(g, b + 18) {
        Some(x) => x,
        None => return (Vec::new(), Some(Halt::InputExhausted)),
    };
    let x10 = match read_i16(g, b + 20) {
        Some(x) => x,
        None => return (Vec::new(), Some(Halt::InputExhausted)),
    };
    let x11 = match read_i16(g, b + 22) {
        Some(x) => x,
        None => return (Vec::new(), Some(Halt::InputExhausted)),
    };
    let x12 = match read_i16(g, b + 24) {
        Some(x) => x,
        None => return (Vec::new(), Some(Halt::InputExhausted)),
    };
    let x13 = match read_i16(g, b + 26) {
        Some(x) => x,
        None => return (Vec::new(), Some(Halt::InputExhausted)),
    };
    let x14 = match read_i16(g, b + 28) {
        Some(x) => x,
        None => return (Vec::new(), Some(Halt::InputExhausted)),
    };
    let x15 = match read_i16(g, b + 30) {
        Some(x) => x,
        None => return (Vec::new(), Some(Halt::InputExhausted)),
    };
    let buf: [i16; 16] = [x0, x1, x2, x3, x4, x5, x6, x7, x8, x9, x10, x11, x12, x13, x14, x15];
    assert(buf@ =~= shorts_at(g@, b as int));
    let mut v = i16n16::small_vec_i16n16_from_buf(buf);
    let mut events: Vec<Event> = Vec::new();
    let items = i16n16::small_vec_i16n16_deref(&v);
    events.push(Event::Shorts(vstd::slice::slice_to_vec(items)));
    proof {
        broadcast use vstd::layout::layout_of_primitives;
        lemma_small_growth_sized(0, 16, 16, 2);
        law_lex_order_reflexive(i16n16::i16_ints(i16n16::sv_i16n16_items(v)));
    }
    let copy = i16n16::small_vec_i16n16_clone(&v);
    events.push(Event::Compared(i16n16::small_vec_i16n16_compare(&v, &copy)));
    i16n16::small_vec_i16n16_clear(&mut v);
    proof {
        let x = op_7(g@, b as int).0;
        assert(forall|i: int| 0 <= i < events@.len() ==> #[trigger] event_matches(events@[i], x[i]));
    }
    (events, None)
}

/// Operation 9 (see `op_9`).
#[verifier::loop_isolation(false)]
fn run_op_9(g: &[u8], b: usize) -> (r: (Vec<Event>, Option<Halt>))
    requires
        b <= 256,
    ensures
        events_match(r.0@, op_9(g@, b as int).0),
        r.1 == op_9(g@, b as int).1,
{
    let count = match read_usize(g, b) {
        Some(x) => x % 65,
        None => return (Vec::new(), Some(Halt::InputExhausted)),
    };
    let mut v = isizen11::small_vec_isizen11_new();
    let ghost cap0 = isizen11::sv_isizen11_cap(v);
    let mut j: usize = 0;
    while j < count
        invariant
            j <= count <= 64,
            b <= 256,
            v.wf(),
            isizen11::sv_isizen11_items(v).len() == j,
            isizen11::sv_isizen11_cap(v) == pushes_cap(0, cap0, j as nat),
            j > 0 ==> fits(g@, b + 8 + 8 * (j - 1), 8),
        decreases count - j,
    {
        let x = match read_isize(g, b + 8 + 8 * j) {
            Some(x) => x,
            None => {
                assert(8 * j <= 8 * (count - 1)) by (nonlinear_arith)
                    requires
                        j < count,
                ;
                return (Vec::new(), Some(Halt::InputExhausted));
            },
        };
        proof {
            broadcast use vstd::layout::layout_of_primitives;
            lemma_small_push(j as nat, isizen11::sv_isizen11_cap(v), vstd::layout::size_of::<isize>());
        }
        isizen11::small_vec_isizen11_push(&mut v, x);
        j = j + 1;
    }
    let r = match read_usize(g, b + 16) {
        Some(x) => x,
        None => return (Vec::new(), Some(Halt::InputExhausted)),
    };
    let size = core::mem::size_of::<isize>();
    if growth_overflows_exec(isizen11::small_vec_isizen11_len(&v), isizen11::small_vec_isizen11_capacity(&v), r, size) {
        return (Vec::new(), Some(Halt::CapacityOverflow));
    }
    isizen11::small_vec_isizen11_reserve(&mut v, r);
    let len = match read_usize(g, b + 24) {
        Some(x) => x,
        None => return (Vec::new(), Some(Halt::InputExhausted)),
    };
    let n = isizen11::small_vec_isizen11_len(&v);
    if len > n {
        if growth_overflows_exec(n, isizen11::small_vec_isizen11_capacity(&v), len - n, size) {
            return (Vec::new(), Some(Halt::CapacityOverflow));
        }
        if read_isize(g, b + 32).is_none() {
            return (Vec::new(), Some(Halt::InputExhausted));
        }
    }
    isizen11::small_vec_isizen11_resize_with_read(&mut v, len, g, b + 32);
    isizen11::small_vec_isizen11_clear(&mut v);
    let mut events: Vec<Event> = Vec::new();
    events.push(Event::CapacityAfterClear(isizen11::small_vec_isizen11_capacity(&v)));
    proof {
        let x = op_9(g@, b as int).0;
        assert(forall|i: int| 0 <= i < events@.len() ==> #[trigger] event_matches(events@[i], x[i]));
    }
    (events, None)
}

/// Operation 10 (see `op_10`).
#[verifier::loop_isolation(false)]
fn run_op_10(g: &[u8], b: usize) -> (r: (Vec<Event>, Option<Halt>))
    requires
        b <= 256,
    ensures
        events_match(r.0@, op_10(g@, b as int).0),
        r.1 == op_10(g@, b as int).1,
{
    let count = match read_usize(g, b) {
        Some(x) => x % 65,
        None => return (Vec::new(), Some(Halt::InputExhausted)),
    };
    let mut v = u32n19::small_vec_u32n19_new();
    let mut j: usize = 0;
    while j < count
        invariant
            j <= count <= 64,
            b <= 256,
            v.wf(),
            u32n19::sv_u32n19_items(v).len() == j,
            forall|k: int| 0 <= k < j ==> u32n19::sv_u32n19_items(v)[k] == u32_at(g@, b + 8 + 4 * k),
            j > 0 ==> fits(g@, b + 8 + 4 * (j - 1), 4),
        decreases count - j,
    {
        let x = match read_u32(g, b + 8 + 4 * j) {
            Some(x) => x,
            None => {
                assert(4 * j <= 4 * (count - 1)) by (nonlinear_arith)
                    requires
                        j < count,
                ;
                return (Vec::new(), Some(Halt::InputExhausted));
            },
        };
        proof {
            broadcast use vstd::layout::layout_of_primitives;
            lemma_small_push(j as nat, u32n19::sv_u32n19_cap(v), vstd::layout::size_of::<u32>());
        }
        u32n19::small_vec_u32n19_push(&mut v, x);
        j = j + 1;
    }
    let ghost vals = u32s_at(g@, b + 8, 4, count as nat);
    assert(u32n19::sv_u32n19_items(v) =~= vals);
    let mut events: Vec<Event> = Vec::new();
    if let Some(x) = u32n19::small_vec_u32n19_pop(&mut v) {
        events.push(Event::Popped(x));
    }
    if !u32n19::small_vec_u32n19_is_empty(&v) {
        let index = match read_usize(g, b + 16) {
            Some(x) => x,
            None => {
            proof {
                let x = op_10(g@, b as int).0;
                assert(forall|i: int| 0 <= i < events@.len() ==> #[trigger] event_matches(events@[i], x[i]));
            }
                return (events, Some(Halt::InputExhausted));
            },
        };
        let i = index % u32n19::small_vec_u32n19_len(&v);
        let x = u32n19::small_vec_u32n19_swap_remove(&mut v, i);
        events.push(Event::Removed(x));
    }
    u32n19::small_vec_u32n19_clear(&mut v);
    proof {
        let x = op_10(g@, b as int).0;
        assert(forall|i: int| 0 <= i < events@.len() ==> #[trigger] event_matches(events@[i], x[i]));
    }
    (events, None)
}

/// Operation 11 (see `op_11`).
#[verifier::loop_isolation(false)]
fn run_op_11(g: &[u8], b: usize) -> (r: (Vec<Event>, Option<Halt>))
    requires
        b <= 256,
    ensures
        events_match(r.0@, op_11(g@, b as int).0),
        r.1 == op_11(g@, b as int).1,
{
    let count = match read_usize(g, b) {
        Some(x) => x % 65,
        None => return (Vec::new(), Some(Halt::InputExhausted)),
    };
    let mut v = i8n17::small_vec_i8n17_new();
    let mut j: usize = 0;
    while j < count
        invariant
            j <= count <= 64,
            b <= 256,
            v.wf(),
            i8n17::sv_i8n17_items(v).len() == j,
            j > 0 ==> fits(g@, b + 8 + 1 * (j - 1), 1),
        decreases count - j,
    {
        let x = match read_i8(g, b + 8 + 1 * j) {
            Some(x) => x,
            None => {
                assert(1 * j <= 1 * (count - 1)) by (nonlinear_arith)
                    requires
                        j < count,
                ;
                return (Vec::new(), Some(Halt::InputExhausted));
            },
        };
        proof {
            broadcast use vstd::layout::layout_of_primitives;
            lemma_small_push(j as nat, i8n17::sv_i8n17_cap(v), vstd::layout::size_of::<i8>());
        }
        i8n17::small_vec_i8n17_push(&mut v, x);
        j = j + 1;
    }
    let t = match read_usize(g, b + 16) {
        Some(x) => x,
        None => return (Vec::new(), Some(Halt::InputExhausted)),
    };
    i8n17::small_vec_i8n17_truncate(&mut v, t);
    i8n17::small_vec_i8n17_retain_even(&mut v);
    i8n17::small_vec_i8n17_clear(&mut v);
    (Vec::new(), None)
}

/// Operation 12 (see `op_12`).
#[verifier::loop_isolation(false)]
fn run_op_12(g: &[u8], b: usize) -> (r: (Vec<Event>, Option<Halt>))
    requires
        b <= 256,
    ensures
        events_match(r.0@, op_12(g@, b as int).0),
        r.1 == op_12(g@, b as int).1,
{
    let c1 = match read_usize(g, b) {
        Some(x) => x % 65,
        None => return (Vec::new(), Some(Halt::InputExhausted)),
    };
    let mut v = u16n21::small_vec_u16n21_new();
    let mut j: usize = 0;
    while j < c1
        invariant
            j <= c1 <= 64,
            b <= 256,
            v.wf(),
            u16n21::sv_u16n21_items(v).len() == j,
            j > 0 ==> fits(g@, b + 8 + 2 * (j - 1), 2),
        decreases c1 - j,
    {
        let x = match read_u16(g, b + 8 + 2 * j) {
            Some(x) => x,
            None => {
                assert(2 * j <= 2 * (c1 - 1)) by (nonlinear_arith)
                    requires
                        j < c1,
                ;
                return (Vec::new(), Some(Halt::InputExhausted));
            },
        };
        proof {
            broadcast use vstd::layout::layout_of_primitives;
            lemma_small_push(j as nat, u16n21::sv_u16n21_cap(v), vstd::layout::size_of::<u16>());
        }
        u16n21::small_vec_u16n21_push(&mut v, x);
        j = j + 1;
    }
    let c2 = match read_usize(g, b + 16) {
        Some(x) => x % 10,
        None => return (Vec::new(), Some(Halt::InputExhausted)),
    };
    let mut other = u16n21::small_vec_u16n21_new();
    let mut j: usize = 0;
    while j < c2
        invariant
            j <= c2 <= 64,
            b <= 256,
            c1 <= 64,
            v.wf(),
            u16n21::sv_u16n21_items(v).len() == c1,
            other.wf(),
            u16n21::sv_u16n21_items(other).len() == j,
            j > 0 ==> fits(g@, b + 24 + 2 * (j - 1), 2),
        decreases c2 - j,
    {
        let x = match read_u16(g, b + 24 + 2 * j) {
            Some(x) => x,
            None => {
                assert(2 * j <= 2 * (c2 - 1)) by (nonlinear_arith)
                    requires
                        j < c2,
                ;
                return (Vec::new(), Some(Halt::InputExhausted));
            },
        };
        proof {
            broadcast use vstd::layout::layout_of_primitives;
            lemma_small_push(j as nat, u16n21::sv_u16n21_cap(other), vstd::layout::size_of::<u16>());
        }
        u16n21::small_vec_u16n21_push(&mut other, x);
        j = j + 1;
    }
    proof {
        broadcast use vstd::layout::layout_of_primitives;
        lemma_small_growth_sized(c1 as nat, u16n21::sv_u16n21_cap(v), c2 as nat, 2);
    }
    u16n21::small_vec_u16n21_append(&mut v, &mut other);
    proof {
        if c1 + c2 == 0 {
            assert(u16n21::sv_u16n21_items(v) =~= u16n21::sv_u16n21_items(other));
        } else {
            assert(u16n21::sv_u16n21_items(v).len() != u16n21::sv_u16n21_items(other).len());
        }
    }
    let mut events: Vec<Event> = Vec::new();
    events.push(Event::Equal(u16n21::small_vec_u16n21_eq(&v, &other)));
    u16n21::small_vec_u16n21_clear(&mut v);
    proof {
        let x = op_12(g@, b as int).0;
        assert(forall|i: int| 0 <= i < events@.len() ==> #[trigger] event_matches(events@[i], x[i]));
    }
    (events, None)
}

/// Operation 13 (see `op_13`).
#[verifier::loop_isolation(false)]
fn run_op_13(g: &[u8], b: usize) -> (r: (Vec<Event>, Option<Halt>))
    requires
        b <= 256,
    ensures
        events_match(r.0@, op_13(g@, b as int).0),
        r.1 == op_13(g@, b as int).1,
{
    let count = match read_usize(g, b + 16) {
        Some(x) => x % 65,
        None => return (Vec::new(), Some(Halt::InputExhausted)),
    };
    let mut v = i64n23::small_vec_i64n23_new();
    let mut j: usize = 0;
    while j < count
        invariant
            j <= count <= 64,
            b <= 256,
            v.wf(),
            i64n23::sv_i64n23_items(v).len() == j,
            j > 0 ==> fits(g@, b + 24 + 8 * (j - 1), 8),
        decreases count - j,
    {
        let x = match read_i64(g, b + 24 + 8 * j) {
            Some(x) => x,
            None => {
                assert(8 * j <= 8 * (count - 1)) by (nonlinear_arith)
                    requires
                        j < count,
                ;
                return (Vec::new(), Some(Halt::InputExhausted));
            },
        };
        proof {
            broadcast use vstd::layout::layout_of_primitives;
            lemma_small_push(j as nat, i64n23::sv_i64n23_cap(v), vstd::layout::size_of::<i64>());
        }
        i64n23::small_vec_i64n23_push(&mut v, x);
        j = j + 1;
    }
    let pos = match read_usize(g, b) {
        Some(x) => x,
        None => return (Vec::new(), Some(Halt::InputExhausted)),
    };
    let val = match read_i64(g, b + 8) {
        Some(x) => x,
        None => return (Vec::new(), Some(Halt::InputExhausted)),
    };
    if pos <= i64n23::small_vec_i64n23_len(&v) {
        proof {
            broadcast use vstd::layout::layout_of_primitives;
            lemma_small_push(count as nat, i64n23::sv_i64n23_cap(v), 8);
        }
        i64n23::small_vec_i64n23_insert(&mut v, pos, val);
    }
    let as_vec = i64n23::small_vec_i64n23_into_vec(v);
    let mut events: Vec<Event> = Vec::new();
    events.push(Event::VecLength(as_vec.len()));
    proof {
        let x = op_13(g@, b as int).0;
        assert(forall|i: int| 0 <= i < events@.len() ==> #[trigger] event_matches(events@[i], x[i]));
    }
    (events, None)
}

/// Operation 14 (see `op_pushes`).
#[verifier::loop_isolation(false)]
fn run_op_14(g: &[u8], b: usize) -> (r: (Vec<Event>, Option<Halt>))
    requires
        b <= 256,
    ensures
        events_match(r.0@, op_pushes(g@, b as int, b + 8, 8, 8).0),
        r.1 == op_pushes(g@, b as int, b + 8, 8, 8).1,
{
    let count = match read_usize(g, b) {
        Some(x) => x % 65,
        None => return (Vec::new(), Some(Halt::InputExhausted)),
    };
    let mut v = usizen26::small_vec_usizen26_new();
    let mut j: usize = 0;
    while j < count
        invariant
            j <= count <= 64,
            b <= 256,
            v.wf(),
            usizen26::sv_usizen26_items(v).len() == j,
            j > 0 ==> fits(g@, b + 8 + 8 * (j - 1), 8),
        decreases count - j,
    {
        let x = match read_usize(g, b + 8 + 8 * j) {
            Some(x) => x,
            None => {
                assert(8 * j <= 8 * (count - 1)) by (nonlinear_arith)
                    requires
                        j < count,
                ;
                return (Vec::new(), Some(Halt::InputExhausted));
            },
        };
        proof {
            broadcast use vstd::layout::layout_of_primitives;
            lemma_small_push(j as nat, usizen26::sv_usizen26_cap(v), vstd::layout::size_of::<usize>());
        }
        usizen26::small_vec_usizen26_push(&mut v, x);
        j = j + 1;
    }
    usizen26::small_vec_usizen26_dedup(&mut v);
    usizen26::small_vec_usizen26_shrink_to_fit(&mut v);
    usizen26::small_vec_usizen26_clear(&mut v);
    (Vec::new(), None)
}

/// Operation 17 (see `op_17`).
#[verifier::loop_isolation(false)]
fn run_op_17(g: &[u8], b: usize) -> (r: (Vec<Event>, Option<Halt>))
    requires
        b <= 256,
    ensures
        events_match(r.0@, op_17(g@, b as int).0),
        r.1 == op_17(g@, b as int).1,
{
    let count = match read_usize(g, b) {
        Some(x) => x % 65,
        None => return (Vec::new(), Some(Halt::InputExhausted)),
    };
    let mut v = small_vec_u8n32_new();
    let mut j: usize = 0;
    while j < count
        invariant
            j <= count <= 64,
            b <= 256,
            v.wf(),
            sv_u8n32_items(v).len() == j,
            forall|k: int| 0 <= k < j ==> sv_u8n32_items(v)[k] == g@[b + 8 + k],
            j > 0 ==> fits(g@, b + 8 + 1 * (j - 1), 1),
        decreases count - j,
    {
        let x = match read_u8(g, b + 8 + 1 * j) {
            Some(x) => x,
            None => {
                assert(1 * j <= 1 * (count - 1)) by (nonlinear_arith)
                    requires
                        j < count,
                ;
                return (Vec::new(), Some(Halt::InputExhausted));
            },
        };
        proof {
            broadcast use vstd::layout::layout_of_primitives;
            lemma_small_push(j as nat, sv_u8n32_cap(v), vstd::layout::size_of::<u8>());
        }
        small_vec_u8n32_push(&mut v, x);
        j = j + 1;
    }
    let mut events: Vec<Event> = Vec::new();
    if !small_vec_u8n32_is_empty(&v) {
        let index = match read_usize(g, b + 16) {
            Some(x) => x,
            None => return (Vec::new(), Some(Halt::InputExhausted)),
        };
        let n = small_vec_u8n32_len(&v);
        let x = small_vec_u8n32_remove(&mut v, index % n);
        events.push(Event::RemovedElement(x));
    }
    small_vec_u8n32_clear(&mut v);
    proof {
        let x = op_17(g@, b as int).0;
        assert(forall|i: int| 0 <= i < events@.len() ==> #[trigger] event_matches(events@[i], x[i]));
    }
    (events, None)
}

/// Operation 18 (see `op_18`).
#[verifier::loop_isolation(false)]
fn run_op_18(g: &[u8], b: usize) -> (r: (Vec<Event>, Option<Halt>))
    requires
        b <= 256,
    ensures
        events_match(r.0@, op_18(g@, b as int).0),
        r.1 == op_18(g@, b as int).1,
{
    let count = match read_usize(g, b) {
        Some(x) => x % 65,
        None => return (Vec::new(), Some(Halt::InputExhausted)),
    };
    let mut v = charn15::small_vec_charn15_new();
    let mut j: usize = 0;
    while j < count
        invariant
            j <= count <= 64,
            b <= 256,
            v.wf(),
            charn15::sv_charn15_items(v).len() == j,
            chars_halt(g@, b + 8 as int, 0, count as nat) == chars_halt(g@, b + 8 as int, j as nat, count as nat),
        decreases count - j,
    {
        let x = match read_char(g, b + 8 + 4 * j) {
            Ok(x) => x,
            Err(h) => return (Vec::new(), Some(h)),
        };
        proof {
            broadcast use vstd::layout::layout_of_primitives;
            lemma_small_push(j as nat, charn15::sv_charn15_cap(v), vstd::layout::size_of::<char>());
        }
        charn15::small_vec_charn15_push(&mut v, x);
        j = j + 1;
    }
    let pos = match read_usize(g, b + 16) {
        Some(x) => x,
        None => return (Vec::new(), Some(Halt::InputExhausted)),
    };
    if pos <= charn15::small_vec_charn15_len(&v) {
        let c1 = match read_char(g, b + 24) {
            Ok(c) => c,
            Err(h) => return (Vec::new(), Some(h)),
        };
        let c2 = match read_char(g, b + 28) {
            Ok(c) => c,
            Err(h) => return (Vec::new(), Some(h)),
        };
        let pair = [c1, c2];
        proof {
            broadcast use vstd::layout::layout_of_primitives;
            lemma_small_growth_sized(count as nat, charn15::sv_charn15_cap(v), 2, 4);
        }
        charn15::small_vec_charn15_insert_from_slice(&mut v, pos, &pair);
    }
    charn15::small_vec_charn15_clear(&mut v);
    (Vec::new(), None)
}

/// Operation 19 (see `op_19`).
#[verifier::loop_isolation(false)]
fn run_op_19(g: &[u8], b: usize) -> (r: (Vec<Event>, Option<Halt>))
    requires
        b <= 256,
    ensures
        events_match(r.0@, op_19(g@, b as int).0),
        r.1 == op_19(g@, b as int).1,
{
    let count = match read_usize(g, b) {
        Some(x) => x % 65,
        None => return (Vec::new(), Some(Halt::InputExhausted)),
    };
    let mut v = booln20::small_vec_booln20_new();
    let ghost cap0 = booln20::sv_booln20_cap(v);
    let mut j: usize = 0;
    while j < count
        invariant
            j <= count <= 64,
            b <= 256,
            v.wf(),
            booln20::sv_booln20_items(v).len() == j,
            booln20::sv_booln20_cap(v) == pushes_cap(0, cap0, j as nat),
            j > 0 ==> fits(g@, b + 8 + 1 * (j - 1), 1),
        decreases count - j,
    {
        let x = match read_bool(g, b + 8 + 1 * j) {
            Some(x) => x,
            None => {
                assert(1 * j <= 1 * (count - 1)) by (nonlinear_arith)
                    requires
                        j < count,
                ;
                return (Vec::new(), Some(Halt::InputExhausted));
            },
        };
        proof {
            broadcast use vstd::layout::layout_of_primitives;
            lemma_small_push(j as nat, booln20::sv_booln20_cap(v), vstd::layout::size_of::<bool>());
        }
        booln20::small_vec_booln20_push(&mut v, x);
        j = j + 1;
    }
    let len = match read_usize(g, b + 16) {
        Some(x) => x,
        None => return (Vec::new(), Some(Halt::InputExhausted)),
    };
    let val = match read_bool(g, b + 24) {
        Some(x) => x,
        None => return (Vec::new(), Some(Halt::InputExhausted)),
    };
    let n = booln20::small_vec_booln20_len(&v);
    if len > n && growth_overflows_exec(n, booln20::small_vec_booln20_capacity(&v), len - n, 1) {
        return (Vec::new(), Some(Halt::CapacityOverflow));
    }
    booln20::small_vec_booln20_resize(&mut v, len, val);
    booln20::small_vec_booln20_clear(&mut v);
    (Vec::new(), None)
}

/// Operation 20 (see `op_20`).
#[verifier::loop_isolation(false)]
fn run_op_20(g: &[u8], b: usize) -> (r: (Vec<Event>, Option<Halt>))
    requires
        b <= 256,
    ensures
        events_match(r.0@, op_20(g@, b as int).0),
        r.1 == op_20(g@, b as int).1,
{
    let count = match read_usize(g, b) {
        Some(x) => x % 65,
        None => return (Vec::new(), Some(Halt::InputExhausted)),
    };
    let mut v = u64n11::small_vec_u64n11_new();
    let mut j: usize = 0;
    while j < count
        invariant
            j <= count <= 64,
            b <= 256,
            v.wf(),
            u64n11::sv_u64n11_items(v).len() == j,
            j > 0 ==> fits(g@, b + 8 + 8 * (j - 1), 8),
        decreases count - j,
    {
        let x = match read_u64(g, b + 8 + 8 * j) {
            Some(x) => x,
            None => {
                assert(8 * j <= 8 * (count - 1)) by (nonlinear_arith)
                    requires
                        j < count,
                ;
                return (Vec::new(), Some(Halt::InputExhausted));
            },
        };
        proof {
            broadcast use vstd::layout::layout_of_primitives;
            lemma_small_push(j as nat, u64n11::sv_u64n11_cap(v), vstd::layout::size_of::<u64>());
        }
        u64n11::small_vec_u64n11_push(&mut v, x);
        j = j + 1;
    }
    let mut many: Vec<u64> = Vec::new();
    let mut j: usize = 0;
    while j < 5
        invariant
            j <= 5,
            b <= 256,
            many@.len() == j,
            j > 0 ==> fits(g@, b + 16 + 8 * (j - 1), 8),
        decreases 5 - j,
    {
        let x = match read_u64(g, b + 16 + 8 * j) {
            Some(x) => x,
            None => return (Vec::new(), Some(Halt::InputExhausted)),
        };
        many.push(x);
        j = j + 1;
    }
    let pos = match read_usize(g, b + 56) {
        Some(x) => x,
        None => return (Vec::new(), Some(Halt::InputExhausted)),
    };
    if pos <= u64n11::small_vec_u64n11_len(&v) {
        proof {
            broadcast use vstd::layout::layout_of_primitives;
            lemma_small_growth_sized(count as nat, u64n11::sv_u64n11_cap(v), 5, 8);
        }
        u64n11::small_vec_u64n11_insert_many(&mut v, pos, many);
    }
    u64n11::small_vec_u64n11_clear(&mut v);
    (Vec::new(), None)
}

/// Operation 21 (see `op_pushes`).
#[verifier::loop_isolation(false)]
fn run_op_21(g: &[u8], b: usize) -> (r: (Vec<Event>, Option<Halt>))
    requires
        b <= 256,
    ensures
        events_match(r.0@, op_pushes(g@, b as int, b + 8, 4, 4).0),
        r.1 == op_pushes(g@, b as int, b + 8, 4, 4).1,
{
    let count = match read_usize(g, b) {
        Some(x) => x % 65,
        None => return (Vec::new(), Some(Halt::InputExhausted)),
    };
    let mut v = i32n18::small_vec_i32n18_new();
    let mut j: usize = 0;
    while j < count
        invariant
            j <= count <= 64,
            b <= 256,
            v.wf(),
            i32n18::sv_i32n18_items(v).len() == j,
            j > 0 ==> fits(g@, b + 8 + 4 * (j - 1), 4),
        decreases count - j,
    {
        let x = match read_i32(g, b + 8 + 4 * j) {
            Some(x) => x,
            None => {
                assert(4 * j <= 4 * (count - 1)) by (nonlinear_arith)
                    requires
                        j < count,
                ;
                return (Vec::new(), Some(Halt::InputExhausted));
            },
        };
        proof {
            broadcast use vstd::layout::layout_of_primitives;
            lemma_small_push(j as nat, i32n18::sv_i32n18_cap(v), vstd::layout::size_of::<i32>());
        }
        i32n18::small_vec_i32n18_push(&mut v, x);
        j = j + 1;
    }
    i32n18::small_vec_i32n18_dedup_by_eq(&mut v);
    i32n18::small_vec_i32n18_clear(&mut v);
    (Vec::new(), None)
}

/// Operation 23 (see `op_23`).
#[verifier::loop_isolation(false)]
fn run_op_23(g: &[u8], b: usize) -> (r: (Vec<Event>, Option<Halt>))
    requires
        b <= 256,
    ensures
        events_match(r.0@, op_23(g@, b as int).0),
        r.1 == op_23(g@, b as int).1,
{
    let mut data: Vec<u16> = Vec::new();
    let mut j: usize = 0;
    while j < 20
        invariant
            j <= 20,
            b <= 256,
            data@.len() == j,
            j > 0 ==> fits(g@, b + 2 * (j - 1), 2),
        decreases 20 - j,
    {
        let x = match read_u16(g, b + 2 * j) {
            Some(x) => x,
            None => return (Vec::new(), Some(Halt::InputExhausted)),
        };
        data.push(x);
        j = j + 1;
    }
    let v = u16n25::small_vec_u16n25_from_slice(data.as_slice());
    let collected = u16n25::small_vec_u16n25_into_iter_collect(v);
    let mut events: Vec<Event> = Vec::new();
    events.push(Event::CollectedLen(collected.len()));
    proof {
        let x = op_23(g@, b as int).0;
        assert(forall|i: int| 0 <= i < events@.len() ==> #[trigger] event_matches(events@[i], x[i]));
    }
    (events, None)
}

/// Operation 25 (see `op_pushes`).
#[verifier::loop_isolation(false)]
fn run_op_25(g: &[u8], b: usize) -> (r: (Vec<Event>, Option<Halt>))
    requires
        b <= 256,
    ensures
        events_match(r.0@, op_pushes(g@, b as int, b + 8, 16, 16).0),
        r.1 == op_pushes(g@, b as int, b + 8, 16, 16).1,
{
    let count = match read_usize(g, b) {
        Some(x) => x % 65,
        None => return (Vec::new(), Some(Halt::InputExhausted)),
    };
    let mut v = i128n15::small_vec_i128n15_new();
    let mut j: usize = 0;
    while j < count
        invariant
            j <= count <= 64,
            b <= 256,
            v.wf(),
            i128n15::sv_i128n15_items(v).len() == j,
            j > 0 ==> fits(g@, b + 8 + 16 * (j - 1), 16),
        decreases count - j,
    {
        let x = match read_i128(g, b + 8 + 16 * j) {
            Some(x) => x,
            None => {
                assert(16 * j <= 16 * (count - 1)) by (nonlinear_arith)
                    requires
                        j < count,
                ;
                return (Vec::new(), Some(Halt::InputExhausted));
            },
        };
        proof {
            broadcast use vstd::layout::layout_of_primitives;
            lemma_small_push(j as nat, i128n15::sv_i128n15_cap(v), vstd::layout::size_of::<i128>());
        }
        i128n15::small_vec_i128n15_push(&mut v, x);
        j = j + 1;
    }
    i128n15::small_vec_i128n15_sort(&mut v);
    i128n15::small_vec_i128n15_clear(&mut v);
    (Vec::new(), None)
}

/// Operation 26 (see `op_26`).
#[verifier::loop_isolation(false)]
fn run_op_26(g: &[u8], b: usize) -> (r: (Vec<Event>, Option<Halt>))
    requires
        b <= 256,
    ensures
        events_match(r.0@, op_26(g@, b as int).0),
        r.1 == op_26(g@, b as int).1,
{
    let r = match read_usize(g, b) {
        Some(x) => x,
        None => return (Vec::new(), Some(Halt::InputExhausted)),
    };
    if exact_growth_overflows_exec(0, 30, r, 1) {
        return (Vec::new(), Some(Halt::CapacityOverflow));
    }
    let mut v = booln30::small_vec_booln30_new();
    proof {
        broadcast use vstd::layout::layout_of_primitives;
    }
    booln30::small_vec_booln30_reserve_exact(&mut v, r);
    let count = match read_usize(g, b + 8) {
        Some(x) => x % 65,
        None => return (Vec::new(), Some(Halt::InputExhausted)),
    };
    let mut j: usize = 0;
    while j < count
        invariant
            j <= count <= 64,
            b <= 256,
            v.wf(),
            booln30::sv_booln30_items(v).len() == j,
            j > 0 ==> fits(g@, b + 16 + 1 * (j - 1), 1),
        decreases count - j,
    {
        let x = match read_bool(g, b + 16 + 1 * j) {
            Some(x) => x,
            None => {
                assert(1 * j <= 1 * (count - 1)) by (nonlinear_arith)
                    requires
                        j < count,
                ;
                return (Vec::new(), Some(Halt::InputExhausted));
            },
        };
        proof {
            broadcast use vstd::layout::layout_of_primitives;
            lemma_small_push(j as nat, booln30::sv_booln30_cap(v), vstd::layout::size_of::<bool>());
        }
        booln30::small_vec_booln30_push(&mut v, x);
        j = j + 1;
    }
    booln30::small_vec_booln30_clear(&mut v);
    (Vec::new(), None)
}

/// Operation 27 (see `op_27`).
#[verifier::loop_isolation(false)]
fn run_op_27(g: &[u8], b: usize) -> (r: (Vec<Event>, Option<Halt>))
    requires
        b <= 256,
    ensures
        events_match(r.0@, op_27(g@, b as int).0),
        r.1 == op_27(g@, b as int).1,
{
    let w0 = match read_u32(g, b + 0) {
        Some(x) => x,
        None => return (Vec::new(), Some(Halt::InputExhausted)),
    };
    let w1 = match read_u32(g, b + 4) {
        Some(x) => x,
        None => return (Vec::new(), Some(Halt::InputExhausted)),
    };
    let w2 = match read_u32(g, b + 8) {
        Some(x) => x,
        None => return (Vec::new(), Some(Halt::InputExhausted)),
    };
    let w3 = match read_u32(g, b + 12) {
        Some(x) => x,
        None => return (Vec::new(), Some(Halt::InputExhausted)),
    };
    let w4 = match read_u32(g, b + 16) {
        Some(x) => x,
        None => return (Vec::new(), Some(Halt::InputExhausted)),
    };
    let w5 = match read_u32(g, b + 20) {
        Some(x) => x,
        None => return (Vec::new(), Some(Halt::InputExhausted)),
    };
    let w6 = match read_u32(g, b + 24) {
        Some(x) => x,
        None => return (Vec::new(), Some(Halt::InputExhausted)),
    };
    let w7 = match read_u32(g, b + 28) {
        Some(x) => x,
        None => return (Vec::new(), Some(Halt::InputExhausted)),
    };
    let w8 = match read_u32(g, b + 32) {
        Some(x) => x,
        None => return (Vec::new(), Some(Halt::InputExhausted)),
    };
    let w9 = match read_u32(g, b + 36) {
        Some(x) => x,
        None => return (Vec::new(), Some(Halt::InputExhausted)),
    };
    let w10 = match read_u32(g, b + 40) {
        Some(x) => x,
        None => return (Vec::new(), Some(Halt::InputExhausted)),
    };
    let w11 = match read_u32(g, b + 44) {
        Some(x) => x,
        None => return (Vec::new(), Some(Halt::InputExhausted)),
    };
    let w12 = match read_u32(g, b + 48) {
        Some(x) => x,
        None => return (Vec::new(), Some(Halt::InputExhausted)),
    };
    let w13 = match read_u32(g, b + 52) {
        Some(x) => x,
        None => return (Vec::new(), Some(Halt::InputExhausted)),
    };
    let w14 = match read_u32(g, b + 56) {
        Some(x) => x,
        None => return (Vec::new(), Some(Halt::InputExhausted)),
    };
    let w15 = match read_u32(g, b + 60) {
        Some(x) => x,
        None => return (Vec::new(), Some(Halt::InputExhausted)),
    };
    let w16 = match read_u32(g, b + 64) {
        Some(x) => x,
        None => return (Vec::new(), Some(Halt::InputExhausted)),
    };
    let w17 = match read_u32(g, b + 68) {
        Some(x) => x,
        None => return (Vec::new(), Some(Halt::InputExhausted)),
    };
    let w18 = match read_u32(g, b + 72) {
        Some(x) => x,
        None => return (Vec::new(), Some(Halt::InputExhausted)),
    };
    let w19 = match read_u32(g, b + 76) {
        Some(x) => x,
        None => return (Vec::new(), Some(Halt::InputExhausted)),
    };
    let buf: [u32; 20] = [w0, w1, w2, w3, w4, w5, w6, w7, w8, w9, w10, w11, w12, w13, w14, w15, w16, w17, w18, w19];
    let v = u32n20::small_vec_u32n20_from_buf(buf);
    let first = u32n20::small_vec_u32n20_index_range(&v, 0, 5);
    assert(first@ =~= u32s_at(g@, b as int, 4, 5));
    let mut events: Vec<Event> = Vec::new();
    events.push(Event::Words(vstd::slice::slice_to_vec(first)));
    proof {
        let x = op_27(g@, b as int).0;
        assert(forall|i: int| 0 <= i < events@.len() ==> #[trigger] event_matches(events@[i], x[i]));
    }
    (events, None)
}

/// Operation 28 (see `op_28`).
#[verifier::loop_isolation(false)]
fn run_op_28(g: &[u8], b: usize) -> (r: (Vec<Event>, Option<Halt>))
    requires
        b <= 256,
    ensures
        events_match(r.0@, op_28(g@, b as int).0),
        r.1 == op_28(g@, b as int).1,
{
    let count = match read_usize(g, b) {
        Some(x) => x % 65,
        None => return (Vec::new(), Some(Halt::InputExhausted)),
    };
    let mut v = charn18::small_vec_charn18_new();
    let mut j: usize = 0;
    while j < count
        invariant
            j <= count <= 64,
            b <= 256,
            v.wf(),
            charn18::sv_charn18_items(v).len() == j,
            chars_halt(g@, b + 8 as int, 0, count as nat) == chars_halt(g@, b + 8 as int, j as nat, count as nat),
        decreases count - j,
    {
        let x = match read_char(g, b + 8 + 4 * j) {
            Ok(x) => x,
            Err(h) => return (Vec::new(), Some(h)),
        };
        proof {
            broadcast use vstd::layout::layout_of_primitives;
            lemma_small_push(j as nat, charn18::sv_charn18_cap(v), vstd::layout::size_of::<char>());
        }
        charn18::small_vec_charn18_push(&mut v, x);
        j = j + 1;
    }
    let items = charn18::small_vec_charn18_as_mut(&mut v);
    let mut events: Vec<Event> = Vec::new();
    events.push(Event::Len(items.len()));
    charn18::small_vec_charn18_clear(&mut v);
    proof {
        let x = op_28(g@, b as int).0;
        assert(forall|i: int| 0 <= i < events@.len() ==> #[trigger] event_matches(events@[i], x[i]));
    }
    (events, None)
}

/// Operation 29 (see `op_29`).
#[verifier::loop_isolation(false)]
fn run_op_29(g: &[u8], b: usize) -> (r: (Vec<Event>, Option<Halt>))
    requires
        b <= 256,
    ensures
        events_match(r.0@, op_29(g@, b as int).0),
        r.1 == op_29(g@, b as int).1,
{
    let r = match read_usize(g, b) {
        Some(x) => x,
        None => return (Vec::new(), Some(Halt::InputExhausted)),
    };
    let size = core::mem::size_of::<isize>();
    if exact_growth_overflows_exec(0, 30, r, size) {
        return (Vec::new(), Some(Halt::CapacityOverflow));
    }
    let mut v = isizen30::small_vec_isizen30_new();
    isizen30::small_vec_isizen30_reserve_exact(&mut v, r);
    let count = match read_usize(g, b + 8) {
        Some(x) => x % 65,
        None => return (Vec::new(), Some(Halt::InputExhausted)),
    };
    let ghost cap0 = isizen30::sv_isizen30_cap(v);
    let mut j: usize = 0;
    while j < count
        invariant
            j <= count <= 64,
            b <= 256,
            v.wf(),
            isizen30::sv_isizen30_items(v).len() == j,
            isizen30::sv_isizen30_cap(v) == pushes_cap(0, cap0, j as nat),
            j > 0 ==> fits(g@, b + 16 + 8 * (j - 1), 8),
        decreases count - j,
    {
        let x = match read_isize(g, b + 16 + 8 * j) {
            Some(x) => x,
            None => {
                assert(8 * j <= 8 * (count - 1)) by (nonlinear_arith)
                    requires
                        j < count,
                ;
                return (Vec::new(), Some(Halt::InputExhausted));
            },
        };
        proof {
            broadcast use vstd::layout::layout_of_primitives;
            lemma_small_push(j as nat, isizen30::sv_isizen30_cap(v), vstd::layout::size_of::<isize>());
        }
        isizen30::small_vec_isizen30_push(&mut v, x);
        j = j + 1;
    }
    let mut events: Vec<Event> = Vec::new();
    if let Ok(_array) = isizen30::small_vec_isizen30_into_inner(v) {
        events.push(Event::ArraySize(30));
    }
    proof {
        let x = op_29(g@, b as int).0;
        assert(forall|i: int| 0 <= i < events@.len() ==> #[trigger] event_matches(events@[i], x[i]));
    }
    (events, None)
}

/// The operation `op` at position `i` of the run (see `op_step`); the
/// capacity that operation 2 took is the choice.
fn run_op(g: &[u8], i: usize, op: u8) -> (r: (Vec<Event>, Option<Halt>, Ghost<nat>))
    requires
        i < 25,
    ensures
        events_match(r.0@, op_step(g@, i as nat, op, r.2@).0),
        r.1 == op_step(g@, i as nat, op, r.2@).1,
{
    reveal(op_step);
    let b = 16 + 8 * i;
    let none = Ghost(0nat);
    if op == 1 || op == 8 || op == 15 || op == 22 || op == 24 {
        let events = vec![Event::FloatOp(op, i)];
        proof {
            let x = op_step(g@, i as nat, op, 0).0;
            assert(forall|k: int| 0 <= k < events@.len() ==> #[trigger] event_matches(events@[k], x[k]));
        }
        return (events, None, none);
    }
    if op == 2 {
        return run_op_2(g, b);
    }
    let (events, halt) = if op == 0 {
        run_op_0(g, b)
    } else if op == 3 {
        run_op_3(g, b)
    } else if op == 4 {
        run_op_4(g, b)
    } else if op == 5 {
        run_op_5(g, b)
    } else if op == 6 {
        run_op_6(g, b)
    } else if op == 7 {
        run_op_7(g, b)
    } else if op == 9 {
        run_op_9(g, b)
    } else if op == 10 {
        run_op_10(g, b)
    } else if op == 11 {
        run_op_11(g, b)
    } else if op == 12 {
        run_op_12(g, b)
    } else if op == 13 {
        run_op_13(g, b)
    } else if op == 14 {
        run_op_14(g, b)
    } else if op == 16 {
        run_op_16(g, b)
    } else if op == 17 {
        run_op_17(g, b)
    } else if op == 18 {
        run_op_18(g, b)
    } else if op == 19 {
        run_op_19(g, b)
    } else if op == 20 {
        run_op_20(g, b)
    } else if op == 21 {
        run_op_21(g, b)
    } else if op == 23 {
        run_op_23(g, b)
    } else if op == 25 {
        run_op_25(g, b)
    } else if op == 26 {
        run_op_26(g, b)
    } else if op == 27 {
        run_op_27(g, b)
    } else if op == 28 {
        run_op_28(g, b)
    } else {
        run_op_29(g, b)
    };
    (events, halt, none)
}

/// Once operation `k` has run without halting, the run's outcome is what was
/// owed so far and its events, followed by what the later operations owe.
proof fn lemma_run_continues(
    input_len: nat,
    g: Seq<u8>,
    k: nat,
    count: nat,
    done_cs: Seq<nat>,
    owed: Seq<Expect>,
    c: nat,
)
    requires
        forall|rest: Seq<nat>|
            #![trigger ops_from(g, k, count, rest)]
            script_outcome(input_len, g, done_cs + rest) == (
                owed + ops_from(g, k, count, rest).0,
                ops_from(g, k, count, rest).1,
            ),
        k < count,
        fits(g, 8 + k as int, 1),
        op_step(g, k, g[8 + k as int] % 30, c).1 is None,
    ensures
        ({
            let s = op_step(g, k, g[8 + k as int] % 30, c);
            forall|rest: Seq<nat>|
                #![trigger ops_from(g, k + 1, count, rest)]
                script_outcome(input_len, g, done_cs.push(c) + rest) == (
                    (owed + s.0) + ops_from(g, k + 1, count, rest).0,
                    ops_from(g, k + 1, count, rest).1,
                )
        }),
{
    let s = op_step(g, k, g[8 + k as int] % 30, c);
    assert forall|rest: Seq<nat>|
        #![trigger ops_from(g, k + 1, count, rest)]
        script_outcome(input_len, g, done_cs.push(c) + rest) == (
            (owed + s.0) + ops_from(g, k + 1, count, rest).0,
            ops_from(g, k + 1, count, rest).1,
        ) by {
        let full = seq![c] + rest;
        assert(done_cs.push(c) + rest =~= done_cs + full);
        assert(full.drop_first() =~= rest);
        let tail = ops_from(g, k + 1, count, rest);
        assert(ops_from(g, k, count, full) == (s.0 + tail.0, tail.1));
        assert(owed + (s.0 + tail.0) =~= (owed + s.0) + tail.0);
    }
}

/// Where operation `k` halts, the run's outcome is what was owed so far and
/// its events, and the halt.
proof fn lemma_run_halts(
    input_len: nat,
    g: Seq<u8>,
    k: nat,
    count: nat,
    done_cs: Seq<nat>,
    owed: Seq<Expect>,
    c: nat,
)
    requires
        forall|rest: Seq<nat>|
            #![trigger ops_from(g, k, count, rest)]
            script_outcome(input_len, g, done_cs + rest) == (
                owed + ops_from(g, k, count, rest).0,
                ops_from(g, k, count, rest).1,
            ),
        k < count,
        fits(g, 8 + k as int, 1),
        op_step(g, k, g[8 + k as int] % 30, c).1 is Some,
    ensures
        script_outcome(input_len, g, done_cs.push(c)) == (
            owed + op_step(g, k, g[8 + k as int] % 30, c).0,
            op_step(g, k, g[8 + k as int] % 30, c).1,
        ),
{
    let full = seq![c];
    assert(done_cs.push(c) =~= done_cs + full);
    assert(full[0] == c);
    assert(ops_from(g, k, count, full) == op_step(g, k, g[8 + k as int] % 30, c));
}

/// The events of a run, and why it stopped early, if it did.
pub struct Run {
    pub events: Vec<Event>,
    pub halt: Option<Halt>,
}

/// Runs the script of an input of `input_len` bytes whose first half is `g`.
/// What it reports is owed for some capacities that the outside crate
/// leaves open; operations on floating-point items are left to the caller,
/// each reported as `FloatOp` in its place.
pub fn run(input_len: usize, g: &[u8]) -> (r: Run)
    ensures
        exists|cs: Seq<nat>|
            #![trigger script_outcome(input_len as nat, g@, cs)]
            events_match(r.events@, script_outcome(input_len as nat, g@, cs).0) && r.halt
                == script_outcome(input_len as nat, g@, cs).1,
{
    let mut events: Vec<Event> = Vec::new();
    let ghost none = Seq::<nat>::empty();
    if input_len < 500 {
        assert(script_outcome(input_len as nat, g@, none).0 =~= Seq::<Expect>::empty());
        return Run { events, halt: None };
    }
    let count = match read_usize(g, 0) {
        Some(x) => x % 25,
        None => {
            assert(script_outcome(input_len as nat, g@, none).0 =~= Seq::<Expect>::empty());
            return Run { events, halt: Some(Halt::InputExhausted) };
        },
    };
    let ghost n = count as nat;
    let ghost mut done_cs = Seq::<nat>::empty();
    let ghost mut owed = Seq::<Expect>::empty();
    let ghost mut gk: nat = 0;
    assert forall|rest: Seq<nat>|
        #![trigger ops_from(g@, gk, n, rest)]
        script_outcome(input_len as nat, g@, done_cs + rest) == (
            owed + ops_from(g@, gk, n, rest).0,
            ops_from(g@, gk, n, rest).1,
        ) by {
        assert(done_cs + rest =~= rest);
        assert(owed + ops_from(g@, gk, n, rest).0 =~= ops_from(g@, gk, n, rest).0);
    }
    let mut i: usize = 0;
    while i < count
        invariant
            i <= count < 25,
            input_len >= 500,
            fits(g@, 0, 8),
            n == count as nat,
            n == count_at(g@, 0, 25),
            gk == i as nat,
            none == Seq::<nat>::empty(),
            events_match(events@, owed),
            forall|rest: Seq<nat>|
                #![trigger ops_from(g@, gk, n, rest)]
                script_outcome(input_len as nat, g@, done_cs + rest) == (
                    owed + ops_from(g@, gk, n, rest).0,
                    ops_from(g@, gk, n, rest).1,
                ),
        decreases count - i,
    {
        let op = match read_u8(g, 8 + i) {
            Some(x) => x % 30,
            None => {
                proof {
                    assert(ops_from(g@, gk, n, none) == halted(Halt::InputExhausted));
                    assert(owed + Seq::<Expect>::empty() =~= owed);
                }
                return Run { events, halt: Some(Halt::InputExhausted) };
            },
        };
        let (evs, halt, Ghost(c)) = run_op(g, i, op);
        let ghost s = op_step(g@, gk, op, c);
        proof {
            lemma_events_match_append(events@, owed, evs@, s.0);
        }
        let mut evs = evs;
        events.append(&mut evs);
        if halt.is_some() {
            proof {
                lemma_run_halts(input_len as nat, g@, gk, n, done_cs, owed, c);
            }
            return Run { events, halt };
        }
        proof {
            lemma_run_continues(input_len as nat, g@, gk, n, done_cs, owed, c);
            done_cs = done_cs.push(c);
            owed = owed + s.0;
            gk = gk + 1;
        }
        i = i + 1;
    }
    proof {
        assert(ops_from(g@, gk, n, none) == (Seq::<Expect>::empty(), None::<Halt>));
        assert(owed + Seq::<Expect>::empty() =~= owed);
        assert(done_cs + none =~= done_cs);
    }
    Run { events, halt: None }
}

/// Operation 10, with at least two values read, pops the last value read and
/// then swap-removes and reports the value read at the index taken modulo
/// the number left.
pub proof fn law_pop_and_swap_remove_report_the_values_read(g: Seq<u8>, b: int)
    requires
        fits(g, b, 8),
        count_at(g, b, 65) >= 2,
        reads_ok(g, b + 8, 4, 4, count_at(g, b, 65)),
        fits(g, b + 16, 8),
    ensures
        ({
            let count = count_at(g, b, 65) as int;
            let i = (usize_at(g, b + 16) as nat % (count - 1) as nat) as int;
            &&& op_10(g, b).1 is None
            &&& op_10(g, b).0 == seq![
                Expect::Popped(u32_at(g, b + 8 + 4 * (count - 1))),
                Expect::Removed(u32_at(g, b + 8 + 4 * i)),
            ]
        }),
{
}

} // verus!

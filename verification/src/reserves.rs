//! A script of fifteen kinds of operation on small vectors of `u32`, each of
//! which reserves exact room for a read number of items along the way.
//!
//! The first byte chooses how many operations run (0 to 64); the byte at
//! `1 + k` chooses what operation `k` does, and the operation reads its
//! arguments at fixed places shifted by `k`. A run halts where a read runs
//! past the input, an argument is out of range for the vector, or a size
//! computation overflows.
//!
//! The outside crate leaves one result to the allocator: the capacity of a
//! vector taken over from a `Vec`. What a run reports is stated for every
//! such capacity; a run owes the outcome of one of them.
use vstd::prelude::*;
use crate::derefs::{u32n12, u32n24, u32n64, u32n8};
use crate::fixed::u32n32;
use crate::script::{fits, read_u32, read_u32s, read_u8, read_usize, reads_fit, u32_at, u32s_at, usize_at, Halt};
use crate::small_vec::{
    exact_grown, exact_growth_overflows, exact_growth_overflows_exec, grown, growth_overflows,
    growth_overflows_exec, lex_order, open_cap, repeat, u32_ints, Order,
};
use crate::sv_u32;

pub mod u32n15;
pub mod u32n20;
pub mod u32n28;
pub mod u32n36;

verus! {

/// What the script reports, one value per printed line.
#[derive(Debug, PartialEq, Eq)]
pub enum Event {
    /// A capacity or a length.
    Count(usize),
    /// An item.
    U32(u32),
    /// The order of two vectors.
    Compared(Order),
    /// An address from `as_ptr`.
    Ptr(usize),
    /// An address from `as_mut_ptr`.
    MutPtr(usize),
    /// The items of a vector, printed as `[a, b, ...]`.
    U32s(Vec<u32>),
    /// Whether a vector spilled to the heap.
    Flag(bool),
}

/// What the script is owed to report; an address may be any.
pub enum Expect {
    Count(nat),
    U32(u32),
    Compared(Order),
    Ptr,
    MutPtr,
    U32s(Seq<u32>),
    Flag(bool),
}

/// Whether a reported event is the one that was owed.
pub open spec fn event_matches(e: Event, x: Expect) -> bool {
    match e {
        Event::Count(n) => x == Expect::Count(n as nat),
        Event::U32(n) => x == Expect::U32(n),
        Event::Compared(o) => x == Expect::Compared(o),
        Event::Ptr(_) => x is Ptr,
        Event::MutPtr(_) => x is MutPtr,
        Event::U32s(v) => x == Expect::U32s(v@),
        Event::Flag(b) => x == Expect::Flag(b),
    }
}

/// Whether the reported events are, one for one, those owed.
pub open spec fn events_match(a: Seq<Event>, x: Seq<Expect>) -> bool {
    &&& a.len() == x.len()
    &&& forall|i: int| 0 <= i < a.len() ==> #[trigger] event_matches(a[i], x[i])
}

/// Reported events, followed by more, match what was owed followed by more.
proof fn lemma_events_match_append(a: Seq<Event>, x: Seq<Expect>, b: Seq<Event>, y: Seq<Expect>)
    requires
        events_match(a, x),
        events_match(b, y),
    ensures
        events_match(a + b, x + y),
{
    assert forall|i: int| 0 <= i < (a + b).len() implies #[trigger] event_matches((a + b)[i], (x + y)[i]) by {
        if i < a.len() {
            assert(event_matches(a[i], x[i]));
        } else {
            assert(event_matches(b[i - a.len()], y[i - a.len()]));
        }
    }
}

/// What an operation is owed: its events, and why it halts, if it does.
pub type Outcome = (Seq<Expect>, Option<Halt>);

/// An operation that halts with `h` before reporting anything.
pub open spec fn halted(h: Halt) -> Outcome {
    (Seq::empty(), Some(h))
}

/// An operation that reports `events` and does not halt.
pub open spec fn done(events: Seq<Expect>) -> Outcome {
    (events, None)
}

/// The size in bytes of an item.
pub open spec fn item_size() -> nat {
    vstd::layout::size_of::<u32>()
}

/// Whether exact room for `r` more items beside `len` items in a capacity
/// of `cap` cannot be computed.
pub open spec fn reserve_overflows(len: nat, cap: nat, r: usize) -> bool {
    exact_growth_overflows(len, cap, r as nat, item_size())
}

/// The vector that operation 0 builds by the constructor `ch`, and its
/// capacity, `c` standing for one the outside crate leaves open.
pub open spec fn built_0(g: Seq<u8>, i: int, ch: nat, c: nat) -> Result<(Seq<u32>, nat), Halt> {
    let z = item_size();
    if ch == 0 {
        if !fits(g, 132 + 8 * i, 8) {
            Err(Halt::InputExhausted)
        } else if exact_growth_overflows(0, 16, usize_at(g, 132 + 8 * i) as nat, z) {
            Err(Halt::CapacityOverflow)
        } else {
            let n0 = usize_at(g, 132 + 8 * i) as nat;
            Ok((Seq::empty(), if n0 <= 16 { 16 } else { n0 }))
        }
    } else if ch == 1 || ch == 3 {
        let stride: int = if ch == 1 { 1 } else { 4 };
        if !fits(g, 132 + 8 * i, 1) {
            Err(Halt::InputExhausted)
        } else {
            let n = (g[132 + 8 * i] as nat) % 65;
            if !reads_fit(g, 200 + 8 * i, stride, n) {
                Err(Halt::InputExhausted)
            } else if ch == 1 {
                Ok((u32s_at(g, 200 + 8 * i, stride, n), open_cap(c, n, 16, z)))
            } else {
                Ok((u32s_at(g, 200 + 8 * i, stride, n), if n <= 16 { 16 } else { open_cap(c, n, 16, z) }))
            }
        }
    } else if ch == 2 {
        if !reads_fit(g, 200 + 8 * i, 4, 16) || !fits(g, 264 + 8 * i, 8) {
            Err(Halt::InputExhausted)
        } else if usize_at(g, 264 + 8 * i) > 16 {
            Err(Halt::OutOfRange)
        } else {
            Ok((u32s_at(g, 200 + 8 * i, 4, 16).take(usize_at(g, 264 + 8 * i) as int), 16))
        }
    } else if ch == 4 {
        if !fits(g, 132 + 8 * i, 4) || !fits(g, 136 + 8 * i, 8) {
            Err(Halt::InputExhausted)
        } else {
            let n = usize_at(g, 136 + 8 * i) as nat;
            if n > 16 && n * z > isize::MAX {
                Err(Halt::CapacityOverflow)
            } else {
                Ok((repeat(u32_at(g, 132 + 8 * i), n), if n <= 16 { 16 } else { open_cap(c, n, 16, z) }))
            }
        }
    } else {
        Ok((Seq::empty(), 16))
    }
}

/// Operation 0: a `SmallVec<[_; 16]>` made by one of six constructors, with
/// exact room reserved for a read count; report its capacity, its first item
/// and its length.
pub open spec fn op_0(g: Seq<u8>, i: int, c: nat) -> Outcome {
    if !fits(g, 66 + i, 1) {
        halted(Halt::InputExhausted)
    } else {
        match built_0(g, i, (g[66 + i] as nat) % 6, c) {
            Err(h) => halted(h),
            Ok(b) => if !fits(g, 200 + 8 * i, 8) {
                halted(Halt::InputExhausted)
            } else if reserve_overflows(b.0.len(), b.1, usize_at(g, 200 + 8 * i)) {
                halted(Halt::CapacityOverflow)
            } else {
                done(
                    seq![Expect::Count(exact_grown(b.0.len(), b.1, usize_at(g, 200 + 8 * i) as nat))] + (if b.0.len()
                        > 0 {
                        seq![Expect::U32(b.0[0])]
                    } else {
                        Seq::empty()
                    }) + seq![Expect::Count(b.0.len())],
                )
            },
        }
    }
}

/// Operation 1: read items pushed to a `SmallVec<[_; 32]>`, exact room
/// reserved; report the item popped and the first item left.
pub open spec fn op_1(g: Seq<u8>, i: int) -> Outcome {
    if !fits(g, 132 + i, 1) {
        halted(Halt::InputExhausted)
    } else {
        let n = (g[132 + i] as nat) % 20;
        if !reads_fit(g, 150 + 8 * i, 4, n) || !fits(g, 200 + 8 * i, 8) {
            halted(Halt::InputExhausted)
        } else if reserve_overflows(n, 32, usize_at(g, 200 + 8 * i)) {
            halted(Halt::CapacityOverflow)
        } else {
            let items = u32s_at(g, 150 + 8 * i, 4, n);
            let popped = if n > 0 { seq![Expect::U32(items.last())] } else { Seq::empty() };
            let rest = if n > 0 { items.drop_last() } else { items };
            done(popped + if rest.len() > 0 { seq![Expect::U32(rest[0])] } else { Seq::empty() })
        }
    }
}

/// The capacity of a `SmallVec<[_; 8]>` after `n` pushes, up to nine.
pub open spec fn pushed_cap_8(n: nat) -> nat {
    if n <= 8 {
        8
    } else {
        16
    }
}

/// Operation 2: two `SmallVec<[_; 8]>` of read items, exact room reserved in
/// the first, the second appended to it; report the order of the first and
/// the (emptied) second.
pub open spec fn op_2(g: Seq<u8>, i: int) -> Outcome {
    if !fits(g, 132 + i, 1) || !reads_fit(g, 150, 4, (g[132 + i] as nat) % 10) || !fits(g, 133 + i, 1)
        || !reads_fit(g, 200, 4, (g[133 + i] as nat) % 10) || !fits(g, 250 + 8 * i, 8) {
        halted(Halt::InputExhausted)
    } else {
        let n1 = (g[132 + i] as nat) % 10;
        let a = u32s_at(g, 150, 4, n1);
        let b = u32s_at(g, 200, 4, (g[133 + i] as nat) % 10);
        if reserve_overflows(n1, pushed_cap_8(n1), usize_at(g, 250 + 8 * i)) {
            halted(Halt::CapacityOverflow)
        } else {
            done(seq![Expect::Compared(lex_order(u32_ints(a + b), u32_ints(Seq::<u32>::empty())))])
        }
    }
}

/// Operation 3: read items pushed to a `SmallVec<[_; 64]>` of a read
/// capacity, exact room reserved, a read item inserted at a read index when
/// there are items, then shrunk; nothing is reported.
pub open spec fn op_3(g: Seq<u8>, i: int) -> Outcome {
    if !fits(g, 132 + 8 * i, 8) {
        halted(Halt::InputExhausted)
    } else if exact_growth_overflows(0, 64, usize_at(g, 132 + 8 * i) as nat, item_size()) {
        halted(Halt::CapacityOverflow)
    } else {
        let n0 = usize_at(g, 132 + 8 * i) as nat;
        let cap0: nat = if n0 <= 64 { 64 } else { n0 };
        if !fits(g, 200 + i, 1) || !reads_fit(g, 210, 4, (g[200 + i] as nat) % 15) || !fits(g, 250 + 8 * i, 8) {
            halted(Halt::InputExhausted)
        } else {
            let k = (g[200 + i] as nat) % 15;
            if reserve_overflows(k, cap0, usize_at(g, 250 + 8 * i)) {
                halted(Halt::CapacityOverflow)
            } else if k == 0 {
                done(Seq::empty())
            } else if !fits(g, 260 + 8 * i, 8) || !fits(g, 270 + 4 * i, 4) {
                halted(Halt::InputExhausted)
            } else if usize_at(g, 260 + 8 * i) > k {
                halted(Halt::OutOfRange)
            } else {
                done(Seq::empty())
            }
        }
    }
}

/// Operation 4: a `SmallVec<[_; 12]>` extended by read items, exact room
/// reserved, truncated to a read length; nothing is reported.
pub open spec fn op_4(g: Seq<u8>, i: int) -> Outcome {
    if !fits(g, 132 + i, 1) || !reads_fit(g, 150, 4, (g[132 + i] as nat) % 30) || !fits(g, 250 + 8 * i, 8) {
        halted(Halt::InputExhausted)
    } else {
        let n = (g[132 + i] as nat) % 30;
        if reserve_overflows(n, grown(0, 12, n), usize_at(g, 250 + 8 * i)) {
            halted(Halt::CapacityOverflow)
        } else if !fits(g, 260 + 8 * i, 8) {
            halted(Halt::InputExhausted)
        } else {
            done(Seq::empty())
        }
    }
}

/// Operation 5: five read items in a `SmallVec<[_; 20]>`, exact room
/// reserved, two more read items added; nothing is reported.
pub open spec fn op_5(g: Seq<u8>, i: int) -> Outcome {
    if !reads_fit(g, 132 + 8 * i, 4, 5) || !fits(g, 200 + 8 * i, 8) {
        halted(Halt::InputExhausted)
    } else if reserve_overflows(5, 20, usize_at(g, 200 + 8 * i)) {
        halted(Halt::CapacityOverflow)
    } else if !fits(g, 250 + 4 * i, 4) || !fits(g, 254 + 4 * i, 4) {
        halted(Halt::InputExhausted)
    } else if growth_overflows(5, exact_grown(5, 20, usize_at(g, 200 + 8 * i) as nat), 2, item_size()) {
        halted(Halt::CapacityOverflow)
    } else {
        done(Seq::empty())
    }
}

/// Operation 6: an empty `SmallVec<[_; 16]>` resized with a read item to a
/// read length, exact room reserved, repeats removed; nothing is reported.
pub open spec fn op_6(g: Seq<u8>, i: int) -> Outcome {
    if !fits(g, 132 + 8 * i, 8) || !fits(g, 140 + 4 * i, 4) {
        halted(Halt::InputExhausted)
    } else {
        let n = usize_at(g, 132 + 8 * i) as nat;
        if n > 0 && growth_overflows(0, 16, n, item_size()) {
            halted(Halt::CapacityOverflow)
        } else if !fits(g, 200 + 8 * i, 8) {
            halted(Halt::InputExhausted)
        } else if reserve_overflows(n, if n > 0 { grown(0, 16, n) } else { 16 }, usize_at(g, 200 + 8 * i)) {
            halted(Halt::CapacityOverflow)
        } else {
            done(Seq::empty())
        }
    }
}

/// Operation 7: three read items taken over from a `Vec` by a
/// `SmallVec<[_; 24]>` (capacity `c` left open), exact room reserved; drain
/// a read range and report each item drained.
pub open spec fn op_7(g: Seq<u8>, i: int, c: nat) -> Outcome {
    if !reads_fit(g, 132 + 8 * i, 4, 3) || !fits(g, 200 + 8 * i, 8) {
        halted(Halt::InputExhausted)
    } else if reserve_overflows(3, open_cap(c, 3, 24, item_size()), usize_at(g, 200 + 8 * i)) {
        halted(Halt::CapacityOverflow)
    } else if !fits(g, 250 + 8 * i, 8) || !fits(g, 258 + 8 * i, 8) {
        halted(Halt::InputExhausted)
    } else {
        let ds = usize_at(g, 250 + 8 * i) as int;
        let de = usize_at(g, 258 + 8 * i) as int;
        if ds > de || de > 3 {
            halted(Halt::OutOfRange)
        } else {
            done(u32s_at(g, 132 + 8 * i, 4, 3).subrange(ds, de).map_values(|x: u32| Expect::U32(x)))
        }
    }
}

/// Operation 8: a `SmallVec<[_; 28]>` of twenty-eight zeros, exact room
/// reserved, cleared when a read byte is even, grown to a read capacity;
/// nothing is reported.
pub open spec fn op_8(g: Seq<u8>, i: int) -> Outcome {
    if !fits(g, 132 + 8 * i, 8) {
        halted(Halt::InputExhausted)
    } else if reserve_overflows(28, 28, usize_at(g, 132 + 8 * i)) {
        halted(Halt::CapacityOverflow)
    } else if !fits(g, 200 + i, 1) || !fits(g, 250 + 8 * i, 8) {
        halted(Halt::InputExhausted)
    } else {
        let len: nat = if g[200 + i] % 2 == 0 { 0 } else { 28 };
        let gc = usize_at(g, 250 + 8 * i) as nat;
        if gc < len {
            halted(Halt::OutOfRange)
        } else if gc > 28 && gc * item_size() > isize::MAX {
            halted(Halt::CapacityOverflow)
        } else {
            done(Seq::empty())
        }
    }
}

/// Operation 9: a read item pushed to a `SmallVec<[_; 36]>`, exact room
/// reserved; report its addresses.
pub open spec fn op_9(g: Seq<u8>, i: int) -> Outcome {
    if !fits(g, 132 + 4 * i, 4) || !fits(g, 200 + 8 * i, 8) {
        halted(Halt::InputExhausted)
    } else if reserve_overflows(1, 36, usize_at(g, 200 + 8 * i)) {
        halted(Halt::CapacityOverflow)
    } else {
        done(seq![Expect::Ptr, Expect::MutPtr])
    }
}

/// Operation 10: fifteen copies of a read item in a `SmallVec<[_; 15]>`,
/// exact room reserved; remove at a read index and report it.
pub open spec fn op_10(g: Seq<u8>, i: int) -> Outcome {
    if !fits(g, 132 + 4 * i, 4) || !fits(g, 200 + 8 * i, 8) {
        halted(Halt::InputExhausted)
    } else if reserve_overflows(15, 15, usize_at(g, 200 + 8 * i)) {
        halted(Halt::CapacityOverflow)
    } else if !fits(g, 250 + 8 * i, 8) {
        halted(Halt::InputExhausted)
    } else if usize_at(g, 250 + 8 * i) >= 15 {
        halted(Halt::OutOfRange)
    } else {
        done(seq![Expect::U32(u32_at(g, 132 + 4 * i))])
    }
}

/// Operation 11: copies of a read item, as many as read, in a
/// `SmallVec<[_; 32]>` (capacity `c` left open beyond 32), exact room
/// reserved; swap-remove at a read index and report it.
pub open spec fn op_11(g: Seq<u8>, i: int, c: nat) -> Outcome {
    if !fits(g, 132 + 4 * i, 4) || !fits(g, 136 + 8 * i, 8) {
        halted(Halt::InputExhausted)
    } else {
        let n = usize_at(g, 136 + 8 * i) as nat;
        let cap = if n <= 32 { 32 } else { open_cap(c, n, 32, item_size()) };
        if n > 32 && n * item_size() > isize::MAX {
            halted(Halt::CapacityOverflow)
        } else if !fits(g, 200 + 8 * i, 8) {
            halted(Halt::InputExhausted)
        } else if reserve_overflows(n, cap, usize_at(g, 200 + 8 * i)) {
            halted(Halt::CapacityOverflow)
        } else if !fits(g, 250 + 8 * i, 8) {
            halted(Halt::InputExhausted)
        } else if n == 0 {
            done(Seq::empty())
        } else if usize_at(g, 250 + 8 * i) >= n {
            halted(Halt::OutOfRange)
        } else {
            done(seq![Expect::U32(u32_at(g, 132 + 4 * i))])
        }
    }
}

/// Operation 12: four read items copied into a `SmallVec<[_; 32]>`, exact
/// room reserved, two read items inserted at a read index; nothing is
/// reported.
pub open spec fn op_12(g: Seq<u8>, i: int) -> Outcome {
    if !reads_fit(g, 132 + 8 * i, 4, 4) || !fits(g, 200 + 8 * i, 8) {
        halted(Halt::InputExhausted)
    } else if reserve_overflows(4, 32, usize_at(g, 200 + 8 * i)) {
        halted(Halt::CapacityOverflow)
    } else if !fits(g, 250 + 8 * i, 8) || !fits(g, 260 + 4 * i, 4) || !fits(g, 264 + 4 * i, 4) {
        halted(Halt::InputExhausted)
    } else if growth_overflows(4, exact_grown(4, 32, usize_at(g, 200 + 8 * i) as nat), 2, item_size()) {
        halted(Halt::CapacityOverflow)
    } else if usize_at(g, 250 + 8 * i) > 4 {
        halted(Halt::OutOfRange)
    } else {
        done(Seq::empty())
    }
}

/// Operation 13: two read items collected into a `SmallVec<[_; 32]>`, exact
/// room reserved; report its items as a `Vec`.
pub open spec fn op_13(g: Seq<u8>, i: int) -> Outcome {
    if !reads_fit(g, 132 + 8 * i, 4, 2) || !fits(g, 200 + 8 * i, 8) {
        halted(Halt::InputExhausted)
    } else if reserve_overflows(2, 32, usize_at(g, 200 + 8 * i)) {
        halted(Halt::CapacityOverflow)
    } else {
        done(seq![Expect::U32s(u32s_at(g, 132 + 8 * i, 4, 2))])
    }
}

/// Operation 14: an empty `SmallVec<[_; 64]>` with exact room reserved for a
/// read count, a read item pushed; report whether it spilled.
pub open spec fn op_14(g: Seq<u8>, i: int) -> Outcome {
    if !fits(g, 132 + 8 * i, 8) {
        halted(Halt::InputExhausted)
    } else if reserve_overflows(0, 64, usize_at(g, 132 + 8 * i)) {
        halted(Halt::CapacityOverflow)
    } else if !fits(g, 200 + 4 * i, 4) {
        halted(Halt::InputExhausted)
    } else {
        done(seq![Expect::Flag(exact_grown(0, 64, usize_at(g, 132 + 8 * i) as nat) > 64)])
    }
}

/// What operation `op` at position `i` is owed, the capacity left open being
/// `c`.
#[verifier::opaque]
pub open spec fn op_step(g: Seq<u8>, i: int, op: u8, c: nat) -> Outcome {
    if op == 0 {
        op_0(g, i, c)
    } else if op == 1 {
        op_1(g, i)
    } else if op == 2 {
        op_2(g, i)
    } else if op == 3 {
        op_3(g, i)
    } else if op == 4 {
        op_4(g, i)
    } else if op == 5 {
        op_5(g, i)
    } else if op == 6 {
        op_6(g, i)
    } else if op == 7 {
        op_7(g, i, c)
    } else if op == 8 {
        op_8(g, i)
    } else if op == 9 {
        op_9(g, i)
    } else if op == 10 {
        op_10(g, i)
    } else if op == 11 {
        op_11(g, i, c)
    } else if op == 12 {
        op_12(g, i)
    } else if op == 13 {
        op_13(g, i)
    } else {
        op_14(g, i)
    }
}

/// What operations `k` up to `count` owe, in turn, stopping at the first
/// that halts; the capacity left open in operation `k` is `cs[0]`, in the
/// next `cs[1]`, and so on.
pub open spec fn ops_from(g: Seq<u8>, k: nat, count: nat, cs: Seq<nat>) -> Outcome
    decreases count - k,
{
    if k >= count {
        (Seq::empty(), None)
    } else if !fits(g, 1 + k as int, 1) {
        halted(Halt::InputExhausted)
    } else {
        let st = op_step(g, k as int, g[1 + k as int] % 15, cs[0]);
        if st.1 is Some {
            st
        } else {
            let rest = ops_from(g, k + 1, count, cs.drop_first());
            (st.0 + rest.0, rest.1)
        }
    }
}

/// What a whole run is owed, the open capacities being `cs`. Inputs shorter
/// than 500 bytes are ignored.
pub open spec fn script_outcome(input_len: nat, g: Seq<u8>, cs: Seq<nat>) -> Outcome {
    if input_len < 500 {
        (Seq::empty(), None)
    } else if !fits(g, 0, 1) {
        halted(Halt::InputExhausted)
    } else {
        ops_from(g, 0, (g[0] as nat) % 65, cs)
    }
}

/// The vector of operation 0 (see `built_0`); where its capacity is left
/// open, the one it got.
fn build_0(g: &[u8], i: usize, ch: u8) -> (r: Result<(sv_u32::SmallVecU32, Ghost<nat>), Halt>)
    requires
        i < 65,
        ch < 6,
    ensures
        match r {
            Ok((v, c)) => v.wf() && built_0(g@, i as int, ch as nat, c@) == Ok::<(Seq<u32>, nat), Halt>(
                (sv_u32::sv_u32_items(v), sv_u32::sv_u32_cap(v)),
            ),
            Err(h) => built_0(g@, i as int, ch as nat, 0) == Err::<(Seq<u32>, nat), Halt>(h),
        },
{
    let z = core::mem::size_of::<u32>();
    proof {
        broadcast use vstd::layout::layout_of_primitives;
    }
    if ch == 0 {
        let n0 = match read_usize(g, 132 + 8 * i) {
            Some(x) => x,
            None => return Err(Halt::InputExhausted),
        };
        if exact_growth_overflows_exec(0, 16, n0, z) {
            return Err(Halt::CapacityOverflow);
        }
        let v = sv_u32::small_vec_u32_with_capacity(n0);
        Ok((v, Ghost(0)))
    } else if ch == 1 || ch == 3 {
        let n = match read_u8(g, 132 + 8 * i) {
            Some(x) => x % 65,
            None => return Err(Halt::InputExhausted),
        };
        let stride: usize = if ch == 1 { 1 } else { 4 };
        let items = match read_u32s(g, 200 + 8 * i, stride, n as usize) {
            Some(v) => v,
            None => return Err(Halt::InputExhausted),
        };
        if ch == 1 {
            let v = sv_u32::small_vec_u32_from_vec(items);
            Ok((v, Ghost(sv_u32::sv_u32_cap(v))))
        } else {
            let v = sv_u32::small_vec_u32_from_slice(items.as_slice());
            Ok((v, Ghost(sv_u32::sv_u32_cap(v))))
        }
    } else if ch == 2 {
        let items = match read_u32s(g, 200 + 8 * i, 4, 16) {
            Some(v) => v,
            None => return Err(Halt::InputExhausted),
        };
        let mut arr: [u32; 16] = [0u32; 16];
        let mut k: usize = 0;
        while k < 16
            invariant
                k <= 16,
                items@.len() == 16,
                arr@ == items@.take(k as int) + repeat(0u32, (16 - k) as nat),
            decreases 16 - k,
        {
            arr[k] = items[k];
            k = k + 1;
            assert(arr@ =~= items@.take(k as int) + repeat(0u32, (16 - k) as nat));
        }
        assert(arr@ =~= items@);
        let len = match read_usize(g, 264 + 8 * i) {
            Some(x) => x,
            None => return Err(Halt::InputExhausted),
        };
        if len > 16 {
            return Err(Halt::OutOfRange);
        }
        let v = sv_u32::small_vec_u32_from_buf_and_len(arr, len);
        Ok((v, Ghost(0)))
    } else if ch == 4 {
        let e = match read_u32(g, 132 + 8 * i) {
            Some(x) => x,
            None => return Err(Halt::InputExhausted),
        };
        let n = match read_usize(g, 136 + 8 * i) {
            Some(x) => x,
            None => return Err(Halt::InputExhausted),
        };
        let lim = (isize::MAX as usize) / z;
        assert((n > lim) == (n * z > isize::MAX)) by (nonlinear_arith)
            requires
                z > 0,
                lim == isize::MAX as int / z as int,
        ;
        if n > 16 && n > lim {
            return Err(Halt::CapacityOverflow);
        }
        let v = sv_u32::small_vec_u32_from_elem(e, n);
        Ok((v, Ghost(sv_u32::sv_u32_cap(v))))
    } else {
        let v = sv_u32::small_vec_u32_new();
        Ok((v, Ghost(0)))
    }
}

/// Operation 0 (see `op_0`); the capacity that the constructor left open is
/// the choice.
#[verifier::loop_isolation(false)]
fn run_op_0(g: &[u8], i: usize) -> (r: (Vec<Event>, Option<Halt>, Ghost<nat>))
    requires
        i < 65,
    ensures
        events_match(r.0@, op_0(g@, i as int, r.2@).0),
        r.1 == op_0(g@, i as int, r.2@).1,
{
    let z = core::mem::size_of::<u32>();
    proof {
        broadcast use vstd::layout::layout_of_primitives;
    }
    let none = Ghost(0nat);
    let ch = match read_u8(g, 66 + i) {
        Some(x) => x % 6,
        None => return (Vec::new(), Some(Halt::InputExhausted), none),
    };
    let (mut v, Ghost(c)) = match build_0(g, i, ch) {
        Ok(x) => x,
        Err(h) => return (Vec::new(), Some(h), none),
    };
    let r = match read_usize(g, 200 + 8 * i) {
        Some(x) => x,
        None => return (Vec::new(), Some(Halt::InputExhausted), Ghost(c)),
    };
    if exact_growth_overflows_exec(sv_u32::small_vec_u32_len(&v), sv_u32::small_vec_u32_capacity(&v), r, z) {
        return (Vec::new(), Some(Halt::CapacityOverflow), Ghost(c));
    }
    sv_u32::small_vec_u32_reserve_exact(&mut v, r);
    let mut events: Vec<Event> = Vec::new();
    events.push(Event::Count(sv_u32::small_vec_u32_capacity(&v)));
    let s = sv_u32::small_vec_u32_as_slice(&v);
    if s.len() > 0 {
        events.push(Event::U32(s[0]));
    }
    events.push(Event::Count(sv_u32::small_vec_u32_len(&v)));
    proof {
        let e = op_0(g@, i as int, c).0;
        assert(forall|k: int| 0 <= k < events@.len() ==> #[trigger] event_matches(events@[k], e[k]));
    }
    (events, None, Ghost(c))
}

/// Operation 1 (see `op_1`).
#[verifier::loop_isolation(false)]
fn run_op_1(g: &[u8], i: usize) -> (r: (Vec<Event>, Option<Halt>))
    requires
        i < 65,
    ensures
        events_match(r.0@, op_1(g@, i as int).0),
        r.1 == op_1(g@, i as int).1,
{
    let z = core::mem::size_of::<u32>();
    proof {
        broadcast use vstd::layout::layout_of_primitives;
    }
    let mut v = u32n32::small_vec_u32n32_new();
    let n = match read_u8(g, 132 + i) {
        Some(x) => x % 20,
        None => return (Vec::new(), Some(Halt::InputExhausted)),
    };
    let items = match read_u32s(g, 150 + 8 * i, 4, n as usize) {
        Some(x) => x,
        None => return (Vec::new(), Some(Halt::InputExhausted)),
    };
    let mut k: usize = 0;
    while k < items.len()
        invariant
            k <= items@.len() < 20,
            v.wf(),
            u32n32::sv_u32n32_cap(v) == 32,
            u32n32::sv_u32n32_items(v) == items@.take(k as int),
        decreases items.len() - k,
    {
        u32n32::small_vec_u32n32_push(&mut v, items[k]);
        k = k + 1;
        assert(u32n32::sv_u32n32_items(v) =~= items@.take(k as int));
    }
    assert(items@.take(items@.len() as int) =~= items@);
    let add = match read_usize(g, 200 + 8 * i) {
        Some(x) => x,
        None => return (Vec::new(), Some(Halt::InputExhausted)),
    };
    if exact_growth_overflows_exec(u32n32::small_vec_u32n32_len(&v), u32n32::small_vec_u32n32_capacity(&v), add, z) {
        return (Vec::new(), Some(Halt::CapacityOverflow));
    }
    u32n32::small_vec_u32n32_reserve_exact(&mut v, add);
    let mut events: Vec<Event> = Vec::new();
    if !u32n32::small_vec_u32n32_is_empty(&v) {
        match u32n32::small_vec_u32n32_pop(&mut v) {
            Some(x) => events.push(Event::U32(x)),
            None => {},
        }
    }
    let m = u32n32::small_vec_u32n32_as_mut_slice(&mut v);
    if m.len() > 0 {
        events.push(Event::U32(m[0]));
    }
    proof {
        let e = op_1(g@, i as int).0;
        assert(forall|k: int| 0 <= k < events@.len() ==> #[trigger] event_matches(events@[k], e[k]));
    }
    (events, None)
}

/// Read items pushed one by one to a fresh `SmallVec<[_; 8]>`.
fn pushed_8(items: &Vec<u32>) -> (r: u32n8::SmallVecU32N8)
    requires
        items@.len() <= 9,
    ensures
        r.wf(),
        u32n8::sv_u32n8_items(r) == items@,
        u32n8::sv_u32n8_cap(r) == pushed_cap_8(items@.len()),
{
    let mut v = u32n8::small_vec_u32n8_new();
    let mut k: usize = 0;
    while k < items.len()
        invariant
            k <= items@.len() <= 9,
            v.wf(),
            u32n8::sv_u32n8_cap(v) == pushed_cap_8(k as nat),
            u32n8::sv_u32n8_items(v) == items@.take(k as int),
        decreases items.len() - k,
    {
        proof {
            reveal_with_fuel(crate::small_vec::next_pow2, 5);
            crate::small_vec::lemma_small_push(k as nat, u32n8::sv_u32n8_cap(v), vstd::layout::size_of::<u32>());
        }
        u32n8::small_vec_u32n8_push(&mut v, items[k]);
        k = k + 1;
        assert(u32n8::sv_u32n8_items(v) =~= items@.take(k as int));
    }
    assert(items@.take(items@.len() as int) =~= items@);
    v
}

/// Operation 2 (see `op_2`).
#[verifier::loop_isolation(false)]
fn run_op_2(g: &[u8], i: usize) -> (r: (Vec<Event>, Option<Halt>))
    requires
        i < 65,
    ensures
        events_match(r.0@, op_2(g@, i as int).0),
        r.1 == op_2(g@, i as int).1,
{
    let z = core::mem::size_of::<u32>();
    proof {
        broadcast use vstd::layout::layout_of_primitives;
    }
    let n1 = match read_u8(g, 132 + i) {
        Some(x) => x % 10,
        None => return (Vec::new(), Some(Halt::InputExhausted)),
    };
    let a = match read_u32s(g, 150, 4, n1 as usize) {
        Some(x) => x,
        None => return (Vec::new(), Some(Halt::InputExhausted)),
    };
    let mut v1 = pushed_8(&a);
    let n2 = match read_u8(g, 133 + i) {
        Some(x) => x % 10,
        None => return (Vec::new(), Some(Halt::InputExhausted)),
    };
    let b = match read_u32s(g, 200, 4, n2 as usize) {
        Some(x) => x,
        None => return (Vec::new(), Some(Halt::InputExhausted)),
    };
    let mut v2 = pushed_8(&b);
    let add = match read_usize(g, 250 + 8 * i) {
        Some(x) => x,
        None => return (Vec::new(), Some(Halt::InputExhausted)),
    };
    let len1 = n1 as usize;
    let cap1: usize = if len1 <= 8 { 8 } else { 16 };
    if exact_growth_overflows_exec(len1, cap1, add, z) {
        return (Vec::new(), Some(Halt::CapacityOverflow));
    }
    u32n8::small_vec_u32n8_reserve_exact(&mut v1, add);
    proof {
        crate::small_vec::lemma_small_growth_sized(n1 as nat, u32n8::sv_u32n8_cap(v1), n2 as nat, z as nat);
    }
    u32n8::small_vec_u32n8_append(&mut v1, &mut v2);
    let mut events: Vec<Event> = Vec::new();
    events.push(Event::Compared(u32n8::small_vec_u32n8_compare(&v1, &v2)));
    proof {
        let e = op_2(g@, i as int).0;
        assert(forall|k: int| 0 <= k < events@.len() ==> #[trigger] event_matches(events@[k], e[k]));
    }
    (events, None)
}

/// Operation 3 (see `op_3`).
#[verifier::loop_isolation(false)]
fn run_op_3(g: &[u8], i: usize) -> (r: (Vec<Event>, Option<Halt>))
    requires
        i < 65,
    ensures
        events_match(r.0@, op_3(g@, i as int).0),
        r.1 == op_3(g@, i as int).1,
{
    let z = core::mem::size_of::<u32>();
    proof {
        broadcast use vstd::layout::layout_of_primitives;
    }
    let n0 = match read_usize(g, 132 + 8 * i) {
        Some(x) => x,
        None => return (Vec::new(), Some(Halt::InputExhausted)),
    };
    if exact_growth_overflows_exec(0, 64, n0, z) {
        return (Vec::new(), Some(Halt::CapacityOverflow));
    }
    let mut v = u32n64::small_vec_u32n64_with_capacity(n0);
    let k = match read_u8(g, 200 + i) {
        Some(x) => x % 15,
        None => return (Vec::new(), Some(Halt::InputExhausted)),
    };
    let items = match read_u32s(g, 210, 4, k as usize) {
        Some(x) => x,
        None => return (Vec::new(), Some(Halt::InputExhausted)),
    };
    let ghost cap0 = u32n64::sv_u32n64_cap(v);
    let mut j: usize = 0;
    while j < items.len()
        invariant
            j <= items@.len() < 15,
            v.wf(),
            cap0 >= 64,
            u32n64::sv_u32n64_cap(v) == cap0,
            u32n64::sv_u32n64_items(v) == items@.take(j as int),
        decreases items.len() - j,
    {
        u32n64::small_vec_u32n64_push(&mut v, items[j]);
        j = j + 1;
        assert(u32n64::sv_u32n64_items(v) =~= items@.take(j as int));
    }
    assert(items@.take(items@.len() as int) =~= items@);
    let add = match read_usize(g, 250 + 8 * i) {
        Some(x) => x,
        None => return (Vec::new(), Some(Halt::InputExhausted)),
    };
    if exact_growth_overflows_exec(u32n64::small_vec_u32n64_len(&v), u32n64::small_vec_u32n64_capacity(&v), add, z) {
        return (Vec::new(), Some(Halt::CapacityOverflow));
    }
    u32n64::small_vec_u32n64_reserve_exact(&mut v, add);
    if !u32n64::small_vec_u32n64_is_empty(&v) {
        let index = match read_usize(g, 260 + 8 * i) {
            Some(x) => x,
            None => return (Vec::new(), Some(Halt::InputExhausted)),
        };
        let elem = match read_u32(g, 270 + 4 * i) {
            Some(x) => x,
            None => return (Vec::new(), Some(Halt::InputExhausted)),
        };
        if index > u32n64::small_vec_u32n64_len(&v) {
            return (Vec::new(), Some(Halt::OutOfRange));
        }
        u32n64::small_vec_u32n64_insert(&mut v, index, elem);
    }
    u32n64::small_vec_u32n64_shrink_to_fit(&mut v);
    (Vec::new(), None)
}

/// Operation 4 (see `op_4`).
#[verifier::loop_isolation(false)]
fn run_op_4(g: &[u8], i: usize) -> (r: (Vec<Event>, Option<Halt>))
    requires
        i < 65,
    ensures
        events_match(r.0@, op_4(g@, i as int).0),
        r.1 == op_4(g@, i as int).1,
{
    let z = core::mem::size_of::<u32>();
    proof {
        broadcast use vstd::layout::layout_of_primitives;
    }
    let mut v = u32n12::small_vec_u32n12_new();
    let n = match read_u8(g, 132 + i) {
        Some(x) => x % 30,
        None => return (Vec::new(), Some(Halt::InputExhausted)),
    };
    let items = match read_u32s(g, 150, 4, n as usize) {
        Some(x) => x,
        None => return (Vec::new(), Some(Halt::InputExhausted)),
    };
    proof {
        crate::small_vec::lemma_small_growth_sized(0, 12, n as nat, z as nat);
    }
    u32n12::small_vec_u32n12_extend(&mut v, items);
    let add = match read_usize(g, 250 + 8 * i) {
        Some(x) => x,
        None => return (Vec::new(), Some(Halt::InputExhausted)),
    };
    if exact_growth_overflows_exec(u32n12::small_vec_u32n12_len(&v), u32n12::small_vec_u32n12_capacity(&v), add, z) {
        return (Vec::new(), Some(Halt::CapacityOverflow));
    }
    u32n12::small_vec_u32n12_reserve_exact(&mut v, add);
    let t = match read_usize(g, 260 + 8 * i) {
        Some(x) => x,
        None => return (Vec::new(), Some(Halt::InputExhausted)),
    };
    u32n12::small_vec_u32n12_truncate(&mut v, t);
    (Vec::new(), None)
}

/// Operation 5 (see `op_5`).
#[verifier::loop_isolation(false)]
fn run_op_5(g: &[u8], i: usize) -> (r: (Vec<Event>, Option<Halt>))
    requires
        i < 65,
    ensures
        events_match(r.0@, op_5(g@, i as int).0),
        r.1 == op_5(g@, i as int).1,
{
    let z = core::mem::size_of::<u32>();
    proof {
        broadcast use vstd::layout::layout_of_primitives;
    }
    let items = match read_u32s(g, 132 + 8 * i, 4, 5) {
        Some(x) => x,
        None => return (Vec::new(), Some(Halt::InputExhausted)),
    };
    let mut v = u32n20::small_vec_u32n20_from_slice(items.as_slice());
    let add = match read_usize(g, 200 + 8 * i) {
        Some(x) => x,
        None => return (Vec::new(), Some(Halt::InputExhausted)),
    };
    if exact_growth_overflows_exec(5, 20, add, z) {
        return (Vec::new(), Some(Halt::CapacityOverflow));
    }
    u32n20::small_vec_u32n20_reserve_exact(&mut v, add);
    let x = match read_u32(g, 250 + 4 * i) {
        Some(x) => x,
        None => return (Vec::new(), Some(Halt::InputExhausted)),
    };
    let y = match read_u32(g, 254 + 4 * i) {
        Some(y) => y,
        None => return (Vec::new(), Some(Halt::InputExhausted)),
    };
    let more: [u32; 2] = [x, y];
    let cap1: usize = if add <= 15 { 20 } else { 5 + add };
    if growth_overflows_exec(5, cap1, 2, z) {
        return (Vec::new(), Some(Halt::CapacityOverflow));
    }
    u32n20::small_vec_u32n20_extend_from_slice(&mut v, &more);
    (Vec::new(), None)
}

/// Operation 6 (see `op_6`).
#[verifier::loop_isolation(false)]
fn run_op_6(g: &[u8], i: usize) -> (r: (Vec<Event>, Option<Halt>))
    requires
        i < 65,
    ensures
        events_match(r.0@, op_6(g@, i as int).0),
        r.1 == op_6(g@, i as int).1,
{
    let z = core::mem::size_of::<u32>();
    proof {
        broadcast use vstd::layout::layout_of_primitives;
    }
    let mut v = sv_u32::small_vec_u32_new();
    let n = match read_usize(g, 132 + 8 * i) {
        Some(x) => x,
        None => return (Vec::new(), Some(Halt::InputExhausted)),
    };
    let val = match read_u32(g, 140 + 4 * i) {
        Some(x) => x,
        None => return (Vec::new(), Some(Halt::InputExhausted)),
    };
    if n > 0 && growth_overflows_exec(0, 16, n, z) {
        return (Vec::new(), Some(Halt::CapacityOverflow));
    }
    sv_u32::small_vec_u32_resize(&mut v, n, val);
    let add = match read_usize(g, 200 + 8 * i) {
        Some(x) => x,
        None => return (Vec::new(), Some(Halt::InputExhausted)),
    };
    if exact_growth_overflows_exec(sv_u32::small_vec_u32_len(&v), sv_u32::small_vec_u32_capacity(&v), add, z) {
        return (Vec::new(), Some(Halt::CapacityOverflow));
    }
    sv_u32::small_vec_u32_reserve_exact(&mut v, add);
    sv_u32::small_vec_u32_dedup(&mut v);
    (Vec::new(), None)
}

/// Operation 7 (see `op_7`); the capacity that the vector took over is the
/// choice.
#[verifier::loop_isolation(false)]
fn run_op_7(g: &[u8], i: usize) -> (r: (Vec<Event>, Option<Halt>, Ghost<nat>))
    requires
        i < 65,
    ensures
        events_match(r.0@, op_7(g@, i as int, r.2@).0),
        r.1 == op_7(g@, i as int, r.2@).1,
{
    let z = core::mem::size_of::<u32>();
    proof {
        broadcast use vstd::layout::layout_of_primitives;
    }
    let none = Ghost(0nat);
    let items = match read_u32s(g, 132 + 8 * i, 4, 3) {
        Some(x) => x,
        None => return (Vec::new(), Some(Halt::InputExhausted), none),
    };
    let mut v = u32n24::small_vec_u32n24_from_vec(items);
    let c = Ghost(u32n24::sv_u32n24_cap(v));
    let add = match read_usize(g, 200 + 8 * i) {
        Some(x) => x,
        None => return (Vec::new(), Some(Halt::InputExhausted), c),
    };
    if exact_growth_overflows_exec(u32n24::small_vec_u32n24_len(&v), u32n24::small_vec_u32n24_capacity(&v), add, z) {
        return (Vec::new(), Some(Halt::CapacityOverflow), c);
    }
    u32n24::small_vec_u32n24_reserve_exact(&mut v, add);
    let ds = match read_usize(g, 250 + 8 * i) {
        Some(x) => x,
        None => return (Vec::new(), Some(Halt::InputExhausted), c),
    };
    let de = match read_usize(g, 258 + 8 * i) {
        Some(x) => x,
        None => return (Vec::new(), Some(Halt::InputExhausted), c),
    };
    if ds > de || de > u32n24::small_vec_u32n24_len(&v) {
        return (Vec::new(), Some(Halt::OutOfRange), c);
    }
    let drained = u32n24::small_vec_u32n24_drain(&mut v, ds, de);
    let ghost e = op_7(g@, i as int, c@).0;
    let mut events: Vec<Event> = Vec::new();
    let mut k: usize = 0;
    while k < drained.len()
        invariant
            k <= drained@.len(),
            e == op_7(g@, i as int, c@).0,
            e.len() == drained@.len(),
            drained@ == u32s_at(g@, 132 + 8 * i, 4, 3).subrange(ds as int, de as int),
            events@.len() == k,
            forall|j: int| 0 <= j < events@.len() ==> #[trigger] event_matches(events@[j], e[j]),
        decreases drained.len() - k,
    {
        events.push(Event::U32(drained[k]));
        k = k + 1;
    }
    (events, None, c)
}

/// Operation 8 (see `op_8`).
#[verifier::loop_isolation(false)]
fn run_op_8(g: &[u8], i: usize) -> (r: (Vec<Event>, Option<Halt>))
    requires
        i < 65,
    ensures
        events_match(r.0@, op_8(g@, i as int).0),
        r.1 == op_8(g@, i as int).1,
{
    let z = core::mem::size_of::<u32>();
    proof {
        broadcast use vstd::layout::layout_of_primitives;
    }
    let arr: [u32; 28] = [0u32; 28];
    let mut v = u32n28::small_vec_u32n28_from_buf(arr);
    let add = match read_usize(g, 132 + 8 * i) {
        Some(x) => x,
        None => return (Vec::new(), Some(Halt::InputExhausted)),
    };
    if exact_growth_overflows_exec(28, 28, add, z) {
        return (Vec::new(), Some(Halt::CapacityOverflow));
    }
    u32n28::small_vec_u32n28_reserve_exact(&mut v, add);
    let flag = match read_u8(g, 200 + i) {
        Some(b) => b % 2 == 0,
        None => return (Vec::new(), Some(Halt::InputExhausted)),
    };
    if flag {
        u32n28::small_vec_u32n28_clear(&mut v);
    }
    let gc = match read_usize(g, 250 + 8 * i) {
        Some(x) => x,
        None => return (Vec::new(), Some(Halt::InputExhausted)),
    };
    if gc < u32n28::small_vec_u32n28_len(&v) {
        return (Vec::new(), Some(Halt::OutOfRange));
    }
    let lim = (isize::MAX as usize) / z;
    assert((gc > lim) == (gc * z > isize::MAX)) by (nonlinear_arith)
        requires
            z > 0,
            lim == isize::MAX as int / z as int,
    ;
    if gc > 28 && gc > lim {
        return (Vec::new(), Some(Halt::CapacityOverflow));
    }
    u32n28::small_vec_u32n28_grow(&mut v, gc);
    (Vec::new(), None)
}

/// Operation 9 (see `op_9`).
#[verifier::loop_isolation(false)]
fn run_op_9(g: &[u8], i: usize) -> (r: (Vec<Event>, Option<Halt>))
    requires
        i < 65,
    ensures
        events_match(r.0@, op_9(g@, i as int).0),
        r.1 == op_9(g@, i as int).1,
{
    let z = core::mem::size_of::<u32>();
    proof {
        broadcast use vstd::layout::layout_of_primitives;
    }
    let mut v = u32n36::small_vec_u32n36_new();
    let x = match read_u32(g, 132 + 4 * i) {
        Some(x) => x,
        None => return (Vec::new(), Some(Halt::InputExhausted)),
    };
    u32n36::small_vec_u32n36_push(&mut v, x);
    let add = match read_usize(g, 200 + 8 * i) {
        Some(x) => x,
        None => return (Vec::new(), Some(Halt::InputExhausted)),
    };
    if exact_growth_overflows_exec(1, 36, add, z) {
        return (Vec::new(), Some(Halt::CapacityOverflow));
    }
    u32n36::small_vec_u32n36_reserve_exact(&mut v, add);
    let mut events: Vec<Event> = Vec::new();
    events.push(Event::Ptr(u32n36::small_vec_u32n36_as_ptr(&v)));
    events.push(Event::MutPtr(u32n36::small_vec_u32n36_as_mut_ptr(&mut v)));
    proof {
        let e = op_9(g@, i as int).0;
        assert(forall|k: int| 0 <= k < events@.len() ==> #[trigger] event_matches(events@[k], e[k]));
    }
    (events, None)
}

/// Operation 10 (see `op_10`).
#[verifier::loop_isolation(false)]
fn run_op_10(g: &[u8], i: usize) -> (r: (Vec<Event>, Option<Halt>))
    requires
        i < 65,
    ensures
        events_match(r.0@, op_10(g@, i as int).0),
        r.1 == op_10(g@, i as int).1,
{
    let z = core::mem::size_of::<u32>();
    proof {
        broadcast use vstd::layout::layout_of_primitives;
    }
    let x = match read_u32(g, 132 + 4 * i) {
        Some(x) => x,
        None => return (Vec::new(), Some(Halt::InputExhausted)),
    };
    let init: [u32; 15] = [x; 15];
    assert(init@ =~= repeat(x, 15));
    let mut v = u32n15::small_vec_u32n15_from_slice(&init);
    let add = match read_usize(g, 200 + 8 * i) {
        Some(x) => x,
        None => return (Vec::new(), Some(Halt::InputExhausted)),
    };
    if exact_growth_overflows_exec(15, 15, add, z) {
        return (Vec::new(), Some(Halt::CapacityOverflow));
    }
    u32n15::small_vec_u32n15_reserve_exact(&mut v, add);
    let idx = match read_usize(g, 250 + 8 * i) {
        Some(x) => x,
        None => return (Vec::new(), Some(Halt::InputExhausted)),
    };
    let mut events: Vec<Event> = Vec::new();
    if !u32n15::small_vec_u32n15_is_empty(&v) {
        if idx >= 15 {
            return (Vec::new(), Some(Halt::OutOfRange));
        }
        events.push(Event::U32(u32n15::small_vec_u32n15_remove(&mut v, idx)));
    }
    proof {
        let e = op_10(g@, i as int).0;
        assert(forall|k: int| 0 <= k < events@.len() ==> #[trigger] event_matches(events@[k], e[k]));
    }
    (events, None)
}

/// Operation 11 (see `op_11`); the capacity that the vector took over is
/// the choice.
#[verifier::loop_isolation(false)]
fn run_op_11(g: &[u8], i: usize) -> (r: (Vec<Event>, Option<Halt>, Ghost<nat>))
    requires
        i < 65,
    ensures
        events_match(r.0@, op_11(g@, i as int, r.2@).0),
        r.1 == op_11(g@, i as int, r.2@).1,
{
    let z = core::mem::size_of::<u32>();
    proof {
        broadcast use vstd::layout::layout_of_primitives;
    }
    let none = Ghost(0nat);
    let e = match read_u32(g, 132 + 4 * i) {
        Some(x) => x,
        None => return (Vec::new(), Some(Halt::InputExhausted), none),
    };
    let n = match read_usize(g, 136 + 8 * i) {
        Some(x) => x,
        None => return (Vec::new(), Some(Halt::InputExhausted), none),
    };
    let lim = (isize::MAX as usize) / z;
    assert((n > lim) == (n * z > isize::MAX)) by (nonlinear_arith)
        requires
            z > 0,
            lim == isize::MAX as int / z as int,
    ;
    if n > 32 && n > lim {
        return (Vec::new(), Some(Halt::CapacityOverflow), none);
    }
    let mut v = u32n32::small_vec_u32n32_from_elem(e, n);
    let c = Ghost(u32n32::sv_u32n32_cap(v));
    let add = match read_usize(g, 200 + 8 * i) {
        Some(x) => x,
        None => return (Vec::new(), Some(Halt::InputExhausted), c),
    };
    if exact_growth_overflows_exec(u32n32::small_vec_u32n32_len(&v), u32n32::small_vec_u32n32_capacity(&v), add, z) {
        return (Vec::new(), Some(Halt::CapacityOverflow), c);
    }
    u32n32::small_vec_u32n32_reserve_exact(&mut v, add);
    let idx = match read_usize(g, 250 + 8 * i) {
        Some(x) => x,
        None => return (Vec::new(), Some(Halt::InputExhausted), c),
    };
    let mut events: Vec<Event> = Vec::new();
    if !u32n32::small_vec_u32n32_is_empty(&v) {
        if idx >= u32n32::small_vec_u32n32_len(&v) {
            return (Vec::new(), Some(Halt::OutOfRange), c);
        }
        events.push(Event::U32(u32n32::small_vec_u32n32_swap_remove(&mut v, idx)));
    }
    proof {
        let x = op_11(g@, i as int, c@).0;
        assert(forall|k: int| 0 <= k < events@.len() ==> #[trigger] event_matches(events@[k], x[k]));
    }
    (events, None, c)
}

/// Operation 12 (see `op_12`).
#[verifier::loop_isolation(false)]
fn run_op_12(g: &[u8], i: usize) -> (r: (Vec<Event>, Option<Halt>))
    requires
        i < 65,
    ensures
        events_match(r.0@, op_12(g@, i as int).0),
        r.1 == op_12(g@, i as int).1,
{
    let z = core::mem::size_of::<u32>();
    proof {
        broadcast use vstd::layout::layout_of_primitives;
    }
    let items = match read_u32s(g, 132 + 8 * i, 4, 4) {
        Some(x) => x,
        None => return (Vec::new(), Some(Halt::InputExhausted)),
    };
    let mut v = u32n32::small_vec_u32n32_to_small_vec(items.as_slice());
    let add = match read_usize(g, 200 + 8 * i) {
        Some(x) => x,
        None => return (Vec::new(), Some(Halt::InputExhausted)),
    };
    if exact_growth_overflows_exec(4, 32, add, z) {
        return (Vec::new(), Some(Halt::CapacityOverflow));
    }
    u32n32::small_vec_u32n32_reserve_exact(&mut v, add);
    let idx = match read_usize(g, 250 + 8 * i) {
        Some(x) => x,
        None => return (Vec::new(), Some(Halt::InputExhausted)),
    };
    let x = match read_u32(g, 260 + 4 * i) {
        Some(x) => x,
        None => return (Vec::new(), Some(Halt::InputExhausted)),
    };
    let y = match read_u32(g, 264 + 4 * i) {
        Some(y) => y,
        None => return (Vec::new(), Some(Halt::InputExhausted)),
    };
    let two: [u32; 2] = [x, y];
    if growth_overflows_exec(4, u32n32::small_vec_u32n32_capacity(&v), 2, z) {
        return (Vec::new(), Some(Halt::CapacityOverflow));
    }
    if idx > 4 {
        return (Vec::new(), Some(Halt::OutOfRange));
    }
    u32n32::small_vec_u32n32_insert_from_slice(&mut v, idx, &two);
    (Vec::new(), None)
}

/// Operation 13 (see `op_13`).
#[verifier::loop_isolation(false)]
fn run_op_13(g: &[u8], i: usize) -> (r: (Vec<Event>, Option<Halt>))
    requires
        i < 65,
    ensures
        events_match(r.0@, op_13(g@, i as int).0),
        r.1 == op_13(g@, i as int).1,
{
    let z = core::mem::size_of::<u32>();
    proof {
        broadcast use vstd::layout::layout_of_primitives;
    }
    let items = match read_u32s(g, 132 + 8 * i, 4, 2) {
        Some(x) => x,
        None => return (Vec::new(), Some(Halt::InputExhausted)),
    };
    let mut v = u32n32::small_vec_u32n32_from_iter(items);
    let add = match read_usize(g, 200 + 8 * i) {
        Some(x) => x,
        None => return (Vec::new(), Some(Halt::InputExhausted)),
    };
    if exact_growth_overflows_exec(2, 32, add, z) {
        return (Vec::new(), Some(Halt::CapacityOverflow));
    }
    u32n32::small_vec_u32n32_reserve_exact(&mut v, add);
    let mut events: Vec<Event> = Vec::new();
    events.push(Event::U32s(u32n32::small_vec_u32n32_into_vec(v)));
    proof {
        let e = op_13(g@, i as int).0;
        assert(forall|k: int| 0 <= k < events@.len() ==> #[trigger] event_matches(events@[k], e[k]));
    }
    (events, None)
}

/// Operation 14 (see `op_14`).
#[verifier::loop_isolation(false)]
fn run_op_14(g: &[u8], i: usize) -> (r: (Vec<Event>, Option<Halt>))
    requires
        i < 65,
    ensures
        events_match(r.0@, op_14(g@, i as int).0),
        r.1 == op_14(g@, i as int).1,
{
    let z = core::mem::size_of::<u32>();
    proof {
        broadcast use vstd::layout::layout_of_primitives;
    }
    let mut v = u32n64::small_vec_u32n64_new();
    let add = match read_usize(g, 132 + 8 * i) {
        Some(x) => x,
        None => return (Vec::new(), Some(Halt::InputExhausted)),
    };
    if exact_growth_overflows_exec(0, 64, add, z) {
        return (Vec::new(), Some(Halt::CapacityOverflow));
    }
    u32n64::small_vec_u32n64_reserve_exact(&mut v, add);
    let x = match read_u32(g, 200 + 4 * i) {
        Some(x) => x,
        None => return (Vec::new(), Some(Halt::InputExhausted)),
    };
    u32n64::small_vec_u32n64_push(&mut v, x);
    let mut events: Vec<Event> = Vec::new();
    events.push(Event::Flag(u32n64::small_vec_u32n64_spilled(&v)));
    proof {
        let e = op_14(g@, i as int).0;
        assert(forall|k: int| 0 <= k < events@.len() ==> #[trigger] event_matches(events@[k], e[k]));
    }
    (events, None)
}

/// The operation `op` at position `i` (see `op_step`); the capacity that
/// operation 0, 7 or 11 got is the choice.
fn run_op(g: &[u8], i: usize, op: u8) -> (r: (Vec<Event>, Option<Halt>, Ghost<nat>))
    requires
        i < 65,
    ensures
        events_match(r.0@, op_step(g@, i as int, op, r.2@).0),
        r.1 == op_step(g@, i as int, op, r.2@).1,
{
    reveal(op_step);
    let none = Ghost(0nat);
    if op == 0 {
        return run_op_0(g, i);
    }
    if op == 7 {
        return run_op_7(g, i);
    }
    if op == 11 {
        return run_op_11(g, i);
    }
    let (events, halt) = if op == 1 {
        run_op_1(g, i)
    } else if op == 2 {
        run_op_2(g, i)
    } else if op == 3 {
        run_op_3(g, i)
    } else if op == 4 {
        run_op_4(g, i)
    } else if op == 5 {
        run_op_5(g, i)
    } else if op == 6 {
        run_op_6(g, i)
    } else if op == 8 {
        run_op_8(g, i)
    } else if op == 9 {
        run_op_9(g, i)
    } else if op == 10 {
        run_op_10(g, i)
    } else if op == 12 {
        run_op_12(g, i)
    } else if op == 13 {
        run_op_13(g, i)
    } else {
        run_op_14(g, i)
    };
    (events, halt, none)
}

/// Once operation `k` has run without halting, the run's outcome is what was
/// owed so far and its events, followed by what the later operations owe.
proof fn lemma_run_continues(
    input_len: nat,
    g: Seq<u8>,
    k: nat,
    count: nat,
    done_cs: Seq<nat>,
    owed: Seq<Expect>,
    c: nat,
)
    requires
        forall|rest: Seq<nat>|
            #![trigger ops_from(g, k, count, rest)]
            script_outcome(input_len, g, done_cs + rest) == (
                owed + ops_from(g, k, count, rest).0,
                ops_from(g, k, count, rest).1,
            ),
        k < count,
        fits(g, 1 + k as int, 1),
        op_step(g, k as int, g[1 + k as int] % 15, c).1 is None,
    ensures
        ({
            let st = op_step(g, k as int, g[1 + k as int] % 15, c);
            forall|rest: Seq<nat>|
                #![trigger ops_from(g, k + 1, count, rest)]
                script_outcome(input_len, g, done_cs.push(c) + rest) == (
                    (owed + st.0) + ops_from(g, k + 1, count, rest).0,
                    ops_from(g, k + 1, count, rest).1,
                )
        }),
{
    let st = op_step(g, k as int, g[1 + k as int] % 15, c);
    assert forall|rest: Seq<nat>|
        #![trigger ops_from(g, k + 1, count, rest)]
        script_outcome(input_len, g, done_cs.push(c) + rest) == (
            (owed + st.0) + ops_from(g, k + 1, count, rest).0,
            ops_from(g, k + 1, count, rest).1,
        ) by {
        let full = seq![c] + rest;
        assert(done_cs.push(c) + rest =~= done_cs + full);
        assert(full.drop_first() =~= rest);
        let tail = ops_from(g, k + 1, count, rest);
        assert(ops_from(g, k, count, full) == (st.0 + tail.0, tail.1));
        assert(owed + (st.0 + tail.0) =~= (owed + st.0) + tail.0);
    }
}

/// Where operation `k` halts, the run's outcome is what was owed so far and
/// its events, and the halt.
proof fn lemma_run_halts(
    input_len: nat,
    g: Seq<u8>,
    k: nat,
    count: nat,
    done_cs: Seq<nat>,
    owed: Seq<Expect>,
    c: nat,
)
    requires
        forall|rest: Seq<nat>|
            #![trigger ops_from(g, k, count, rest)]
            script_outcome(input_len, g, done_cs + rest) == (
                owed + ops_from(g, k, count, rest).0,
                ops_from(g, k, count, rest).1,
            ),
        k < count,
        fits(g, 1 + k as int, 1),
        op_step(g, k as int, g[1 + k as int] % 15, c).1 is Some,
    ensures
        script_outcome(input_len, g, done_cs.push(c)) == (
            owed + op_step(g, k as int, g[1 + k as int] % 15, c).0,
            op_step(g, k as int, g[1 + k as int] % 15, c).1,
        ),
{
    let full = seq![c];
    assert(done_cs.push(c) =~= done_cs + full);
    assert(full[0] == c);
    assert(ops_from(g, k, count, full) == op_step(g, k as int, g[1 + k as int] % 15, c));
}

/// The events of a run, and why it stopped early, if it did.
pub struct Run {
    pub events: Vec<Event>,
    pub halt: Option<Halt>,
}

/// Runs the script of an input of `input_len` bytes whose first half is
/// `first`. What it reports is owed for some capacities that the outside
/// crate leaves open.
pub fn run(input_len: usize, first: &[u8]) -> (r: Run)
    ensures
        exists|cs: Seq<nat>|
            #![trigger script_outcome(input_len as nat, first@, cs)]
            events_match(r.events@, script_outcome(input_len as nat, first@, cs).0) && r.halt
                == script_outcome(input_len as nat, first@, cs).1,
{
    let mut events: Vec<Event> = Vec::new();
    let ghost none = Seq::<nat>::empty();
    let ghost g = first@;
    if input_len < 500 {
        assert(script_outcome(input_len as nat, g, none).0 =~= Seq::<Expect>::empty());
        return Run { events, halt: None };
    }
    let count = match read_u8(first, 0) {
        Some(x) => x % 65,
        None => {
            assert(script_outcome(input_len as nat, g, none).0 =~= Seq::<Expect>::empty());
            return Run { events, halt: Some(Halt::InputExhausted) };
        },
    };
    let ghost n = count as nat;
    let ghost mut done_cs = Seq::<nat>::empty();
    let ghost mut owed = Seq::<Expect>::empty();
    let ghost mut gk: nat = 0;
    assert forall|rest: Seq<nat>|
        #![trigger ops_from(g, gk, n, rest)]
        script_outcome(input_len as nat, g, done_cs + rest) == (
            owed + ops_from(g, gk, n, rest).0,
            ops_from(g, gk, n, rest).1,
        ) by {
        assert(done_cs + rest =~= rest);
        assert(owed + ops_from(g, gk, n, rest).0 =~= ops_from(g, gk, n, rest).0);
    }
    let mut i: usize = 0;
    while i < count as usize
        invariant
            i <= count < 65,
            input_len >= 500,
            g == first@,
            fits(g, 0, 1),
            n == count as nat,
            n == (g[0] as nat) % 65,
            gk == i as nat,
            none == Seq::<nat>::empty(),
            events_match(events@, owed),
            forall|rest: Seq<nat>|
                #![trigger ops_from(g, gk, n, rest)]
                script_outcome(input_len as nat, g, done_cs + rest) == (
                    owed + ops_from(g, gk, n, rest).0,
                    ops_from(g, gk, n, rest).1,
                ),
        decreases count as usize - i,
    {
        let op = match read_u8(first, 1 + i) {
            Some(x) => x % 15,
            None => {
                proof {
                    assert(ops_from(g, gk, n, none) == halted(Halt::InputExhausted));
                    assert(owed + Seq::<Expect>::empty() =~= owed);
                }
                return Run { events, halt: Some(Halt::InputExhausted) };
            },
        };
        let (evs, halt, Ghost(c)) = run_op(first, i, op);
        let ghost st = op_step(g, gk as int, op, c);
        proof {
            lemma_events_match_append(events@, owed, evs@, st.0);
        }
        let mut evs = evs;
        events.append(&mut evs);
        if halt.is_some() {
            proof {
                lemma_run_halts(input_len as nat, g, gk, n, done_cs, owed, c);
            }
            return Run { events, halt };
        }
        proof {
            lemma_run_continues(input_len as nat, g, gk, n, done_cs, owed, c);
            done_cs = done_cs.push(c);
            owed = owed + st.0;
            gk = gk + 1;
        }
        i = i + 1;
    }
    proof {
        assert(ops_from(g, gk, n, none) == (Seq::<Expect>::empty(), None::<Halt>));
        assert(owed + Seq::<Expect>::empty() =~= owed);
        assert(done_cs + none =~= done_cs);
    }
    Run { events, halt: None }
}

/// Operation 7 reports, in order, the items in the drained range: the `j`-th
/// is the value read at `132 + 8 * i + 4 * (start + j)`, whatever capacity the
/// vector took over.
pub proof fn law_drain_lists_the_items_in_its_range(g: Seq<u8>, i: int, c: nat)
    requires
        reads_fit(g, 132 + 8 * i, 4, 3),
        fits(g, 200 + 8 * i, 8),
        !reserve_overflows(3, open_cap(c, 3, 24, item_size()), usize_at(g, 200 + 8 * i)),
        fits(g, 250 + 8 * i, 8),
        fits(g, 258 + 8 * i, 8),
        usize_at(g, 250 + 8 * i) <= usize_at(g, 258 + 8 * i) <= 3,
    ensures
        ({
            let ds = usize_at(g, 250 + 8 * i) as int;
            let de = usize_at(g, 258 + 8 * i) as int;
            let o = op_7(g, i, c);
            &&& o.1 is None
            &&& o.0.len() == de - ds
            &&& forall|j: int| 0 <= j < de - ds ==> o.0[j] == Expect::U32(u32_at(g, 132 + 8 * i + 4 * (ds + j)))
        }),
{
}

/// Operation 1 pops the value pushed last, then reports the first one, when
/// at least two were pushed.
pub proof fn law_pop_then_first_of_the_pushed_values(g: Seq<u8>, i: int)
    requires
        fits(g, 132 + i, 1),
        (g[132 + i] as nat) % 20 >= 2,
        reads_fit(g, 150 + 8 * i, 4, (g[132 + i] as nat) % 20),
        fits(g, 200 + 8 * i, 8),
        !reserve_overflows((g[132 + i] as nat) % 20, 32, usize_at(g, 200 + 8 * i)),
    ensures
        op_1(g, i).1 is None,
        op_1(g, i).0 == seq![
            Expect::U32(u32_at(g, 150 + 8 * i + 4 * ((g[132 + i] as nat) % 20 - 1))),
            Expect::U32(u32_at(g, 150 + 8 * i)),
        ],
{
}

/// Operation 10 removes and reports, at an index in range, a copy of the
/// read item; operation 11 swap-removes and reports, when there are copies, a
/// copy of its read item.
pub proof fn law_removed_copies_are_the_read_item(g: Seq<u8>, i: int, c: nat)
    ensures
        fits(g, 132 + 4 * i, 4) && fits(g, 200 + 8 * i, 8) && !reserve_overflows(15, 15, usize_at(g, 200 + 8 * i))
            && fits(g, 250 + 8 * i, 8) && usize_at(g, 250 + 8 * i) < 15 ==> op_10(g, i) == done(
            seq![Expect::U32(u32_at(g, 132 + 4 * i))],
        ),
        op_11(g, i, c).1 is None && op_11(g, i, c).0.len() > 0 ==> op_11(g, i, c).0 == seq![Expect::U32(u32_at(g, 132 + 4 * i))],
{
}

} // verus!

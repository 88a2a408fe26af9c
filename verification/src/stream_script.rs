//! A script that builds a fresh vector for every operation and reads its
//! arguments one after another from a moving position in the input.
//!
//! Byte 0 of the input's first half gives the number of operations; each
//! starts with a byte that chooses one of six, on a `SmallVec<[i32; 15]>`, a
//! `SmallVec<[u8; 20]>` or a `SmallVec<[String; 12]>`, and the operation then
//! reads what it needs from the bytes that follow. The script stops quietly
//! once fewer than 101 bytes are left. A run halts where a read runs past the
//! input or a size computation overflows, and stops quietly where a text is
//! not UTF-8.
//!
//! The outside crate leaves a few results to the allocator: the capacity of a
//! vector taken over from a `Vec`, and whether a `try_reserve` that could
//! succeed does. What a run reports is stated for every such choice
//! (`Choices`); a run owes the outcome of one of them.
use vstd::prelude::*;
use std::hash::Hasher;
use crate::script::{fits, i32_at, read_i32, read_text, read_u8, read_usize, text_of, usize_at, Halt};
use crate::small_vec::{
    dedup_seq, exact_growth_overflows, exact_growth_overflows_exec, exact_grown, growth_overflows,
    growth_overflows_exec, grown, open_cap, repeat, Order,
};
use crate::sv_i32n15::{
    small_vec_i32n15_as_ref, small_vec_i32n15_as_slice, small_vec_i32n15_capacity,
    small_vec_i32n15_drain, small_vec_i32n15_extend_cloned, small_vec_i32n15_from_elem,
    small_vec_i32n15_from_iter, small_vec_i32n15_from_vec, small_vec_i32n15_insert,
    small_vec_i32n15_into_boxed_slice, small_vec_i32n15_into_vec, small_vec_i32n15_is_empty,
    small_vec_i32n15_len, small_vec_i32n15_new, small_vec_i32n15_pop, small_vec_i32n15_push,
    small_vec_i32n15_reserve, small_vec_i32n15_reserve_exact, small_vec_i32n15_spilled,
    small_vec_i32n15_swap_remove, small_vec_i32n15_truncate, small_vec_i32n15_try_reserve,
    small_vec_i32n15_try_reserve_exact, small_vec_i32n15_with_capacity, sv_i32n15_cap,
    sv_i32n15_items, SmallVecI32N15,
};
use crate::sv_u8n20::{
    into_iter_u8n20_next, into_iter_u8n20_rest, small_vec_u8n20_as_mut_ptr, small_vec_u8n20_as_mut_slice,
    small_vec_u8n20_as_ptr, small_vec_u8n20_capacity, small_vec_u8n20_dedup, small_vec_u8n20_extend_from_slice,
    small_vec_u8n20_from_vec, small_vec_u8n20_hash, small_vec_u8n20_into_iter,
    small_vec_u8n20_is_empty, small_vec_u8n20_len, small_vec_u8n20_new, small_vec_u8n20_remove,
    small_vec_u8n20_resize, small_vec_u8n20_retain_even, small_vec_u8n20_shrink_to_fit,
    small_vec_u8n20_try_reserve, small_vec_u8n20_with_capacity, sv_u8n20_cap, sv_u8n20_items,
    SmallVecU8N20,
};
use crate::sv_string::{
    small_vec_string12_append, small_vec_string12_capacity, small_vec_string12_clone, small_vec_string12_len, small_vec_string12_compare,
    small_vec_string12_deref, small_vec_string12_eq, small_vec_string12_from_vec,
    small_vec_string12_new, small_vec_string12_partial_compare, small_vec_string12_push,
    small_vec_string12_try_reserve, small_vec_string12_with_capacity, string_size, sv_str12_cap,
    sv_str12_items, texts, SmallVecString12,
};

verus! {

/// What the script reports, one value per printed line.
#[derive(Debug, PartialEq, Eq)]
pub enum Event {
    /// "Length: n".
    Length(usize),
    /// "First element: x".
    FirstElement(i32),
    /// "Capacity: c".
    Capacity(usize),
    /// "Spilled: b".
    Spilled(bool),
    /// "First mutable element: x".
    FirstMutable(u8),
    /// "Equal: b".
    Equal(bool),
    /// "Ordering: o".
    Compared(Order),
    /// "Partial ordering: o".
    PartialCompared(Option<Order>),
    /// "Dereferenced length: n".
    DerefLen(usize),
    /// "Drained item: x".
    Drained(i32),
    /// "AsRef slice length: n".
    AsRefLen(usize),
    /// "Hash: h".
    Hash(u64),
    /// "Pointer: p".
    Ptr(usize),
    /// "Mutable pointer: p".
    MutPtr(usize),
    /// "Consumed item: x".
    Consumed(u8),
    /// "Boxed slice length: n".
    BoxedLen(usize),
    /// "Borrowed first element: x".
    BorrowedFirst(i32),
}

/// What the script is owed to report; a hash value and an address may be
/// any.
pub enum Expect {
    Length(nat),
    FirstElement(i32),
    Capacity(nat),
    Spilled(bool),
    FirstMutable(u8),
    Equal(bool),
    Compared(Order),
    PartialCompared(Option<Order>),
    DerefLen(nat),
    Drained(i32),
    AsRefLen(nat),
    Hash,
    Ptr,
    MutPtr,
    Consumed(u8),
    BoxedLen(nat),
    BorrowedFirst(i32),
}

/// Whether a reported event is the one that was owed.
pub open spec fn event_matches(e: Event, x: Expect) -> bool {
    match e {
        Event::Length(n) => x == Expect::Length(n as nat),
        Event::FirstElement(v) => x == Expect::FirstElement(v),
        Event::Capacity(c) => x == Expect::Capacity(c as nat),
        Event::Spilled(b) => x == Expect::Spilled(b),
        Event::FirstMutable(v) => x == Expect::FirstMutable(v),
        Event::Equal(b) => x == Expect::Equal(b),
        Event::Compared(o) => x == Expect::Compared(o),
        Event::PartialCompared(o) => x == Expect::PartialCompared(o),
        Event::DerefLen(n) => x == Expect::DerefLen(n as nat),
        Event::Drained(v) => x == Expect::Drained(v),
        Event::AsRefLen(n) => x == Expect::AsRefLen(n as nat),
        Event::Hash(_) => x is Hash,
        Event::Ptr(_) => x is Ptr,
        Event::MutPtr(_) => x is MutPtr,
        Event::Consumed(v) => x == Expect::Consumed(v),
        Event::BoxedLen(n) => x == Expect::BoxedLen(n as nat),
        Event::BorrowedFirst(v) => x == Expect::BorrowedFirst(v),
    }
}

/// Whether the reported events are, one for one, those owed.
pub open spec fn events_match(a: Seq<Event>, x: Seq<Expect>) -> bool {
    &&& a.len() == x.len()
    &&& forall|i: int| 0 <= i < a.len() ==> #[trigger] event_matches(a[i], x[i])
}

/// Reported events, followed by more, match what was owed followed by more.
proof fn lemma_events_match_append(a: Seq<Event>, x: Seq<Expect>, b: Seq<Event>, y: Seq<Expect>)
    requires
        events_match(a, x),
        events_match(b, y),
    ensures
        events_match(a + b, x + y),
{
    assert forall|i: int| 0 <= i < (a + b).len() implies #[trigger] event_matches((a + b)[i], (x + y)[i]) by {
        if i < a.len() {
            assert(event_matches(a[i], x[i]));
        } else {
            assert(event_matches(b[i - a.len()], y[i - a.len()]));
        }
    }
}

/// What the allocator decides within one operation: the capacity of a
/// vector taken over from a `Vec`, and whether a `try_reserve` that could
/// succeed does.
pub struct Choices {
    pub cap: nat,
    pub try_ok: bool,
}

/// The capacity after `try_reserve(add)`: unchanged where there is room or the
/// size computation overflows, else grown where the allocator agrees (`ok`).
pub open spec fn try_cap(len: nat, cap: nat, add: nat, size: nat, ok: bool) -> nat {
    if cap - len >= add || growth_overflows(len, cap, add, size) || !ok {
        cap
    } else {
        grown(len, cap, add)
    }
}

/// The `i32` values read at `off`, four bytes apart, up to `k` of them,
/// stopping before one whose end would reach the end of `g`; and the
/// position after them.
pub open spec fn i32_run(g: Seq<u8>, off: int, k: nat) -> (Seq<i32>, int)
    decreases k,
{
    if k == 0 || off + 4 >= g.len() {
        (Seq::empty(), off)
    } else {
        let rest = i32_run(g, off + 4, (k - 1) as nat);
        (seq![i32_at(g, off)] + rest.0, rest.1)
    }
}

/// The bytes read at `off`, up to `k` of them, stopping at the end of `g`;
/// and the position after them.
pub open spec fn u8_run(g: Seq<u8>, off: int, k: nat) -> (Seq<u8>, int)
    decreases k,
{
    if k == 0 || off < 0 || off >= g.len() {
        (Seq::empty(), off)
    } else {
        let rest = u8_run(g, off + 1, (k - 1) as nat);
        (seq![g[off]] + rest.0, rest.1)
    }
}

/// The five-byte texts read at `off`, up to `k` of them, while six bytes are
/// left; and the position after them. A text that is not UTF-8 stops the
/// run.
pub open spec fn text_run(g: Seq<u8>, off: int, k: nat) -> Result<(Seq<Seq<char>>, int), Halt>
    decreases k,
{
    if k == 0 || off + 5 >= g.len() {
        Ok((Seq::empty(), off))
    } else {
        match text_of(g, off, 5) {
            Err(h) => Err(h),
            Ok(t) => match text_run(g, off + 5, (k - 1) as nat) {
                Err(h) => Err(h),
                Ok(rest) => Ok((seq![t] + rest.0, rest.1)),
            },
        }
    }
}

/// A vector as the script sees it: its items, its capacity, and the
/// position after what building it read.
pub struct Built<T> {
    pub items: Seq<T>,
    pub cap: nat,
    pub next: int,
}

/// What an operation is owed: its events, why it halts, if it does, and the
/// position after what it read.
pub type Step = (Seq<Expect>, Option<Halt>, int);

/// An operation that halts with `h` before reporting anything.
pub open spec fn halted(h: Halt) -> Step {
    (Seq::empty(), Some(h), 0)
}

/// Operation 0's vector, built by the constructor that the byte at `off`
/// chooses.
pub open spec fn build_i32(g: Seq<u8>, off: int, c: Choices) -> Result<Built<i32>, Halt> {
    if !fits(g, off, 1) {
        Err(Halt::InputExhausted)
    } else {
        let choice = g[off] % 4;
        let p = off + 1;
        if choice == 0 {
            if !fits(g, p, 8) {
                Err(Halt::InputExhausted)
            } else {
                let n = usize_at(g, p) as nat;
                if exact_growth_overflows(0, 15, n, 4) {
                    Err(Halt::CapacityOverflow)
                } else {
                    Ok(Built { items: Seq::empty(), cap: if n <= 15 { 15 } else { n }, next: p + 8 })
                }
            }
        } else if choice == 1 {
            if !fits(g, p, 4) || !fits(g, p + 4, 8) {
                Err(Halt::InputExhausted)
            } else {
                let n = usize_at(g, p + 4) as nat;
                if n > 15 && n * 4 > isize::MAX {
                    Err(Halt::CapacityOverflow)
                } else {
                    Ok(Built {
                        items: repeat(i32_at(g, p), n),
                        cap: if n <= 15 { 15 } else { open_cap(c.cap, n, 15, 4) },
                        next: p + 12,
                    })
                }
            }
        } else if choice == 2 {
            if !fits(g, p, 1) {
                Err(Halt::InputExhausted)
            } else {
                let run = i32_run(g, p + 1, (g[p] % 65) as nat);
                Ok(Built { items: run.0, cap: open_cap(c.cap, run.0.len(), 15, 4), next: run.1 })
            }
        } else {
            Ok(Built { items: Seq::empty(), cap: 15, next: p })
        }
    }
}

/// Operation 0 after its vector `b` is built: try to reserve a read amount
/// (succeeding, where the allocator decides, as `ok` says), push a read
/// value, report the length and first item, pop, and report the capacity.
pub open spec fn fresh_i32_rest(g: Seq<u8>, b: Built<i32>, ok: bool) -> Step {
    let n = b.items.len();
    if !fits(g, b.next, 8) || !fits(g, b.next + 8, 4) {
        halted(Halt::InputExhausted)
    } else {
        let cap1 = try_cap(n, b.cap, usize_at(g, b.next) as nat, 4, ok);
        if growth_overflows(n, cap1, 1, 4) {
            halted(Halt::CapacityOverflow)
        } else {
            let items = b.items.push(i32_at(g, b.next + 8));
            let cap2 = grown(n, cap1, 1);
            (
                seq![
                    Expect::Length(n + 1),
                    Expect::FirstElement(items[0]),
                    Expect::Capacity(cap2),
                    Expect::Spilled(cap2 > 15),
                ],
                None,
                b.next + 12,
            )
        }
    }
}

/// Operation 0: build, then the rest (see `fresh_i32_rest`).
pub open spec fn op_fresh_i32(g: Seq<u8>, off: int, c: Choices) -> Step {
    match build_i32(g, off, c) {
        Err(h) => halted(h),
        Ok(b) => fresh_i32_rest(g, b, c.try_ok),
    }
}

/// Operation 1's vector, built by the constructor that the byte at `off`
/// chooses.
pub open spec fn build_u8(g: Seq<u8>, off: int, c: Choices) -> Result<Built<u8>, Halt> {
    if !fits(g, off, 1) {
        Err(Halt::InputExhausted)
    } else {
        let choice = g[off] % 3;
        let p = off + 1;
        if choice == 0 {
            Ok(Built { items: Seq::empty(), cap: 20, next: p })
        } else if choice == 1 {
            if !fits(g, p, 8) {
                Err(Halt::InputExhausted)
            } else {
                let n = usize_at(g, p) as nat;
                if exact_growth_overflows(0, 20, n, 1) {
                    Err(Halt::CapacityOverflow)
                } else {
                    Ok(Built { items: Seq::empty(), cap: if n <= 20 { 20 } else { n }, next: p + 8 })
                }
            }
        } else {
            if !fits(g, p, 1) {
                Err(Halt::InputExhausted)
            } else {
                let run = u8_run(g, p + 1, (g[p] % 65) as nat);
                Ok(Built { items: run.0, cap: open_cap(c.cap, run.0.len(), 20, 1), next: run.1 })
            }
        }
    }
}

/// Operation 1: build, extend by read bytes, try to reserve a read amount,
/// remove at a read index where it is in range, and report the first item.
pub open spec fn op_fresh_u8(g: Seq<u8>, off: int, c: Choices) -> Step {
    match build_u8(g, off, c) {
        Err(h) => halted(h),
        Ok(b) => if !fits(g, b.next, 1) {
            halted(Halt::InputExhausted)
        } else {
            let more = u8_run(g, b.next + 1, (g[b.next] % 65) as nat);
            let n = b.items.len();
            if growth_overflows(n, b.cap, more.0.len(), 1) {
                halted(Halt::CapacityOverflow)
            } else if !fits(g, more.1, 8) {
                halted(Halt::InputExhausted)
            } else {
                let items = b.items + more.0;
                let p = more.1 + 8;
                if items.len() == 0 {
                    (Seq::empty(), None, p)
                } else if !fits(g, p, 8) {
                    halted(Halt::InputExhausted)
                } else {
                    let index = usize_at(g, p) as int;
                    let kept = if index < items.len() { items.remove(index) } else { items };
                    (
                        if kept.len() > 0 { seq![Expect::FirstMutable(kept[0])] } else { Seq::empty() },
                        None,
                        p + 8,
                    )
                }
            }
        },
    }
}

/// Operation 2's first vector, built by the constructor that the byte at
/// `off` chooses.
pub open spec fn build_texts(g: Seq<u8>, off: int, c: Choices) -> Result<Built<Seq<char>>, Halt> {
    if !fits(g, off, 1) {
        Err(Halt::InputExhausted)
    } else {
        let choice = g[off] % 3;
        let p = off + 1;
        if choice == 0 {
            Ok(Built { items: Seq::empty(), cap: 12, next: p })
        } else if choice == 1 {
            if !fits(g, p, 8) {
                Err(Halt::InputExhausted)
            } else {
                let n = usize_at(g, p) as nat;
                if exact_growth_overflows(0, 12, n, string_size()) {
                    Err(Halt::CapacityOverflow)
                } else {
                    Ok(Built { items: Seq::empty(), cap: if n <= 12 { 12 } else { n }, next: p + 8 })
                }
            }
        } else {
            if !fits(g, p, 1) {
                Err(Halt::InputExhausted)
            } else {
                match text_run(g, p + 1, (g[p] % 5) as nat) {
                    Err(h) => Err(h),
                    Ok(run) => Ok(Built {
                        items: run.0,
                        cap: open_cap(c.cap, run.0.len(), 12, string_size()),
                        next: run.1,
                    }),
                }
            }
        }
    }
}

/// Operation 2 after its first vector `b` is built: push a read text to it
/// and to a second vector, try to reserve a read amount (succeeding, where
/// the allocator decides, as `ok` says), append the second vector, and
/// compare with a clone.
pub open spec fn fresh_texts_rest(g: Seq<u8>, b: Built<Seq<char>>, ok: bool) -> Step {
    if !fits(g, b.next, 1) {
        halted(Halt::InputExhausted)
    } else {
        let len = (g[b.next] % 10 + 1) as nat;
        let p = b.next + 1;
        let n = b.items.len();
        let pushed = p + len < g.len();
        let text = if pushed { text_of(g, p, len) } else { Ok(Seq::<char>::empty()) };
        match text {
            Err(h) => halted(h),
            Ok(t) => if pushed && growth_overflows(n, b.cap, 1, string_size()) {
                halted(Halt::CapacityOverflow)
            } else {
                let items = if pushed { b.items.push(t) } else { b.items };
                let cap = if pushed { grown(n, b.cap, 1) } else { b.cap };
                let q = if pushed { p + len } else { p };
                if !fits(g, q, 8) {
                    halted(Halt::InputExhausted)
                } else {
                    let cap1 = try_cap(items.len(), cap, usize_at(g, q) as nat, string_size(), ok);
                    let other: nat = if pushed { 1 } else { 0 };
                    if growth_overflows(items.len(), cap1, other, string_size()) {
                        halted(Halt::CapacityOverflow)
                    } else {
                        let all = if pushed { items.push(t) } else { items };
                        if growth_overflows(0, 12, all.len(), string_size()) {
                            halted(Halt::CapacityOverflow)
                        } else {
                            (
                                seq![
                                    Expect::Equal(true),
                                    Expect::Compared(Order::Equal),
                                    Expect::PartialCompared(Some(Order::Equal)),
                                    Expect::DerefLen(all.len()),
                                ],
                                None,
                                q + 8,
                            )
                        }
                    }
                }
            },
        }
    }
}

/// Operation 2: build, then the rest (see `fresh_texts_rest`).
pub open spec fn op_fresh_texts(g: Seq<u8>, off: int, c: Choices) -> Step {
    match build_texts(g, off, c) {
        Err(h) => halted(h),
        Ok(b) => fresh_texts_rest(g, b, c.try_ok),
    }
}

/// Operation 3's vector, built by the constructor that the byte at `off`
/// chooses.
pub open spec fn build_i32_iter(g: Seq<u8>, off: int) -> Result<Built<i32>, Halt> {
    if !fits(g, off, 1) {
        Err(Halt::InputExhausted)
    } else {
        let choice = g[off] % 3;
        let p = off + 1;
        if choice == 0 {
            Ok(Built { items: Seq::empty(), cap: 15, next: p })
        } else if choice == 1 {
            if !fits(g, p, 8) {
                Err(Halt::InputExhausted)
            } else {
                let n = usize_at(g, p) as nat;
                if exact_growth_overflows(0, 15, n, 4) {
                    Err(Halt::CapacityOverflow)
                } else {
                    Ok(Built { items: Seq::empty(), cap: if n <= 15 { 15 } else { n }, next: p + 8 })
                }
            }
        } else {
            if !fits(g, p, 1) {
                Err(Halt::InputExhausted)
            } else {
                let run = i32_run(g, p + 1, (g[p] % 10) as nat);
                if growth_overflows(0, 15, run.0.len(), 4) {
                    Err(Halt::CapacityOverflow)
                } else {
                    Ok(Built { items: run.0, cap: grown(0, 15, run.0.len()), next: run.1 })
                }
            }
        }
    }
}

/// Operation 3, after the vector is built and extended: try to reserve,
/// insert, truncate and drain by read values, then report the length.
pub open spec fn op_edit_i32(g: Seq<u8>, p: int, items: Seq<i32>, cap: nat, ok: bool) -> Step {
    if !fits(g, p, 8) || !fits(g, p + 8, 8) || !fits(g, p + 16, 4) {
        halted(Halt::InputExhausted)
    } else {
        let n = items.len();
        let cap1 = try_cap(n, cap, usize_at(g, p) as nat, 4, ok);
        let index = usize_at(g, p + 8) as int;
        if index <= n && growth_overflows(n, cap1, 1, 4) {
            halted(Halt::CapacityOverflow)
        } else {
            let items1 = if index <= n { items.insert(index, i32_at(g, p + 16)) } else { items };
            let q = p + 20;
            if !fits(g, q, 8) || !fits(g, q + 8, 8) || !fits(g, q + 16, 8) {
                halted(Halt::InputExhausted)
            } else {
                let t = usize_at(g, q) as int;
                let items2 = if t < items1.len() { items1.take(t) } else { items1 };
                let start = usize_at(g, q + 8) as int;
                let end = usize_at(g, q + 16) as int;
                let drains = start <= items2.len() && end <= items2.len() && start <= end;
                let items3 = if drains { items2.take(start) + items2.skip(end) } else { items2 };
                let drained = if drains && start < end {
                    seq![Expect::Drained(items2[start])]
                } else {
                    Seq::empty()
                };
                (drained.push(Expect::AsRefLen(items3.len())), None, q + 24)
            }
        }
    }
}

/// Operation 3: build, extend by read values, then edit (see `op_edit_i32`).
pub open spec fn op_fresh_i32_edit(g: Seq<u8>, off: int, c: Choices) -> Step {
    match build_i32_iter(g, off) {
        Err(h) => halted(h),
        Ok(b) => if !fits(g, b.next, 1) {
            halted(Halt::InputExhausted)
        } else {
            let more = i32_run(g, b.next + 1, (g[b.next] % 10) as nat);
            if growth_overflows(b.items.len(), b.cap, more.0.len(), 4) {
                halted(Halt::CapacityOverflow)
            } else {
                op_edit_i32(g, more.1, b.items + more.0, grown(b.items.len(), b.cap, more.0.len()), c.try_ok)
            }
        },
    }
}

/// Operation 4: a vector with a read capacity, resized to a read length with
/// a read byte; try to reserve, hash, keep the even items, remove repeats,
/// shrink, and report the first item left.
pub open spec fn op_bytes(g: Seq<u8>, off: int, c: Choices) -> Step {
    if !fits(g, off, 8) {
        halted(Halt::InputExhausted)
    } else {
        let n0 = usize_at(g, off) as nat;
        if exact_growth_overflows(0, 20, n0, 1) {
            halted(Halt::CapacityOverflow)
        } else if !fits(g, off + 8, 1) || !fits(g, off + 9, 8) {
            halted(Halt::InputExhausted)
        } else {
            let cap0: nat = if n0 <= 20 { 20 } else { n0 };
            let count = usize_at(g, off + 9) as nat;
            if count > 0 && growth_overflows(0, cap0, count, 1) {
                halted(Halt::CapacityOverflow)
            } else if !fits(g, off + 17, 8) {
                halted(Halt::InputExhausted)
            } else {
                let items = repeat(g[off + 8], count).filter(|x: u8| x % 2 == 0);
                let left = dedup_seq(items);
                (
                    if left.len() > 0 {
                        seq![Expect::Hash, Expect::Ptr, Expect::MutPtr, Expect::Consumed(left[0])]
                    } else {
                        seq![Expect::Hash, Expect::Ptr, Expect::MutPtr]
                    },
                    None,
                    off + 25,
                )
            }
        }
    }
}

/// Operation 5, after the pushes: reserve in four ways by read amounts,
/// swap-remove at a read index where it is in range, and report the items
/// by way of a boxed slice.
pub open spec fn op_reserve_i32(g: Seq<u8>, p: int, items: Seq<i32>, cap: nat, ok: bool) -> Step {
    let n = items.len();
    if !fits(g, p, 8) {
        halted(Halt::InputExhausted)
    } else if growth_overflows(n, cap, usize_at(g, p) as nat, 4) {
        halted(Halt::CapacityOverflow)
    } else if !fits(g, p + 8, 8) || !fits(g, p + 16, 8) {
        halted(Halt::InputExhausted)
    } else {
        let cap1 = grown(n, cap, usize_at(g, p) as nat);
        let cap2 = try_cap(n, cap1, usize_at(g, p + 8) as nat, 4, ok);
        if exact_growth_overflows(n, cap2, usize_at(g, p + 16) as nat, 4) {
            halted(Halt::CapacityOverflow)
        } else if !fits(g, p + 24, 8) {
            halted(Halt::InputExhausted)
        } else {
            let q = p + 32;
            if n > 0 && !fits(g, q, 8) {
                halted(Halt::InputExhausted)
            } else {
                let index = usize_at(g, q) as int;
                let left = if n > 0 && index < n { items.update(index, items.last()).drop_last() } else { items };
                let next = if n > 0 { q + 8 } else { q };
                (
                    if left.len() > 0 {
                        seq![Expect::BoxedLen(left.len()), Expect::BorrowedFirst(left[0])]
                    } else {
                        seq![Expect::BoxedLen(0)]
                    },
                    None,
                    next,
                )
            }
        }
    }
}

/// Operation 5: a vector with a read capacity, up to nine read values
/// pushed, then reserves (see `op_reserve_i32`).
pub open spec fn op_fresh_i32_reserve(g: Seq<u8>, off: int, c: Choices) -> Step {
    if !fits(g, off, 8) {
        halted(Halt::InputExhausted)
    } else {
        let n0 = usize_at(g, off) as nat;
        if exact_growth_overflows(0, 15, n0, 4) {
            halted(Halt::CapacityOverflow)
        } else if !fits(g, off + 8, 1) {
            halted(Halt::InputExhausted)
        } else {
            let pushed = i32_run(g, off + 9, (g[off + 8] % 10) as nat);
            op_reserve_i32(g, pushed.1, pushed.0, if n0 <= 15 { 15 } else { n0 }, c.try_ok)
        }
    }
}

/// The operation that `op` chooses, with its arguments at `off`.
#[verifier::opaque]
pub open spec fn op_step(g: Seq<u8>, op: u8, off: int, c: Choices) -> Step {
    if op == 0 {
        op_fresh_i32(g, off, c)
    } else if op == 1 {
        op_fresh_u8(g, off, c)
    } else if op == 2 {
        op_fresh_texts(g, off, c)
    } else if op == 3 {
        op_fresh_i32_edit(g, off, c)
    } else if op == 4 {
        op_bytes(g, off, c)
    } else {
        op_fresh_i32_reserve(g, off, c)
    }
}

/// What operations `k` up to `count` do from position `off`, the allocator
/// deciding by `cs[0]` within operation `k`, by `cs[1]` within the next one,
/// and so on; stopping at the first that halts or once at most 100 bytes
/// follow the position.
pub open spec fn ops_from(g: Seq<u8>, k: nat, count: nat, off: int, cs: Seq<Choices>) -> (Seq<Expect>, Option<Halt>)
    decreases count - k,
{
    if k >= count || off + 100 >= g.len() || off < 0 {
        (Seq::empty(), None)
    } else {
        let s = op_step(g, g[off] % 6, off + 1, cs[0]);
        if s.1 is Some {
            (s.0, s.1)
        } else {
            let rest = ops_from(g, k + 1, count, s.2, cs.drop_first());
            (s.0 + rest.0, rest.1)
        }
    }
}

/// What a whole run is owed, the allocator deciding by `cs`. Inputs shorter
/// than 512 bytes are ignored.
pub open spec fn script_outcome(input_len: nat, g: Seq<u8>, cs: Seq<Choices>) -> (Seq<Expect>, Option<Halt>) {
    if input_len < 512 {
        (Seq::empty(), None)
    } else if !fits(g, 0, 1) {
        (Seq::empty(), Some(Halt::InputExhausted))
    } else {
        ops_from(g, 0, (g[0] % 65) as nat, 1, cs)
    }
}

/// The values of `i32_run`, read.
fn read_i32_run(g: &[u8], off: usize, k: u8) -> (r: (Vec<i32>, usize))
    requires
        off <= g.len(),
    ensures
        r.0@ == i32_run(g@, off as int, k as nat).0,
        r.1 == i32_run(g@, off as int, k as nat).1,
        r.1 <= g.len(),
{
    let mut v: Vec<i32> = Vec::new();
    let mut cur = off;
    let mut i: u8 = 0;
    while i < k
        invariant
            i <= k,
            cur <= g.len(),
            i32_run(g@, off as int, k as nat) == (
                v@ + i32_run(g@, cur as int, (k - i) as nat).0,
                i32_run(g@, cur as int, (k - i) as nat).1,
            ),
        ensures
            i32_run(g@, cur as int, (k - i) as nat) == (Seq::<i32>::empty(), cur as int),
        decreases k - i,
    {
        if g.len() - cur <= 4 {
            break;
        }
        let x = match read_i32(g, cur) {
            Some(x) => x,
            None => return (v, cur),
        };
        proof {
            let rest = i32_run(g@, (cur + 4) as int, (k - i - 1) as nat);
            assert(v@ + (seq![x] + rest.0) =~= v@.push(x) + rest.0);
        }
        v.push(x);
        cur = cur + 4;
        i = i + 1;
    }
    assert(v@ + Seq::<i32>::empty() =~= v@);
    (v, cur)
}

/// The bytes of `u8_run`, read.
fn read_u8_run(g: &[u8], off: usize, k: u8) -> (r: (Vec<u8>, usize))
    requires
        off <= g.len(),
    ensures
        r.0@ == u8_run(g@, off as int, k as nat).0,
        r.1 == u8_run(g@, off as int, k as nat).1,
        r.1 <= g.len(),
{
    let mut v: Vec<u8> = Vec::new();
    let mut cur = off;
    let mut i: u8 = 0;
    while i < k
        invariant
            i <= k,
            cur <= g.len(),
            u8_run(g@, off as int, k as nat) == (
                v@ + u8_run(g@, cur as int, (k - i) as nat).0,
                u8_run(g@, cur as int, (k - i) as nat).1,
            ),
        ensures
            u8_run(g@, cur as int, (k - i) as nat) == (Seq::<u8>::empty(), cur as int),
        decreases k - i,
    {
        if cur >= g.len() {
            break;
        }
        let x = g[cur];
        proof {
            let rest = u8_run(g@, (cur + 1) as int, (k - i - 1) as nat);
            assert(v@ + (seq![x] + rest.0) =~= v@.push(x) + rest.0);
        }
        v.push(x);
        cur = cur + 1;
        i = i + 1;
    }
    assert(v@ + Seq::<u8>::empty() =~= v@);
    (v, cur)
}

/// The texts of `text_run`, read.
fn read_text_run(g: &[u8], off: usize, k: u8) -> (r: Result<(Vec<String>, usize), Halt>)
    requires
        off <= g.len(),
    ensures
        match r {
            Ok((v, next)) => text_run(g@, off as int, k as nat) == Ok::<(Seq<Seq<char>>, int), Halt>(
                (texts(v@), next as int),
            ) && next <= g.len(),
            Err(h) => text_run(g@, off as int, k as nat) == Err::<(Seq<Seq<char>>, int), Halt>(h),
        },
{
    let mut v: Vec<String> = Vec::new();
    let mut cur = off;
    let mut i: u8 = 0;
    while i < k
        invariant
            i <= k,
            cur <= g.len(),
            text_run(g@, off as int, k as nat) == match text_run(g@, cur as int, (k - i) as nat) {
                Ok(rest) => Ok::<(Seq<Seq<char>>, int), Halt>((texts(v@) + rest.0, rest.1)),
                Err(h) => Err::<(Seq<Seq<char>>, int), Halt>(h),
            },
        ensures
            text_run(g@, cur as int, (k - i) as nat) == Ok::<(Seq<Seq<char>>, int), Halt>(
                (Seq::<Seq<char>>::empty(), cur as int),
            ),
        decreases k - i,
    {
        if g.len() - cur <= 5 {
            break;
        }
        let t = match read_text(g, cur, 5) {
            Ok(t) => t,
            Err(h) => return Err(h),
        };
        let ghost before = texts(v@);
        let ghost tv = t@;
        v.push(t);
        proof {
            assert(texts(v@) =~= before.push(tv));
            if let Ok(rest) = text_run(g@, (cur + 5) as int, (k - i - 1) as nat) {
                assert(before + (seq![tv] + rest.0) =~= texts(v@) + rest.0);
            }
        }
        cur = cur + 5;
        i = i + 1;
    }
    assert(texts(v@) + Seq::<Seq<char>>::empty() =~= texts(v@));
    Ok((v, cur))
}

/// The choices of an operation in which the allocator decides nothing.
pub open spec fn no_choices() -> Choices {
    Choices { cap: 0, try_ok: false }
}

/// Operation 0's vector, built (see `build_i32`); the capacity it took is
/// the choice where the outside crate leaves it open.
fn build_fresh_i32(g: &[u8], off: usize) -> (r: (Result<(SmallVecI32N15, usize), Halt>, Ghost<nat>))
    requires
        off <= g.len(),
    ensures
        forall|c: Choices| #![trigger build_i32(g@, off as int, c)] c.cap == r.1@ ==> match r.0 {
            Ok((v, next)) => build_i32(g@, off as int, c) == Ok::<Built<i32>, Halt>(
                Built { items: sv_i32n15_items(v), cap: sv_i32n15_cap(v), next: next as int },
            ) && v.wf() && next <= g.len(),
            Err(h) => build_i32(g@, off as int, c) == Err::<Built<i32>, Halt>(h),
        },
{
    let choice = match read_u8(g, off) {
        Some(b) => b % 4,
        None => return (Err(Halt::InputExhausted), Ghost(0)),
    };
    let p = off + 1;
    if choice == 0 {
        let n = match read_usize(g, p) {
            Some(x) => x,
            None => return (Err(Halt::InputExhausted), Ghost(0)),
        };
        if exact_growth_overflows_exec(0, 15, n, 4) {
            return (Err(Halt::CapacityOverflow), Ghost(0));
        }
        (Ok((small_vec_i32n15_with_capacity(n), p + 8)), Ghost(0))
    } else if choice == 1 {
        let elem = match read_i32(g, p) {
            Some(x) => x,
            None => return (Err(Halt::InputExhausted), Ghost(0)),
        };
        let n = match read_usize(g, p + 4) {
            Some(x) => x,
            None => return (Err(Halt::InputExhausted), Ghost(0)),
        };
        if exact_growth_overflows_exec(0, 15, n, 4) {
            return (Err(Halt::CapacityOverflow), Ghost(0));
        }
        let v = small_vec_i32n15_from_elem(elem, n);
        (Ok((v, p + 12)), Ghost(sv_i32n15_cap(v)))
    } else if choice == 2 {
        let k = match read_u8(g, p) {
            Some(b) => b % 65,
            None => return (Err(Halt::InputExhausted), Ghost(0)),
        };
        let (items, next) = read_i32_run(g, p + 1, k);
        let v = small_vec_i32n15_from_vec(items);
        (Ok((v, next)), Ghost(sv_i32n15_cap(v)))
    } else {
        (Ok((small_vec_i32n15_new(), p)), Ghost(0))
    }
}

/// Operation 0 after its vector `v` is built (see `fresh_i32_rest`);
/// whether `try_reserve` succeeded is the choice.
fn fresh_i32_after(g: &[u8], v: SmallVecI32N15, next: usize) -> (r: (Vec<Event>, Option<Halt>, usize, Ghost<bool>))
    requires
        v.wf(),
        next <= g.len(),
    ensures
        ({
            let s = fresh_i32_rest(
                g@,
                Built { items: sv_i32n15_items(v), cap: sv_i32n15_cap(v), next: next as int },
                r.3@,
            );
            &&& events_match(r.0@, s.0)
            &&& r.1 == s.1
            &&& r.1 is None ==> r.2 == s.2 && r.2 <= g.len()
        }),
{
    let mut v = v;
    let mut events: Vec<Event> = Vec::new();
    let amount = match read_usize(g, next) {
        Some(x) => x,
        None => return (events, Some(Halt::InputExhausted), 0, Ghost(false)),
    };
    let item = match read_i32(g, next + 8) {
        Some(x) => x,
        None => return (events, Some(Halt::InputExhausted), 0, Ghost(false)),
    };
    let res = small_vec_i32n15_try_reserve(&mut v, amount);
    let ghost ok = res is Ok;
    let n = small_vec_i32n15_len(&v);
    let cap1 = small_vec_i32n15_capacity(&v);
    if growth_overflows_exec(n, cap1, 1, 4) {
        return (events, Some(Halt::CapacityOverflow), 0, Ghost(ok));
    }
    small_vec_i32n15_push(&mut v, item);
    events.push(Event::Length(small_vec_i32n15_len(&v)));
    if !small_vec_i32n15_is_empty(&v) {
        let slice = small_vec_i32n15_as_slice(&v);
        events.push(Event::FirstElement(slice[0]));
        let _item = small_vec_i32n15_pop(&mut v);
    }
    let cap2 = small_vec_i32n15_capacity(&v);
    events.push(Event::Capacity(cap2));
    events.push(Event::Spilled(small_vec_i32n15_spilled(&v)));
    (events, None, next + 12, Ghost(ok))
}

/// Operation 0 (see `op_fresh_i32`).
fn fresh_i32(g: &[u8], off: usize) -> (r: (Vec<Event>, Option<Halt>, usize, Ghost<Choices>))
    requires
        off <= g.len(),
    ensures
        events_match(r.0@, op_fresh_i32(g@, off as int, r.3@).0),
        r.1 == op_fresh_i32(g@, off as int, r.3@).1,
        r.1 is None ==> r.2 == op_fresh_i32(g@, off as int, r.3@).2 && r.2 <= g.len(),
{
    let (built, Ghost(cap)) = build_fresh_i32(g, off);
    let ghost c0 = Choices { cap, try_ok: false };
    match built {
        Ok((v, next)) => {
            let ghost b = Built { items: sv_i32n15_items(v), cap: sv_i32n15_cap(v), next: next as int };
            let (events, halt, after, Ghost(ok)) = fresh_i32_after(g, v, next);
            let ghost c = Choices { cap, try_ok: ok };
            assert(build_i32(g@, off as int, c) == Ok::<Built<i32>, Halt>(b));
            (events, halt, after, Ghost(c))
        },
        Err(h) => {
            assert(build_i32(g@, off as int, c0) == Err::<Built<i32>, Halt>(h));
            (Vec::new(), Some(h), 0, Ghost(c0))
        },
    }
}

/// Operation 1's vector, built (see `build_u8`); the capacity it took is the
/// choice where the outside crate leaves it open.
fn build_fresh_u8(g: &[u8], off: usize) -> (r: (Result<(SmallVecU8N20, usize), Halt>, Ghost<nat>))
    requires
        off <= g.len(),
    ensures
        forall|c: Choices| #![trigger build_u8(g@, off as int, c)] c.cap == r.1@ ==> match r.0 {
            Ok((v, next)) => build_u8(g@, off as int, c) == Ok::<Built<u8>, Halt>(
                Built { items: sv_u8n20_items(v), cap: sv_u8n20_cap(v), next: next as int },
            ) && v.wf() && next <= g.len(),
            Err(h) => build_u8(g@, off as int, c) == Err::<Built<u8>, Halt>(h),
        },
{
    let choice = match read_u8(g, off) {
        Some(b) => b % 3,
        None => return (Err(Halt::InputExhausted), Ghost(0)),
    };
    let p = off + 1;
    if choice == 0 {
        (Ok((small_vec_u8n20_new(), p)), Ghost(0))
    } else if choice == 1 {
        let n = match read_usize(g, p) {
            Some(x) => x,
            None => return (Err(Halt::InputExhausted), Ghost(0)),
        };
        if exact_growth_overflows_exec(0, 20, n, 1) {
            return (Err(Halt::CapacityOverflow), Ghost(0));
        }
        (Ok((small_vec_u8n20_with_capacity(n), p + 8)), Ghost(0))
    } else {
        let k = match read_u8(g, p) {
            Some(b) => b % 65,
            None => return (Err(Halt::InputExhausted), Ghost(0)),
        };
        let (items, next) = read_u8_run(g, p + 1, k);
        let v = small_vec_u8n20_from_vec(items);
        (Ok((v, next)), Ghost(sv_u8n20_cap(v)))
    }
}

#[verifier::spinoff_prover]
#[verifier::rlimit(40)]
/// Operation 1 (see `op_fresh_u8`).
fn fresh_u8(g: &[u8], off: usize) -> (r: (Vec<Event>, Option<Halt>, usize, Ghost<Choices>))
    requires
        off <= g.len(),
    ensures
        events_match(r.0@, op_fresh_u8(g@, off as int, r.3@).0),
        r.1 == op_fresh_u8(g@, off as int, r.3@).1,
        r.1 is None ==> r.2 == op_fresh_u8(g@, off as int, r.3@).2 && r.2 <= g.len(),
{
    let mut events: Vec<Event> = Vec::new();
    let (built, Ghost(cap)) = build_fresh_u8(g, off);
    let ghost c = Choices { cap, try_ok: false };
    let (mut v, next) = match built {
        Ok(x) => x,
        Err(h) => return (events, Some(h), 0, Ghost(c)),
    };
    let k = match read_u8(g, next) {
        Some(b) => b % 65,
        None => return (events, Some(Halt::InputExhausted), 0, Ghost(c)),
    };
    let (more, p) = read_u8_run(g, next + 1, k);
    let n = small_vec_u8n20_len(&v);
    if growth_overflows_exec(n, small_vec_u8n20_capacity(&v), more.len(), 1) {
        return (events, Some(Halt::CapacityOverflow), 0, Ghost(c));
    }
    small_vec_u8n20_extend_from_slice(&mut v, more.as_slice());
    let amount = match read_usize(g, p) {
        Some(x) => x,
        None => return (events, Some(Halt::InputExhausted), 0, Ghost(c)),
    };
    let _result = small_vec_u8n20_try_reserve(&mut v, amount);
    let mut q = p + 8;
    if !small_vec_u8n20_is_empty(&v) {
        let index = match read_usize(g, q) {
            Some(x) => x,
            None => return (events, Some(Halt::InputExhausted), 0, Ghost(c)),
        };
        q = q + 8;
        if index < small_vec_u8n20_len(&v) {
            let _removed = small_vec_u8n20_remove(&mut v, index);
        }
    }
    let slice = small_vec_u8n20_as_mut_slice(&mut v);
    if slice.len() > 0 {
        events.push(Event::FirstMutable(slice[0]));
    }
    proof {
        let x = op_fresh_u8(g@, off as int, c).0;
        assert(forall|i: int| 0 <= i < events@.len() ==> #[trigger] event_matches(events@[i], x[i]));
    }
    (events, None, q, Ghost(c))
}

/// Operation 2's first vector, built (see `build_texts`); the capacity it
/// took is the choice where the outside crate leaves it open.
fn build_fresh_texts(g: &[u8], off: usize) -> (r: (Result<(SmallVecString12, usize), Halt>, Ghost<nat>))
    requires
        off <= g.len(),
    ensures
        forall|c: Choices| #![trigger build_texts(g@, off as int, c)] c.cap == r.1@ ==> match r.0 {
            Ok((v, next)) => build_texts(g@, off as int, c) == Ok::<Built<Seq<char>>, Halt>(
                Built { items: sv_str12_items(v), cap: sv_str12_cap(v), next: next as int },
            ) && v.wf() && next <= g.len(),
            Err(h) => build_texts(g@, off as int, c) == Err::<Built<Seq<char>>, Halt>(h),
        },
{
    let choice = match read_u8(g, off) {
        Some(b) => b % 3,
        None => return (Err(Halt::InputExhausted), Ghost(0)),
    };
    let p = off + 1;
    if choice == 0 {
        (Ok((small_vec_string12_new(), p)), Ghost(0))
    } else if choice == 1 {
        let n = match read_usize(g, p) {
            Some(x) => x,
            None => return (Err(Halt::InputExhausted), Ghost(0)),
        };
        if exact_growth_overflows_exec(0, 12, n, core::mem::size_of::<String>()) {
            return (Err(Halt::CapacityOverflow), Ghost(0));
        }
        (Ok((small_vec_string12_with_capacity(n), p + 8)), Ghost(0))
    } else {
        let k = match read_u8(g, p) {
            Some(b) => b % 5,
            None => return (Err(Halt::InputExhausted), Ghost(0)),
        };
        match read_text_run(g, p + 1, k) {
            Ok((items, next)) => {
                let v = small_vec_string12_from_vec(items);
                (Ok((v, next)), Ghost(sv_str12_cap(v)))
            },
            Err(h) => (Err(h), Ghost(0)),
        }
    }
}

/// Operation 2 after its first vector `v1` is built (see
/// `fresh_texts_rest`); whether `try_reserve` succeeded is the choice.
fn fresh_texts_after(g: &[u8], v1: SmallVecString12, next: usize) -> (r: (Vec<Event>, Option<Halt>, usize, Ghost<bool>))
    requires
        v1.wf(),
        next <= g.len(),
    ensures
        ({
            let s = fresh_texts_rest(
                g@,
                Built { items: sv_str12_items(v1), cap: sv_str12_cap(v1), next: next as int },
                r.3@,
            );
            &&& events_match(r.0@, s.0)
            &&& r.1 == s.1
            &&& r.1 is None ==> r.2 == s.2 && r.2 <= g.len()
        }),
{
    let mut v1 = v1;
    let mut events: Vec<Event> = Vec::new();
    let size = core::mem::size_of::<String>();
    let mut v2 = small_vec_string12_new();
    let len = match read_u8(g, next) {
        Some(b) => b % 10 + 1,
        None => return (events, Some(Halt::InputExhausted), 0, Ghost(false)),
    };
    let p = next + 1;
    let mut q = p;
    if g.len() - p > len as usize {
        let text = match read_text(g, p, len as usize) {
            Ok(t) => t,
            Err(h) => return (events, Some(h), 0, Ghost(false)),
        };
        if growth_overflows_exec(small_vec_string12_len(&v1), small_vec_string12_capacity(&v1), 1, size) {
            return (events, Some(Halt::CapacityOverflow), 0, Ghost(false));
        }
        small_vec_string12_push(&mut v1, text.clone());
        small_vec_string12_push(&mut v2, text);
        q = p + len as usize;
    }
    let amount = match read_usize(g, q) {
        Some(x) => x,
        None => return (events, Some(Halt::InputExhausted), 0, Ghost(false)),
    };
    let res = small_vec_string12_try_reserve(&mut v1, amount);
    let ghost ok = res is Ok;
    let other = small_vec_string12_len(&v2);
    if growth_overflows_exec(small_vec_string12_len(&v1), small_vec_string12_capacity(&v1), other, size) {
        return (events, Some(Halt::CapacityOverflow), 0, Ghost(ok));
    }
    small_vec_string12_append(&mut v1, &mut v2);
    if growth_overflows_exec(0, 12, small_vec_string12_len(&v1), size) {
        return (events, Some(Halt::CapacityOverflow), 0, Ghost(ok));
    }
    let cloned = small_vec_string12_clone(&v1);
    events.push(Event::Equal(small_vec_string12_eq(&v1, &cloned)));
    events.push(Event::Compared(small_vec_string12_compare(&v1, &cloned)));
    events.push(Event::PartialCompared(small_vec_string12_partial_compare(&v1, &cloned)));
    let items = small_vec_string12_deref(&v1);
    proof {
        assert(texts(items@).len() == items@.len());
    }
    events.push(Event::DerefLen(items.len()));
    (events, None, q + 8, Ghost(ok))
}

/// Operation 2 (see `op_fresh_texts`).
fn fresh_texts(g: &[u8], off: usize) -> (r: (Vec<Event>, Option<Halt>, usize, Ghost<Choices>))
    requires
        off <= g.len(),
    ensures
        events_match(r.0@, op_fresh_texts(g@, off as int, r.3@).0),
        r.1 == op_fresh_texts(g@, off as int, r.3@).1,
        r.1 is None ==> r.2 == op_fresh_texts(g@, off as int, r.3@).2 && r.2 <= g.len(),
{
    let (built, Ghost(cap)) = build_fresh_texts(g, off);
    let ghost c0 = Choices { cap, try_ok: false };
    match built {
        Ok((v, next)) => {
            let ghost b = Built { items: sv_str12_items(v), cap: sv_str12_cap(v), next: next as int };
            let (events, halt, after, Ghost(ok)) = fresh_texts_after(g, v, next);
            let ghost c = Choices { cap, try_ok: ok };
            assert(build_texts(g@, off as int, c) == Ok::<Built<Seq<char>>, Halt>(b));
            (events, halt, after, Ghost(c))
        },
        Err(h) => {
            assert(build_texts(g@, off as int, c0) == Err::<Built<Seq<char>>, Halt>(h));
            (Vec::new(), Some(h), 0, Ghost(c0))
        },
    }
}

/// Operation 3's vector, built (see `build_i32_iter`).
fn build_iter_i32(g: &[u8], off: usize) -> (r: Result<(SmallVecI32N15, usize), Halt>)
    requires
        off <= g.len(),
    ensures
        match r {
            Ok((v, next)) => build_i32_iter(g@, off as int) == Ok::<Built<i32>, Halt>(
                Built { items: sv_i32n15_items(v), cap: sv_i32n15_cap(v), next: next as int },
            ) && v.wf() && next <= g.len(),
            Err(h) => build_i32_iter(g@, off as int) == Err::<Built<i32>, Halt>(h),
        },
{
    let choice = match read_u8(g, off) {
        Some(b) => b % 3,
        None => return Err(Halt::InputExhausted),
    };
    let p = off + 1;
    if choice == 0 {
        Ok((small_vec_i32n15_new(), p))
    } else if choice == 1 {
        let n = match read_usize(g, p) {
            Some(x) => x,
            None => return Err(Halt::InputExhausted),
        };
        if exact_growth_overflows_exec(0, 15, n, 4) {
            return Err(Halt::CapacityOverflow);
        }
        Ok((small_vec_i32n15_with_capacity(n), p + 8))
    } else {
        let k = match read_u8(g, p) {
            Some(b) => b % 10,
            None => return Err(Halt::InputExhausted),
        };
        let (items, next) = read_i32_run(g, p + 1, k);
        if growth_overflows_exec(0, 15, items.len(), 4) {
            return Err(Halt::CapacityOverflow);
        }
        Ok((small_vec_i32n15_from_iter(items), next))
    }
}

/// Operation 3 after its vector is built and extended (see `op_edit_i32`);
/// whether `try_reserve` succeeded is the choice.
fn edit_i32(g: &[u8], v: SmallVecI32N15, p: usize) -> (r: (Vec<Event>, Option<Halt>, usize, Ghost<bool>))
    requires
        v.wf(),
        p <= g.len(),
    ensures
        ({
            let s = op_edit_i32(g@, p as int, sv_i32n15_items(v), sv_i32n15_cap(v), r.3@);
            &&& events_match(r.0@, s.0)
            &&& r.1 == s.1
            &&& r.1 is None ==> r.2 == s.2 && r.2 <= g.len()
        }),
{
    let mut v = v;
    let mut events: Vec<Event> = Vec::new();
    let amount = match read_usize(g, p) {
        Some(x) => x,
        None => return (events, Some(Halt::InputExhausted), 0, Ghost(false)),
    };
    let index = match read_usize(g, p + 8) {
        Some(x) => x,
        None => return (events, Some(Halt::InputExhausted), 0, Ghost(false)),
    };
    let item = match read_i32(g, p + 16) {
        Some(x) => x,
        None => return (events, Some(Halt::InputExhausted), 0, Ghost(false)),
    };
    let res = small_vec_i32n15_try_reserve(&mut v, amount);
    let ghost ok = res is Ok;
    let n = small_vec_i32n15_len(&v);
    if index <= n {
        if growth_overflows_exec(n, small_vec_i32n15_capacity(&v), 1, 4) {
            return (events, Some(Halt::CapacityOverflow), 0, Ghost(ok));
        }
        small_vec_i32n15_insert(&mut v, index, item);
    }
    let q = p + 20;
    let t = match read_usize(g, q) {
        Some(x) => x,
        None => return (events, Some(Halt::InputExhausted), 0, Ghost(ok)),
    };
    let start = match read_usize(g, q + 8) {
        Some(x) => x,
        None => return (events, Some(Halt::InputExhausted), 0, Ghost(ok)),
    };
    let end = match read_usize(g, q + 16) {
        Some(x) => x,
        None => return (events, Some(Halt::InputExhausted), 0, Ghost(ok)),
    };
    small_vec_i32n15_truncate(&mut v, t);
    let len = small_vec_i32n15_len(&v);
    if start <= len && end <= len && start <= end {
        let drained = small_vec_i32n15_drain(&mut v, start, end);
        if drained.len() > 0 {
            events.push(Event::Drained(drained[0]));
        }
    }
    let all = small_vec_i32n15_as_ref(&v);
    events.push(Event::AsRefLen(all.len()));
    (events, None, q + 24, Ghost(ok))
}

/// Operation 3 (see `op_fresh_i32_edit`).
fn fresh_i32_edit(g: &[u8], off: usize) -> (r: (Vec<Event>, Option<Halt>, usize, Ghost<Choices>))
    requires
        off <= g.len(),
    ensures
        events_match(r.0@, op_fresh_i32_edit(g@, off as int, r.3@).0),
        r.1 == op_fresh_i32_edit(g@, off as int, r.3@).1,
        r.1 is None ==> r.2 == op_fresh_i32_edit(g@, off as int, r.3@).2 && r.2 <= g.len(),
{
    let ghost c0 = no_choices();
    let (mut v, next) = match build_iter_i32(g, off) {
        Ok(x) => x,
        Err(h) => return (Vec::new(), Some(h), 0, Ghost(c0)),
    };
    let k = match read_u8(g, next) {
        Some(b) => b % 10,
        None => return (Vec::new(), Some(Halt::InputExhausted), 0, Ghost(c0)),
    };
    let (more, p) = read_i32_run(g, next + 1, k);
    if growth_overflows_exec(small_vec_i32n15_len(&v), small_vec_i32n15_capacity(&v), more.len(), 4) {
        return (Vec::new(), Some(Halt::CapacityOverflow), 0, Ghost(c0));
    }
    small_vec_i32n15_extend_cloned(&mut v, &more);
    let (events, halt, after, Ghost(ok)) = edit_i32(g, v, p);
    (events, halt, after, Ghost(Choices { cap: 0, try_ok: ok }))
}

/// Operation 4 (see `op_bytes`).
fn bytes(g: &[u8], off: usize) -> (r: (Vec<Event>, Option<Halt>, usize, Ghost<Choices>))
    requires
        off <= g.len(),
    ensures
        events_match(r.0@, op_bytes(g@, off as int, r.3@).0),
        r.1 == op_bytes(g@, off as int, r.3@).1,
        r.1 is None ==> r.2 == op_bytes(g@, off as int, r.3@).2 && r.2 <= g.len(),
{
    let ghost c = no_choices();
    let mut events: Vec<Event> = Vec::new();
    let n0 = match read_usize(g, off) {
        Some(x) => x,
        None => return (events, Some(Halt::InputExhausted), 0, Ghost(c)),
    };
    if exact_growth_overflows_exec(0, 20, n0, 1) {
        return (events, Some(Halt::CapacityOverflow), 0, Ghost(c));
    }
    let mut v = small_vec_u8n20_with_capacity(n0);
    let byte = match read_u8(g, off + 8) {
        Some(b) => b,
        None => return (events, Some(Halt::InputExhausted), 0, Ghost(c)),
    };
    let count = match read_usize(g, off + 9) {
        Some(x) => x,
        None => return (events, Some(Halt::InputExhausted), 0, Ghost(c)),
    };
    if count > 0 && growth_overflows_exec(0, small_vec_u8n20_capacity(&v), count, 1) {
        return (events, Some(Halt::CapacityOverflow), 0, Ghost(c));
    }
    small_vec_u8n20_resize(&mut v, count, byte);
    proof {
        assert(sv_u8n20_items(v) =~= repeat(byte, count as nat));
    }
    let amount = match read_usize(g, off + 17) {
        Some(x) => x,
        None => return (events, Some(Halt::InputExhausted), 0, Ghost(c)),
    };
    let _result = small_vec_u8n20_try_reserve(&mut v, amount);
    let mut hasher = std::collections::hash_map::DefaultHasher::new();
    small_vec_u8n20_hash(&v, &mut hasher);
    events.push(Event::Hash(hasher.finish()));
    small_vec_u8n20_retain_even(&mut v);
    small_vec_u8n20_dedup(&mut v);
    small_vec_u8n20_shrink_to_fit(&mut v);
    events.push(Event::Ptr(small_vec_u8n20_as_ptr(&v)));
    events.push(Event::MutPtr(small_vec_u8n20_as_mut_ptr(&mut v)));
    let mut items = small_vec_u8n20_into_iter(v);
    if let Some(x) = into_iter_u8n20_next(&mut items) {
        events.push(Event::Consumed(x));
    }
    proof {
        let x = op_bytes(g@, off as int, c).0;
        assert(forall|i: int| 0 <= i < events@.len() ==> #[trigger] event_matches(events@[i], x[i]));
    }
    (events, None, off + 25, Ghost(c))
}

/// Operation 5 after the pushes (see `op_reserve_i32`); whether
/// `try_reserve` succeeded is the choice.
fn reserve_i32(g: &[u8], v: SmallVecI32N15, p: usize) -> (r: (Vec<Event>, Option<Halt>, usize, Ghost<bool>))
    requires
        v.wf(),
        p <= g.len(),
    ensures
        ({
            let s = op_reserve_i32(g@, p as int, sv_i32n15_items(v), sv_i32n15_cap(v), r.3@);
            &&& events_match(r.0@, s.0)
            &&& r.1 == s.1
            &&& r.1 is None ==> r.2 == s.2 && r.2 <= g.len()
        }),
{
    let mut v = v;
    let mut events: Vec<Event> = Vec::new();
    let first = match read_usize(g, p) {
        Some(x) => x,
        None => return (events, Some(Halt::InputExhausted), 0, Ghost(false)),
    };
    if growth_overflows_exec(small_vec_i32n15_len(&v), small_vec_i32n15_capacity(&v), first, 4) {
        return (events, Some(Halt::CapacityOverflow), 0, Ghost(false));
    }
    small_vec_i32n15_reserve(&mut v, first);
    let amount = match read_usize(g, p + 8) {
        Some(x) => x,
        None => return (events, Some(Halt::InputExhausted), 0, Ghost(false)),
    };
    let exact = match read_usize(g, p + 16) {
        Some(x) => x,
        None => return (events, Some(Halt::InputExhausted), 0, Ghost(false)),
    };
    let res = small_vec_i32n15_try_reserve(&mut v, amount);
    let ghost ok = res is Ok;
    if exact_growth_overflows_exec(small_vec_i32n15_len(&v), small_vec_i32n15_capacity(&v), exact, 4) {
        return (events, Some(Halt::CapacityOverflow), 0, Ghost(ok));
    }
    small_vec_i32n15_reserve_exact(&mut v, exact);
    let exact_amount = match read_usize(g, p + 24) {
        Some(x) => x,
        None => return (events, Some(Halt::InputExhausted), 0, Ghost(ok)),
    };
    let _exact_result = small_vec_i32n15_try_reserve_exact(&mut v, exact_amount);
    let mut next = p + 32;
    if !small_vec_i32n15_is_empty(&v) {
        let index = match read_usize(g, next) {
            Some(x) => x,
            None => return (events, Some(Halt::InputExhausted), 0, Ghost(ok)),
        };
        next = next + 8;
        if index < small_vec_i32n15_len(&v) {
            let _swapped = small_vec_i32n15_swap_remove(&mut v, index);
        }
    }
    let as_vec = small_vec_i32n15_into_vec(v);
    let back = small_vec_i32n15_from_vec(as_vec);
    let boxed = small_vec_i32n15_into_boxed_slice(back);
    events.push(Event::BoxedLen(boxed.len()));
    let items: &[i32] = &*boxed;
    if items.len() > 0 {
        events.push(Event::BorrowedFirst(items[0]));
    }
    (events, None, next, Ghost(ok))
}

/// Operation 5 (see `op_fresh_i32_reserve`).
fn fresh_i32_reserve(g: &[u8], off: usize) -> (r: (Vec<Event>, Option<Halt>, usize, Ghost<Choices>))
    requires
        off <= g.len(),
    ensures
        events_match(r.0@, op_fresh_i32_reserve(g@, off as int, r.3@).0),
        r.1 == op_fresh_i32_reserve(g@, off as int, r.3@).1,
        r.1 is None ==> r.2 == op_fresh_i32_reserve(g@, off as int, r.3@).2 && r.2 <= g.len(),
{
    let ghost c0 = no_choices();
    let n0 = match read_usize(g, off) {
        Some(x) => x,
        None => return (Vec::new(), Some(Halt::InputExhausted), 0, Ghost(c0)),
    };
    if exact_growth_overflows_exec(0, 15, n0, 4) {
        return (Vec::new(), Some(Halt::CapacityOverflow), 0, Ghost(c0));
    }
    let mut v = small_vec_i32n15_with_capacity(n0);
    let k = match read_u8(g, off + 8) {
        Some(b) => b % 10,
        None => return (Vec::new(), Some(Halt::InputExhausted), 0, Ghost(c0)),
    };
    let (vals, p) = read_i32_run(g, off + 9, k);
    proof {
        lemma_i32_run_len(g@, (off + 9) as int, k as nat);
    }
    let ghost cap0 = sv_i32n15_cap(v);
    let mut i: usize = 0;
    while i < vals.len()
        invariant
            i <= vals@.len() <= 9,
            v.wf(),
            sv_i32n15_items(v) == vals@.take(i as int),
            sv_i32n15_cap(v) == cap0,
            cap0 >= 15,
        decreases vals.len() - i,
    {
        small_vec_i32n15_push(&mut v, vals[i]);
        i = i + 1;
        assert(sv_i32n15_items(v) =~= vals@.take(i as int));
    }
    assert(vals@.take(vals@.len() as int) =~= vals@);
    let (events, halt, after, Ghost(ok)) = reserve_i32(g, v, p);
    (events, halt, after, Ghost(Choices { cap: 0, try_ok: ok }))
}

/// The values of `i32_run` number at most `k`.
proof fn lemma_i32_run_len(g: Seq<u8>, off: int, k: nat)
    ensures
        i32_run(g, off, k).0.len() <= k,
    decreases k,
{
    if k > 0 && off + 4 < g.len() {
        lemma_i32_run_len(g, off + 4, (k - 1) as nat);
    }
}

/// Once operation `k` has run without halting, the run's outcome is what was
/// owed so far and its events, followed by what the later operations owe.
proof fn lemma_run_continues(
    input_len: nat,
    g: Seq<u8>,
    k: nat,
    count: nat,
    off: int,
    done: Seq<Choices>,
    owed: Seq<Expect>,
    c: Choices,
)
    requires
        forall|rest: Seq<Choices>|
            #![trigger ops_from(g, k, count, off, rest)]
            script_outcome(input_len, g, done + rest) == (
                owed + ops_from(g, k, count, off, rest).0,
                ops_from(g, k, count, off, rest).1,
            ),
        k < count,
        0 <= off,
        off + 100 < g.len(),
        op_step(g, g[off] % 6, off + 1, c).1 is None,
    ensures
        ({
            let s = op_step(g, g[off] % 6, off + 1, c);
            forall|rest: Seq<Choices>|
                #![trigger ops_from(g, k + 1, count, s.2, rest)]
                script_outcome(input_len, g, done.push(c) + rest) == (
                    (owed + s.0) + ops_from(g, k + 1, count, s.2, rest).0,
                    ops_from(g, k + 1, count, s.2, rest).1,
                )
        }),
{
    let s = op_step(g, g[off] % 6, off + 1, c);
    assert forall|rest: Seq<Choices>|
        #![trigger ops_from(g, k + 1, count, s.2, rest)]
        script_outcome(input_len, g, done.push(c) + rest) == (
            (owed + s.0) + ops_from(g, k + 1, count, s.2, rest).0,
            ops_from(g, k + 1, count, s.2, rest).1,
        ) by {
        let full = seq![c] + rest;
        assert(done.push(c) + rest =~= done + full);
        assert(full.drop_first() =~= rest);
        let tail = ops_from(g, k + 1, count, s.2, rest);
        assert(ops_from(g, k, count, off, full) == (s.0 + tail.0, tail.1));
        assert(owed + (s.0 + tail.0) =~= (owed + s.0) + tail.0);
    }
}

/// Where operation `k` halts, the run's outcome is what was owed so far and
/// its events, and the halt.
proof fn lemma_run_halts(
    input_len: nat,
    g: Seq<u8>,
    k: nat,
    count: nat,
    off: int,
    done: Seq<Choices>,
    owed: Seq<Expect>,
    c: Choices,
)
    requires
        forall|rest: Seq<Choices>|
            #![trigger ops_from(g, k, count, off, rest)]
            script_outcome(input_len, g, done + rest) == (
                owed + ops_from(g, k, count, off, rest).0,
                ops_from(g, k, count, off, rest).1,
            ),
        k < count,
        0 <= off,
        off + 100 < g.len(),
        op_step(g, g[off] % 6, off + 1, c).1 is Some,
    ensures
        script_outcome(input_len, g, done.push(c)) == (
            owed + op_step(g, g[off] % 6, off + 1, c).0,
            op_step(g, g[off] % 6, off + 1, c).1,
        ),
{
    let full = seq![c];
    assert(done.push(c) =~= done + full);
    assert(full[0] == c);
    assert(ops_from(g, k, count, off, full) == (op_step(g, g[off] % 6, off + 1, c).0, op_step(g, g[off] % 6, off + 1, c).1));
}

/// The operation that `op` chooses (see `op_step`).
fn run_op(g: &[u8], op: u8, off: usize) -> (r: (Vec<Event>, Option<Halt>, usize, Ghost<Choices>))
    requires
        off <= g.len(),
    ensures
        events_match(r.0@, op_step(g@, op, off as int, r.3@).0),
        r.1 == op_step(g@, op, off as int, r.3@).1,
        r.1 is None ==> r.2 == op_step(g@, op, off as int, r.3@).2 && r.2 <= g.len(),
{
    reveal(op_step);
    if op == 0 {
        fresh_i32(g, off)
    } else if op == 1 {
        fresh_u8(g, off)
    } else if op == 2 {
        fresh_texts(g, off)
    } else if op == 3 {
        fresh_i32_edit(g, off)
    } else if op == 4 {
        bytes(g, off)
    } else {
        fresh_i32_reserve(g, off)
    }
}

/// The events of a run, and why it stopped early, if it did.
pub struct Run {
    pub events: Vec<Event>,
    pub halt: Option<Halt>,
}

/// Runs the script of an input of `input_len` bytes whose first half is `g`.
/// What it reports is owed for some choices of the allocator.
pub fn run(input_len: usize, g: &[u8]) -> (r: Run)
    ensures
        exists|cs: Seq<Choices>|
            #![trigger script_outcome(input_len as nat, g@, cs)]
            events_match(r.events@, script_outcome(input_len as nat, g@, cs).0) && r.halt
                == script_outcome(input_len as nat, g@, cs).1,
{
    let mut events: Vec<Event> = Vec::new();
    let ghost none = Seq::<Choices>::empty();
    if input_len < 512 {
        assert(script_outcome(input_len as nat, g@, none).0 =~= Seq::<Expect>::empty());
        return Run { events, halt: None };
    }
    let count = match read_u8(g, 0) {
        Some(b) => b % 65,
        None => {
            assert(script_outcome(input_len as nat, g@, none).0 =~= Seq::<Expect>::empty());
            return Run { events, halt: Some(Halt::InputExhausted) };
        },
    };
    let mut off: usize = 1;
    let ghost mut done = Seq::<Choices>::empty();
    let ghost mut owed = Seq::<Expect>::empty();
    let ghost n = count as nat;
    let ghost mut at: int = 1;
    let ghost mut gk: nat = 0;
    assert forall|rest: Seq<Choices>|
        #![trigger ops_from(g@, gk, n, at, rest)]
        script_outcome(input_len as nat, g@, done + rest) == (
            owed + ops_from(g@, gk, n, at, rest).0,
            ops_from(g@, gk, n, at, rest).1,
        ) by {
        assert(done + rest =~= rest);
        assert(owed + ops_from(g@, gk, n, at, rest).0 =~= ops_from(g@, gk, n, at, rest).0);
    }
    let mut k: u8 = 0;
    while k < count
        invariant
            k <= count,
            input_len >= 512,
            g@.len() > 0,
            count == g@[0] % 65,
            n == count as nat,
            off <= g.len(),
            at == off as int,
            gk == k as nat,
            none == Seq::<Choices>::empty(),
            events_match(events@, owed),
            forall|rest: Seq<Choices>|
                #![trigger ops_from(g@, gk, n, at, rest)]
                script_outcome(input_len as nat, g@, done + rest) == (
                    owed + ops_from(g@, gk, n, at, rest).0,
                    ops_from(g@, gk, n, at, rest).1,
                ),
        ensures
            events_match(events@, owed),
            forall|rest: Seq<Choices>|
                #![trigger ops_from(g@, gk, n, at, rest)]
                script_outcome(input_len as nat, g@, done + rest) == (
                    owed + ops_from(g@, gk, n, at, rest).0,
                    ops_from(g@, gk, n, at, rest).1,
                ),
            ops_from(g@, gk, n, at, none) == (Seq::<Expect>::empty(), None::<Halt>),
        decreases count - k,
    {
        if g.len() - off <= 100 {
            break;
        }
        let op = g[off] % 6;
        let (evs, halt, next, Ghost(c)) = run_op(g, op, off + 1);
        let ghost s = op_step(g@, op, (off + 1) as int, c);
        proof {
            lemma_events_match_append(events@, owed, evs@, s.0);
        }
        let mut evs = evs;
        events.append(&mut evs);
        if halt.is_some() {
            proof {
                lemma_run_halts(input_len as nat, g@, gk, n, at, done, owed, c);
            }
            return Run { events, halt };
        }
        proof {
            lemma_run_continues(input_len as nat, g@, gk, n, at, done, owed, c);
            done = done.push(c);
            owed = owed + s.0;
            gk = gk + 1;
            at = s.2;
        }
        off = next;
        k = k + 1;
    }
    assert(done + none =~= done);
    assert(owed + Seq::<Expect>::empty() =~= owed);
    Run { events, halt: None }
}

} // verus!

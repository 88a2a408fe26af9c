//! A script of operations on `SmallVec<[i32; 16]>` read out of an input.
//!
//! The first byte chooses how many operations run (0 to 64); operation `k`
//! starts at byte `4 * k` and reaches well past it, reading what it needs
//! from there. A run stops at the first operation whose start lies within
//! four bytes of the end, and halts where a read runs past the input, an
//! argument is out of range for the vector, or a size computation
//! overflows.
use vstd::prelude::*;
use crate::bytes::_to_u8;
use crate::script::{
    fits, i32_at, i32s_at, read_i32, read_i32s, read_u8, read_usize, reads_fit, usize_at, Halt,
};
use crate::small_vec::{
    exact_growth_overflows, exact_growth_overflows_exec, growth_overflows, growth_overflows_exec,
    grown, i32_ints, lemma_small_growth, lex_order, repeat, Order,
};
use crate::sv_i32::{
    small_vec_i32_append, small_vec_i32_as_mut_ptr, small_vec_i32_as_mut_slice,
    small_vec_i32_as_slice, small_vec_i32_capacity, small_vec_i32_clear, small_vec_i32_clone,
    small_vec_i32_compare, small_vec_i32_drain, small_vec_i32_extend_cloned, small_vec_i32_from_buf,
    small_vec_i32_from_buf_and_len, small_vec_i32_from_elem, small_vec_i32_from_iter,
    small_vec_i32_from_slice, small_vec_i32_from_vec, small_vec_i32_grow, small_vec_i32_insert,
    small_vec_i32_is_empty, small_vec_i32_len, small_vec_i32_new, small_vec_i32_partial_compare,
    small_vec_i32_pop, small_vec_i32_push, small_vec_i32_remove, small_vec_i32_reserve,
    small_vec_i32_swap_remove, small_vec_i32_truncate, small_vec_i32_with_capacity, sv_i32_cap,
    sv_i32_items, SmallVecI32,
};
use vstd::slice::slice_to_vec;

verus! {

/// What the script reports, one value per printed line.
pub enum Event {
    /// All items.
    Items(Vec<i32>),
    /// The capacity.
    Capacity(usize),
    /// The item `remove` returned.
    Removed(i32),
    /// The length.
    Len(usize),
    /// The order of two vectors.
    Compared(Order),
    /// An item taken out by `drain`.
    Drained(i32),
    /// Whether the vector is empty.
    Empty(bool),
    /// What `pop` returned.
    Popped(Option<i32>),
    /// The item `swap_remove` returned.
    SwapRemoved(i32),
}

/// What the script is owed to report.
pub enum Expect {
    Items(Seq<i32>),
    Capacity(nat),
    Removed(i32),
    Len(nat),
    Compared(Order),
    Drained(i32),
    Empty(bool),
    Popped(Option<i32>),
    SwapRemoved(i32),
}

/// Whether a reported event is the one that was owed.
pub open spec fn event_matches(e: Event, x: Expect) -> bool {
    match e {
        Event::Items(v) => x == Expect::Items(v@),
        Event::Capacity(c) => x == Expect::Capacity(c as nat),
        Event::Removed(v) => x == Expect::Removed(v),
        Event::Len(n) => x == Expect::Len(n as nat),
        Event::Compared(o) => x == Expect::Compared(o),
        Event::Drained(v) => x == Expect::Drained(v),
        Event::Empty(b) => x == Expect::Empty(b),
        Event::Popped(o) => x == Expect::Popped(o),
        Event::SwapRemoved(v) => x == Expect::SwapRemoved(v),
    }
}

/// Whether the reported events are, one for one, those owed.
pub open spec fn events_match(a: Seq<Event>, x: Seq<Expect>) -> bool {
    &&& a.len() == x.len()
    &&& forall|i: int| 0 <= i < a.len() ==> #[trigger] event_matches(a[i], x[i])
}

/// What an operation is owed: its events, and why it halts, if it does.
pub type Outcome = (Seq<Expect>, Option<Halt>);

/// An operation that halts before reporting anything.
pub open spec fn halted(h: Halt) -> Outcome {
    (Seq::empty(), Some(h))
}

/// An operation that reports `events` and goes on.
pub open spec fn done(events: Seq<Expect>) -> Outcome {
    (events, None)
}

/// Operation 0: a vector made with a read capacity, extended by a read
/// number of copies of a read value; report its items.
pub open spec fn op_fill(gd: Seq<u8>, b: int) -> Outcome {
    if !fits(gd, b + 8, 8) {
        halted(Halt::InputExhausted)
    } else {
        let capacity = usize_at(gd, b + 8) as nat;
        if exact_growth_overflows(0, 16, capacity, 4) {
            halted(Halt::CapacityOverflow)
        } else if !fits(gd, b + 16, 4) || !fits(gd, b + 24, 8) {
            halted(Halt::InputExhausted)
        } else {
            let count = usize_at(gd, b + 24) as nat;
            let cap1 = if capacity <= 16 { 16 } else { capacity };
            if count > 16 && count * 4 > isize::MAX {
                halted(Halt::CapacityOverflow)
            } else if growth_overflows(0, cap1, count, 4) {
                halted(Halt::CapacityOverflow)
            } else {
                done(seq![Expect::Items(repeat(i32_at(gd, b + 16), count))])
            }
        }
    }
}

/// Operation 0 (see `op_fill`).
pub fn fill(gd: &[u8], b: usize) -> (r: (Vec<Event>, Option<Halt>))
    requires
        b + 4 < gd.len() <= isize::MAX,
    ensures
        events_match(r.0@, op_fill(gd@, b as int).0),
        r.1 == op_fill(gd@, b as int).1,
{
    let capacity = match read_usize(gd, b + 8) {
        Some(c) => c,
        None => return (Vec::new(), Some(Halt::InputExhausted)),
    };
    if exact_growth_overflows_exec(0, 16, capacity, 4) {
        return (Vec::new(), Some(Halt::CapacityOverflow));
    }
    let mut sv1 = small_vec_i32_with_capacity(capacity);
    let elem = match read_i32(gd, b + 16) {
        Some(e) => e,
        None => return (Vec::new(), Some(Halt::InputExhausted)),
    };
    let count = match read_usize(gd, b + 24) {
        Some(c) => c,
        None => return (Vec::new(), Some(Halt::InputExhausted)),
    };
    if count > 16 && count > (isize::MAX as usize) / 4 {
        return (Vec::new(), Some(Halt::CapacityOverflow));
    }
    let sv2 = small_vec_i32_from_elem(elem, count);
    if growth_overflows_exec(0, small_vec_i32_capacity(&sv1), count, 4) {
        return (Vec::new(), Some(Halt::CapacityOverflow));
    }
    small_vec_i32_extend_cloned(&mut sv1, &sv2);
    let _ptr = small_vec_i32_as_mut_ptr(&mut sv1);
    let slice = small_vec_i32_as_slice(&sv1);
    let mut out: Vec<Event> = Vec::new();
    out.push(Event::Items(slice_to_vec(slice)));
    proof {
        assert(sv_i32_items(sv1) =~= repeat(elem, count as nat));
        let x = op_fill(gd@, b as int).0;
        assert(forall|i: int| 0 <= i < out@.len() ==> #[trigger] event_matches(out@[i], x[i]));
    }
    (out, None)
}

/// Operation 1: a vector from up to 64 read values, with one more read value
/// pushed; report its items.
pub open spec fn op_from_vec_push(gd: Seq<u8>, b: int) -> Outcome {
    let k = (gd[b + 1] % 65) as nat;
    if !reads_fit(gd, b + 32, 4, k) || !fits(gd, b + 4, 4) {
        halted(Halt::InputExhausted)
    } else {
        done(seq![Expect::Items(i32s_at(gd, b + 32, 4, k).push(i32_at(gd, b + 4)))])
    }
}

/// Operation 1 (see `op_from_vec_push`).
pub fn from_vec_push(gd: &[u8], b: usize) -> (r: (Vec<Event>, Option<Halt>))
    requires
        b + 4 < gd.len() <= isize::MAX,
    ensures
        events_match(r.0@, op_from_vec_push(gd@, b as int).0),
        r.1 == op_from_vec_push(gd@, b as int).1,
{
    let vec_size = _to_u8(gd, b + 1) % 65;
    let vec_data = match read_i32s(gd, b + 32, 4, vec_size as usize) {
        Some(v) => v,
        None => return (Vec::new(), Some(Halt::InputExhausted)),
    };
    let mut sv = small_vec_i32_from_vec(vec_data);
    let last = match read_i32(gd, b + 4) {
        Some(x) => x,
        None => return (Vec::new(), Some(Halt::InputExhausted)),
    };
    proof {
        lemma_small_growth(sv_i32_items(sv).len(), sv_i32_cap(sv), 1);
    }
    small_vec_i32_push(&mut sv, last);
    let _ptr = small_vec_i32_as_mut_ptr(&mut sv);
    let mut_slice = small_vec_i32_as_mut_slice(&mut sv);
    let mut out: Vec<Event> = Vec::new();
    out.push(Event::Items(slice_to_vec(mut_slice)));
    proof {
        let x = op_from_vec_push(gd@, b as int).0;
        assert(forall|i: int| 0 <= i < out@.len() ==> #[trigger] event_matches(out@[i], x[i]));
    }
    (out, None)
}

/// Operation 2: a full inline vector from an array partly filled with read
/// values, appended with a prefix of the same array of read length; report
/// the capacity.
pub open spec fn op_buf_append(gd: Seq<u8>, b: int) -> Outcome {
    let k = (gd[b + 2] % 16) as nat;
    if !reads_fit(gd, b + 40, 4, k) || !fits(gd, b + 8, 8) {
        halted(Halt::InputExhausted)
    } else {
        let len = usize_at(gd, b + 8) as nat;
        if len > 16 {
            halted(Halt::OutOfRange)
        } else {
            done(seq![Expect::Capacity(grown(16, 16, len))])
        }
    }
}

/// Operation 2 (see `op_buf_append`).
pub fn buf_append(gd: &[u8], b: usize) -> (r: (Vec<Event>, Option<Halt>))
    requires
        b + 4 < gd.len() <= isize::MAX,
    ensures
        events_match(r.0@, op_buf_append(gd@, b as int).0),
        r.1 == op_buf_append(gd@, b as int).1,
{
    let array_size = _to_u8(gd, b + 2) % 16;
    let mut array: [i32; 16] = [0; 16];
    let mut j: usize = 0;
    while j < array_size as usize
        invariant
            j <= array_size < 16,
            array_size == gd@[b + 2] % 16,
            b + 4 < gd.len() <= isize::MAX,
            j > 0 ==> fits(gd@, b + 40 + 4 * (j - 1), 4),
        decreases array_size - j,
    {
        match read_i32(gd, b + 40 + j * 4) {
            Some(x) => {
                array[j] = x;
            },
            None => {
                return (Vec::new(), Some(Halt::InputExhausted));
            },
        }
        j = j + 1;
    }
    let mut sv = small_vec_i32_from_buf(array);
    let len = match read_usize(gd, b + 8) {
        Some(l) => l,
        None => return (Vec::new(), Some(Halt::InputExhausted)),
    };
    if len > 16 {
        return (Vec::new(), Some(Halt::OutOfRange));
    }
    let sv2 = small_vec_i32_from_buf_and_len(array, len);
    let mut copy = small_vec_i32_clone(&sv2);
    proof {
        lemma_small_growth(16, 16, len as nat);
    }
    small_vec_i32_append(&mut sv, &mut copy);
    let _ptr = small_vec_i32_as_mut_ptr(&mut sv);
    let mut out: Vec<Event> = Vec::new();
    out.push(Event::Capacity(small_vec_i32_capacity(&sv)));
    proof {
        let x = op_buf_append(gd@, b as int).0;
        assert(forall|i: int| 0 <= i < out@.len() ==> #[trigger] event_matches(out@[i], x[i]));
    }
    (out, None)
}

/// Operation 3: a vector from up to 64 read values; insert a read value at a
/// read index and remove it again; report it. An index beyond the length is
/// out of range.
pub open spec fn op_insert_remove(gd: Seq<u8>, b: int) -> Outcome {
    let m = (gd[b + 3] % 65) as nat;
    if !reads_fit(gd, b + 60, 4, m) || !fits(gd, b + 12, 8) {
        halted(Halt::InputExhausted)
    } else if usize_at(gd, b + 12) > m {
        halted(Halt::OutOfRange)
    } else {
        done(seq![Expect::Removed(i32_at(gd, b + 16))])
    }
}

/// Operation 3 (see `op_insert_remove`).
pub fn insert_remove(gd: &[u8], b: usize) -> (r: (Vec<Event>, Option<Halt>))
    requires
        b + 4 < gd.len() <= isize::MAX,
    ensures
        events_match(r.0@, op_insert_remove(gd@, b as int).0),
        r.1 == op_insert_remove(gd@, b as int).1,
{
    let slice_size = _to_u8(gd, b + 3) % 65;
    let slice_data = match read_i32s(gd, b + 60, 4, slice_size as usize) {
        Some(v) => v,
        None => return (Vec::new(), Some(Halt::InputExhausted)),
    };
    let mut sv = small_vec_i32_from_slice(slice_data.as_slice());
    let index = match read_usize(gd, b + 12) {
        Some(i) => i,
        None => return (Vec::new(), Some(Halt::InputExhausted)),
    };
    let element = crate::bytes::_to_i32(gd, b + 16);
    if index > small_vec_i32_len(&sv) {
        return (Vec::new(), Some(Halt::OutOfRange));
    }
    proof {
        lemma_small_growth(sv_i32_items(sv).len(), sv_i32_cap(sv), 1);
    }
    small_vec_i32_insert(&mut sv, index, element);
    let removed = small_vec_i32_remove(&mut sv, index);
    let _ptr = small_vec_i32_as_mut_ptr(&mut sv);
    let mut out: Vec<Event> = Vec::new();
    out.push(Event::Removed(removed));
    proof {
        let x = op_insert_remove(gd@, b as int).0;
        assert(forall|i: int| 0 <= i < out@.len() ==> #[trigger] event_matches(out@[i], x[i]));
    }
    (out, None)
}

/// Operation 4: a vector collected from up to 64 read values; reserve a read
/// amount, grow to a read capacity; report the length. Growing below the
/// length is out of range.
pub open spec fn op_reserve_grow(gd: Seq<u8>, b: int) -> Outcome {
    let n = (gd[b + 4] % 65) as nat;
    if !reads_fit(gd, b + 80, 4, n) || !fits(gd, b + 20, 8) {
        halted(Halt::InputExhausted)
    } else {
        let amount = usize_at(gd, b + 20) as nat;
        if growth_overflows(n, grown(0, 16, n), amount, 4) {
            halted(Halt::CapacityOverflow)
        } else if !fits(gd, b + 24, 8) {
            halted(Halt::InputExhausted)
        } else {
            let new_cap = usize_at(gd, b + 24) as nat;
            if new_cap < n {
                halted(Halt::OutOfRange)
            } else if new_cap > 16 && new_cap * 4 > isize::MAX {
                halted(Halt::CapacityOverflow)
            } else {
                done(seq![Expect::Len(n)])
            }
        }
    }
}

/// Operation 4 (see `op_reserve_grow`).
pub fn reserve_grow(gd: &[u8], b: usize) -> (r: (Vec<Event>, Option<Halt>))
    requires
        b + 4 < gd.len() <= isize::MAX,
    ensures
        events_match(r.0@, op_reserve_grow(gd@, b as int).0),
        r.1 == op_reserve_grow(gd@, b as int).1,
{
    let iterator_size = _to_u8(gd, b + 4) % 65;
    let iter_data = match read_i32s(gd, b + 80, 4, iterator_size as usize) {
        Some(v) => v,
        None => return (Vec::new(), Some(Halt::InputExhausted)),
    };
    proof {
        lemma_small_growth(0, 16, iter_data@.len());
    }
    let mut sv = small_vec_i32_from_iter(iter_data);
    let reserve_amt = match read_usize(gd, b + 20) {
        Some(a) => a,
        None => return (Vec::new(), Some(Halt::InputExhausted)),
    };
    if growth_overflows_exec(small_vec_i32_len(&sv), small_vec_i32_capacity(&sv), reserve_amt, 4) {
        return (Vec::new(), Some(Halt::CapacityOverflow));
    }
    small_vec_i32_reserve(&mut sv, reserve_amt);
    let grow_amt = match read_usize(gd, b + 24) {
        Some(a) => a,
        None => return (Vec::new(), Some(Halt::InputExhausted)),
    };
    if grow_amt < small_vec_i32_len(&sv) {
        return (Vec::new(), Some(Halt::OutOfRange));
    }
    if grow_amt > 16 && grow_amt > (isize::MAX as usize) / 4 {
        return (Vec::new(), Some(Halt::CapacityOverflow));
    }
    small_vec_i32_grow(&mut sv, grow_amt);
    let _ptr = small_vec_i32_as_mut_ptr(&mut sv);
    let mut out: Vec<Event> = Vec::new();
    out.push(Event::Len(small_vec_i32_len(&sv)));
    proof {
        let x = op_reserve_grow(gd@, b as int).0;
        assert(forall|i: int| 0 <= i < out@.len() ==> #[trigger] event_matches(out@[i], x[i]));
    }
    (out, None)
}

/// Operation 5: compare two one-item vectors, totally and partially.
pub open spec fn op_compare(gd: Seq<u8>, b: int) -> Outcome {
    if !fits(gd, b + 8, 4) || !fits(gd, b + 12, 4) {
        halted(Halt::InputExhausted)
    } else {
        let o = lex_order(i32_ints(seq![i32_at(gd, b + 8)]), i32_ints(seq![i32_at(gd, b + 12)]));
        done(seq![Expect::Compared(o), Expect::Compared(o)])
    }
}

/// Operation 5 (see `op_compare`).
pub fn compare(gd: &[u8], b: usize) -> (r: (Vec<Event>, Option<Halt>))
    requires
        b + 4 < gd.len() <= isize::MAX,
    ensures
        events_match(r.0@, op_compare(gd@, b as int).0),
        r.1 == op_compare(gd@, b as int).1,
{
    let mut sv1 = small_vec_i32_new();
    let mut sv2 = small_vec_i32_new();
    let x1 = match read_i32(gd, b + 8) {
        Some(x) => x,
        None => return (Vec::new(), Some(Halt::InputExhausted)),
    };
    small_vec_i32_push(&mut sv1, x1);
    let x2 = match read_i32(gd, b + 12) {
        Some(x) => x,
        None => return (Vec::new(), Some(Halt::InputExhausted)),
    };
    small_vec_i32_push(&mut sv2, x2);
    assert(sv_i32_items(sv1) =~= seq![x1]);
    assert(sv_i32_items(sv2) =~= seq![x2]);
    let total = small_vec_i32_compare(&sv1, &sv2);
    let partial_order = small_vec_i32_partial_compare(&sv1, &sv2);
    let _ptr1 = small_vec_i32_as_mut_ptr(&mut sv1);
    let _ptr2 = small_vec_i32_as_mut_ptr(&mut sv2);
    let mut out: Vec<Event> = Vec::new();
    out.push(Event::Compared(total));
    if let Some(ord) = partial_order {
        out.push(Event::Compared(ord));
    }
    proof {
        let x = op_compare(gd@, b as int).0;
        assert(forall|i: int| 0 <= i < out@.len() ==> #[trigger] event_matches(out@[i], x[i]));
    }
    (out, None)
}

/// Operation 6: push ten read values, drain a read range and list what it
/// took, then report emptiness. A range that is reversed or runs past the
/// length is out of range.
pub open spec fn op_drain(gd: Seq<u8>, b: int) -> Outcome {
    if !reads_fit(gd, b + 16, 4, 10) {
        halted(Halt::InputExhausted)
    } else {
        let items = i32s_at(gd, b + 16, 4, 10);
        let start = usize_at(gd, b + 8) as int;
        let end = usize_at(gd, b + 12) as int;
        if !(start <= end <= 10) {
            halted(Halt::OutOfRange)
        } else {
            let taken = items.subrange(start, end);
            done(
                Seq::new(taken.len(), |i: int| Expect::Drained(taken[i])).push(
                    Expect::Empty(end - start == 10),
                ),
            )
        }
    }
}

/// Operation 6 (see `op_drain`).
pub fn drain(gd: &[u8], b: usize) -> (r: (Vec<Event>, Option<Halt>))
    requires
        b + 4 < gd.len() <= isize::MAX,
    ensures
        events_match(r.0@, op_drain(gd@, b as int).0),
        r.1 == op_drain(gd@, b as int).1,
{
    let mut sv = small_vec_i32_new();
    let mut p: usize = 0;
    while p < 10
        invariant
            p <= 10,
            b + 4 < gd.len() <= isize::MAX,
            sv.wf(),
            sv_i32_cap(sv) == 16,
            sv_i32_items(sv) == i32s_at(gd@, b + 16, 4, p as nat),
            p > 0 ==> fits(gd@, b + 16 + 4 * (p - 1), 4),
        decreases 10 - p,
    {
        match read_i32(gd, b + 16 + p * 4) {
            Some(x) => {
                small_vec_i32_push(&mut sv, x);
                p = p + 1;
                assert(sv_i32_items(sv) =~= i32s_at(gd@, b + 16, 4, p as nat));
            },
            None => return (Vec::new(), Some(Halt::InputExhausted)),
        }
    }
    let range_start = crate::bytes::_to_usize(gd, b + 8);
    let range_end = crate::bytes::_to_usize(gd, b + 12);
    if !(range_start <= range_end && range_end <= small_vec_i32_len(&sv)) {
        return (Vec::new(), Some(Halt::OutOfRange));
    }
    let drained = small_vec_i32_drain(&mut sv, range_start, range_end);
    let ghost x = op_drain(gd@, b as int).0;
    let mut out: Vec<Event> = Vec::new();
    let mut i: usize = 0;
    while i < drained.len()
        invariant
            0 <= i <= drained@.len(),
            x == Seq::new(drained@.len(), |k: int| Expect::Drained(drained@[k])).push(
                Expect::Empty(range_end - range_start == 10),
            ),
            out@.len() == i,
            forall|j: int| 0 <= j < out@.len() ==> #[trigger] event_matches(out@[j], x[j]),
        decreases drained@.len() - i,
    {
        out.push(Event::Drained(drained[i]));
        i = i + 1;
    }
    let _ptr = small_vec_i32_as_mut_ptr(&mut sv);
    out.push(Event::Empty(small_vec_i32_is_empty(&sv)));
    (out, None)
}

/// Operation 7: push three read values, pop, swap-remove at a read index,
/// truncate to a read length, clear; report the pop and the swap-remove. An
/// index past the two remaining items is out of range.
pub open spec fn op_pop_swap(gd: Seq<u8>, b: int) -> Outcome {
    if !reads_fit(gd, b + 4, 4, 3) || !fits(gd, b + 16, 8) {
        halted(Halt::InputExhausted)
    } else {
        let items = i32s_at(gd, b + 4, 4, 3);
        let index = usize_at(gd, b + 16);
        if index >= 2 {
            halted(Halt::OutOfRange)
        } else if !fits(gd, b + 20, 8) {
            halted(Halt::InputExhausted)
        } else {
            done(seq![Expect::Popped(Some(items[2])), Expect::SwapRemoved(items[index as int])])
        }
    }
}

/// Operation 7 (see `op_pop_swap`).
pub fn pop_swap(gd: &[u8], b: usize) -> (r: (Vec<Event>, Option<Halt>))
    requires
        b + 4 < gd.len() <= isize::MAX,
    ensures
        events_match(r.0@, op_pop_swap(gd@, b as int).0),
        r.1 == op_pop_swap(gd@, b as int).1,
{
    let mut sv = small_vec_i32_new();
    let mut p: usize = 0;
    while p < 3
        invariant
            p <= 3,
            b + 4 < gd.len() <= isize::MAX,
            sv.wf(),
            sv_i32_cap(sv) == 16,
            sv_i32_items(sv) == i32s_at(gd@, b + 4, 4, p as nat),
            p > 0 ==> fits(gd@, b + 4 + 4 * (p - 1), 4),
        decreases 3 - p,
    {
        match read_i32(gd, b + 4 + p * 4) {
            Some(x) => {
                small_vec_i32_push(&mut sv, x);
                p = p + 1;
                assert(sv_i32_items(sv) =~= i32s_at(gd@, b + 4, 4, p as nat));
            },
            None => return (Vec::new(), Some(Halt::InputExhausted)),
        }
    }
    let _ptr = small_vec_i32_as_mut_ptr(&mut sv);
    let pop_result = small_vec_i32_pop(&mut sv);
    let swap_idx = match read_usize(gd, b + 16) {
        Some(i) => i,
        None => return (Vec::new(), Some(Halt::InputExhausted)),
    };
    if swap_idx >= small_vec_i32_len(&sv) {
        return (Vec::new(), Some(Halt::OutOfRange));
    }
    let swap_result = small_vec_i32_swap_remove(&mut sv, swap_idx);
    let truncate_len = match read_usize(gd, b + 20) {
        Some(l) => l,
        None => return (Vec::new(), Some(Halt::InputExhausted)),
    };
    small_vec_i32_truncate(&mut sv, truncate_len);
    small_vec_i32_clear(&mut sv);
    let mut out: Vec<Event> = Vec::new();
    out.push(Event::Popped(pop_result));
    out.push(Event::SwapRemoved(swap_result));
    proof {
        let x = op_pop_swap(gd@, b as int).0;
        assert(forall|i: int| 0 <= i < out@.len() ==> #[trigger] event_matches(out@[i], x[i]));
    }
    (out, None)
}

/// What the operation starting at `b` is owed.
pub open spec fn op_outcome(gd: Seq<u8>, b: int) -> Outcome {
    let op = gd[b] % 8;
    if op == 0 {
        op_fill(gd, b)
    } else if op == 1 {
        op_from_vec_push(gd, b)
    } else if op == 2 {
        op_buf_append(gd, b)
    } else if op == 3 {
        op_insert_remove(gd, b)
    } else if op == 4 {
        op_reserve_grow(gd, b)
    } else if op == 5 {
        op_compare(gd, b)
    } else if op == 6 {
        op_drain(gd, b)
    } else {
        op_pop_swap(gd, b)
    }
}

/// Runs the operation starting at `b`.
pub fn run_op(gd: &[u8], b: usize) -> (r: (Vec<Event>, Option<Halt>))
    requires
        b + 4 < gd.len() <= isize::MAX,
    ensures
        events_match(r.0@, op_outcome(gd@, b as int).0),
        r.1 == op_outcome(gd@, b as int).1,
{
    let operation = _to_u8(gd, b) % 8;
    match operation {
        0 => fill(gd, b),
        1 => from_vec_push(gd, b),
        2 => buf_append(gd, b),
        3 => insert_remove(gd, b),
        4 => reserve_grow(gd, b),
        5 => compare(gd, b),
        6 => drain(gd, b),
        _ => pop_swap(gd, b),
    }
}

/// What operations `k` up to `count` are owed, stopping at the first that
/// halts or that starts within four bytes of the end.
pub open spec fn ops_from(gd: Seq<u8>, k: nat, count: nat) -> Outcome
    decreases count - k,
{
    if k >= count {
        (Seq::empty(), None)
    } else {
        let b = 4 * k;
        if b + 4 >= gd.len() {
            (Seq::empty(), None)
        } else {
            let o = op_outcome(gd, b as int);
            if o.1 is Some {
                o
            } else {
                let rest = ops_from(gd, k + 1, count);
                (o.0 + rest.0, rest.1)
            }
        }
    }
}

/// What a whole run is owed. Inputs shorter than 120 bytes are ignored; `gd`
/// is the half of the input that the script reads, and its first byte
/// chooses how many operations run (0 to 64).
pub open spec fn script_outcome(input_len: nat, gd: Seq<u8>) -> Outcome {
    if input_len < 120 {
        (Seq::empty(), None)
    } else if gd.len() == 0 {
        halted(Halt::InputExhausted)
    } else {
        ops_from(gd, 0, (gd[0] % 65) as nat)
    }
}

/// The events of a run, and why it stopped early, if it did.
pub struct Run {
    pub events: Vec<Event>,
    pub halt: Option<Halt>,
}

/// Reported events, followed by more, match what was owed followed by more.
proof fn lemma_events_match_append(a: Seq<Event>, x: Seq<Expect>, b: Seq<Event>, y: Seq<Expect>)
    requires
        events_match(a, x),
        events_match(b, y),
    ensures
        events_match(a + b, x + y),
{
    assert forall|i: int| 0 <= i < (a + b).len() implies #[trigger] event_matches((a + b)[i], (x + y)[i]) by {
        if i < a.len() {
            assert(event_matches(a[i], x[i]));
        } else {
            assert(event_matches(b[i - a.len()], y[i - a.len()]));
        }
    }
}

/// Runs the script of an input of `input_len` bytes whose first half is `gd`.
pub fn run(input_len: usize, gd: &[u8]) -> (r: Run)
    requires
        gd.len() <= isize::MAX,
    ensures
        events_match(r.events@, script_outcome(input_len as nat, gd@).0),
        r.halt == script_outcome(input_len as nat, gd@).1,
{
    let mut events: Vec<Event> = Vec::new();
    if input_len < 120 {
        return Run { events, halt: None };
    }
    let first = match read_u8(gd, 0) {
        Some(b) => b,
        None => return Run { events, halt: Some(Halt::InputExhausted) },
    };
    let num_operations = first % 65;
    let ghost count = num_operations as nat;
    let ghost mut owed: Seq<Expect> = Seq::empty();
    let mut i: u8 = 0;
    while i < num_operations
        invariant
            input_len >= 120,
            gd@.len() > 0,
            gd.len() <= isize::MAX,
            count == num_operations as nat == (gd@[0] % 65) as nat,
            i <= num_operations <= 64,
            events_match(events@, owed),
            script_outcome(input_len as nat, gd@) == (
                owed + ops_from(gd@, i as nat, count).0,
                ops_from(gd@, i as nat, count).1,
            ),
        decreases num_operations - i,
    {
        let base_idx = i as usize * 4;
        if base_idx + 4 >= gd.len() {
            assert(owed + ops_from(gd@, i as nat, count).0 =~= owed);
            return Run { events, halt: None };
        }
        let (evs, halt) = run_op(gd, base_idx);
        let ghost o = op_outcome(gd@, base_idx as int);
        proof {
            lemma_events_match_append(events@, owed, evs@, o.0);
        }
        let mut evs = evs;
        events.append(&mut evs);
        if halt.is_some() {
            assert(owed + ops_from(gd@, i as nat, count).0 =~= owed + o.0);
            return Run { events, halt };
        }
        proof {
            let rest = ops_from(gd@, (i + 1) as nat, count);
            assert(owed + (o.0 + rest.0) =~= (owed + o.0) + rest.0);
            owed = owed + o.0;
        }
        i = i + 1;
    }
    proof {
        assert(owed + ops_from(gd@, i as nat, count).0 =~= owed);
    }
    Run { events, halt: None }
}

/// Operation 1 reports the read values followed by the pushed one: one item
/// more than the values read, each value in its place (the `i32` at
/// `b + 32 + 4 * k`), and last the `i32` read at `b + 4`.
pub proof fn law_from_vec_push_ends_with_the_pushed_value(gd: Seq<u8>, b: int)
    requires
        0 <= b,
        b + 1 < gd.len(),
        gd[b] % 8 == 1,
        reads_fit(gd, b + 32, 4, (gd[b + 1] % 65) as nat),
        fits(gd, b + 4, 4),
    ensures
        op_outcome(gd, b).1 is None,
        op_outcome(gd, b).0.len() == 1,
        op_outcome(gd, b).0[0] matches Expect::Items(v) && v.len() == (gd[b + 1] % 65) + 1 && v.last() == i32_at(
            gd,
            b + 4,
        ) && forall|k: int| 0 <= k < v.len() - 1 ==> v[k] == i32_at(gd, b + 32 + 4 * k),
{
}

/// Operation 6 lists, in order, the values pushed at positions `start` up to
/// `end` (the `i32` at `b + 16 + 4 * (start + j)` as the `j`-th), then
/// whether all ten were taken.
pub proof fn law_drain_lists_the_values_in_its_range(gd: Seq<u8>, b: int)
    requires
        0 <= b < gd.len(),
        gd[b] % 8 == 6,
        reads_fit(gd, b + 16, 4, 10),
        usize_at(gd, b + 8) <= usize_at(gd, b + 12) <= 10,
    ensures
        ({
            let start = usize_at(gd, b + 8) as int;
            let end = usize_at(gd, b + 12) as int;
            let o = op_outcome(gd, b);
            &&& o.1 is None
            &&& o.0.len() == end - start + 1
            &&& forall|j: int| 0 <= j < end - start ==> o.0[j] == Expect::Drained(i32_at(gd, b + 16 + 4 * (start + j)))
            &&& o.0[end - start] == Expect::Empty(end - start == 10)
        }),
{
}

/// Operation 7 pops the third value pushed, then swap-removes and reports the
/// value pushed at the read index (below two).
pub proof fn law_pop_and_swap_remove_report_the_values_pushed(gd: Seq<u8>, b: int)
    requires
        0 <= b < gd.len(),
        gd[b] % 8 == 7,
        reads_fit(gd, b + 4, 4, 3),
        fits(gd, b + 16, 8),
        usize_at(gd, b + 16) < 2,
        fits(gd, b + 20, 8),
    ensures
        op_outcome(gd, b).1 is None,
        op_outcome(gd, b).0 == seq![
            Expect::Popped(Some(i32_at(gd, b + 12))),
            Expect::SwapRemoved(i32_at(gd, b + 4 + 4 * usize_at(gd, b + 16))),
        ],
{
}

} // verus!

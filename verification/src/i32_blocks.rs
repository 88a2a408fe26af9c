//! A script of operations on `SmallVec<[i32; 16]>`, one per 80-byte block.
//!
//! The first byte chooses how many operations run (1 to 20); operation `k`
//! owns the 80 bytes from `80 * k`, whose first byte chooses what it does
//! (some operations read past their block). A run stops at the first block
//! that does not fit, and halts where a read runs past the input or a size
//! computation overflows.
use vstd::prelude::*;
use crate::bytes::_to_u8;
use crate::script::{
    fits, i32_at, i32s_at, read_i32, read_i32s, read_u8, read_usize, reads_fit, usize_at, Halt,
};
use crate::small_vec::{
    exact_growth_overflows, exact_growth_overflows_exec, growth_overflows, growth_overflows_exec,
    grown, i32_ints, lemma_small_growth, lex_order, next_pow2, repeat, Order,
};
use crate::sv_i32::{
    into_iter_i32_as_mut_slice, into_iter_i32_as_slice, into_iter_i32_next, into_iter_i32_rest,
    small_vec_i32_append, small_vec_i32_as_mut_slice, small_vec_i32_as_slice,
    small_vec_i32_capacity, small_vec_i32_clear, small_vec_i32_clone, small_vec_i32_compare,
    small_vec_i32_deref, small_vec_i32_drain, small_vec_i32_eq, small_vec_i32_extend_from_slice,
    small_vec_i32_from, small_vec_i32_from_elem, small_vec_i32_from_iter, small_vec_i32_from_slice,
    small_vec_i32_index, small_vec_i32_insert, small_vec_i32_into_iter_start,
    small_vec_i32_into_vec, small_vec_i32_is_empty, small_vec_i32_len, small_vec_i32_new,
    small_vec_i32_partial_compare, small_vec_i32_pop, small_vec_i32_push, small_vec_i32_remove,
    small_vec_i32_reserve, small_vec_i32_resize, small_vec_i32_shrink_to_fit,
    small_vec_i32_swap_remove, small_vec_i32_to_small_vec, small_vec_i32_truncate,
    small_vec_i32_with_capacity, sv_i32_cap, sv_i32_items, SmallVecI32,
};

verus! {

/// What the script reports, one value per printed line.
pub enum Event {
    /// The length.
    Len(usize),
    /// The first item, read through `as_slice`.
    First(i32),
    /// The first item, read through `as_mut_slice`.
    MutFirst(i32),
    /// The capacity.
    Capacity(usize),
    /// The capacity after `shrink_to_fit`.
    Shrunk(usize),
    /// The length of the `Vec` that `into_vec` gave.
    IntoVecLen(usize),
    /// The order of two vectors.
    Compared(Order),
    /// Whether two vectors are equal.
    Equal(bool),
    /// The first item taken out by `drain`.
    Drained(i32),
    /// The item `pop` returned.
    Popped(i32),
    /// The item `remove` returned.
    Removed(i32),
    /// The item `swap_remove` returned.
    Swapped(i32),
    /// The item at an index.
    Indexed(i32),
    /// The length of a vector made by `to_smallvec`.
    ToSmallVecLen(usize),
    /// The length of a clone.
    ClonedLen(usize),
    /// The length seen through `as_slice`.
    SliceLen(usize),
    /// The first item `into_iter` yielded.
    IterFirst(i32),
    /// The first item left in the iterator, read through `as_slice`.
    RestFirst(i32),
    /// The first item left in the iterator, read through `as_mut_slice`.
    RestMutFirst(i32),
}

/// What the script is owed to report. A capacity that the outside crate does
/// not fix is owed only to be at least `at_least`.
pub enum Expect {
    Len(nat),
    First(i32),
    MutFirst(i32),
    Capacity { known: Option<nat>, at_least: nat },
    Shrunk(nat),
    IntoVecLen(nat),
    Compared(Order),
    Equal(bool),
    Drained(i32),
    Popped(i32),
    Removed(i32),
    Swapped(i32),
    Indexed(i32),
    ToSmallVecLen(nat),
    ClonedLen(nat),
    SliceLen(nat),
    IterFirst(i32),
    RestFirst(i32),
    RestMutFirst(i32),
}

/// Whether a reported event is one that was owed.
pub open spec fn event_matches(e: Event, x: Expect) -> bool {
    match e {
        Event::Len(n) => x == Expect::Len(n as nat),
        Event::First(v) => x == Expect::First(v),
        Event::MutFirst(v) => x == Expect::MutFirst(v),
        Event::Capacity(c) => match x {
            Expect::Capacity { known, at_least } => match known {
                Some(k) => c == k,
                None => c >= at_least,
            },
            _ => false,
        },
        Event::Shrunk(c) => x == Expect::Shrunk(c as nat),
        Event::IntoVecLen(n) => x == Expect::IntoVecLen(n as nat),
        Event::Compared(o) => x == Expect::Compared(o),
        Event::Equal(b) => x == Expect::Equal(b),
        Event::Drained(v) => x == Expect::Drained(v),
        Event::Popped(v) => x == Expect::Popped(v),
        Event::Removed(v) => x == Expect::Removed(v),
        Event::Swapped(v) => x == Expect::Swapped(v),
        Event::Indexed(v) => x == Expect::Indexed(v),
        Event::ToSmallVecLen(n) => x == Expect::ToSmallVecLen(n as nat),
        Event::ClonedLen(n) => x == Expect::ClonedLen(n as nat),
        Event::SliceLen(n) => x == Expect::SliceLen(n as nat),
        Event::IterFirst(v) => x == Expect::IterFirst(v),
        Event::RestFirst(v) => x == Expect::RestFirst(v),
        Event::RestMutFirst(v) => x == Expect::RestMutFirst(v),
    }
}

/// Whether the reported events are, one for one, those owed.
pub open spec fn events_match(a: Seq<Event>, x: Seq<Expect>) -> bool {
    &&& a.len() == x.len()
    &&& forall|i: int| 0 <= i < a.len() ==> #[trigger] event_matches(a[i], x[i])
}

/// What an operation is owed: its events, and why it halts, if it does.
pub type Outcome = (Seq<Expect>, Option<Halt>);

/// An operation that halts before reporting anything.
pub open spec fn halted(h: Halt) -> Outcome {
    (Seq::empty(), Some(h))
}

/// Reported events, followed by more, match what was owed followed by more.
proof fn lemma_events_match_append(a: Seq<Event>, x: Seq<Expect>, b: Seq<Event>, y: Seq<Expect>)
    requires
        events_match(a, x),
        events_match(b, y),
    ensures
        events_match(a + b, x + y),
{
    assert forall|i: int| 0 <= i < (a + b).len() implies #[trigger] event_matches((a + b)[i], (x + y)[i]) by {
        if i < a.len() {
            assert(event_matches(a[i], x[i]));
        } else {
            assert(event_matches(b[i - a.len()], y[i - a.len()]));
        }
    }
}

/// The capacity after pushing `n <= 32` items one by one onto a new vector.
pub open spec fn pushed_capacity(n: nat) -> nat {
    if n <= 16 { 16 } else { 32 }
}

/// A fresh vector holding `count` values read at `start + 4 * k`, each read
/// and pushed in turn, or `None` when a read runs past the end.
fn pushed_i32s(gd: &[u8], start: usize, count: usize) -> (r: Option<SmallVecI32>)
    requires
        count <= 32,
        start + 4 * count + 4 <= usize::MAX,
    ensures
        r is Some <==> reads_fit(gd@, start as int, 4, count as nat),
        r matches Some(v) ==> v.wf() && sv_i32_items(v) == i32s_at(gd@, start as int, 4, count as nat)
            && sv_i32_cap(v) == pushed_capacity(count as nat),
{
    let mut v = small_vec_i32_new();
    let mut k: usize = 0;
    while k < count
        invariant
            k <= count <= 32,
            start + 4 * count + 4 <= usize::MAX,
            v.wf(),
            sv_i32_cap(v) == pushed_capacity(k as nat),
            sv_i32_items(v) == i32s_at(gd@, start as int, 4, k as nat),
            k > 0 ==> fits(gd@, start + 4 * (k - 1), 4),
        decreases count - k,
    {
        match read_i32(gd, start + 4 * k) {
            Some(x) => {
                proof {
                    reveal_with_fuel(next_pow2, 6);
                    assert(next_pow2(17) == 32);
                }
                small_vec_i32_push(&mut v, x);
                k = k + 1;
                assert(sv_i32_items(v) =~= i32s_at(gd@, start as int, 4, k as nat));
            },
            None => {
                return None;
            },
        }
    }
    Some(v)
}

/// The report on a freshly built vector: length, first item twice (when
/// there is one), capacity and capacity after shrinking.
pub open spec fn report_built(items: Seq<i32>, known: Option<nat>) -> Seq<Expect> {
    let n = items.len();
    seq![Expect::Len(n)] + (if n > 0 {
        seq![Expect::First(items[0]), Expect::MutFirst(items[0])]
    } else {
        Seq::empty()
    }) + seq![
        Expect::Capacity { known, at_least: if n > 16 { n } else { 16 } },
        Expect::Shrunk(if n <= 16 { 16 } else { n }),
    ]
}

/// Operation 0: build a vector by one of six constructors and report it.
pub open spec fn op_build(gd: Seq<u8>, b: int) -> Outcome {
    let choice = gd[b + 1] % 6;
    if choice == 0 {
        (report_built(Seq::empty(), Some(16)), None)
    } else if choice == 1 {
        let n = usize_at(gd, b + 2) as nat;
        if exact_growth_overflows(0, 16, n, 4) {
            halted(Halt::CapacityOverflow)
        } else {
            (report_built(Seq::empty(), Some(if n <= 16 { 16 } else { n })), None)
        }
    } else if choice == 2 {
        let n = usize_at(gd, b + 10);
        if n > 16 && n * 4 > isize::MAX {
            halted(Halt::CapacityOverflow)
        } else {
            (report_built(repeat(i32_at(gd, b + 2), n as nat), if n <= 16 { Some(16) } else { None }), None)
        }
    } else {
        let k = (gd[b + 2] % (if choice == 3 { 64u8 } else { 32u8 })) as nat;
        if !reads_fit(gd, b + 3, 4, k) {
            halted(Halt::InputExhausted)
        } else {
            let items = i32s_at(gd, b + 3, 4, k);
            let known = if choice == 5 || k <= 16 && choice == 4 {
                Some(grown(0, 16, k))
            } else {
                None
            };
            (report_built(items, known), None)
        }
    }
}

/// Reports a freshly built vector (see `report_built`).
fn report_vec(v: &mut SmallVecI32, Ghost(known): Ghost<Option<nat>>) -> (r: Vec<Event>)
    requires
        old(v).wf(),
        known matches Some(c) ==> sv_i32_cap(*old(v)) == c,
    ensures
        events_match(r@, report_built(sv_i32_items(*old(v)), known)),
{
    let ghost items = sv_i32_items(*v);
    let mut out: Vec<Event> = Vec::new();
    out.push(Event::Len(small_vec_i32_len(v)));
    let slice_ref = small_vec_i32_as_slice(v);
    if slice_ref.len() != 0 {
        out.push(Event::First(slice_ref[0]));
    }
    let mut_slice = small_vec_i32_as_mut_slice(v);
    if mut_slice.len() != 0 {
        out.push(Event::MutFirst(mut_slice[0]));
    }
    out.push(Event::Capacity(small_vec_i32_capacity(v)));
    small_vec_i32_shrink_to_fit(v);
    out.push(Event::Shrunk(small_vec_i32_capacity(v)));
    proof {
        let x = report_built(items, known);
        assert(forall|i: int| 0 <= i < out@.len() ==> #[trigger] event_matches(out@[i], x[i]));
    }
    out
}

/// Operation 0 (see `op_build`).
pub fn build(gd: &[u8], b: usize) -> (r: (Vec<Event>, Option<Halt>))
    requires
        b + 80 <= gd.len() <= isize::MAX,
    ensures
        events_match(r.0@, op_build(gd@, b as int).0),
        r.1 == op_build(gd@, b as int).1,
{
    let choice = _to_u8(gd, b + 1) % 6;
    if choice == 0 {
        let mut v = small_vec_i32_new();
        (report_vec(&mut v, Ghost(Some(16))), None)
    } else if choice == 1 {
        let n = crate::bytes::_to_usize(gd, b + 2);
        if exact_growth_overflows_exec(0, 16, n, 4) {
            return (Vec::new(), Some(Halt::CapacityOverflow));
        }
        let mut v = small_vec_i32_with_capacity(n);
        (report_vec(&mut v, Ghost(Some(if n <= 16 { 16 } else { n as nat }))), None)
    } else if choice == 2 {
        let element = crate::bytes::_to_i32(gd, b + 2);
        let count = crate::bytes::_to_usize(gd, b + 10);
        if count > 16 && count > (isize::MAX as usize) / 4 {
            return (Vec::new(), Some(Halt::CapacityOverflow));
        }
        let mut v = small_vec_i32_from_elem(element, count);
        (report_vec(&mut v, Ghost(if count <= 16 { Some(16nat) } else { None })), None)
    } else {
        let size = if choice == 3 { _to_u8(gd, b + 2) % 64 } else { _to_u8(gd, b + 2) % 32 };
        let data = match read_i32s(gd, b + 3, 4, size as usize) {
            Some(d) => d,
            None => return (Vec::new(), Some(Halt::InputExhausted)),
        };
        if choice == 3 {
            let mut v = small_vec_i32_from(data);
            (report_vec(&mut v, Ghost(None)), None)
        } else if choice == 4 {
            let mut v = small_vec_i32_from_slice(data.as_slice());
            (report_vec(&mut v, Ghost(if size <= 16 { Some(16nat) } else { None })), None)
        } else {
            proof {
                lemma_small_growth(0, 16, data@.len());
            }
            let mut v = small_vec_i32_from_iter(data);
            (report_vec(&mut v, Ghost(Some(grown(0, 16, size as nat)))), None)
        }
    }
}

/// Operation 1: a vector from up to 63 read values through `From<Vec>`;
/// report its capacity and the length of the `Vec` it converts back to.
pub open spec fn op_from_into_vec(gd: Seq<u8>, b: int) -> Outcome {
    let k = (gd[b + 1] % 64) as nat;
    if !reads_fit(gd, b + 2, 4, k) {
        halted(Halt::InputExhausted)
    } else {
        (seq![
            Expect::Capacity { known: None, at_least: if k > 16 { k } else { 16 } },
            Expect::IntoVecLen(k),
        ], None)
    }
}

/// Operation 1 (see `op_from_into_vec`).
pub fn from_into_vec(gd: &[u8], b: usize) -> (r: (Vec<Event>, Option<Halt>))
    requires
        b + 80 <= gd.len() <= isize::MAX,
    ensures
        events_match(r.0@, op_from_into_vec(gd@, b as int).0),
        r.1 == op_from_into_vec(gd@, b as int).1,
{
    let vec_size = _to_u8(gd, b + 1) % 64;
    let data = match read_i32s(gd, b + 2, 4, vec_size as usize) {
        Some(d) => d,
        None => return (Vec::new(), Some(Halt::InputExhausted)),
    };
    let v = small_vec_i32_from(data);
    let mut out: Vec<Event> = Vec::new();
    out.push(Event::Capacity(small_vec_i32_capacity(&v)));
    let into_vec = small_vec_i32_into_vec(v);
    out.push(Event::IntoVecLen(into_vec.len()));
    proof {
        let x = op_from_into_vec(gd@, b as int).0;
        assert(forall|i: int| 0 <= i < out@.len() ==> #[trigger] event_matches(out@[i], x[i]));
    }
    (out, None)
}

/// Operation 2: compare two one-item vectors, test them for equality, and
/// append one to the other.
pub open spec fn op_compare_append(gd: Seq<u8>, b: int) -> Outcome {
    let a = i32_at(gd, b + 1);
    let c = i32_at(gd, b + 5);
    let o = lex_order(i32_ints(seq![a]), i32_ints(seq![c]));
    (seq![Expect::Compared(o), Expect::Compared(o), Expect::Equal(a == c), Expect::Len(2)], None)
}

/// Operation 2 (see `op_compare_append`).
pub fn compare_append(gd: &[u8], b: usize) -> (r: (Vec<Event>, Option<Halt>))
    requires
        b + 80 <= gd.len() <= isize::MAX,
    ensures
        events_match(r.0@, op_compare_append(gd@, b as int).0),
        r.1 == op_compare_append(gd@, b as int).1,
{
    let mut sv1 = small_vec_i32_new();
    let mut sv2 = small_vec_i32_new();
    let elem1 = crate::bytes::_to_i32(gd, b + 1);
    let elem2 = crate::bytes::_to_i32(gd, b + 5);
    small_vec_i32_push(&mut sv1, elem1);
    small_vec_i32_push(&mut sv2, elem2);
    assert(sv_i32_items(sv1) =~= seq![elem1]);
    assert(sv_i32_items(sv2) =~= seq![elem2]);
    let ghost s1 = sv_i32_items(sv1);
    let ghost s2 = sv_i32_items(sv2);
    let mut out: Vec<Event> = Vec::new();
    out.push(Event::Compared(small_vec_i32_compare(&sv1, &sv2)));
    if let Some(ord) = small_vec_i32_partial_compare(&sv1, &sv2) {
        out.push(Event::Compared(ord));
    }
    let equality = small_vec_i32_eq(&sv1, &sv2);
    out.push(Event::Equal(equality));
    small_vec_i32_append(&mut sv1, &mut sv2);
    out.push(Event::Len(small_vec_i32_len(&sv1)));
    proof {
        let x = op_compare_append(gd@, b as int).0;
        assert(equality == (elem1 == elem2)) by {
            if equality {
                assert(s1[0] == s2[0]);
            }
        }
        assert(forall|i: int| 0 <= i < out@.len() ==> #[trigger] event_matches(out@[i], x[i]));
    }
    (out, None)
}

/// Operation 3: push up to 31 read values, reserve a read amount, then drain
/// a read range made to fit and report the first item it took.
pub open spec fn op_reserve_drain(gd: Seq<u8>, b: int) -> Outcome {
    let k = (gd[b + 1] % 32) as nat;
    if !reads_fit(gd, b + 2, 4, k) {
        halted(Halt::InputExhausted)
    } else {
        let items = i32s_at(gd, b + 2, 4, k);
        let amount = usize_at(gd, b + 66) as nat;
        if growth_overflows(k, pushed_capacity(k), amount, 4) {
            halted(Halt::CapacityOverflow)
        } else if k == 0 {
            (Seq::empty(), None)
        } else {
            let start = usize_at(gd, b + 66) as nat;
            let end0 = usize_at(gd, b + 70) as nat;
            let end = if end0 > k { k } else { end0 };
            let first = if start > end { 0 } else { start };
            (if first < end { seq![Expect::Drained(items[first as int])] } else { Seq::empty() }, None)
        }
    }
}

/// Operation 3 (see `op_reserve_drain`).
pub fn reserve_drain(gd: &[u8], b: usize) -> (r: (Vec<Event>, Option<Halt>))
    requires
        b + 80 <= gd.len() <= isize::MAX,
    ensures
        events_match(r.0@, op_reserve_drain(gd@, b as int).0),
        r.1 == op_reserve_drain(gd@, b as int).1,
{
    let num_pushes = _to_u8(gd, b + 1) % 32;
    let mut sv = match pushed_i32s(gd, b + 2, num_pushes as usize) {
        Some(v) => v,
        None => return (Vec::new(), Some(Halt::InputExhausted)),
    };
    let amount = crate::bytes::_to_usize(gd, b + 66);
    if growth_overflows_exec(small_vec_i32_len(&sv), small_vec_i32_capacity(&sv), amount, 4) {
        return (Vec::new(), Some(Halt::CapacityOverflow));
    }
    small_vec_i32_reserve(&mut sv, amount);
    let mut out: Vec<Event> = Vec::new();
    if !small_vec_i32_is_empty(&sv) {
        let drain_start = crate::bytes::_to_usize(gd, b + 66);
        let drain_end = crate::bytes::_to_usize(gd, b + 70);
        let len = small_vec_i32_len(&sv);
        let actual_end = if drain_end > len { len } else { drain_end };
        let actual_start = if drain_start > actual_end { 0 } else { drain_start };
        let drained = small_vec_i32_drain(&mut sv, actual_start, actual_end);
        if drained.len() > 0 {
            out.push(Event::Drained(drained[0]));
        }
    }
    proof {
        let x = op_reserve_drain(gd@, b as int).0;
        assert(forall|i: int| 0 <= i < out@.len() ==> #[trigger] event_matches(out@[i], x[i]));
    }
    (out, None)
}

/// What sub-operation `i` of operation 4 does to `items`: its events, why it
/// halts, if it does, and the items after it.
pub open spec fn sub_step(gd: Seq<u8>, b: int, i: int, items: Seq<i32>) -> (
    Seq<Expect>,
    Option<Halt>,
    Seq<i32>,
) {
    let sub = gd[b + 2 + i] % 6;
    let n = items.len();
    if sub == 0 {
        if !fits(gd, b + 18 + 4 * i, 4) {
            (Seq::empty(), Some(Halt::InputExhausted), items)
        } else {
            (Seq::empty(), None, items.push(i32_at(gd, b + 18 + 4 * i)))
        }
    } else if sub == 1 {
        if n > 0 {
            (seq![Expect::Popped(items.last())], None, items.drop_last())
        } else {
            (Seq::empty(), None, items)
        }
    } else if sub == 3 {
        if !fits(gd, b + 66 + 2 * i, 8) {
            (Seq::empty(), Some(Halt::InputExhausted), items)
        } else {
            let l = usize_at(gd, b + 66 + 2 * i) as nat;
            (Seq::empty(), None, if l < n { items.take(l as int) } else { items })
        }
    } else if !fits(gd, b + 50 + 2 * i, 8) {
        (Seq::empty(), Some(Halt::InputExhausted), items)
    } else {
        let index = usize_at(gd, b + 50 + 2 * i) as nat;
        if sub == 2 {
            if index < n {
                (seq![Expect::Removed(items[index as int])], None, items.remove(index as int))
            } else {
                (Seq::empty(), None, items)
            }
        } else if sub == 4 {
            if !fits(gd, b + 18 + 4 * i, 4) {
                (Seq::empty(), Some(Halt::InputExhausted), items)
            } else if index <= n {
                (Seq::empty(), None, items.insert(index as int, i32_at(gd, b + 18 + 4 * i)))
            } else {
                (Seq::empty(), None, items)
            }
        } else {
            if index < n {
                (
                    seq![Expect::Swapped(items[index as int])],
                    None,
                    items.update(index as int, items.last()).drop_last(),
                )
            } else {
                (Seq::empty(), None, items)
            }
        }
    }
}

/// What sub-operations `i` up to `count` of operation 4 do, in turn, from
/// `items`, stopping at the first that halts.
pub open spec fn sub_steps(gd: Seq<u8>, b: int, i: nat, count: nat, items: Seq<i32>) -> (
    Seq<Expect>,
    Option<Halt>,
    Seq<i32>,
)
    decreases count - i,
{
    if i >= count {
        (Seq::empty(), None, items)
    } else {
        let s = sub_step(gd, b, i as int, items);
        if s.1 is Some {
            s
        } else {
            let rest = sub_steps(gd, b, i + 1, count, s.2);
            (s.0 + rest.0, rest.1, rest.2)
        }
    }
}

/// Operation 4: up to 15 sub-operations (push, pop, remove, truncate,
/// insert, swap-remove) on one vector, then report an item at a read index.
pub open spec fn op_sub_ops(gd: Seq<u8>, b: int) -> Outcome {
    let count = (gd[b + 1] % 16) as nat;
    let s = sub_steps(gd, b, 0, count, Seq::empty());
    if s.1 is Some {
        (s.0, s.1)
    } else if s.2.len() > 0 {
        if !fits(gd, b + 74, 8) {
            (s.0, Some(Halt::InputExhausted))
        } else {
            (s.0.push(Expect::Indexed(s.2[(usize_at(gd, b + 74) % (s.2.len() as usize)) as int])), None)
        }
    } else {
        (s.0, None)
    }
}

/// One sub-operation of operation 4 (see `sub_step`).
fn sub_op(gd: &[u8], b: usize, i: usize, sv: &mut SmallVecI32, out: &mut Vec<Event>) -> (r: Option<Halt>)
    requires
        b + 80 <= gd.len() <= isize::MAX,
        i < 16,
        old(sv).wf(),
        sv_i32_cap(*old(sv)) == 16,
        sv_i32_items(*old(sv)).len() <= i,
    ensures
        final(sv).wf(),
        sv_i32_cap(*final(sv)) == 16,
        sv_i32_items(*final(sv)).len() <= i + 1,
        ({
            let s = sub_step(gd@, b as int, i as int, sv_i32_items(*old(sv)));
            &&& r == s.1
            &&& sv_i32_items(*final(sv)) == s.2
            &&& final(out)@.len() == old(out)@.len() + s.0.len()
            &&& final(out)@.take(old(out)@.len() as int) == old(out)@
            &&& events_match(final(out)@.skip(old(out)@.len() as int), s.0)
        }),
{
    let ghost before = out@;
    let sub = _to_u8(gd, b + 2 + i) % 6;
    if sub == 0 {
        let elem = match read_i32(gd, b + 18 + i * 4) {
            Some(e) => e,
            None => {
                assert(out@.skip(before.len() as int) =~= Seq::<Event>::empty());
                return Some(Halt::InputExhausted);
            },
        };
        small_vec_i32_push(sv, elem);
    } else if sub == 1 {
        if let Some(popped) = small_vec_i32_pop(sv) {
            out.push(Event::Popped(popped));
        }
    } else if sub == 3 {
        let len = match read_usize(gd, b + 66 + i * 2) {
            Some(l) => l,
            None => {
                assert(out@.skip(before.len() as int) =~= Seq::<Event>::empty());
                return Some(Halt::InputExhausted);
            },
        };
        small_vec_i32_truncate(sv, len);
    } else {
        let index = match read_usize(gd, b + 50 + i * 2) {
            Some(x) => x,
            None => {
                assert(out@.skip(before.len() as int) =~= Seq::<Event>::empty());
                return Some(Halt::InputExhausted);
            },
        };
        if sub == 2 {
            if index < small_vec_i32_len(sv) {
                let removed = small_vec_i32_remove(sv, index);
                out.push(Event::Removed(removed));
            }
        } else if sub == 4 {
            let elem = match read_i32(gd, b + 18 + i * 4) {
                Some(e) => e,
                None => {
                    assert(out@.skip(before.len() as int) =~= Seq::<Event>::empty());
                    return Some(Halt::InputExhausted);
                },
            };
            if index <= small_vec_i32_len(sv) {
                small_vec_i32_insert(sv, index, elem);
            }
        } else {
            if index < small_vec_i32_len(sv) {
                let swapped = small_vec_i32_swap_remove(sv, index);
                out.push(Event::Swapped(swapped));
            }
        }
    }
    proof {
        let s = sub_step(gd@, b as int, i as int, sv_i32_items(*old(sv)));
        assert(out@.take(before.len() as int) =~= before);
        let added = out@.skip(before.len() as int);
        assert(forall|j: int| 0 <= j < added.len() ==> #[trigger] event_matches(added[j], s.0[j]));
    }
    None
}

/// Operation 4 (see `op_sub_ops`).
pub fn sub_ops(gd: &[u8], b: usize) -> (r: (Vec<Event>, Option<Halt>))
    requires
        b + 80 <= gd.len() <= isize::MAX,
    ensures
        events_match(r.0@, op_sub_ops(gd@, b as int).0),
        r.1 == op_sub_ops(gd@, b as int).1,
{
    let mut sv = small_vec_i32_new();
    let operations = _to_u8(gd, b + 1) % 16;
    let ghost count = operations as nat;
    let ghost mut owed: Seq<Expect> = Seq::empty();
    let mut out: Vec<Event> = Vec::new();
    let mut i: u8 = 0;
    while i < operations
        invariant
            b + 80 <= gd.len() <= isize::MAX,
            i <= operations < 16,
            count == operations as nat == (gd@[b + 1] % 16) as nat,
            sv.wf(),
            sv_i32_cap(sv) == 16,
            sv_i32_items(sv).len() <= i,
            events_match(out@, owed),
            sub_steps(gd@, b as int, 0, count, Seq::empty()) == ({
                let rest = sub_steps(gd@, b as int, i as nat, count, sv_i32_items(sv));
                (owed + rest.0, rest.1, rest.2)
            }),
        decreases operations - i,
    {
        let ghost items_before = sv_i32_items(sv);
        let ghost len_before = out@.len();
        let h = sub_op(gd, b, i as usize, &mut sv, &mut out);
        let ghost s = sub_step(gd@, b as int, i as int, items_before);
        proof {
            assert(out@ =~= out@.take(len_before as int) + out@.skip(len_before as int));
            lemma_events_match_append(out@.take(len_before as int), owed, out@.skip(len_before as int), s.0);
        }
        if h.is_some() {
            proof {
                assert(owed + s.0 =~= owed + s.0);
            }
            return (out, h);
        }
        proof {
            let rest = sub_steps(gd@, b as int, (i + 1) as nat, count, s.2);
            assert(owed + (s.0 + rest.0) =~= (owed + s.0) + rest.0);
            owed = owed + s.0;
        }
        i = i + 1;
    }
    proof {
        assert(sub_steps(gd@, b as int, i as nat, count, sv_i32_items(sv)).0 =~= Seq::<Expect>::empty());
        assert(owed + Seq::<Expect>::empty() =~= owed);
    }
    if !small_vec_i32_is_empty(&sv) {
        let at = match read_usize(gd, b + 74) {
            Some(x) => x,
            None => return (out, Some(Halt::InputExhausted)),
        };
        let index = at % small_vec_i32_len(&sv);
        let indexed = small_vec_i32_index(&sv, index);
        out.push(Event::Indexed(indexed));
        proof {
            let x = op_sub_ops(gd@, b as int).0;
            assert(forall|j: int| 0 <= j < out@.len() ==> #[trigger] event_matches(out@[j], x[j]));
        }
    }
    (out, None)
}


/// Operation 5: a vector copied from up to 31 read values, and another made
/// by `to_smallvec`; report lengths and the first item.
pub open spec fn op_copies(gd: Seq<u8>, b: int) -> Outcome {
    let k = (gd[b + 1] % 32) as nat;
    if !reads_fit(gd, b + 2, 4, k) {
        halted(Halt::InputExhausted)
    } else {
        let items = i32s_at(gd, b + 2, 4, k);
        (seq![Expect::ToSmallVecLen(k)] + (if k > 0 {
            seq![Expect::First(items[0])]
        } else {
            Seq::empty()
        }) + seq![Expect::ClonedLen(k), Expect::SliceLen(k)], None)
    }
}

/// Operation 5 (see `op_copies`).
pub fn copies(gd: &[u8], b: usize) -> (r: (Vec<Event>, Option<Halt>))
    requires
        b + 80 <= gd.len() <= isize::MAX,
    ensures
        events_match(r.0@, op_copies(gd@, b as int).0),
        r.1 == op_copies(gd@, b as int).1,
{
    let slice_size = _to_u8(gd, b + 1) % 32;
    let data = match read_i32s(gd, b + 2, 4, slice_size as usize) {
        Some(d) => d,
        None => return (Vec::new(), Some(Halt::InputExhausted)),
    };
    let sv = small_vec_i32_from_slice(data.as_slice());
    let made = small_vec_i32_to_small_vec(data.as_slice());
    let mut out: Vec<Event> = Vec::new();
    out.push(Event::ToSmallVecLen(small_vec_i32_len(&made)));
    let deref_slice = small_vec_i32_deref(&sv);
    if deref_slice.len() != 0 {
        out.push(Event::First(deref_slice[0]));
    }
    proof {
        lemma_small_growth(0, 16, sv_i32_items(sv).len());
    }
    let cloned = small_vec_i32_clone(&sv);
    out.push(Event::ClonedLen(small_vec_i32_len(&cloned)));
    out.push(Event::SliceLen(small_vec_i32_as_slice(&sv).len()));
    proof {
        let x = op_copies(gd@, b as int).0;
        assert(forall|i: int| 0 <= i < out@.len() ==> #[trigger] event_matches(out@[i], x[i]));
    }
    (out, None)
}

/// Operation 6: iterate a vector collected from up to 31 read values: report
/// the first item yielded and, twice, the first one left.
pub open spec fn op_iterate(gd: Seq<u8>, b: int) -> Outcome {
    let k = (gd[b + 1] % 32) as nat;
    if !reads_fit(gd, b + 2, 4, k) {
        halted(Halt::InputExhausted)
    } else {
        let items = i32s_at(gd, b + 2, 4, k);
        ((if k > 0 { seq![Expect::IterFirst(items[0])] } else { Seq::empty() }) + (if k > 1 {
            seq![Expect::RestFirst(items[1]), Expect::RestMutFirst(items[1])]
        } else {
            Seq::empty()
        }), None)
    }
}

/// Operation 6 (see `op_iterate`).
pub fn iterate(gd: &[u8], b: usize) -> (r: (Vec<Event>, Option<Halt>))
    requires
        b + 80 <= gd.len() <= isize::MAX,
    ensures
        events_match(r.0@, op_iterate(gd@, b as int).0),
        r.1 == op_iterate(gd@, b as int).1,
{
    let iter_size = _to_u8(gd, b + 1) % 32;
    let data = match read_i32s(gd, b + 2, 4, iter_size as usize) {
        Some(d) => d,
        None => return (Vec::new(), Some(Halt::InputExhausted)),
    };
    proof {
        lemma_small_growth(0, 16, data@.len());
    }
    let sv = small_vec_i32_from_iter(data);
    let mut it = small_vec_i32_into_iter_start(sv);
    let mut out: Vec<Event> = Vec::new();
    if let Some(first) = into_iter_i32_next(&mut it) {
        out.push(Event::IterFirst(first));
    }
    let remaining = into_iter_i32_as_slice(&it);
    if remaining.len() != 0 {
        out.push(Event::RestFirst(remaining[0]));
    }
    let mut_remaining = into_iter_i32_as_mut_slice(&mut it);
    if mut_remaining.len() != 0 {
        out.push(Event::RestMutFirst(mut_remaining[0]));
    }
    proof {
        let x = op_iterate(gd@, b as int).0;
        assert(forall|i: int| 0 <= i < out@.len() ==> #[trigger] event_matches(out@[i], x[i]));
    }
    (out, None)
}

/// Operation 7: push up to 15 read values, reserve and shrink, report an
/// item at a read index, clear, resize to a read length filled with a read
/// value and, when that is not empty, extend by one more read value.
pub open spec fn op_resize(gd: Seq<u8>, b: int) -> Outcome {
    let k = (gd[b + 1] % 16) as nat;
    let items = i32s_at(gd, b + 2, 4, k);
    let amount = usize_at(gd, b + 66) as nat;
    if growth_overflows(k, 16, amount, 4) {
        halted(Halt::CapacityOverflow)
    } else {
        let ev1 = seq![Expect::Capacity { known: Some(grown(k, 16, amount)), at_least: 16 }, Expect::Shrunk(16)];
        if k > 0 && !fits(gd, b + 74, 8) {
            (ev1, Some(Halt::InputExhausted))
        } else {
            let ev2 = if k > 0 {
                ev1.push(Expect::Indexed(items[(usize_at(gd, b + 74) % (k as usize)) as int]))
            } else {
                ev1
            };
            let ev3 = ev2.push(Expect::Len(0));
            let n = usize_at(gd, b + 70) as nat;
            if growth_overflows(0, 16, n, 4) {
                (ev3, Some(Halt::CapacityOverflow))
            } else {
                let ev4 = ev3.push(Expect::Len(n));
                if n == 0 {
                    (ev4, None)
                } else if growth_overflows(n, grown(0, 16, n), 1, 4) {
                    (ev4, Some(Halt::CapacityOverflow))
                } else {
                    (ev4.push(Expect::Len(n + 1)), None)
                }
            }
        }
    }
}

/// Operation 7 (see `op_resize`).
pub fn resize(gd: &[u8], b: usize) -> (r: (Vec<Event>, Option<Halt>))
    requires
        b + 80 <= gd.len() <= isize::MAX,
    ensures
        events_match(r.0@, op_resize(gd@, b as int).0),
        r.1 == op_resize(gd@, b as int).1,
{
    let num_elements = _to_u8(gd, b + 1) % 16;
    let mut sv = match pushed_i32s(gd, b + 2, num_elements as usize) {
        Some(v) => v,
        None => return (Vec::new(), Some(Halt::InputExhausted)),
    };
    let ghost x = op_resize(gd@, b as int).0;
    let reserve_amount = crate::bytes::_to_usize(gd, b + 66);
    if growth_overflows_exec(small_vec_i32_len(&sv), small_vec_i32_capacity(&sv), reserve_amount, 4) {
        return (Vec::new(), Some(Halt::CapacityOverflow));
    }
    small_vec_i32_reserve(&mut sv, reserve_amount);
    let mut out: Vec<Event> = Vec::new();
    out.push(Event::Capacity(small_vec_i32_capacity(&sv)));
    small_vec_i32_shrink_to_fit(&mut sv);
    out.push(Event::Shrunk(small_vec_i32_capacity(&sv)));
    if !small_vec_i32_is_empty(&sv) {
        let at = match read_usize(gd, b + 74) {
            Some(a) => a,
            None => {
                proof {
                    assert(forall|i: int| 0 <= i < out@.len() ==> #[trigger] event_matches(out@[i], x[i]));
                }
                return (out, Some(Halt::InputExhausted));
            },
        };
        let index = at % small_vec_i32_len(&sv);
        out.push(Event::Indexed(small_vec_i32_index(&sv, index)));
    }
    small_vec_i32_clear(&mut sv);
    out.push(Event::Len(small_vec_i32_len(&sv)));
    let resize_len = crate::bytes::_to_usize(gd, b + 70);
    let resize_value = crate::bytes::_to_i32(gd, b + 74);
    if growth_overflows_exec(0, small_vec_i32_capacity(&sv), resize_len, 4) {
        proof {
            assert(forall|i: int| 0 <= i < out@.len() ==> #[trigger] event_matches(out@[i], x[i]));
        }
        return (out, Some(Halt::CapacityOverflow));
    }
    small_vec_i32_resize(&mut sv, resize_len, resize_value);
    out.push(Event::Len(small_vec_i32_len(&sv)));
    if !small_vec_i32_is_empty(&sv) {
        let extra = [crate::bytes::_to_i32(gd, b + 72)];
        if growth_overflows_exec(small_vec_i32_len(&sv), small_vec_i32_capacity(&sv), 1, 4) {
            proof {
                assert(forall|i: int| 0 <= i < out@.len() ==> #[trigger] event_matches(out@[i], x[i]));
            }
            return (out, Some(Halt::CapacityOverflow));
        }
        small_vec_i32_extend_from_slice(&mut sv, &extra);
        out.push(Event::Len(small_vec_i32_len(&sv)));
    }
    proof {
        assert(forall|i: int| 0 <= i < out@.len() ==> #[trigger] event_matches(out@[i], x[i]));
    }
    (out, None)
}

/// What the operation whose block starts at `b` is owed.
pub open spec fn op_outcome(gd: Seq<u8>, b: int) -> Outcome {
    let op = gd[b] % 8;
    if op == 0 {
        op_build(gd, b)
    } else if op == 1 {
        op_from_into_vec(gd, b)
    } else if op == 2 {
        op_compare_append(gd, b)
    } else if op == 3 {
        op_reserve_drain(gd, b)
    } else if op == 4 {
        op_sub_ops(gd, b)
    } else if op == 5 {
        op_copies(gd, b)
    } else if op == 6 {
        op_iterate(gd, b)
    } else {
        op_resize(gd, b)
    }
}

/// Runs the operation whose block starts at `b`.
pub fn run_op(gd: &[u8], b: usize) -> (r: (Vec<Event>, Option<Halt>))
    requires
        b + 80 <= gd.len() <= isize::MAX,
    ensures
        events_match(r.0@, op_outcome(gd@, b as int).0),
        r.1 == op_outcome(gd@, b as int).1,
{
    let operation_type = _to_u8(gd, b) % 8;
    match operation_type {
        0 => build(gd, b),
        1 => from_into_vec(gd, b),
        2 => compare_append(gd, b),
        3 => reserve_drain(gd, b),
        4 => sub_ops(gd, b),
        5 => copies(gd, b),
        6 => iterate(gd, b),
        _ => resize(gd, b),
    }
}

/// What operations `k` up to `count` are owed, stopping at the first that
/// halts or whose block does not fit.
pub open spec fn ops_from(gd: Seq<u8>, k: nat, count: nat) -> Outcome
    decreases count - k,
{
    if k >= count {
        (Seq::empty(), None)
    } else {
        let b = 80 * k;
        if b + 80 > gd.len() {
            (Seq::empty(), None)
        } else {
            let o = op_outcome(gd, b as int);
            if o.1 is Some {
                o
            } else {
                let rest = ops_from(gd, k + 1, count);
                (o.0 + rest.0, rest.1)
            }
        }
    }
}

/// What a whole run is owed. Inputs shorter than 2000 bytes are ignored; `gd`
/// is the half of the input that the script reads, and its first byte
/// chooses how many operations run (1 to 20).
pub open spec fn script_outcome(input_len: nat, gd: Seq<u8>) -> Outcome {
    if input_len < 2000 {
        (Seq::empty(), None)
    } else if gd.len() == 0 {
        halted(Halt::InputExhausted)
    } else {
        ops_from(gd, 0, (gd[0] % 20 + 1) as nat)
    }
}

/// The events of a run, and why it stopped early, if it did.
pub struct Run {
    pub events: Vec<Event>,
    pub halt: Option<Halt>,
}

/// Runs the script of an input of `input_len` bytes whose first half is `gd`.
pub fn run(input_len: usize, gd: &[u8]) -> (r: Run)
    requires
        gd.len() <= isize::MAX,
    ensures
        events_match(r.events@, script_outcome(input_len as nat, gd@).0),
        r.halt == script_outcome(input_len as nat, gd@).1,
{
    let mut events: Vec<Event> = Vec::new();
    if input_len < 2000 {
        return Run { events, halt: None };
    }
    let first = match read_u8(gd, 0) {
        Some(b) => b,
        None => return Run { events, halt: Some(Halt::InputExhausted) },
    };
    let num_operations = first % 20 + 1;
    let ghost count = num_operations as nat;
    let ghost mut owed: Seq<Expect> = Seq::empty();
    let mut op_idx: u8 = 0;
    while op_idx < num_operations
        invariant
            input_len >= 2000,
            gd@.len() > 0,
            gd.len() <= isize::MAX,
            count == num_operations as nat == (gd@[0] % 20 + 1) as nat,
            op_idx <= num_operations <= 20,
            events_match(events@, owed),
            script_outcome(input_len as nat, gd@) == (
                owed + ops_from(gd@, op_idx as nat, count).0,
                ops_from(gd@, op_idx as nat, count).1,
            ),
        decreases num_operations - op_idx,
    {
        let base_offset = op_idx as usize * 80;
        if base_offset + 80 > gd.len() {
            assert(owed + ops_from(gd@, op_idx as nat, count).0 =~= owed);
            return Run { events, halt: None };
        }
        let (evs, halt) = run_op(gd, base_offset);
        let ghost o = op_outcome(gd@, base_offset as int);
        proof {
            lemma_events_match_append(events@, owed, evs@, o.0);
        }
        let mut evs = evs;
        events.append(&mut evs);
        if halt.is_some() {
            assert(owed + ops_from(gd@, op_idx as nat, count).0 =~= owed + o.0);
            return Run { events, halt };
        }
        proof {
            let rest = ops_from(gd@, (op_idx + 1) as nat, count);
            assert(owed + (o.0 + rest.0) =~= (owed + o.0) + rest.0);
            owed = owed + o.0;
        }
        op_idx = op_idx + 1;
    }
    proof {
        assert(owed + ops_from(gd@, op_idx as nat, count).0 =~= owed);
    }
    Run { events, halt: None }
}

/// Operation 2 orders the vector of the `i32` at `b + 1` against that of the
/// `i32` at `b + 5`: `Less` when the first is smaller, `Greater` when it is
/// larger, `Equal` when they are the same, reported by `cmp` and by
/// `partial_cmp` alike; the vectors are equal exactly when the two values are.
pub proof fn law_compare_orders_the_first_against_the_second(gd: Seq<u8>, b: int)
    requires
        0 <= b < gd.len(),
        gd[b] % 8 == 2,
    ensures
        op_outcome(gd, b).1 is None,
        i32_at(gd, b + 1) < i32_at(gd, b + 5) ==> op_outcome(gd, b).0[0] == Expect::Compared(Order::Less)
            && op_outcome(gd, b).0[1] == Expect::Compared(Order::Less),
        i32_at(gd, b + 1) > i32_at(gd, b + 5) ==> op_outcome(gd, b).0[0] == Expect::Compared(Order::Greater)
            && op_outcome(gd, b).0[1] == Expect::Compared(Order::Greater),
        i32_at(gd, b + 1) == i32_at(gd, b + 5) ==> op_outcome(gd, b).0[0] == Expect::Compared(Order::Equal)
            && op_outcome(gd, b).0[1] == Expect::Compared(Order::Equal),
        op_outcome(gd, b).0[2] == Expect::Equal(i32_at(gd, b + 1) == i32_at(gd, b + 5)),
{
    let a = i32_at(gd, b + 1);
    let c = i32_at(gd, b + 5);
    assert(i32_ints(seq![a]) =~= seq![a as int]);
    assert(i32_ints(seq![c]) =~= seq![c as int]);
    assert(seq![a as int].drop_first() =~= Seq::<int>::empty());
    assert(seq![c as int].drop_first() =~= Seq::<int>::empty());
    reveal_with_fuel(lex_order, 2);
}

/// Operation 3, where the read range (clamped to the length) is not empty,
/// reports the value pushed at its start: the `i32` read at
/// `b + 2 + 4 * start`.
pub proof fn law_drain_reports_the_value_at_the_start(gd: Seq<u8>, b: int)
    requires
        0 <= b,
        b + 1 < gd.len(),
        gd[b] % 8 == 3,
        reads_fit(gd, b + 2, 4, (gd[b + 1] % 32) as nat),
        !growth_overflows((gd[b + 1] % 32) as nat, pushed_capacity((gd[b + 1] % 32) as nat), usize_at(gd, b + 66) as nat, 4),
        usize_at(gd, b + 66) < usize_at(gd, b + 70),
        usize_at(gd, b + 66) < gd[b + 1] % 32,
    ensures
        op_outcome(gd, b).1 is None,
        op_outcome(gd, b).0 == seq![Expect::Drained(i32_at(gd, b + 2 + 4 * usize_at(gd, b + 66)))],
{
}

} // verus!

//! `SmallVec<[bool; 24]>` of the outside crate, behind trusted wrappers.
//!
//! The outside type is held in a private field: Verus sees a value of it only
//! through two names, the items it holds and the capacity it records. Each
//! wrapper states, over those names, what the crate's source does.
use vstd::prelude::*;
use crate::small_vec::{dedup_seq, exact_growth_overflows, exact_grown, growth_overflows, grown, lex_order, repeat, Order};

verus! {

/// A small vector of `bool` with room for 24 items inline.
#[verifier::external_body]
pub struct SmallVecBoolN24 {
    inner: smallvec::SmallVec<[bool; 24]>,
}

/// The items a `SmallVec<[bool; 24]>` holds, in order.
pub uninterp spec fn sv_booln24_items(v: SmallVecBoolN24) -> Seq<bool>;

/// The capacity a `SmallVec<[bool; 24]>` records (24 while it is inline).
pub uninterp spec fn sv_booln24_cap(v: SmallVecBoolN24) -> nat;

impl View for SmallVecBoolN24 {
    type V = Seq<bool>;

    open spec fn view(&self) -> Seq<bool> {
        sv_booln24_items(*self)
    }
}

impl SmallVecBoolN24 {
    /// The capacity that `capacity()` reports.
    pub open spec fn cap(self) -> nat {
        sv_booln24_cap(self)
    }

    /// What every vector of this type satisfies: it holds at most its
    /// capacity, is never smaller than its inline size, and a heap buffer
    /// never exceeds `isize::MAX` bytes.
    pub open spec fn wf(self) -> bool {
        &&& self@.len() <= self.cap()
        &&& self.cap() >= 24
        &&& self.cap() * vstd::layout::size_of::<bool>() <= isize::MAX || self.cap() == 24
    }
}

/// `SmallVec::new`: empty and inline.
#[verifier::external_body]
pub(crate) fn small_vec_booln24_new() -> (r: SmallVecBoolN24)
    ensures
        r.wf(),
        sv_booln24_items(r) == Seq::<bool>::empty(),
        sv_booln24_cap(r) == 24,
{
    SmallVecBoolN24 { inner: smallvec::SmallVec::new() }
}

/// `SmallVec::with_capacity`: empty, with room for `n` items (inline when
/// `n <= 24`); the size computation must not overflow.
#[verifier::external_body]
pub(crate) fn small_vec_booln24_with_capacity(n: usize) -> (r: SmallVecBoolN24)
    requires
        !exact_growth_overflows(0, 24, n as nat, vstd::layout::size_of::<bool>()),
    ensures
        r.wf(),
        sv_booln24_items(r) == Seq::<bool>::empty(),
        sv_booln24_cap(r) == if n <= 24 { 24 } else { n as nat },
{
    SmallVecBoolN24 { inner: smallvec::SmallVec::with_capacity(n) }
}

/// `SmallVec::from_elem`: `n` copies of `elem`; inline when `n <= 24`, else
/// through `vec![elem; n]`, whose size computation must not overflow.
#[verifier::external_body]
pub(crate) fn small_vec_booln24_from_elem(elem: bool, n: usize) -> (r: SmallVecBoolN24)
    requires
        n <= 24 || n * vstd::layout::size_of::<bool>() <= isize::MAX,
    ensures
        r.wf(),
        sv_booln24_items(r) == repeat(elem, n as nat),
        n <= 24 ==> sv_booln24_cap(r) == 24,
{
    SmallVecBoolN24 { inner: smallvec::SmallVec::from_elem(elem, n) }
}

/// `reserve`: room for `additional` more items by amortised doubling; the
/// size computation must not overflow.
#[verifier::external_body]
pub(crate) fn small_vec_booln24_reserve(v: &mut SmallVecBoolN24, additional: usize)
    requires
        old(v).wf(),
        !growth_overflows(sv_booln24_items(*old(v)).len(), sv_booln24_cap(*old(v)), additional as nat, vstd::layout::size_of::<bool>()),
    ensures
        final(v).wf(),
        sv_booln24_items(*final(v)) == sv_booln24_items(*old(v)),
        sv_booln24_cap(*final(v)) == grown(sv_booln24_items(*old(v)).len(), sv_booln24_cap(*old(v)), additional as nat),
{
    v.inner.reserve(additional)
}

/// `push`: `value` appended; a full vector first grows by amortised doubling,
/// whose size computation must not overflow.
#[verifier::external_body]
pub(crate) fn small_vec_booln24_push(v: &mut SmallVecBoolN24, value: bool)
    requires
        old(v).wf(),
        !growth_overflows(sv_booln24_items(*old(v)).len(), sv_booln24_cap(*old(v)), 1, vstd::layout::size_of::<bool>()),
    ensures
        final(v).wf(),
        sv_booln24_items(*final(v)) == sv_booln24_items(*old(v)).push(value),
        sv_booln24_cap(*final(v)) == grown(sv_booln24_items(*old(v)).len(), sv_booln24_cap(*old(v)), 1),
{
    v.inner.push(value)
}

/// `shrink_to_fit`: a heap vector moves back inline when its items fit there,
/// else its buffer shrinks to its length.
#[verifier::external_body]
pub(crate) fn small_vec_booln24_shrink_to_fit(v: &mut SmallVecBoolN24)
    requires
        old(v).wf(),
    ensures
        final(v).wf(),
        sv_booln24_items(*final(v)) == sv_booln24_items(*old(v)),
        sv_booln24_cap(*final(v)) == if sv_booln24_cap(*old(v)) == 24 || sv_booln24_items(*old(v)).len() <= 24 { 24 } else { sv_booln24_items(*old(v)).len() },
{
    v.inner.shrink_to_fit()
}

/// `as_ptr`: the address of the buffer, as an integer (nothing is stated of
/// it).
#[verifier::external_body]
pub(crate) fn small_vec_booln24_as_ptr(v: &SmallVecBoolN24) -> (r: usize)
{
    v.inner.as_ptr() as usize
}

/// `len`: the number of items.
#[verifier::external_body]
pub(crate) fn small_vec_booln24_len(v: &SmallVecBoolN24) -> (r: usize)
    ensures
        r == sv_booln24_items(*v).len(),
{
    v.inner.len()
}

/// `capacity`: the recorded capacity.
#[verifier::external_body]
pub(crate) fn small_vec_booln24_capacity(v: &SmallVecBoolN24) -> (r: usize)
    ensures
        r == sv_booln24_cap(*v),
{
    v.inner.capacity()
}

/// `drain` of `start..end`, run to its end: the removed items, in order; the
/// items after the range close the gap. It panics unless
/// `start <= end <= len`.
#[verifier::external_body]
pub(crate) fn small_vec_booln24_drain(v: &mut SmallVecBoolN24, start: usize, end: usize) -> (r: Vec<bool>)
    requires
        old(v).wf(),
        start <= end <= sv_booln24_items(*old(v)).len(),
    ensures
        final(v).wf(),
        r@ == sv_booln24_items(*old(v)).subrange(start as int, end as int),
        sv_booln24_items(*final(v)) == sv_booln24_items(*old(v)).take(start as int) + sv_booln24_items(*old(v)).skip(end as int),
        sv_booln24_cap(*final(v)) == sv_booln24_cap(*old(v)),
{
    v.inner.drain(start..end).collect()
}

/// `reserve_exact`: room for exactly `additional` more items when there is
/// not enough; the size computation must not overflow.
#[verifier::external_body]
pub(crate) fn small_vec_booln24_reserve_exact(v: &mut SmallVecBoolN24, additional: usize)
    requires
        old(v).wf(),
        !exact_growth_overflows(sv_booln24_items(*old(v)).len(), sv_booln24_cap(*old(v)), additional as nat, vstd::layout::size_of::<bool>()),
    ensures
        final(v).wf(),
        sv_booln24_items(*final(v)) == sv_booln24_items(*old(v)),
        sv_booln24_cap(*final(v)) == exact_grown(sv_booln24_items(*old(v)).len(), sv_booln24_cap(*old(v)), additional as nat),
{
    v.inner.reserve_exact(additional)
}

/// `grow`: the capacity set to `new_cap`, or back to inline when
/// `new_cap <= 24`; it panics when `new_cap < len` or when the size
/// computation overflows.
#[verifier::external_body]
pub(crate) fn small_vec_booln24_grow(v: &mut SmallVecBoolN24, new_cap: usize)
    requires
        old(v).wf(),
        new_cap >= sv_booln24_items(*old(v)).len(),
        new_cap <= 24 || new_cap * vstd::layout::size_of::<bool>() <= isize::MAX,
    ensures
        final(v).wf(),
        sv_booln24_items(*final(v)) == sv_booln24_items(*old(v)),
        sv_booln24_cap(*final(v)) == if new_cap <= 24 { 24 } else { new_cap as nat },
{
    v.inner.grow(new_cap)
}

/// `is_empty`: whether there are no items.
#[verifier::external_body]
pub(crate) fn small_vec_booln24_is_empty(v: &SmallVecBoolN24) -> (r: bool)
    ensures
        r == (sv_booln24_items(*v).len() == 0),
{
    v.inner.is_empty()
}

/// `as_slice`: the items.
#[verifier::external_body]
pub(crate) fn small_vec_booln24_as_slice(v: &SmallVecBoolN24) -> (r: &[bool])
    ensures
        r@ == sv_booln24_items(*v),
{
    v.inner.as_slice()
}

/// `dedup_by` with equality: every item equal to the one kept before it
/// removed; the capacity stays.
#[verifier::external_body]
pub(crate) fn small_vec_booln24_dedup_by_eq(v: &mut SmallVecBoolN24)
    requires
        old(v).wf(),
    ensures
        final(v).wf(),
        sv_booln24_items(*final(v)) == dedup_seq(sv_booln24_items(*old(v))),
        sv_booln24_cap(*final(v)) == sv_booln24_cap(*old(v)),
{
    v.inner.dedup_by(|a: &mut bool, b: &mut bool| crate::fixed::same_bool(a, b))
}

} // verus!

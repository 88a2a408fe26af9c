//! `SmallVec<[usize; 26]>` of the outside crate, behind trusted wrappers.
//!
//! The outside type is held in a private field: Verus sees a value of it only
//! through two names, the items it holds and the capacity it records. Each
//! wrapper states, over those names, what the crate's source does.
use vstd::prelude::*;
use crate::small_vec::{dedup_seq, exact_growth_overflows, exact_grown, growth_overflows, grown, lex_order, repeat, Order};

verus! {

/// A small vector of `usize` with room for 26 items inline.
#[verifier::external_body]
pub struct SmallVecUsizeN26 {
    inner: smallvec::SmallVec<[usize; 26]>,
}

/// The items a `SmallVec<[usize; 26]>` holds, in order.
pub uninterp spec fn sv_usizen26_items(v: SmallVecUsizeN26) -> Seq<usize>;

/// The capacity a `SmallVec<[usize; 26]>` records (26 while it is inline).
pub uninterp spec fn sv_usizen26_cap(v: SmallVecUsizeN26) -> nat;

impl View for SmallVecUsizeN26 {
    type V = Seq<usize>;

    open spec fn view(&self) -> Seq<usize> {
        sv_usizen26_items(*self)
    }
}

impl SmallVecUsizeN26 {
    /// The capacity that `capacity()` reports.
    pub open spec fn cap(self) -> nat {
        sv_usizen26_cap(self)
    }

    /// What every vector of this type satisfies: it holds at most its
    /// capacity, is never smaller than its inline size, and a heap buffer
    /// never exceeds `isize::MAX` bytes.
    pub open spec fn wf(self) -> bool {
        &&& self@.len() <= self.cap()
        &&& self.cap() >= 26
        &&& self.cap() * vstd::layout::size_of::<usize>() <= isize::MAX || self.cap() == 26
    }
}

/// `SmallVec::new`: empty and inline.
#[verifier::external_body]
pub(crate) fn small_vec_usizen26_new() -> (r: SmallVecUsizeN26)
    ensures
        r.wf(),
        sv_usizen26_items(r) == Seq::<usize>::empty(),
        sv_usizen26_cap(r) == 26,
{
    SmallVecUsizeN26 { inner: smallvec::SmallVec::new() }
}

/// `len`: the number of items.
#[verifier::external_body]
pub(crate) fn small_vec_usizen26_len(v: &SmallVecUsizeN26) -> (r: usize)
    ensures
        r == sv_usizen26_items(*v).len(),
{
    v.inner.len()
}

/// `capacity`: the recorded capacity.
#[verifier::external_body]
pub(crate) fn small_vec_usizen26_capacity(v: &SmallVecUsizeN26) -> (r: usize)
    ensures
        r == sv_usizen26_cap(*v),
{
    v.inner.capacity()
}

/// `push`: `value` appended; a full vector first grows by amortised doubling,
/// whose size computation must not overflow.
#[verifier::external_body]
pub(crate) fn small_vec_usizen26_push(v: &mut SmallVecUsizeN26, value: usize)
    requires
        old(v).wf(),
        !growth_overflows(sv_usizen26_items(*old(v)).len(), sv_usizen26_cap(*old(v)), 1, vstd::layout::size_of::<usize>()),
    ensures
        final(v).wf(),
        sv_usizen26_items(*final(v)) == sv_usizen26_items(*old(v)).push(value),
        sv_usizen26_cap(*final(v)) == grown(sv_usizen26_items(*old(v)).len(), sv_usizen26_cap(*old(v)), 1),
{
    v.inner.push(value)
}

/// `dedup`: every item equal to the one before it removed; the capacity
/// stays.
#[verifier::external_body]
pub(crate) fn small_vec_usizen26_dedup(v: &mut SmallVecUsizeN26)
    requires
        old(v).wf(),
    ensures
        final(v).wf(),
        sv_usizen26_items(*final(v)) == dedup_seq(sv_usizen26_items(*old(v))),
        sv_usizen26_cap(*final(v)) == sv_usizen26_cap(*old(v)),
{
    v.inner.dedup()
}

/// `shrink_to_fit`: a heap vector moves back inline when its items fit there,
/// else its buffer shrinks to its length.
#[verifier::external_body]
pub(crate) fn small_vec_usizen26_shrink_to_fit(v: &mut SmallVecUsizeN26)
    requires
        old(v).wf(),
    ensures
        final(v).wf(),
        sv_usizen26_items(*final(v)) == sv_usizen26_items(*old(v)),
        sv_usizen26_cap(*final(v)) == if sv_usizen26_cap(*old(v)) == 26 || sv_usizen26_items(*old(v)).len() <= 26 { 26 } else { sv_usizen26_items(*old(v)).len() },
{
    v.inner.shrink_to_fit()
}

/// `clear`: no items left; the capacity stays.
#[verifier::external_body]
pub(crate) fn small_vec_usizen26_clear(v: &mut SmallVecUsizeN26)
    requires
        old(v).wf(),
    ensures
        final(v).wf(),
        sv_usizen26_items(*final(v)) == Seq::<usize>::empty(),
        sv_usizen26_cap(*final(v)) == sv_usizen26_cap(*old(v)),
{
    v.inner.clear()
}

} // verus!

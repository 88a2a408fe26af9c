//! `SmallVec<[bool; 30]>` of the outside crate, behind trusted wrappers.
//!
//! The outside type is held in a private field: Verus sees a value of it only
//! through two names, the items it holds and the capacity it records. Each
//! wrapper states, over those names, what the crate's source does.
use vstd::prelude::*;
use crate::small_vec::{dedup_seq, exact_growth_overflows, exact_grown, growth_overflows, grown, lex_order, repeat, Order};

verus! {

/// A small vector of `bool` with room for 30 items inline.
#[verifier::external_body]
pub struct SmallVecBoolN30 {
    inner: smallvec::SmallVec<[bool; 30]>,
}

/// The items a `SmallVec<[bool; 30]>` holds, in order.
pub uninterp spec fn sv_booln30_items(v: SmallVecBoolN30) -> Seq<bool>;

/// The capacity a `SmallVec<[bool; 30]>` records (30 while it is inline).
pub uninterp spec fn sv_booln30_cap(v: SmallVecBoolN30) -> nat;

impl View for SmallVecBoolN30 {
    type V = Seq<bool>;

    open spec fn view(&self) -> Seq<bool> {
        sv_booln30_items(*self)
    }
}

impl SmallVecBoolN30 {
    /// The capacity that `capacity()` reports.
    pub open spec fn cap(self) -> nat {
        sv_booln30_cap(self)
    }

    /// What every vector of this type satisfies: it holds at most its
    /// capacity, is never smaller than its inline size, and a heap buffer
    /// never exceeds `isize::MAX` bytes.
    pub open spec fn wf(self) -> bool {
        &&& self@.len() <= self.cap()
        &&& self.cap() >= 30
        &&& self.cap() * vstd::layout::size_of::<bool>() <= isize::MAX || self.cap() == 30
    }
}

/// `SmallVec::new`: empty and inline.
#[verifier::external_body]
pub(crate) fn small_vec_booln30_new() -> (r: SmallVecBoolN30)
    ensures
        r.wf(),
        sv_booln30_items(r) == Seq::<bool>::empty(),
        sv_booln30_cap(r) == 30,
{
    SmallVecBoolN30 { inner: smallvec::SmallVec::new() }
}

/// `len`: the number of items.
#[verifier::external_body]
pub(crate) fn small_vec_booln30_len(v: &SmallVecBoolN30) -> (r: usize)
    ensures
        r == sv_booln30_items(*v).len(),
{
    v.inner.len()
}

/// `capacity`: the recorded capacity.
#[verifier::external_body]
pub(crate) fn small_vec_booln30_capacity(v: &SmallVecBoolN30) -> (r: usize)
    ensures
        r == sv_booln30_cap(*v),
{
    v.inner.capacity()
}

/// `reserve_exact`: room for exactly `additional` more items when there is
/// not enough; the size computation must not overflow.
#[verifier::external_body]
pub(crate) fn small_vec_booln30_reserve_exact(v: &mut SmallVecBoolN30, additional: usize)
    requires
        old(v).wf(),
        !exact_growth_overflows(sv_booln30_items(*old(v)).len(), sv_booln30_cap(*old(v)), additional as nat, vstd::layout::size_of::<bool>()),
    ensures
        final(v).wf(),
        sv_booln30_items(*final(v)) == sv_booln30_items(*old(v)),
        sv_booln30_cap(*final(v)) == exact_grown(sv_booln30_items(*old(v)).len(), sv_booln30_cap(*old(v)), additional as nat),
{
    v.inner.reserve_exact(additional)
}

/// `push`: `value` appended; a full vector first grows by amortised doubling,
/// whose size computation must not overflow.
#[verifier::external_body]
pub(crate) fn small_vec_booln30_push(v: &mut SmallVecBoolN30, value: bool)
    requires
        old(v).wf(),
        !growth_overflows(sv_booln30_items(*old(v)).len(), sv_booln30_cap(*old(v)), 1, vstd::layout::size_of::<bool>()),
    ensures
        final(v).wf(),
        sv_booln30_items(*final(v)) == sv_booln30_items(*old(v)).push(value),
        sv_booln30_cap(*final(v)) == grown(sv_booln30_items(*old(v)).len(), sv_booln30_cap(*old(v)), 1),
{
    v.inner.push(value)
}

/// `clear`: no items left; the capacity stays.
#[verifier::external_body]
pub(crate) fn small_vec_booln30_clear(v: &mut SmallVecBoolN30)
    requires
        old(v).wf(),
    ensures
        final(v).wf(),
        sv_booln30_items(*final(v)) == Seq::<bool>::empty(),
        sv_booln30_cap(*final(v)) == sv_booln30_cap(*old(v)),
{
    v.inner.clear()
}

} // verus!

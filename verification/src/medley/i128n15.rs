//! `SmallVec<[i128; 15]>` of the outside crate, behind trusted wrappers.
//!
//! The outside type is held in a private field: Verus sees a value of it only
//! through two names, the items it holds and the capacity it records. Each
//! wrapper states, over those names, what the crate's source does.
use vstd::prelude::*;
use crate::small_vec::{dedup_seq, exact_growth_overflows, exact_grown, growth_overflows, grown, lex_order, repeat, Order};

verus! {

/// A small vector of `i128` with room for 15 items inline.
#[verifier::external_body]
pub struct SmallVecI128N15 {
    inner: smallvec::SmallVec<[i128; 15]>,
}

/// The items a `SmallVec<[i128; 15]>` holds, in order.
pub uninterp spec fn sv_i128n15_items(v: SmallVecI128N15) -> Seq<i128>;

/// The capacity a `SmallVec<[i128; 15]>` records (15 while it is inline).
pub uninterp spec fn sv_i128n15_cap(v: SmallVecI128N15) -> nat;

impl View for SmallVecI128N15 {
    type V = Seq<i128>;

    open spec fn view(&self) -> Seq<i128> {
        sv_i128n15_items(*self)
    }
}

impl SmallVecI128N15 {
    /// The capacity that `capacity()` reports.
    pub open spec fn cap(self) -> nat {
        sv_i128n15_cap(self)
    }

    /// What every vector of this type satisfies: it holds at most its
    /// capacity, is never smaller than its inline size, and a heap buffer
    /// never exceeds `isize::MAX` bytes.
    pub open spec fn wf(self) -> bool {
        &&& self@.len() <= self.cap()
        &&& self.cap() >= 15
        &&& self.cap() * vstd::layout::size_of::<i128>() <= isize::MAX || self.cap() == 15
    }
}

/// `SmallVec::new`: empty and inline.
#[verifier::external_body]
pub(crate) fn small_vec_i128n15_new() -> (r: SmallVecI128N15)
    ensures
        r.wf(),
        sv_i128n15_items(r) == Seq::<i128>::empty(),
        sv_i128n15_cap(r) == 15,
{
    SmallVecI128N15 { inner: smallvec::SmallVec::new() }
}

/// `len`: the number of items.
#[verifier::external_body]
pub(crate) fn small_vec_i128n15_len(v: &SmallVecI128N15) -> (r: usize)
    ensures
        r == sv_i128n15_items(*v).len(),
{
    v.inner.len()
}

/// `capacity`: the recorded capacity.
#[verifier::external_body]
pub(crate) fn small_vec_i128n15_capacity(v: &SmallVecI128N15) -> (r: usize)
    ensures
        r == sv_i128n15_cap(*v),
{
    v.inner.capacity()
}

/// `push`: `value` appended; a full vector first grows by amortised doubling,
/// whose size computation must not overflow.
#[verifier::external_body]
pub(crate) fn small_vec_i128n15_push(v: &mut SmallVecI128N15, value: i128)
    requires
        old(v).wf(),
        !growth_overflows(sv_i128n15_items(*old(v)).len(), sv_i128n15_cap(*old(v)), 1, vstd::layout::size_of::<i128>()),
    ensures
        final(v).wf(),
        sv_i128n15_items(*final(v)) == sv_i128n15_items(*old(v)).push(value),
        sv_i128n15_cap(*final(v)) == grown(sv_i128n15_items(*old(v)).len(), sv_i128n15_cap(*old(v)), 1),
{
    v.inner.push(value)
}

/// `sort` of the items (by way of `DerefMut`): the same items, in ascending
/// order; the capacity stays.
#[verifier::external_body]
pub(crate) fn small_vec_i128n15_sort(v: &mut SmallVecI128N15)
    requires
        old(v).wf(),
    ensures
        final(v).wf(),
        sv_i128n15_items(*final(v)).to_multiset() == sv_i128n15_items(*old(v)).to_multiset(),
        forall|i: int, j: int| 0 <= i < j < sv_i128n15_items(*final(v)).len() ==> sv_i128n15_items(*final(v))[i] <= sv_i128n15_items(*final(v))[j],
        sv_i128n15_cap(*final(v)) == sv_i128n15_cap(*old(v)),
{
    v.inner.sort()
}

/// `clear`: no items left; the capacity stays.
#[verifier::external_body]
pub(crate) fn small_vec_i128n15_clear(v: &mut SmallVecI128N15)
    requires
        old(v).wf(),
    ensures
        final(v).wf(),
        sv_i128n15_items(*final(v)) == Seq::<i128>::empty(),
        sv_i128n15_cap(*final(v)) == sv_i128n15_cap(*old(v)),
{
    v.inner.clear()
}

} // verus!

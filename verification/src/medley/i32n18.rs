//! `SmallVec<[i32; 18]>` of the outside crate, behind trusted wrappers.
//!
//! The outside type is held in a private field: Verus sees a value of it only
//! through two names, the items it holds and the capacity it records. Each
//! wrapper states, over those names, what the crate's source does.
use vstd::prelude::*;
use crate::small_vec::{dedup_seq, exact_growth_overflows, exact_grown, growth_overflows, grown, lex_order, repeat, Order};

verus! {

/// A small vector of `i32` with room for 18 items inline.
#[verifier::external_body]
pub struct SmallVecI32N18 {
    inner: smallvec::SmallVec<[i32; 18]>,
}

/// The items a `SmallVec<[i32; 18]>` holds, in order.
pub uninterp spec fn sv_i32n18_items(v: SmallVecI32N18) -> Seq<i32>;

/// The capacity a `SmallVec<[i32; 18]>` records (18 while it is inline).
pub uninterp spec fn sv_i32n18_cap(v: SmallVecI32N18) -> nat;

impl View for SmallVecI32N18 {
    type V = Seq<i32>;

    open spec fn view(&self) -> Seq<i32> {
        sv_i32n18_items(*self)
    }
}

/// Whether two items are equal: the test by which repeats are removed.
pub fn same_i32(a: &mut i32, b: &mut i32) -> (r: bool)
    ensures
        r == (*old(a) == *old(b)),
        *final(a) == *old(a),
        *final(b) == *old(b),
{
    *a == *b
}

impl SmallVecI32N18 {
    /// The capacity that `capacity()` reports.
    pub open spec fn cap(self) -> nat {
        sv_i32n18_cap(self)
    }

    /// What every vector of this type satisfies: it holds at most its
    /// capacity, is never smaller than its inline size, and a heap buffer
    /// never exceeds `isize::MAX` bytes.
    pub open spec fn wf(self) -> bool {
        &&& self@.len() <= self.cap()
        &&& self.cap() >= 18
        &&& self.cap() * vstd::layout::size_of::<i32>() <= isize::MAX || self.cap() == 18
    }
}

/// `SmallVec::new`: empty and inline.
#[verifier::external_body]
pub(crate) fn small_vec_i32n18_new() -> (r: SmallVecI32N18)
    ensures
        r.wf(),
        sv_i32n18_items(r) == Seq::<i32>::empty(),
        sv_i32n18_cap(r) == 18,
{
    SmallVecI32N18 { inner: smallvec::SmallVec::new() }
}

/// `len`: the number of items.
#[verifier::external_body]
pub(crate) fn small_vec_i32n18_len(v: &SmallVecI32N18) -> (r: usize)
    ensures
        r == sv_i32n18_items(*v).len(),
{
    v.inner.len()
}

/// `capacity`: the recorded capacity.
#[verifier::external_body]
pub(crate) fn small_vec_i32n18_capacity(v: &SmallVecI32N18) -> (r: usize)
    ensures
        r == sv_i32n18_cap(*v),
{
    v.inner.capacity()
}

/// `push`: `value` appended; a full vector first grows by amortised doubling,
/// whose size computation must not overflow.
#[verifier::external_body]
pub(crate) fn small_vec_i32n18_push(v: &mut SmallVecI32N18, value: i32)
    requires
        old(v).wf(),
        !growth_overflows(sv_i32n18_items(*old(v)).len(), sv_i32n18_cap(*old(v)), 1, vstd::layout::size_of::<i32>()),
    ensures
        final(v).wf(),
        sv_i32n18_items(*final(v)) == sv_i32n18_items(*old(v)).push(value),
        sv_i32n18_cap(*final(v)) == grown(sv_i32n18_items(*old(v)).len(), sv_i32n18_cap(*old(v)), 1),
{
    v.inner.push(value)
}

/// `dedup_by` with equality: every item equal to the one kept before it
/// removed; the capacity stays.
#[verifier::external_body]
pub(crate) fn small_vec_i32n18_dedup_by_eq(v: &mut SmallVecI32N18)
    requires
        old(v).wf(),
    ensures
        final(v).wf(),
        sv_i32n18_items(*final(v)) == dedup_seq(sv_i32n18_items(*old(v))),
        sv_i32n18_cap(*final(v)) == sv_i32n18_cap(*old(v)),
{
    v.inner.dedup_by(|a: &mut i32, b: &mut i32| same_i32(a, b))
}

/// `clear`: no items left; the capacity stays.
#[verifier::external_body]
pub(crate) fn small_vec_i32n18_clear(v: &mut SmallVecI32N18)
    requires
        old(v).wf(),
    ensures
        final(v).wf(),
        sv_i32n18_items(*final(v)) == Seq::<i32>::empty(),
        sv_i32n18_cap(*final(v)) == sv_i32n18_cap(*old(v)),
{
    v.inner.clear()
}

} // verus!

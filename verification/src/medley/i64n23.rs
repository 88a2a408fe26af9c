//! `SmallVec<[i64; 23]>` of the outside crate, behind trusted wrappers.
//!
//! The outside type is held in a private field: Verus sees a value of it only
//! through two names, the items it holds and the capacity it records. Each
//! wrapper states, over those names, what the crate's source does.
use vstd::prelude::*;
use crate::small_vec::{dedup_seq, exact_growth_overflows, exact_grown, growth_overflows, grown, lex_order, repeat, Order};

verus! {

/// A small vector of `i64` with room for 23 items inline.
#[verifier::external_body]
pub struct SmallVecI64N23 {
    inner: smallvec::SmallVec<[i64; 23]>,
}

/// The items a `SmallVec<[i64; 23]>` holds, in order.
pub uninterp spec fn sv_i64n23_items(v: SmallVecI64N23) -> Seq<i64>;

/// The capacity a `SmallVec<[i64; 23]>` records (23 while it is inline).
pub uninterp spec fn sv_i64n23_cap(v: SmallVecI64N23) -> nat;

impl View for SmallVecI64N23 {
    type V = Seq<i64>;

    open spec fn view(&self) -> Seq<i64> {
        sv_i64n23_items(*self)
    }
}

impl SmallVecI64N23 {
    /// The capacity that `capacity()` reports.
    pub open spec fn cap(self) -> nat {
        sv_i64n23_cap(self)
    }

    /// What every vector of this type satisfies: it holds at most its
    /// capacity, is never smaller than its inline size, and a heap buffer
    /// never exceeds `isize::MAX` bytes.
    pub open spec fn wf(self) -> bool {
        &&& self@.len() <= self.cap()
        &&& self.cap() >= 23
        &&& self.cap() * vstd::layout::size_of::<i64>() <= isize::MAX || self.cap() == 23
    }
}

/// `SmallVec::new`: empty and inline.
#[verifier::external_body]
pub(crate) fn small_vec_i64n23_new() -> (r: SmallVecI64N23)
    ensures
        r.wf(),
        sv_i64n23_items(r) == Seq::<i64>::empty(),
        sv_i64n23_cap(r) == 23,
{
    SmallVecI64N23 { inner: smallvec::SmallVec::new() }
}

/// `len`: the number of items.
#[verifier::external_body]
pub(crate) fn small_vec_i64n23_len(v: &SmallVecI64N23) -> (r: usize)
    ensures
        r == sv_i64n23_items(*v).len(),
{
    v.inner.len()
}

/// `capacity`: the recorded capacity.
#[verifier::external_body]
pub(crate) fn small_vec_i64n23_capacity(v: &SmallVecI64N23) -> (r: usize)
    ensures
        r == sv_i64n23_cap(*v),
{
    v.inner.capacity()
}

/// `push`: `value` appended; a full vector first grows by amortised doubling,
/// whose size computation must not overflow.
#[verifier::external_body]
pub(crate) fn small_vec_i64n23_push(v: &mut SmallVecI64N23, value: i64)
    requires
        old(v).wf(),
        !growth_overflows(sv_i64n23_items(*old(v)).len(), sv_i64n23_cap(*old(v)), 1, vstd::layout::size_of::<i64>()),
    ensures
        final(v).wf(),
        sv_i64n23_items(*final(v)) == sv_i64n23_items(*old(v)).push(value),
        sv_i64n23_cap(*final(v)) == grown(sv_i64n23_items(*old(v)).len(), sv_i64n23_cap(*old(v)), 1),
{
    v.inner.push(value)
}

/// `insert`: `element` placed at `index`, later items shifted right; it first
/// reserves room for one item, and panics when `index > len`.
#[verifier::external_body]
pub(crate) fn small_vec_i64n23_insert(v: &mut SmallVecI64N23, index: usize, element: i64)
    requires
        old(v).wf(),
        index <= sv_i64n23_items(*old(v)).len(),
        !growth_overflows(sv_i64n23_items(*old(v)).len(), sv_i64n23_cap(*old(v)), 1, vstd::layout::size_of::<i64>()),
    ensures
        final(v).wf(),
        sv_i64n23_items(*final(v)) == sv_i64n23_items(*old(v)).insert(index as int, element),
        sv_i64n23_cap(*final(v)) == grown(sv_i64n23_items(*old(v)).len(), sv_i64n23_cap(*old(v)), 1),
{
    v.inner.insert(index, element)
}

/// `into_vec`: the items, as a `Vec`.
#[verifier::external_body]
pub(crate) fn small_vec_i64n23_into_vec(v: SmallVecI64N23) -> (r: Vec<i64>)
    ensures
        r@ == sv_i64n23_items(v),
{
    v.inner.into_vec()
}

} // verus!

//! `SmallVec<[u64; 11]>` of the outside crate, behind trusted wrappers.
//!
//! The outside type is held in a private field: Verus sees a value of it only
//! through two names, the items it holds and the capacity it records. Each
//! wrapper states, over those names, what the crate's source does.
use vstd::prelude::*;
use crate::small_vec::{dedup_seq, exact_growth_overflows, exact_grown, growth_overflows, grown, lex_order, repeat, Order};

verus! {

/// A small vector of `u64` with room for 11 items inline.
#[verifier::external_body]
pub struct SmallVecU64N11 {
    inner: smallvec::SmallVec<[u64; 11]>,
}

/// The items a `SmallVec<[u64; 11]>` holds, in order.
pub uninterp spec fn sv_u64n11_items(v: SmallVecU64N11) -> Seq<u64>;

/// The capacity a `SmallVec<[u64; 11]>` records (11 while it is inline).
pub uninterp spec fn sv_u64n11_cap(v: SmallVecU64N11) -> nat;

impl View for SmallVecU64N11 {
    type V = Seq<u64>;

    open spec fn view(&self) -> Seq<u64> {
        sv_u64n11_items(*self)
    }
}

impl SmallVecU64N11 {
    /// The capacity that `capacity()` reports.
    pub open spec fn cap(self) -> nat {
        sv_u64n11_cap(self)
    }

    /// What every vector of this type satisfies: it holds at most its
    /// capacity, is never smaller than its inline size, and a heap buffer
    /// never exceeds `isize::MAX` bytes.
    pub open spec fn wf(self) -> bool {
        &&& self@.len() <= self.cap()
        &&& self.cap() >= 11
        &&& self.cap() * vstd::layout::size_of::<u64>() <= isize::MAX || self.cap() == 11
    }
}

/// `SmallVec::new`: empty and inline.
#[verifier::external_body]
pub(crate) fn small_vec_u64n11_new() -> (r: SmallVecU64N11)
    ensures
        r.wf(),
        sv_u64n11_items(r) == Seq::<u64>::empty(),
        sv_u64n11_cap(r) == 11,
{
    SmallVecU64N11 { inner: smallvec::SmallVec::new() }
}

/// `len`: the number of items.
#[verifier::external_body]
pub(crate) fn small_vec_u64n11_len(v: &SmallVecU64N11) -> (r: usize)
    ensures
        r == sv_u64n11_items(*v).len(),
{
    v.inner.len()
}

/// `capacity`: the recorded capacity.
#[verifier::external_body]
pub(crate) fn small_vec_u64n11_capacity(v: &SmallVecU64N11) -> (r: usize)
    ensures
        r == sv_u64n11_cap(*v),
{
    v.inner.capacity()
}

/// `push`: `value` appended; a full vector first grows by amortised doubling,
/// whose size computation must not overflow.
#[verifier::external_body]
pub(crate) fn small_vec_u64n11_push(v: &mut SmallVecU64N11, value: u64)
    requires
        old(v).wf(),
        !growth_overflows(sv_u64n11_items(*old(v)).len(), sv_u64n11_cap(*old(v)), 1, vstd::layout::size_of::<u64>()),
    ensures
        final(v).wf(),
        sv_u64n11_items(*final(v)) == sv_u64n11_items(*old(v)).push(value),
        sv_u64n11_cap(*final(v)) == grown(sv_u64n11_items(*old(v)).len(), sv_u64n11_cap(*old(v)), 1),
{
    v.inner.push(value)
}

/// `insert_many` with the items of `vec`: placed at `index`, later items
/// shifted right, after reserving room for all of them; it panics when
/// `index > len`.
#[verifier::external_body]
pub(crate) fn small_vec_u64n11_insert_many(v: &mut SmallVecU64N11, index: usize, vec: Vec<u64>)
    requires
        old(v).wf(),
        index <= sv_u64n11_items(*old(v)).len(),
        !growth_overflows(sv_u64n11_items(*old(v)).len(), sv_u64n11_cap(*old(v)), vec@.len(), vstd::layout::size_of::<u64>()),
    ensures
        final(v).wf(),
        sv_u64n11_items(*final(v)) == sv_u64n11_items(*old(v)).take(index as int) + vec@ + sv_u64n11_items(*old(v)).skip(index as int),
        sv_u64n11_cap(*final(v)) == grown(sv_u64n11_items(*old(v)).len(), sv_u64n11_cap(*old(v)), vec@.len()),
{
    v.inner.insert_many(index, vec)
}

/// `clear`: no items left; the capacity stays.
#[verifier::external_body]
pub(crate) fn small_vec_u64n11_clear(v: &mut SmallVecU64N11)
    requires
        old(v).wf(),
    ensures
        final(v).wf(),
        sv_u64n11_items(*final(v)) == Seq::<u64>::empty(),
        sv_u64n11_cap(*final(v)) == sv_u64n11_cap(*old(v)),
{
    v.inner.clear()
}

} // verus!

//! `SmallVec<[u64; 16]>` of the outside crate, behind trusted wrappers.
//!
//! The outside type is held in a private field: Verus sees a value of it only
//! through two names, the items it holds and the capacity it records. Each
//! wrapper states, over those names, what the crate's source does.
use vstd::prelude::*;
use crate::small_vec::{dedup_seq, exact_growth_overflows, exact_grown, growth_overflows, grown, lex_order, repeat, Order};

verus! {

/// A small vector of `u64` with room for 16 items inline.
#[verifier::external_body]
pub struct SmallVecU64N16 {
    inner: smallvec::SmallVec<[u64; 16]>,
}

/// The items a `SmallVec<[u64; 16]>` holds, in order.
pub uninterp spec fn sv_u64n16_items(v: SmallVecU64N16) -> Seq<u64>;

/// The capacity a `SmallVec<[u64; 16]>` records (16 while it is inline).
pub uninterp spec fn sv_u64n16_cap(v: SmallVecU64N16) -> nat;

impl View for SmallVecU64N16 {
    type V = Seq<u64>;

    open spec fn view(&self) -> Seq<u64> {
        sv_u64n16_items(*self)
    }
}

impl SmallVecU64N16 {
    /// The capacity that `capacity()` reports.
    pub open spec fn cap(self) -> nat {
        sv_u64n16_cap(self)
    }

    /// What every vector of this type satisfies: it holds at most its
    /// capacity, is never smaller than its inline size, and a heap buffer
    /// never exceeds `isize::MAX` bytes.
    pub open spec fn wf(self) -> bool {
        &&& self@.len() <= self.cap()
        &&& self.cap() >= 16
        &&& self.cap() * vstd::layout::size_of::<u64>() <= isize::MAX || self.cap() == 16
    }
}

/// `SmallVec::new`: empty and inline.
#[verifier::external_body]
pub(crate) fn small_vec_u64n16_new() -> (r: SmallVecU64N16)
    ensures
        r.wf(),
        sv_u64n16_items(r) == Seq::<u64>::empty(),
        sv_u64n16_cap(r) == 16,
{
    SmallVecU64N16 { inner: smallvec::SmallVec::new() }
}

/// `push`: `value` appended; a full vector first grows by amortised doubling,
/// whose size computation must not overflow.
#[verifier::external_body]
pub(crate) fn small_vec_u64n16_push(v: &mut SmallVecU64N16, value: u64)
    requires
        old(v).wf(),
        !growth_overflows(sv_u64n16_items(*old(v)).len(), sv_u64n16_cap(*old(v)), 1, vstd::layout::size_of::<u64>()),
    ensures
        final(v).wf(),
        sv_u64n16_items(*final(v)) == sv_u64n16_items(*old(v)).push(value),
        sv_u64n16_cap(*final(v)) == grown(sv_u64n16_items(*old(v)).len(), sv_u64n16_cap(*old(v)), 1),
{
    v.inner.push(value)
}

/// `insert`: `element` placed at `index`, later items shifted right; it first
/// reserves room for one item, and panics when `index > len`.
#[verifier::external_body]
pub(crate) fn small_vec_u64n16_insert(v: &mut SmallVecU64N16, index: usize, element: u64)
    requires
        old(v).wf(),
        index <= sv_u64n16_items(*old(v)).len(),
        !growth_overflows(sv_u64n16_items(*old(v)).len(), sv_u64n16_cap(*old(v)), 1, vstd::layout::size_of::<u64>()),
    ensures
        final(v).wf(),
        sv_u64n16_items(*final(v)) == sv_u64n16_items(*old(v)).insert(index as int, element),
        sv_u64n16_cap(*final(v)) == grown(sv_u64n16_items(*old(v)).len(), sv_u64n16_cap(*old(v)), 1),
{
    v.inner.insert(index, element)
}

/// `swap_remove`: the item at `index`, replaced by the last item; it panics
/// when `index >= len`.
#[verifier::external_body]
pub(crate) fn small_vec_u64n16_swap_remove(v: &mut SmallVecU64N16, index: usize) -> (r: u64)
    requires
        old(v).wf(),
        index < sv_u64n16_items(*old(v)).len(),
    ensures
        final(v).wf(),
        r == sv_u64n16_items(*old(v))[index as int],
        sv_u64n16_items(*final(v)) == sv_u64n16_items(*old(v)).update(index as int, sv_u64n16_items(*old(v)).last()).drop_last(),
        sv_u64n16_cap(*final(v)) == sv_u64n16_cap(*old(v)),
{
    v.inner.swap_remove(index)
}

/// `len`: the number of items.
#[verifier::external_body]
pub(crate) fn small_vec_u64n16_len(v: &SmallVecU64N16) -> (r: usize)
    ensures
        r == sv_u64n16_items(*v).len(),
{
    v.inner.len()
}

/// `into_vec`: the items, as a `Vec`.
#[verifier::external_body]
pub(crate) fn small_vec_u64n16_into_vec(v: SmallVecU64N16) -> (r: Vec<u64>)
    ensures
        r@ == sv_u64n16_items(v),
{
    v.inner.into_vec()
}

} // verus!

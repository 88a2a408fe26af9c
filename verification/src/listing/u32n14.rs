//! `SmallVec<[u32; 14]>` of the outside crate, behind trusted wrappers.
//!
//! The outside type is held in a private field: Verus sees a value of it only
//! through two names, the items it holds and the capacity it records. Each
//! wrapper states, over those names, what the crate's source does.
use vstd::prelude::*;
use crate::small_vec::{dedup_seq, exact_growth_overflows, exact_grown, growth_overflows, grown, lex_order, repeat, Order};

verus! {

/// A small vector of `u32` with room for 14 items inline.
#[verifier::external_body]
pub struct SmallVecU32N14 {
    inner: smallvec::SmallVec<[u32; 14]>,
}

/// The items a `SmallVec<[u32; 14]>` holds, in order.
pub uninterp spec fn sv_u32n14_items(v: SmallVecU32N14) -> Seq<u32>;

/// The capacity a `SmallVec<[u32; 14]>` records (14 while it is inline).
pub uninterp spec fn sv_u32n14_cap(v: SmallVecU32N14) -> nat;

impl View for SmallVecU32N14 {
    type V = Seq<u32>;

    open spec fn view(&self) -> Seq<u32> {
        sv_u32n14_items(*self)
    }
}

impl SmallVecU32N14 {
    /// The capacity that `capacity()` reports.
    pub open spec fn cap(self) -> nat {
        sv_u32n14_cap(self)
    }

    /// What every vector of this type satisfies: it holds at most its
    /// capacity, is never smaller than its inline size, and a heap buffer
    /// never exceeds `isize::MAX` bytes.
    pub open spec fn wf(self) -> bool {
        &&& self@.len() <= self.cap()
        &&& self.cap() >= 14
        &&& self.cap() * vstd::layout::size_of::<u32>() <= isize::MAX || self.cap() == 14
    }
}

/// `SmallVec::new`: empty and inline.
#[verifier::external_body]
pub(crate) fn small_vec_u32n14_new() -> (r: SmallVecU32N14)
    ensures
        r.wf(),
        sv_u32n14_items(r) == Seq::<u32>::empty(),
        sv_u32n14_cap(r) == 14,
{
    SmallVecU32N14 { inner: smallvec::SmallVec::new() }
}

/// `resize`: truncated to `len`, or extended to `len` with copies of
/// `value` after reserving room for them.
#[verifier::external_body]
pub(crate) fn small_vec_u32n14_resize(v: &mut SmallVecU32N14, len: usize, value: u32)
    requires
        old(v).wf(),
        len > sv_u32n14_items(*old(v)).len() ==> !growth_overflows(sv_u32n14_items(*old(v)).len(), sv_u32n14_cap(*old(v)), (len - sv_u32n14_items(*old(v)).len()) as nat, vstd::layout::size_of::<u32>()),
    ensures
        final(v).wf(),
        len <= sv_u32n14_items(*old(v)).len() ==> sv_u32n14_items(*final(v)) == sv_u32n14_items(*old(v)).take(len as int) && sv_u32n14_cap(*final(v)) == sv_u32n14_cap(*old(v)),
        len > sv_u32n14_items(*old(v)).len() ==> sv_u32n14_items(*final(v)) == sv_u32n14_items(*old(v)) + repeat(value, (len - sv_u32n14_items(*old(v)).len()) as nat)
            && sv_u32n14_cap(*final(v)) == grown(sv_u32n14_items(*old(v)).len(), sv_u32n14_cap(*old(v)), (len - sv_u32n14_items(*old(v)).len()) as nat),
{
    v.inner.resize(len, value)
}

/// `drain` of `start..end`, run to its end: the removed items, in order; the
/// items after the range close the gap. It panics unless
/// `start <= end <= len`.
#[verifier::external_body]
pub(crate) fn small_vec_u32n14_drain(v: &mut SmallVecU32N14, start: usize, end: usize) -> (r: Vec<u32>)
    requires
        old(v).wf(),
        start <= end <= sv_u32n14_items(*old(v)).len(),
    ensures
        final(v).wf(),
        r@ == sv_u32n14_items(*old(v)).subrange(start as int, end as int),
        sv_u32n14_items(*final(v)) == sv_u32n14_items(*old(v)).take(start as int) + sv_u32n14_items(*old(v)).skip(end as int),
        sv_u32n14_cap(*final(v)) == sv_u32n14_cap(*old(v)),
{
    v.inner.drain(start..end).collect()
}

/// `len`: the number of items.
#[verifier::external_body]
pub(crate) fn small_vec_u32n14_len(v: &SmallVecU32N14) -> (r: usize)
    ensures
        r == sv_u32n14_items(*v).len(),
{
    v.inner.len()
}

/// `capacity`: the recorded capacity.
#[verifier::external_body]
pub(crate) fn small_vec_u32n14_capacity(v: &SmallVecU32N14) -> (r: usize)
    ensures
        r == sv_u32n14_cap(*v),
{
    v.inner.capacity()
}

/// `into_vec`: the items, as a `Vec`.
#[verifier::external_body]
pub(crate) fn small_vec_u32n14_into_vec(v: SmallVecU32N14) -> (r: Vec<u32>)
    ensures
        r@ == sv_u32n14_items(v),
{
    v.inner.into_vec()
}

} // verus!

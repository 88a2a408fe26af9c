//! `SmallVec<[u32; 36]>` of the outside crate, behind trusted wrappers.
//!
//! The outside type is held in a private field: Verus sees a value of it only
//! through two names, the items it holds and the capacity it records. Each
//! wrapper states, over those names, what the crate's source does.
use vstd::prelude::*;
use crate::small_vec::{dedup_seq, exact_growth_overflows, exact_grown, growth_overflows, grown, lex_order, repeat, u32_ints, Order};

verus! {

/// A small vector of `u32` with room for 36 items inline.
#[verifier::external_body]
pub struct SmallVecU32N36 {
    inner: smallvec::SmallVec<[u32; 36]>,
}

/// The items a `SmallVec<[u32; 36]>` holds, in order.
pub uninterp spec fn sv_u32n36_items(v: SmallVecU32N36) -> Seq<u32>;

/// The capacity a `SmallVec<[u32; 36]>` records (36 while it is inline).
pub uninterp spec fn sv_u32n36_cap(v: SmallVecU32N36) -> nat;

impl View for SmallVecU32N36 {
    type V = Seq<u32>;

    open spec fn view(&self) -> Seq<u32> {
        sv_u32n36_items(*self)
    }
}

impl SmallVecU32N36 {
    /// The capacity that `capacity()` reports.
    pub open spec fn cap(self) -> nat {
        sv_u32n36_cap(self)
    }

    /// What every vector of this type satisfies: it holds at most its
    /// capacity, is never smaller than its inline size, and a heap buffer
    /// never exceeds `isize::MAX` bytes.
    pub open spec fn wf(self) -> bool {
        &&& self@.len() <= self.cap()
        &&& self.cap() >= 36
        &&& self.cap() * vstd::layout::size_of::<u32>() <= isize::MAX || self.cap() == 36
    }
}

/// `SmallVec::new`: empty and inline.
#[verifier::external_body]
pub(crate) fn small_vec_u32n36_new() -> (r: SmallVecU32N36)
    ensures
        r.wf(),
        sv_u32n36_items(r) == Seq::<u32>::empty(),
        sv_u32n36_cap(r) == 36,
{
    SmallVecU32N36 { inner: smallvec::SmallVec::new() }
}

/// `push`: `value` appended; a full vector first grows by amortised doubling,
/// whose size computation must not overflow.
#[verifier::external_body]
pub(crate) fn small_vec_u32n36_push(v: &mut SmallVecU32N36, value: u32)
    requires
        old(v).wf(),
        !growth_overflows(sv_u32n36_items(*old(v)).len(), sv_u32n36_cap(*old(v)), 1, vstd::layout::size_of::<u32>()),
    ensures
        final(v).wf(),
        sv_u32n36_items(*final(v)) == sv_u32n36_items(*old(v)).push(value),
        sv_u32n36_cap(*final(v)) == grown(sv_u32n36_items(*old(v)).len(), sv_u32n36_cap(*old(v)), 1),
{
    v.inner.push(value)
}

/// `reserve_exact`: room for exactly `additional` more items when there is
/// not enough; the size computation must not overflow.
#[verifier::external_body]
pub(crate) fn small_vec_u32n36_reserve_exact(v: &mut SmallVecU32N36, additional: usize)
    requires
        old(v).wf(),
        !exact_growth_overflows(sv_u32n36_items(*old(v)).len(), sv_u32n36_cap(*old(v)), additional as nat, vstd::layout::size_of::<u32>()),
    ensures
        final(v).wf(),
        sv_u32n36_items(*final(v)) == sv_u32n36_items(*old(v)),
        sv_u32n36_cap(*final(v)) == exact_grown(sv_u32n36_items(*old(v)).len(), sv_u32n36_cap(*old(v)), additional as nat),
{
    v.inner.reserve_exact(additional)
}

/// `as_ptr`: the address of the buffer, as an integer (nothing is stated of
/// it).
#[verifier::external_body]
pub(crate) fn small_vec_u32n36_as_ptr(v: &SmallVecU32N36) -> (r: usize)
{
    v.inner.as_ptr() as usize
}

/// `as_mut_ptr`: the address of the buffer, as an integer (nothing is stated
/// of it); the vector is left as it was.
#[verifier::external_body]
pub(crate) fn small_vec_u32n36_as_mut_ptr(v: &mut SmallVecU32N36) -> (r: usize)
    ensures
        sv_u32n36_items(*final(v)) == sv_u32n36_items(*old(v)),
        sv_u32n36_cap(*final(v)) == sv_u32n36_cap(*old(v)),
{
    v.inner.as_mut_ptr() as usize
}

} // verus!

//! `SmallVec<[u32; 15]>` of the outside crate, behind trusted wrappers.
//!
//! The outside type is held in a private field: Verus sees a value of it only
//! through two names, the items it holds and the capacity it records. Each
//! wrapper states, over those names, what the crate's source does.
use vstd::prelude::*;
use crate::small_vec::{dedup_seq, exact_growth_overflows, exact_grown, growth_overflows, grown, lex_order, repeat, u32_ints, Order};

verus! {

/// A small vector of `u32` with room for 15 items inline.
#[verifier::external_body]
pub struct SmallVecU32N15 {
    inner: smallvec::SmallVec<[u32; 15]>,
}

/// The items a `SmallVec<[u32; 15]>` holds, in order.
pub uninterp spec fn sv_u32n15_items(v: SmallVecU32N15) -> Seq<u32>;

/// The capacity a `SmallVec<[u32; 15]>` records (15 while it is inline).
pub uninterp spec fn sv_u32n15_cap(v: SmallVecU32N15) -> nat;

impl View for SmallVecU32N15 {
    type V = Seq<u32>;

    open spec fn view(&self) -> Seq<u32> {
        sv_u32n15_items(*self)
    }
}

impl SmallVecU32N15 {
    /// The capacity that `capacity()` reports.
    pub open spec fn cap(self) -> nat {
        sv_u32n15_cap(self)
    }

    /// What every vector of this type satisfies: it holds at most its
    /// capacity, is never smaller than its inline size, and a heap buffer
    /// never exceeds `isize::MAX` bytes.
    pub open spec fn wf(self) -> bool {
        &&& self@.len() <= self.cap()
        &&& self.cap() >= 15
        &&& self.cap() * vstd::layout::size_of::<u32>() <= isize::MAX || self.cap() == 15
    }
}

/// `SmallVec::from_slice`: a copy of `slice`; inline when it has at most 15
/// items, else in a heap buffer whose capacity nothing here states.
#[verifier::external_body]
pub(crate) fn small_vec_u32n15_from_slice(slice: &[u32]) -> (r: SmallVecU32N15)
    ensures
        r.wf(),
        sv_u32n15_items(r) == slice@,
        slice@.len() <= 15 ==> sv_u32n15_cap(r) == 15,
{
    SmallVecU32N15 { inner: smallvec::SmallVec::from_slice(slice) }
}

/// `reserve_exact`: room for exactly `additional` more items when there is
/// not enough; the size computation must not overflow.
#[verifier::external_body]
pub(crate) fn small_vec_u32n15_reserve_exact(v: &mut SmallVecU32N15, additional: usize)
    requires
        old(v).wf(),
        !exact_growth_overflows(sv_u32n15_items(*old(v)).len(), sv_u32n15_cap(*old(v)), additional as nat, vstd::layout::size_of::<u32>()),
    ensures
        final(v).wf(),
        sv_u32n15_items(*final(v)) == sv_u32n15_items(*old(v)),
        sv_u32n15_cap(*final(v)) == exact_grown(sv_u32n15_items(*old(v)).len(), sv_u32n15_cap(*old(v)), additional as nat),
{
    v.inner.reserve_exact(additional)
}

/// `is_empty`: whether there are no items.
#[verifier::external_body]
pub(crate) fn small_vec_u32n15_is_empty(v: &SmallVecU32N15) -> (r: bool)
    ensures
        r == (sv_u32n15_items(*v).len() == 0),
{
    v.inner.is_empty()
}

/// `remove`: the item at `index`, later items shifted left; it panics when
/// `index >= len`.
#[verifier::external_body]
pub(crate) fn small_vec_u32n15_remove(v: &mut SmallVecU32N15, index: usize) -> (r: u32)
    requires
        old(v).wf(),
        index < sv_u32n15_items(*old(v)).len(),
    ensures
        final(v).wf(),
        r == sv_u32n15_items(*old(v))[index as int],
        sv_u32n15_items(*final(v)) == sv_u32n15_items(*old(v)).remove(index as int),
        sv_u32n15_cap(*final(v)) == sv_u32n15_cap(*old(v)),
{
    v.inner.remove(index)
}

} // verus!

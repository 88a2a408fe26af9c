//! `SmallVec<[u32; 20]>` of the outside crate, behind trusted wrappers.
//!
//! The outside type is held in a private field: Verus sees a value of it only
//! through two names, the items it holds and the capacity it records. Each
//! wrapper states, over those names, what the crate's source does.
use vstd::prelude::*;
use crate::small_vec::{dedup_seq, exact_growth_overflows, exact_grown, growth_overflows, grown, lex_order, repeat, u32_ints, Order};

verus! {

/// A small vector of `u32` with room for 20 items inline.
#[verifier::external_body]
pub struct SmallVecU32N20 {
    inner: smallvec::SmallVec<[u32; 20]>,
}

/// The items a `SmallVec<[u32; 20]>` holds, in order.
pub uninterp spec fn sv_u32n20_items(v: SmallVecU32N20) -> Seq<u32>;

/// The capacity a `SmallVec<[u32; 20]>` records (20 while it is inline).
pub uninterp spec fn sv_u32n20_cap(v: SmallVecU32N20) -> nat;

impl View for SmallVecU32N20 {
    type V = Seq<u32>;

    open spec fn view(&self) -> Seq<u32> {
        sv_u32n20_items(*self)
    }
}

impl SmallVecU32N20 {
    /// The capacity that `capacity()` reports.
    pub open spec fn cap(self) -> nat {
        sv_u32n20_cap(self)
    }

    /// What every vector of this type satisfies: it holds at most its
    /// capacity, is never smaller than its inline size, and a heap buffer
    /// never exceeds `isize::MAX` bytes.
    pub open spec fn wf(self) -> bool {
        &&& self@.len() <= self.cap()
        &&& self.cap() >= 20
        &&& self.cap() * vstd::layout::size_of::<u32>() <= isize::MAX || self.cap() == 20
    }
}

/// `SmallVec::from_slice`: a copy of `slice`; inline when it has at most 20
/// items, else in a heap buffer whose capacity nothing here states.
#[verifier::external_body]
pub(crate) fn small_vec_u32n20_from_slice(slice: &[u32]) -> (r: SmallVecU32N20)
    ensures
        r.wf(),
        sv_u32n20_items(r) == slice@,
        slice@.len() <= 20 ==> sv_u32n20_cap(r) == 20,
{
    SmallVecU32N20 { inner: smallvec::SmallVec::from_slice(slice) }
}

/// `reserve_exact`: room for exactly `additional` more items when there is
/// not enough; the size computation must not overflow.
#[verifier::external_body]
pub(crate) fn small_vec_u32n20_reserve_exact(v: &mut SmallVecU32N20, additional: usize)
    requires
        old(v).wf(),
        !exact_growth_overflows(sv_u32n20_items(*old(v)).len(), sv_u32n20_cap(*old(v)), additional as nat, vstd::layout::size_of::<u32>()),
    ensures
        final(v).wf(),
        sv_u32n20_items(*final(v)) == sv_u32n20_items(*old(v)),
        sv_u32n20_cap(*final(v)) == exact_grown(sv_u32n20_items(*old(v)).len(), sv_u32n20_cap(*old(v)), additional as nat),
{
    v.inner.reserve_exact(additional)
}

/// `extend_from_slice`: the items of `slice` appended, after reserving room
/// for all of them.
#[verifier::external_body]
pub(crate) fn small_vec_u32n20_extend_from_slice(v: &mut SmallVecU32N20, slice: &[u32])
    requires
        old(v).wf(),
        !growth_overflows(sv_u32n20_items(*old(v)).len(), sv_u32n20_cap(*old(v)), slice@.len(), vstd::layout::size_of::<u32>()),
    ensures
        final(v).wf(),
        sv_u32n20_items(*final(v)) == sv_u32n20_items(*old(v)) + slice@,
        sv_u32n20_cap(*final(v)) == grown(sv_u32n20_items(*old(v)).len(), sv_u32n20_cap(*old(v)), slice@.len()),
{
    v.inner.extend_from_slice(slice)
}

} // verus!

//! `SmallVec<[u32; 128]>` of the outside crate, behind trusted wrappers.
//!
//! The outside type is held in a private field: Verus sees a value of it only
//! through two names, the items it holds and the capacity it records. Each
//! wrapper states, over those names, what the crate's source does.
use vstd::prelude::*;
use crate::small_vec::{dedup_seq, exact_growth_overflows, exact_grown, growth_overflows, grown, lex_order, repeat, Order};

verus! {

/// A small vector of `u32` with room for 128 items inline.
#[verifier::external_body]
pub struct SmallVecU32N128 {
    inner: smallvec::SmallVec<[u32; 128]>,
}

/// The items a `SmallVec<[u32; 128]>` holds, in order.
pub uninterp spec fn sv_u32n128_items(v: SmallVecU32N128) -> Seq<u32>;

/// The capacity a `SmallVec<[u32; 128]>` records (128 while it is inline).
pub uninterp spec fn sv_u32n128_cap(v: SmallVecU32N128) -> nat;

impl View for SmallVecU32N128 {
    type V = Seq<u32>;

    open spec fn view(&self) -> Seq<u32> {
        sv_u32n128_items(*self)
    }
}

impl SmallVecU32N128 {
    /// The capacity that `capacity()` reports.
    pub open spec fn cap(self) -> nat {
        sv_u32n128_cap(self)
    }

    /// What every vector of this type satisfies: it holds at most its
    /// capacity, is never smaller than its inline size, and a heap buffer
    /// never exceeds `isize::MAX` bytes.
    pub open spec fn wf(self) -> bool {
        &&& self@.len() <= self.cap()
        &&& self.cap() >= 128
        &&& self.cap() * vstd::layout::size_of::<u32>() <= isize::MAX || self.cap() == 128
    }
}

/// `SmallVec::new`: empty and inline.
#[verifier::external_body]
pub(crate) fn small_vec_u32n128_new() -> (r: SmallVecU32N128)
    ensures
        r.wf(),
        sv_u32n128_items(r) == Seq::<u32>::empty(),
        sv_u32n128_cap(r) == 128,
{
    SmallVecU32N128 { inner: smallvec::SmallVec::new() }
}

/// `SmallVec::from_slice`: a copy of `slice`; inline when it has at most 128
/// items, else in a heap buffer whose capacity nothing here states.
#[verifier::external_body]
pub(crate) fn small_vec_u32n128_from_slice(slice: &[u32]) -> (r: SmallVecU32N128)
    ensures
        r.wf(),
        sv_u32n128_items(r) == slice@,
        slice@.len() <= 128 ==> sv_u32n128_cap(r) == 128,
{
    SmallVecU32N128 { inner: smallvec::SmallVec::from_slice(slice) }
}

/// `grow`: the capacity set to `new_cap`, or back to inline when
/// `new_cap <= 128`; it panics when `new_cap < len` or when the size
/// computation overflows.
#[verifier::external_body]
pub(crate) fn small_vec_u32n128_grow(v: &mut SmallVecU32N128, new_cap: usize)
    requires
        old(v).wf(),
        new_cap >= sv_u32n128_items(*old(v)).len(),
        new_cap <= 128 || new_cap * vstd::layout::size_of::<u32>() <= isize::MAX,
    ensures
        final(v).wf(),
        sv_u32n128_items(*final(v)) == sv_u32n128_items(*old(v)),
        sv_u32n128_cap(*final(v)) == if new_cap <= 128 { 128 } else { new_cap as nat },
{
    v.inner.grow(new_cap)
}

/// `Deref`: the items.
#[verifier::external_body]
pub(crate) fn small_vec_u32n128_deref(v: &SmallVecU32N128) -> (r: &[u32])
    ensures
        r@ == sv_u32n128_items(*v),
{
    std::ops::Deref::deref(&v.inner)
}

} // verus!

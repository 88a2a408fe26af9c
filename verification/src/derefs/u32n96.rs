//! `SmallVec<[u32; 96]>` of the outside crate, behind trusted wrappers.
//!
//! The outside type is held in a private field: Verus sees a value of it only
//! through two names, the items it holds and the capacity it records. Each
//! wrapper states, over those names, what the crate's source does.
use vstd::prelude::*;
use crate::small_vec::{dedup_seq, exact_growth_overflows, exact_grown, growth_overflows, grown, lex_order, repeat, Order};

verus! {

/// A small vector of `u32` with room for 96 items inline.
#[verifier::external_body]
pub struct SmallVecU32N96 {
    inner: smallvec::SmallVec<[u32; 96]>,
}

/// The items a `SmallVec<[u32; 96]>` holds, in order.
pub uninterp spec fn sv_u32n96_items(v: SmallVecU32N96) -> Seq<u32>;

/// The capacity a `SmallVec<[u32; 96]>` records (96 while it is inline).
pub uninterp spec fn sv_u32n96_cap(v: SmallVecU32N96) -> nat;

impl View for SmallVecU32N96 {
    type V = Seq<u32>;

    open spec fn view(&self) -> Seq<u32> {
        sv_u32n96_items(*self)
    }
}

impl SmallVecU32N96 {
    /// The capacity that `capacity()` reports.
    pub open spec fn cap(self) -> nat {
        sv_u32n96_cap(self)
    }

    /// What every vector of this type satisfies: it holds at most its
    /// capacity, is never smaller than its inline size, and a heap buffer
    /// never exceeds `isize::MAX` bytes.
    pub open spec fn wf(self) -> bool {
        &&& self@.len() <= self.cap()
        &&& self.cap() >= 96
        &&& self.cap() * vstd::layout::size_of::<u32>() <= isize::MAX || self.cap() == 96
    }
}

/// `SmallVec::new`: empty and inline.
#[verifier::external_body]
pub(crate) fn small_vec_u32n96_new() -> (r: SmallVecU32N96)
    ensures
        r.wf(),
        sv_u32n96_items(r) == Seq::<u32>::empty(),
        sv_u32n96_cap(r) == 96,
{
    SmallVecU32N96 { inner: smallvec::SmallVec::new() }
}

/// `as_slice`: the items.
#[verifier::external_body]
pub(crate) fn small_vec_u32n96_as_slice(v: &SmallVecU32N96) -> (r: &[u32])
    ensures
        r@ == sv_u32n96_items(*v),
{
    v.inner.as_slice()
}

/// `Deref`: the items.
#[verifier::external_body]
pub(crate) fn small_vec_u32n96_deref(v: &SmallVecU32N96) -> (r: &[u32])
    ensures
        r@ == sv_u32n96_items(*v),
{
    std::ops::Deref::deref(&v.inner)
}

} // verus!

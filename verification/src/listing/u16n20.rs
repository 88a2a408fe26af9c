//! `SmallVec<[u16; 20]>` of the outside crate, behind trusted wrappers.
//!
//! The outside type is held in a private field: Verus sees a value of it only
//! through two names, the items it holds and the capacity it records. Each
//! wrapper states, over those names, what the crate's source does.
use vstd::prelude::*;
use crate::small_vec::{dedup_seq, exact_growth_overflows, exact_grown, growth_overflows, grown, lex_order, repeat, Order};

verus! {

/// A small vector of `u16` with room for 20 items inline.
#[verifier::external_body]
pub struct SmallVecU16N20 {
    inner: smallvec::SmallVec<[u16; 20]>,
}

/// The items a `SmallVec<[u16; 20]>` holds, in order.
pub uninterp spec fn sv_u16n20_items(v: SmallVecU16N20) -> Seq<u16>;

/// The capacity a `SmallVec<[u16; 20]>` records (20 while it is inline).
pub uninterp spec fn sv_u16n20_cap(v: SmallVecU16N20) -> nat;

impl View for SmallVecU16N20 {
    type V = Seq<u16>;

    open spec fn view(&self) -> Seq<u16> {
        sv_u16n20_items(*self)
    }
}

impl SmallVecU16N20 {
    /// The capacity that `capacity()` reports.
    pub open spec fn cap(self) -> nat {
        sv_u16n20_cap(self)
    }

    /// What every vector of this type satisfies: it holds at most its
    /// capacity, is never smaller than its inline size, and a heap buffer
    /// never exceeds `isize::MAX` bytes.
    pub open spec fn wf(self) -> bool {
        &&& self@.len() <= self.cap()
        &&& self.cap() >= 20
        &&& self.cap() * vstd::layout::size_of::<u16>() <= isize::MAX || self.cap() == 20
    }
}

/// `FromIterator` over the items of `vec`: an empty vector extended by them,
/// reserving room for all of them first.
#[verifier::external_body]
pub(crate) fn small_vec_u16n20_from_iter(vec: Vec<u16>) -> (r: SmallVecU16N20)
    requires
        !growth_overflows(0, 20, vec@.len(), vstd::layout::size_of::<u16>()),
    ensures
        r.wf(),
        sv_u16n20_items(r) == vec@,
        sv_u16n20_cap(r) == grown(0, 20, vec@.len()),
{
    SmallVecU16N20 { inner: <smallvec::SmallVec<[u16; 20]> as std::iter::FromIterator<u16>>::from_iter(vec.into_iter()) }
}

/// `as_slice`: the items.
#[verifier::external_body]
pub(crate) fn small_vec_u16n20_as_slice(v: &SmallVecU16N20) -> (r: &[u16])
    ensures
        r@ == sv_u16n20_items(*v),
{
    v.inner.as_slice()
}

/// `into_vec`: the items, as a `Vec`.
#[verifier::external_body]
pub(crate) fn small_vec_u16n20_into_vec(v: SmallVecU16N20) -> (r: Vec<u16>)
    ensures
        r@ == sv_u16n20_items(v),
{
    v.inner.into_vec()
}

} // verus!

//! `SmallVec<[u8; 18]>` of the outside crate, behind trusted wrappers.
//!
//! The outside type is held in a private field: Verus sees a value of it only
//! through two names, the items it holds and the capacity it records. Each
//! wrapper states, over those names, what the crate's source does.
use vstd::prelude::*;
use crate::small_vec::{dedup_seq, exact_growth_overflows, exact_grown, growth_overflows, grown, lex_order, repeat, Order};

verus! {

/// A small vector of `u8` with room for 18 items inline.
#[verifier::external_body]
pub struct SmallVecU8N18 {
    inner: smallvec::SmallVec<[u8; 18]>,
}

/// The items a `SmallVec<[u8; 18]>` holds, in order.
pub uninterp spec fn sv_u8n18_items(v: SmallVecU8N18) -> Seq<u8>;

/// The capacity a `SmallVec<[u8; 18]>` records (18 while it is inline).
pub uninterp spec fn sv_u8n18_cap(v: SmallVecU8N18) -> nat;

impl View for SmallVecU8N18 {
    type V = Seq<u8>;

    open spec fn view(&self) -> Seq<u8> {
        sv_u8n18_items(*self)
    }
}

impl SmallVecU8N18 {
    /// The capacity that `capacity()` reports.
    pub open spec fn cap(self) -> nat {
        sv_u8n18_cap(self)
    }

    /// What every vector of this type satisfies: it holds at most its
    /// capacity, is never smaller than its inline size, and a heap buffer
    /// never exceeds `isize::MAX` bytes.
    pub open spec fn wf(self) -> bool {
        &&& self@.len() <= self.cap()
        &&& self.cap() >= 18
        &&& self.cap() * vstd::layout::size_of::<u8>() <= isize::MAX || self.cap() == 18
    }
}

/// `ToSmallVec::to_smallvec` on a slice: a copy of it, as `from_slice` makes;
/// inline when it has at most 18 items, else in a heap buffer whose
/// capacity nothing here states.
#[verifier::external_body]
pub(crate) fn small_vec_u8n18_to_small_vec(slice: &[u8]) -> (r: SmallVecU8N18)
    ensures
        r.wf(),
        sv_u8n18_items(r) == slice@,
        slice@.len() <= 18 ==> sv_u8n18_cap(r) == 18,
{
    SmallVecU8N18 { inner: smallvec::ToSmallVec::to_smallvec(slice) }
}

/// `as_slice`: the items.
#[verifier::external_body]
pub(crate) fn small_vec_u8n18_as_slice(v: &SmallVecU8N18) -> (r: &[u8])
    ensures
        r@ == sv_u8n18_items(*v),
{
    v.inner.as_slice()
}

/// `Borrow<[T]>`: the items.
#[verifier::external_body]
pub(crate) fn small_vec_u8n18_borrow(v: &SmallVecU8N18) -> (r: &[u8])
    ensures
        r@ == sv_u8n18_items(*v),
{
    std::borrow::Borrow::<[u8]>::borrow(&v.inner)
}

/// `PartialEq::eq`: whether the items are equal.
#[verifier::external_body]
pub(crate) fn small_vec_u8n18_eq(a: &SmallVecU8N18, b: &SmallVecU8N18) -> (r: bool)
    ensures
        r == (sv_u8n18_items(*a) == sv_u8n18_items(*b)),
{
    a.inner == b.inner
}

} // verus!

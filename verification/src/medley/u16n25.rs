//! `SmallVec<[u16; 25]>` of the outside crate, behind trusted wrappers.
//!
//! The outside type is held in a private field: Verus sees a value of it only
//! through two names, the items it holds and the capacity it records. Each
//! wrapper states, over those names, what the crate's source does.
use vstd::prelude::*;
use crate::small_vec::{dedup_seq, exact_growth_overflows, exact_grown, growth_overflows, grown, lex_order, repeat, Order};

verus! {

/// A small vector of `u16` with room for 25 items inline.
#[verifier::external_body]
pub struct SmallVecU16N25 {
    inner: smallvec::SmallVec<[u16; 25]>,
}

/// The items a `SmallVec<[u16; 25]>` holds, in order.
pub uninterp spec fn sv_u16n25_items(v: SmallVecU16N25) -> Seq<u16>;

/// The capacity a `SmallVec<[u16; 25]>` records (25 while it is inline).
pub uninterp spec fn sv_u16n25_cap(v: SmallVecU16N25) -> nat;

impl View for SmallVecU16N25 {
    type V = Seq<u16>;

    open spec fn view(&self) -> Seq<u16> {
        sv_u16n25_items(*self)
    }
}

impl SmallVecU16N25 {
    /// The capacity that `capacity()` reports.
    pub open spec fn cap(self) -> nat {
        sv_u16n25_cap(self)
    }

    /// What every vector of this type satisfies: it holds at most its
    /// capacity, is never smaller than its inline size, and a heap buffer
    /// never exceeds `isize::MAX` bytes.
    pub open spec fn wf(self) -> bool {
        &&& self@.len() <= self.cap()
        &&& self.cap() >= 25
        &&& self.cap() * vstd::layout::size_of::<u16>() <= isize::MAX || self.cap() == 25
    }
}

/// `SmallVec::from_slice`: a copy of `slice`; inline when it has at most 25
/// items, else in a heap buffer whose capacity nothing here states.
#[verifier::external_body]
pub(crate) fn small_vec_u16n25_from_slice(slice: &[u16]) -> (r: SmallVecU16N25)
    ensures
        r.wf(),
        sv_u16n25_items(r) == slice@,
        slice@.len() <= 25 ==> sv_u16n25_cap(r) == 25,
{
    SmallVecU16N25 { inner: smallvec::SmallVec::from_slice(slice) }
}

/// `into_iter`, run to its end and collected: the items, in order.
#[verifier::external_body]
pub(crate) fn small_vec_u16n25_into_iter_collect(v: SmallVecU16N25) -> (r: Vec<u16>)
    ensures
        r@ == sv_u16n25_items(v),
{
    v.inner.into_iter().collect()
}

} // verus!

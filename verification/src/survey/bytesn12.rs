//! `SmallVec<[Vec<u8>; 12]>` of the outside crate, behind trusted wrappers.
//!
//! The outside type is held in a private field: Verus sees a value of it only
//! through two names, the items it holds and the capacity it records. Each
//! wrapper states, over those names, what the crate's source does.
use vstd::prelude::*;
use crate::small_vec::{dedup_seq, exact_growth_overflows, exact_grown, growth_overflows, grown, lex_order, repeat, Order};

verus! {

/// A small vector of `Vec<u8>` with room for 12 items inline.
#[verifier::external_body]
pub struct SmallVecBytesN12 {
    inner: smallvec::SmallVec<[Vec<u8>; 12]>,
}

/// The items a `SmallVec<[Vec<u8>; 12]>` holds, in order.
pub uninterp spec fn sv_bytesn12_items(v: SmallVecBytesN12) -> Seq<Vec<u8>>;

/// The capacity a `SmallVec<[Vec<u8>; 12]>` records (12 while it is inline).
pub uninterp spec fn sv_bytesn12_cap(v: SmallVecBytesN12) -> nat;

impl View for SmallVecBytesN12 {
    type V = Seq<Vec<u8>>;

    open spec fn view(&self) -> Seq<Vec<u8>> {
        sv_bytesn12_items(*self)
    }
}

impl SmallVecBytesN12 {
    /// The capacity that `capacity()` reports.
    pub open spec fn cap(self) -> nat {
        sv_bytesn12_cap(self)
    }

    /// What every vector of this type satisfies: it holds at most its
    /// capacity, is never smaller than its inline size, and a heap buffer
    /// never exceeds `isize::MAX` bytes.
    pub open spec fn wf(self) -> bool {
        &&& self@.len() <= self.cap()
        &&& self.cap() >= 12
        &&& self.cap() * vstd::layout::size_of::<Vec<u8>>() <= isize::MAX || self.cap() == 12
    }
}

/// `SmallVec::new`: empty and inline.
#[verifier::external_body]
pub(crate) fn small_vec_bytesn12_new() -> (r: SmallVecBytesN12)
    ensures
        r.wf(),
        sv_bytesn12_items(r) == Seq::<Vec<u8>>::empty(),
        sv_bytesn12_cap(r) == 12,
{
    SmallVecBytesN12 { inner: smallvec::SmallVec::new() }
}

/// `push`: `value` appended; a full vector first grows by amortised doubling,
/// whose size computation must not overflow.
#[verifier::external_body]
pub(crate) fn small_vec_bytesn12_push(v: &mut SmallVecBytesN12, value: Vec<u8>)
    requires
        old(v).wf(),
        !growth_overflows(sv_bytesn12_items(*old(v)).len(), sv_bytesn12_cap(*old(v)), 1, vstd::layout::size_of::<Vec<u8>>()),
    ensures
        final(v).wf(),
        sv_bytesn12_items(*final(v)) == sv_bytesn12_items(*old(v)).push(value),
        sv_bytesn12_cap(*final(v)) == grown(sv_bytesn12_items(*old(v)).len(), sv_bytesn12_cap(*old(v)), 1),
{
    v.inner.push(value)
}

/// `as_slice`: the items.
#[verifier::external_body]
pub(crate) fn small_vec_bytesn12_as_slice(v: &SmallVecBytesN12) -> (r: &[Vec<u8>])
    ensures
        r@ == sv_bytesn12_items(*v),
{
    v.inner.as_slice()
}

/// `as_mut_slice`: the items, to be written in place.
#[verifier::external_body]
pub(crate) fn small_vec_bytesn12_as_mut_slice(v: &mut SmallVecBytesN12) -> (r: &mut [Vec<u8>])
    requires
        old(v).wf(),
    ensures
        r@ == sv_bytesn12_items(*old(v)),
        sv_bytesn12_items(*final(v)) == final(r)@,
        sv_bytesn12_cap(*final(v)) == sv_bytesn12_cap(*old(v)),
{
    v.inner.as_mut_slice()
}

} // verus!

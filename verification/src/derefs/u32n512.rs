//! `SmallVec<[u32; 512]>` of the outside crate, behind trusted wrappers.
//!
//! The outside type is held in a private field: Verus sees a value of it only
//! through two names, the items it holds and the capacity it records. Each
//! wrapper states, over those names, what the crate's source does.
use vstd::prelude::*;
use crate::small_vec::{dedup_seq, exact_growth_overflows, exact_grown, growth_overflows, grown, lex_order, repeat, Order};

verus! {

/// A small vector of `u32` with room for 512 items inline.
#[verifier::external_body]
pub struct SmallVecU32N512 {
    inner: smallvec::SmallVec<[u32; 512]>,
}

/// The items a `SmallVec<[u32; 512]>` holds, in order.
pub uninterp spec fn sv_u32n512_items(v: SmallVecU32N512) -> Seq<u32>;

/// The capacity a `SmallVec<[u32; 512]>` records (512 while it is inline).
pub uninterp spec fn sv_u32n512_cap(v: SmallVecU32N512) -> nat;

impl View for SmallVecU32N512 {
    type V = Seq<u32>;

    open spec fn view(&self) -> Seq<u32> {
        sv_u32n512_items(*self)
    }
}

impl SmallVecU32N512 {
    /// The capacity that `capacity()` reports.
    pub open spec fn cap(self) -> nat {
        sv_u32n512_cap(self)
    }

    /// What every vector of this type satisfies: it holds at most its
    /// capacity, is never smaller than its inline size, and a heap buffer
    /// never exceeds `isize::MAX` bytes.
    pub open spec fn wf(self) -> bool {
        &&& self@.len() <= self.cap()
        &&& self.cap() >= 512
        &&& self.cap() * vstd::layout::size_of::<u32>() <= isize::MAX || self.cap() == 512
    }
}

/// `SmallVec::new`: empty and inline.
#[verifier::external_body]
pub(crate) fn small_vec_u32n512_new() -> (r: SmallVecU32N512)
    ensures
        r.wf(),
        sv_u32n512_items(r) == Seq::<u32>::empty(),
        sv_u32n512_cap(r) == 512,
{
    SmallVecU32N512 { inner: smallvec::SmallVec::new() }
}

/// `reserve`: room for `additional` more items by amortised doubling; the
/// size computation must not overflow.
#[verifier::external_body]
pub(crate) fn small_vec_u32n512_reserve(v: &mut SmallVecU32N512, additional: usize)
    requires
        old(v).wf(),
        !growth_overflows(sv_u32n512_items(*old(v)).len(), sv_u32n512_cap(*old(v)), additional as nat, vstd::layout::size_of::<u32>()),
    ensures
        final(v).wf(),
        sv_u32n512_items(*final(v)) == sv_u32n512_items(*old(v)),
        sv_u32n512_cap(*final(v)) == grown(sv_u32n512_items(*old(v)).len(), sv_u32n512_cap(*old(v)), additional as nat),
{
    v.inner.reserve(additional)
}

/// `Deref`: the items.
#[verifier::external_body]
pub(crate) fn small_vec_u32n512_deref(v: &SmallVecU32N512) -> (r: &[u32])
    ensures
        r@ == sv_u32n512_items(*v),
{
    std::ops::Deref::deref(&v.inner)
}

} // verus!

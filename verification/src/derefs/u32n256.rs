//! `SmallVec<[u32; 256]>` of the outside crate, behind trusted wrappers.
//!
//! The outside type is held in a private field: Verus sees a value of it only
//! through two names, the items it holds and the capacity it records. Each
//! wrapper states, over those names, what the crate's source does.
use vstd::prelude::*;
use crate::small_vec::{dedup_seq, exact_growth_overflows, exact_grown, growth_overflows, grown, lex_order, repeat, Order};

verus! {

/// A small vector of `u32` with room for 256 items inline.
#[verifier::external_body]
pub struct SmallVecU32N256 {
    inner: smallvec::SmallVec<[u32; 256]>,
}

/// The items a `SmallVec<[u32; 256]>` holds, in order.
pub uninterp spec fn sv_u32n256_items(v: SmallVecU32N256) -> Seq<u32>;

/// The capacity a `SmallVec<[u32; 256]>` records (256 while it is inline).
pub uninterp spec fn sv_u32n256_cap(v: SmallVecU32N256) -> nat;

impl View for SmallVecU32N256 {
    type V = Seq<u32>;

    open spec fn view(&self) -> Seq<u32> {
        sv_u32n256_items(*self)
    }
}

impl SmallVecU32N256 {
    /// The capacity that `capacity()` reports.
    pub open spec fn cap(self) -> nat {
        sv_u32n256_cap(self)
    }

    /// What every vector of this type satisfies: it holds at most its
    /// capacity, is never smaller than its inline size, and a heap buffer
    /// never exceeds `isize::MAX` bytes.
    pub open spec fn wf(self) -> bool {
        &&& self@.len() <= self.cap()
        &&& self.cap() >= 256
        &&& self.cap() * vstd::layout::size_of::<u32>() <= isize::MAX || self.cap() == 256
    }
}

/// `SmallVec::new`: empty and inline.
#[verifier::external_body]
pub(crate) fn small_vec_u32n256_new() -> (r: SmallVecU32N256)
    ensures
        r.wf(),
        sv_u32n256_items(r) == Seq::<u32>::empty(),
        sv_u32n256_cap(r) == 256,
{
    SmallVecU32N256 { inner: smallvec::SmallVec::new() }
}

/// `FromIterator` over the items of `vec`: an empty vector extended by them,
/// reserving room for all of them first.
#[verifier::external_body]
pub(crate) fn small_vec_u32n256_from_iter(vec: Vec<u32>) -> (r: SmallVecU32N256)
    requires
        !growth_overflows(0, 256, vec@.len(), vstd::layout::size_of::<u32>()),
    ensures
        r.wf(),
        sv_u32n256_items(r) == vec@,
        sv_u32n256_cap(r) == grown(0, 256, vec@.len()),
{
    SmallVecU32N256 { inner: <smallvec::SmallVec<[u32; 256]> as std::iter::FromIterator<u32>>::from_iter(vec.into_iter()) }
}

/// `push`: `value` appended; a full vector first grows by amortised doubling,
/// whose size computation must not overflow.
#[verifier::external_body]
pub(crate) fn small_vec_u32n256_push(v: &mut SmallVecU32N256, value: u32)
    requires
        old(v).wf(),
        !growth_overflows(sv_u32n256_items(*old(v)).len(), sv_u32n256_cap(*old(v)), 1, vstd::layout::size_of::<u32>()),
    ensures
        final(v).wf(),
        sv_u32n256_items(*final(v)) == sv_u32n256_items(*old(v)).push(value),
        sv_u32n256_cap(*final(v)) == grown(sv_u32n256_items(*old(v)).len(), sv_u32n256_cap(*old(v)), 1),
{
    v.inner.push(value)
}

/// `truncate`: the first `len` items kept (all of them when there are fewer).
#[verifier::external_body]
pub(crate) fn small_vec_u32n256_truncate(v: &mut SmallVecU32N256, len: usize)
    requires
        old(v).wf(),
    ensures
        final(v).wf(),
        sv_u32n256_items(*final(v)) == if len < sv_u32n256_items(*old(v)).len() { sv_u32n256_items(*old(v)).take(len as int) } else { sv_u32n256_items(*old(v)) },
        sv_u32n256_cap(*final(v)) == sv_u32n256_cap(*old(v)),
{
    v.inner.truncate(len)
}

/// `Deref`: the items.
#[verifier::external_body]
pub(crate) fn small_vec_u32n256_deref(v: &SmallVecU32N256) -> (r: &[u32])
    ensures
        r@ == sv_u32n256_items(*v),
{
    std::ops::Deref::deref(&v.inner)
}

} // verus!

//! `SmallVec<[i8; 64]>` of the outside crate, behind trusted wrappers.
//!
//! The outside type is held in a private field: Verus sees a value of it only
//! through two names, the items it holds and the capacity it records. Each
//! wrapper states, over those names, what the crate's source does.
use vstd::prelude::*;
use crate::small_vec::{dedup_seq, exact_growth_overflows, exact_grown, growth_overflows, grown, lex_order, repeat, Order};

verus! {

/// A small vector of `i8` with room for 64 items inline.
#[verifier::external_body]
pub struct SmallVecI8N64 {
    inner: smallvec::SmallVec<[i8; 64]>,
}

/// The items a `SmallVec<[i8; 64]>` holds, in order.
pub uninterp spec fn sv_i8n64_items(v: SmallVecI8N64) -> Seq<i8>;

/// The capacity a `SmallVec<[i8; 64]>` records (64 while it is inline).
pub uninterp spec fn sv_i8n64_cap(v: SmallVecI8N64) -> nat;

impl View for SmallVecI8N64 {
    type V = Seq<i8>;

    open spec fn view(&self) -> Seq<i8> {
        sv_i8n64_items(*self)
    }
}

impl SmallVecI8N64 {
    /// The capacity that `capacity()` reports.
    pub open spec fn cap(self) -> nat {
        sv_i8n64_cap(self)
    }

    /// What every vector of this type satisfies: it holds at most its
    /// capacity, is never smaller than its inline size, and a heap buffer
    /// never exceeds `isize::MAX` bytes.
    pub open spec fn wf(self) -> bool {
        &&& self@.len() <= self.cap()
        &&& self.cap() >= 64
        &&& self.cap() * vstd::layout::size_of::<i8>() <= isize::MAX || self.cap() == 64
    }
}

/// `SmallVec::new`: empty and inline.
#[verifier::external_body]
pub(crate) fn small_vec_i8n64_new() -> (r: SmallVecI8N64)
    ensures
        r.wf(),
        sv_i8n64_items(r) == Seq::<i8>::empty(),
        sv_i8n64_cap(r) == 64,
{
    SmallVecI8N64 { inner: smallvec::SmallVec::new() }
}

/// `push`: `value` appended; a full vector first grows by amortised doubling,
/// whose size computation must not overflow.
#[verifier::external_body]
pub(crate) fn small_vec_i8n64_push(v: &mut SmallVecI8N64, value: i8)
    requires
        old(v).wf(),
        !growth_overflows(sv_i8n64_items(*old(v)).len(), sv_i8n64_cap(*old(v)), 1, vstd::layout::size_of::<i8>()),
    ensures
        final(v).wf(),
        sv_i8n64_items(*final(v)) == sv_i8n64_items(*old(v)).push(value),
        sv_i8n64_cap(*final(v)) == grown(sv_i8n64_items(*old(v)).len(), sv_i8n64_cap(*old(v)), 1),
{
    v.inner.push(value)
}

/// `reserve`: room for `additional` more items by amortised doubling; the
/// size computation must not overflow.
#[verifier::external_body]
pub(crate) fn small_vec_i8n64_reserve(v: &mut SmallVecI8N64, additional: usize)
    requires
        old(v).wf(),
        !growth_overflows(sv_i8n64_items(*old(v)).len(), sv_i8n64_cap(*old(v)), additional as nat, vstd::layout::size_of::<i8>()),
    ensures
        final(v).wf(),
        sv_i8n64_items(*final(v)) == sv_i8n64_items(*old(v)),
        sv_i8n64_cap(*final(v)) == grown(sv_i8n64_items(*old(v)).len(), sv_i8n64_cap(*old(v)), additional as nat),
{
    v.inner.reserve(additional)
}

/// `into_iter`, run to its end and collected: the items, in order.
#[verifier::external_body]
pub(crate) fn small_vec_i8n64_into_iter_collect(v: SmallVecI8N64) -> (r: Vec<i8>)
    ensures
        r@ == sv_i8n64_items(v),
{
    v.inner.into_iter().collect()
}

/// `len`: the number of items.
#[verifier::external_body]
pub(crate) fn small_vec_i8n64_len(v: &SmallVecI8N64) -> (r: usize)
    ensures
        r == sv_i8n64_items(*v).len(),
{
    v.inner.len()
}

/// `capacity`: the recorded capacity.
#[verifier::external_body]
pub(crate) fn small_vec_i8n64_capacity(v: &SmallVecI8N64) -> (r: usize)
    ensures
        r == sv_i8n64_cap(*v),
{
    v.inner.capacity()
}

} // verus!

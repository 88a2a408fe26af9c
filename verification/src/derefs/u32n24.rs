//! `SmallVec<[u32; 24]>` of the outside crate, behind trusted wrappers.
//!
//! The outside type is held in a private field: Verus sees a value of it only
//! through two names, the items it holds and the capacity it records. Each
//! wrapper states, over those names, what the crate's source does.
use vstd::prelude::*;
use crate::small_vec::{dedup_seq, exact_growth_overflows, exact_grown, growth_overflows, grown, lex_order, repeat, Order};

verus! {

/// A small vector of `u32` with room for 24 items inline.
#[verifier::external_body]
pub struct SmallVecU32N24 {
    inner: smallvec::SmallVec<[u32; 24]>,
}

/// The items a `SmallVec<[u32; 24]>` holds, in order.
pub uninterp spec fn sv_u32n24_items(v: SmallVecU32N24) -> Seq<u32>;

/// The capacity a `SmallVec<[u32; 24]>` records (24 while it is inline).
pub uninterp spec fn sv_u32n24_cap(v: SmallVecU32N24) -> nat;

impl View for SmallVecU32N24 {
    type V = Seq<u32>;

    open spec fn view(&self) -> Seq<u32> {
        sv_u32n24_items(*self)
    }
}

impl SmallVecU32N24 {
    /// The capacity that `capacity()` reports.
    pub open spec fn cap(self) -> nat {
        sv_u32n24_cap(self)
    }

    /// What every vector of this type satisfies: it holds at most its
    /// capacity, is never smaller than its inline size, and a heap buffer
    /// never exceeds `isize::MAX` bytes.
    pub open spec fn wf(self) -> bool {
        &&& self@.len() <= self.cap()
        &&& self.cap() >= 24
        &&& self.cap() * vstd::layout::size_of::<u32>() <= isize::MAX || self.cap() == 24
    }
}

/// `SmallVec::new`: empty and inline.
#[verifier::external_body]
pub(crate) fn small_vec_u32n24_new() -> (r: SmallVecU32N24)
    ensures
        r.wf(),
        sv_u32n24_items(r) == Seq::<u32>::empty(),
        sv_u32n24_cap(r) == 24,
{
    SmallVecU32N24 { inner: smallvec::SmallVec::new() }
}

/// `From<[T; 24]>`, that is `from_buf`: all 24 items of `buf`, inline.
#[verifier::external_body]
pub(crate) fn small_vec_u32n24_from_buf(buf: [u32; 24]) -> (r: SmallVecU32N24)
    ensures
        r.wf(),
        sv_u32n24_items(r) == buf@,
        sv_u32n24_cap(r) == 24,
{
    SmallVecU32N24 { inner: std::convert::From::from(buf) }
}

/// `push`: `value` appended; a full vector first grows by amortised doubling,
/// whose size computation must not overflow.
#[verifier::external_body]
pub(crate) fn small_vec_u32n24_push(v: &mut SmallVecU32N24, value: u32)
    requires
        old(v).wf(),
        !growth_overflows(sv_u32n24_items(*old(v)).len(), sv_u32n24_cap(*old(v)), 1, vstd::layout::size_of::<u32>()),
    ensures
        final(v).wf(),
        sv_u32n24_items(*final(v)) == sv_u32n24_items(*old(v)).push(value),
        sv_u32n24_cap(*final(v)) == grown(sv_u32n24_items(*old(v)).len(), sv_u32n24_cap(*old(v)), 1),
{
    v.inner.push(value)
}

/// `insert`: `element` placed at `index`, later items shifted right; it first
/// reserves room for one item, and panics when `index > len`.
#[verifier::external_body]
pub(crate) fn small_vec_u32n24_insert(v: &mut SmallVecU32N24, index: usize, element: u32)
    requires
        old(v).wf(),
        index <= sv_u32n24_items(*old(v)).len(),
        !growth_overflows(sv_u32n24_items(*old(v)).len(), sv_u32n24_cap(*old(v)), 1, vstd::layout::size_of::<u32>()),
    ensures
        final(v).wf(),
        sv_u32n24_items(*final(v)) == sv_u32n24_items(*old(v)).insert(index as int, element),
        sv_u32n24_cap(*final(v)) == grown(sv_u32n24_items(*old(v)).len(), sv_u32n24_cap(*old(v)), 1),
{
    v.inner.insert(index, element)
}

/// `len`: the number of items.
#[verifier::external_body]
pub(crate) fn small_vec_u32n24_len(v: &SmallVecU32N24) -> (r: usize)
    ensures
        r == sv_u32n24_items(*v).len(),
{
    v.inner.len()
}

/// `Deref`: the items.
#[verifier::external_body]
pub(crate) fn small_vec_u32n24_deref(v: &SmallVecU32N24) -> (r: &[u32])
    ensures
        r@ == sv_u32n24_items(*v),
{
    std::ops::Deref::deref(&v.inner)
}

/// `SmallVec::from_vec`: the items of `vec`; inline when the vector's own
/// capacity is at most 24, else taking over its buffer, whose capacity
/// nothing here states.
#[verifier::external_body]
pub(crate) fn small_vec_u32n24_from_vec(vec: Vec<u32>) -> (r: SmallVecU32N24)
    ensures
        r.wf(),
        sv_u32n24_items(r) == vec@,
{
    SmallVecU32N24 { inner: smallvec::SmallVec::from_vec(vec) }
}

/// `reserve_exact`: room for exactly `additional` more items when there is
/// not enough; the size computation must not overflow.
#[verifier::external_body]
pub(crate) fn small_vec_u32n24_reserve_exact(v: &mut SmallVecU32N24, additional: usize)
    requires
        old(v).wf(),
        !exact_growth_overflows(sv_u32n24_items(*old(v)).len(), sv_u32n24_cap(*old(v)), additional as nat, vstd::layout::size_of::<u32>()),
    ensures
        final(v).wf(),
        sv_u32n24_items(*final(v)) == sv_u32n24_items(*old(v)),
        sv_u32n24_cap(*final(v)) == exact_grown(sv_u32n24_items(*old(v)).len(), sv_u32n24_cap(*old(v)), additional as nat),
{
    v.inner.reserve_exact(additional)
}

/// `drain` of `start..end`, run to its end: the removed items, in order; the
/// items after the range close the gap. It panics unless
/// `start <= end <= len`.
#[verifier::external_body]
pub(crate) fn small_vec_u32n24_drain(v: &mut SmallVecU32N24, start: usize, end: usize) -> (r: Vec<u32>)
    requires
        old(v).wf(),
        start <= end <= sv_u32n24_items(*old(v)).len(),
    ensures
        final(v).wf(),
        r@ == sv_u32n24_items(*old(v)).subrange(start as int, end as int),
        sv_u32n24_items(*final(v)) == sv_u32n24_items(*old(v)).take(start as int) + sv_u32n24_items(*old(v)).skip(end as int),
        sv_u32n24_cap(*final(v)) == sv_u32n24_cap(*old(v)),
{
    v.inner.drain(start..end).collect()
}

/// `capacity`: the recorded capacity.
#[verifier::external_body]
pub(crate) fn small_vec_u32n24_capacity(v: &SmallVecU32N24) -> (r: usize)
    ensures
        r == sv_u32n24_cap(*v),
{
    v.inner.capacity()
}

} // verus!

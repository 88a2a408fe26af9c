//! `SmallVec<[bool; 14]>` of the outside crate, behind trusted wrappers.
//!
//! The outside type is held in a private field: Verus sees a value of it only
//! through two names, the items it holds and the capacity it records. Each
//! wrapper states, over those names, what the crate's source does.
use vstd::prelude::*;
use crate::small_vec::{dedup_seq, exact_growth_overflows, exact_grown, growth_overflows, grown, lex_order, repeat, Order};

verus! {

/// A small vector of `bool` with room for 14 items inline.
#[verifier::external_body]
pub struct SmallVecBoolN14 {
    inner: smallvec::SmallVec<[bool; 14]>,
}

/// The items a `SmallVec<[bool; 14]>` holds, in order.
pub uninterp spec fn sv_booln14_items(v: SmallVecBoolN14) -> Seq<bool>;

/// The capacity a `SmallVec<[bool; 14]>` records (14 while it is inline).
pub uninterp spec fn sv_booln14_cap(v: SmallVecBoolN14) -> nat;

impl View for SmallVecBoolN14 {
    type V = Seq<bool>;

    open spec fn view(&self) -> Seq<bool> {
        sv_booln14_items(*self)
    }
}

impl SmallVecBoolN14 {
    /// The capacity that `capacity()` reports.
    pub open spec fn cap(self) -> nat {
        sv_booln14_cap(self)
    }

    /// What every vector of this type satisfies: it holds at most its
    /// capacity, is never smaller than its inline size, and a heap buffer
    /// never exceeds `isize::MAX` bytes.
    pub open spec fn wf(self) -> bool {
        &&& self@.len() <= self.cap()
        &&& self.cap() >= 14
        &&& self.cap() * vstd::layout::size_of::<bool>() <= isize::MAX || self.cap() == 14
    }
}

/// `SmallVec::new`: empty and inline.
#[verifier::external_body]
pub(crate) fn small_vec_booln14_new() -> (r: SmallVecBoolN14)
    ensures
        r.wf(),
        sv_booln14_items(r) == Seq::<bool>::empty(),
        sv_booln14_cap(r) == 14,
{
    SmallVecBoolN14 { inner: smallvec::SmallVec::new() }
}

/// `SmallVec::with_capacity`: empty, with room for `n` items (inline when
/// `n <= 14`); the size computation must not overflow.
#[verifier::external_body]
pub(crate) fn small_vec_booln14_with_capacity(n: usize) -> (r: SmallVecBoolN14)
    requires
        !exact_growth_overflows(0, 14, n as nat, vstd::layout::size_of::<bool>()),
    ensures
        r.wf(),
        sv_booln14_items(r) == Seq::<bool>::empty(),
        sv_booln14_cap(r) == if n <= 14 { 14 } else { n as nat },
{
    SmallVecBoolN14 { inner: smallvec::SmallVec::with_capacity(n) }
}

/// `push`: `value` appended; a full vector first grows by amortised doubling,
/// whose size computation must not overflow.
#[verifier::external_body]
pub(crate) fn small_vec_booln14_push(v: &mut SmallVecBoolN14, value: bool)
    requires
        old(v).wf(),
        !growth_overflows(sv_booln14_items(*old(v)).len(), sv_booln14_cap(*old(v)), 1, vstd::layout::size_of::<bool>()),
    ensures
        final(v).wf(),
        sv_booln14_items(*final(v)) == sv_booln14_items(*old(v)).push(value),
        sv_booln14_cap(*final(v)) == grown(sv_booln14_items(*old(v)).len(), sv_booln14_cap(*old(v)), 1),
{
    v.inner.push(value)
}

/// `Borrow<[T]>`: the items.
#[verifier::external_body]
pub(crate) fn small_vec_booln14_borrow(v: &SmallVecBoolN14) -> (r: &[bool])
    ensures
        r@ == sv_booln14_items(*v),
{
    std::borrow::Borrow::<[bool]>::borrow(&v.inner)
}

/// `truncate`: the first `len` items kept (all of them when there are fewer).
#[verifier::external_body]
pub(crate) fn small_vec_booln14_truncate(v: &mut SmallVecBoolN14, len: usize)
    requires
        old(v).wf(),
    ensures
        final(v).wf(),
        sv_booln14_items(*final(v)) == if len < sv_booln14_items(*old(v)).len() { sv_booln14_items(*old(v)).take(len as int) } else { sv_booln14_items(*old(v)) },
        sv_booln14_cap(*final(v)) == sv_booln14_cap(*old(v)),
{
    v.inner.truncate(len)
}

/// `is_empty`: whether there are no items.
#[verifier::external_body]
pub(crate) fn small_vec_booln14_is_empty(v: &SmallVecBoolN14) -> (r: bool)
    ensures
        r == (sv_booln14_items(*v).len() == 0),
{
    v.inner.is_empty()
}

/// `len`: the number of items.
#[verifier::external_body]
pub(crate) fn small_vec_booln14_len(v: &SmallVecBoolN14) -> (r: usize)
    ensures
        r == sv_booln14_items(*v).len(),
{
    v.inner.len()
}

/// `drain` of `start..end`, run to its end: the removed items, in order; the
/// items after the range close the gap. It panics unless
/// `start <= end <= len`.
#[verifier::external_body]
pub(crate) fn small_vec_booln14_drain(v: &mut SmallVecBoolN14, start: usize, end: usize) -> (r: Vec<bool>)
    requires
        old(v).wf(),
        start <= end <= sv_booln14_items(*old(v)).len(),
    ensures
        final(v).wf(),
        r@ == sv_booln14_items(*old(v)).subrange(start as int, end as int),
        sv_booln14_items(*final(v)) == sv_booln14_items(*old(v)).take(start as int) + sv_booln14_items(*old(v)).skip(end as int),
        sv_booln14_cap(*final(v)) == sv_booln14_cap(*old(v)),
{
    v.inner.drain(start..end).collect()
}

} // verus!

//! `SmallVec<[bool; 18]>` of the outside crate, behind trusted wrappers.
//!
//! The outside type is held in a private field: Verus sees a value of it only
//! through two names, the items it holds and the capacity it records. Each
//! wrapper states, over those names, what the crate's source does.
use vstd::prelude::*;
use crate::small_vec::{dedup_seq, exact_growth_overflows, exact_grown, growth_overflows, grown, lex_order, repeat, Order};

verus! {

/// A small vector of `bool` with room for 18 items inline.
#[verifier::external_body]
pub struct SmallVecBoolN18 {
    inner: smallvec::SmallVec<[bool; 18]>,
}

/// The items a `SmallVec<[bool; 18]>` holds, in order.
pub uninterp spec fn sv_booln18_items(v: SmallVecBoolN18) -> Seq<bool>;

/// The capacity a `SmallVec<[bool; 18]>` records (18 while it is inline).
pub uninterp spec fn sv_booln18_cap(v: SmallVecBoolN18) -> nat;

impl View for SmallVecBoolN18 {
    type V = Seq<bool>;

    open spec fn view(&self) -> Seq<bool> {
        sv_booln18_items(*self)
    }
}

impl SmallVecBoolN18 {
    /// The capacity that `capacity()` reports.
    pub open spec fn cap(self) -> nat {
        sv_booln18_cap(self)
    }

    /// What every vector of this type satisfies: it holds at most its
    /// capacity, is never smaller than its inline size, and a heap buffer
    /// never exceeds `isize::MAX` bytes.
    pub open spec fn wf(self) -> bool {
        &&& self@.len() <= self.cap()
        &&& self.cap() >= 18
        &&& self.cap() * vstd::layout::size_of::<bool>() <= isize::MAX || self.cap() == 18
    }
}

/// `SmallVec::new`: empty and inline.
#[verifier::external_body]
pub(crate) fn small_vec_booln18_new() -> (r: SmallVecBoolN18)
    ensures
        r.wf(),
        sv_booln18_items(r) == Seq::<bool>::empty(),
        sv_booln18_cap(r) == 18,
{
    SmallVecBoolN18 { inner: smallvec::SmallVec::new() }
}

/// `len`: the number of items.
#[verifier::external_body]
pub(crate) fn small_vec_booln18_len(v: &SmallVecBoolN18) -> (r: usize)
    ensures
        r == sv_booln18_items(*v).len(),
{
    v.inner.len()
}

/// `capacity`: the recorded capacity.
#[verifier::external_body]
pub(crate) fn small_vec_booln18_capacity(v: &SmallVecBoolN18) -> (r: usize)
    ensures
        r == sv_booln18_cap(*v),
{
    v.inner.capacity()
}

/// `push`: `value` appended; a full vector first grows by amortised doubling,
/// whose size computation must not overflow.
#[verifier::external_body]
pub(crate) fn small_vec_booln18_push(v: &mut SmallVecBoolN18, value: bool)
    requires
        old(v).wf(),
        !growth_overflows(sv_booln18_items(*old(v)).len(), sv_booln18_cap(*old(v)), 1, vstd::layout::size_of::<bool>()),
    ensures
        final(v).wf(),
        sv_booln18_items(*final(v)) == sv_booln18_items(*old(v)).push(value),
        sv_booln18_cap(*final(v)) == grown(sv_booln18_items(*old(v)).len(), sv_booln18_cap(*old(v)), 1),
{
    v.inner.push(value)
}

/// `drain` of `start..end`, run to its end: the removed items, in order; the
/// items after the range close the gap. It panics unless
/// `start <= end <= len`.
#[verifier::external_body]
pub(crate) fn small_vec_booln18_drain(v: &mut SmallVecBoolN18, start: usize, end: usize) -> (r: Vec<bool>)
    requires
        old(v).wf(),
        start <= end <= sv_booln18_items(*old(v)).len(),
    ensures
        final(v).wf(),
        r@ == sv_booln18_items(*old(v)).subrange(start as int, end as int),
        sv_booln18_items(*final(v)) == sv_booln18_items(*old(v)).take(start as int) + sv_booln18_items(*old(v)).skip(end as int),
        sv_booln18_cap(*final(v)) == sv_booln18_cap(*old(v)),
{
    v.inner.drain(start..end).collect()
}

/// `clear`: no items left; the capacity stays.
#[verifier::external_body]
pub(crate) fn small_vec_booln18_clear(v: &mut SmallVecBoolN18)
    requires
        old(v).wf(),
    ensures
        final(v).wf(),
        sv_booln18_items(*final(v)) == Seq::<bool>::empty(),
        sv_booln18_cap(*final(v)) == sv_booln18_cap(*old(v)),
{
    v.inner.clear()
}

/// `From<[T; 18]>`, that is `from_buf`: all 18 items of `buf`, inline.
#[verifier::external_body]
pub(crate) fn small_vec_booln18_from_buf(buf: [bool; 18]) -> (r: SmallVecBoolN18)
    ensures
        r.wf(),
        sv_booln18_items(r) == buf@,
        sv_booln18_cap(r) == 18,
{
    SmallVecBoolN18 { inner: std::convert::From::from(buf) }
}

/// `as_slice`: the items.
#[verifier::external_body]
pub(crate) fn small_vec_booln18_as_slice(v: &SmallVecBoolN18) -> (r: &[bool])
    ensures
        r@ == sv_booln18_items(*v),
{
    v.inner.as_slice()
}

/// `AsRef<[T]>`: the items.
#[verifier::external_body]
pub(crate) fn small_vec_booln18_as_ref(v: &SmallVecBoolN18) -> (r: &[bool])
    ensures
        r@ == sv_booln18_items(*v),
{
    std::convert::AsRef::<[bool]>::as_ref(&v.inner)
}

/// `into_vec`: the items, as a `Vec`.
#[verifier::external_body]
pub(crate) fn small_vec_booln18_into_vec(v: SmallVecBoolN18) -> (r: Vec<bool>)
    ensures
        r@ == sv_booln18_items(v),
{
    v.inner.into_vec()
}

} // verus!

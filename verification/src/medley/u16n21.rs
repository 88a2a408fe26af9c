//! `SmallVec<[u16; 21]>` of the outside crate, behind trusted wrappers.
//!
//! The outside type is held in a private field: Verus sees a value of it only
//! through two names, the items it holds and the capacity it records. Each
//! wrapper states, over those names, what the crate's source does.
use vstd::prelude::*;
use crate::small_vec::{dedup_seq, exact_growth_overflows, exact_grown, growth_overflows, grown, lex_order, repeat, Order};

verus! {

/// A small vector of `u16` with room for 21 items inline.
#[verifier::external_body]
pub struct SmallVecU16N21 {
    inner: smallvec::SmallVec<[u16; 21]>,
}

/// The items a `SmallVec<[u16; 21]>` holds, in order.
pub uninterp spec fn sv_u16n21_items(v: SmallVecU16N21) -> Seq<u16>;

/// The capacity a `SmallVec<[u16; 21]>` records (21 while it is inline).
pub uninterp spec fn sv_u16n21_cap(v: SmallVecU16N21) -> nat;

impl View for SmallVecU16N21 {
    type V = Seq<u16>;

    open spec fn view(&self) -> Seq<u16> {
        sv_u16n21_items(*self)
    }
}

impl SmallVecU16N21 {
    /// The capacity that `capacity()` reports.
    pub open spec fn cap(self) -> nat {
        sv_u16n21_cap(self)
    }

    /// What every vector of this type satisfies: it holds at most its
    /// capacity, is never smaller than its inline size, and a heap buffer
    /// never exceeds `isize::MAX` bytes.
    pub open spec fn wf(self) -> bool {
        &&& self@.len() <= self.cap()
        &&& self.cap() >= 21
        &&& self.cap() * vstd::layout::size_of::<u16>() <= isize::MAX || self.cap() == 21
    }
}

/// `SmallVec::new`: empty and inline.
#[verifier::external_body]
pub(crate) fn small_vec_u16n21_new() -> (r: SmallVecU16N21)
    ensures
        r.wf(),
        sv_u16n21_items(r) == Seq::<u16>::empty(),
        sv_u16n21_cap(r) == 21,
{
    SmallVecU16N21 { inner: smallvec::SmallVec::new() }
}

/// `len`: the number of items.
#[verifier::external_body]
pub(crate) fn small_vec_u16n21_len(v: &SmallVecU16N21) -> (r: usize)
    ensures
        r == sv_u16n21_items(*v).len(),
{
    v.inner.len()
}

/// `capacity`: the recorded capacity.
#[verifier::external_body]
pub(crate) fn small_vec_u16n21_capacity(v: &SmallVecU16N21) -> (r: usize)
    ensures
        r == sv_u16n21_cap(*v),
{
    v.inner.capacity()
}

/// `push`: `value` appended; a full vector first grows by amortised doubling,
/// whose size computation must not overflow.
#[verifier::external_body]
pub(crate) fn small_vec_u16n21_push(v: &mut SmallVecU16N21, value: u16)
    requires
        old(v).wf(),
        !growth_overflows(sv_u16n21_items(*old(v)).len(), sv_u16n21_cap(*old(v)), 1, vstd::layout::size_of::<u16>()),
    ensures
        final(v).wf(),
        sv_u16n21_items(*final(v)) == sv_u16n21_items(*old(v)).push(value),
        sv_u16n21_cap(*final(v)) == grown(sv_u16n21_items(*old(v)).len(), sv_u16n21_cap(*old(v)), 1),
{
    v.inner.push(value)
}

/// `append`: all items of `other` moved to the end of `v`, after reserving
/// room for them, leaving `other` empty with its capacity.
#[verifier::external_body]
pub(crate) fn small_vec_u16n21_append(v: &mut SmallVecU16N21, other: &mut SmallVecU16N21)
    requires
        old(v).wf(),
        old(other).wf(),
        !growth_overflows(sv_u16n21_items(*old(v)).len(), sv_u16n21_cap(*old(v)), sv_u16n21_items(*old(other)).len(), vstd::layout::size_of::<u16>()),
    ensures
        final(v).wf(),
        final(other).wf(),
        sv_u16n21_items(*final(v)) == sv_u16n21_items(*old(v)) + sv_u16n21_items(*old(other)),
        sv_u16n21_cap(*final(v)) == grown(sv_u16n21_items(*old(v)).len(), sv_u16n21_cap(*old(v)), sv_u16n21_items(*old(other)).len()),
        sv_u16n21_items(*final(other)) == Seq::<u16>::empty(),
        sv_u16n21_cap(*final(other)) == sv_u16n21_cap(*old(other)),
{
    v.inner.append(&mut other.inner)
}

/// `PartialEq::eq`: whether the items are equal.
#[verifier::external_body]
pub(crate) fn small_vec_u16n21_eq(a: &SmallVecU16N21, b: &SmallVecU16N21) -> (r: bool)
    ensures
        r == (sv_u16n21_items(*a) == sv_u16n21_items(*b)),
{
    a.inner == b.inner
}

/// `clear`: no items left; the capacity stays.
#[verifier::external_body]
pub(crate) fn small_vec_u16n21_clear(v: &mut SmallVecU16N21)
    requires
        old(v).wf(),
    ensures
        final(v).wf(),
        sv_u16n21_items(*final(v)) == Seq::<u16>::empty(),
        sv_u16n21_cap(*final(v)) == sv_u16n21_cap(*old(v)),
{
    v.inner.clear()
}

} // verus!

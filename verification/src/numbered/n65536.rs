//! `SmallVec<[usize; 65536]>` of the outside crate, behind trusted wrappers:
//! a vector of number-carrying elements, held as their numbers.
//!
//! The outside type is held in a private field: Verus sees a value of it only
//! through two names, the items it holds and the capacity it records. Each
//! wrapper states, over those names, what the crate's source does.
use vstd::prelude::*;
use crate::small_vec::{dedup_seq, exact_growth_overflows, exact_grown, growth_overflows, grown, lex_order, repeat, Order};
use crate::script::usize_at;
use crate::numbered::{is_even_usize, same_usize, usize_ints};

verus! {

/// A small vector of `usize` with room for 65536 items inline.
#[verifier::external_body]
pub struct SmallVecNumbers65536 {
    inner: smallvec::SmallVec<[usize; 65536]>,
}

/// The items a `SmallVec<[usize; 65536]>` holds, in order.
pub uninterp spec fn sv_n65536_items(v: SmallVecNumbers65536) -> Seq<usize>;

/// The capacity a `SmallVec<[usize; 65536]>` records (65536 while it is inline).
pub uninterp spec fn sv_n65536_cap(v: SmallVecNumbers65536) -> nat;

impl View for SmallVecNumbers65536 {
    type V = Seq<usize>;

    open spec fn view(&self) -> Seq<usize> {
        sv_n65536_items(*self)
    }
}

impl SmallVecNumbers65536 {
    /// The capacity that `capacity()` reports.
    pub open spec fn cap(self) -> nat {
        sv_n65536_cap(self)
    }

    /// What every vector of this type satisfies: it holds at most its
    /// capacity, is never smaller than its inline size, and a heap buffer
    /// never exceeds `isize::MAX` bytes.
    pub open spec fn wf(self) -> bool {
        &&& self@.len() <= self.cap()
        &&& self.cap() >= 65536
        &&& self.cap() * vstd::layout::size_of::<usize>() <= isize::MAX || self.cap() == 65536
    }
}

/// `SmallVec::new`: empty and inline.
#[verifier::external_body]
pub(crate) fn small_vec_n65536_new() -> (r: SmallVecNumbers65536)
    ensures
        r.wf(),
        sv_n65536_items(r) == Seq::<usize>::empty(),
        sv_n65536_cap(r) == 65536,
{
    SmallVecNumbers65536 { inner: smallvec::SmallVec::new() }
}

/// `push`: `value` appended; a full vector first grows by amortised doubling,
/// whose size computation must not overflow.
#[verifier::external_body]
pub(crate) fn small_vec_n65536_push(v: &mut SmallVecNumbers65536, value: usize)
    requires
        old(v).wf(),
        !growth_overflows(sv_n65536_items(*old(v)).len(), sv_n65536_cap(*old(v)), 1, vstd::layout::size_of::<usize>()),
    ensures
        final(v).wf(),
        sv_n65536_items(*final(v)) == sv_n65536_items(*old(v)).push(value),
        sv_n65536_cap(*final(v)) == grown(sv_n65536_items(*old(v)).len(), sv_n65536_cap(*old(v)), 1),
{
    v.inner.push(value)
}

/// `dedup_by` with equality: every item equal to the one kept before it
/// removed; the capacity stays.
#[verifier::external_body]
pub(crate) fn small_vec_n65536_dedup_by_eq(v: &mut SmallVecNumbers65536)
    requires
        old(v).wf(),
    ensures
        final(v).wf(),
        sv_n65536_items(*final(v)) == dedup_seq(sv_n65536_items(*old(v))),
        sv_n65536_cap(*final(v)) == sv_n65536_cap(*old(v)),
{
    v.inner.dedup_by(|a: &mut usize, b: &mut usize| same_usize(a, b))
}

/// `len`: the number of items.
#[verifier::external_body]
pub(crate) fn small_vec_n65536_len(v: &SmallVecNumbers65536) -> (r: usize)
    ensures
        r == sv_n65536_items(*v).len(),
{
    v.inner.len()
}

/// `capacity`: the recorded capacity.
#[verifier::external_body]
pub(crate) fn small_vec_n65536_capacity(v: &SmallVecNumbers65536) -> (r: usize)
    ensures
        r == sv_n65536_cap(*v),
{
    v.inner.capacity()
}

/// `is_empty`: whether there are no items.
#[verifier::external_body]
pub(crate) fn small_vec_n65536_is_empty(v: &SmallVecNumbers65536) -> (r: bool)
    ensures
        r == (sv_n65536_items(*v).len() == 0),
{
    v.inner.is_empty()
}

/// `IndexMut<usize>`: the item at `index`, read through a mutable reference;
/// it panics when `index >= len`.
#[verifier::external_body]
pub(crate) fn small_vec_n65536_index_mut(v: &mut SmallVecNumbers65536, index: usize) -> (r: usize)
    requires
        old(v).wf(),
        index < sv_n65536_items(*old(v)).len(),
    ensures
        r == sv_n65536_items(*old(v))[index as int],
        sv_n65536_items(*final(v)) == sv_n65536_items(*old(v)),
        sv_n65536_cap(*final(v)) == sv_n65536_cap(*old(v)),
{
    *std::ops::IndexMut::index_mut(&mut v.inner, index)
}

} // verus!

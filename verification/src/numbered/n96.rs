//! `SmallVec<[usize; 96]>` of the outside crate, behind trusted wrappers:
//! a vector of number-carrying elements, held as their numbers.
//!
//! The outside type is held in a private field: Verus sees a value of it only
//! through two names, the items it holds and the capacity it records. Each
//! wrapper states, over those names, what the crate's source does.
use vstd::prelude::*;
use crate::small_vec::{dedup_seq, exact_growth_overflows, exact_grown, growth_overflows, grown, lex_order, repeat, Order};
use crate::script::usize_at;
use crate::numbered::{is_even_usize, same_usize, usize_ints};

verus! {

/// A small vector of `usize` with room for 96 items inline.
#[verifier::external_body]
pub struct SmallVecNumbers96 {
    inner: smallvec::SmallVec<[usize; 96]>,
}

/// The items a `SmallVec<[usize; 96]>` holds, in order.
pub uninterp spec fn sv_n96_items(v: SmallVecNumbers96) -> Seq<usize>;

/// The capacity a `SmallVec<[usize; 96]>` records (96 while it is inline).
pub uninterp spec fn sv_n96_cap(v: SmallVecNumbers96) -> nat;

impl View for SmallVecNumbers96 {
    type V = Seq<usize>;

    open spec fn view(&self) -> Seq<usize> {
        sv_n96_items(*self)
    }
}

impl SmallVecNumbers96 {
    /// The capacity that `capacity()` reports.
    pub open spec fn cap(self) -> nat {
        sv_n96_cap(self)
    }

    /// What every vector of this type satisfies: it holds at most its
    /// capacity, is never smaller than its inline size, and a heap buffer
    /// never exceeds `isize::MAX` bytes.
    pub open spec fn wf(self) -> bool {
        &&& self@.len() <= self.cap()
        &&& self.cap() >= 96
        &&& self.cap() * vstd::layout::size_of::<usize>() <= isize::MAX || self.cap() == 96
    }
}

/// `SmallVec::new`: empty and inline.
#[verifier::external_body]
pub(crate) fn small_vec_n96_new() -> (r: SmallVecNumbers96)
    ensures
        r.wf(),
        sv_n96_items(r) == Seq::<usize>::empty(),
        sv_n96_cap(r) == 96,
{
    SmallVecNumbers96 { inner: smallvec::SmallVec::new() }
}

/// `push`: `value` appended; a full vector first grows by amortised doubling,
/// whose size computation must not overflow.
#[verifier::external_body]
pub(crate) fn small_vec_n96_push(v: &mut SmallVecNumbers96, value: usize)
    requires
        old(v).wf(),
        !growth_overflows(sv_n96_items(*old(v)).len(), sv_n96_cap(*old(v)), 1, vstd::layout::size_of::<usize>()),
    ensures
        final(v).wf(),
        sv_n96_items(*final(v)) == sv_n96_items(*old(v)).push(value),
        sv_n96_cap(*final(v)) == grown(sv_n96_items(*old(v)).len(), sv_n96_cap(*old(v)), 1),
{
    v.inner.push(value)
}

/// `append`: all items of `other` moved to the end of `v`, after reserving
/// room for them, leaving `other` empty with its capacity.
#[verifier::external_body]
pub(crate) fn small_vec_n96_append(v: &mut SmallVecNumbers96, other: &mut SmallVecNumbers96)
    requires
        old(v).wf(),
        old(other).wf(),
        !growth_overflows(sv_n96_items(*old(v)).len(), sv_n96_cap(*old(v)), sv_n96_items(*old(other)).len(), vstd::layout::size_of::<usize>()),
    ensures
        final(v).wf(),
        final(other).wf(),
        sv_n96_items(*final(v)) == sv_n96_items(*old(v)) + sv_n96_items(*old(other)),
        sv_n96_cap(*final(v)) == grown(sv_n96_items(*old(v)).len(), sv_n96_cap(*old(v)), sv_n96_items(*old(other)).len()),
        sv_n96_items(*final(other)) == Seq::<usize>::empty(),
        sv_n96_cap(*final(other)) == sv_n96_cap(*old(other)),
{
    v.inner.append(&mut other.inner)
}

/// `len`: the number of items.
#[verifier::external_body]
pub(crate) fn small_vec_n96_len(v: &SmallVecNumbers96) -> (r: usize)
    ensures
        r == sv_n96_items(*v).len(),
{
    v.inner.len()
}

/// `capacity`: the recorded capacity.
#[verifier::external_body]
pub(crate) fn small_vec_n96_capacity(v: &SmallVecNumbers96) -> (r: usize)
    ensures
        r == sv_n96_cap(*v),
{
    v.inner.capacity()
}

/// `is_empty`: whether there are no items.
#[verifier::external_body]
pub(crate) fn small_vec_n96_is_empty(v: &SmallVecNumbers96) -> (r: bool)
    ensures
        r == (sv_n96_items(*v).len() == 0),
{
    v.inner.is_empty()
}

/// `IndexMut<usize>`: the item at `index`, read through a mutable reference;
/// it panics when `index >= len`.
#[verifier::external_body]
pub(crate) fn small_vec_n96_index_mut(v: &mut SmallVecNumbers96, index: usize) -> (r: usize)
    requires
        old(v).wf(),
        index < sv_n96_items(*old(v)).len(),
    ensures
        r == sv_n96_items(*old(v))[index as int],
        sv_n96_items(*final(v)) == sv_n96_items(*old(v)),
        sv_n96_cap(*final(v)) == sv_n96_cap(*old(v)),
{
    *std::ops::IndexMut::index_mut(&mut v.inner, index)
}

} // verus!

//! `SmallVec<[usize; 1024]>` of the outside crate, behind trusted wrappers:
//! a vector of number-carrying elements, held as their numbers.
//!
//! The outside type is held in a private field: Verus sees a value of it only
//! through two names, the items it holds and the capacity it records. Each
//! wrapper states, over those names, what the crate's source does.
use vstd::prelude::*;
use crate::small_vec::{dedup_seq, exact_growth_overflows, exact_grown, growth_overflows, grown, lex_order, repeat, Order};
use crate::script::usize_at;
use crate::numbered::{is_even_usize, same_usize, usize_ints};

verus! {

/// A small vector of `usize` with room for 1024 items inline.
#[verifier::external_body]
pub struct SmallVecNumbers1024 {
    inner: smallvec::SmallVec<[usize; 1024]>,
}

/// The items a `SmallVec<[usize; 1024]>` holds, in order.
pub uninterp spec fn sv_n1024_items(v: SmallVecNumbers1024) -> Seq<usize>;

/// The capacity a `SmallVec<[usize; 1024]>` records (1024 while it is inline).
pub uninterp spec fn sv_n1024_cap(v: SmallVecNumbers1024) -> nat;

impl View for SmallVecNumbers1024 {
    type V = Seq<usize>;

    open spec fn view(&self) -> Seq<usize> {
        sv_n1024_items(*self)
    }
}

impl SmallVecNumbers1024 {
    /// The capacity that `capacity()` reports.
    pub open spec fn cap(self) -> nat {
        sv_n1024_cap(self)
    }

    /// What every vector of this type satisfies: it holds at most its
    /// capacity, is never smaller than its inline size, and a heap buffer
    /// never exceeds `isize::MAX` bytes.
    pub open spec fn wf(self) -> bool {
        &&& self@.len() <= self.cap()
        &&& self.cap() >= 1024
        &&& self.cap() * vstd::layout::size_of::<usize>() <= isize::MAX || self.cap() == 1024
    }
}

/// `SmallVec::new`: empty and inline.
#[verifier::external_body]
pub(crate) fn small_vec_n1024_new() -> (r: SmallVecNumbers1024)
    ensures
        r.wf(),
        sv_n1024_items(r) == Seq::<usize>::empty(),
        sv_n1024_cap(r) == 1024,
{
    SmallVecNumbers1024 { inner: smallvec::SmallVec::new() }
}

/// `push`: `value` appended; a full vector first grows by amortised doubling,
/// whose size computation must not overflow.
#[verifier::external_body]
pub(crate) fn small_vec_n1024_push(v: &mut SmallVecNumbers1024, value: usize)
    requires
        old(v).wf(),
        !growth_overflows(sv_n1024_items(*old(v)).len(), sv_n1024_cap(*old(v)), 1, vstd::layout::size_of::<usize>()),
    ensures
        final(v).wf(),
        sv_n1024_items(*final(v)) == sv_n1024_items(*old(v)).push(value),
        sv_n1024_cap(*final(v)) == grown(sv_n1024_items(*old(v)).len(), sv_n1024_cap(*old(v)), 1),
{
    v.inner.push(value)
}

/// `SmallVec::from_slice`: a copy of `slice`; inline when it has at most 1024
/// items, else in a heap buffer whose capacity nothing here states.
#[verifier::external_body]
pub(crate) fn small_vec_n1024_from_slice(slice: &[usize]) -> (r: SmallVecNumbers1024)
    ensures
        r.wf(),
        sv_n1024_items(r) == slice@,
        slice@.len() <= 1024 ==> sv_n1024_cap(r) == 1024,
{
    SmallVecNumbers1024 { inner: smallvec::SmallVec::from_slice(slice) }
}

/// `drain` of `start..end`, run to its end: the removed items, in order; the
/// items after the range close the gap. It panics unless
/// `start <= end <= len`.
#[verifier::external_body]
pub(crate) fn small_vec_n1024_drain(v: &mut SmallVecNumbers1024, start: usize, end: usize) -> (r: Vec<usize>)
    requires
        old(v).wf(),
        start <= end <= sv_n1024_items(*old(v)).len(),
    ensures
        final(v).wf(),
        r@ == sv_n1024_items(*old(v)).subrange(start as int, end as int),
        sv_n1024_items(*final(v)) == sv_n1024_items(*old(v)).take(start as int) + sv_n1024_items(*old(v)).skip(end as int),
        sv_n1024_cap(*final(v)) == sv_n1024_cap(*old(v)),
{
    v.inner.drain(start..end).collect()
}

/// `into_boxed_slice`: the items, as a boxed slice.
#[verifier::external_body]
pub(crate) fn small_vec_n1024_into_boxed_slice(v: SmallVecNumbers1024) -> (r: Box<[usize]>)
    ensures
        r@ == sv_n1024_items(v),
{
    v.inner.into_boxed_slice()
}

/// `len`: the number of items.
#[verifier::external_body]
pub(crate) fn small_vec_n1024_len(v: &SmallVecNumbers1024) -> (r: usize)
    ensures
        r == sv_n1024_items(*v).len(),
{
    v.inner.len()
}

/// `capacity`: the recorded capacity.
#[verifier::external_body]
pub(crate) fn small_vec_n1024_capacity(v: &SmallVecNumbers1024) -> (r: usize)
    ensures
        r == sv_n1024_cap(*v),
{
    v.inner.capacity()
}

/// `is_empty`: whether there are no items.
#[verifier::external_body]
pub(crate) fn small_vec_n1024_is_empty(v: &SmallVecNumbers1024) -> (r: bool)
    ensures
        r == (sv_n1024_items(*v).len() == 0),
{
    v.inner.is_empty()
}

/// `IndexMut<usize>`: the item at `index`, read through a mutable reference;
/// it panics when `index >= len`.
#[verifier::external_body]
pub(crate) fn small_vec_n1024_index_mut(v: &mut SmallVecNumbers1024, index: usize) -> (r: usize)
    requires
        old(v).wf(),
        index < sv_n1024_items(*old(v)).len(),
    ensures
        r == sv_n1024_items(*old(v))[index as int],
        sv_n1024_items(*final(v)) == sv_n1024_items(*old(v)),
        sv_n1024_cap(*final(v)) == sv_n1024_cap(*old(v)),
{
    *std::ops::IndexMut::index_mut(&mut v.inner, index)
}

} // verus!

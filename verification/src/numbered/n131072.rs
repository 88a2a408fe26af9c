//! `SmallVec<[usize; 131072]>` of the outside crate, behind trusted wrappers:
//! a vector of number-carrying elements, held as their numbers.
//!
//! The outside type is held in a private field: Verus sees a value of it only
//! through two names, the items it holds and the capacity it records. Each
//! wrapper states, over those names, what the crate's source does.
use vstd::prelude::*;
use crate::small_vec::{dedup_seq, exact_growth_overflows, exact_grown, growth_overflows, grown, lex_order, repeat, Order};
use crate::script::usize_at;
use crate::numbered::{is_even_usize, same_usize, usize_ints};

verus! {

/// A small vector of `usize` with room for 131072 items inline.
#[verifier::external_body]
pub struct SmallVecNumbers131072 {
    inner: smallvec::SmallVec<[usize; 131072]>,
}

/// The items a `SmallVec<[usize; 131072]>` holds, in order.
pub uninterp spec fn sv_n131072_items(v: SmallVecNumbers131072) -> Seq<usize>;

/// The capacity a `SmallVec<[usize; 131072]>` records (131072 while it is inline).
pub uninterp spec fn sv_n131072_cap(v: SmallVecNumbers131072) -> nat;

impl View for SmallVecNumbers131072 {
    type V = Seq<usize>;

    open spec fn view(&self) -> Seq<usize> {
        sv_n131072_items(*self)
    }
}

impl SmallVecNumbers131072 {
    /// The capacity that `capacity()` reports.
    pub open spec fn cap(self) -> nat {
        sv_n131072_cap(self)
    }

    /// What every vector of this type satisfies: it holds at most its
    /// capacity, is never smaller than its inline size, and a heap buffer
    /// never exceeds `isize::MAX` bytes.
    pub open spec fn wf(self) -> bool {
        &&& self@.len() <= self.cap()
        &&& self.cap() >= 131072
        &&& self.cap() * vstd::layout::size_of::<usize>() <= isize::MAX || self.cap() == 131072
    }
}

/// `SmallVec::new`: empty and inline.
#[verifier::external_body]
pub(crate) fn small_vec_n131072_new() -> (r: SmallVecNumbers131072)
    ensures
        r.wf(),
        sv_n131072_items(r) == Seq::<usize>::empty(),
        sv_n131072_cap(r) == 131072,
{
    SmallVecNumbers131072 { inner: smallvec::SmallVec::new() }
}

/// `push`: `value` appended; a full vector first grows by amortised doubling,
/// whose size computation must not overflow.
#[verifier::external_body]
pub(crate) fn small_vec_n131072_push(v: &mut SmallVecNumbers131072, value: usize)
    requires
        old(v).wf(),
        !growth_overflows(sv_n131072_items(*old(v)).len(), sv_n131072_cap(*old(v)), 1, vstd::layout::size_of::<usize>()),
    ensures
        final(v).wf(),
        sv_n131072_items(*final(v)) == sv_n131072_items(*old(v)).push(value),
        sv_n131072_cap(*final(v)) == grown(sv_n131072_items(*old(v)).len(), sv_n131072_cap(*old(v)), 1),
{
    v.inner.push(value)
}

/// `retain` with the even test: the even items kept, in order; the capacity
/// stays.
#[verifier::external_body]
pub(crate) fn small_vec_n131072_retain_even(v: &mut SmallVecNumbers131072)
    requires
        old(v).wf(),
    ensures
        final(v).wf(),
        sv_n131072_items(*final(v)) == sv_n131072_items(*old(v)).filter(|x: usize| x % 2 == 0),
        sv_n131072_cap(*final(v)) == sv_n131072_cap(*old(v)),
{
    v.inner.retain(|x: &mut usize| is_even_usize(*x))
}

/// `len`: the number of items.
#[verifier::external_body]
pub(crate) fn small_vec_n131072_len(v: &SmallVecNumbers131072) -> (r: usize)
    ensures
        r == sv_n131072_items(*v).len(),
{
    v.inner.len()
}

/// `capacity`: the recorded capacity.
#[verifier::external_body]
pub(crate) fn small_vec_n131072_capacity(v: &SmallVecNumbers131072) -> (r: usize)
    ensures
        r == sv_n131072_cap(*v),
{
    v.inner.capacity()
}

/// `is_empty`: whether there are no items.
#[verifier::external_body]
pub(crate) fn small_vec_n131072_is_empty(v: &SmallVecNumbers131072) -> (r: bool)
    ensures
        r == (sv_n131072_items(*v).len() == 0),
{
    v.inner.is_empty()
}

/// `IndexMut<usize>`: the item at `index`, read through a mutable reference;
/// it panics when `index >= len`.
#[verifier::external_body]
pub(crate) fn small_vec_n131072_index_mut(v: &mut SmallVecNumbers131072, index: usize) -> (r: usize)
    requires
        old(v).wf(),
        index < sv_n131072_items(*old(v)).len(),
    ensures
        r == sv_n131072_items(*old(v))[index as int],
        sv_n131072_items(*final(v)) == sv_n131072_items(*old(v)),
        sv_n131072_cap(*final(v)) == sv_n131072_cap(*old(v)),
{
    *std::ops::IndexMut::index_mut(&mut v.inner, index)
}

} // verus!

//! `SmallVec<[usize; 1048576]>` of the outside crate, behind trusted wrappers:
//! a vector of number-carrying elements, held as their numbers.
//!
//! The outside type is held in a private field: Verus sees a value of it only
//! through two names, the items it holds and the capacity it records. Each
//! wrapper states, over those names, what the crate's source does.
use vstd::prelude::*;
use crate::small_vec::{dedup_seq, exact_growth_overflows, exact_grown, growth_overflows, grown, lex_order, repeat, Order};
use crate::script::usize_at;
use crate::numbered::{is_even_usize, same_usize, usize_ints};

verus! {

/// A small vector of `usize` with room for 1048576 items inline.
#[verifier::external_body]
pub struct SmallVecNumbers1048576 {
    inner: smallvec::SmallVec<[usize; 1048576]>,
}

/// The items a `SmallVec<[usize; 1048576]>` holds, in order.
pub uninterp spec fn sv_n1048576_items(v: SmallVecNumbers1048576) -> Seq<usize>;

/// The capacity a `SmallVec<[usize; 1048576]>` records (1048576 while it is inline).
pub uninterp spec fn sv_n1048576_cap(v: SmallVecNumbers1048576) -> nat;

impl View for SmallVecNumbers1048576 {
    type V = Seq<usize>;

    open spec fn view(&self) -> Seq<usize> {
        sv_n1048576_items(*self)
    }
}

impl SmallVecNumbers1048576 {
    /// The capacity that `capacity()` reports.
    pub open spec fn cap(self) -> nat {
        sv_n1048576_cap(self)
    }

    /// What every vector of this type satisfies: it holds at most its
    /// capacity, is never smaller than its inline size, and a heap buffer
    /// never exceeds `isize::MAX` bytes.
    pub open spec fn wf(self) -> bool {
        &&& self@.len() <= self.cap()
        &&& self.cap() >= 1048576
        &&& self.cap() * vstd::layout::size_of::<usize>() <= isize::MAX || self.cap() == 1048576
    }
}

/// `SmallVec::new`: empty and inline.
#[verifier::external_body]
pub(crate) fn small_vec_n1048576_new() -> (r: SmallVecNumbers1048576)
    ensures
        r.wf(),
        sv_n1048576_items(r) == Seq::<usize>::empty(),
        sv_n1048576_cap(r) == 1048576,
{
    SmallVecNumbers1048576 { inner: smallvec::SmallVec::new() }
}

/// `push`: `value` appended; a full vector first grows by amortised doubling,
/// whose size computation must not overflow.
#[verifier::external_body]
pub(crate) fn small_vec_n1048576_push(v: &mut SmallVecNumbers1048576, value: usize)
    requires
        old(v).wf(),
        !growth_overflows(sv_n1048576_items(*old(v)).len(), sv_n1048576_cap(*old(v)), 1, vstd::layout::size_of::<usize>()),
    ensures
        final(v).wf(),
        sv_n1048576_items(*final(v)) == sv_n1048576_items(*old(v)).push(value),
        sv_n1048576_cap(*final(v)) == grown(sv_n1048576_items(*old(v)).len(), sv_n1048576_cap(*old(v)), 1),
{
    v.inner.push(value)
}

/// `as_ptr`: the address of the buffer, as an integer (nothing is stated of
/// it).
#[verifier::external_body]
pub(crate) fn small_vec_n1048576_as_ptr(v: &SmallVecNumbers1048576) -> (r: usize)
{
    v.inner.as_ptr() as usize
}

/// `as_mut_ptr`: the address of the buffer, as an integer (nothing is stated
/// of it); the vector is left as it was.
#[verifier::external_body]
pub(crate) fn small_vec_n1048576_as_mut_ptr(v: &mut SmallVecNumbers1048576) -> (r: usize)
    ensures
        sv_n1048576_items(*final(v)) == sv_n1048576_items(*old(v)),
        sv_n1048576_cap(*final(v)) == sv_n1048576_cap(*old(v)),
{
    v.inner.as_mut_ptr() as usize
}

/// `len`: the number of items.
#[verifier::external_body]
pub(crate) fn small_vec_n1048576_len(v: &SmallVecNumbers1048576) -> (r: usize)
    ensures
        r == sv_n1048576_items(*v).len(),
{
    v.inner.len()
}

/// `capacity`: the recorded capacity.
#[verifier::external_body]
pub(crate) fn small_vec_n1048576_capacity(v: &SmallVecNumbers1048576) -> (r: usize)
    ensures
        r == sv_n1048576_cap(*v),
{
    v.inner.capacity()
}

/// `is_empty`: whether there are no items.
#[verifier::external_body]
pub(crate) fn small_vec_n1048576_is_empty(v: &SmallVecNumbers1048576) -> (r: bool)
    ensures
        r == (sv_n1048576_items(*v).len() == 0),
{
    v.inner.is_empty()
}

/// `IndexMut<usize>`: the item at `index`, read through a mutable reference;
/// it panics when `index >= len`.
#[verifier::external_body]
pub(crate) fn small_vec_n1048576_index_mut(v: &mut SmallVecNumbers1048576, index: usize) -> (r: usize)
    requires
        old(v).wf(),
        index < sv_n1048576_items(*old(v)).len(),
    ensures
        r == sv_n1048576_items(*old(v))[index as int],
        sv_n1048576_items(*final(v)) == sv_n1048576_items(*old(v)),
        sv_n1048576_cap(*final(v)) == sv_n1048576_cap(*old(v)),
{
    *std::ops::IndexMut::index_mut(&mut v.inner, index)
}

} // verus!

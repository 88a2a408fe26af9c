//! `SmallVec<[usize; 32768]>` of the outside crate, behind trusted wrappers:
//! a vector of number-carrying elements, held as their numbers.
//!
//! The outside type is held in a private field: Verus sees a value of it only
//! through two names, the items it holds and the capacity it records. Each
//! wrapper states, over those names, what the crate's source does.
use vstd::prelude::*;
use crate::small_vec::{dedup_seq, exact_growth_overflows, exact_grown, growth_overflows, grown, lex_order, repeat, Order};
use crate::script::usize_at;
use crate::numbered::{is_even_usize, same_usize, usize_ints};

verus! {

/// A small vector of `usize` with room for 32768 items inline.
#[verifier::external_body]
pub struct SmallVecNumbers32768 {
    inner: smallvec::SmallVec<[usize; 32768]>,
}

/// The items a `SmallVec<[usize; 32768]>` holds, in order.
pub uninterp spec fn sv_n32768_items(v: SmallVecNumbers32768) -> Seq<usize>;

/// The capacity a `SmallVec<[usize; 32768]>` records (32768 while it is inline).
pub uninterp spec fn sv_n32768_cap(v: SmallVecNumbers32768) -> nat;

impl View for SmallVecNumbers32768 {
    type V = Seq<usize>;

    open spec fn view(&self) -> Seq<usize> {
        sv_n32768_items(*self)
    }
}

impl SmallVecNumbers32768 {
    /// The capacity that `capacity()` reports.
    pub open spec fn cap(self) -> nat {
        sv_n32768_cap(self)
    }

    /// What every vector of this type satisfies: it holds at most its
    /// capacity, is never smaller than its inline size, and a heap buffer
    /// never exceeds `isize::MAX` bytes.
    pub open spec fn wf(self) -> bool {
        &&& self@.len() <= self.cap()
        &&& self.cap() >= 32768
        &&& self.cap() * vstd::layout::size_of::<usize>() <= isize::MAX || self.cap() == 32768
    }
}

/// `FromIterator` over the items of `vec`: an empty vector extended by them,
/// reserving room for all of them first.
#[verifier::external_body]
pub(crate) fn small_vec_n32768_from_iter(vec: Vec<usize>) -> (r: SmallVecNumbers32768)
    requires
        !growth_overflows(0, 32768, vec@.len(), vstd::layout::size_of::<usize>()),
    ensures
        r.wf(),
        sv_n32768_items(r) == vec@,
        sv_n32768_cap(r) == grown(0, 32768, vec@.len()),
{
    SmallVecNumbers32768 { inner: <smallvec::SmallVec<[usize; 32768]> as std::iter::FromIterator<usize>>::from_iter(vec.into_iter()) }
}

/// `spilled`: whether the items live in a heap buffer, that is, whether the
/// capacity exceeds the inline size.
#[verifier::external_body]
pub(crate) fn small_vec_n32768_spilled(v: &SmallVecNumbers32768) -> (r: bool)
    ensures
        r == (sv_n32768_cap(*v) > 32768),
{
    v.inner.spilled()
}

/// `into_vec`: the items, as a `Vec`.
#[verifier::external_body]
pub(crate) fn small_vec_n32768_into_vec(v: SmallVecNumbers32768) -> (r: Vec<usize>)
    ensures
        r@ == sv_n32768_items(v),
{
    v.inner.into_vec()
}

/// `len`: the number of items.
#[verifier::external_body]
pub(crate) fn small_vec_n32768_len(v: &SmallVecNumbers32768) -> (r: usize)
    ensures
        r == sv_n32768_items(*v).len(),
{
    v.inner.len()
}

/// `capacity`: the recorded capacity.
#[verifier::external_body]
pub(crate) fn small_vec_n32768_capacity(v: &SmallVecNumbers32768) -> (r: usize)
    ensures
        r == sv_n32768_cap(*v),
{
    v.inner.capacity()
}

/// `is_empty`: whether there are no items.
#[verifier::external_body]
pub(crate) fn small_vec_n32768_is_empty(v: &SmallVecNumbers32768) -> (r: bool)
    ensures
        r == (sv_n32768_items(*v).len() == 0),
{
    v.inner.is_empty()
}

/// `IndexMut<usize>`: the item at `index`, read through a mutable reference;
/// it panics when `index >= len`.
#[verifier::external_body]
pub(crate) fn small_vec_n32768_index_mut(v: &mut SmallVecNumbers32768, index: usize) -> (r: usize)
    requires
        old(v).wf(),
        index < sv_n32768_items(*old(v)).len(),
    ensures
        r == sv_n32768_items(*old(v))[index as int],
        sv_n32768_items(*final(v)) == sv_n32768_items(*old(v)),
        sv_n32768_cap(*final(v)) == sv_n32768_cap(*old(v)),
{
    *std::ops::IndexMut::index_mut(&mut v.inner, index)
}

} // verus!

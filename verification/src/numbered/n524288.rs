//! `SmallVec<[usize; 524288]>` of the outside crate, behind trusted wrappers:
//! a vector of number-carrying elements, held as their numbers.
//!
//! The outside type is held in a private field: Verus sees a value of it only
//! through two names, the items it holds and the capacity it records. Each
//! wrapper states, over those names, what the crate's source does.
use vstd::prelude::*;
use crate::small_vec::{dedup_seq, exact_growth_overflows, exact_grown, growth_overflows, grown, lex_order, repeat, Order};
use crate::script::usize_at;
use crate::numbered::{is_even_usize, same_usize, usize_ints};

verus! {

/// A small vector of `usize` with room for 524288 items inline.
#[verifier::external_body]
pub struct SmallVecNumbers524288 {
    inner: smallvec::SmallVec<[usize; 524288]>,
}

/// The items a `SmallVec<[usize; 524288]>` holds, in order.
pub uninterp spec fn sv_n524288_items(v: SmallVecNumbers524288) -> Seq<usize>;

/// The capacity a `SmallVec<[usize; 524288]>` records (524288 while it is inline).
pub uninterp spec fn sv_n524288_cap(v: SmallVecNumbers524288) -> nat;

impl View for SmallVecNumbers524288 {
    type V = Seq<usize>;

    open spec fn view(&self) -> Seq<usize> {
        sv_n524288_items(*self)
    }
}

impl SmallVecNumbers524288 {
    /// The capacity that `capacity()` reports.
    pub open spec fn cap(self) -> nat {
        sv_n524288_cap(self)
    }

    /// What every vector of this type satisfies: it holds at most its
    /// capacity, is never smaller than its inline size, and a heap buffer
    /// never exceeds `isize::MAX` bytes.
    pub open spec fn wf(self) -> bool {
        &&& self@.len() <= self.cap()
        &&& self.cap() >= 524288
        &&& self.cap() * vstd::layout::size_of::<usize>() <= isize::MAX || self.cap() == 524288
    }
}

/// `SmallVec::new`: empty and inline.
#[verifier::external_body]
pub(crate) fn small_vec_n524288_new() -> (r: SmallVecNumbers524288)
    ensures
        r.wf(),
        sv_n524288_items(r) == Seq::<usize>::empty(),
        sv_n524288_cap(r) == 524288,
{
    SmallVecNumbers524288 { inner: smallvec::SmallVec::new() }
}

/// `insert_many` with the items of `vec`: placed at `index`, later items
/// shifted right, after reserving room for all of them; it panics when
/// `index > len`.
#[verifier::external_body]
pub(crate) fn small_vec_n524288_insert_many(v: &mut SmallVecNumbers524288, index: usize, vec: Vec<usize>)
    requires
        old(v).wf(),
        index <= sv_n524288_items(*old(v)).len(),
        !growth_overflows(sv_n524288_items(*old(v)).len(), sv_n524288_cap(*old(v)), vec@.len(), vstd::layout::size_of::<usize>()),
    ensures
        final(v).wf(),
        sv_n524288_items(*final(v)) == sv_n524288_items(*old(v)).take(index as int) + vec@ + sv_n524288_items(*old(v)).skip(index as int),
        sv_n524288_cap(*final(v)) == grown(sv_n524288_items(*old(v)).len(), sv_n524288_cap(*old(v)), vec@.len()),
{
    v.inner.insert_many(index, vec)
}

/// `len`: the number of items.
#[verifier::external_body]
pub(crate) fn small_vec_n524288_len(v: &SmallVecNumbers524288) -> (r: usize)
    ensures
        r == sv_n524288_items(*v).len(),
{
    v.inner.len()
}

/// `capacity`: the recorded capacity.
#[verifier::external_body]
pub(crate) fn small_vec_n524288_capacity(v: &SmallVecNumbers524288) -> (r: usize)
    ensures
        r == sv_n524288_cap(*v),
{
    v.inner.capacity()
}

/// `is_empty`: whether there are no items.
#[verifier::external_body]
pub(crate) fn small_vec_n524288_is_empty(v: &SmallVecNumbers524288) -> (r: bool)
    ensures
        r == (sv_n524288_items(*v).len() == 0),
{
    v.inner.is_empty()
}

/// `IndexMut<usize>`: the item at `index`, read through a mutable reference;
/// it panics when `index >= len`.
#[verifier::external_body]
pub(crate) fn small_vec_n524288_index_mut(v: &mut SmallVecNumbers524288, index: usize) -> (r: usize)
    requires
        old(v).wf(),
        index < sv_n524288_items(*old(v)).len(),
    ensures
        r == sv_n524288_items(*old(v))[index as int],
        sv_n524288_items(*final(v)) == sv_n524288_items(*old(v)),
        sv_n524288_cap(*final(v)) == sv_n524288_cap(*old(v)),
{
    *std::ops::IndexMut::index_mut(&mut v.inner, index)
}

} // verus!

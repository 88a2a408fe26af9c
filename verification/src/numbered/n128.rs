//! `SmallVec<[usize; 128]>` of the outside crate, behind trusted wrappers:
//! a vector of number-carrying elements, held as their numbers.
//!
//! The outside type is held in a private field: Verus sees a value of it only
//! through two names, the items it holds and the capacity it records. Each
//! wrapper states, over those names, what the crate's source does.
use vstd::prelude::*;
use crate::small_vec::{dedup_seq, exact_growth_overflows, exact_grown, growth_overflows, grown, lex_order, repeat, Order};
use crate::script::usize_at;
use crate::numbered::{is_even_usize, same_usize, usize_ints};

verus! {

/// A small vector of `usize` with room for 128 items inline.
#[verifier::external_body]
pub struct SmallVecNumbers128 {
    inner: smallvec::SmallVec<[usize; 128]>,
}

/// The items a `SmallVec<[usize; 128]>` holds, in order.
pub uninterp spec fn sv_n128_items(v: SmallVecNumbers128) -> Seq<usize>;

/// The capacity a `SmallVec<[usize; 128]>` records (128 while it is inline).
pub uninterp spec fn sv_n128_cap(v: SmallVecNumbers128) -> nat;

impl View for SmallVecNumbers128 {
    type V = Seq<usize>;

    open spec fn view(&self) -> Seq<usize> {
        sv_n128_items(*self)
    }
}

impl SmallVecNumbers128 {
    /// The capacity that `capacity()` reports.
    pub open spec fn cap(self) -> nat {
        sv_n128_cap(self)
    }

    /// What every vector of this type satisfies: it holds at most its
    /// capacity, is never smaller than its inline size, and a heap buffer
    /// never exceeds `isize::MAX` bytes.
    pub open spec fn wf(self) -> bool {
        &&& self@.len() <= self.cap()
        &&& self.cap() >= 128
        &&& self.cap() * vstd::layout::size_of::<usize>() <= isize::MAX || self.cap() == 128
    }
}

/// `SmallVec::new`: empty and inline.
#[verifier::external_body]
pub(crate) fn small_vec_n128_new() -> (r: SmallVecNumbers128)
    ensures
        r.wf(),
        sv_n128_items(r) == Seq::<usize>::empty(),
        sv_n128_cap(r) == 128,
{
    SmallVecNumbers128 { inner: smallvec::SmallVec::new() }
}

/// `push`: `value` appended; a full vector first grows by amortised doubling,
/// whose size computation must not overflow.
#[verifier::external_body]
pub(crate) fn small_vec_n128_push(v: &mut SmallVecNumbers128, value: usize)
    requires
        old(v).wf(),
        !growth_overflows(sv_n128_items(*old(v)).len(), sv_n128_cap(*old(v)), 1, vstd::layout::size_of::<usize>()),
    ensures
        final(v).wf(),
        sv_n128_items(*final(v)) == sv_n128_items(*old(v)).push(value),
        sv_n128_cap(*final(v)) == grown(sv_n128_items(*old(v)).len(), sv_n128_cap(*old(v)), 1),
{
    v.inner.push(value)
}

/// `shrink_to_fit`: a heap vector moves back inline when its items fit there,
/// else its buffer shrinks to its length.
#[verifier::external_body]
pub(crate) fn small_vec_n128_shrink_to_fit(v: &mut SmallVecNumbers128)
    requires
        old(v).wf(),
    ensures
        final(v).wf(),
        sv_n128_items(*final(v)) == sv_n128_items(*old(v)),
        sv_n128_cap(*final(v)) == if sv_n128_cap(*old(v)) == 128 || sv_n128_items(*old(v)).len() <= 128 { 128 } else { sv_n128_items(*old(v)).len() },
{
    v.inner.shrink_to_fit()
}

/// `clear`: no items left; the capacity stays.
#[verifier::external_body]
pub(crate) fn small_vec_n128_clear(v: &mut SmallVecNumbers128)
    requires
        old(v).wf(),
    ensures
        final(v).wf(),
        sv_n128_items(*final(v)) == Seq::<usize>::empty(),
        sv_n128_cap(*final(v)) == sv_n128_cap(*old(v)),
{
    v.inner.clear()
}

/// `len`: the number of items.
#[verifier::external_body]
pub(crate) fn small_vec_n128_len(v: &SmallVecNumbers128) -> (r: usize)
    ensures
        r == sv_n128_items(*v).len(),
{
    v.inner.len()
}

/// `capacity`: the recorded capacity.
#[verifier::external_body]
pub(crate) fn small_vec_n128_capacity(v: &SmallVecNumbers128) -> (r: usize)
    ensures
        r == sv_n128_cap(*v),
{
    v.inner.capacity()
}

/// `is_empty`: whether there are no items.
#[verifier::external_body]
pub(crate) fn small_vec_n128_is_empty(v: &SmallVecNumbers128) -> (r: bool)
    ensures
        r == (sv_n128_items(*v).len() == 0),
{
    v.inner.is_empty()
}

/// `IndexMut<usize>`: the item at `index`, read through a mutable reference;
/// it panics when `index >= len`.
#[verifier::external_body]
pub(crate) fn small_vec_n128_index_mut(v: &mut SmallVecNumbers128, index: usize) -> (r: usize)
    requires
        old(v).wf(),
        index < sv_n128_items(*old(v)).len(),
    ensures
        r == sv_n128_items(*old(v))[index as int],
        sv_n128_items(*final(v)) == sv_n128_items(*old(v)),
        sv_n128_cap(*final(v)) == sv_n128_cap(*old(v)),
{
    *std::ops::IndexMut::index_mut(&mut v.inner, index)
}

/// `SmallVec::from_elem`: `n` copies of `elem`; inline when `n <= 128`, else
/// through `vec![elem; n]`, whose size computation must not overflow.
#[verifier::external_body]
pub(crate) fn small_vec_n128_from_elem(elem: usize, n: usize) -> (r: SmallVecNumbers128)
    requires
        n <= 128 || n * vstd::layout::size_of::<usize>() <= isize::MAX,
    ensures
        r.wf(),
        sv_n128_items(r) == repeat(elem, n as nat),
        n <= 128 ==> sv_n128_cap(r) == 128,
{
    SmallVecNumbers128 { inner: smallvec::SmallVec::from_elem(elem, n) }
}

/// `SmallVec::from_slice`: a copy of `slice`; inline when it has at most 128
/// items, else in a heap buffer whose capacity nothing here states.
#[verifier::external_body]
pub(crate) fn small_vec_n128_from_slice(slice: &[usize]) -> (r: SmallVecNumbers128)
    ensures
        r.wf(),
        sv_n128_items(r) == slice@,
        slice@.len() <= 128 ==> sv_n128_cap(r) == 128,
{
    SmallVecNumbers128 { inner: smallvec::SmallVec::from_slice(slice) }
}

/// `as_slice`: the items.
#[verifier::external_body]
pub(crate) fn small_vec_n128_as_slice(v: &SmallVecNumbers128) -> (r: &[usize])
    ensures
        r@ == sv_n128_items(*v),
{
    v.inner.as_slice()
}

/// `into_vec`: the items, as a `Vec`.
#[verifier::external_body]
pub(crate) fn small_vec_n128_into_vec(v: SmallVecNumbers128) -> (r: Vec<usize>)
    ensures
        r@ == sv_n128_items(v),
{
    v.inner.into_vec()
}

/// `SmallVec::from_vec`: the items of `vec`; inline when the vector's own
/// capacity is at most 128, else taking over its buffer, whose capacity
/// nothing here states.
#[verifier::external_body]
pub(crate) fn small_vec_n128_from_vec(vec: Vec<usize>) -> (r: SmallVecNumbers128)
    ensures
        r.wf(),
        sv_n128_items(r) == vec@,
{
    SmallVecNumbers128 { inner: smallvec::SmallVec::from_vec(vec) }
}

} // verus!

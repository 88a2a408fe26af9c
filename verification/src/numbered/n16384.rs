//! `SmallVec<[usize; 16384]>` of the outside crate, behind trusted wrappers:
//! a vector of number-carrying elements, held as their numbers.
//!
//! The outside type is held in a private field: Verus sees a value of it only
//! through two names, the items it holds and the capacity it records. Each
//! wrapper states, over those names, what the crate's source does.
use vstd::prelude::*;
use crate::small_vec::{dedup_seq, exact_growth_overflows, exact_grown, growth_overflows, grown, lex_order, repeat, Order};
use crate::script::usize_at;
use crate::numbered::{is_even_usize, same_usize, usize_ints};

verus! {

/// A small vector of `usize` with room for 16384 items inline.
#[verifier::external_body]
pub struct SmallVecNumbers16384 {
    inner: smallvec::SmallVec<[usize; 16384]>,
}

/// The items a `SmallVec<[usize; 16384]>` holds, in order.
pub uninterp spec fn sv_n16384_items(v: SmallVecNumbers16384) -> Seq<usize>;

/// The capacity a `SmallVec<[usize; 16384]>` records (16384 while it is inline).
pub uninterp spec fn sv_n16384_cap(v: SmallVecNumbers16384) -> nat;

impl View for SmallVecNumbers16384 {
    type V = Seq<usize>;

    open spec fn view(&self) -> Seq<usize> {
        sv_n16384_items(*self)
    }
}

impl SmallVecNumbers16384 {
    /// The capacity that `capacity()` reports.
    pub open spec fn cap(self) -> nat {
        sv_n16384_cap(self)
    }

    /// What every vector of this type satisfies: it holds at most its
    /// capacity, is never smaller than its inline size, and a heap buffer
    /// never exceeds `isize::MAX` bytes.
    pub open spec fn wf(self) -> bool {
        &&& self@.len() <= self.cap()
        &&& self.cap() >= 16384
        &&& self.cap() * vstd::layout::size_of::<usize>() <= isize::MAX || self.cap() == 16384
    }
}

/// `SmallVec::new`: empty and inline.
#[verifier::external_body]
pub(crate) fn small_vec_n16384_new() -> (r: SmallVecNumbers16384)
    ensures
        r.wf(),
        sv_n16384_items(r) == Seq::<usize>::empty(),
        sv_n16384_cap(r) == 16384,
{
    SmallVecNumbers16384 { inner: smallvec::SmallVec::new() }
}

/// `push`: `value` appended; a full vector first grows by amortised doubling,
/// whose size computation must not overflow.
#[verifier::external_body]
pub(crate) fn small_vec_n16384_push(v: &mut SmallVecNumbers16384, value: usize)
    requires
        old(v).wf(),
        !growth_overflows(sv_n16384_items(*old(v)).len(), sv_n16384_cap(*old(v)), 1, vstd::layout::size_of::<usize>()),
    ensures
        final(v).wf(),
        sv_n16384_items(*final(v)) == sv_n16384_items(*old(v)).push(value),
        sv_n16384_cap(*final(v)) == grown(sv_n16384_items(*old(v)).len(), sv_n16384_cap(*old(v)), 1),
{
    v.inner.push(value)
}

/// `FromIterator` over the items of `vec`: an empty vector extended by them,
/// reserving room for all of them first.
#[verifier::external_body]
pub(crate) fn small_vec_n16384_from_iter(vec: Vec<usize>) -> (r: SmallVecNumbers16384)
    requires
        !growth_overflows(0, 16384, vec@.len(), vstd::layout::size_of::<usize>()),
    ensures
        r.wf(),
        sv_n16384_items(r) == vec@,
        sv_n16384_cap(r) == grown(0, 16384, vec@.len()),
{
    SmallVecNumbers16384 { inner: <smallvec::SmallVec<[usize; 16384]> as std::iter::FromIterator<usize>>::from_iter(vec.into_iter()) }
}

/// `resize_with`, each new item made by reading the value at `at` of `g`:
/// truncated to `len`, or extended to `len` after reserving room for the
/// new items.
#[verifier::external_body]
pub(crate) fn small_vec_n16384_resize_with_read(v: &mut SmallVecNumbers16384, len: usize, g: &[u8], at: usize)
    requires
        old(v).wf(),
        len > sv_n16384_items(*old(v)).len() ==> !growth_overflows(sv_n16384_items(*old(v)).len(), sv_n16384_cap(*old(v)), (len - sv_n16384_items(*old(v)).len()) as nat, vstd::layout::size_of::<usize>()),
        len > sv_n16384_items(*old(v)).len() ==> at + 8 <= g@.len(),
    ensures
        final(v).wf(),
        len <= sv_n16384_items(*old(v)).len() ==> sv_n16384_items(*final(v)) == sv_n16384_items(*old(v)).take(len as int) && sv_n16384_cap(*final(v)) == sv_n16384_cap(*old(v)),
        len > sv_n16384_items(*old(v)).len() ==> sv_n16384_items(*final(v)) == sv_n16384_items(*old(v)) + repeat(usize_at(g@, at as int), (len - sv_n16384_items(*old(v)).len()) as nat)
            && sv_n16384_cap(*final(v)) == grown(sv_n16384_items(*old(v)).len(), sv_n16384_cap(*old(v)), (len - sv_n16384_items(*old(v)).len()) as nat),
{
    v.inner.resize_with(len, || crate::bytes::_to_usize(g, at))
}

/// `len`: the number of items.
#[verifier::external_body]
pub(crate) fn small_vec_n16384_len(v: &SmallVecNumbers16384) -> (r: usize)
    ensures
        r == sv_n16384_items(*v).len(),
{
    v.inner.len()
}

/// `capacity`: the recorded capacity.
#[verifier::external_body]
pub(crate) fn small_vec_n16384_capacity(v: &SmallVecNumbers16384) -> (r: usize)
    ensures
        r == sv_n16384_cap(*v),
{
    v.inner.capacity()
}

/// `is_empty`: whether there are no items.
#[verifier::external_body]
pub(crate) fn small_vec_n16384_is_empty(v: &SmallVecNumbers16384) -> (r: bool)
    ensures
        r == (sv_n16384_items(*v).len() == 0),
{
    v.inner.is_empty()
}

/// `IndexMut<usize>`: the item at `index`, read through a mutable reference;
/// it panics when `index >= len`.
#[verifier::external_body]
pub(crate) fn small_vec_n16384_index_mut(v: &mut SmallVecNumbers16384, index: usize) -> (r: usize)
    requires
        old(v).wf(),
        index < sv_n16384_items(*old(v)).len(),
    ensures
        r == sv_n16384_items(*old(v))[index as int],
        sv_n16384_items(*final(v)) == sv_n16384_items(*old(v)),
        sv_n16384_cap(*final(v)) == sv_n16384_cap(*old(v)),
{
    *std::ops::IndexMut::index_mut(&mut v.inner, index)
}

} // verus!

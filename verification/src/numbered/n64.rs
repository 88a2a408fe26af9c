//! `SmallVec<[usize; 64]>` of the outside crate, behind trusted wrappers:
//! a vector of number-carrying elements, held as their numbers.
//!
//! The outside type is held in a private field: Verus sees a value of it only
//! through two names, the items it holds and the capacity it records. Each
//! wrapper states, over those names, what the crate's source does.
use vstd::prelude::*;
use crate::small_vec::{dedup_seq, exact_growth_overflows, exact_grown, growth_overflows, grown, lex_order, repeat, Order};
use crate::script::usize_at;
use crate::numbered::{is_even_usize, same_usize, usize_ints};

verus! {

/// A small vector of `usize` with room for 64 items inline.
#[verifier::external_body]
pub struct SmallVecNumbers64 {
    inner: smallvec::SmallVec<[usize; 64]>,
}

/// The items a `SmallVec<[usize; 64]>` holds, in order.
pub uninterp spec fn sv_n64_items(v: SmallVecNumbers64) -> Seq<usize>;

/// The capacity a `SmallVec<[usize; 64]>` records (64 while it is inline).
pub uninterp spec fn sv_n64_cap(v: SmallVecNumbers64) -> nat;

impl View for SmallVecNumbers64 {
    type V = Seq<usize>;

    open spec fn view(&self) -> Seq<usize> {
        sv_n64_items(*self)
    }
}

impl SmallVecNumbers64 {
    /// The capacity that `capacity()` reports.
    pub open spec fn cap(self) -> nat {
        sv_n64_cap(self)
    }

    /// What every vector of this type satisfies: it holds at most its
    /// capacity, is never smaller than its inline size, and a heap buffer
    /// never exceeds `isize::MAX` bytes.
    pub open spec fn wf(self) -> bool {
        &&& self@.len() <= self.cap()
        &&& self.cap() >= 64
        &&& self.cap() * vstd::layout::size_of::<usize>() <= isize::MAX || self.cap() == 64
    }
}

/// `SmallVec::from_elem`: `n` copies of `elem`; inline when `n <= 64`, else
/// through `vec![elem; n]`, whose size computation must not overflow.
#[verifier::external_body]
pub(crate) fn small_vec_n64_from_elem(elem: usize, n: usize) -> (r: SmallVecNumbers64)
    requires
        n <= 64 || n * vstd::layout::size_of::<usize>() <= isize::MAX,
    ensures
        r.wf(),
        sv_n64_items(r) == repeat(elem, n as nat),
        n <= 64 ==> sv_n64_cap(r) == 64,
{
    SmallVecNumbers64 { inner: smallvec::SmallVec::from_elem(elem, n) }
}

/// `insert`: `element` placed at `index`, later items shifted right; it first
/// reserves room for one item, and panics when `index > len`.
#[verifier::external_body]
pub(crate) fn small_vec_n64_insert(v: &mut SmallVecNumbers64, index: usize, element: usize)
    requires
        old(v).wf(),
        index <= sv_n64_items(*old(v)).len(),
        !growth_overflows(sv_n64_items(*old(v)).len(), sv_n64_cap(*old(v)), 1, vstd::layout::size_of::<usize>()),
    ensures
        final(v).wf(),
        sv_n64_items(*final(v)) == sv_n64_items(*old(v)).insert(index as int, element),
        sv_n64_cap(*final(v)) == grown(sv_n64_items(*old(v)).len(), sv_n64_cap(*old(v)), 1),
{
    v.inner.insert(index, element)
}

/// `grow`: the capacity set to `new_cap`, or back to inline when
/// `new_cap <= 64`; it panics when `new_cap < len` or when the size
/// computation overflows.
#[verifier::external_body]
pub(crate) fn small_vec_n64_grow(v: &mut SmallVecNumbers64, new_cap: usize)
    requires
        old(v).wf(),
        new_cap >= sv_n64_items(*old(v)).len(),
        new_cap <= 64 || new_cap * vstd::layout::size_of::<usize>() <= isize::MAX,
    ensures
        final(v).wf(),
        sv_n64_items(*final(v)) == sv_n64_items(*old(v)),
        sv_n64_cap(*final(v)) == if new_cap <= 64 { 64 } else { new_cap as nat },
{
    v.inner.grow(new_cap)
}

/// `len`: the number of items.
#[verifier::external_body]
pub(crate) fn small_vec_n64_len(v: &SmallVecNumbers64) -> (r: usize)
    ensures
        r == sv_n64_items(*v).len(),
{
    v.inner.len()
}

/// `capacity`: the recorded capacity.
#[verifier::external_body]
pub(crate) fn small_vec_n64_capacity(v: &SmallVecNumbers64) -> (r: usize)
    ensures
        r == sv_n64_cap(*v),
{
    v.inner.capacity()
}

/// `is_empty`: whether there are no items.
#[verifier::external_body]
pub(crate) fn small_vec_n64_is_empty(v: &SmallVecNumbers64) -> (r: bool)
    ensures
        r == (sv_n64_items(*v).len() == 0),
{
    v.inner.is_empty()
}

/// `IndexMut<usize>`: the item at `index`, read through a mutable reference;
/// it panics when `index >= len`.
#[verifier::external_body]
pub(crate) fn small_vec_n64_index_mut(v: &mut SmallVecNumbers64, index: usize) -> (r: usize)
    requires
        old(v).wf(),
        index < sv_n64_items(*old(v)).len(),
    ensures
        r == sv_n64_items(*old(v))[index as int],
        sv_n64_items(*final(v)) == sv_n64_items(*old(v)),
        sv_n64_cap(*final(v)) == sv_n64_cap(*old(v)),
{
    *std::ops::IndexMut::index_mut(&mut v.inner, index)
}

/// `SmallVec::new`: empty and inline.
#[verifier::external_body]
pub(crate) fn small_vec_n64_new() -> (r: SmallVecNumbers64)
    ensures
        r.wf(),
        sv_n64_items(r) == Seq::<usize>::empty(),
        sv_n64_cap(r) == 64,
{
    SmallVecNumbers64 { inner: smallvec::SmallVec::new() }
}

/// `push`: `value` appended; a full vector first grows by amortised doubling,
/// whose size computation must not overflow.
#[verifier::external_body]
pub(crate) fn small_vec_n64_push(v: &mut SmallVecNumbers64, value: usize)
    requires
        old(v).wf(),
        !growth_overflows(sv_n64_items(*old(v)).len(), sv_n64_cap(*old(v)), 1, vstd::layout::size_of::<usize>()),
    ensures
        final(v).wf(),
        sv_n64_items(*final(v)) == sv_n64_items(*old(v)).push(value),
        sv_n64_cap(*final(v)) == grown(sv_n64_items(*old(v)).len(), sv_n64_cap(*old(v)), 1),
{
    v.inner.push(value)
}

/// `into_iter`, run to its end and collected: the items, in order.
#[verifier::external_body]
pub(crate) fn small_vec_n64_into_iter_collect(v: SmallVecNumbers64) -> (r: Vec<usize>)
    ensures
        r@ == sv_n64_items(v),
{
    v.inner.into_iter().collect()
}

} // verus!

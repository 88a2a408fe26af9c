//! `SmallVec<[usize; 256]>` of the outside crate, behind trusted wrappers:
//! a vector of number-carrying elements, held as their numbers.
//!
//! The outside type is held in a private field: Verus sees a value of it only
//! through two names, the items it holds and the capacity it records. Each
//! wrapper states, over those names, what the crate's source does.
use vstd::prelude::*;
use crate::small_vec::{dedup_seq, exact_growth_overflows, exact_grown, growth_overflows, grown, lex_order, repeat, Order};
use crate::script::usize_at;
use crate::numbered::{is_even_usize, same_usize, usize_ints};

verus! {

/// A small vector of `usize` with room for 256 items inline.
#[verifier::external_body]
pub struct SmallVecNumbers256 {
    inner: smallvec::SmallVec<[usize; 256]>,
}

/// The items a `SmallVec<[usize; 256]>` holds, in order.
pub uninterp spec fn sv_n256_items(v: SmallVecNumbers256) -> Seq<usize>;

/// The capacity a `SmallVec<[usize; 256]>` records (256 while it is inline).
pub uninterp spec fn sv_n256_cap(v: SmallVecNumbers256) -> nat;

impl View for SmallVecNumbers256 {
    type V = Seq<usize>;

    open spec fn view(&self) -> Seq<usize> {
        sv_n256_items(*self)
    }
}

impl SmallVecNumbers256 {
    /// The capacity that `capacity()` reports.
    pub open spec fn cap(self) -> nat {
        sv_n256_cap(self)
    }

    /// What every vector of this type satisfies: it holds at most its
    /// capacity, is never smaller than its inline size, and a heap buffer
    /// never exceeds `isize::MAX` bytes.
    pub open spec fn wf(self) -> bool {
        &&& self@.len() <= self.cap()
        &&& self.cap() >= 256
        &&& self.cap() * vstd::layout::size_of::<usize>() <= isize::MAX || self.cap() == 256
    }
}

/// `SmallVec::with_capacity`: empty, with room for `n` items (inline when
/// `n <= 256`); the size computation must not overflow.
#[verifier::external_body]
pub(crate) fn small_vec_n256_with_capacity(n: usize) -> (r: SmallVecNumbers256)
    requires
        !exact_growth_overflows(0, 256, n as nat, vstd::layout::size_of::<usize>()),
    ensures
        r.wf(),
        sv_n256_items(r) == Seq::<usize>::empty(),
        sv_n256_cap(r) == if n <= 256 { 256 } else { n as nat },
{
    SmallVecNumbers256 { inner: smallvec::SmallVec::with_capacity(n) }
}

/// `push`: `value` appended; a full vector first grows by amortised doubling,
/// whose size computation must not overflow.
#[verifier::external_body]
pub(crate) fn small_vec_n256_push(v: &mut SmallVecNumbers256, value: usize)
    requires
        old(v).wf(),
        !growth_overflows(sv_n256_items(*old(v)).len(), sv_n256_cap(*old(v)), 1, vstd::layout::size_of::<usize>()),
    ensures
        final(v).wf(),
        sv_n256_items(*final(v)) == sv_n256_items(*old(v)).push(value),
        sv_n256_cap(*final(v)) == grown(sv_n256_items(*old(v)).len(), sv_n256_cap(*old(v)), 1),
{
    v.inner.push(value)
}

/// `remove`: the item at `index`, later items shifted left; it panics when
/// `index >= len`.
#[verifier::external_body]
pub(crate) fn small_vec_n256_remove(v: &mut SmallVecNumbers256, index: usize) -> (r: usize)
    requires
        old(v).wf(),
        index < sv_n256_items(*old(v)).len(),
    ensures
        final(v).wf(),
        r == sv_n256_items(*old(v))[index as int],
        sv_n256_items(*final(v)) == sv_n256_items(*old(v)).remove(index as int),
        sv_n256_cap(*final(v)) == sv_n256_cap(*old(v)),
{
    v.inner.remove(index)
}

/// `len`: the number of items.
#[verifier::external_body]
pub(crate) fn small_vec_n256_len(v: &SmallVecNumbers256) -> (r: usize)
    ensures
        r == sv_n256_items(*v).len(),
{
    v.inner.len()
}

/// `capacity`: the recorded capacity.
#[verifier::external_body]
pub(crate) fn small_vec_n256_capacity(v: &SmallVecNumbers256) -> (r: usize)
    ensures
        r == sv_n256_cap(*v),
{
    v.inner.capacity()
}

/// `is_empty`: whether there are no items.
#[verifier::external_body]
pub(crate) fn small_vec_n256_is_empty(v: &SmallVecNumbers256) -> (r: bool)
    ensures
        r == (sv_n256_items(*v).len() == 0),
{
    v.inner.is_empty()
}

/// `IndexMut<usize>`: the item at `index`, read through a mutable reference;
/// it panics when `index >= len`.
#[verifier::external_body]
pub(crate) fn small_vec_n256_index_mut(v: &mut SmallVecNumbers256, index: usize) -> (r: usize)
    requires
        old(v).wf(),
        index < sv_n256_items(*old(v)).len(),
    ensures
        r == sv_n256_items(*old(v))[index as int],
        sv_n256_items(*final(v)) == sv_n256_items(*old(v)),
        sv_n256_cap(*final(v)) == sv_n256_cap(*old(v)),
{
    *std::ops::IndexMut::index_mut(&mut v.inner, index)
}

/// `SmallVec::from_slice`: a copy of `slice`; inline when it has at most 256
/// items, else in a heap buffer whose capacity nothing here states.
#[verifier::external_body]
pub(crate) fn small_vec_n256_from_slice(slice: &[usize]) -> (r: SmallVecNumbers256)
    ensures
        r.wf(),
        sv_n256_items(r) == slice@,
        slice@.len() <= 256 ==> sv_n256_cap(r) == 256,
{
    SmallVecNumbers256 { inner: smallvec::SmallVec::from_slice(slice) }
}

/// `Deref`: the items.
#[verifier::external_body]
pub(crate) fn small_vec_n256_deref(v: &SmallVecNumbers256) -> (r: &[usize])
    ensures
        r@ == sv_n256_items(*v),
{
    std::ops::Deref::deref(&v.inner)
}

/// `Borrow<[T]>`: the items.
#[verifier::external_body]
pub(crate) fn small_vec_n256_borrow(v: &SmallVecNumbers256) -> (r: &[usize])
    ensures
        r@ == sv_n256_items(*v),
{
    std::borrow::Borrow::<[usize]>::borrow(&v.inner)
}

/// `as_ptr`: the address of the buffer, as an integer (nothing is stated of
/// it).
#[verifier::external_body]
pub(crate) fn small_vec_n256_as_ptr(v: &SmallVecNumbers256) -> (r: usize)
{
    v.inner.as_ptr() as usize
}

/// `into_boxed_slice`: the items, as a boxed slice.
#[verifier::external_body]
pub(crate) fn small_vec_n256_into_boxed_slice(v: SmallVecNumbers256) -> (r: Box<[usize]>)
    ensures
        r@ == sv_n256_items(v),
{
    v.inner.into_boxed_slice()
}

} // verus!

//! `SmallVec<[usize; 2048]>` of the outside crate, behind trusted wrappers:
//! a vector of number-carrying elements, held as their numbers.
//!
//! The outside type is held in a private field: Verus sees a value of it only
//! through two names, the items it holds and the capacity it records. Each
//! wrapper states, over those names, what the crate's source does.
use vstd::prelude::*;
use crate::small_vec::{dedup_seq, exact_growth_overflows, exact_grown, growth_overflows, grown, lex_order, repeat, Order};
use crate::script::usize_at;
use crate::numbered::{is_even_usize, same_usize, usize_ints};

verus! {

/// A small vector of `usize` with room for 2048 items inline.
#[verifier::external_body]
pub struct SmallVecNumbers2048 {
    inner: smallvec::SmallVec<[usize; 2048]>,
}

/// The items a `SmallVec<[usize; 2048]>` holds, in order.
pub uninterp spec fn sv_n2048_items(v: SmallVecNumbers2048) -> Seq<usize>;

/// The capacity a `SmallVec<[usize; 2048]>` records (2048 while it is inline).
pub uninterp spec fn sv_n2048_cap(v: SmallVecNumbers2048) -> nat;

impl View for SmallVecNumbers2048 {
    type V = Seq<usize>;

    open spec fn view(&self) -> Seq<usize> {
        sv_n2048_items(*self)
    }
}

impl SmallVecNumbers2048 {
    /// The capacity that `capacity()` reports.
    pub open spec fn cap(self) -> nat {
        sv_n2048_cap(self)
    }

    /// What every vector of this type satisfies: it holds at most its
    /// capacity, is never smaller than its inline size, and a heap buffer
    /// never exceeds `isize::MAX` bytes.
    pub open spec fn wf(self) -> bool {
        &&& self@.len() <= self.cap()
        &&& self.cap() >= 2048
        &&& self.cap() * vstd::layout::size_of::<usize>() <= isize::MAX || self.cap() == 2048
    }
}

/// `SmallVec::from_elem`: `n` copies of `elem`; inline when `n <= 2048`, else
/// through `vec![elem; n]`, whose size computation must not overflow.
#[verifier::external_body]
pub(crate) fn small_vec_n2048_from_elem(elem: usize, n: usize) -> (r: SmallVecNumbers2048)
    requires
        n <= 2048 || n * vstd::layout::size_of::<usize>() <= isize::MAX,
    ensures
        r.wf(),
        sv_n2048_items(r) == repeat(elem, n as nat),
        n <= 2048 ==> sv_n2048_cap(r) == 2048,
{
    SmallVecNumbers2048 { inner: smallvec::SmallVec::from_elem(elem, n) }
}

/// `insert_from_slice`: the items of `slice` placed at `index`, later items
/// shifted right, after reserving room for them; it panics when
/// `index > len`.
#[verifier::external_body]
pub(crate) fn small_vec_n2048_insert_from_slice(v: &mut SmallVecNumbers2048, index: usize, slice: &[usize])
    requires
        old(v).wf(),
        index <= sv_n2048_items(*old(v)).len(),
        !growth_overflows(sv_n2048_items(*old(v)).len(), sv_n2048_cap(*old(v)), slice@.len(), vstd::layout::size_of::<usize>()),
    ensures
        final(v).wf(),
        sv_n2048_items(*final(v)) == sv_n2048_items(*old(v)).take(index as int) + slice@ + sv_n2048_items(*old(v)).skip(index as int),
        sv_n2048_cap(*final(v)) == grown(sv_n2048_items(*old(v)).len(), sv_n2048_cap(*old(v)), slice@.len()),
{
    v.inner.insert_from_slice(index, slice)
}

/// `len`: the number of items.
#[verifier::external_body]
pub(crate) fn small_vec_n2048_len(v: &SmallVecNumbers2048) -> (r: usize)
    ensures
        r == sv_n2048_items(*v).len(),
{
    v.inner.len()
}

/// `capacity`: the recorded capacity.
#[verifier::external_body]
pub(crate) fn small_vec_n2048_capacity(v: &SmallVecNumbers2048) -> (r: usize)
    ensures
        r == sv_n2048_cap(*v),
{
    v.inner.capacity()
}

/// `is_empty`: whether there are no items.
#[verifier::external_body]
pub(crate) fn small_vec_n2048_is_empty(v: &SmallVecNumbers2048) -> (r: bool)
    ensures
        r == (sv_n2048_items(*v).len() == 0),
{
    v.inner.is_empty()
}

/// `IndexMut<usize>`: the item at `index`, read through a mutable reference;
/// it panics when `index >= len`.
#[verifier::external_body]
pub(crate) fn small_vec_n2048_index_mut(v: &mut SmallVecNumbers2048, index: usize) -> (r: usize)
    requires
        old(v).wf(),
        index < sv_n2048_items(*old(v)).len(),
    ensures
        r == sv_n2048_items(*old(v))[index as int],
        sv_n2048_items(*final(v)) == sv_n2048_items(*old(v)),
        sv_n2048_cap(*final(v)) == sv_n2048_cap(*old(v)),
{
    *std::ops::IndexMut::index_mut(&mut v.inner, index)
}

} // verus!

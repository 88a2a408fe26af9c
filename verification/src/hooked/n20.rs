//! `SmallVec<[usize; 20]>` of the outside crate, behind trusted wrappers.
//!
//! The outside type is held in a private field: Verus sees a value of it only
//! through two names, the items it holds and the capacity it records. Each
//! wrapper states, over those names, what the crate's source does.
use vstd::prelude::*;
use crate::small_vec::{dedup_seq, exact_growth_overflows, exact_grown, growth_overflows, grown, lex_order, repeat, Order};
use crate::numbered::usize_ints;
use crate::fixed::dedup_keyed;
use crate::script::usize_at;

verus! {

/// A small vector of `usize` with room for 20 items inline.
#[verifier::external_body]
pub struct SmallVecNumbers20 {
    inner: smallvec::SmallVec<[usize; 20]>,
}

/// The items a `SmallVec<[usize; 20]>` holds, in order.
pub uninterp spec fn sv_n20_items(v: SmallVecNumbers20) -> Seq<usize>;

/// The capacity a `SmallVec<[usize; 20]>` records (20 while it is inline).
pub uninterp spec fn sv_n20_cap(v: SmallVecNumbers20) -> nat;

impl View for SmallVecNumbers20 {
    type V = Seq<usize>;

    open spec fn view(&self) -> Seq<usize> {
        sv_n20_items(*self)
    }
}

impl SmallVecNumbers20 {
    /// The capacity that `capacity()` reports.
    pub open spec fn cap(self) -> nat {
        sv_n20_cap(self)
    }

    /// What every vector of this type satisfies: it holds at most its
    /// capacity, is never smaller than its inline size, and a heap buffer
    /// never exceeds `isize::MAX` bytes.
    pub open spec fn wf(self) -> bool {
        &&& self@.len() <= self.cap()
        &&& self.cap() >= 20
        &&& self.cap() * vstd::layout::size_of::<usize>() <= isize::MAX || self.cap() == 20
    }
}

/// `SmallVec::from_elem`: `n` copies of `elem`; inline when `n <= 20`, else
/// through `vec![elem; n]`, whose size computation must not overflow.
#[verifier::external_body]
pub(crate) fn small_vec_n20_from_elem(elem: usize, n: usize) -> (r: SmallVecNumbers20)
    requires
        n <= 20 || n * vstd::layout::size_of::<usize>() <= isize::MAX,
    ensures
        r.wf(),
        sv_n20_items(r) == repeat(elem, n as nat),
        n <= 20 ==> sv_n20_cap(r) == 20,
{
    SmallVecNumbers20 { inner: smallvec::SmallVec::from_elem(elem, n) }
}

/// `insert`: `element` placed at `index`, later items shifted right; it first
/// reserves room for one item, and panics when `index > len`.
#[verifier::external_body]
pub(crate) fn small_vec_n20_insert(v: &mut SmallVecNumbers20, index: usize, element: usize)
    requires
        old(v).wf(),
        index <= sv_n20_items(*old(v)).len(),
        !growth_overflows(sv_n20_items(*old(v)).len(), sv_n20_cap(*old(v)), 1, vstd::layout::size_of::<usize>()),
    ensures
        final(v).wf(),
        sv_n20_items(*final(v)) == sv_n20_items(*old(v)).insert(index as int, element),
        sv_n20_cap(*final(v)) == grown(sv_n20_items(*old(v)).len(), sv_n20_cap(*old(v)), 1),
{
    v.inner.insert(index, element)
}

/// `remove`: the item at `index`, later items shifted left; it panics when
/// `index >= len`.
#[verifier::external_body]
pub(crate) fn small_vec_n20_remove(v: &mut SmallVecNumbers20, index: usize) -> (r: usize)
    requires
        old(v).wf(),
        index < sv_n20_items(*old(v)).len(),
    ensures
        final(v).wf(),
        r == sv_n20_items(*old(v))[index as int],
        sv_n20_items(*final(v)) == sv_n20_items(*old(v)).remove(index as int),
        sv_n20_cap(*final(v)) == sv_n20_cap(*old(v)),
{
    v.inner.remove(index)
}

/// `grow`: the capacity set to `new_cap`, or back to inline when
/// `new_cap <= 20`; it panics when `new_cap < len` or when the size
/// computation overflows.
#[verifier::external_body]
pub(crate) fn small_vec_n20_grow(v: &mut SmallVecNumbers20, new_cap: usize)
    requires
        old(v).wf(),
        new_cap >= sv_n20_items(*old(v)).len(),
        new_cap <= 20 || new_cap * vstd::layout::size_of::<usize>() <= isize::MAX,
    ensures
        final(v).wf(),
        sv_n20_items(*final(v)) == sv_n20_items(*old(v)),
        sv_n20_cap(*final(v)) == if new_cap <= 20 { 20 } else { new_cap as nat },
{
    v.inner.grow(new_cap)
}

/// `shrink_to_fit`: a heap vector moves back inline when its items fit there,
/// else its buffer shrinks to its length.
#[verifier::external_body]
pub(crate) fn small_vec_n20_shrink_to_fit(v: &mut SmallVecNumbers20)
    requires
        old(v).wf(),
    ensures
        final(v).wf(),
        sv_n20_items(*final(v)) == sv_n20_items(*old(v)),
        sv_n20_cap(*final(v)) == if sv_n20_cap(*old(v)) == 20 || sv_n20_items(*old(v)).len() <= 20 { 20 } else { sv_n20_items(*old(v)).len() },
{
    v.inner.shrink_to_fit()
}

/// `as_slice`: the items.
#[verifier::external_body]
pub(crate) fn small_vec_n20_as_slice(v: &SmallVecNumbers20) -> (r: &[usize])
    ensures
        r@ == sv_n20_items(*v),
{
    v.inner.as_slice()
}

/// `swap_remove`: the item at `index`, replaced by the last item; it panics
/// when `index >= len`.
#[verifier::external_body]
pub(crate) fn small_vec_n20_swap_remove(v: &mut SmallVecNumbers20, index: usize) -> (r: usize)
    requires
        old(v).wf(),
        index < sv_n20_items(*old(v)).len(),
    ensures
        final(v).wf(),
        r == sv_n20_items(*old(v))[index as int],
        sv_n20_items(*final(v)) == sv_n20_items(*old(v)).update(index as int, sv_n20_items(*old(v)).last()).drop_last(),
        sv_n20_cap(*final(v)) == sv_n20_cap(*old(v)),
{
    v.inner.swap_remove(index)
}

/// `inline_size`: the number of items held without a heap buffer.
#[verifier::external_body]
pub(crate) fn small_vec_n20_inline_size(v: &SmallVecNumbers20) -> (r: usize)
    ensures
        r == 20,
{
    v.inner.inline_size()
}

/// `is_empty`: whether there are no items.
#[verifier::external_body]
pub(crate) fn small_vec_n20_is_empty(v: &SmallVecNumbers20) -> (r: bool)
    ensures
        r == (sv_n20_items(*v).len() == 0),
{
    v.inner.is_empty()
}

/// `len`: the number of items.
#[verifier::external_body]
pub(crate) fn small_vec_n20_len(v: &SmallVecNumbers20) -> (r: usize)
    ensures
        r == sv_n20_items(*v).len(),
{
    v.inner.len()
}

/// `From<[T; 20]>`, that is `from_buf`: all 20 items of `buf`, inline.
#[verifier::external_body]
pub(crate) fn small_vec_n20_from_buf(buf: [usize; 20]) -> (r: SmallVecNumbers20)
    ensures
        r.wf(),
        sv_n20_items(r) == buf@,
        sv_n20_cap(r) == 20,
{
    SmallVecNumbers20 { inner: std::convert::From::from(buf) }
}

/// `FromIterator` over the items of `vec`: an empty vector extended by them,
/// reserving room for all of them first.
#[verifier::external_body]
pub(crate) fn small_vec_n20_from_iter(vec: Vec<usize>) -> (r: SmallVecNumbers20)
    requires
        !growth_overflows(0, 20, vec@.len(), vstd::layout::size_of::<usize>()),
    ensures
        r.wf(),
        sv_n20_items(r) == vec@,
        sv_n20_cap(r) == grown(0, 20, vec@.len()),
{
    SmallVecNumbers20 { inner: <smallvec::SmallVec<[usize; 20]> as std::iter::FromIterator<usize>>::from_iter(vec.into_iter()) }
}

/// `IndexMut<usize>`: the item at `index`, read through a mutable reference;
/// it panics when `index >= len`.
#[verifier::external_body]
pub(crate) fn small_vec_n20_index_mut(v: &mut SmallVecNumbers20, index: usize) -> (r: usize)
    requires
        old(v).wf(),
        index < sv_n20_items(*old(v)).len(),
    ensures
        r == sv_n20_items(*old(v))[index as int],
        sv_n20_items(*final(v)) == sv_n20_items(*old(v)),
        sv_n20_cap(*final(v)) == sv_n20_cap(*old(v)),
{
    *std::ops::IndexMut::index_mut(&mut v.inner, index)
}

/// `as_mut_ptr`: the address of the buffer, as an integer (nothing is stated
/// of it); the vector is left as it was.
#[verifier::external_body]
pub(crate) fn small_vec_n20_as_mut_ptr(v: &mut SmallVecNumbers20) -> (r: usize)
    ensures
        sv_n20_items(*final(v)) == sv_n20_items(*old(v)),
        sv_n20_cap(*final(v)) == sv_n20_cap(*old(v)),
{
    v.inner.as_mut_ptr() as usize
}

/// `into_inner`: the array of items where the vector is inline and full,
/// else the vector back.
#[verifier::external_body]
pub(crate) fn small_vec_n20_into_inner(v: SmallVecNumbers20) -> (r: Result<[usize; 20], SmallVecNumbers20>)
    ensures
        r is Ok <==> (sv_n20_cap(v) <= 20 && sv_n20_items(v).len() == 20),
        r matches Ok(a) ==> a@ == sv_n20_items(v),
        r matches Err(w) ==> sv_n20_items(w) == sv_n20_items(v),
{
    match v.inner.into_inner() {
        Ok(a) => Ok(a),
        Err(inner) => Err(SmallVecNumbers20 { inner }),
    }
}

} // verus!

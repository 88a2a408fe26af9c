//! `SmallVec<[usize; 12]>` of the outside crate, behind trusted wrappers.
//!
//! The outside type is held in a private field: Verus sees a value of it only
//! through two names, the items it holds and the capacity it records. Each
//! wrapper states, over those names, what the crate's source does.
use vstd::prelude::*;
use crate::small_vec::{exact_growth_overflows, exact_grown, growth_overflows, grown, repeat};

verus! {

/// A small vector of `usize` with room for 12 items inline.
#[verifier::external_body]
pub struct SmallVecUsize12 {
    inner: smallvec::SmallVec<[usize; 12]>,
}

/// The items a `SmallVec<[usize; 12]>` holds, in order.
pub uninterp spec fn sv_usize12_items(v: SmallVecUsize12) -> Seq<usize>;

/// The capacity a `SmallVec<[usize; 12]>` records (12 while it is inline).
pub uninterp spec fn sv_usize12_cap(v: SmallVecUsize12) -> nat;

impl View for SmallVecUsize12 {
    type V = Seq<usize>;

    open spec fn view(&self) -> Seq<usize> {
        sv_usize12_items(*self)
    }
}

/// The size in bytes of one item.
pub open spec fn usize_size() -> nat {
    vstd::layout::size_of::<usize>()
}

impl SmallVecUsize12 {
    /// The capacity that `capacity()` reports.
    pub open spec fn cap(self) -> nat {
        sv_usize12_cap(self)
    }

    /// What every vector of this type satisfies: it holds at most its
    /// capacity, is never smaller than its inline size, and a heap buffer
    /// never exceeds `isize::MAX` bytes.
    pub open spec fn wf(self) -> bool {
        &&& self@.len() <= self.cap()
        &&& self.cap() >= 12
        &&& self.cap() * usize_size() <= isize::MAX || self.cap() == 12
    }
}

/// `SmallVec::new`: empty and inline.
#[verifier::external_body]
pub(crate) fn small_vec_usize12_new() -> (r: SmallVecUsize12)
    ensures
        r.wf(),
        sv_usize12_items(r) == Seq::<usize>::empty(),
        sv_usize12_cap(r) == 12,
{
    SmallVecUsize12 { inner: smallvec::SmallVec::new() }
}

/// `SmallVec::with_capacity`: empty, with room for `n` items (inline when
/// `n <= 12`); the size computation must not overflow.
#[verifier::external_body]
pub(crate) fn small_vec_usize12_with_capacity(n: usize) -> (r: SmallVecUsize12)
    requires
        !exact_growth_overflows(0, 12, n as nat, usize_size()),
    ensures
        r.wf(),
        sv_usize12_items(r) == Seq::<usize>::empty(),
        sv_usize12_cap(r) == if n <= 12 { 12 } else { n as nat },
{
    SmallVecUsize12 { inner: smallvec::SmallVec::with_capacity(n) }
}

/// `SmallVec::from_elem`: `n` copies of `elem`; inline when `n <= 12`, else
/// through `vec![elem; n]`, whose size computation must not overflow.
#[verifier::external_body]
pub(crate) fn small_vec_usize12_from_elem(elem: usize, n: usize) -> (r: SmallVecUsize12)
    requires
        n <= 12 || n * usize_size() <= isize::MAX,
    ensures
        r.wf(),
        sv_usize12_items(r) == repeat(elem, n as nat),
        n <= 12 ==> sv_usize12_cap(r) == 12,
{
    SmallVecUsize12 { inner: smallvec::SmallVec::from_elem(elem, n) }
}

/// `len`: the number of items.
#[verifier::external_body]
pub(crate) fn small_vec_usize12_len(v: &SmallVecUsize12) -> (r: usize)
    ensures
        r == sv_usize12_items(*v).len(),
{
    v.inner.len()
}

/// `capacity`: the recorded capacity.
#[verifier::external_body]
pub(crate) fn small_vec_usize12_capacity(v: &SmallVecUsize12) -> (r: usize)
    ensures
        r == sv_usize12_cap(*v),
{
    v.inner.capacity()
}

/// `is_empty`: whether there are no items.
#[verifier::external_body]
pub(crate) fn small_vec_usize12_is_empty(v: &SmallVecUsize12) -> (r: bool)
    ensures
        r == (sv_usize12_items(*v).len() == 0),
{
    v.inner.is_empty()
}

/// `spilled`: whether the items live in a heap buffer, that is, whether the
/// capacity exceeds the inline size.
#[verifier::external_body]
pub(crate) fn small_vec_usize12_spilled(v: &SmallVecUsize12) -> (r: bool)
    ensures
        r == (sv_usize12_cap(*v) > 12),
{
    v.inner.spilled()
}

/// `inline_size`: the number of items held without a heap buffer.
#[verifier::external_body]
pub(crate) fn small_vec_usize12_inline_size(v: &SmallVecUsize12) -> (r: usize)
    ensures
        r == 12,
{
    v.inner.inline_size()
}

/// `as_ptr`: the address of the buffer, as an integer (nothing is stated of
/// it).
#[verifier::external_body]
pub(crate) fn small_vec_usize12_as_ptr(v: &SmallVecUsize12) -> (r: usize)
{
    v.inner.as_ptr() as usize
}

/// `as_mut_ptr`: the address of the buffer, as an integer (nothing is stated
/// of it); the vector is left as it was.
#[verifier::external_body]
pub(crate) fn small_vec_usize12_as_mut_ptr(v: &mut SmallVecUsize12) -> (r: usize)
    ensures
        sv_usize12_items(*final(v)) == sv_usize12_items(*old(v)),
        sv_usize12_cap(*final(v)) == sv_usize12_cap(*old(v)),
{
    v.inner.as_mut_ptr() as usize
}

/// `push`: `value` appended; a full vector first grows by amortised doubling,
/// whose size computation must not overflow.
#[verifier::external_body]
pub(crate) fn small_vec_usize12_push(v: &mut SmallVecUsize12, value: usize)
    requires
        old(v).wf(),
        !growth_overflows(sv_usize12_items(*old(v)).len(), sv_usize12_cap(*old(v)), 1, usize_size()),
    ensures
        final(v).wf(),
        sv_usize12_items(*final(v)) == sv_usize12_items(*old(v)).push(value),
        sv_usize12_cap(*final(v)) == grown(sv_usize12_items(*old(v)).len(), sv_usize12_cap(*old(v)), 1),
{
    v.inner.push(value)
}

/// `pop`: the last item, removed, or `None` when empty; the capacity stays.
#[verifier::external_body]
pub(crate) fn small_vec_usize12_pop(v: &mut SmallVecUsize12) -> (r: Option<usize>)
    requires
        old(v).wf(),
    ensures
        final(v).wf(),
        sv_usize12_cap(*final(v)) == sv_usize12_cap(*old(v)),
        sv_usize12_items(*old(v)).len() == 0 ==> r is None && sv_usize12_items(*final(v)) == sv_usize12_items(*old(v)),
        sv_usize12_items(*old(v)).len() > 0 ==> r == Some(sv_usize12_items(*old(v)).last()) && sv_usize12_items(*final(v)) == sv_usize12_items(*old(v)).drop_last(),
{
    v.inner.pop()
}

/// `insert`: `element` placed at `index`, later items shifted right; it first
/// reserves room for one item, and panics when `index > len`.
#[verifier::external_body]
pub(crate) fn small_vec_usize12_insert(v: &mut SmallVecUsize12, index: usize, element: usize)
    requires
        old(v).wf(),
        index <= sv_usize12_items(*old(v)).len(),
        !growth_overflows(sv_usize12_items(*old(v)).len(), sv_usize12_cap(*old(v)), 1, usize_size()),
    ensures
        final(v).wf(),
        sv_usize12_items(*final(v)) == sv_usize12_items(*old(v)).insert(index as int, element),
        sv_usize12_cap(*final(v)) == grown(sv_usize12_items(*old(v)).len(), sv_usize12_cap(*old(v)), 1),
{
    v.inner.insert(index, element)
}

/// `remove`: the item at `index`, later items shifted left; it panics when
/// `index >= len`.
#[verifier::external_body]
pub(crate) fn small_vec_usize12_remove(v: &mut SmallVecUsize12, index: usize) -> (r: usize)
    requires
        old(v).wf(),
        index < sv_usize12_items(*old(v)).len(),
    ensures
        final(v).wf(),
        r == sv_usize12_items(*old(v))[index as int],
        sv_usize12_items(*final(v)) == sv_usize12_items(*old(v)).remove(index as int),
        sv_usize12_cap(*final(v)) == sv_usize12_cap(*old(v)),
{
    v.inner.remove(index)
}

/// `swap_remove`: the item at `index`, replaced by the last item; it panics
/// when `index >= len`.
#[verifier::external_body]
pub(crate) fn small_vec_usize12_swap_remove(v: &mut SmallVecUsize12, index: usize) -> (r: usize)
    requires
        old(v).wf(),
        index < sv_usize12_items(*old(v)).len(),
    ensures
        final(v).wf(),
        r == sv_usize12_items(*old(v))[index as int],
        sv_usize12_items(*final(v)) == sv_usize12_items(*old(v)).update(index as int, sv_usize12_items(*old(v)).last()).drop_last(),
        sv_usize12_cap(*final(v)) == sv_usize12_cap(*old(v)),
{
    v.inner.swap_remove(index)
}

/// `truncate`: the first `len` items kept (all of them when there are fewer).
#[verifier::external_body]
pub(crate) fn small_vec_usize12_truncate(v: &mut SmallVecUsize12, len: usize)
    requires
        old(v).wf(),
    ensures
        final(v).wf(),
        sv_usize12_items(*final(v)) == if len < sv_usize12_items(*old(v)).len() { sv_usize12_items(*old(v)).take(len as int) } else { sv_usize12_items(*old(v)) },
        sv_usize12_cap(*final(v)) == sv_usize12_cap(*old(v)),
{
    v.inner.truncate(len)
}

/// `clear`: no items left; the capacity stays.
#[verifier::external_body]
pub(crate) fn small_vec_usize12_clear(v: &mut SmallVecUsize12)
    requires
        old(v).wf(),
    ensures
        final(v).wf(),
        sv_usize12_items(*final(v)) == Seq::<usize>::empty(),
        sv_usize12_cap(*final(v)) == sv_usize12_cap(*old(v)),
{
    v.inner.clear()
}

/// `reserve`: room for `additional` more items by amortised doubling; the
/// size computation must not overflow.
#[verifier::external_body]
pub(crate) fn small_vec_usize12_reserve(v: &mut SmallVecUsize12, additional: usize)
    requires
        old(v).wf(),
        !growth_overflows(sv_usize12_items(*old(v)).len(), sv_usize12_cap(*old(v)), additional as nat, usize_size()),
    ensures
        final(v).wf(),
        sv_usize12_items(*final(v)) == sv_usize12_items(*old(v)),
        sv_usize12_cap(*final(v)) == grown(sv_usize12_items(*old(v)).len(), sv_usize12_cap(*old(v)), additional as nat),
{
    v.inner.reserve(additional)
}

/// `reserve_exact`: room for exactly `additional` more items when there is
/// not enough; the size computation must not overflow.
#[verifier::external_body]
pub(crate) fn small_vec_usize12_reserve_exact(v: &mut SmallVecUsize12, additional: usize)
    requires
        old(v).wf(),
        !exact_growth_overflows(sv_usize12_items(*old(v)).len(), sv_usize12_cap(*old(v)), additional as nat, usize_size()),
    ensures
        final(v).wf(),
        sv_usize12_items(*final(v)) == sv_usize12_items(*old(v)),
        sv_usize12_cap(*final(v)) == exact_grown(sv_usize12_items(*old(v)).len(), sv_usize12_cap(*old(v)), additional as nat),
{
    v.inner.reserve_exact(additional)
}

/// `grow`: the capacity set to `new_cap`, or back to inline when
/// `new_cap <= 12`; it panics when `new_cap < len` or when the size
/// computation overflows.
#[verifier::external_body]
pub(crate) fn small_vec_usize12_grow(v: &mut SmallVecUsize12, new_cap: usize)
    requires
        old(v).wf(),
        new_cap >= sv_usize12_items(*old(v)).len(),
        new_cap <= 12 || new_cap * usize_size() <= isize::MAX,
    ensures
        final(v).wf(),
        sv_usize12_items(*final(v)) == sv_usize12_items(*old(v)),
        sv_usize12_cap(*final(v)) == if new_cap <= 12 { 12 } else { new_cap as nat },
{
    v.inner.grow(new_cap)
}

/// `shrink_to_fit`: a heap vector moves back inline when its items fit there,
/// else its buffer shrinks to its length.
#[verifier::external_body]
pub(crate) fn small_vec_usize12_shrink_to_fit(v: &mut SmallVecUsize12)
    requires
        old(v).wf(),
    ensures
        final(v).wf(),
        sv_usize12_items(*final(v)) == sv_usize12_items(*old(v)),
        sv_usize12_cap(*final(v)) == if sv_usize12_cap(*old(v)) == 12 || sv_usize12_items(*old(v)).len() <= 12 { 12 } else { sv_usize12_items(*old(v)).len() },
{
    v.inner.shrink_to_fit()
}

/// `extend_from_slice`: the items of `slice` appended, after reserving room
/// for all of them.
#[verifier::external_body]
pub(crate) fn small_vec_usize12_extend_from_slice(v: &mut SmallVecUsize12, slice: &[usize])
    requires
        old(v).wf(),
        !growth_overflows(sv_usize12_items(*old(v)).len(), sv_usize12_cap(*old(v)), slice@.len(), usize_size()),
    ensures
        final(v).wf(),
        sv_usize12_items(*final(v)) == sv_usize12_items(*old(v)) + slice@,
        sv_usize12_cap(*final(v)) == grown(sv_usize12_items(*old(v)).len(), sv_usize12_cap(*old(v)), slice@.len()),
{
    v.inner.extend_from_slice(slice)
}

/// `drain` of `start..end`, run to its end: the removed items, in order; the
/// items after the range close the gap. It panics unless
/// `start <= end <= len`.
#[verifier::external_body]
pub(crate) fn small_vec_usize12_drain(v: &mut SmallVecUsize12, start: usize, end: usize) -> (r: Vec<usize>)
    requires
        old(v).wf(),
        start <= end <= sv_usize12_items(*old(v)).len(),
    ensures
        final(v).wf(),
        r@ == sv_usize12_items(*old(v)).subrange(start as int, end as int),
        sv_usize12_items(*final(v)) == sv_usize12_items(*old(v)).take(start as int) + sv_usize12_items(*old(v)).skip(end as int),
        sv_usize12_cap(*final(v)) == sv_usize12_cap(*old(v)),
{
    v.inner.drain(start..end).collect()
}

/// `insert_many` with the items of `vec`: placed at `index`, later items
/// shifted right, after reserving room for all of them; it panics when
/// `index > len`.
#[verifier::external_body]
pub(crate) fn small_vec_usize12_insert_many(v: &mut SmallVecUsize12, index: usize, vec: Vec<usize>)
    requires
        old(v).wf(),
        index <= sv_usize12_items(*old(v)).len(),
        !growth_overflows(sv_usize12_items(*old(v)).len(), sv_usize12_cap(*old(v)), vec@.len(), usize_size()),
    ensures
        final(v).wf(),
        sv_usize12_items(*final(v)) == sv_usize12_items(*old(v)).take(index as int) + vec@ + sv_usize12_items(*old(v)).skip(index as int),
        sv_usize12_cap(*final(v)) == grown(sv_usize12_items(*old(v)).len(), sv_usize12_cap(*old(v)), vec@.len()),
{
    v.inner.insert_many(index, vec)
}

/// `SmallVec::from_vec`: the items of `vec`; inline when the vector's own
/// capacity is at most 12, else taking over its buffer, whose capacity
/// nothing here states.
#[verifier::external_body]
pub(crate) fn small_vec_usize12_from_vec(vec: Vec<usize>) -> (r: SmallVecUsize12)
    ensures
        r.wf(),
        sv_usize12_items(r) == vec@,
{
    SmallVecUsize12 { inner: smallvec::SmallVec::from_vec(vec) }
}

/// `Deref`: the items.
#[verifier::external_body]
pub(crate) fn small_vec_usize12_deref(v: &SmallVecUsize12) -> (r: &[usize])
    ensures
        r@ == sv_usize12_items(*v),
{
    std::ops::Deref::deref(&v.inner)
}

/// `DerefMut`: the items, to be written in place.
#[verifier::external_body]
pub(crate) fn small_vec_usize12_deref_mut(v: &mut SmallVecUsize12) -> (r: &mut [usize])
    requires
        old(v).wf(),
    ensures
        r@ == sv_usize12_items(*old(v)),
        sv_usize12_items(*final(v)) == final(r)@,
        sv_usize12_cap(*final(v)) == sv_usize12_cap(*old(v)),
{
    std::ops::DerefMut::deref_mut(&mut v.inner)
}

/// `Borrow<[T]>`: the items.
#[verifier::external_body]
pub(crate) fn small_vec_usize12_borrow(v: &SmallVecUsize12) -> (r: &[usize])
    ensures
        r@ == sv_usize12_items(*v),
{
    std::borrow::Borrow::<[usize]>::borrow(&v.inner)
}

/// `BorrowMut<[T]>`: the items, to be written in place.
#[verifier::external_body]
pub(crate) fn small_vec_usize12_borrow_mut(v: &mut SmallVecUsize12) -> (r: &mut [usize])
    requires
        old(v).wf(),
    ensures
        r@ == sv_usize12_items(*old(v)),
        sv_usize12_items(*final(v)) == final(r)@,
        sv_usize12_cap(*final(v)) == sv_usize12_cap(*old(v)),
{
    std::borrow::BorrowMut::<[usize]>::borrow_mut(&mut v.inner)
}

} // verus!

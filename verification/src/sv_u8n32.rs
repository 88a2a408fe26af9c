//! `SmallVec<[u8; 32]>` of the outside crate, behind trusted wrappers.
//!
//! The outside type is held in a private field: Verus sees a value of it only
//! through two names, the items it holds and the capacity it records. Each
//! wrapper states, over those names, what the crate's source does.
use vstd::prelude::*;
use crate::small_vec::{exact_growth_overflows, exact_grown, growth_overflows, grown, repeat};

verus! {

/// A small vector of `u8` with room for 32 items inline.
#[verifier::external_body]
pub struct SmallVecU8N32 {
    inner: smallvec::SmallVec<[u8; 32]>,
}

/// The items a `SmallVec<[u8; 32]>` holds, in order.
pub uninterp spec fn sv_u8n32_items(v: SmallVecU8N32) -> Seq<u8>;

/// The capacity a `SmallVec<[u8; 32]>` records (32 while it is inline).
pub uninterp spec fn sv_u8n32_cap(v: SmallVecU8N32) -> nat;

impl View for SmallVecU8N32 {
    type V = Seq<u8>;

    open spec fn view(&self) -> Seq<u8> {
        sv_u8n32_items(*self)
    }
}

impl SmallVecU8N32 {
    /// The capacity that `capacity()` reports.
    pub open spec fn cap(self) -> nat {
        sv_u8n32_cap(self)
    }

    /// What every vector of this type satisfies: it holds at most its
    /// capacity, is never smaller than its inline size, and a heap buffer
    /// never exceeds `isize::MAX` bytes.
    pub open spec fn wf(self) -> bool {
        &&& self@.len() <= self.cap()
        &&& self.cap() >= 32
        &&& self.cap() * 1 <= isize::MAX || self.cap() == 32
    }
}

/// `SmallVec::new`: empty and inline.
#[verifier::external_body]
pub(crate) fn small_vec_u8n32_new() -> (r: SmallVecU8N32)
    ensures
        r.wf(),
        sv_u8n32_items(r) == Seq::<u8>::empty(),
        sv_u8n32_cap(r) == 32,
{
    SmallVecU8N32 { inner: smallvec::SmallVec::new() }
}

/// `SmallVec::with_capacity`: empty, with room for `n` items (inline when
/// `n <= 32`); the size computation must not overflow.
#[verifier::external_body]
pub(crate) fn small_vec_u8n32_with_capacity(n: usize) -> (r: SmallVecU8N32)
    requires
        !exact_growth_overflows(0, 32, n as nat, 1),
    ensures
        r.wf(),
        sv_u8n32_items(r) == Seq::<u8>::empty(),
        sv_u8n32_cap(r) == if n <= 32 { 32 } else { n as nat },
{
    SmallVecU8N32 { inner: smallvec::SmallVec::with_capacity(n) }
}

/// `SmallVec::from_elem`: `n` copies of `elem`; inline when `n <= 32`, else
/// through `vec![elem; n]`, whose size computation must not overflow.
#[verifier::external_body]
pub(crate) fn small_vec_u8n32_from_elem(elem: u8, n: usize) -> (r: SmallVecU8N32)
    requires
        n <= 32 || n * 1 <= isize::MAX,
    ensures
        r.wf(),
        sv_u8n32_items(r) == repeat(elem, n as nat),
        n <= 32 ==> sv_u8n32_cap(r) == 32,
{
    SmallVecU8N32 { inner: smallvec::SmallVec::from_elem(elem, n) }
}

/// `len`: the number of items.
#[verifier::external_body]
pub(crate) fn small_vec_u8n32_len(v: &SmallVecU8N32) -> (r: usize)
    ensures
        r == sv_u8n32_items(*v).len(),
{
    v.inner.len()
}

/// `capacity`: the recorded capacity.
#[verifier::external_body]
pub(crate) fn small_vec_u8n32_capacity(v: &SmallVecU8N32) -> (r: usize)
    ensures
        r == sv_u8n32_cap(*v),
{
    v.inner.capacity()
}

/// `is_empty`: whether there are no items.
#[verifier::external_body]
pub(crate) fn small_vec_u8n32_is_empty(v: &SmallVecU8N32) -> (r: bool)
    ensures
        r == (sv_u8n32_items(*v).len() == 0),
{
    v.inner.is_empty()
}

/// `spilled`: whether the items live in a heap buffer, that is, whether the
/// capacity exceeds the inline size.
#[verifier::external_body]
pub(crate) fn small_vec_u8n32_spilled(v: &SmallVecU8N32) -> (r: bool)
    ensures
        r == (sv_u8n32_cap(*v) > 32),
{
    v.inner.spilled()
}

/// `inline_size`: the number of items held without a heap buffer.
#[verifier::external_body]
pub(crate) fn small_vec_u8n32_inline_size(v: &SmallVecU8N32) -> (r: usize)
    ensures
        r == 32,
{
    v.inner.inline_size()
}

/// `as_ptr`: the address of the buffer, as an integer (nothing is stated of
/// it).
#[verifier::external_body]
pub(crate) fn small_vec_u8n32_as_ptr(v: &SmallVecU8N32) -> (r: usize)
{
    v.inner.as_ptr() as usize
}

/// `as_mut_ptr`: the address of the buffer, as an integer (nothing is stated
/// of it); the vector is left as it was.
#[verifier::external_body]
pub(crate) fn small_vec_u8n32_as_mut_ptr(v: &mut SmallVecU8N32) -> (r: usize)
    ensures
        sv_u8n32_items(*final(v)) == sv_u8n32_items(*old(v)),
        sv_u8n32_cap(*final(v)) == sv_u8n32_cap(*old(v)),
{
    v.inner.as_mut_ptr() as usize
}

/// `push`: `value` appended; a full vector first grows by amortised doubling,
/// whose size computation must not overflow.
#[verifier::external_body]
pub(crate) fn small_vec_u8n32_push(v: &mut SmallVecU8N32, value: u8)
    requires
        old(v).wf(),
        !growth_overflows(sv_u8n32_items(*old(v)).len(), sv_u8n32_cap(*old(v)), 1, 1),
    ensures
        final(v).wf(),
        sv_u8n32_items(*final(v)) == sv_u8n32_items(*old(v)).push(value),
        sv_u8n32_cap(*final(v)) == grown(sv_u8n32_items(*old(v)).len(), sv_u8n32_cap(*old(v)), 1),
{
    v.inner.push(value)
}

/// `pop`: the last item, removed, or `None` when empty; the capacity stays.
#[verifier::external_body]
pub(crate) fn small_vec_u8n32_pop(v: &mut SmallVecU8N32) -> (r: Option<u8>)
    requires
        old(v).wf(),
    ensures
        final(v).wf(),
        sv_u8n32_cap(*final(v)) == sv_u8n32_cap(*old(v)),
        sv_u8n32_items(*old(v)).len() == 0 ==> r is None && sv_u8n32_items(*final(v)) == sv_u8n32_items(*old(v)),
        sv_u8n32_items(*old(v)).len() > 0 ==> r == Some(sv_u8n32_items(*old(v)).last()) && sv_u8n32_items(*final(v)) == sv_u8n32_items(*old(v)).drop_last(),
{
    v.inner.pop()
}

/// `insert`: `element` placed at `index`, later items shifted right; it first
/// reserves room for one item, and panics when `index > len`.
#[verifier::external_body]
pub(crate) fn small_vec_u8n32_insert(v: &mut SmallVecU8N32, index: usize, element: u8)
    requires
        old(v).wf(),
        index <= sv_u8n32_items(*old(v)).len(),
        !growth_overflows(sv_u8n32_items(*old(v)).len(), sv_u8n32_cap(*old(v)), 1, 1),
    ensures
        final(v).wf(),
        sv_u8n32_items(*final(v)) == sv_u8n32_items(*old(v)).insert(index as int, element),
        sv_u8n32_cap(*final(v)) == grown(sv_u8n32_items(*old(v)).len(), sv_u8n32_cap(*old(v)), 1),
{
    v.inner.insert(index, element)
}

/// `remove`: the item at `index`, later items shifted left; it panics when
/// `index >= len`.
#[verifier::external_body]
pub(crate) fn small_vec_u8n32_remove(v: &mut SmallVecU8N32, index: usize) -> (r: u8)
    requires
        old(v).wf(),
        index < sv_u8n32_items(*old(v)).len(),
    ensures
        final(v).wf(),
        r == sv_u8n32_items(*old(v))[index as int],
        sv_u8n32_items(*final(v)) == sv_u8n32_items(*old(v)).remove(index as int),
        sv_u8n32_cap(*final(v)) == sv_u8n32_cap(*old(v)),
{
    v.inner.remove(index)
}

/// `swap_remove`: the item at `index`, replaced by the last item; it panics
/// when `index >= len`.
#[verifier::external_body]
pub(crate) fn small_vec_u8n32_swap_remove(v: &mut SmallVecU8N32, index: usize) -> (r: u8)
    requires
        old(v).wf(),
        index < sv_u8n32_items(*old(v)).len(),
    ensures
        final(v).wf(),
        r == sv_u8n32_items(*old(v))[index as int],
        sv_u8n32_items(*final(v)) == sv_u8n32_items(*old(v)).update(index as int, sv_u8n32_items(*old(v)).last()).drop_last(),
        sv_u8n32_cap(*final(v)) == sv_u8n32_cap(*old(v)),
{
    v.inner.swap_remove(index)
}

/// `truncate`: the first `len` items kept (all of them when there are fewer).
#[verifier::external_body]
pub(crate) fn small_vec_u8n32_truncate(v: &mut SmallVecU8N32, len: usize)
    requires
        old(v).wf(),
    ensures
        final(v).wf(),
        sv_u8n32_items(*final(v)) == if len < sv_u8n32_items(*old(v)).len() { sv_u8n32_items(*old(v)).take(len as int) } else { sv_u8n32_items(*old(v)) },
        sv_u8n32_cap(*final(v)) == sv_u8n32_cap(*old(v)),
{
    v.inner.truncate(len)
}

/// `clear`: no items left; the capacity stays.
#[verifier::external_body]
pub(crate) fn small_vec_u8n32_clear(v: &mut SmallVecU8N32)
    requires
        old(v).wf(),
    ensures
        final(v).wf(),
        sv_u8n32_items(*final(v)) == Seq::<u8>::empty(),
        sv_u8n32_cap(*final(v)) == sv_u8n32_cap(*old(v)),
{
    v.inner.clear()
}

/// `reserve`: room for `additional` more items by amortised doubling; the
/// size computation must not overflow.
#[verifier::external_body]
pub(crate) fn small_vec_u8n32_reserve(v: &mut SmallVecU8N32, additional: usize)
    requires
        old(v).wf(),
        !growth_overflows(sv_u8n32_items(*old(v)).len(), sv_u8n32_cap(*old(v)), additional as nat, 1),
    ensures
        final(v).wf(),
        sv_u8n32_items(*final(v)) == sv_u8n32_items(*old(v)),
        sv_u8n32_cap(*final(v)) == grown(sv_u8n32_items(*old(v)).len(), sv_u8n32_cap(*old(v)), additional as nat),
{
    v.inner.reserve(additional)
}

/// `reserve_exact`: room for exactly `additional` more items when there is
/// not enough; the size computation must not overflow.
#[verifier::external_body]
pub(crate) fn small_vec_u8n32_reserve_exact(v: &mut SmallVecU8N32, additional: usize)
    requires
        old(v).wf(),
        !exact_growth_overflows(sv_u8n32_items(*old(v)).len(), sv_u8n32_cap(*old(v)), additional as nat, 1),
    ensures
        final(v).wf(),
        sv_u8n32_items(*final(v)) == sv_u8n32_items(*old(v)),
        sv_u8n32_cap(*final(v)) == exact_grown(sv_u8n32_items(*old(v)).len(), sv_u8n32_cap(*old(v)), additional as nat),
{
    v.inner.reserve_exact(additional)
}

/// `grow`: the capacity set to `new_cap`, or back to inline when
/// `new_cap <= 32`; it panics when `new_cap < len` or when the size
/// computation overflows.
#[verifier::external_body]
pub(crate) fn small_vec_u8n32_grow(v: &mut SmallVecU8N32, new_cap: usize)
    requires
        old(v).wf(),
        new_cap >= sv_u8n32_items(*old(v)).len(),
        new_cap <= 32 || new_cap * 1 <= isize::MAX,
    ensures
        final(v).wf(),
        sv_u8n32_items(*final(v)) == sv_u8n32_items(*old(v)),
        sv_u8n32_cap(*final(v)) == if new_cap <= 32 { 32 } else { new_cap as nat },
{
    v.inner.grow(new_cap)
}

/// `shrink_to_fit`: a heap vector moves back inline when its items fit there,
/// else its buffer shrinks to its length.
#[verifier::external_body]
pub(crate) fn small_vec_u8n32_shrink_to_fit(v: &mut SmallVecU8N32)
    requires
        old(v).wf(),
    ensures
        final(v).wf(),
        sv_u8n32_items(*final(v)) == sv_u8n32_items(*old(v)),
        sv_u8n32_cap(*final(v)) == if sv_u8n32_cap(*old(v)) == 32 || sv_u8n32_items(*old(v)).len() <= 32 { 32 } else { sv_u8n32_items(*old(v)).len() },
{
    v.inner.shrink_to_fit()
}

/// `extend_from_slice`: the items of `slice` appended, after reserving room
/// for all of them.
#[verifier::external_body]
pub(crate) fn small_vec_u8n32_extend_from_slice(v: &mut SmallVecU8N32, slice: &[u8])
    requires
        old(v).wf(),
        !growth_overflows(sv_u8n32_items(*old(v)).len(), sv_u8n32_cap(*old(v)), slice@.len(), 1),
    ensures
        final(v).wf(),
        sv_u8n32_items(*final(v)) == sv_u8n32_items(*old(v)) + slice@,
        sv_u8n32_cap(*final(v)) == grown(sv_u8n32_items(*old(v)).len(), sv_u8n32_cap(*old(v)), slice@.len()),
{
    v.inner.extend_from_slice(slice)
}

/// `drain` of `start..end`, run to its end: the removed items, in order; the
/// items after the range close the gap. It panics unless
/// `start <= end <= len`.
#[verifier::external_body]
pub(crate) fn small_vec_u8n32_drain(v: &mut SmallVecU8N32, start: usize, end: usize) -> (r: Vec<u8>)
    requires
        old(v).wf(),
        start <= end <= sv_u8n32_items(*old(v)).len(),
    ensures
        final(v).wf(),
        r@ == sv_u8n32_items(*old(v)).subrange(start as int, end as int),
        sv_u8n32_items(*final(v)) == sv_u8n32_items(*old(v)).take(start as int) + sv_u8n32_items(*old(v)).skip(end as int),
        sv_u8n32_cap(*final(v)) == sv_u8n32_cap(*old(v)),
{
    v.inner.drain(start..end).collect()
}

/// `insert_many` with the items of `vec`: placed at `index`, later items
/// shifted right, after reserving room for all of them; it panics when
/// `index > len`.
#[verifier::external_body]
pub(crate) fn small_vec_u8n32_insert_many(v: &mut SmallVecU8N32, index: usize, vec: Vec<u8>)
    requires
        old(v).wf(),
        index <= sv_u8n32_items(*old(v)).len(),
        !growth_overflows(sv_u8n32_items(*old(v)).len(), sv_u8n32_cap(*old(v)), vec@.len(), 1),
    ensures
        final(v).wf(),
        sv_u8n32_items(*final(v)) == sv_u8n32_items(*old(v)).take(index as int) + vec@ + sv_u8n32_items(*old(v)).skip(index as int),
        sv_u8n32_cap(*final(v)) == grown(sv_u8n32_items(*old(v)).len(), sv_u8n32_cap(*old(v)), vec@.len()),
{
    v.inner.insert_many(index, vec)
}

/// `as_slice`: the items.
#[verifier::external_body]
pub(crate) fn small_vec_u8n32_as_slice(v: &SmallVecU8N32) -> (r: &[u8])
    ensures
        r@ == sv_u8n32_items(*v),
{
    v.inner.as_slice()
}

/// `as_mut_slice`: the items, to be written in place.
#[verifier::external_body]
pub(crate) fn small_vec_u8n32_as_mut_slice(v: &mut SmallVecU8N32) -> (r: &mut [u8])
    requires
        old(v).wf(),
    ensures
        r@ == sv_u8n32_items(*old(v)),
        sv_u8n32_items(*final(v)) == final(r)@,
        sv_u8n32_cap(*final(v)) == sv_u8n32_cap(*old(v)),
{
    v.inner.as_mut_slice()
}

/// `Deref`: the items.
#[verifier::external_body]
pub(crate) fn small_vec_u8n32_deref(v: &SmallVecU8N32) -> (r: &[u8])
    ensures
        r@ == sv_u8n32_items(*v),
{
    std::ops::Deref::deref(&v.inner)
}

/// `Borrow<[T]>`: the items.
#[verifier::external_body]
pub(crate) fn small_vec_u8n32_borrow(v: &SmallVecU8N32) -> (r: &[u8])
    ensures
        r@ == sv_u8n32_items(*v),
{
    std::borrow::Borrow::<[u8]>::borrow(&v.inner)
}

/// `BorrowMut<[T]>`: the items, to be written in place.
#[verifier::external_body]
pub(crate) fn small_vec_u8n32_borrow_mut(v: &mut SmallVecU8N32) -> (r: &mut [u8])
    requires
        old(v).wf(),
    ensures
        r@ == sv_u8n32_items(*old(v)),
        sv_u8n32_items(*final(v)) == final(r)@,
        sv_u8n32_cap(*final(v)) == sv_u8n32_cap(*old(v)),
{
    std::borrow::BorrowMut::<[u8]>::borrow_mut(&mut v.inner)
}

/// `SmallVec::from_vec`: the items of `vec`; inline when the vector's own
/// capacity is at most 32, else taking over its buffer, whose capacity
/// nothing here states.
#[verifier::external_body]
pub(crate) fn small_vec_u8n32_from_vec(vec: Vec<u8>) -> (r: SmallVecU8N32)
    ensures
        r.wf(),
        sv_u8n32_items(r) == vec@,
{
    SmallVecU8N32 { inner: smallvec::SmallVec::from_vec(vec) }
}

} // verus!

//! `SmallVec<[u32; 16]>` of the outside crate, behind trusted wrappers.
//!
//! The outside type is held in a private field: Verus sees a value of it only
//! through two names, the items it holds and the capacity it records. Each
//! wrapper states, over those names, what the crate's source does.
use vstd::prelude::*;
use crate::small_vec::{
    dedup_seq, exact_growth_overflows, exact_grown, growth_overflows, grown, lex_order, repeat, u32_ints, Order,
};

verus! {

/// A small vector of `u32` with room for 16 items inline.
#[verifier::external_body]
pub struct SmallVecU32 {
    inner: smallvec::SmallVec<[u32; 16]>,
}

/// The items a `SmallVec<[u32; 16]>` holds, in order.
pub uninterp spec fn sv_u32_items(v: SmallVecU32) -> Seq<u32>;

/// The capacity a `SmallVec<[u32; 16]>` records (16 while it is inline).
pub uninterp spec fn sv_u32_cap(v: SmallVecU32) -> nat;

impl View for SmallVecU32 {
    type V = Seq<u32>;

    open spec fn view(&self) -> Seq<u32> {
        sv_u32_items(*self)
    }
}

impl SmallVecU32 {
    /// The capacity that `capacity()` reports.
    pub open spec fn cap(self) -> nat {
        sv_u32_cap(self)
    }

    /// What every vector of this type satisfies: it holds at most its
    /// capacity, is never smaller than its inline size, and a heap buffer
    /// never exceeds `isize::MAX` bytes.
    pub open spec fn wf(self) -> bool {
        &&& self@.len() <= self.cap()
        &&& self.cap() >= 16
        &&& self.cap() * 4 <= isize::MAX || self.cap() == 16
    }

    /// Whether the items live in a heap buffer.
    pub open spec fn is_spilled(self) -> bool {
        self.cap() > 16
    }
}

/// `SmallVec::new`: empty and inline.
#[verifier::external_body]
pub(crate) fn small_vec_u32_new() -> (r: SmallVecU32)
    ensures
        r.wf(),
        sv_u32_items(r) == Seq::<u32>::empty(),
        sv_u32_cap(r) == 16,
{
    SmallVecU32 { inner: smallvec::SmallVec::new() }
}

/// `SmallVec::with_capacity`: empty, with room for `n` items (inline when
/// `n <= 16`); the size computation must not overflow.
#[verifier::external_body]
pub(crate) fn small_vec_u32_with_capacity(n: usize) -> (r: SmallVecU32)
    requires
        !exact_growth_overflows(0, 16, n as nat, 4),
    ensures
        r.wf(),
        sv_u32_items(r) == Seq::<u32>::empty(),
        sv_u32_cap(r) == if n <= 16 { 16 } else { n as nat },
{
    SmallVecU32 { inner: smallvec::SmallVec::with_capacity(n) }
}

/// `SmallVec::from_vec`: the items of `vec`; inline when the vector's own
/// capacity is at most 16, else taking over its buffer.
#[verifier::external_body]
pub(crate) fn small_vec_u32_from_vec(vec: Vec<u32>) -> (r: SmallVecU32)
    ensures
        r.wf(),
        sv_u32_items(r) == vec@,
{
    SmallVecU32 { inner: smallvec::SmallVec::from_vec(vec) }
}

/// `SmallVec::from_buf`: all 16 items of `buf`, inline.
#[verifier::external_body]
pub(crate) fn small_vec_u32_from_buf(buf: [u32; 16]) -> (r: SmallVecU32)
    ensures
        r.wf(),
        sv_u32_items(r) == buf@,
        sv_u32_cap(r) == 16,
{
    SmallVecU32 { inner: smallvec::SmallVec::from_buf(buf) }
}

/// `SmallVec::from_buf_and_len`: the first `len` items of `buf`, inline; it
/// panics when `len > 16`.
#[verifier::external_body]
pub(crate) fn small_vec_u32_from_buf_and_len(buf: [u32; 16], len: usize) -> (r: SmallVecU32)
    requires
        len <= 16,
    ensures
        r.wf(),
        sv_u32_items(r) == buf@.take(len as int),
        sv_u32_cap(r) == 16,
{
    SmallVecU32 { inner: smallvec::SmallVec::from_buf_and_len(buf, len) }
}

/// `SmallVec::from_elem`: `n` copies of `elem`; inline when `n <= 16`, else
/// through `vec![elem; n]`, whose size computation must not overflow.
#[verifier::external_body]
pub(crate) fn small_vec_u32_from_elem(elem: u32, n: usize) -> (r: SmallVecU32)
    requires
        n <= 16 || n * 4 <= isize::MAX,
    ensures
        r.wf(),
        sv_u32_items(r) == repeat(elem, n as nat),
        n <= 16 ==> sv_u32_cap(r) == 16,
{
    SmallVecU32 { inner: smallvec::SmallVec::from_elem(elem, n) }
}

/// `SmallVec::from_slice`: a copy of `slice`; inline when it has at most 16
/// items.
#[verifier::external_body]
pub(crate) fn small_vec_u32_from_slice(slice: &[u32]) -> (r: SmallVecU32)
    ensures
        r.wf(),
        sv_u32_items(r) == slice@,
        slice@.len() <= 16 ==> sv_u32_cap(r) == 16,
{
    SmallVecU32 { inner: smallvec::SmallVec::from_slice(slice) }
}

/// `FromIterator` over the items of `vec`: an empty vector extended by them,
/// which first reserves room for all of them.
#[verifier::external_body]
pub(crate) fn small_vec_u32_from_iter(vec: Vec<u32>) -> (r: SmallVecU32)
    requires
        !growth_overflows(0, 16, vec@.len(), 4),
    ensures
        r.wf(),
        sv_u32_items(r) == vec@,
        sv_u32_cap(r) == grown(0, 16, vec@.len()),
{
    SmallVecU32 { inner: <smallvec::SmallVec<[u32; 16]> as std::iter::FromIterator<u32>>::from_iter(vec.into_iter()) }
}

/// `to_smallvec` on a slice: a copy of it, as `from_slice` makes.
#[verifier::external_body]
pub(crate) fn small_vec_u32_to_small_vec(slice: &[u32]) -> (r: SmallVecU32)
    ensures
        r.wf(),
        sv_u32_items(r) == slice@,
        slice@.len() <= 16 ==> sv_u32_cap(r) == 16,
{
    SmallVecU32 { inner: smallvec::ToSmallVec::to_smallvec(slice) }
}

/// `Clone`: the same items, collected into a new vector that reserves room
/// for all of them.
#[verifier::external_body]
pub(crate) fn small_vec_u32_clone(v: &SmallVecU32) -> (r: SmallVecU32)
    requires
        v.wf(),
        !growth_overflows(0, 16, sv_u32_items(*v).len(), 4),
    ensures
        r.wf(),
        sv_u32_items(r) == sv_u32_items(*v),
        sv_u32_cap(r) == grown(0, 16, sv_u32_items(*v).len()),
{
    SmallVecU32 { inner: v.inner.clone() }
}

/// `as_ptr`: the address of the buffer, as an integer. Nothing is stated of
/// it: it depends on where the vector lives and what the allocator gave.
#[verifier::external_body]
pub(crate) fn small_vec_u32_as_ptr(v: &SmallVecU32) -> usize {
    v.inner.as_ptr() as usize
}

/// `as_mut_ptr`: the address of the buffer, as an integer (nothing is stated
/// of it); the vector is left as it was.
#[verifier::external_body]
pub(crate) fn small_vec_u32_as_mut_ptr(v: &mut SmallVecU32) -> (r: usize)
    ensures
        sv_u32_items(*final(v)) == sv_u32_items(*old(v)),
        sv_u32_cap(*final(v)) == sv_u32_cap(*old(v)),
{
    v.inner.as_mut_ptr() as usize
}

/// `as_slice`: the items.
#[verifier::external_body]
pub(crate) fn small_vec_u32_as_slice(v: &SmallVecU32) -> (r: &[u32])
    ensures
        r@ == sv_u32_items(*v),
{
    v.inner.as_slice()
}

/// `Deref`: the items.
#[verifier::external_body]
pub(crate) fn small_vec_u32_deref(v: &SmallVecU32) -> (r: &[u32])
    ensures
        r@ == sv_u32_items(*v),
{
    std::ops::Deref::deref(&v.inner)
}

/// `Borrow<[u32]>`: the items.
#[verifier::external_body]
pub(crate) fn small_vec_u32_borrow(v: &SmallVecU32) -> (r: &[u32])
    ensures
        r@ == sv_u32_items(*v),
{
    std::borrow::Borrow::borrow(&v.inner)
}

/// `AsRef<[u32]>`: the items.
#[verifier::external_body]
pub(crate) fn small_vec_u32_as_ref(v: &SmallVecU32) -> (r: &[u32])
    ensures
        r@ == sv_u32_items(*v),
{
    std::convert::AsRef::as_ref(&v.inner)
}

/// `len`: the number of items.
#[verifier::external_body]
pub(crate) fn small_vec_u32_len(v: &SmallVecU32) -> (r: usize)
    ensures
        r == sv_u32_items(*v).len(),
{
    v.inner.len()
}

/// `capacity`: the recorded capacity.
#[verifier::external_body]
pub(crate) fn small_vec_u32_capacity(v: &SmallVecU32) -> (r: usize)
    ensures
        r == sv_u32_cap(*v),
{
    v.inner.capacity()
}

/// `is_empty`: whether there are no items.
#[verifier::external_body]
pub(crate) fn small_vec_u32_is_empty(v: &SmallVecU32) -> (r: bool)
    ensures
        r == (sv_u32_items(*v).len() == 0),
{
    v.inner.is_empty()
}

/// `spilled`: whether the capacity exceeds the inline size.
#[verifier::external_body]
pub(crate) fn small_vec_u32_spilled(v: &SmallVecU32) -> (r: bool)
    ensures
        r == (sv_u32_cap(*v) > 16),
{
    v.inner.spilled()
}


/// `push`: `value` appended; a full vector first grows by amortised doubling,
/// whose size computation must not overflow.
#[verifier::external_body]
pub(crate) fn small_vec_u32_push(v: &mut SmallVecU32, value: u32)
    requires
        old(v).wf(),
        !growth_overflows(sv_u32_items(*old(v)).len(), sv_u32_cap(*old(v)), 1, 4),
    ensures
        final(v).wf(),
        sv_u32_items(*final(v)) == sv_u32_items(*old(v)).push(value),
        sv_u32_cap(*final(v)) == grown(sv_u32_items(*old(v)).len(), sv_u32_cap(*old(v)), 1),
{
    v.inner.push(value)
}

/// `pop`: the last item, removed, or `None` when empty; the capacity stays.
#[verifier::external_body]
pub(crate) fn small_vec_u32_pop(v: &mut SmallVecU32) -> (r: Option<u32>)
    requires
        old(v).wf(),
    ensures
        final(v).wf(),
        sv_u32_cap(*final(v)) == sv_u32_cap(*old(v)),
        sv_u32_items(*old(v)).len() == 0 ==> r is None && sv_u32_items(*final(v)) == sv_u32_items(*old(v)),
        sv_u32_items(*old(v)).len() > 0 ==> r == Some(sv_u32_items(*old(v)).last())
            && sv_u32_items(*final(v)) == sv_u32_items(*old(v)).drop_last(),
{
    v.inner.pop()
}

/// `insert`: `element` placed at `index`, later items shifted right; it first
/// reserves room for one item, and panics when `index > len`.
#[verifier::external_body]
pub(crate) fn small_vec_u32_insert(v: &mut SmallVecU32, index: usize, element: u32)
    requires
        old(v).wf(),
        index <= sv_u32_items(*old(v)).len(),
        !growth_overflows(sv_u32_items(*old(v)).len(), sv_u32_cap(*old(v)), 1, 4),
    ensures
        final(v).wf(),
        sv_u32_items(*final(v)) == sv_u32_items(*old(v)).insert(index as int, element),
        sv_u32_cap(*final(v)) == grown(sv_u32_items(*old(v)).len(), sv_u32_cap(*old(v)), 1),
{
    v.inner.insert(index, element)
}

/// `remove`: the item at `index`, later items shifted left; it panics when
/// `index >= len`.
#[verifier::external_body]
pub(crate) fn small_vec_u32_remove(v: &mut SmallVecU32, index: usize) -> (r: u32)
    requires
        old(v).wf(),
        index < sv_u32_items(*old(v)).len(),
    ensures
        final(v).wf(),
        r == sv_u32_items(*old(v))[index as int],
        sv_u32_items(*final(v)) == sv_u32_items(*old(v)).remove(index as int),
        sv_u32_cap(*final(v)) == sv_u32_cap(*old(v)),
{
    v.inner.remove(index)
}

/// `swap_remove`: the item at `index`, replaced by the last item; it panics
/// when `index >= len`.
#[verifier::external_body]
pub(crate) fn small_vec_u32_swap_remove(v: &mut SmallVecU32, index: usize) -> (r: u32)
    requires
        old(v).wf(),
        index < sv_u32_items(*old(v)).len(),
    ensures
        final(v).wf(),
        r == sv_u32_items(*old(v))[index as int],
        sv_u32_items(*final(v)) == sv_u32_items(*old(v)).update(
            index as int,
            sv_u32_items(*old(v)).last(),
        ).drop_last(),
        sv_u32_cap(*final(v)) == sv_u32_cap(*old(v)),
{
    v.inner.swap_remove(index)
}

/// `truncate`: the first `len` items kept (all of them when there are fewer).
#[verifier::external_body]
pub(crate) fn small_vec_u32_truncate(v: &mut SmallVecU32, len: usize)
    requires
        old(v).wf(),
    ensures
        final(v).wf(),
        sv_u32_items(*final(v)) == if len < sv_u32_items(*old(v)).len() {
            sv_u32_items(*old(v)).take(len as int)
        } else {
            sv_u32_items(*old(v))
        },
        sv_u32_cap(*final(v)) == sv_u32_cap(*old(v)),
{
    v.inner.truncate(len)
}

/// `clear`: no items left; the capacity stays.
#[verifier::external_body]
pub(crate) fn small_vec_u32_clear(v: &mut SmallVecU32)
    requires
        old(v).wf(),
    ensures
        final(v).wf(),
        sv_u32_items(*final(v)) == Seq::<u32>::empty(),
        sv_u32_cap(*final(v)) == sv_u32_cap(*old(v)),
{
    v.inner.clear()
}

/// `reserve`: room for `additional` more items by amortised doubling; the
/// size computation must not overflow.
#[verifier::external_body]
pub(crate) fn small_vec_u32_reserve(v: &mut SmallVecU32, additional: usize)
    requires
        old(v).wf(),
        !growth_overflows(sv_u32_items(*old(v)).len(), sv_u32_cap(*old(v)), additional as nat, 4),
    ensures
        final(v).wf(),
        sv_u32_items(*final(v)) == sv_u32_items(*old(v)),
        sv_u32_cap(*final(v)) == grown(sv_u32_items(*old(v)).len(), sv_u32_cap(*old(v)), additional as nat),
{
    v.inner.reserve(additional)
}

/// `try_reserve`: as `reserve`, reporting failure instead of panicking. It
/// fails whenever the size computation overflows; otherwise it may still fail
/// when the allocator refuses, which nothing here states. A failure leaves the
/// vector as it was.
#[verifier::external_body]
pub(crate) fn small_vec_u32_try_reserve(v: &mut SmallVecU32, additional: usize) -> (r: Result<(), smallvec::CollectionAllocErr>)
    requires
        old(v).wf(),
    ensures
        final(v).wf(),
        sv_u32_items(*final(v)) == sv_u32_items(*old(v)),
        growth_overflows(sv_u32_items(*old(v)).len(), sv_u32_cap(*old(v)), additional as nat, 4) ==> r is Err,
        sv_u32_cap(*old(v)) - sv_u32_items(*old(v)).len() >= additional ==> r is Ok,
        r is Ok ==> sv_u32_cap(*final(v)) == grown(sv_u32_items(*old(v)).len(), sv_u32_cap(*old(v)), additional as nat),
        r is Err ==> sv_u32_cap(*final(v)) == sv_u32_cap(*old(v)),
{
    v.inner.try_reserve(additional)
}

/// `shrink_to_fit`: a heap vector moves back inline when its items fit there,
/// else its buffer shrinks to its length.
#[verifier::external_body]
pub(crate) fn small_vec_u32_shrink_to_fit(v: &mut SmallVecU32)
    requires
        old(v).wf(),
    ensures
        final(v).wf(),
        sv_u32_items(*final(v)) == sv_u32_items(*old(v)),
        sv_u32_cap(*final(v)) == if sv_u32_cap(*old(v)) == 16 || sv_u32_items(*old(v)).len() <= 16 {
            16
        } else {
            sv_u32_items(*old(v)).len()
        },
{
    v.inner.shrink_to_fit()
}

/// `extend_from_slice`: the items of `slice` appended, after reserving room
/// for all of them.
#[verifier::external_body]
pub(crate) fn small_vec_u32_extend_from_slice(v: &mut SmallVecU32, slice: &[u32])
    requires
        old(v).wf(),
        !growth_overflows(sv_u32_items(*old(v)).len(), sv_u32_cap(*old(v)), slice@.len(), 4),
    ensures
        final(v).wf(),
        sv_u32_items(*final(v)) == sv_u32_items(*old(v)) + slice@,
        sv_u32_cap(*final(v)) == grown(sv_u32_items(*old(v)).len(), sv_u32_cap(*old(v)), slice@.len()),
{
    v.inner.extend_from_slice(slice)
}

/// `Extend` with the items of `vec`: appended, after reserving room for all
/// of them (the iterator reports its exact length).
#[verifier::external_body]
pub(crate) fn small_vec_u32_extend(v: &mut SmallVecU32, vec: Vec<u32>)
    requires
        old(v).wf(),
        !growth_overflows(sv_u32_items(*old(v)).len(), sv_u32_cap(*old(v)), vec@.len(), 4),
    ensures
        final(v).wf(),
        sv_u32_items(*final(v)) == sv_u32_items(*old(v)) + vec@,
        sv_u32_cap(*final(v)) == grown(sv_u32_items(*old(v)).len(), sv_u32_cap(*old(v)), vec@.len()),
{
    std::iter::Extend::extend(&mut v.inner, vec)
}

/// `append`: all items of `other` moved to the end of `v`, leaving `other`
/// empty with its capacity.
#[verifier::external_body]
pub(crate) fn small_vec_u32_append(v: &mut SmallVecU32, other: &mut SmallVecU32)
    requires
        old(v).wf(),
        old(other).wf(),
        !growth_overflows(
            sv_u32_items(*old(v)).len(),
            sv_u32_cap(*old(v)),
            sv_u32_items(*old(other)).len(),
            4,
        ),
    ensures
        final(v).wf(),
        final(other).wf(),
        sv_u32_items(*final(v)) == sv_u32_items(*old(v)) + sv_u32_items(*old(other)),
        sv_u32_cap(*final(v)) == grown(
            sv_u32_items(*old(v)).len(),
            sv_u32_cap(*old(v)),
            sv_u32_items(*old(other)).len(),
        ),
        sv_u32_items(*final(other)) == Seq::<u32>::empty(),
        sv_u32_cap(*final(other)) == sv_u32_cap(*old(other)),
{
    v.inner.append(&mut other.inner)
}

/// `insert_many` with the items of `vec`: placed at `index`, later items
/// shifted right, after reserving room for all of them; it panics when
/// `index > len`.
#[verifier::external_body]
pub(crate) fn small_vec_u32_insert_many(v: &mut SmallVecU32, index: usize, vec: Vec<u32>)
    requires
        old(v).wf(),
        index <= sv_u32_items(*old(v)).len(),
        !growth_overflows(sv_u32_items(*old(v)).len(), sv_u32_cap(*old(v)), vec@.len(), 4),
    ensures
        final(v).wf(),
        sv_u32_items(*final(v)) == sv_u32_items(*old(v)).take(index as int) + vec@ + sv_u32_items(
            *old(v),
        ).skip(index as int),
        sv_u32_cap(*final(v)) == grown(sv_u32_items(*old(v)).len(), sv_u32_cap(*old(v)), vec@.len()),
{
    v.inner.insert_many(index, vec)
}

/// `resize`: truncated to `len`, or extended to `len` with copies of
/// `value` after reserving room for them.
#[verifier::external_body]
pub(crate) fn small_vec_u32_resize(v: &mut SmallVecU32, len: usize, value: u32)
    requires
        old(v).wf(),
        len > sv_u32_items(*old(v)).len() ==> !growth_overflows(
            sv_u32_items(*old(v)).len(),
            sv_u32_cap(*old(v)),
            (len - sv_u32_items(*old(v)).len()) as nat,
            4,
        ),
    ensures
        final(v).wf(),
        len <= sv_u32_items(*old(v)).len() ==> sv_u32_items(*final(v)) == sv_u32_items(
            *old(v),
        ).take(len as int) && sv_u32_cap(*final(v)) == sv_u32_cap(*old(v)),
        len > sv_u32_items(*old(v)).len() ==> sv_u32_items(*final(v)) == sv_u32_items(*old(v))
            + repeat(value, (len - sv_u32_items(*old(v)).len()) as nat) && sv_u32_cap(*final(v))
            == grown(
            sv_u32_items(*old(v)).len(),
            sv_u32_cap(*old(v)),
            (len - sv_u32_items(*old(v)).len()) as nat,
        ),
{
    v.inner.resize(len, value)
}

/// `retain` with the predicate "is even": the even items kept, in order.
#[verifier::external_body]
pub(crate) fn small_vec_u32_retain_even(v: &mut SmallVecU32)
    requires
        old(v).wf(),
    ensures
        final(v).wf(),
        sv_u32_items(*final(v)) == sv_u32_items(*old(v)).filter(|x: u32| x % 2 == 0),
        sv_u32_cap(*final(v)) == sv_u32_cap(*old(v)),
{
    v.inner.retain(|x: &mut u32| is_even(*x))
}

/// Whether `x` is even.
pub fn is_even(x: u32) -> (r: bool)
    ensures
        r == (x % 2 == 0),
{
    x % 2 == 0
}

/// `dedup`: runs of equal neighbours reduced to one item.
#[verifier::external_body]
pub(crate) fn small_vec_u32_dedup(v: &mut SmallVecU32)
    requires
        old(v).wf(),
    ensures
        final(v).wf(),
        sv_u32_items(*final(v)) == dedup_seq(sv_u32_items(*old(v))),
        sv_u32_cap(*final(v)) == sv_u32_cap(*old(v)),
{
    v.inner.dedup()
}

/// `drain` of `start..end`, run to its end: the removed items, in order; the
/// items after the range close the gap. It panics unless
/// `start <= end <= len`.
#[verifier::external_body]
pub(crate) fn small_vec_u32_drain(v: &mut SmallVecU32, start: usize, end: usize) -> (r: Vec<u32>)
    requires
        old(v).wf(),
        start <= end <= sv_u32_items(*old(v)).len(),
    ensures
        final(v).wf(),
        r@ == sv_u32_items(*old(v)).subrange(start as int, end as int),
        sv_u32_items(*final(v)) == sv_u32_items(*old(v)).take(start as int) + sv_u32_items(
            *old(v),
        ).skip(end as int),
        sv_u32_cap(*final(v)) == sv_u32_cap(*old(v)),
{
    v.inner.drain(start..end).collect()
}

/// `as_mut_slice`: the items, to be written in place.
#[verifier::external_body]
pub(crate) fn small_vec_u32_as_mut_slice(v: &mut SmallVecU32) -> (r: &mut [u32])
    requires
        old(v).wf(),
    ensures
        r@ == sv_u32_items(*old(v)),
        sv_u32_items(*final(v)) == final(r)@,
        sv_u32_cap(*final(v)) == sv_u32_cap(*old(v)),
{
    v.inner.as_mut_slice()
}

/// `Ord::cmp`: the lexicographic order of the items.
#[verifier::external_body]
pub(crate) fn small_vec_u32_compare(a: &SmallVecU32, b: &SmallVecU32) -> (r: Order)
    ensures
        r == lex_order(
            u32_ints(sv_u32_items(*a)),
            u32_ints(sv_u32_items(*b)),
        ),
{
    match std::cmp::Ord::cmp(&a.inner, &b.inner) {
        std::cmp::Ordering::Less => Order::Less,
        std::cmp::Ordering::Equal => Order::Equal,
        std::cmp::Ordering::Greater => Order::Greater,
    }
}

/// `PartialOrd::partial_cmp`: always `Some` of the lexicographic order.
#[verifier::external_body]
pub(crate) fn small_vec_u32_partial_compare(a: &SmallVecU32, b: &SmallVecU32) -> (r: Option<Order>)
    ensures
        r == Some(
            lex_order(
                u32_ints(sv_u32_items(*a)),
                u32_ints(sv_u32_items(*b)),
            ),
        ),
{
    match std::cmp::PartialOrd::partial_cmp(&a.inner, &b.inner) {
        Some(std::cmp::Ordering::Less) => Some(Order::Less),
        Some(std::cmp::Ordering::Equal) => Some(Order::Equal),
        Some(std::cmp::Ordering::Greater) => Some(Order::Greater),
        None => None,
    }
}

/// `PartialEq::eq`: whether the items are equal.
#[verifier::external_body]
pub(crate) fn small_vec_u32_eq(a: &SmallVecU32, b: &SmallVecU32) -> (r: bool)
    ensures
        r == (sv_u32_items(*a) == sv_u32_items(*b)),
{
    a.inner == b.inner
}

/// `into_vec`: the items, as a `Vec`.
#[verifier::external_body]
pub(crate) fn small_vec_u32_into_vec(v: SmallVecU32) -> (r: Vec<u32>)
    ensures
        r@ == sv_u32_items(v),
{
    v.inner.into_vec()
}

/// `into_iter`, run to its end: the items in order.
#[verifier::external_body]
pub(crate) fn small_vec_u32_into_iter(v: SmallVecU32) -> (r: Vec<u32>)
    ensures
        r@ == sv_u32_items(v),
{
    v.inner.into_iter().collect()
}

/// `into_boxed_slice`: the items, as a boxed slice.
#[verifier::external_body]
pub(crate) fn small_vec_u32_into_boxed_slice(v: SmallVecU32) -> (r: Box<[u32]>)
    ensures
        r@ == sv_u32_items(v),
{
    v.inner.into_boxed_slice()
}

/// `into_inner`: the inline array when the vector is inline and full, else
/// the vector back.
#[verifier::external_body]
pub(crate) fn small_vec_u32_into_inner(v: SmallVecU32) -> (r: Result<[u32; 16], SmallVecU32>)
    ensures
        (r is Ok) == (sv_u32_cap(v) == 16 && sv_u32_items(v).len() == 16),
        r matches Ok(a) ==> a@ == sv_u32_items(v),
        r matches Err(w) ==> w == v,
{
    match v.inner.into_inner() {
        Ok(a) => Ok(a),
        Err(inner) => Err(SmallVecU32 { inner }),
    }
}

/// `reserve_exact`: room for exactly `additional` more items when there is
/// not enough; the size computation must not overflow.
#[verifier::external_body]
pub(crate) fn small_vec_u32_reserve_exact(v: &mut SmallVecU32, additional: usize)
    requires
        old(v).wf(),
        !exact_growth_overflows(sv_u32_items(*old(v)).len(), sv_u32_cap(*old(v)), additional as nat, vstd::layout::size_of::<u32>()),
    ensures
        final(v).wf(),
        sv_u32_items(*final(v)) == sv_u32_items(*old(v)),
        sv_u32_cap(*final(v)) == exact_grown(sv_u32_items(*old(v)).len(), sv_u32_cap(*old(v)), additional as nat),
{
    v.inner.reserve_exact(additional)
}

} // verus!

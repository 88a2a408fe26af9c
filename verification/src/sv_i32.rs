//! `SmallVec<[i32; 16]>` of the outside crate, behind trusted wrappers.
//!
//! The outside type is held in a private field: Verus sees a value of it only
//! through two names, the items it holds and the capacity it records. Each
//! wrapper states, over those names, what the crate's source does.
use vstd::prelude::*;
use crate::small_vec::{
    dedup_seq, exact_growth_overflows, exact_grown, growth_overflows, grown, lex_order, repeat, i32_ints, Order,
};

verus! {

/// A small vector of `i32` with room for 16 items inline.
#[verifier::external_body]
pub struct SmallVecI32 {
    inner: smallvec::SmallVec<[i32; 16]>,
}

/// The items a `SmallVec<[i32; 16]>` holds, in order.
pub uninterp spec fn sv_i32_items(v: SmallVecI32) -> Seq<i32>;

/// The capacity a `SmallVec<[i32; 16]>` records (16 while it is inline).
pub uninterp spec fn sv_i32_cap(v: SmallVecI32) -> nat;

impl View for SmallVecI32 {
    type V = Seq<i32>;

    open spec fn view(&self) -> Seq<i32> {
        sv_i32_items(*self)
    }
}

impl SmallVecI32 {
    /// The capacity that `capacity()` reports.
    pub open spec fn cap(self) -> nat {
        sv_i32_cap(self)
    }

    /// What every vector of this type satisfies: it holds at most its
    /// capacity, is never smaller than its inline size, and a heap buffer
    /// never exceeds `isize::MAX` bytes.
    pub open spec fn wf(self) -> bool {
        &&& self@.len() <= self.cap()
        &&& self.cap() >= 16
        &&& self.cap() * 4 <= isize::MAX || self.cap() == 16
    }

    /// Whether the items live in a heap buffer.
    pub open spec fn is_spilled(self) -> bool {
        self.cap() > 16
    }
}

/// `SmallVec::new`: empty and inline.
#[verifier::external_body]
pub(crate) fn small_vec_i32_new() -> (r: SmallVecI32)
    ensures
        r.wf(),
        sv_i32_items(r) == Seq::<i32>::empty(),
        sv_i32_cap(r) == 16,
{
    SmallVecI32 { inner: smallvec::SmallVec::new() }
}

/// `SmallVec::with_capacity`: empty, with room for `n` items (inline when
/// `n <= 16`); the size computation must not overflow.
#[verifier::external_body]
pub(crate) fn small_vec_i32_with_capacity(n: usize) -> (r: SmallVecI32)
    requires
        !exact_growth_overflows(0, 16, n as nat, 4),
    ensures
        r.wf(),
        sv_i32_items(r) == Seq::<i32>::empty(),
        sv_i32_cap(r) == if n <= 16 { 16 } else { n as nat },
{
    SmallVecI32 { inner: smallvec::SmallVec::with_capacity(n) }
}

/// `SmallVec::from_vec`: the items of `vec`; inline when the vector's own
/// capacity is at most 16, else taking over its buffer.
#[verifier::external_body]
pub(crate) fn small_vec_i32_from_vec(vec: Vec<i32>) -> (r: SmallVecI32)
    ensures
        r.wf(),
        sv_i32_items(r) == vec@,
{
    SmallVecI32 { inner: smallvec::SmallVec::from_vec(vec) }
}

/// `SmallVec::from_buf`: all 16 items of `buf`, inline.
#[verifier::external_body]
pub(crate) fn small_vec_i32_from_buf(buf: [i32; 16]) -> (r: SmallVecI32)
    ensures
        r.wf(),
        sv_i32_items(r) == buf@,
        sv_i32_cap(r) == 16,
{
    SmallVecI32 { inner: smallvec::SmallVec::from_buf(buf) }
}

/// `SmallVec::from_buf_and_len`: the first `len` items of `buf`, inline; it
/// panics when `len > 16`.
#[verifier::external_body]
pub(crate) fn small_vec_i32_from_buf_and_len(buf: [i32; 16], len: usize) -> (r: SmallVecI32)
    requires
        len <= 16,
    ensures
        r.wf(),
        sv_i32_items(r) == buf@.take(len as int),
        sv_i32_cap(r) == 16,
{
    SmallVecI32 { inner: smallvec::SmallVec::from_buf_and_len(buf, len) }
}

/// `SmallVec::from_elem`: `n` copies of `elem`; inline when `n <= 16`, else
/// through `vec![elem; n]`, whose size computation must not overflow.
#[verifier::external_body]
pub(crate) fn small_vec_i32_from_elem(elem: i32, n: usize) -> (r: SmallVecI32)
    requires
        n <= 16 || n * 4 <= isize::MAX,
    ensures
        r.wf(),
        sv_i32_items(r) == repeat(elem, n as nat),
        n <= 16 ==> sv_i32_cap(r) == 16,
{
    SmallVecI32 { inner: smallvec::SmallVec::from_elem(elem, n) }
}

/// `SmallVec::from_slice`: a copy of `slice`; inline when it has at most 16
/// items.
#[verifier::external_body]
pub(crate) fn small_vec_i32_from_slice(slice: &[i32]) -> (r: SmallVecI32)
    ensures
        r.wf(),
        sv_i32_items(r) == slice@,
        slice@.len() <= 16 ==> sv_i32_cap(r) == 16,
{
    SmallVecI32 { inner: smallvec::SmallVec::from_slice(slice) }
}

/// `FromIterator` over the items of `vec`: an empty vector extended by them,
/// which first reserves room for all of them.
#[verifier::external_body]
pub(crate) fn small_vec_i32_from_iter(vec: Vec<i32>) -> (r: SmallVecI32)
    requires
        !growth_overflows(0, 16, vec@.len(), 4),
    ensures
        r.wf(),
        sv_i32_items(r) == vec@,
        sv_i32_cap(r) == grown(0, 16, vec@.len()),
{
    SmallVecI32 { inner: <smallvec::SmallVec<[i32; 16]> as std::iter::FromIterator<i32>>::from_iter(vec.into_iter()) }
}

/// `to_smallvec` on a slice: a copy of it, as `from_slice` makes.
#[verifier::external_body]
pub(crate) fn small_vec_i32_to_small_vec(slice: &[i32]) -> (r: SmallVecI32)
    ensures
        r.wf(),
        sv_i32_items(r) == slice@,
        slice@.len() <= 16 ==> sv_i32_cap(r) == 16,
{
    SmallVecI32 { inner: smallvec::ToSmallVec::to_smallvec(slice) }
}

/// `Clone`: the same items, collected into a new vector that reserves room
/// for all of them.
#[verifier::external_body]
pub(crate) fn small_vec_i32_clone(v: &SmallVecI32) -> (r: SmallVecI32)
    requires
        v.wf(),
        !growth_overflows(0, 16, sv_i32_items(*v).len(), 4),
    ensures
        r.wf(),
        sv_i32_items(r) == sv_i32_items(*v),
        sv_i32_cap(r) == grown(0, 16, sv_i32_items(*v).len()),
{
    SmallVecI32 { inner: v.inner.clone() }
}

/// `as_mut_ptr`: the address of the buffer, as an integer (nothing is stated
/// of it); the vector is left as it was.
#[verifier::external_body]
pub(crate) fn small_vec_i32_as_mut_ptr(v: &mut SmallVecI32) -> (r: usize)
    ensures
        sv_i32_items(*final(v)) == sv_i32_items(*old(v)),
        sv_i32_cap(*final(v)) == sv_i32_cap(*old(v)),
{
    v.inner.as_mut_ptr() as usize
}

/// `as_slice`: the items.
#[verifier::external_body]
pub(crate) fn small_vec_i32_as_slice(v: &SmallVecI32) -> (r: &[i32])
    ensures
        r@ == sv_i32_items(*v),
{
    v.inner.as_slice()
}

/// `Deref`: the items.
#[verifier::external_body]
pub(crate) fn small_vec_i32_deref(v: &SmallVecI32) -> (r: &[i32])
    ensures
        r@ == sv_i32_items(*v),
{
    std::ops::Deref::deref(&v.inner)
}

/// `len`: the number of items.
#[verifier::external_body]
pub(crate) fn small_vec_i32_len(v: &SmallVecI32) -> (r: usize)
    ensures
        r == sv_i32_items(*v).len(),
{
    v.inner.len()
}

/// `capacity`: the recorded capacity.
#[verifier::external_body]
pub(crate) fn small_vec_i32_capacity(v: &SmallVecI32) -> (r: usize)
    ensures
        r == sv_i32_cap(*v),
{
    v.inner.capacity()
}

/// `is_empty`: whether there are no items.
#[verifier::external_body]
pub(crate) fn small_vec_i32_is_empty(v: &SmallVecI32) -> (r: bool)
    ensures
        r == (sv_i32_items(*v).len() == 0),
{
    v.inner.is_empty()
}

/// `push`: `value` appended; a full vector first grows by amortised doubling,
/// whose size computation must not overflow.
#[verifier::external_body]
pub(crate) fn small_vec_i32_push(v: &mut SmallVecI32, value: i32)
    requires
        old(v).wf(),
        !growth_overflows(sv_i32_items(*old(v)).len(), sv_i32_cap(*old(v)), 1, 4),
    ensures
        final(v).wf(),
        sv_i32_items(*final(v)) == sv_i32_items(*old(v)).push(value),
        sv_i32_cap(*final(v)) == grown(sv_i32_items(*old(v)).len(), sv_i32_cap(*old(v)), 1),
{
    v.inner.push(value)
}

/// `pop`: the last item, removed, or `None` when empty; the capacity stays.
#[verifier::external_body]
pub(crate) fn small_vec_i32_pop(v: &mut SmallVecI32) -> (r: Option<i32>)
    requires
        old(v).wf(),
    ensures
        final(v).wf(),
        sv_i32_cap(*final(v)) == sv_i32_cap(*old(v)),
        sv_i32_items(*old(v)).len() == 0 ==> r is None && sv_i32_items(*final(v)) == sv_i32_items(*old(v)),
        sv_i32_items(*old(v)).len() > 0 ==> r == Some(sv_i32_items(*old(v)).last())
            && sv_i32_items(*final(v)) == sv_i32_items(*old(v)).drop_last(),
{
    v.inner.pop()
}

/// `insert`: `element` placed at `index`, later items shifted right; it first
/// reserves room for one item, and panics when `index > len`.
#[verifier::external_body]
pub(crate) fn small_vec_i32_insert(v: &mut SmallVecI32, index: usize, element: i32)
    requires
        old(v).wf(),
        index <= sv_i32_items(*old(v)).len(),
        !growth_overflows(sv_i32_items(*old(v)).len(), sv_i32_cap(*old(v)), 1, 4),
    ensures
        final(v).wf(),
        sv_i32_items(*final(v)) == sv_i32_items(*old(v)).insert(index as int, element),
        sv_i32_cap(*final(v)) == grown(sv_i32_items(*old(v)).len(), sv_i32_cap(*old(v)), 1),
{
    v.inner.insert(index, element)
}

/// `remove`: the item at `index`, later items shifted left; it panics when
/// `index >= len`.
#[verifier::external_body]
pub(crate) fn small_vec_i32_remove(v: &mut SmallVecI32, index: usize) -> (r: i32)
    requires
        old(v).wf(),
        index < sv_i32_items(*old(v)).len(),
    ensures
        final(v).wf(),
        r == sv_i32_items(*old(v))[index as int],
        sv_i32_items(*final(v)) == sv_i32_items(*old(v)).remove(index as int),
        sv_i32_cap(*final(v)) == sv_i32_cap(*old(v)),
{
    v.inner.remove(index)
}

/// `swap_remove`: the item at `index`, replaced by the last item; it panics
/// when `index >= len`.
#[verifier::external_body]
pub(crate) fn small_vec_i32_swap_remove(v: &mut SmallVecI32, index: usize) -> (r: i32)
    requires
        old(v).wf(),
        index < sv_i32_items(*old(v)).len(),
    ensures
        final(v).wf(),
        r == sv_i32_items(*old(v))[index as int],
        sv_i32_items(*final(v)) == sv_i32_items(*old(v)).update(
            index as int,
            sv_i32_items(*old(v)).last(),
        ).drop_last(),
        sv_i32_cap(*final(v)) == sv_i32_cap(*old(v)),
{
    v.inner.swap_remove(index)
}

/// `truncate`: the first `len` items kept (all of them when there are fewer).
#[verifier::external_body]
pub(crate) fn small_vec_i32_truncate(v: &mut SmallVecI32, len: usize)
    requires
        old(v).wf(),
    ensures
        final(v).wf(),
        sv_i32_items(*final(v)) == if len < sv_i32_items(*old(v)).len() {
            sv_i32_items(*old(v)).take(len as int)
        } else {
            sv_i32_items(*old(v))
        },
        sv_i32_cap(*final(v)) == sv_i32_cap(*old(v)),
{
    v.inner.truncate(len)
}

/// `clear`: no items left; the capacity stays.
#[verifier::external_body]
pub(crate) fn small_vec_i32_clear(v: &mut SmallVecI32)
    requires
        old(v).wf(),
    ensures
        final(v).wf(),
        sv_i32_items(*final(v)) == Seq::<i32>::empty(),
        sv_i32_cap(*final(v)) == sv_i32_cap(*old(v)),
{
    v.inner.clear()
}

/// `reserve`: room for `additional` more items by amortised doubling; the
/// size computation must not overflow.
#[verifier::external_body]
pub(crate) fn small_vec_i32_reserve(v: &mut SmallVecI32, additional: usize)
    requires
        old(v).wf(),
        !growth_overflows(sv_i32_items(*old(v)).len(), sv_i32_cap(*old(v)), additional as nat, 4),
    ensures
        final(v).wf(),
        sv_i32_items(*final(v)) == sv_i32_items(*old(v)),
        sv_i32_cap(*final(v)) == grown(sv_i32_items(*old(v)).len(), sv_i32_cap(*old(v)), additional as nat),
{
    v.inner.reserve(additional)
}

/// `grow`: the capacity set to `new_cap`, or back to inline when
/// `new_cap <= 16`; it panics when `new_cap < len` or when the size
/// computation overflows.
#[verifier::external_body]
pub(crate) fn small_vec_i32_grow(v: &mut SmallVecI32, new_cap: usize)
    requires
        old(v).wf(),
        new_cap >= sv_i32_items(*old(v)).len(),
        new_cap <= 16 || new_cap * 4 <= isize::MAX,
    ensures
        final(v).wf(),
        sv_i32_items(*final(v)) == sv_i32_items(*old(v)),
        sv_i32_cap(*final(v)) == if new_cap <= 16 { 16 } else { new_cap as nat },
{
    v.inner.grow(new_cap)
}

/// `shrink_to_fit`: a heap vector moves back inline when its items fit there,
/// else its buffer shrinks to its length.
#[verifier::external_body]
pub(crate) fn small_vec_i32_shrink_to_fit(v: &mut SmallVecI32)
    requires
        old(v).wf(),
    ensures
        final(v).wf(),
        sv_i32_items(*final(v)) == sv_i32_items(*old(v)),
        sv_i32_cap(*final(v)) == if sv_i32_cap(*old(v)) == 16 || sv_i32_items(*old(v)).len() <= 16 {
            16
        } else {
            sv_i32_items(*old(v)).len()
        },
{
    v.inner.shrink_to_fit()
}

/// `extend_from_slice`: the items of `slice` appended, after reserving room
/// for all of them.
#[verifier::external_body]
pub(crate) fn small_vec_i32_extend_from_slice(v: &mut SmallVecI32, slice: &[i32])
    requires
        old(v).wf(),
        !growth_overflows(sv_i32_items(*old(v)).len(), sv_i32_cap(*old(v)), slice@.len(), 4),
    ensures
        final(v).wf(),
        sv_i32_items(*final(v)) == sv_i32_items(*old(v)) + slice@,
        sv_i32_cap(*final(v)) == grown(sv_i32_items(*old(v)).len(), sv_i32_cap(*old(v)), slice@.len()),
{
    v.inner.extend_from_slice(slice)
}

/// `Extend` with the items of `other`, cloned through its slice iterator:
/// appended, after reserving room for all of them.
#[verifier::external_body]
pub(crate) fn small_vec_i32_extend_cloned(v: &mut SmallVecI32, other: &SmallVecI32)
    requires
        old(v).wf(),
        !growth_overflows(sv_i32_items(*old(v)).len(), sv_i32_cap(*old(v)), sv_i32_items(*other).len(), 4),
    ensures
        final(v).wf(),
        sv_i32_items(*final(v)) == sv_i32_items(*old(v)) + sv_i32_items(*other),
        sv_i32_cap(*final(v)) == grown(sv_i32_items(*old(v)).len(), sv_i32_cap(*old(v)), sv_i32_items(*other).len()),
{
    std::iter::Extend::extend(&mut v.inner, other.inner.iter().cloned())
}

/// `append`: all items of `other` moved to the end of `v`, leaving `other`
/// empty with its capacity.
#[verifier::external_body]
pub(crate) fn small_vec_i32_append(v: &mut SmallVecI32, other: &mut SmallVecI32)
    requires
        old(v).wf(),
        old(other).wf(),
        !growth_overflows(
            sv_i32_items(*old(v)).len(),
            sv_i32_cap(*old(v)),
            sv_i32_items(*old(other)).len(),
            4,
        ),
    ensures
        final(v).wf(),
        final(other).wf(),
        sv_i32_items(*final(v)) == sv_i32_items(*old(v)) + sv_i32_items(*old(other)),
        sv_i32_cap(*final(v)) == grown(
            sv_i32_items(*old(v)).len(),
            sv_i32_cap(*old(v)),
            sv_i32_items(*old(other)).len(),
        ),
        sv_i32_items(*final(other)) == Seq::<i32>::empty(),
        sv_i32_cap(*final(other)) == sv_i32_cap(*old(other)),
{
    v.inner.append(&mut other.inner)
}

/// `resize`: truncated to `len`, or extended to `len` with copies of
/// `value` after reserving room for them.
#[verifier::external_body]
pub(crate) fn small_vec_i32_resize(v: &mut SmallVecI32, len: usize, value: i32)
    requires
        old(v).wf(),
        len > sv_i32_items(*old(v)).len() ==> !growth_overflows(
            sv_i32_items(*old(v)).len(),
            sv_i32_cap(*old(v)),
            (len - sv_i32_items(*old(v)).len()) as nat,
            4,
        ),
    ensures
        final(v).wf(),
        len <= sv_i32_items(*old(v)).len() ==> sv_i32_items(*final(v)) == sv_i32_items(
            *old(v),
        ).take(len as int) && sv_i32_cap(*final(v)) == sv_i32_cap(*old(v)),
        len > sv_i32_items(*old(v)).len() ==> sv_i32_items(*final(v)) == sv_i32_items(*old(v))
            + repeat(value, (len - sv_i32_items(*old(v)).len()) as nat) && sv_i32_cap(*final(v))
            == grown(
            sv_i32_items(*old(v)).len(),
            sv_i32_cap(*old(v)),
            (len - sv_i32_items(*old(v)).len()) as nat,
        ),
{
    v.inner.resize(len, value)
}

/// `drain` of `start..end`, run to its end: the removed items, in order; the
/// items after the range close the gap. It panics unless
/// `start <= end <= len`.
#[verifier::external_body]
pub(crate) fn small_vec_i32_drain(v: &mut SmallVecI32, start: usize, end: usize) -> (r: Vec<i32>)
    requires
        old(v).wf(),
        start <= end <= sv_i32_items(*old(v)).len(),
    ensures
        final(v).wf(),
        r@ == sv_i32_items(*old(v)).subrange(start as int, end as int),
        sv_i32_items(*final(v)) == sv_i32_items(*old(v)).take(start as int) + sv_i32_items(
            *old(v),
        ).skip(end as int),
        sv_i32_cap(*final(v)) == sv_i32_cap(*old(v)),
{
    v.inner.drain(start..end).collect()
}

/// `as_mut_slice`: the items, to be written in place.
#[verifier::external_body]
pub(crate) fn small_vec_i32_as_mut_slice(v: &mut SmallVecI32) -> (r: &mut [i32])
    requires
        old(v).wf(),
    ensures
        r@ == sv_i32_items(*old(v)),
        sv_i32_items(*final(v)) == final(r)@,
        sv_i32_cap(*final(v)) == sv_i32_cap(*old(v)),
{
    v.inner.as_mut_slice()
}

/// `Ord::cmp`: the lexicographic order of the items.
#[verifier::external_body]
pub(crate) fn small_vec_i32_compare(a: &SmallVecI32, b: &SmallVecI32) -> (r: Order)
    ensures
        r == lex_order(
            i32_ints(sv_i32_items(*a)),
            i32_ints(sv_i32_items(*b)),
        ),
{
    match std::cmp::Ord::cmp(&a.inner, &b.inner) {
        std::cmp::Ordering::Less => Order::Less,
        std::cmp::Ordering::Equal => Order::Equal,
        std::cmp::Ordering::Greater => Order::Greater,
    }
}

/// `PartialOrd::partial_cmp`: always `Some` of the lexicographic order.
#[verifier::external_body]
pub(crate) fn small_vec_i32_partial_compare(a: &SmallVecI32, b: &SmallVecI32) -> (r: Option<Order>)
    ensures
        r == Some(
            lex_order(
                i32_ints(sv_i32_items(*a)),
                i32_ints(sv_i32_items(*b)),
            ),
        ),
{
    match std::cmp::PartialOrd::partial_cmp(&a.inner, &b.inner) {
        Some(std::cmp::Ordering::Less) => Some(Order::Less),
        Some(std::cmp::Ordering::Equal) => Some(Order::Equal),
        Some(std::cmp::Ordering::Greater) => Some(Order::Greater),
        None => None,
    }
}

/// `PartialEq::eq`: whether the items are equal.
#[verifier::external_body]
pub(crate) fn small_vec_i32_eq(a: &SmallVecI32, b: &SmallVecI32) -> (r: bool)
    ensures
        r == (sv_i32_items(*a) == sv_i32_items(*b)),
{
    a.inner == b.inner
}

/// `into_vec`: the items, as a `Vec`.
#[verifier::external_body]
pub(crate) fn small_vec_i32_into_vec(v: SmallVecI32) -> (r: Vec<i32>)
    ensures
        r@ == sv_i32_items(v),
{
    v.inner.into_vec()
}

/// `From<Vec<i32>>`: the items of `vec`, as `from_vec` makes them.
#[verifier::external_body]
pub(crate) fn small_vec_i32_from(vec: Vec<i32>) -> (r: SmallVecI32)
    ensures
        r.wf(),
        sv_i32_items(r) == vec@,
{
    SmallVecI32 { inner: std::convert::From::from(vec) }
}

/// `Index<usize>`: the item at `index`; it panics when `index >= len`.
#[verifier::external_body]
pub(crate) fn small_vec_i32_index(v: &SmallVecI32, index: usize) -> (r: i32)
    requires
        index < sv_i32_items(*v).len(),
    ensures
        r == sv_i32_items(*v)[index as int],
{
    v.inner[index]
}

/// `spilled`: whether the items live in a heap buffer, that is, whether the
/// capacity exceeds the inline size.
#[verifier::external_body]
pub(crate) fn small_vec_i32_spilled(v: &SmallVecI32) -> (r: bool)
    ensures
        r == (sv_i32_cap(*v) > 16),
{
    v.inner.spilled()
}

/// `inline_size`: the number of items held without a heap buffer.
#[verifier::external_body]
pub(crate) fn small_vec_i32_inline_size(v: &SmallVecI32) -> (r: usize)
    ensures
        r == 16,
{
    v.inner.inline_size()
}

/// `AsRef<[T]>`: the items.
#[verifier::external_body]
pub(crate) fn small_vec_i32_as_ref(v: &SmallVecI32) -> (r: &[i32])
    ensures
        r@ == sv_i32_items(*v),
{
    std::convert::AsRef::<[i32]>::as_ref(&v.inner)
}

/// `Borrow<[T]>`: the items.
#[verifier::external_body]
pub(crate) fn small_vec_i32_borrow(v: &SmallVecI32) -> (r: &[i32])
    ensures
        r@ == sv_i32_items(*v),
{
    std::borrow::Borrow::<[i32]>::borrow(&v.inner)
}

/// `BorrowMut<[T]>`: the items, to be written in place.
#[verifier::external_body]
pub(crate) fn small_vec_i32_borrow_mut(v: &mut SmallVecI32) -> (r: &mut [i32])
    requires
        old(v).wf(),
    ensures
        r@ == sv_i32_items(*old(v)),
        sv_i32_items(*final(v)) == final(r)@,
        sv_i32_cap(*final(v)) == sv_i32_cap(*old(v)),
{
    std::borrow::BorrowMut::<[i32]>::borrow_mut(&mut v.inner)
}

/// `as_ptr`: the address of the buffer, as an integer (nothing is stated of
/// it).
#[verifier::external_body]
pub(crate) fn small_vec_i32_as_ptr(v: &SmallVecI32) -> (r: usize)
{
    v.inner.as_ptr() as usize
}

/// `reserve_exact`: room for exactly `additional` more items when there is
/// not enough; the size computation must not overflow.
#[verifier::external_body]
pub(crate) fn small_vec_i32_reserve_exact(v: &mut SmallVecI32, additional: usize)
    requires
        old(v).wf(),
        !exact_growth_overflows(sv_i32_items(*old(v)).len(), sv_i32_cap(*old(v)), additional as nat, 4),
    ensures
        final(v).wf(),
        sv_i32_items(*final(v)) == sv_i32_items(*old(v)),
        sv_i32_cap(*final(v)) == exact_grown(sv_i32_items(*old(v)).len(), sv_i32_cap(*old(v)), additional as nat),
{
    v.inner.reserve_exact(additional)
}

/// `insert_many` with the items of `vec`: placed at `index`, later items
/// shifted right, after reserving room for all of them; it panics when
/// `index > len`.
#[verifier::external_body]
pub(crate) fn small_vec_i32_insert_many(v: &mut SmallVecI32, index: usize, vec: Vec<i32>)
    requires
        old(v).wf(),
        index <= sv_i32_items(*old(v)).len(),
        !growth_overflows(sv_i32_items(*old(v)).len(), sv_i32_cap(*old(v)), vec@.len(), 4),
    ensures
        final(v).wf(),
        sv_i32_items(*final(v)) == sv_i32_items(*old(v)).take(index as int) + vec@ + sv_i32_items(*old(v)).skip(index as int),
        sv_i32_cap(*final(v)) == grown(sv_i32_items(*old(v)).len(), sv_i32_cap(*old(v)), vec@.len()),
{
    v.inner.insert_many(index, vec)
}

/// The by-value iterator of `SmallVec<[i32; 16]>`.
#[verifier::external_body]
pub struct IntoIterI32 {
    inner: smallvec::IntoIter<[i32; 16]>,
}

/// The items an `IntoIter` has yet to yield, in order.
pub uninterp spec fn into_iter_i32_rest(it: IntoIterI32) -> Seq<i32>;

/// `into_iter`: an iterator that will yield all items in order.
#[verifier::external_body]
pub(crate) fn small_vec_i32_into_iter_start(v: SmallVecI32) -> (r: IntoIterI32)
    ensures
        into_iter_i32_rest(r) == sv_i32_items(v),
{
    IntoIterI32 { inner: v.inner.into_iter() }
}

/// `IntoIter::next`: the next item, or `None` when none is left.
#[verifier::external_body]
pub(crate) fn into_iter_i32_next(it: &mut IntoIterI32) -> (r: Option<i32>)
    ensures
        into_iter_i32_rest(*old(it)).len() == 0 ==> r is None && into_iter_i32_rest(*final(it))
            == into_iter_i32_rest(*old(it)),
        into_iter_i32_rest(*old(it)).len() > 0 ==> r == Some(into_iter_i32_rest(*old(it))[0])
            && into_iter_i32_rest(*final(it)) == into_iter_i32_rest(*old(it)).drop_first(),
{
    it.inner.next()
}

/// `IntoIter::as_slice`: the items yet to be yielded.
#[verifier::external_body]
pub(crate) fn into_iter_i32_as_slice(it: &IntoIterI32) -> (r: &[i32])
    ensures
        r@ == into_iter_i32_rest(*it),
{
    it.inner.as_slice()
}

/// `IntoIter::as_mut_slice`: the items yet to be yielded, to be written in
/// place.
#[verifier::external_body]
pub(crate) fn into_iter_i32_as_mut_slice(it: &mut IntoIterI32) -> (r: &mut [i32])
    ensures
        r@ == into_iter_i32_rest(*old(it)),
        into_iter_i32_rest(*final(it)) == final(r)@,
{
    it.inner.as_mut_slice()
}

} // verus!

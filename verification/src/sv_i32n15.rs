//! `SmallVec<[i32; 15]>` of the outside crate, behind trusted wrappers.
//!
//! The outside type is held in a private field: Verus sees a value of it only
//! through two names, the items it holds and the capacity it records. Each
//! wrapper states, over those names, what the crate's source does.
use vstd::prelude::*;
use crate::small_vec::{exact_growth_overflows, exact_grown, growth_overflows, grown, repeat};

verus! {

/// A small vector of `i32` with room for 15 items inline.
#[verifier::external_body]
pub struct SmallVecI32N15 {
    inner: smallvec::SmallVec<[i32; 15]>,
}

/// The items a `SmallVec<[i32; 15]>` holds, in order.
pub uninterp spec fn sv_i32n15_items(v: SmallVecI32N15) -> Seq<i32>;

/// The capacity a `SmallVec<[i32; 15]>` records (15 while it is inline).
pub uninterp spec fn sv_i32n15_cap(v: SmallVecI32N15) -> nat;

impl View for SmallVecI32N15 {
    type V = Seq<i32>;

    open spec fn view(&self) -> Seq<i32> {
        sv_i32n15_items(*self)
    }
}

impl SmallVecI32N15 {
    /// The capacity that `capacity()` reports.
    pub open spec fn cap(self) -> nat {
        sv_i32n15_cap(self)
    }

    /// What every vector of this type satisfies: it holds at most its
    /// capacity, is never smaller than its inline size, and a heap buffer
    /// never exceeds `isize::MAX` bytes.
    pub open spec fn wf(self) -> bool {
        &&& self@.len() <= self.cap()
        &&& self.cap() >= 15
        &&& self.cap() * 4 <= isize::MAX || self.cap() == 15
    }
}

/// `SmallVec::new`: empty and inline.
#[verifier::external_body]
pub(crate) fn small_vec_i32n15_new() -> (r: SmallVecI32N15)
    ensures
        r.wf(),
        sv_i32n15_items(r) == Seq::<i32>::empty(),
        sv_i32n15_cap(r) == 15,
{
    SmallVecI32N15 { inner: smallvec::SmallVec::new() }
}

/// `SmallVec::with_capacity`: empty, with room for `n` items (inline when
/// `n <= 15`); the size computation must not overflow.
#[verifier::external_body]
pub(crate) fn small_vec_i32n15_with_capacity(n: usize) -> (r: SmallVecI32N15)
    requires
        !exact_growth_overflows(0, 15, n as nat, 4),
    ensures
        r.wf(),
        sv_i32n15_items(r) == Seq::<i32>::empty(),
        sv_i32n15_cap(r) == if n <= 15 { 15 } else { n as nat },
{
    SmallVecI32N15 { inner: smallvec::SmallVec::with_capacity(n) }
}

/// `SmallVec::from_elem`: `n` copies of `elem`; inline when `n <= 15`, else
/// through `vec![elem; n]`, whose size computation must not overflow.
#[verifier::external_body]
pub(crate) fn small_vec_i32n15_from_elem(elem: i32, n: usize) -> (r: SmallVecI32N15)
    requires
        n <= 15 || n * 4 <= isize::MAX,
    ensures
        r.wf(),
        sv_i32n15_items(r) == repeat(elem, n as nat),
        n <= 15 ==> sv_i32n15_cap(r) == 15,
{
    SmallVecI32N15 { inner: smallvec::SmallVec::from_elem(elem, n) }
}

/// `SmallVec::from_vec`: the items of `vec`; inline when the vector's own
/// capacity is at most 15, else taking over its buffer, whose capacity
/// nothing here states.
#[verifier::external_body]
pub(crate) fn small_vec_i32n15_from_vec(vec: Vec<i32>) -> (r: SmallVecI32N15)
    ensures
        r.wf(),
        sv_i32n15_items(r) == vec@,
{
    SmallVecI32N15 { inner: smallvec::SmallVec::from_vec(vec) }
}

/// `FromIterator` over the items of `vec`: an empty vector extended by them,
/// reserving room for all of them first.
#[verifier::external_body]
pub(crate) fn small_vec_i32n15_from_iter(vec: Vec<i32>) -> (r: SmallVecI32N15)
    requires
        !growth_overflows(0, 15, vec@.len(), 4),
    ensures
        r.wf(),
        sv_i32n15_items(r) == vec@,
        sv_i32n15_cap(r) == grown(0, 15, vec@.len()),
{
    SmallVecI32N15 { inner: <smallvec::SmallVec<[i32; 15]> as std::iter::FromIterator<i32>>::from_iter(vec.into_iter()) }
}

/// `len`: the number of items.
#[verifier::external_body]
pub(crate) fn small_vec_i32n15_len(v: &SmallVecI32N15) -> (r: usize)
    ensures
        r == sv_i32n15_items(*v).len(),
{
    v.inner.len()
}

/// `capacity`: the recorded capacity.
#[verifier::external_body]
pub(crate) fn small_vec_i32n15_capacity(v: &SmallVecI32N15) -> (r: usize)
    ensures
        r == sv_i32n15_cap(*v),
{
    v.inner.capacity()
}

/// `is_empty`: whether there are no items.
#[verifier::external_body]
pub(crate) fn small_vec_i32n15_is_empty(v: &SmallVecI32N15) -> (r: bool)
    ensures
        r == (sv_i32n15_items(*v).len() == 0),
{
    v.inner.is_empty()
}

/// `spilled`: whether the items live in a heap buffer, that is, whether the
/// capacity exceeds the inline size.
#[verifier::external_body]
pub(crate) fn small_vec_i32n15_spilled(v: &SmallVecI32N15) -> (r: bool)
    ensures
        r == (sv_i32n15_cap(*v) > 15),
{
    v.inner.spilled()
}

/// `as_slice`: the items.
#[verifier::external_body]
pub(crate) fn small_vec_i32n15_as_slice(v: &SmallVecI32N15) -> (r: &[i32])
    ensures
        r@ == sv_i32n15_items(*v),
{
    v.inner.as_slice()
}

/// `AsRef<[T]>`: the items.
#[verifier::external_body]
pub(crate) fn small_vec_i32n15_as_ref(v: &SmallVecI32N15) -> (r: &[i32])
    ensures
        r@ == sv_i32n15_items(*v),
{
    std::convert::AsRef::<[i32]>::as_ref(&v.inner)
}

/// `push`: `value` appended; a full vector first grows by amortised doubling,
/// whose size computation must not overflow.
#[verifier::external_body]
pub(crate) fn small_vec_i32n15_push(v: &mut SmallVecI32N15, value: i32)
    requires
        old(v).wf(),
        !growth_overflows(sv_i32n15_items(*old(v)).len(), sv_i32n15_cap(*old(v)), 1, 4),
    ensures
        final(v).wf(),
        sv_i32n15_items(*final(v)) == sv_i32n15_items(*old(v)).push(value),
        sv_i32n15_cap(*final(v)) == grown(sv_i32n15_items(*old(v)).len(), sv_i32n15_cap(*old(v)), 1),
{
    v.inner.push(value)
}

/// `pop`: the last item, removed, or `None` when empty; the capacity stays.
#[verifier::external_body]
pub(crate) fn small_vec_i32n15_pop(v: &mut SmallVecI32N15) -> (r: Option<i32>)
    requires
        old(v).wf(),
    ensures
        final(v).wf(),
        sv_i32n15_cap(*final(v)) == sv_i32n15_cap(*old(v)),
        sv_i32n15_items(*old(v)).len() == 0 ==> r is None && sv_i32n15_items(*final(v)) == sv_i32n15_items(*old(v)),
        sv_i32n15_items(*old(v)).len() > 0 ==> r == Some(sv_i32n15_items(*old(v)).last()) && sv_i32n15_items(*final(v)) == sv_i32n15_items(*old(v)).drop_last(),
{
    v.inner.pop()
}

/// `insert`: `element` placed at `index`, later items shifted right; it first
/// reserves room for one item, and panics when `index > len`.
#[verifier::external_body]
pub(crate) fn small_vec_i32n15_insert(v: &mut SmallVecI32N15, index: usize, element: i32)
    requires
        old(v).wf(),
        index <= sv_i32n15_items(*old(v)).len(),
        !growth_overflows(sv_i32n15_items(*old(v)).len(), sv_i32n15_cap(*old(v)), 1, 4),
    ensures
        final(v).wf(),
        sv_i32n15_items(*final(v)) == sv_i32n15_items(*old(v)).insert(index as int, element),
        sv_i32n15_cap(*final(v)) == grown(sv_i32n15_items(*old(v)).len(), sv_i32n15_cap(*old(v)), 1),
{
    v.inner.insert(index, element)
}

/// `swap_remove`: the item at `index`, replaced by the last item; it panics
/// when `index >= len`.
#[verifier::external_body]
pub(crate) fn small_vec_i32n15_swap_remove(v: &mut SmallVecI32N15, index: usize) -> (r: i32)
    requires
        old(v).wf(),
        index < sv_i32n15_items(*old(v)).len(),
    ensures
        final(v).wf(),
        r == sv_i32n15_items(*old(v))[index as int],
        sv_i32n15_items(*final(v)) == sv_i32n15_items(*old(v)).update(index as int, sv_i32n15_items(*old(v)).last()).drop_last(),
        sv_i32n15_cap(*final(v)) == sv_i32n15_cap(*old(v)),
{
    v.inner.swap_remove(index)
}

/// `truncate`: the first `len` items kept (all of them when there are fewer).
#[verifier::external_body]
pub(crate) fn small_vec_i32n15_truncate(v: &mut SmallVecI32N15, len: usize)
    requires
        old(v).wf(),
    ensures
        final(v).wf(),
        sv_i32n15_items(*final(v)) == if len < sv_i32n15_items(*old(v)).len() { sv_i32n15_items(*old(v)).take(len as int) } else { sv_i32n15_items(*old(v)) },
        sv_i32n15_cap(*final(v)) == sv_i32n15_cap(*old(v)),
{
    v.inner.truncate(len)
}

/// `reserve`: room for `additional` more items by amortised doubling; the
/// size computation must not overflow.
#[verifier::external_body]
pub(crate) fn small_vec_i32n15_reserve(v: &mut SmallVecI32N15, additional: usize)
    requires
        old(v).wf(),
        !growth_overflows(sv_i32n15_items(*old(v)).len(), sv_i32n15_cap(*old(v)), additional as nat, 4),
    ensures
        final(v).wf(),
        sv_i32n15_items(*final(v)) == sv_i32n15_items(*old(v)),
        sv_i32n15_cap(*final(v)) == grown(sv_i32n15_items(*old(v)).len(), sv_i32n15_cap(*old(v)), additional as nat),
{
    v.inner.reserve(additional)
}

/// `reserve_exact`: room for exactly `additional` more items when there is
/// not enough; the size computation must not overflow.
#[verifier::external_body]
pub(crate) fn small_vec_i32n15_reserve_exact(v: &mut SmallVecI32N15, additional: usize)
    requires
        old(v).wf(),
        !exact_growth_overflows(sv_i32n15_items(*old(v)).len(), sv_i32n15_cap(*old(v)), additional as nat, 4),
    ensures
        final(v).wf(),
        sv_i32n15_items(*final(v)) == sv_i32n15_items(*old(v)),
        sv_i32n15_cap(*final(v)) == exact_grown(sv_i32n15_items(*old(v)).len(), sv_i32n15_cap(*old(v)), additional as nat),
{
    v.inner.reserve_exact(additional)
}

/// `try_reserve`: as `reserve`, reporting failure instead of panicking. It
/// fails whenever the size computation overflows; otherwise it may still fail
/// when the allocator refuses, which nothing here states. A failure leaves the
/// vector as it was.
#[verifier::external_body]
pub(crate) fn small_vec_i32n15_try_reserve(v: &mut SmallVecI32N15, additional: usize) -> (r: Result<(), smallvec::CollectionAllocErr>)
    requires
        old(v).wf(),
    ensures
        final(v).wf(),
        sv_i32n15_items(*final(v)) == sv_i32n15_items(*old(v)),
        growth_overflows(sv_i32n15_items(*old(v)).len(), sv_i32n15_cap(*old(v)), additional as nat, 4) ==> r is Err,
        sv_i32n15_cap(*old(v)) - sv_i32n15_items(*old(v)).len() >= additional ==> r is Ok,
        r is Ok ==> sv_i32n15_cap(*final(v)) == grown(sv_i32n15_items(*old(v)).len(), sv_i32n15_cap(*old(v)), additional as nat),
        r is Err ==> sv_i32n15_cap(*final(v)) == sv_i32n15_cap(*old(v)),
{
    v.inner.try_reserve(additional)
}

/// `try_reserve_exact`: as `reserve_exact`, reporting failure instead of
/// panicking. It fails whenever the size computation overflows; otherwise it
/// may still fail when the allocator refuses, which nothing here states. A
/// failure leaves the vector as it was.
#[verifier::external_body]
pub(crate) fn small_vec_i32n15_try_reserve_exact(v: &mut SmallVecI32N15, additional: usize) -> (r: Result<(), smallvec::CollectionAllocErr>)
    requires
        old(v).wf(),
    ensures
        final(v).wf(),
        sv_i32n15_items(*final(v)) == sv_i32n15_items(*old(v)),
        exact_growth_overflows(sv_i32n15_items(*old(v)).len(), sv_i32n15_cap(*old(v)), additional as nat, 4) ==> r is Err,
        sv_i32n15_cap(*old(v)) - sv_i32n15_items(*old(v)).len() >= additional ==> r is Ok,
        r is Ok ==> sv_i32n15_cap(*final(v)) == exact_grown(sv_i32n15_items(*old(v)).len(), sv_i32n15_cap(*old(v)), additional as nat),
        r is Err ==> sv_i32n15_cap(*final(v)) == sv_i32n15_cap(*old(v)),
{
    v.inner.try_reserve_exact(additional)
}

/// `Extend` with copies of the items of `items`: room for all of them is
/// reserved first (the iterator knows its length), then they are appended.
#[verifier::external_body]
pub(crate) fn small_vec_i32n15_extend_cloned(v: &mut SmallVecI32N15, items: &Vec<i32>)
    requires
        old(v).wf(),
        !growth_overflows(sv_i32n15_items(*old(v)).len(), sv_i32n15_cap(*old(v)), items@.len(), 4),
    ensures
        final(v).wf(),
        sv_i32n15_items(*final(v)) == sv_i32n15_items(*old(v)) + items@,
        sv_i32n15_cap(*final(v)) == grown(sv_i32n15_items(*old(v)).len(), sv_i32n15_cap(*old(v)), items@.len()),
{
    v.inner.extend(items.iter().cloned())
}

/// `drain` of `start..end`, run to its end: the removed items, in order; the
/// items after the range close the gap. It panics unless
/// `start <= end <= len`.
#[verifier::external_body]
pub(crate) fn small_vec_i32n15_drain(v: &mut SmallVecI32N15, start: usize, end: usize) -> (r: Vec<i32>)
    requires
        old(v).wf(),
        start <= end <= sv_i32n15_items(*old(v)).len(),
    ensures
        final(v).wf(),
        r@ == sv_i32n15_items(*old(v)).subrange(start as int, end as int),
        sv_i32n15_items(*final(v)) == sv_i32n15_items(*old(v)).take(start as int) + sv_i32n15_items(*old(v)).skip(end as int),
        sv_i32n15_cap(*final(v)) == sv_i32n15_cap(*old(v)),
{
    v.inner.drain(start..end).collect()
}

/// `into_vec`: the items, as a `Vec`.
#[verifier::external_body]
pub(crate) fn small_vec_i32n15_into_vec(v: SmallVecI32N15) -> (r: Vec<i32>)
    ensures
        r@ == sv_i32n15_items(v),
{
    v.inner.into_vec()
}

/// `into_boxed_slice`: the items, as a boxed slice.
#[verifier::external_body]
pub(crate) fn small_vec_i32n15_into_boxed_slice(v: SmallVecI32N15) -> (r: Box<[i32]>)
    ensures
        r@ == sv_i32n15_items(v),
{
    v.inner.into_boxed_slice()
}

/// `clear`: no items left; the capacity stays.
#[verifier::external_body]
pub(crate) fn small_vec_i32n15_clear(v: &mut SmallVecI32N15)
    requires
        old(v).wf(),
    ensures
        final(v).wf(),
        sv_i32n15_items(*final(v)) == Seq::<i32>::empty(),
        sv_i32n15_cap(*final(v)) == sv_i32n15_cap(*old(v)),
{
    v.inner.clear()
}

} // verus!

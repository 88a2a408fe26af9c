//! `SmallVec<[u32; 32]>` of the outside crate, behind trusted wrappers.
//!
//! The outside type is held in a private field: Verus sees a value of it only
//! through two names, the items it holds and the capacity it records. Each
//! wrapper states, over those names, what the crate's source does.
use vstd::prelude::*;
use crate::small_vec::{dedup_seq, exact_growth_overflows, exact_grown, growth_overflows, grown, lex_order, repeat, Order};

verus! {

/// A small vector of `u32` with room for 32 items inline.
#[verifier::external_body]
pub struct SmallVecU32N32 {
    inner: smallvec::SmallVec<[u32; 32]>,
}

/// The items a `SmallVec<[u32; 32]>` holds, in order.
pub uninterp spec fn sv_u32n32_items(v: SmallVecU32N32) -> Seq<u32>;

/// The capacity a `SmallVec<[u32; 32]>` records (32 while it is inline).
pub uninterp spec fn sv_u32n32_cap(v: SmallVecU32N32) -> nat;

impl View for SmallVecU32N32 {
    type V = Seq<u32>;

    open spec fn view(&self) -> Seq<u32> {
        sv_u32n32_items(*self)
    }
}

impl SmallVecU32N32 {
    /// The capacity that `capacity()` reports.
    pub open spec fn cap(self) -> nat {
        sv_u32n32_cap(self)
    }

    /// What every vector of this type satisfies: it holds at most its
    /// capacity, is never smaller than its inline size, and a heap buffer
    /// never exceeds `isize::MAX` bytes.
    pub open spec fn wf(self) -> bool {
        &&& self@.len() <= self.cap()
        &&& self.cap() >= 32
        &&& self.cap() * vstd::layout::size_of::<u32>() <= isize::MAX || self.cap() == 32
    }
}

/// `SmallVec::new`: empty and inline.
#[verifier::external_body]
pub(crate) fn small_vec_u32n32_new() -> (r: SmallVecU32N32)
    ensures
        r.wf(),
        sv_u32n32_items(r) == Seq::<u32>::empty(),
        sv_u32n32_cap(r) == 32,
{
    SmallVecU32N32 { inner: smallvec::SmallVec::new() }
}

/// `SmallVec::with_capacity`: empty, with room for `n` items (inline when
/// `n <= 32`); the size computation must not overflow.
#[verifier::external_body]
pub(crate) fn small_vec_u32n32_with_capacity(n: usize) -> (r: SmallVecU32N32)
    requires
        !exact_growth_overflows(0, 32, n as nat, vstd::layout::size_of::<u32>()),
    ensures
        r.wf(),
        sv_u32n32_items(r) == Seq::<u32>::empty(),
        sv_u32n32_cap(r) == if n <= 32 { 32 } else { n as nat },
{
    SmallVecU32N32 { inner: smallvec::SmallVec::with_capacity(n) }
}

/// `SmallVec::from_elem`: `n` copies of `elem`; inline when `n <= 32`, else
/// through `vec![elem; n]`, whose size computation must not overflow.
#[verifier::external_body]
pub(crate) fn small_vec_u32n32_from_elem(elem: u32, n: usize) -> (r: SmallVecU32N32)
    requires
        n <= 32 || n * vstd::layout::size_of::<u32>() <= isize::MAX,
    ensures
        r.wf(),
        sv_u32n32_items(r) == repeat(elem, n as nat),
        n <= 32 ==> sv_u32n32_cap(r) == 32,
{
    SmallVecU32N32 { inner: smallvec::SmallVec::from_elem(elem, n) }
}

/// `SmallVec::from_vec`: the items of `vec`; inline when the vector's own
/// capacity is at most 32, else taking over its buffer, whose capacity
/// nothing here states.
#[verifier::external_body]
pub(crate) fn small_vec_u32n32_from_vec(vec: Vec<u32>) -> (r: SmallVecU32N32)
    ensures
        r.wf(),
        sv_u32n32_items(r) == vec@,
{
    SmallVecU32N32 { inner: smallvec::SmallVec::from_vec(vec) }
}

/// `Extend` by the items of `vec`: room reserved for all of them first, then
/// each appended in order.
#[verifier::external_body]
pub(crate) fn small_vec_u32n32_extend(v: &mut SmallVecU32N32, vec: Vec<u32>)
    requires
        old(v).wf(),
        !growth_overflows(sv_u32n32_items(*old(v)).len(), sv_u32n32_cap(*old(v)), vec@.len(), vstd::layout::size_of::<u32>()),
    ensures
        final(v).wf(),
        sv_u32n32_items(*final(v)) == sv_u32n32_items(*old(v)) + vec@,
        sv_u32n32_cap(*final(v)) == grown(sv_u32n32_items(*old(v)).len(), sv_u32n32_cap(*old(v)), vec@.len()),
{
    std::iter::Extend::extend(&mut v.inner, vec)
}

/// `insert_many` with the items of `vec`: placed at `index`, later items
/// shifted right, after reserving room for all of them; it panics when
/// `index > len`.
#[verifier::external_body]
pub(crate) fn small_vec_u32n32_insert_many(v: &mut SmallVecU32N32, index: usize, vec: Vec<u32>)
    requires
        old(v).wf(),
        index <= sv_u32n32_items(*old(v)).len(),
        !growth_overflows(sv_u32n32_items(*old(v)).len(), sv_u32n32_cap(*old(v)), vec@.len(), vstd::layout::size_of::<u32>()),
    ensures
        final(v).wf(),
        sv_u32n32_items(*final(v)) == sv_u32n32_items(*old(v)).take(index as int) + vec@ + sv_u32n32_items(*old(v)).skip(index as int),
        sv_u32n32_cap(*final(v)) == grown(sv_u32n32_items(*old(v)).len(), sv_u32n32_cap(*old(v)), vec@.len()),
{
    v.inner.insert_many(index, vec)
}

/// `try_reserve`: as `reserve`, reporting failure instead of panicking. It
/// fails whenever the size computation overflows; otherwise it may still fail
/// when the allocator refuses, which nothing here states. A failure leaves the
/// vector as it was.
#[verifier::external_body]
pub(crate) fn small_vec_u32n32_try_reserve(v: &mut SmallVecU32N32, additional: usize) -> (r: Result<(), smallvec::CollectionAllocErr>)
    requires
        old(v).wf(),
    ensures
        final(v).wf(),
        sv_u32n32_items(*final(v)) == sv_u32n32_items(*old(v)),
        growth_overflows(sv_u32n32_items(*old(v)).len(), sv_u32n32_cap(*old(v)), additional as nat, vstd::layout::size_of::<u32>()) ==> r is Err,
        sv_u32n32_cap(*old(v)) - sv_u32n32_items(*old(v)).len() >= additional ==> r is Ok,
        r is Ok ==> sv_u32n32_cap(*final(v)) == grown(sv_u32n32_items(*old(v)).len(), sv_u32n32_cap(*old(v)), additional as nat),
        r is Err ==> sv_u32n32_cap(*final(v)) == sv_u32n32_cap(*old(v)),
{
    v.inner.try_reserve(additional)
}

/// `try_reserve_exact`: as `reserve_exact`, reporting failure instead of
/// panicking. It fails whenever the size computation overflows; otherwise it
/// may still fail when the allocator refuses, which nothing here states. A
/// failure leaves the vector as it was.
#[verifier::external_body]
pub(crate) fn small_vec_u32n32_try_reserve_exact(v: &mut SmallVecU32N32, additional: usize) -> (r: Result<(), smallvec::CollectionAllocErr>)
    requires
        old(v).wf(),
    ensures
        final(v).wf(),
        sv_u32n32_items(*final(v)) == sv_u32n32_items(*old(v)),
        exact_growth_overflows(sv_u32n32_items(*old(v)).len(), sv_u32n32_cap(*old(v)), additional as nat, vstd::layout::size_of::<u32>()) ==> r is Err,
        sv_u32n32_cap(*old(v)) - sv_u32n32_items(*old(v)).len() >= additional ==> r is Ok,
        r is Ok ==> sv_u32n32_cap(*final(v)) == exact_grown(sv_u32n32_items(*old(v)).len(), sv_u32n32_cap(*old(v)), additional as nat),
        r is Err ==> sv_u32n32_cap(*final(v)) == sv_u32n32_cap(*old(v)),
{
    v.inner.try_reserve_exact(additional)
}

/// `AsRef<[T]>`: the items.
#[verifier::external_body]
pub(crate) fn small_vec_u32n32_as_ref(v: &SmallVecU32N32) -> (r: &[u32])
    ensures
        r@ == sv_u32n32_items(*v),
{
    std::convert::AsRef::<[u32]>::as_ref(&v.inner)
}

/// `is_empty`: whether there are no items.
#[verifier::external_body]
pub(crate) fn small_vec_u32n32_is_empty(v: &SmallVecU32N32) -> (r: bool)
    ensures
        r == (sv_u32n32_items(*v).len() == 0),
{
    v.inner.is_empty()
}

/// `len`: the number of items.
#[verifier::external_body]
pub(crate) fn small_vec_u32n32_len(v: &SmallVecU32N32) -> (r: usize)
    ensures
        r == sv_u32n32_items(*v).len(),
{
    v.inner.len()
}

/// `capacity`: the recorded capacity.
#[verifier::external_body]
pub(crate) fn small_vec_u32n32_capacity(v: &SmallVecU32N32) -> (r: usize)
    ensures
        r == sv_u32n32_cap(*v),
{
    v.inner.capacity()
}

/// `Deref`: the items.
#[verifier::external_body]
pub(crate) fn small_vec_u32n32_deref(v: &SmallVecU32N32) -> (r: &[u32])
    ensures
        r@ == sv_u32n32_items(*v),
{
    std::ops::Deref::deref(&v.inner)
}

/// `push`: `value` appended; a full vector first grows by amortised doubling,
/// whose size computation must not overflow.
#[verifier::external_body]
pub(crate) fn small_vec_u32n32_push(v: &mut SmallVecU32N32, value: u32)
    requires
        old(v).wf(),
        !growth_overflows(sv_u32n32_items(*old(v)).len(), sv_u32n32_cap(*old(v)), 1, vstd::layout::size_of::<u32>()),
    ensures
        final(v).wf(),
        sv_u32n32_items(*final(v)) == sv_u32n32_items(*old(v)).push(value),
        sv_u32n32_cap(*final(v)) == grown(sv_u32n32_items(*old(v)).len(), sv_u32n32_cap(*old(v)), 1),
{
    v.inner.push(value)
}

/// `extend_from_slice`: the items of `slice` appended, after reserving room
/// for all of them.
#[verifier::external_body]
pub(crate) fn small_vec_u32n32_extend_from_slice(v: &mut SmallVecU32N32, slice: &[u32])
    requires
        old(v).wf(),
        !growth_overflows(sv_u32n32_items(*old(v)).len(), sv_u32n32_cap(*old(v)), slice@.len(), vstd::layout::size_of::<u32>()),
    ensures
        final(v).wf(),
        sv_u32n32_items(*final(v)) == sv_u32n32_items(*old(v)) + slice@,
        sv_u32n32_cap(*final(v)) == grown(sv_u32n32_items(*old(v)).len(), sv_u32n32_cap(*old(v)), slice@.len()),
{
    v.inner.extend_from_slice(slice)
}

/// `reserve_exact`: room for exactly `additional` more items when there is
/// not enough; the size computation must not overflow.
#[verifier::external_body]
pub(crate) fn small_vec_u32n32_reserve_exact(v: &mut SmallVecU32N32, additional: usize)
    requires
        old(v).wf(),
        !exact_growth_overflows(sv_u32n32_items(*old(v)).len(), sv_u32n32_cap(*old(v)), additional as nat, vstd::layout::size_of::<u32>()),
    ensures
        final(v).wf(),
        sv_u32n32_items(*final(v)) == sv_u32n32_items(*old(v)),
        sv_u32n32_cap(*final(v)) == exact_grown(sv_u32n32_items(*old(v)).len(), sv_u32n32_cap(*old(v)), additional as nat),
{
    v.inner.reserve_exact(additional)
}

/// `pop`: the last item, removed, or `None` when empty; the capacity stays.
#[verifier::external_body]
pub(crate) fn small_vec_u32n32_pop(v: &mut SmallVecU32N32) -> (r: Option<u32>)
    requires
        old(v).wf(),
    ensures
        final(v).wf(),
        sv_u32n32_cap(*final(v)) == sv_u32n32_cap(*old(v)),
        sv_u32n32_items(*old(v)).len() == 0 ==> r is None && sv_u32n32_items(*final(v)) == sv_u32n32_items(*old(v)),
        sv_u32n32_items(*old(v)).len() > 0 ==> r == Some(sv_u32n32_items(*old(v)).last()) && sv_u32n32_items(*final(v)) == sv_u32n32_items(*old(v)).drop_last(),
{
    v.inner.pop()
}

/// `as_mut_slice`: the items, to be written in place.
#[verifier::external_body]
pub(crate) fn small_vec_u32n32_as_mut_slice(v: &mut SmallVecU32N32) -> (r: &mut [u32])
    requires
        old(v).wf(),
    ensures
        r@ == sv_u32n32_items(*old(v)),
        sv_u32n32_items(*final(v)) == final(r)@,
        sv_u32n32_cap(*final(v)) == sv_u32n32_cap(*old(v)),
{
    v.inner.as_mut_slice()
}

/// `swap_remove`: the item at `index`, replaced by the last item; it panics
/// when `index >= len`.
#[verifier::external_body]
pub(crate) fn small_vec_u32n32_swap_remove(v: &mut SmallVecU32N32, index: usize) -> (r: u32)
    requires
        old(v).wf(),
        index < sv_u32n32_items(*old(v)).len(),
    ensures
        final(v).wf(),
        r == sv_u32n32_items(*old(v))[index as int],
        sv_u32n32_items(*final(v)) == sv_u32n32_items(*old(v)).update(index as int, sv_u32n32_items(*old(v)).last()).drop_last(),
        sv_u32n32_cap(*final(v)) == sv_u32n32_cap(*old(v)),
{
    v.inner.swap_remove(index)
}

/// `ToSmallVec::to_smallvec` on a slice: a copy of it, as `from_slice` makes;
/// inline when it has at most 32 items, else in a heap buffer whose
/// capacity nothing here states.
#[verifier::external_body]
pub(crate) fn small_vec_u32n32_to_small_vec(slice: &[u32]) -> (r: SmallVecU32N32)
    ensures
        r.wf(),
        sv_u32n32_items(r) == slice@,
        slice@.len() <= 32 ==> sv_u32n32_cap(r) == 32,
{
    SmallVecU32N32 { inner: smallvec::ToSmallVec::to_smallvec(slice) }
}

/// `insert_from_slice`: the items of `slice` placed at `index`, later items
/// shifted right, after reserving room for them; it panics when
/// `index > len`.
#[verifier::external_body]
pub(crate) fn small_vec_u32n32_insert_from_slice(v: &mut SmallVecU32N32, index: usize, slice: &[u32])
    requires
        old(v).wf(),
        index <= sv_u32n32_items(*old(v)).len(),
        !growth_overflows(sv_u32n32_items(*old(v)).len(), sv_u32n32_cap(*old(v)), slice@.len(), vstd::layout::size_of::<u32>()),
    ensures
        final(v).wf(),
        sv_u32n32_items(*final(v)) == sv_u32n32_items(*old(v)).take(index as int) + slice@ + sv_u32n32_items(*old(v)).skip(index as int),
        sv_u32n32_cap(*final(v)) == grown(sv_u32n32_items(*old(v)).len(), sv_u32n32_cap(*old(v)), slice@.len()),
{
    v.inner.insert_from_slice(index, slice)
}

/// `FromIterator` over the items of `vec`: an empty vector extended by them,
/// reserving room for all of them first.
#[verifier::external_body]
pub(crate) fn small_vec_u32n32_from_iter(vec: Vec<u32>) -> (r: SmallVecU32N32)
    requires
        !growth_overflows(0, 32, vec@.len(), vstd::layout::size_of::<u32>()),
    ensures
        r.wf(),
        sv_u32n32_items(r) == vec@,
        sv_u32n32_cap(r) == grown(0, 32, vec@.len()),
{
    SmallVecU32N32 { inner: <smallvec::SmallVec<[u32; 32]> as std::iter::FromIterator<u32>>::from_iter(vec.into_iter()) }
}

/// `into_vec`: the items, as a `Vec`.
#[verifier::external_body]
pub(crate) fn small_vec_u32n32_into_vec(v: SmallVecU32N32) -> (r: Vec<u32>)
    ensures
        r@ == sv_u32n32_items(v),
{
    v.inner.into_vec()
}

} // verus!

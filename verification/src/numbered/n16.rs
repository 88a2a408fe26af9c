//! `SmallVec<[usize; 16]>` of the outside crate, behind trusted wrappers:
//! a vector of `usize`, or of number-carrying elements held as their
//! numbers.
//!
//! The outside type is held in a private field: Verus sees a value of it only
//! through two names, the items it holds and the capacity it records. Each
//! wrapper states, over those names, what the crate's source does.
use vstd::prelude::*;
use crate::fixed::dedup_keyed;
use crate::small_vec::{dedup_seq, exact_growth_overflows, exact_grown, growth_overflows, grown, lex_order, repeat, Order};
use crate::script::usize_at;
use crate::numbered::{is_even_usize, same_usize, usize_ints};

verus! {

/// A small vector of `usize` with room for 16 items inline.
#[verifier::external_body]
pub struct SmallVecNumbers16 {
    inner: smallvec::SmallVec<[usize; 16]>,
}

/// The items a `SmallVec<[usize; 16]>` holds, in order.
pub uninterp spec fn sv_n16_items(v: SmallVecNumbers16) -> Seq<usize>;

/// The capacity a `SmallVec<[usize; 16]>` records (16 while it is inline).
pub uninterp spec fn sv_n16_cap(v: SmallVecNumbers16) -> nat;

impl View for SmallVecNumbers16 {
    type V = Seq<usize>;

    open spec fn view(&self) -> Seq<usize> {
        sv_n16_items(*self)
    }
}

impl SmallVecNumbers16 {
    /// The capacity that `capacity()` reports.
    pub open spec fn cap(self) -> nat {
        sv_n16_cap(self)
    }

    /// What every vector of this type satisfies: it holds at most its
    /// capacity, is never smaller than its inline size, and a heap buffer
    /// never exceeds `isize::MAX` bytes.
    pub open spec fn wf(self) -> bool {
        &&& self@.len() <= self.cap()
        &&& self.cap() >= 16
        &&& self.cap() * vstd::layout::size_of::<usize>() <= isize::MAX || self.cap() == 16
    }
}

/// `SmallVec::new`: empty and inline.
#[verifier::external_body]
pub(crate) fn small_vec_n16_new() -> (r: SmallVecNumbers16)
    ensures
        r.wf(),
        sv_n16_items(r) == Seq::<usize>::empty(),
        sv_n16_cap(r) == 16,
{
    SmallVecNumbers16 { inner: smallvec::SmallVec::new() }
}

/// `SmallVec::with_capacity`: empty, with room for `n` items (inline when
/// `n <= 16`); the size computation must not overflow.
#[verifier::external_body]
pub(crate) fn small_vec_n16_with_capacity(n: usize) -> (r: SmallVecNumbers16)
    requires
        !exact_growth_overflows(0, 16, n as nat, vstd::layout::size_of::<usize>()),
    ensures
        r.wf(),
        sv_n16_items(r) == Seq::<usize>::empty(),
        sv_n16_cap(r) == if n <= 16 { 16 } else { n as nat },
{
    SmallVecNumbers16 { inner: smallvec::SmallVec::with_capacity(n) }
}

/// `SmallVec::from_vec`: the items of `vec`; inline when the vector's own
/// capacity is at most 16, else taking over its buffer, whose capacity
/// nothing here states.
#[verifier::external_body]
pub(crate) fn small_vec_n16_from_vec(vec: Vec<usize>) -> (r: SmallVecNumbers16)
    ensures
        r.wf(),
        sv_n16_items(r) == vec@,
{
    SmallVecNumbers16 { inner: smallvec::SmallVec::from_vec(vec) }
}

/// `SmallVec::from_slice`: a copy of `slice`; inline when it has at most 16
/// items, else in a heap buffer whose capacity nothing here states.
#[verifier::external_body]
pub(crate) fn small_vec_n16_from_slice(slice: &[usize]) -> (r: SmallVecNumbers16)
    ensures
        r.wf(),
        sv_n16_items(r) == slice@,
        slice@.len() <= 16 ==> sv_n16_cap(r) == 16,
{
    SmallVecNumbers16 { inner: smallvec::SmallVec::from_slice(slice) }
}

/// `SmallVec::from_elem`: `n` copies of `elem`; inline when `n <= 16`, else
/// through `vec![elem; n]`, whose size computation must not overflow.
#[verifier::external_body]
pub(crate) fn small_vec_n16_from_elem(elem: usize, n: usize) -> (r: SmallVecNumbers16)
    requires
        n <= 16 || n * vstd::layout::size_of::<usize>() <= isize::MAX,
    ensures
        r.wf(),
        sv_n16_items(r) == repeat(elem, n as nat),
        n <= 16 ==> sv_n16_cap(r) == 16,
{
    SmallVecNumbers16 { inner: smallvec::SmallVec::from_elem(elem, n) }
}

/// `spilled`: whether the items live in a heap buffer, that is, whether the
/// capacity exceeds the inline size.
#[verifier::external_body]
pub(crate) fn small_vec_n16_spilled(v: &SmallVecNumbers16) -> (r: bool)
    ensures
        r == (sv_n16_cap(*v) > 16),
{
    v.inner.spilled()
}

/// `len`: the number of items.
#[verifier::external_body]
pub(crate) fn small_vec_n16_len(v: &SmallVecNumbers16) -> (r: usize)
    ensures
        r == sv_n16_items(*v).len(),
{
    v.inner.len()
}

/// `capacity`: the recorded capacity.
#[verifier::external_body]
pub(crate) fn small_vec_n16_capacity(v: &SmallVecNumbers16) -> (r: usize)
    ensures
        r == sv_n16_cap(*v),
{
    v.inner.capacity()
}

/// `is_empty`: whether there are no items.
#[verifier::external_body]
pub(crate) fn small_vec_n16_is_empty(v: &SmallVecNumbers16) -> (r: bool)
    ensures
        r == (sv_n16_items(*v).len() == 0),
{
    v.inner.is_empty()
}

/// `IndexMut<usize>`: the item at `index`, read through a mutable reference;
/// it panics when `index >= len`.
#[verifier::external_body]
pub(crate) fn small_vec_n16_index_mut(v: &mut SmallVecNumbers16, index: usize) -> (r: usize)
    requires
        old(v).wf(),
        index < sv_n16_items(*old(v)).len(),
    ensures
        r == sv_n16_items(*old(v))[index as int],
        sv_n16_items(*final(v)) == sv_n16_items(*old(v)),
        sv_n16_cap(*final(v)) == sv_n16_cap(*old(v)),
{
    *std::ops::IndexMut::index_mut(&mut v.inner, index)
}

/// `as_slice`: the items.
#[verifier::external_body]
pub(crate) fn small_vec_n16_as_slice(v: &SmallVecNumbers16) -> (r: &[usize])
    ensures
        r@ == sv_n16_items(*v),
{
    v.inner.as_slice()
}

/// `inline_size`: the number of items held without a heap buffer.
#[verifier::external_body]
pub(crate) fn small_vec_n16_inline_size(v: &SmallVecNumbers16) -> (r: usize)
    ensures
        r == 16,
{
    v.inner.inline_size()
}

/// `push`: `value` appended; a full vector first grows by amortised doubling,
/// whose size computation must not overflow.
#[verifier::external_body]
pub(crate) fn small_vec_n16_push(v: &mut SmallVecNumbers16, value: usize)
    requires
        old(v).wf(),
        !growth_overflows(sv_n16_items(*old(v)).len(), sv_n16_cap(*old(v)), 1, vstd::layout::size_of::<usize>()),
    ensures
        final(v).wf(),
        sv_n16_items(*final(v)) == sv_n16_items(*old(v)).push(value),
        sv_n16_cap(*final(v)) == grown(sv_n16_items(*old(v)).len(), sv_n16_cap(*old(v)), 1),
{
    v.inner.push(value)
}

/// `dedup_by_key` with `number_key(kind, _)`: every item whose key equals
/// that of the one kept before it removed; the capacity stays.
#[verifier::external_body]
pub(crate) fn small_vec_n16_dedup_by_key(v: &mut SmallVecNumbers16, kind: u8)
    requires
        old(v).wf(),
    ensures
        final(v).wf(),
        sv_n16_items(*final(v)) == dedup_keyed(sv_n16_items(*old(v)), kind),
        sv_n16_cap(*final(v)) == sv_n16_cap(*old(v)),
{
    v.inner.dedup_by_key(|x: &mut usize| crate::fixed::number_key(kind, *x))
}

/// `try_grow`: the capacity set to `new_cap`, or back to inline when
/// `new_cap <= 16`; it panics when `new_cap < len` and fails when the size
/// computation overflows. Where a new buffer is needed it may also fail
/// when the allocator refuses, which nothing here states. A failure leaves
/// the vector as it was.
#[verifier::external_body]
pub(crate) fn small_vec_n16_try_grow(v: &mut SmallVecNumbers16, new_cap: usize) -> (r: Result<(), smallvec::CollectionAllocErr>)
    requires
        old(v).wf(),
        new_cap >= sv_n16_items(*old(v)).len(),
    ensures
        final(v).wf(),
        sv_n16_items(*final(v)) == sv_n16_items(*old(v)),
        new_cap <= 16 ==> r is Ok,
        new_cap == sv_n16_cap(*old(v)) ==> r is Ok,
        new_cap > 16 && new_cap * vstd::layout::size_of::<usize>() > isize::MAX ==> r is Err,
        r is Ok ==> sv_n16_cap(*final(v)) == if new_cap <= 16 { 16 } else { new_cap as nat },
        r is Err ==> sv_n16_cap(*final(v)) == sv_n16_cap(*old(v)),
{
    v.inner.try_grow(new_cap)
}

/// `AsMut<[T]>`: the items, to be written in place.
#[verifier::external_body]
pub(crate) fn small_vec_n16_as_mut(v: &mut SmallVecNumbers16) -> (r: &mut [usize])
    requires
        old(v).wf(),
    ensures
        r@ == sv_n16_items(*old(v)),
        sv_n16_items(*final(v)) == final(r)@,
        sv_n16_cap(*final(v)) == sv_n16_cap(*old(v)),
{
    std::convert::AsMut::<[usize]>::as_mut(&mut v.inner)
}

/// `into_inner`: the array of items where the vector is inline and full,
/// else the vector back.
#[verifier::external_body]
pub(crate) fn small_vec_n16_into_inner(v: SmallVecNumbers16) -> (r: Result<[usize; 16], SmallVecNumbers16>)
    ensures
        r is Ok <==> (sv_n16_cap(v) <= 16 && sv_n16_items(v).len() == 16),
        r matches Ok(a) ==> a@ == sv_n16_items(v),
        r matches Err(w) ==> sv_n16_items(w) == sv_n16_items(v),
{
    match v.inner.into_inner() {
        Ok(a) => Ok(a),
        Err(inner) => Err(SmallVecNumbers16 { inner }),
    }
}

/// `into_boxed_slice`: the items, as a boxed slice.
#[verifier::external_body]
pub(crate) fn small_vec_n16_into_boxed_slice(v: SmallVecNumbers16) -> (r: Box<[usize]>)
    ensures
        r@ == sv_n16_items(v),
{
    v.inner.into_boxed_slice()
}

/// `FromIterator` over the items of `vec`: an empty vector extended by them,
/// reserving room for all of them first.
#[verifier::external_body]
pub(crate) fn small_vec_n16_from_iter(vec: Vec<usize>) -> (r: SmallVecNumbers16)
    requires
        !growth_overflows(0, 16, vec@.len(), vstd::layout::size_of::<usize>()),
    ensures
        r.wf(),
        sv_n16_items(r) == vec@,
        sv_n16_cap(r) == grown(0, 16, vec@.len()),
{
    SmallVecNumbers16 { inner: <smallvec::SmallVec<[usize; 16]> as std::iter::FromIterator<usize>>::from_iter(vec.into_iter()) }
}

/// `Deref`: the items.
#[verifier::external_body]
pub(crate) fn small_vec_n16_deref(v: &SmallVecNumbers16) -> (r: &[usize])
    ensures
        r@ == sv_n16_items(*v),
{
    std::ops::Deref::deref(&v.inner)
}

/// `PartialEq::eq`: whether the items are equal.
#[verifier::external_body]
pub(crate) fn small_vec_n16_eq(a: &SmallVecNumbers16, b: &SmallVecNumbers16) -> (r: bool)
    ensures
        r == (sv_n16_items(*a) == sv_n16_items(*b)),
{
    a.inner == b.inner
}

/// `PartialOrd::partial_cmp`: always `Some` of the lexicographic order.
#[verifier::external_body]
pub(crate) fn small_vec_n16_partial_compare(a: &SmallVecNumbers16, b: &SmallVecNumbers16) -> (r: Option<Order>)
    ensures
        r == Some(lex_order(usize_ints(sv_n16_items(*a)), usize_ints(sv_n16_items(*b)))),
{
    match std::cmp::PartialOrd::partial_cmp(&a.inner, &b.inner) {
        Some(std::cmp::Ordering::Less) => Some(Order::Less),
        Some(std::cmp::Ordering::Equal) => Some(Order::Equal),
        Some(std::cmp::Ordering::Greater) => Some(Order::Greater),
        None => None,
    }
}

/// `try_reserve`: as `reserve`, reporting failure instead of panicking. It
/// fails whenever the size computation overflows; otherwise it may still fail
/// when the allocator refuses, which nothing here states. A failure leaves the
/// vector as it was.
#[verifier::external_body]
pub(crate) fn small_vec_n16_try_reserve(v: &mut SmallVecNumbers16, additional: usize) -> (r: Result<(), smallvec::CollectionAllocErr>)
    requires
        old(v).wf(),
    ensures
        final(v).wf(),
        sv_n16_items(*final(v)) == sv_n16_items(*old(v)),
        growth_overflows(sv_n16_items(*old(v)).len(), sv_n16_cap(*old(v)), additional as nat, vstd::layout::size_of::<usize>()) ==> r is Err,
        sv_n16_cap(*old(v)) - sv_n16_items(*old(v)).len() >= additional ==> r is Ok,
        r is Ok ==> sv_n16_cap(*final(v)) == grown(sv_n16_items(*old(v)).len(), sv_n16_cap(*old(v)), additional as nat),
        r is Err ==> sv_n16_cap(*final(v)) == sv_n16_cap(*old(v)),
{
    v.inner.try_reserve(additional)
}

/// `try_reserve_exact`: as `reserve_exact`, reporting failure instead of
/// panicking. It fails whenever the size computation overflows; otherwise it
/// may still fail when the allocator refuses, which nothing here states. A
/// failure leaves the vector as it was.
#[verifier::external_body]
pub(crate) fn small_vec_n16_try_reserve_exact(v: &mut SmallVecNumbers16, additional: usize) -> (r: Result<(), smallvec::CollectionAllocErr>)
    requires
        old(v).wf(),
    ensures
        final(v).wf(),
        sv_n16_items(*final(v)) == sv_n16_items(*old(v)),
        exact_growth_overflows(sv_n16_items(*old(v)).len(), sv_n16_cap(*old(v)), additional as nat, vstd::layout::size_of::<usize>()) ==> r is Err,
        sv_n16_cap(*old(v)) - sv_n16_items(*old(v)).len() >= additional ==> r is Ok,
        r is Ok ==> sv_n16_cap(*final(v)) == exact_grown(sv_n16_items(*old(v)).len(), sv_n16_cap(*old(v)), additional as nat),
        r is Err ==> sv_n16_cap(*final(v)) == sv_n16_cap(*old(v)),
{
    v.inner.try_reserve_exact(additional)
}

/// `reserve_exact`: room for exactly `additional` more items when there is
/// not enough; the size computation must not overflow.
#[verifier::external_body]
pub(crate) fn small_vec_n16_reserve_exact(v: &mut SmallVecNumbers16, additional: usize)
    requires
        old(v).wf(),
        !exact_growth_overflows(sv_n16_items(*old(v)).len(), sv_n16_cap(*old(v)), additional as nat, vstd::layout::size_of::<usize>()),
    ensures
        final(v).wf(),
        sv_n16_items(*final(v)) == sv_n16_items(*old(v)),
        sv_n16_cap(*final(v)) == exact_grown(sv_n16_items(*old(v)).len(), sv_n16_cap(*old(v)), additional as nat),
{
    v.inner.reserve_exact(additional)
}

/// `Index<usize>`: the item at `index`; it panics when `index >= len`.
#[verifier::external_body]
pub(crate) fn small_vec_n16_index(v: &SmallVecNumbers16, index: usize) -> (r: usize)
    requires
        index < sv_n16_items(*v).len(),
    ensures
        r == sv_n16_items(*v)[index as int],
{
    v.inner[index]
}

} // verus!

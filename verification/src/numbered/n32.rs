//! `SmallVec<[usize; 32]>` of the outside crate, behind trusted wrappers:
//! a vector of number-carrying elements, held as their numbers.
//!
//! The outside type is held in a private field: Verus sees a value of it only
//! through two names, the items it holds and the capacity it records. Each
//! wrapper states, over those names, what the crate's source does.
use vstd::prelude::*;
use crate::small_vec::{dedup_seq, exact_growth_overflows, exact_grown, growth_overflows, grown, lex_order, repeat, Order};
use crate::script::usize_at;
use crate::numbered::{is_even_usize, same_usize, usize_ints};

verus! {

/// A small vector of `usize` with room for 32 items inline.
#[verifier::external_body]
pub struct SmallVecNumbers32 {
    inner: smallvec::SmallVec<[usize; 32]>,
}

/// The items a `SmallVec<[usize; 32]>` holds, in order.
pub uninterp spec fn sv_n32_items(v: SmallVecNumbers32) -> Seq<usize>;

/// The capacity a `SmallVec<[usize; 32]>` records (32 while it is inline).
pub uninterp spec fn sv_n32_cap(v: SmallVecNumbers32) -> nat;

impl View for SmallVecNumbers32 {
    type V = Seq<usize>;

    open spec fn view(&self) -> Seq<usize> {
        sv_n32_items(*self)
    }
}

impl SmallVecNumbers32 {
    /// The capacity that `capacity()` reports.
    pub open spec fn cap(self) -> nat {
        sv_n32_cap(self)
    }

    /// What every vector of this type satisfies: it holds at most its
    /// capacity, is never smaller than its inline size, and a heap buffer
    /// never exceeds `isize::MAX` bytes.
    pub open spec fn wf(self) -> bool {
        &&& self@.len() <= self.cap()
        &&& self.cap() >= 32
        &&& self.cap() * vstd::layout::size_of::<usize>() <= isize::MAX || self.cap() == 32
    }
}

/// `SmallVec::from_vec`: the items of `vec`; inline when the vector's own
/// capacity is at most 32, else taking over its buffer, whose capacity
/// nothing here states.
#[verifier::external_body]
pub(crate) fn small_vec_n32_from_vec(vec: Vec<usize>) -> (r: SmallVecNumbers32)
    ensures
        r.wf(),
        sv_n32_items(r) == vec@,
{
    SmallVecNumbers32 { inner: smallvec::SmallVec::from_vec(vec) }
}

/// `reserve`: room for `additional` more items by amortised doubling; the
/// size computation must not overflow.
#[verifier::external_body]
pub(crate) fn small_vec_n32_reserve(v: &mut SmallVecNumbers32, additional: usize)
    requires
        old(v).wf(),
        !growth_overflows(sv_n32_items(*old(v)).len(), sv_n32_cap(*old(v)), additional as nat, vstd::layout::size_of::<usize>()),
    ensures
        final(v).wf(),
        sv_n32_items(*final(v)) == sv_n32_items(*old(v)),
        sv_n32_cap(*final(v)) == grown(sv_n32_items(*old(v)).len(), sv_n32_cap(*old(v)), additional as nat),
{
    v.inner.reserve(additional)
}

/// `truncate`: the first `len` items kept (all of them when there are fewer).
#[verifier::external_body]
pub(crate) fn small_vec_n32_truncate(v: &mut SmallVecNumbers32, len: usize)
    requires
        old(v).wf(),
    ensures
        final(v).wf(),
        sv_n32_items(*final(v)) == if len < sv_n32_items(*old(v)).len() { sv_n32_items(*old(v)).take(len as int) } else { sv_n32_items(*old(v)) },
        sv_n32_cap(*final(v)) == sv_n32_cap(*old(v)),
{
    v.inner.truncate(len)
}

/// `len`: the number of items.
#[verifier::external_body]
pub(crate) fn small_vec_n32_len(v: &SmallVecNumbers32) -> (r: usize)
    ensures
        r == sv_n32_items(*v).len(),
{
    v.inner.len()
}

/// `capacity`: the recorded capacity.
#[verifier::external_body]
pub(crate) fn small_vec_n32_capacity(v: &SmallVecNumbers32) -> (r: usize)
    ensures
        r == sv_n32_cap(*v),
{
    v.inner.capacity()
}

/// `is_empty`: whether there are no items.
#[verifier::external_body]
pub(crate) fn small_vec_n32_is_empty(v: &SmallVecNumbers32) -> (r: bool)
    ensures
        r == (sv_n32_items(*v).len() == 0),
{
    v.inner.is_empty()
}

/// `IndexMut<usize>`: the item at `index`, read through a mutable reference;
/// it panics when `index >= len`.
#[verifier::external_body]
pub(crate) fn small_vec_n32_index_mut(v: &mut SmallVecNumbers32, index: usize) -> (r: usize)
    requires
        old(v).wf(),
        index < sv_n32_items(*old(v)).len(),
    ensures
        r == sv_n32_items(*old(v))[index as int],
        sv_n32_items(*final(v)) == sv_n32_items(*old(v)),
        sv_n32_cap(*final(v)) == sv_n32_cap(*old(v)),
{
    *std::ops::IndexMut::index_mut(&mut v.inner, index)
}

/// `SmallVec::new`: empty and inline.
#[verifier::external_body]
pub(crate) fn small_vec_n32_new() -> (r: SmallVecNumbers32)
    ensures
        r.wf(),
        sv_n32_items(r) == Seq::<usize>::empty(),
        sv_n32_cap(r) == 32,
{
    SmallVecNumbers32 { inner: smallvec::SmallVec::new() }
}

/// `push`: `value` appended; a full vector first grows by amortised doubling,
/// whose size computation must not overflow.
#[verifier::external_body]
pub(crate) fn small_vec_n32_push(v: &mut SmallVecNumbers32, value: usize)
    requires
        old(v).wf(),
        !growth_overflows(sv_n32_items(*old(v)).len(), sv_n32_cap(*old(v)), 1, vstd::layout::size_of::<usize>()),
    ensures
        final(v).wf(),
        sv_n32_items(*final(v)) == sv_n32_items(*old(v)).push(value),
        sv_n32_cap(*final(v)) == grown(sv_n32_items(*old(v)).len(), sv_n32_cap(*old(v)), 1),
{
    v.inner.push(value)
}

/// `drain` of `start..end`, run to its end: the removed items, in order; the
/// items after the range close the gap. It panics unless
/// `start <= end <= len`.
#[verifier::external_body]
pub(crate) fn small_vec_n32_drain(v: &mut SmallVecNumbers32, start: usize, end: usize) -> (r: Vec<usize>)
    requires
        old(v).wf(),
        start <= end <= sv_n32_items(*old(v)).len(),
    ensures
        final(v).wf(),
        r@ == sv_n32_items(*old(v)).subrange(start as int, end as int),
        sv_n32_items(*final(v)) == sv_n32_items(*old(v)).take(start as int) + sv_n32_items(*old(v)).skip(end as int),
        sv_n32_cap(*final(v)) == sv_n32_cap(*old(v)),
{
    v.inner.drain(start..end).collect()
}

/// `as_slice`: the items.
#[verifier::external_body]
pub(crate) fn small_vec_n32_as_slice(v: &SmallVecNumbers32) -> (r: &[usize])
    ensures
        r@ == sv_n32_items(*v),
{
    v.inner.as_slice()
}

/// `retain` with the even test: the even items kept, in order; the capacity
/// stays.
#[verifier::external_body]
pub(crate) fn small_vec_n32_retain_even(v: &mut SmallVecNumbers32)
    requires
        old(v).wf(),
    ensures
        final(v).wf(),
        sv_n32_items(*final(v)) == sv_n32_items(*old(v)).filter(|x: usize| x % 2 == 0),
        sv_n32_cap(*final(v)) == sv_n32_cap(*old(v)),
{
    v.inner.retain(|x: &mut usize| crate::numbered::is_even_usize(*x))
}

/// `resize`: truncated to `len`, or extended to `len` with copies of
/// `value` after reserving room for them.
#[verifier::external_body]
pub(crate) fn small_vec_n32_resize(v: &mut SmallVecNumbers32, len: usize, value: usize)
    requires
        old(v).wf(),
        len > sv_n32_items(*old(v)).len() ==> !growth_overflows(sv_n32_items(*old(v)).len(), sv_n32_cap(*old(v)), (len - sv_n32_items(*old(v)).len()) as nat, vstd::layout::size_of::<usize>()),
    ensures
        final(v).wf(),
        len <= sv_n32_items(*old(v)).len() ==> sv_n32_items(*final(v)) == sv_n32_items(*old(v)).take(len as int) && sv_n32_cap(*final(v)) == sv_n32_cap(*old(v)),
        len > sv_n32_items(*old(v)).len() ==> sv_n32_items(*final(v)) == sv_n32_items(*old(v)) + repeat(value, (len - sv_n32_items(*old(v)).len()) as nat)
            && sv_n32_cap(*final(v)) == grown(sv_n32_items(*old(v)).len(), sv_n32_cap(*old(v)), (len - sv_n32_items(*old(v)).len()) as nat),
{
    v.inner.resize(len, value)
}

/// `resize_with`, each new item the number read at `at` of `g`: truncated to
/// `len`, or extended to `len` after reserving room for the new items.
#[verifier::external_body]
pub(crate) fn small_vec_n32_resize_with_read(v: &mut SmallVecNumbers32, len: usize, g: &[u8], at: usize)
    requires
        old(v).wf(),
        len > sv_n32_items(*old(v)).len() ==> !growth_overflows(sv_n32_items(*old(v)).len(), sv_n32_cap(*old(v)), (len - sv_n32_items(*old(v)).len()) as nat, vstd::layout::size_of::<usize>()),
        len > sv_n32_items(*old(v)).len() ==> at + 8 <= g@.len(),
    ensures
        final(v).wf(),
        len <= sv_n32_items(*old(v)).len() ==> sv_n32_items(*final(v)) == sv_n32_items(*old(v)).take(len as int) && sv_n32_cap(*final(v)) == sv_n32_cap(*old(v)),
        len > sv_n32_items(*old(v)).len() ==> sv_n32_items(*final(v)) == sv_n32_items(*old(v)) + repeat(usize_at(g@, at as int), (len - sv_n32_items(*old(v)).len()) as nat)
            && sv_n32_cap(*final(v)) == grown(sv_n32_items(*old(v)).len(), sv_n32_cap(*old(v)), (len - sv_n32_items(*old(v)).len()) as nat),
{
    v.inner.resize_with(len, || crate::bytes::_to_usize(g, at))
}

/// `Index<usize>`: the item at `index`; it panics when `index >= len`.
#[verifier::external_body]
pub(crate) fn small_vec_n32_index(v: &SmallVecNumbers32, index: usize) -> (r: usize)
    requires
        index < sv_n32_items(*v).len(),
    ensures
        r == sv_n32_items(*v)[index as int],
{
    v.inner[index]
}

/// `DerefMut`: the items, to be written in place.
#[verifier::external_body]
pub(crate) fn small_vec_n32_deref_mut(v: &mut SmallVecNumbers32) -> (r: &mut [usize])
    requires
        old(v).wf(),
    ensures
        r@ == sv_n32_items(*old(v)),
        sv_n32_items(*final(v)) == final(r)@,
        sv_n32_cap(*final(v)) == sv_n32_cap(*old(v)),
{
    std::ops::DerefMut::deref_mut(&mut v.inner)
}

/// `AsMut<[T]>`: the items, to be written in place.
#[verifier::external_body]
pub(crate) fn small_vec_n32_as_mut(v: &mut SmallVecNumbers32) -> (r: &mut [usize])
    requires
        old(v).wf(),
    ensures
        r@ == sv_n32_items(*old(v)),
        sv_n32_items(*final(v)) == final(r)@,
        sv_n32_cap(*final(v)) == sv_n32_cap(*old(v)),
{
    std::convert::AsMut::<[usize]>::as_mut(&mut v.inner)
}

/// `BorrowMut<[T]>`: the items, to be written in place.
#[verifier::external_body]
pub(crate) fn small_vec_n32_borrow_mut(v: &mut SmallVecNumbers32) -> (r: &mut [usize])
    requires
        old(v).wf(),
    ensures
        r@ == sv_n32_items(*old(v)),
        sv_n32_items(*final(v)) == final(r)@,
        sv_n32_cap(*final(v)) == sv_n32_cap(*old(v)),
{
    std::borrow::BorrowMut::<[usize]>::borrow_mut(&mut v.inner)
}

} // verus!

//! `SmallVec<[String; 14]>` of the outside crate, behind trusted wrappers.
//!
//! The outside type is held in a private field: Verus sees a value of it only
//! through two names, the items it holds and the capacity it records. Each
//! wrapper states, over those names, what the crate's source does.
use vstd::prelude::*;
use crate::small_vec::{dedup_seq, exact_growth_overflows, exact_grown, growth_overflows, grown, lex_order, repeat, Order};

verus! {

/// A small vector of `String` with room for 14 items inline.
#[verifier::external_body]
pub struct SmallVecStringN14 {
    inner: smallvec::SmallVec<[String; 14]>,
}

/// The items a `SmallVec<[String; 14]>` holds, in order.
pub uninterp spec fn sv_stringn14_items(v: SmallVecStringN14) -> Seq<String>;

/// The capacity a `SmallVec<[String; 14]>` records (14 while it is inline).
pub uninterp spec fn sv_stringn14_cap(v: SmallVecStringN14) -> nat;

impl View for SmallVecStringN14 {
    type V = Seq<String>;

    open spec fn view(&self) -> Seq<String> {
        sv_stringn14_items(*self)
    }
}

impl SmallVecStringN14 {
    /// The capacity that `capacity()` reports.
    pub open spec fn cap(self) -> nat {
        sv_stringn14_cap(self)
    }

    /// What every vector of this type satisfies: it holds at most its
    /// capacity, is never smaller than its inline size, and a heap buffer
    /// never exceeds `isize::MAX` bytes.
    pub open spec fn wf(self) -> bool {
        &&& self@.len() <= self.cap()
        &&& self.cap() >= 14
        &&& self.cap() * vstd::layout::size_of::<String>() <= isize::MAX || self.cap() == 14
    }
}

/// `SmallVec::with_capacity`: empty, with room for `n` items (inline when
/// `n <= 14`); the size computation must not overflow.
#[verifier::external_body]
pub(crate) fn small_vec_stringn14_with_capacity(n: usize) -> (r: SmallVecStringN14)
    requires
        !exact_growth_overflows(0, 14, n as nat, vstd::layout::size_of::<String>()),
    ensures
        r.wf(),
        sv_stringn14_items(r) == Seq::<String>::empty(),
        sv_stringn14_cap(r) == if n <= 14 { 14 } else { n as nat },
{
    SmallVecStringN14 { inner: smallvec::SmallVec::with_capacity(n) }
}

/// `len`: the number of items.
#[verifier::external_body]
pub(crate) fn small_vec_stringn14_len(v: &SmallVecStringN14) -> (r: usize)
    ensures
        r == sv_stringn14_items(*v).len(),
{
    v.inner.len()
}

/// `capacity`: the recorded capacity.
#[verifier::external_body]
pub(crate) fn small_vec_stringn14_capacity(v: &SmallVecStringN14) -> (r: usize)
    ensures
        r == sv_stringn14_cap(*v),
{
    v.inner.capacity()
}

/// `push`: `value` appended; a full vector first grows by amortised doubling,
/// whose size computation must not overflow.
#[verifier::external_body]
pub(crate) fn small_vec_stringn14_push(v: &mut SmallVecStringN14, value: String)
    requires
        old(v).wf(),
        !growth_overflows(sv_stringn14_items(*old(v)).len(), sv_stringn14_cap(*old(v)), 1, vstd::layout::size_of::<String>()),
    ensures
        final(v).wf(),
        sv_stringn14_items(*final(v)) == sv_stringn14_items(*old(v)).push(value),
        sv_stringn14_cap(*final(v)) == grown(sv_stringn14_items(*old(v)).len(), sv_stringn14_cap(*old(v)), 1),
{
    v.inner.push(value)
}

/// `spilled`: whether the items live in a heap buffer, that is, whether the
/// capacity exceeds the inline size.
#[verifier::external_body]
pub(crate) fn small_vec_stringn14_spilled(v: &SmallVecStringN14) -> (r: bool)
    ensures
        r == (sv_stringn14_cap(*v) > 14),
{
    v.inner.spilled()
}

/// `shrink_to_fit`: a heap vector moves back inline when its items fit there,
/// else its buffer shrinks to its length.
#[verifier::external_body]
pub(crate) fn small_vec_stringn14_shrink_to_fit(v: &mut SmallVecStringN14)
    requires
        old(v).wf(),
    ensures
        final(v).wf(),
        sv_stringn14_items(*final(v)) == sv_stringn14_items(*old(v)),
        sv_stringn14_cap(*final(v)) == if sv_stringn14_cap(*old(v)) == 14 || sv_stringn14_items(*old(v)).len() <= 14 { 14 } else { sv_stringn14_items(*old(v)).len() },
{
    v.inner.shrink_to_fit()
}

/// `clear`: no items left; the capacity stays.
#[verifier::external_body]
pub(crate) fn small_vec_stringn14_clear(v: &mut SmallVecStringN14)
    requires
        old(v).wf(),
    ensures
        final(v).wf(),
        sv_stringn14_items(*final(v)) == Seq::<String>::empty(),
        sv_stringn14_cap(*final(v)) == sv_stringn14_cap(*old(v)),
{
    v.inner.clear()
}

/// `SmallVec::new`: empty and inline.
#[verifier::external_body]
pub(crate) fn small_vec_stringn14_new() -> (r: SmallVecStringN14)
    ensures
        r.wf(),
        sv_stringn14_items(r) == Seq::<String>::empty(),
        sv_stringn14_cap(r) == 14,
{
    SmallVecStringN14 { inner: smallvec::SmallVec::new() }
}

/// `FromIterator` over the items of `vec`: an empty vector extended by them,
/// reserving room for all of them first.
#[verifier::external_body]
pub(crate) fn small_vec_stringn14_from_iter(vec: Vec<String>) -> (r: SmallVecStringN14)
    requires
        !growth_overflows(0, 14, vec@.len(), vstd::layout::size_of::<String>()),
    ensures
        r.wf(),
        sv_stringn14_items(r) == vec@,
        sv_stringn14_cap(r) == grown(0, 14, vec@.len()),
{
    SmallVecStringN14 { inner: <smallvec::SmallVec<[String; 14]> as std::iter::FromIterator<String>>::from_iter(vec.into_iter()) }
}

/// `Borrow<[T]>`: the items.
#[verifier::external_body]
pub(crate) fn small_vec_stringn14_borrow(v: &SmallVecStringN14) -> (r: &[String])
    ensures
        r@ == sv_stringn14_items(*v),
{
    std::borrow::Borrow::<[String]>::borrow(&v.inner)
}

/// `is_empty`: whether there are no items.
#[verifier::external_body]
pub(crate) fn small_vec_stringn14_is_empty(v: &SmallVecStringN14) -> (r: bool)
    ensures
        r == (sv_stringn14_items(*v).len() == 0),
{
    v.inner.is_empty()
}

/// `insert`: `element` placed at `index`, later items shifted right; it first
/// reserves room for one item, and panics when `index > len`.
#[verifier::external_body]
pub(crate) fn small_vec_stringn14_insert(v: &mut SmallVecStringN14, index: usize, element: String)
    requires
        old(v).wf(),
        index <= sv_stringn14_items(*old(v)).len(),
        !growth_overflows(sv_stringn14_items(*old(v)).len(), sv_stringn14_cap(*old(v)), 1, vstd::layout::size_of::<String>()),
    ensures
        final(v).wf(),
        sv_stringn14_items(*final(v)) == sv_stringn14_items(*old(v)).insert(index as int, element),
        sv_stringn14_cap(*final(v)) == grown(sv_stringn14_items(*old(v)).len(), sv_stringn14_cap(*old(v)), 1),
{
    v.inner.insert(index, element)
}

/// `into_iter`, run to its end and collected: the items, in order.
#[verifier::external_body]
pub(crate) fn small_vec_stringn14_into_iter_collect(v: SmallVecStringN14) -> (r: Vec<String>)
    ensures
        r@ == sv_stringn14_items(v),
{
    v.inner.into_iter().collect()
}

} // verus!

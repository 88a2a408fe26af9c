//! `SmallVec<[usize; 18]>` of the outside crate, behind trusted wrappers.
//!
//! The outside type is held in a private field: Verus sees a value of it only
//! through two names, the items it holds and the capacity it records. Each
//! wrapper states, over those names, what the crate's source does.
use vstd::prelude::*;
use crate::small_vec::{dedup_seq, exact_growth_overflows, exact_grown, growth_overflows, grown, lex_order, repeat, Order};
use crate::numbered::usize_ints;
use crate::fixed::dedup_keyed;
use crate::script::usize_at;

verus! {

/// A small vector of `usize` with room for 18 items inline.
#[verifier::external_body]
pub struct SmallVecNumbers18 {
    inner: smallvec::SmallVec<[usize; 18]>,
}

/// The items a `SmallVec<[usize; 18]>` holds, in order.
pub uninterp spec fn sv_n18_items(v: SmallVecNumbers18) -> Seq<usize>;

/// The capacity a `SmallVec<[usize; 18]>` records (18 while it is inline).
pub uninterp spec fn sv_n18_cap(v: SmallVecNumbers18) -> nat;

impl View for SmallVecNumbers18 {
    type V = Seq<usize>;

    open spec fn view(&self) -> Seq<usize> {
        sv_n18_items(*self)
    }
}

impl SmallVecNumbers18 {
    /// The capacity that `capacity()` reports.
    pub open spec fn cap(self) -> nat {
        sv_n18_cap(self)
    }

    /// What every vector of this type satisfies: it holds at most its
    /// capacity, is never smaller than its inline size, and a heap buffer
    /// never exceeds `isize::MAX` bytes.
    pub open spec fn wf(self) -> bool {
        &&& self@.len() <= self.cap()
        &&& self.cap() >= 18
        &&& self.cap() * vstd::layout::size_of::<usize>() <= isize::MAX || self.cap() == 18
    }
}

/// `SmallVec::new`: empty and inline.
#[verifier::external_body]
pub(crate) fn small_vec_n18_new() -> (r: SmallVecNumbers18)
    ensures
        r.wf(),
        sv_n18_items(r) == Seq::<usize>::empty(),
        sv_n18_cap(r) == 18,
{
    SmallVecNumbers18 { inner: smallvec::SmallVec::new() }
}

/// `FromIterator` over the items of `vec`: an empty vector extended by them,
/// reserving room for all of them first.
#[verifier::external_body]
pub(crate) fn small_vec_n18_from_iter(vec: Vec<usize>) -> (r: SmallVecNumbers18)
    requires
        !growth_overflows(0, 18, vec@.len(), vstd::layout::size_of::<usize>()),
    ensures
        r.wf(),
        sv_n18_items(r) == vec@,
        sv_n18_cap(r) == grown(0, 18, vec@.len()),
{
    SmallVecNumbers18 { inner: <smallvec::SmallVec<[usize; 18]> as std::iter::FromIterator<usize>>::from_iter(vec.into_iter()) }
}

/// `PartialEq::eq`: whether the items are equal.
#[verifier::external_body]
pub(crate) fn small_vec_n18_eq(a: &SmallVecNumbers18, b: &SmallVecNumbers18) -> (r: bool)
    ensures
        r == (sv_n18_items(*a) == sv_n18_items(*b)),
{
    a.inner == b.inner
}

/// `Ord::cmp`: the lexicographic order of the items.
#[verifier::external_body]
pub(crate) fn small_vec_n18_compare(a: &SmallVecNumbers18, b: &SmallVecNumbers18) -> (r: Order)
    ensures
        r == lex_order(usize_ints(sv_n18_items(*a)), usize_ints(sv_n18_items(*b))),
{
    match std::cmp::Ord::cmp(&a.inner, &b.inner) {
        std::cmp::Ordering::Less => Order::Less,
        std::cmp::Ordering::Equal => Order::Equal,
        std::cmp::Ordering::Greater => Order::Greater,
    }
}

/// `PartialOrd::partial_cmp`: always `Some` of the lexicographic order.
#[verifier::external_body]
pub(crate) fn small_vec_n18_partial_compare(a: &SmallVecNumbers18, b: &SmallVecNumbers18) -> (r: Option<Order>)
    ensures
        r == Some(lex_order(usize_ints(sv_n18_items(*a)), usize_ints(sv_n18_items(*b)))),
{
    match std::cmp::PartialOrd::partial_cmp(&a.inner, &b.inner) {
        Some(std::cmp::Ordering::Less) => Some(Order::Less),
        Some(std::cmp::Ordering::Equal) => Some(Order::Equal),
        Some(std::cmp::Ordering::Greater) => Some(Order::Greater),
        None => None,
    }
}

/// `clear`: no items left; the capacity stays.
#[verifier::external_body]
pub(crate) fn small_vec_n18_clear(v: &mut SmallVecNumbers18)
    requires
        old(v).wf(),
    ensures
        final(v).wf(),
        sv_n18_items(*final(v)) == Seq::<usize>::empty(),
        sv_n18_cap(*final(v)) == sv_n18_cap(*old(v)),
{
    v.inner.clear()
}

/// `is_empty`: whether there are no items.
#[verifier::external_body]
pub(crate) fn small_vec_n18_is_empty(v: &SmallVecNumbers18) -> (r: bool)
    ensures
        r == (sv_n18_items(*v).len() == 0),
{
    v.inner.is_empty()
}

/// `push`: `value` appended; a full vector first grows by amortised doubling,
/// whose size computation must not overflow.
#[verifier::external_body]
pub(crate) fn small_vec_n18_push(v: &mut SmallVecNumbers18, value: usize)
    requires
        old(v).wf(),
        !growth_overflows(sv_n18_items(*old(v)).len(), sv_n18_cap(*old(v)), 1, vstd::layout::size_of::<usize>()),
    ensures
        final(v).wf(),
        sv_n18_items(*final(v)) == sv_n18_items(*old(v)).push(value),
        sv_n18_cap(*final(v)) == grown(sv_n18_items(*old(v)).len(), sv_n18_cap(*old(v)), 1),
{
    v.inner.push(value)
}

/// `dedup`: every item equal to the one before it removed; the capacity
/// stays.
#[verifier::external_body]
pub(crate) fn small_vec_n18_dedup(v: &mut SmallVecNumbers18)
    requires
        old(v).wf(),
    ensures
        final(v).wf(),
        sv_n18_items(*final(v)) == dedup_seq(sv_n18_items(*old(v))),
        sv_n18_cap(*final(v)) == sv_n18_cap(*old(v)),
{
    v.inner.dedup()
}

/// `dedup_by` with equality: every item equal to the one kept before it
/// removed; the capacity stays.
#[verifier::external_body]
pub(crate) fn small_vec_n18_dedup_by_eq(v: &mut SmallVecNumbers18)
    requires
        old(v).wf(),
    ensures
        final(v).wf(),
        sv_n18_items(*final(v)) == dedup_seq(sv_n18_items(*old(v))),
        sv_n18_cap(*final(v)) == sv_n18_cap(*old(v)),
{
    v.inner.dedup_by(|a: &mut usize, b: &mut usize| crate::numbered::same_usize(a, b))
}

/// `dedup_by_key` with `number_key(kind, _)`: every item whose key equals
/// that of the one kept before it removed; the capacity stays.
#[verifier::external_body]
pub(crate) fn small_vec_n18_dedup_by_key(v: &mut SmallVecNumbers18, kind: u8)
    requires
        old(v).wf(),
    ensures
        final(v).wf(),
        sv_n18_items(*final(v)) == dedup_keyed(sv_n18_items(*old(v)), kind),
        sv_n18_cap(*final(v)) == sv_n18_cap(*old(v)),
{
    v.inner.dedup_by_key(|x: &mut usize| crate::fixed::number_key(kind, *x))
}

/// `as_slice`: the items.
#[verifier::external_body]
pub(crate) fn small_vec_n18_as_slice(v: &SmallVecNumbers18) -> (r: &[usize])
    ensures
        r@ == sv_n18_items(*v),
{
    v.inner.as_slice()
}

} // verus!

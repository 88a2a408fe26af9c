//! `SmallVec<[usize; 262144]>` of the outside crate, behind trusted wrappers:
//! a vector of number-carrying elements, held as their numbers.
//!
//! The outside type is held in a private field: Verus sees a value of it only
//! through two names, the items it holds and the capacity it records. Each
//! wrapper states, over those names, what the crate's source does.
use vstd::prelude::*;
use crate::small_vec::{dedup_seq, exact_growth_overflows, exact_grown, growth_overflows, grown, lex_order, repeat, Order};
use crate::script::usize_at;
use crate::numbered::{is_even_usize, same_usize, usize_ints};

verus! {

/// A small vector of `usize` with room for 262144 items inline.
#[verifier::external_body]
pub struct SmallVecNumbers262144 {
    inner: smallvec::SmallVec<[usize; 262144]>,
}

/// The items a `SmallVec<[usize; 262144]>` holds, in order.
pub uninterp spec fn sv_n262144_items(v: SmallVecNumbers262144) -> Seq<usize>;

/// The capacity a `SmallVec<[usize; 262144]>` records (262144 while it is inline).
pub uninterp spec fn sv_n262144_cap(v: SmallVecNumbers262144) -> nat;

impl View for SmallVecNumbers262144 {
    type V = Seq<usize>;

    open spec fn view(&self) -> Seq<usize> {
        sv_n262144_items(*self)
    }
}

impl SmallVecNumbers262144 {
    /// The capacity that `capacity()` reports.
    pub open spec fn cap(self) -> nat {
        sv_n262144_cap(self)
    }

    /// What every vector of this type satisfies: it holds at most its
    /// capacity, is never smaller than its inline size, and a heap buffer
    /// never exceeds `isize::MAX` bytes.
    pub open spec fn wf(self) -> bool {
        &&& self@.len() <= self.cap()
        &&& self.cap() >= 262144
        &&& self.cap() * vstd::layout::size_of::<usize>() <= isize::MAX || self.cap() == 262144
    }
}

/// `SmallVec::new`: empty and inline.
#[verifier::external_body]
pub(crate) fn small_vec_n262144_new() -> (r: SmallVecNumbers262144)
    ensures
        r.wf(),
        sv_n262144_items(r) == Seq::<usize>::empty(),
        sv_n262144_cap(r) == 262144,
{
    SmallVecNumbers262144 { inner: smallvec::SmallVec::new() }
}

/// `push`: `value` appended; a full vector first grows by amortised doubling,
/// whose size computation must not overflow.
#[verifier::external_body]
pub(crate) fn small_vec_n262144_push(v: &mut SmallVecNumbers262144, value: usize)
    requires
        old(v).wf(),
        !growth_overflows(sv_n262144_items(*old(v)).len(), sv_n262144_cap(*old(v)), 1, vstd::layout::size_of::<usize>()),
    ensures
        final(v).wf(),
        sv_n262144_items(*final(v)) == sv_n262144_items(*old(v)).push(value),
        sv_n262144_cap(*final(v)) == grown(sv_n262144_items(*old(v)).len(), sv_n262144_cap(*old(v)), 1),
{
    v.inner.push(value)
}

/// `Ord::cmp`: the lexicographic order of the items.
#[verifier::external_body]
pub(crate) fn small_vec_n262144_compare(a: &SmallVecNumbers262144, b: &SmallVecNumbers262144) -> (r: Order)
    ensures
        r == lex_order(usize_ints(sv_n262144_items(*a)), usize_ints(sv_n262144_items(*b))),
{
    match std::cmp::Ord::cmp(&a.inner, &b.inner) {
        std::cmp::Ordering::Less => Order::Less,
        std::cmp::Ordering::Equal => Order::Equal,
        std::cmp::Ordering::Greater => Order::Greater,
    }
}

/// `PartialEq::eq`: whether the items are equal.
#[verifier::external_body]
pub(crate) fn small_vec_n262144_eq(a: &SmallVecNumbers262144, b: &SmallVecNumbers262144) -> (r: bool)
    ensures
        r == (sv_n262144_items(*a) == sv_n262144_items(*b)),
{
    a.inner == b.inner
}

/// `len`: the number of items.
#[verifier::external_body]
pub(crate) fn small_vec_n262144_len(v: &SmallVecNumbers262144) -> (r: usize)
    ensures
        r == sv_n262144_items(*v).len(),
{
    v.inner.len()
}

/// `capacity`: the recorded capacity.
#[verifier::external_body]
pub(crate) fn small_vec_n262144_capacity(v: &SmallVecNumbers262144) -> (r: usize)
    ensures
        r == sv_n262144_cap(*v),
{
    v.inner.capacity()
}

/// `is_empty`: whether there are no items.
#[verifier::external_body]
pub(crate) fn small_vec_n262144_is_empty(v: &SmallVecNumbers262144) -> (r: bool)
    ensures
        r == (sv_n262144_items(*v).len() == 0),
{
    v.inner.is_empty()
}

/// `IndexMut<usize>`: the item at `index`, read through a mutable reference;
/// it panics when `index >= len`.
#[verifier::external_body]
pub(crate) fn small_vec_n262144_index_mut(v: &mut SmallVecNumbers262144, index: usize) -> (r: usize)
    requires
        old(v).wf(),
        index < sv_n262144_items(*old(v)).len(),
    ensures
        r == sv_n262144_items(*old(v))[index as int],
        sv_n262144_items(*final(v)) == sv_n262144_items(*old(v)),
        sv_n262144_cap(*final(v)) == sv_n262144_cap(*old(v)),
{
    *std::ops::IndexMut::index_mut(&mut v.inner, index)
}

} // verus!

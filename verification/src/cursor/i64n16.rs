//! `SmallVec<[i64; 16]>` of the outside crate, behind trusted wrappers.
//!
//! The outside type is held in a private field: Verus sees a value of it only
//! through two names, the items it holds and the capacity it records. Each
//! wrapper states, over those names, what the crate's source does.
use vstd::prelude::*;
use crate::small_vec::i64_ints;
use crate::small_vec::{dedup_seq, exact_growth_overflows, exact_grown, growth_overflows, grown, lex_order, repeat, Order};

verus! {

/// A small vector of `i64` with room for 16 items inline.
#[verifier::external_body]
pub struct SmallVecI64N16 {
    inner: smallvec::SmallVec<[i64; 16]>,
}

/// The items a `SmallVec<[i64; 16]>` holds, in order.
pub uninterp spec fn sv_i64n16_items(v: SmallVecI64N16) -> Seq<i64>;

/// The capacity a `SmallVec<[i64; 16]>` records (16 while it is inline).
pub uninterp spec fn sv_i64n16_cap(v: SmallVecI64N16) -> nat;

impl View for SmallVecI64N16 {
    type V = Seq<i64>;

    open spec fn view(&self) -> Seq<i64> {
        sv_i64n16_items(*self)
    }
}

impl SmallVecI64N16 {
    /// The capacity that `capacity()` reports.
    pub open spec fn cap(self) -> nat {
        sv_i64n16_cap(self)
    }

    /// What every vector of this type satisfies: it holds at most its
    /// capacity, is never smaller than its inline size, and a heap buffer
    /// never exceeds `isize::MAX` bytes.
    pub open spec fn wf(self) -> bool {
        &&& self@.len() <= self.cap()
        &&& self.cap() >= 16
        &&& self.cap() * vstd::layout::size_of::<i64>() <= isize::MAX || self.cap() == 16
    }
}

/// `FromIterator` over the items of `vec`: an empty vector extended by them,
/// reserving room for all of them first.
#[verifier::external_body]
pub(crate) fn small_vec_i64n16_from_iter(vec: Vec<i64>) -> (r: SmallVecI64N16)
    requires
        !growth_overflows(0, 16, vec@.len(), vstd::layout::size_of::<i64>()),
    ensures
        r.wf(),
        sv_i64n16_items(r) == vec@,
        sv_i64n16_cap(r) == grown(0, 16, vec@.len()),
{
    SmallVecI64N16 { inner: <smallvec::SmallVec<[i64; 16]> as std::iter::FromIterator<i64>>::from_iter(vec.into_iter()) }
}

/// `reserve`: room for `additional` more items by amortised doubling; the
/// size computation must not overflow.
#[verifier::external_body]
pub(crate) fn small_vec_i64n16_reserve(v: &mut SmallVecI64N16, additional: usize)
    requires
        old(v).wf(),
        !growth_overflows(sv_i64n16_items(*old(v)).len(), sv_i64n16_cap(*old(v)), additional as nat, vstd::layout::size_of::<i64>()),
    ensures
        final(v).wf(),
        sv_i64n16_items(*final(v)) == sv_i64n16_items(*old(v)),
        sv_i64n16_cap(*final(v)) == grown(sv_i64n16_items(*old(v)).len(), sv_i64n16_cap(*old(v)), additional as nat),
{
    v.inner.reserve(additional)
}

/// `resize`: truncated to `len`, or extended to `len` with copies of
/// `value` after reserving room for them.
#[verifier::external_body]
pub(crate) fn small_vec_i64n16_resize(v: &mut SmallVecI64N16, len: usize, value: i64)
    requires
        old(v).wf(),
        len > sv_i64n16_items(*old(v)).len() ==> !growth_overflows(sv_i64n16_items(*old(v)).len(), sv_i64n16_cap(*old(v)), (len - sv_i64n16_items(*old(v)).len()) as nat, vstd::layout::size_of::<i64>()),
    ensures
        final(v).wf(),
        len <= sv_i64n16_items(*old(v)).len() ==> sv_i64n16_items(*final(v)) == sv_i64n16_items(*old(v)).take(len as int) && sv_i64n16_cap(*final(v)) == sv_i64n16_cap(*old(v)),
        len > sv_i64n16_items(*old(v)).len() ==> sv_i64n16_items(*final(v)) == sv_i64n16_items(*old(v)) + repeat(value, (len - sv_i64n16_items(*old(v)).len()) as nat)
            && sv_i64n16_cap(*final(v)) == grown(sv_i64n16_items(*old(v)).len(), sv_i64n16_cap(*old(v)), (len - sv_i64n16_items(*old(v)).len()) as nat),
{
    v.inner.resize(len, value)
}

/// `into_vec`: the items, as a `Vec`.
#[verifier::external_body]
pub(crate) fn small_vec_i64n16_into_vec(v: SmallVecI64N16) -> (r: Vec<i64>)
    ensures
        r@ == sv_i64n16_items(v),
{
    v.inner.into_vec()
}

/// `len`: the number of items.
#[verifier::external_body]
pub(crate) fn small_vec_i64n16_len(v: &SmallVecI64N16) -> (r: usize)
    ensures
        r == sv_i64n16_items(*v).len(),
{
    v.inner.len()
}

/// `capacity`: the recorded capacity.
#[verifier::external_body]
pub(crate) fn small_vec_i64n16_capacity(v: &SmallVecI64N16) -> (r: usize)
    ensures
        r == sv_i64n16_cap(*v),
{
    v.inner.capacity()
}

/// `SmallVec::new`: empty and inline.
#[verifier::external_body]
pub(crate) fn small_vec_i64n16_new() -> (r: SmallVecI64N16)
    ensures
        r.wf(),
        sv_i64n16_items(r) == Seq::<i64>::empty(),
        sv_i64n16_cap(r) == 16,
{
    SmallVecI64N16 { inner: smallvec::SmallVec::new() }
}

/// `SmallVec::from_elem`: `n` copies of `elem`; inline when `n <= 16`, else
/// through `vec![elem; n]`, whose size computation must not overflow.
#[verifier::external_body]
pub(crate) fn small_vec_i64n16_from_elem(elem: i64, n: usize) -> (r: SmallVecI64N16)
    requires
        n <= 16 || n * vstd::layout::size_of::<i64>() <= isize::MAX,
    ensures
        r.wf(),
        sv_i64n16_items(r) == repeat(elem, n as nat),
        n <= 16 ==> sv_i64n16_cap(r) == 16,
{
    SmallVecI64N16 { inner: smallvec::SmallVec::from_elem(elem, n) }
}

/// `SmallVec::with_capacity`: empty, with room for `n` items (inline when
/// `n <= 16`); the size computation must not overflow.
#[verifier::external_body]
pub(crate) fn small_vec_i64n16_with_capacity(n: usize) -> (r: SmallVecI64N16)
    requires
        !exact_growth_overflows(0, 16, n as nat, vstd::layout::size_of::<i64>()),
    ensures
        r.wf(),
        sv_i64n16_items(r) == Seq::<i64>::empty(),
        sv_i64n16_cap(r) == if n <= 16 { 16 } else { n as nat },
{
    SmallVecI64N16 { inner: smallvec::SmallVec::with_capacity(n) }
}

/// `push`: `value` appended; a full vector first grows by amortised doubling,
/// whose size computation must not overflow.
#[verifier::external_body]
pub(crate) fn small_vec_i64n16_push(v: &mut SmallVecI64N16, value: i64)
    requires
        old(v).wf(),
        !growth_overflows(sv_i64n16_items(*old(v)).len(), sv_i64n16_cap(*old(v)), 1, vstd::layout::size_of::<i64>()),
    ensures
        final(v).wf(),
        sv_i64n16_items(*final(v)) == sv_i64n16_items(*old(v)).push(value),
        sv_i64n16_cap(*final(v)) == grown(sv_i64n16_items(*old(v)).len(), sv_i64n16_cap(*old(v)), 1),
{
    v.inner.push(value)
}

/// `Borrow<[T]>`: the items.
#[verifier::external_body]
pub(crate) fn small_vec_i64n16_borrow(v: &SmallVecI64N16) -> (r: &[i64])
    ensures
        r@ == sv_i64n16_items(*v),
{
    std::borrow::Borrow::<[i64]>::borrow(&v.inner)
}

/// `Ord::cmp`: the lexicographic order of the items.
#[verifier::external_body]
pub(crate) fn small_vec_i64n16_compare(a: &SmallVecI64N16, b: &SmallVecI64N16) -> (r: Order)
    ensures
        r == lex_order(i64_ints(sv_i64n16_items(*a)), i64_ints(sv_i64n16_items(*b))),
{
    match std::cmp::Ord::cmp(&a.inner, &b.inner) {
        std::cmp::Ordering::Less => Order::Less,
        std::cmp::Ordering::Equal => Order::Equal,
        std::cmp::Ordering::Greater => Order::Greater,
    }
}

/// `PartialOrd::partial_cmp`: always `Some` of the lexicographic order.
#[verifier::external_body]
pub(crate) fn small_vec_i64n16_partial_compare(a: &SmallVecI64N16, b: &SmallVecI64N16) -> (r: Option<Order>)
    ensures
        r == Some(lex_order(i64_ints(sv_i64n16_items(*a)), i64_ints(sv_i64n16_items(*b)))),
{
    match std::cmp::PartialOrd::partial_cmp(&a.inner, &b.inner) {
        Some(std::cmp::Ordering::Less) => Some(Order::Less),
        Some(std::cmp::Ordering::Equal) => Some(Order::Equal),
        Some(std::cmp::Ordering::Greater) => Some(Order::Greater),
        None => None,
    }
}

/// `append`: all items of `other` moved to the end of `v`, after reserving
/// room for them, leaving `other` empty with its capacity.
#[verifier::external_body]
pub(crate) fn small_vec_i64n16_append(v: &mut SmallVecI64N16, other: &mut SmallVecI64N16)
    requires
        old(v).wf(),
        old(other).wf(),
        !growth_overflows(sv_i64n16_items(*old(v)).len(), sv_i64n16_cap(*old(v)), sv_i64n16_items(*old(other)).len(), vstd::layout::size_of::<i64>()),
    ensures
        final(v).wf(),
        final(other).wf(),
        sv_i64n16_items(*final(v)) == sv_i64n16_items(*old(v)) + sv_i64n16_items(*old(other)),
        sv_i64n16_cap(*final(v)) == grown(sv_i64n16_items(*old(v)).len(), sv_i64n16_cap(*old(v)), sv_i64n16_items(*old(other)).len()),
        sv_i64n16_items(*final(other)) == Seq::<i64>::empty(),
        sv_i64n16_cap(*final(other)) == sv_i64n16_cap(*old(other)),
{
    v.inner.append(&mut other.inner)
}

} // verus!

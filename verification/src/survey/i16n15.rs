//! `SmallVec<[i16; 15]>` of the outside crate, behind trusted wrappers.
//!
//! The outside type is held in a private field: Verus sees a value of it only
//! through two names, the items it holds and the capacity it records. Each
//! wrapper states, over those names, what the crate's source does.
use vstd::prelude::*;
use crate::small_vec::i16_ints;
use crate::small_vec::{dedup_seq, exact_growth_overflows, exact_grown, growth_overflows, grown, lex_order, repeat, Order};

verus! {

/// A small vector of `i16` with room for 15 items inline.
#[verifier::external_body]
pub struct SmallVecI16N15 {
    inner: smallvec::SmallVec<[i16; 15]>,
}

/// The items a `SmallVec<[i16; 15]>` holds, in order.
pub uninterp spec fn sv_i16n15_items(v: SmallVecI16N15) -> Seq<i16>;

/// The capacity a `SmallVec<[i16; 15]>` records (15 while it is inline).
pub uninterp spec fn sv_i16n15_cap(v: SmallVecI16N15) -> nat;

impl View for SmallVecI16N15 {
    type V = Seq<i16>;

    open spec fn view(&self) -> Seq<i16> {
        sv_i16n15_items(*self)
    }
}

impl SmallVecI16N15 {
    /// The capacity that `capacity()` reports.
    pub open spec fn cap(self) -> nat {
        sv_i16n15_cap(self)
    }

    /// What every vector of this type satisfies: it holds at most its
    /// capacity, is never smaller than its inline size, and a heap buffer
    /// never exceeds `isize::MAX` bytes.
    pub open spec fn wf(self) -> bool {
        &&& self@.len() <= self.cap()
        &&& self.cap() >= 15
        &&& self.cap() * vstd::layout::size_of::<i16>() <= isize::MAX || self.cap() == 15
    }
}

/// `SmallVec::from_slice`: a copy of `slice`; inline when it has at most 15
/// items, else in a heap buffer whose capacity nothing here states.
#[verifier::external_body]
pub(crate) fn small_vec_i16n15_from_slice(slice: &[i16]) -> (r: SmallVecI16N15)
    ensures
        r.wf(),
        sv_i16n15_items(r) == slice@,
        slice@.len() <= 15 ==> sv_i16n15_cap(r) == 15,
{
    SmallVecI16N15 { inner: smallvec::SmallVec::from_slice(slice) }
}

/// `as_slice`: the items.
#[verifier::external_body]
pub(crate) fn small_vec_i16n15_as_slice(v: &SmallVecI16N15) -> (r: &[i16])
    ensures
        r@ == sv_i16n15_items(*v),
{
    v.inner.as_slice()
}

/// `spilled`: whether the items live in a heap buffer, that is, whether the
/// capacity exceeds the inline size.
#[verifier::external_body]
pub(crate) fn small_vec_i16n15_spilled(v: &SmallVecI16N15) -> (r: bool)
    ensures
        r == (sv_i16n15_cap(*v) > 15),
{
    v.inner.spilled()
}

/// `Deref`: the items.
#[verifier::external_body]
pub(crate) fn small_vec_i16n15_deref(v: &SmallVecI16N15) -> (r: &[i16])
    ensures
        r@ == sv_i16n15_items(*v),
{
    std::ops::Deref::deref(&v.inner)
}

/// `AsRef<[T]>`: the items.
#[verifier::external_body]
pub(crate) fn small_vec_i16n15_as_ref(v: &SmallVecI16N15) -> (r: &[i16])
    ensures
        r@ == sv_i16n15_items(*v),
{
    std::convert::AsRef::<[i16]>::as_ref(&v.inner)
}

/// `SmallVec::new`: empty and inline.
#[verifier::external_body]
pub(crate) fn small_vec_i16n15_new() -> (r: SmallVecI16N15)
    ensures
        r.wf(),
        sv_i16n15_items(r) == Seq::<i16>::empty(),
        sv_i16n15_cap(r) == 15,
{
    SmallVecI16N15 { inner: smallvec::SmallVec::new() }
}

/// `push`: `value` appended; a full vector first grows by amortised doubling,
/// whose size computation must not overflow.
#[verifier::external_body]
pub(crate) fn small_vec_i16n15_push(v: &mut SmallVecI16N15, value: i16)
    requires
        old(v).wf(),
        !growth_overflows(sv_i16n15_items(*old(v)).len(), sv_i16n15_cap(*old(v)), 1, vstd::layout::size_of::<i16>()),
    ensures
        final(v).wf(),
        sv_i16n15_items(*final(v)) == sv_i16n15_items(*old(v)).push(value),
        sv_i16n15_cap(*final(v)) == grown(sv_i16n15_items(*old(v)).len(), sv_i16n15_cap(*old(v)), 1),
{
    v.inner.push(value)
}

/// `PartialEq::eq`: whether the items are equal.
#[verifier::external_body]
pub(crate) fn small_vec_i16n15_eq(a: &SmallVecI16N15, b: &SmallVecI16N15) -> (r: bool)
    ensures
        r == (sv_i16n15_items(*a) == sv_i16n15_items(*b)),
{
    a.inner == b.inner
}

/// `PartialOrd::partial_cmp`: always `Some` of the lexicographic order.
#[verifier::external_body]
pub(crate) fn small_vec_i16n15_partial_compare(a: &SmallVecI16N15, b: &SmallVecI16N15) -> (r: Option<Order>)
    ensures
        r == Some(lex_order(i16_ints(sv_i16n15_items(*a)), i16_ints(sv_i16n15_items(*b)))),
{
    match std::cmp::PartialOrd::partial_cmp(&a.inner, &b.inner) {
        Some(std::cmp::Ordering::Less) => Some(Order::Less),
        Some(std::cmp::Ordering::Equal) => Some(Order::Equal),
        Some(std::cmp::Ordering::Greater) => Some(Order::Greater),
        None => None,
    }
}

/// `Ord::cmp`: the lexicographic order of the items.
#[verifier::external_body]
pub(crate) fn small_vec_i16n15_compare(a: &SmallVecI16N15, b: &SmallVecI16N15) -> (r: Order)
    ensures
        r == lex_order(i16_ints(sv_i16n15_items(*a)), i16_ints(sv_i16n15_items(*b))),
{
    match std::cmp::Ord::cmp(&a.inner, &b.inner) {
        std::cmp::Ordering::Less => Order::Less,
        std::cmp::Ordering::Equal => Order::Equal,
        std::cmp::Ordering::Greater => Order::Greater,
    }
}

/// `into_vec`: the items, as a `Vec`.
#[verifier::external_body]
pub(crate) fn small_vec_i16n15_into_vec(v: SmallVecI16N15) -> (r: Vec<i16>)
    ensures
        r@ == sv_i16n15_items(v),
{
    v.inner.into_vec()
}

} // verus!

//! `SmallVec<[u16; 14]>` of the outside crate, behind trusted wrappers.
//!
//! The outside type is held in a private field: Verus sees a value of it only
//! through two names, the items it holds and the capacity it records. Each
//! wrapper states, over those names, what the crate's source does.
use vstd::prelude::*;
use crate::small_vec::{dedup_seq, exact_growth_overflows, exact_grown, growth_overflows, grown, lex_order, repeat, Order};

verus! {

/// A small vector of `u16` with room for 14 items inline.
#[verifier::external_body]
pub struct SmallVecU16N14 {
    inner: smallvec::SmallVec<[u16; 14]>,
}

/// The items a `SmallVec<[u16; 14]>` holds, in order.
pub uninterp spec fn sv_u16n14_items(v: SmallVecU16N14) -> Seq<u16>;

/// The capacity a `SmallVec<[u16; 14]>` records (14 while it is inline).
pub uninterp spec fn sv_u16n14_cap(v: SmallVecU16N14) -> nat;

impl View for SmallVecU16N14 {
    type V = Seq<u16>;

    open spec fn view(&self) -> Seq<u16> {
        sv_u16n14_items(*self)
    }
}

/// The items of `s` as integers.
pub open spec fn u16_ints(s: Seq<u16>) -> Seq<int> {
    s.map_values(|x: u16| x as int)
}

impl SmallVecU16N14 {
    /// The capacity that `capacity()` reports.
    pub open spec fn cap(self) -> nat {
        sv_u16n14_cap(self)
    }

    /// What every vector of this type satisfies: it holds at most its
    /// capacity, is never smaller than its inline size, and a heap buffer
    /// never exceeds `isize::MAX` bytes.
    pub open spec fn wf(self) -> bool {
        &&& self@.len() <= self.cap()
        &&& self.cap() >= 14
        &&& self.cap() * vstd::layout::size_of::<u16>() <= isize::MAX || self.cap() == 14
    }
}

/// `SmallVec::new`: empty and inline.
#[verifier::external_body]
pub(crate) fn small_vec_u16n14_new() -> (r: SmallVecU16N14)
    ensures
        r.wf(),
        sv_u16n14_items(r) == Seq::<u16>::empty(),
        sv_u16n14_cap(r) == 14,
{
    SmallVecU16N14 { inner: smallvec::SmallVec::new() }
}

/// `push`: `value` appended; a full vector first grows by amortised doubling,
/// whose size computation must not overflow.
#[verifier::external_body]
pub(crate) fn small_vec_u16n14_push(v: &mut SmallVecU16N14, value: u16)
    requires
        old(v).wf(),
        !growth_overflows(sv_u16n14_items(*old(v)).len(), sv_u16n14_cap(*old(v)), 1, vstd::layout::size_of::<u16>()),
    ensures
        final(v).wf(),
        sv_u16n14_items(*final(v)) == sv_u16n14_items(*old(v)).push(value),
        sv_u16n14_cap(*final(v)) == grown(sv_u16n14_items(*old(v)).len(), sv_u16n14_cap(*old(v)), 1),
{
    v.inner.push(value)
}

/// `reserve`: room for `additional` more items by amortised doubling; the
/// size computation must not overflow.
#[verifier::external_body]
pub(crate) fn small_vec_u16n14_reserve(v: &mut SmallVecU16N14, additional: usize)
    requires
        old(v).wf(),
        !growth_overflows(sv_u16n14_items(*old(v)).len(), sv_u16n14_cap(*old(v)), additional as nat, vstd::layout::size_of::<u16>()),
    ensures
        final(v).wf(),
        sv_u16n14_items(*final(v)) == sv_u16n14_items(*old(v)),
        sv_u16n14_cap(*final(v)) == grown(sv_u16n14_items(*old(v)).len(), sv_u16n14_cap(*old(v)), additional as nat),
{
    v.inner.reserve(additional)
}

/// `append`: all items of `other` moved to the end of `v`, after reserving
/// room for them, leaving `other` empty with its capacity.
#[verifier::external_body]
pub(crate) fn small_vec_u16n14_append(v: &mut SmallVecU16N14, other: &mut SmallVecU16N14)
    requires
        old(v).wf(),
        old(other).wf(),
        !growth_overflows(sv_u16n14_items(*old(v)).len(), sv_u16n14_cap(*old(v)), sv_u16n14_items(*old(other)).len(), vstd::layout::size_of::<u16>()),
    ensures
        final(v).wf(),
        final(other).wf(),
        sv_u16n14_items(*final(v)) == sv_u16n14_items(*old(v)) + sv_u16n14_items(*old(other)),
        sv_u16n14_cap(*final(v)) == grown(sv_u16n14_items(*old(v)).len(), sv_u16n14_cap(*old(v)), sv_u16n14_items(*old(other)).len()),
        sv_u16n14_items(*final(other)) == Seq::<u16>::empty(),
        sv_u16n14_cap(*final(other)) == sv_u16n14_cap(*old(other)),
{
    v.inner.append(&mut other.inner)
}

/// `PartialEq::eq`: whether the items are equal.
#[verifier::external_body]
pub(crate) fn small_vec_u16n14_eq(a: &SmallVecU16N14, b: &SmallVecU16N14) -> (r: bool)
    ensures
        r == (sv_u16n14_items(*a) == sv_u16n14_items(*b)),
{
    a.inner == b.inner
}

/// `Clone`: copies of the items, collected into a new vector that reserves
/// room for all of them.
#[verifier::external_body]
pub(crate) fn small_vec_u16n14_clone(v: &SmallVecU16N14) -> (r: SmallVecU16N14)
    requires
        !growth_overflows(0, 14, sv_u16n14_items(*v).len(), vstd::layout::size_of::<u16>()),
    ensures
        r.wf(),
        sv_u16n14_items(r) == sv_u16n14_items(*v),
        sv_u16n14_cap(r) == grown(0, 14, sv_u16n14_items(*v).len()),
{
    SmallVecU16N14 { inner: v.inner.clone() }
}

/// `Ord::cmp`: the lexicographic order of the items.
#[verifier::external_body]
pub(crate) fn small_vec_u16n14_compare(a: &SmallVecU16N14, b: &SmallVecU16N14) -> (r: Order)
    ensures
        r == lex_order(u16_ints(sv_u16n14_items(*a)), u16_ints(sv_u16n14_items(*b))),
{
    match std::cmp::Ord::cmp(&a.inner, &b.inner) {
        std::cmp::Ordering::Less => Order::Less,
        std::cmp::Ordering::Equal => Order::Equal,
        std::cmp::Ordering::Greater => Order::Greater,
    }
}

/// `len`: the number of items.
#[verifier::external_body]
pub(crate) fn small_vec_u16n14_len(v: &SmallVecU16N14) -> (r: usize)
    ensures
        r == sv_u16n14_items(*v).len(),
{
    v.inner.len()
}

/// `capacity`: the recorded capacity.
#[verifier::external_body]
pub(crate) fn small_vec_u16n14_capacity(v: &SmallVecU16N14) -> (r: usize)
    ensures
        r == sv_u16n14_cap(*v),
{
    v.inner.capacity()
}

} // verus!

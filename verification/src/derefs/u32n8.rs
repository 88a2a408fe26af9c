//! `SmallVec<[u32; 8]>` of the outside crate, behind trusted wrappers.
//!
//! The outside type is held in a private field: Verus sees a value of it only
//! through two names, the items it holds and the capacity it records. Each
//! wrapper states, over those names, what the crate's source does.
use vstd::prelude::*;
use crate::small_vec::{dedup_seq, exact_growth_overflows, exact_grown, growth_overflows, grown, lex_order, repeat, u32_ints, Order};

verus! {

/// A small vector of `u32` with room for 8 items inline.
#[verifier::external_body]
pub struct SmallVecU32N8 {
    inner: smallvec::SmallVec<[u32; 8]>,
}

/// The items a `SmallVec<[u32; 8]>` holds, in order.
pub uninterp spec fn sv_u32n8_items(v: SmallVecU32N8) -> Seq<u32>;

/// The capacity a `SmallVec<[u32; 8]>` records (8 while it is inline).
pub uninterp spec fn sv_u32n8_cap(v: SmallVecU32N8) -> nat;

impl View for SmallVecU32N8 {
    type V = Seq<u32>;

    open spec fn view(&self) -> Seq<u32> {
        sv_u32n8_items(*self)
    }
}

impl SmallVecU32N8 {
    /// The capacity that `capacity()` reports.
    pub open spec fn cap(self) -> nat {
        sv_u32n8_cap(self)
    }

    /// What every vector of this type satisfies: it holds at most its
    /// capacity, is never smaller than its inline size, and a heap buffer
    /// never exceeds `isize::MAX` bytes.
    pub open spec fn wf(self) -> bool {
        &&& self@.len() <= self.cap()
        &&& self.cap() >= 8
        &&& self.cap() * vstd::layout::size_of::<u32>() <= isize::MAX || self.cap() == 8
    }
}

/// `SmallVec::new`: empty and inline.
#[verifier::external_body]
pub(crate) fn small_vec_u32n8_new() -> (r: SmallVecU32N8)
    ensures
        r.wf(),
        sv_u32n8_items(r) == Seq::<u32>::empty(),
        sv_u32n8_cap(r) == 8,
{
    SmallVecU32N8 { inner: smallvec::SmallVec::new() }
}

/// `push`: `value` appended; a full vector first grows by amortised doubling,
/// whose size computation must not overflow.
#[verifier::external_body]
pub(crate) fn small_vec_u32n8_push(v: &mut SmallVecU32N8, value: u32)
    requires
        old(v).wf(),
        !growth_overflows(sv_u32n8_items(*old(v)).len(), sv_u32n8_cap(*old(v)), 1, vstd::layout::size_of::<u32>()),
    ensures
        final(v).wf(),
        sv_u32n8_items(*final(v)) == sv_u32n8_items(*old(v)).push(value),
        sv_u32n8_cap(*final(v)) == grown(sv_u32n8_items(*old(v)).len(), sv_u32n8_cap(*old(v)), 1),
{
    v.inner.push(value)
}

/// `Clone`: copies of the items, collected into a new vector that reserves
/// room for all of them.
#[verifier::external_body]
pub(crate) fn small_vec_u32n8_clone(v: &SmallVecU32N8) -> (r: SmallVecU32N8)
    requires
        !growth_overflows(0, 8, sv_u32n8_items(*v).len(), vstd::layout::size_of::<u32>()),
    ensures
        r.wf(),
        sv_u32n8_items(r) == sv_u32n8_items(*v),
        sv_u32n8_cap(r) == grown(0, 8, sv_u32n8_items(*v).len()),
{
    SmallVecU32N8 { inner: v.inner.clone() }
}

/// `Deref`: the items.
#[verifier::external_body]
pub(crate) fn small_vec_u32n8_deref(v: &SmallVecU32N8) -> (r: &[u32])
    ensures
        r@ == sv_u32n8_items(*v),
{
    std::ops::Deref::deref(&v.inner)
}

/// `reserve_exact`: room for exactly `additional` more items when there is
/// not enough; the size computation must not overflow.
#[verifier::external_body]
pub(crate) fn small_vec_u32n8_reserve_exact(v: &mut SmallVecU32N8, additional: usize)
    requires
        old(v).wf(),
        !exact_growth_overflows(sv_u32n8_items(*old(v)).len(), sv_u32n8_cap(*old(v)), additional as nat, vstd::layout::size_of::<u32>()),
    ensures
        final(v).wf(),
        sv_u32n8_items(*final(v)) == sv_u32n8_items(*old(v)),
        sv_u32n8_cap(*final(v)) == exact_grown(sv_u32n8_items(*old(v)).len(), sv_u32n8_cap(*old(v)), additional as nat),
{
    v.inner.reserve_exact(additional)
}

/// `append`: all items of `other` moved to the end of `v`, after reserving
/// room for them, leaving `other` empty with its capacity.
#[verifier::external_body]
pub(crate) fn small_vec_u32n8_append(v: &mut SmallVecU32N8, other: &mut SmallVecU32N8)
    requires
        old(v).wf(),
        old(other).wf(),
        !growth_overflows(sv_u32n8_items(*old(v)).len(), sv_u32n8_cap(*old(v)), sv_u32n8_items(*old(other)).len(), vstd::layout::size_of::<u32>()),
    ensures
        final(v).wf(),
        final(other).wf(),
        sv_u32n8_items(*final(v)) == sv_u32n8_items(*old(v)) + sv_u32n8_items(*old(other)),
        sv_u32n8_cap(*final(v)) == grown(sv_u32n8_items(*old(v)).len(), sv_u32n8_cap(*old(v)), sv_u32n8_items(*old(other)).len()),
        sv_u32n8_items(*final(other)) == Seq::<u32>::empty(),
        sv_u32n8_cap(*final(other)) == sv_u32n8_cap(*old(other)),
{
    v.inner.append(&mut other.inner)
}

/// `Ord::cmp`: the lexicographic order of the items.
#[verifier::external_body]
pub(crate) fn small_vec_u32n8_compare(a: &SmallVecU32N8, b: &SmallVecU32N8) -> (r: Order)
    ensures
        r == lex_order(u32_ints(sv_u32n8_items(*a)), u32_ints(sv_u32n8_items(*b))),
{
    match std::cmp::Ord::cmp(&a.inner, &b.inner) {
        std::cmp::Ordering::Less => Order::Less,
        std::cmp::Ordering::Equal => Order::Equal,
        std::cmp::Ordering::Greater => Order::Greater,
    }
}

} // verus!

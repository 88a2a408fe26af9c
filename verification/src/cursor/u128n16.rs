//! `SmallVec<[u128; 16]>` of the outside crate, behind trusted wrappers.
//!
//! The outside type is held in a private field: Verus sees a value of it only
//! through two names, the items it holds and the capacity it records. Each
//! wrapper states, over those names, what the crate's source does.
use vstd::prelude::*;
use crate::small_vec::{dedup_seq, exact_growth_overflows, exact_grown, growth_overflows, grown, lex_order, repeat, Order};

verus! {

/// A small vector of `u128` with room for 16 items inline.
#[verifier::external_body]
pub struct SmallVecU128N16 {
    inner: smallvec::SmallVec<[u128; 16]>,
}

/// The items a `SmallVec<[u128; 16]>` holds, in order.
pub uninterp spec fn sv_u128n16_items(v: SmallVecU128N16) -> Seq<u128>;

/// The capacity a `SmallVec<[u128; 16]>` records (16 while it is inline).
pub uninterp spec fn sv_u128n16_cap(v: SmallVecU128N16) -> nat;

impl View for SmallVecU128N16 {
    type V = Seq<u128>;

    open spec fn view(&self) -> Seq<u128> {
        sv_u128n16_items(*self)
    }
}

impl SmallVecU128N16 {
    /// The capacity that `capacity()` reports.
    pub open spec fn cap(self) -> nat {
        sv_u128n16_cap(self)
    }

    /// What every vector of this type satisfies: it holds at most its
    /// capacity, is never smaller than its inline size, and a heap buffer
    /// never exceeds `isize::MAX` bytes.
    pub open spec fn wf(self) -> bool {
        &&& self@.len() <= self.cap()
        &&& self.cap() >= 16
        &&& self.cap() * vstd::layout::size_of::<u128>() <= isize::MAX || self.cap() == 16
    }
}

/// `SmallVec::new`: empty and inline.
#[verifier::external_body]
pub(crate) fn small_vec_u128n16_new() -> (r: SmallVecU128N16)
    ensures
        r.wf(),
        sv_u128n16_items(r) == Seq::<u128>::empty(),
        sv_u128n16_cap(r) == 16,
{
    SmallVecU128N16 { inner: smallvec::SmallVec::new() }
}

/// `push`: `value` appended; a full vector first grows by amortised doubling,
/// whose size computation must not overflow.
#[verifier::external_body]
pub(crate) fn small_vec_u128n16_push(v: &mut SmallVecU128N16, value: u128)
    requires
        old(v).wf(),
        !growth_overflows(sv_u128n16_items(*old(v)).len(), sv_u128n16_cap(*old(v)), 1, vstd::layout::size_of::<u128>()),
    ensures
        final(v).wf(),
        sv_u128n16_items(*final(v)) == sv_u128n16_items(*old(v)).push(value),
        sv_u128n16_cap(*final(v)) == grown(sv_u128n16_items(*old(v)).len(), sv_u128n16_cap(*old(v)), 1),
{
    v.inner.push(value)
}

/// `reserve`: room for `additional` more items by amortised doubling; the
/// size computation must not overflow.
#[verifier::external_body]
pub(crate) fn small_vec_u128n16_reserve(v: &mut SmallVecU128N16, additional: usize)
    requires
        old(v).wf(),
        !growth_overflows(sv_u128n16_items(*old(v)).len(), sv_u128n16_cap(*old(v)), additional as nat, vstd::layout::size_of::<u128>()),
    ensures
        final(v).wf(),
        sv_u128n16_items(*final(v)) == sv_u128n16_items(*old(v)),
        sv_u128n16_cap(*final(v)) == grown(sv_u128n16_items(*old(v)).len(), sv_u128n16_cap(*old(v)), additional as nat),
{
    v.inner.reserve(additional)
}

/// `insert_many` with the items of `vec`: placed at `index`, later items
/// shifted right, after reserving room for all of them; it panics when
/// `index > len`.
#[verifier::external_body]
pub(crate) fn small_vec_u128n16_insert_many(v: &mut SmallVecU128N16, index: usize, vec: Vec<u128>)
    requires
        old(v).wf(),
        index <= sv_u128n16_items(*old(v)).len(),
        !growth_overflows(sv_u128n16_items(*old(v)).len(), sv_u128n16_cap(*old(v)), vec@.len(), vstd::layout::size_of::<u128>()),
    ensures
        final(v).wf(),
        sv_u128n16_items(*final(v)) == sv_u128n16_items(*old(v)).take(index as int) + vec@ + sv_u128n16_items(*old(v)).skip(index as int),
        sv_u128n16_cap(*final(v)) == grown(sv_u128n16_items(*old(v)).len(), sv_u128n16_cap(*old(v)), vec@.len()),
{
    v.inner.insert_many(index, vec)
}

/// `AsRef<[T]>`: the items.
#[verifier::external_body]
pub(crate) fn small_vec_u128n16_as_ref(v: &SmallVecU128N16) -> (r: &[u128])
    ensures
        r@ == sv_u128n16_items(*v),
{
    std::convert::AsRef::<[u128]>::as_ref(&v.inner)
}

/// `len`: the number of items.
#[verifier::external_body]
pub(crate) fn small_vec_u128n16_len(v: &SmallVecU128N16) -> (r: usize)
    ensures
        r == sv_u128n16_items(*v).len(),
{
    v.inner.len()
}

/// `capacity`: the recorded capacity.
#[verifier::external_body]
pub(crate) fn small_vec_u128n16_capacity(v: &SmallVecU128N16) -> (r: usize)
    ensures
        r == sv_u128n16_cap(*v),
{
    v.inner.capacity()
}

} // verus!

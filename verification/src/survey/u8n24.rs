//! `SmallVec<[u8; 24]>` of the outside crate, behind trusted wrappers.
//!
//! The outside type is held in a private field: Verus sees a value of it only
//! through two names, the items it holds and the capacity it records. Each
//! wrapper states, over those names, what the crate's source does.
use vstd::prelude::*;
use crate::small_vec::{dedup_seq, exact_growth_overflows, exact_grown, growth_overflows, grown, lex_order, repeat, Order};

verus! {

/// A small vector of `u8` with room for 24 items inline.
#[verifier::external_body]
pub struct SmallVecU8N24 {
    inner: smallvec::SmallVec<[u8; 24]>,
}

/// The items a `SmallVec<[u8; 24]>` holds, in order.
pub uninterp spec fn sv_u8n24_items(v: SmallVecU8N24) -> Seq<u8>;

/// The capacity a `SmallVec<[u8; 24]>` records (24 while it is inline).
pub uninterp spec fn sv_u8n24_cap(v: SmallVecU8N24) -> nat;

impl View for SmallVecU8N24 {
    type V = Seq<u8>;

    open spec fn view(&self) -> Seq<u8> {
        sv_u8n24_items(*self)
    }
}

impl SmallVecU8N24 {
    /// The capacity that `capacity()` reports.
    pub open spec fn cap(self) -> nat {
        sv_u8n24_cap(self)
    }

    /// What every vector of this type satisfies: it holds at most its
    /// capacity, is never smaller than its inline size, and a heap buffer
    /// never exceeds `isize::MAX` bytes.
    pub open spec fn wf(self) -> bool {
        &&& self@.len() <= self.cap()
        &&& self.cap() >= 24
        &&& self.cap() * vstd::layout::size_of::<u8>() <= isize::MAX || self.cap() == 24
    }
}

/// `SmallVec::from_slice`: a copy of `slice`; inline when it has at most 24
/// items, else in a heap buffer whose capacity nothing here states.
#[verifier::external_body]
pub(crate) fn small_vec_u8n24_from_slice(slice: &[u8]) -> (r: SmallVecU8N24)
    ensures
        r.wf(),
        sv_u8n24_items(r) == slice@,
        slice@.len() <= 24 ==> sv_u8n24_cap(r) == 24,
{
    SmallVecU8N24 { inner: smallvec::SmallVec::from_slice(slice) }
}

/// `as_slice`: the items.
#[verifier::external_body]
pub(crate) fn small_vec_u8n24_as_slice(v: &SmallVecU8N24) -> (r: &[u8])
    ensures
        r@ == sv_u8n24_items(*v),
{
    v.inner.as_slice()
}

/// `len`: the number of items.
#[verifier::external_body]
pub(crate) fn small_vec_u8n24_len(v: &SmallVecU8N24) -> (r: usize)
    ensures
        r == sv_u8n24_items(*v).len(),
{
    v.inner.len()
}

/// `insert`: `element` placed at `index`, later items shifted right; it first
/// reserves room for one item, and panics when `index > len`.
#[verifier::external_body]
pub(crate) fn small_vec_u8n24_insert(v: &mut SmallVecU8N24, index: usize, element: u8)
    requires
        old(v).wf(),
        index <= sv_u8n24_items(*old(v)).len(),
        !growth_overflows(sv_u8n24_items(*old(v)).len(), sv_u8n24_cap(*old(v)), 1, vstd::layout::size_of::<u8>()),
    ensures
        final(v).wf(),
        sv_u8n24_items(*final(v)) == sv_u8n24_items(*old(v)).insert(index as int, element),
        sv_u8n24_cap(*final(v)) == grown(sv_u8n24_items(*old(v)).len(), sv_u8n24_cap(*old(v)), 1),
{
    v.inner.insert(index, element)
}

/// `extend_from_slice`: the items of `slice` appended, after reserving room
/// for all of them.
#[verifier::external_body]
pub(crate) fn small_vec_u8n24_extend_from_slice(v: &mut SmallVecU8N24, slice: &[u8])
    requires
        old(v).wf(),
        !growth_overflows(sv_u8n24_items(*old(v)).len(), sv_u8n24_cap(*old(v)), slice@.len(), vstd::layout::size_of::<u8>()),
    ensures
        final(v).wf(),
        sv_u8n24_items(*final(v)) == sv_u8n24_items(*old(v)) + slice@,
        sv_u8n24_cap(*final(v)) == grown(sv_u8n24_items(*old(v)).len(), sv_u8n24_cap(*old(v)), slice@.len()),
{
    v.inner.extend_from_slice(slice)
}

/// `SmallVec::new`: empty and inline.
#[verifier::external_body]
pub(crate) fn small_vec_u8n24_new() -> (r: SmallVecU8N24)
    ensures
        r.wf(),
        sv_u8n24_items(r) == Seq::<u8>::empty(),
        sv_u8n24_cap(r) == 24,
{
    SmallVecU8N24 { inner: smallvec::SmallVec::new() }
}

/// `push`: `value` appended; a full vector first grows by amortised doubling,
/// whose size computation must not overflow.
#[verifier::external_body]
pub(crate) fn small_vec_u8n24_push(v: &mut SmallVecU8N24, value: u8)
    requires
        old(v).wf(),
        !growth_overflows(sv_u8n24_items(*old(v)).len(), sv_u8n24_cap(*old(v)), 1, vstd::layout::size_of::<u8>()),
    ensures
        final(v).wf(),
        sv_u8n24_items(*final(v)) == sv_u8n24_items(*old(v)).push(value),
        sv_u8n24_cap(*final(v)) == grown(sv_u8n24_items(*old(v)).len(), sv_u8n24_cap(*old(v)), 1),
{
    v.inner.push(value)
}

/// `capacity`: the recorded capacity.
#[verifier::external_body]
pub(crate) fn small_vec_u8n24_capacity(v: &SmallVecU8N24) -> (r: usize)
    ensures
        r == sv_u8n24_cap(*v),
{
    v.inner.capacity()
}

/// `is_empty`: whether there are no items.
#[verifier::external_body]
pub(crate) fn small_vec_u8n24_is_empty(v: &SmallVecU8N24) -> (r: bool)
    ensures
        r == (sv_u8n24_items(*v).len() == 0),
{
    v.inner.is_empty()
}

/// `into_vec`: the items, as a `Vec`.
#[verifier::external_body]
pub(crate) fn small_vec_u8n24_into_vec(v: SmallVecU8N24) -> (r: Vec<u8>)
    ensures
        r@ == sv_u8n24_items(v),
{
    v.inner.into_vec()
}

} // verus!

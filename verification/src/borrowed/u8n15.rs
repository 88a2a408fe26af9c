//! `SmallVec<[u8; 15]>` of the outside crate, behind trusted wrappers.
//!
//! The outside type is held in a private field: Verus sees a value of it only
//! through two names, the items it holds and the capacity it records. Each
//! wrapper states, over those names, what the crate's source does.
use vstd::prelude::*;
use crate::small_vec::{dedup_seq, exact_growth_overflows, exact_grown, growth_overflows, grown, lex_order, repeat, Order};

verus! {

/// A small vector of `u8` with room for 15 items inline.
#[verifier::external_body]
pub struct SmallVecU8N15 {
    inner: smallvec::SmallVec<[u8; 15]>,
}

/// The items a `SmallVec<[u8; 15]>` holds, in order.
pub uninterp spec fn sv_u8n15_items(v: SmallVecU8N15) -> Seq<u8>;

/// The capacity a `SmallVec<[u8; 15]>` records (15 while it is inline).
pub uninterp spec fn sv_u8n15_cap(v: SmallVecU8N15) -> nat;

impl View for SmallVecU8N15 {
    type V = Seq<u8>;

    open spec fn view(&self) -> Seq<u8> {
        sv_u8n15_items(*self)
    }
}

impl SmallVecU8N15 {
    /// The capacity that `capacity()` reports.
    pub open spec fn cap(self) -> nat {
        sv_u8n15_cap(self)
    }

    /// What every vector of this type satisfies: it holds at most its
    /// capacity, is never smaller than its inline size, and a heap buffer
    /// never exceeds `isize::MAX` bytes.
    pub open spec fn wf(self) -> bool {
        &&& self@.len() <= self.cap()
        &&& self.cap() >= 15
        &&& self.cap() * vstd::layout::size_of::<u8>() <= isize::MAX || self.cap() == 15
    }
}

/// `SmallVec::new`: empty and inline.
#[verifier::external_body]
pub(crate) fn small_vec_u8n15_new() -> (r: SmallVecU8N15)
    ensures
        r.wf(),
        sv_u8n15_items(r) == Seq::<u8>::empty(),
        sv_u8n15_cap(r) == 15,
{
    SmallVecU8N15 { inner: smallvec::SmallVec::new() }
}

/// `SmallVec::with_capacity`: empty, with room for `n` items (inline when
/// `n <= 15`); the size computation must not overflow.
#[verifier::external_body]
pub(crate) fn small_vec_u8n15_with_capacity(n: usize) -> (r: SmallVecU8N15)
    requires
        !exact_growth_overflows(0, 15, n as nat, vstd::layout::size_of::<u8>()),
    ensures
        r.wf(),
        sv_u8n15_items(r) == Seq::<u8>::empty(),
        sv_u8n15_cap(r) == if n <= 15 { 15 } else { n as nat },
{
    SmallVecU8N15 { inner: smallvec::SmallVec::with_capacity(n) }
}

/// `SmallVec::from_slice`: a copy of `slice`; inline when it has at most 15
/// items, else in a heap buffer whose capacity nothing here states.
#[verifier::external_body]
pub(crate) fn small_vec_u8n15_from_slice(slice: &[u8]) -> (r: SmallVecU8N15)
    ensures
        r.wf(),
        sv_u8n15_items(r) == slice@,
        slice@.len() <= 15 ==> sv_u8n15_cap(r) == 15,
{
    SmallVecU8N15 { inner: smallvec::SmallVec::from_slice(slice) }
}

/// `push`: `value` appended; a full vector first grows by amortised doubling,
/// whose size computation must not overflow.
#[verifier::external_body]
pub(crate) fn small_vec_u8n15_push(v: &mut SmallVecU8N15, value: u8)
    requires
        old(v).wf(),
        !growth_overflows(sv_u8n15_items(*old(v)).len(), sv_u8n15_cap(*old(v)), 1, vstd::layout::size_of::<u8>()),
    ensures
        final(v).wf(),
        sv_u8n15_items(*final(v)) == sv_u8n15_items(*old(v)).push(value),
        sv_u8n15_cap(*final(v)) == grown(sv_u8n15_items(*old(v)).len(), sv_u8n15_cap(*old(v)), 1),
{
    v.inner.push(value)
}

/// `Borrow<[T]>`: the items.
#[verifier::external_body]
pub(crate) fn small_vec_u8n15_borrow(v: &SmallVecU8N15) -> (r: &[u8])
    ensures
        r@ == sv_u8n15_items(*v),
{
    std::borrow::Borrow::<[u8]>::borrow(&v.inner)
}

/// `BorrowMut<[T]>`: the items, to be written in place.
#[verifier::external_body]
pub(crate) fn small_vec_u8n15_borrow_mut(v: &mut SmallVecU8N15) -> (r: &mut [u8])
    requires
        old(v).wf(),
    ensures
        r@ == sv_u8n15_items(*old(v)),
        sv_u8n15_items(*final(v)) == final(r)@,
        sv_u8n15_cap(*final(v)) == sv_u8n15_cap(*old(v)),
{
    std::borrow::BorrowMut::<[u8]>::borrow_mut(&mut v.inner)
}

/// `capacity`: the recorded capacity.
#[verifier::external_body]
pub(crate) fn small_vec_u8n15_capacity(v: &SmallVecU8N15) -> (r: usize)
    ensures
        r == sv_u8n15_cap(*v),
{
    v.inner.capacity()
}

/// `len`: the number of items.
#[verifier::external_body]
pub(crate) fn small_vec_u8n15_len(v: &SmallVecU8N15) -> (r: usize)
    ensures
        r == sv_u8n15_items(*v).len(),
{
    v.inner.len()
}

/// `spilled`: whether the items live in a heap buffer, that is, whether the
/// capacity exceeds the inline size.
#[verifier::external_body]
pub(crate) fn small_vec_u8n15_spilled(v: &SmallVecU8N15) -> (r: bool)
    ensures
        r == (sv_u8n15_cap(*v) > 15),
{
    v.inner.spilled()
}

} // verus!

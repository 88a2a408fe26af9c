//! `SmallVec<[u8; 22]>` of the outside crate, behind trusted wrappers.
//!
//! The outside type is held in a private field: Verus sees a value of it only
//! through two names, the items it holds and the capacity it records. Each
//! wrapper states, over those names, what the crate's source does.
use vstd::prelude::*;
use crate::small_vec::{dedup_seq, exact_growth_overflows, exact_grown, growth_overflows, grown, lex_order, repeat, Order};

verus! {

/// A small vector of `u8` with room for 22 items inline.
#[verifier::external_body]
pub struct SmallVecU8N22 {
    inner: smallvec::SmallVec<[u8; 22]>,
}

/// The items a `SmallVec<[u8; 22]>` holds, in order.
pub uninterp spec fn sv_u8n22_items(v: SmallVecU8N22) -> Seq<u8>;

/// The capacity a `SmallVec<[u8; 22]>` records (22 while it is inline).
pub uninterp spec fn sv_u8n22_cap(v: SmallVecU8N22) -> nat;

impl View for SmallVecU8N22 {
    type V = Seq<u8>;

    open spec fn view(&self) -> Seq<u8> {
        sv_u8n22_items(*self)
    }
}

impl SmallVecU8N22 {
    /// The capacity that `capacity()` reports.
    pub open spec fn cap(self) -> nat {
        sv_u8n22_cap(self)
    }

    /// What every vector of this type satisfies: it holds at most its
    /// capacity, is never smaller than its inline size, and a heap buffer
    /// never exceeds `isize::MAX` bytes.
    pub open spec fn wf(self) -> bool {
        &&& self@.len() <= self.cap()
        &&& self.cap() >= 22
        &&& self.cap() * vstd::layout::size_of::<u8>() <= isize::MAX || self.cap() == 22
    }
}

/// `FromIterator` over the items of `vec`: an empty vector extended by them,
/// reserving room for all of them first.
#[verifier::external_body]
pub(crate) fn small_vec_u8n22_from_iter(vec: Vec<u8>) -> (r: SmallVecU8N22)
    requires
        !growth_overflows(0, 22, vec@.len(), vstd::layout::size_of::<u8>()),
    ensures
        r.wf(),
        sv_u8n22_items(r) == vec@,
        sv_u8n22_cap(r) == grown(0, 22, vec@.len()),
{
    SmallVecU8N22 { inner: <smallvec::SmallVec<[u8; 22]> as std::iter::FromIterator<u8>>::from_iter(vec.into_iter()) }
}

/// `as_mut_slice`: the items, to be written in place.
#[verifier::external_body]
pub(crate) fn small_vec_u8n22_as_mut_slice(v: &mut SmallVecU8N22) -> (r: &mut [u8])
    requires
        old(v).wf(),
    ensures
        r@ == sv_u8n22_items(*old(v)),
        sv_u8n22_items(*final(v)) == final(r)@,
        sv_u8n22_cap(*final(v)) == sv_u8n22_cap(*old(v)),
{
    v.inner.as_mut_slice()
}

/// `len`: the number of items.
#[verifier::external_body]
pub(crate) fn small_vec_u8n22_len(v: &SmallVecU8N22) -> (r: usize)
    ensures
        r == sv_u8n22_items(*v).len(),
{
    v.inner.len()
}

/// `capacity`: the recorded capacity.
#[verifier::external_body]
pub(crate) fn small_vec_u8n22_capacity(v: &SmallVecU8N22) -> (r: usize)
    ensures
        r == sv_u8n22_cap(*v),
{
    v.inner.capacity()
}

/// `reserve`: room for `additional` more items by amortised doubling; the
/// size computation must not overflow.
#[verifier::external_body]
pub(crate) fn small_vec_u8n22_reserve(v: &mut SmallVecU8N22, additional: usize)
    requires
        old(v).wf(),
        !growth_overflows(sv_u8n22_items(*old(v)).len(), sv_u8n22_cap(*old(v)), additional as nat, vstd::layout::size_of::<u8>()),
    ensures
        final(v).wf(),
        sv_u8n22_items(*final(v)) == sv_u8n22_items(*old(v)),
        sv_u8n22_cap(*final(v)) == grown(sv_u8n22_items(*old(v)).len(), sv_u8n22_cap(*old(v)), additional as nat),
{
    v.inner.reserve(additional)
}

/// `clear`: no items left; the capacity stays.
#[verifier::external_body]
pub(crate) fn small_vec_u8n22_clear(v: &mut SmallVecU8N22)
    requires
        old(v).wf(),
    ensures
        final(v).wf(),
        sv_u8n22_items(*final(v)) == Seq::<u8>::empty(),
        sv_u8n22_cap(*final(v)) == sv_u8n22_cap(*old(v)),
{
    v.inner.clear()
}

/// `SmallVec::from_slice`: a copy of `slice`; inline when it has at most 22
/// items, else in a heap buffer whose capacity nothing here states.
#[verifier::external_body]
pub(crate) fn small_vec_u8n22_from_slice(slice: &[u8]) -> (r: SmallVecU8N22)
    ensures
        r.wf(),
        sv_u8n22_items(r) == slice@,
        slice@.len() <= 22 ==> sv_u8n22_cap(r) == 22,
{
    SmallVecU8N22 { inner: smallvec::SmallVec::from_slice(slice) }
}

/// `ToSmallVec::to_smallvec` on a slice: a copy of it, as `from_slice` makes;
/// inline when it has at most 22 items, else in a heap buffer whose
/// capacity nothing here states.
#[verifier::external_body]
pub(crate) fn small_vec_u8n22_to_small_vec(slice: &[u8]) -> (r: SmallVecU8N22)
    ensures
        r.wf(),
        sv_u8n22_items(r) == slice@,
        slice@.len() <= 22 ==> sv_u8n22_cap(r) == 22,
{
    SmallVecU8N22 { inner: smallvec::ToSmallVec::to_smallvec(slice) }
}

/// `is_empty`: whether there are no items.
#[verifier::external_body]
pub(crate) fn small_vec_u8n22_is_empty(v: &SmallVecU8N22) -> (r: bool)
    ensures
        r == (sv_u8n22_items(*v).len() == 0),
{
    v.inner.is_empty()
}

/// `swap_remove`: the item at `index`, replaced by the last item; it panics
/// when `index >= len`.
#[verifier::external_body]
pub(crate) fn small_vec_u8n22_swap_remove(v: &mut SmallVecU8N22, index: usize) -> (r: u8)
    requires
        old(v).wf(),
        index < sv_u8n22_items(*old(v)).len(),
    ensures
        final(v).wf(),
        r == sv_u8n22_items(*old(v))[index as int],
        sv_u8n22_items(*final(v)) == sv_u8n22_items(*old(v)).update(index as int, sv_u8n22_items(*old(v)).last()).drop_last(),
        sv_u8n22_cap(*final(v)) == sv_u8n22_cap(*old(v)),
{
    v.inner.swap_remove(index)
}

} // verus!

//! `SmallVec<[u32; 19]>` of the outside crate, behind trusted wrappers.
//!
//! The outside type is held in a private field: Verus sees a value of it only
//! through two names, the items it holds and the capacity it records. Each
//! wrapper states, over those names, what the crate's source does.
use vstd::prelude::*;
use crate::small_vec::{dedup_seq, exact_growth_overflows, exact_grown, growth_overflows, grown, lex_order, repeat, Order};

verus! {

/// A small vector of `u32` with room for 19 items inline.
#[verifier::external_body]
pub struct SmallVecU32N19 {
    inner: smallvec::SmallVec<[u32; 19]>,
}

/// The items a `SmallVec<[u32; 19]>` holds, in order.
pub uninterp spec fn sv_u32n19_items(v: SmallVecU32N19) -> Seq<u32>;

/// The capacity a `SmallVec<[u32; 19]>` records (19 while it is inline).
pub uninterp spec fn sv_u32n19_cap(v: SmallVecU32N19) -> nat;

impl View for SmallVecU32N19 {
    type V = Seq<u32>;

    open spec fn view(&self) -> Seq<u32> {
        sv_u32n19_items(*self)
    }
}

impl SmallVecU32N19 {
    /// The capacity that `capacity()` reports.
    pub open spec fn cap(self) -> nat {
        sv_u32n19_cap(self)
    }

    /// What every vector of this type satisfies: it holds at most its
    /// capacity, is never smaller than its inline size, and a heap buffer
    /// never exceeds `isize::MAX` bytes.
    pub open spec fn wf(self) -> bool {
        &&& self@.len() <= self.cap()
        &&& self.cap() >= 19
        &&& self.cap() * vstd::layout::size_of::<u32>() <= isize::MAX || self.cap() == 19
    }
}

/// `SmallVec::new`: empty and inline.
#[verifier::external_body]
pub(crate) fn small_vec_u32n19_new() -> (r: SmallVecU32N19)
    ensures
        r.wf(),
        sv_u32n19_items(r) == Seq::<u32>::empty(),
        sv_u32n19_cap(r) == 19,
{
    SmallVecU32N19 { inner: smallvec::SmallVec::new() }
}

/// `len`: the number of items.
#[verifier::external_body]
pub(crate) fn small_vec_u32n19_len(v: &SmallVecU32N19) -> (r: usize)
    ensures
        r == sv_u32n19_items(*v).len(),
{
    v.inner.len()
}

/// `capacity`: the recorded capacity.
#[verifier::external_body]
pub(crate) fn small_vec_u32n19_capacity(v: &SmallVecU32N19) -> (r: usize)
    ensures
        r == sv_u32n19_cap(*v),
{
    v.inner.capacity()
}

/// `push`: `value` appended; a full vector first grows by amortised doubling,
/// whose size computation must not overflow.
#[verifier::external_body]
pub(crate) fn small_vec_u32n19_push(v: &mut SmallVecU32N19, value: u32)
    requires
        old(v).wf(),
        !growth_overflows(sv_u32n19_items(*old(v)).len(), sv_u32n19_cap(*old(v)), 1, vstd::layout::size_of::<u32>()),
    ensures
        final(v).wf(),
        sv_u32n19_items(*final(v)) == sv_u32n19_items(*old(v)).push(value),
        sv_u32n19_cap(*final(v)) == grown(sv_u32n19_items(*old(v)).len(), sv_u32n19_cap(*old(v)), 1),
{
    v.inner.push(value)
}

/// `pop`: the last item, removed, or `None` when empty; the capacity stays.
#[verifier::external_body]
pub(crate) fn small_vec_u32n19_pop(v: &mut SmallVecU32N19) -> (r: Option<u32>)
    requires
        old(v).wf(),
    ensures
        final(v).wf(),
        sv_u32n19_cap(*final(v)) == sv_u32n19_cap(*old(v)),
        sv_u32n19_items(*old(v)).len() == 0 ==> r is None && sv_u32n19_items(*final(v)) == sv_u32n19_items(*old(v)),
        sv_u32n19_items(*old(v)).len() > 0 ==> r == Some(sv_u32n19_items(*old(v)).last()) && sv_u32n19_items(*final(v)) == sv_u32n19_items(*old(v)).drop_last(),
{
    v.inner.pop()
}

/// `is_empty`: whether there are no items.
#[verifier::external_body]
pub(crate) fn small_vec_u32n19_is_empty(v: &SmallVecU32N19) -> (r: bool)
    ensures
        r == (sv_u32n19_items(*v).len() == 0),
{
    v.inner.is_empty()
}

/// `swap_remove`: the item at `index`, replaced by the last item; it panics
/// when `index >= len`.
#[verifier::external_body]
pub(crate) fn small_vec_u32n19_swap_remove(v: &mut SmallVecU32N19, index: usize) -> (r: u32)
    requires
        old(v).wf(),
        index < sv_u32n19_items(*old(v)).len(),
    ensures
        final(v).wf(),
        r == sv_u32n19_items(*old(v))[index as int],
        sv_u32n19_items(*final(v)) == sv_u32n19_items(*old(v)).update(index as int, sv_u32n19_items(*old(v)).last()).drop_last(),
        sv_u32n19_cap(*final(v)) == sv_u32n19_cap(*old(v)),
{
    v.inner.swap_remove(index)
}

/// `clear`: no items left; the capacity stays.
#[verifier::external_body]
pub(crate) fn small_vec_u32n19_clear(v: &mut SmallVecU32N19)
    requires
        old(v).wf(),
    ensures
        final(v).wf(),
        sv_u32n19_items(*final(v)) == Seq::<u32>::empty(),
        sv_u32n19_cap(*final(v)) == sv_u32n19_cap(*old(v)),
{
    v.inner.clear()
}

} // verus!

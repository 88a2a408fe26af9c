//! `SmallVec<[bool; 20]>` of the outside crate, behind trusted wrappers.
//!
//! The outside type is held in a private field: Verus sees a value of it only
//! through two names, the items it holds and the capacity it records. Each
//! wrapper states, over those names, what the crate's source does.
use vstd::prelude::*;
use crate::small_vec::{dedup_seq, exact_growth_overflows, exact_grown, growth_overflows, grown, lex_order, repeat, Order};

verus! {

/// A small vector of `bool` with room for 20 items inline.
#[verifier::external_body]
pub struct SmallVecBoolN20 {
    inner: smallvec::SmallVec<[bool; 20]>,
}

/// The items a `SmallVec<[bool; 20]>` holds, in order.
pub uninterp spec fn sv_booln20_items(v: SmallVecBoolN20) -> Seq<bool>;

/// The capacity a `SmallVec<[bool; 20]>` records (20 while it is inline).
pub uninterp spec fn sv_booln20_cap(v: SmallVecBoolN20) -> nat;

impl View for SmallVecBoolN20 {
    type V = Seq<bool>;

    open spec fn view(&self) -> Seq<bool> {
        sv_booln20_items(*self)
    }
}

impl SmallVecBoolN20 {
    /// The capacity that `capacity()` reports.
    pub open spec fn cap(self) -> nat {
        sv_booln20_cap(self)
    }

    /// What every vector of this type satisfies: it holds at most its
    /// capacity, is never smaller than its inline size, and a heap buffer
    /// never exceeds `isize::MAX` bytes.
    pub open spec fn wf(self) -> bool {
        &&& self@.len() <= self.cap()
        &&& self.cap() >= 20
        &&& self.cap() * vstd::layout::size_of::<bool>() <= isize::MAX || self.cap() == 20
    }
}

/// `SmallVec::new`: empty and inline.
#[verifier::external_body]
pub(crate) fn small_vec_booln20_new() -> (r: SmallVecBoolN20)
    ensures
        r.wf(),
        sv_booln20_items(r) == Seq::<bool>::empty(),
        sv_booln20_cap(r) == 20,
{
    SmallVecBoolN20 { inner: smallvec::SmallVec::new() }
}

/// `len`: the number of items.
#[verifier::external_body]
pub(crate) fn small_vec_booln20_len(v: &SmallVecBoolN20) -> (r: usize)
    ensures
        r == sv_booln20_items(*v).len(),
{
    v.inner.len()
}

/// `capacity`: the recorded capacity.
#[verifier::external_body]
pub(crate) fn small_vec_booln20_capacity(v: &SmallVecBoolN20) -> (r: usize)
    ensures
        r == sv_booln20_cap(*v),
{
    v.inner.capacity()
}

/// `push`: `value` appended; a full vector first grows by amortised doubling,
/// whose size computation must not overflow.
#[verifier::external_body]
pub(crate) fn small_vec_booln20_push(v: &mut SmallVecBoolN20, value: bool)
    requires
        old(v).wf(),
        !growth_overflows(sv_booln20_items(*old(v)).len(), sv_booln20_cap(*old(v)), 1, vstd::layout::size_of::<bool>()),
    ensures
        final(v).wf(),
        sv_booln20_items(*final(v)) == sv_booln20_items(*old(v)).push(value),
        sv_booln20_cap(*final(v)) == grown(sv_booln20_items(*old(v)).len(), sv_booln20_cap(*old(v)), 1),
{
    v.inner.push(value)
}

/// `resize`: truncated to `len`, or extended to `len` with copies of
/// `value` after reserving room for them.
#[verifier::external_body]
pub(crate) fn small_vec_booln20_resize(v: &mut SmallVecBoolN20, len: usize, value: bool)
    requires
        old(v).wf(),
        len > sv_booln20_items(*old(v)).len() ==> !growth_overflows(sv_booln20_items(*old(v)).len(), sv_booln20_cap(*old(v)), (len - sv_booln20_items(*old(v)).len()) as nat, vstd::layout::size_of::<bool>()),
    ensures
        final(v).wf(),
        len <= sv_booln20_items(*old(v)).len() ==> sv_booln20_items(*final(v)) == sv_booln20_items(*old(v)).take(len as int) && sv_booln20_cap(*final(v)) == sv_booln20_cap(*old(v)),
        len > sv_booln20_items(*old(v)).len() ==> sv_booln20_items(*final(v)) == sv_booln20_items(*old(v)) + repeat(value, (len - sv_booln20_items(*old(v)).len()) as nat)
            && sv_booln20_cap(*final(v)) == grown(sv_booln20_items(*old(v)).len(), sv_booln20_cap(*old(v)), (len - sv_booln20_items(*old(v)).len()) as nat),
{
    v.inner.resize(len, value)
}

/// `clear`: no items left; the capacity stays.
#[verifier::external_body]
pub(crate) fn small_vec_booln20_clear(v: &mut SmallVecBoolN20)
    requires
        old(v).wf(),
    ensures
        final(v).wf(),
        sv_booln20_items(*final(v)) == Seq::<bool>::empty(),
        sv_booln20_cap(*final(v)) == sv_booln20_cap(*old(v)),
{
    v.inner.clear()
}

} // verus!

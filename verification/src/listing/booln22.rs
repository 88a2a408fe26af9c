//! `SmallVec<[bool; 22]>` of the outside crate, behind trusted wrappers.
//!
//! The outside type is held in a private field: Verus sees a value of it only
//! through two names, the items it holds and the capacity it records. Each
//! wrapper states, over those names, what the crate's source does.
use vstd::prelude::*;
use crate::small_vec::{dedup_seq, exact_growth_overflows, exact_grown, growth_overflows, grown, lex_order, repeat, Order};

verus! {

/// A small vector of `bool` with room for 22 items inline.
#[verifier::external_body]
pub struct SmallVecBoolN22 {
    inner: smallvec::SmallVec<[bool; 22]>,
}

/// The items a `SmallVec<[bool; 22]>` holds, in order.
pub uninterp spec fn sv_booln22_items(v: SmallVecBoolN22) -> Seq<bool>;

/// The capacity a `SmallVec<[bool; 22]>` records (22 while it is inline).
pub uninterp spec fn sv_booln22_cap(v: SmallVecBoolN22) -> nat;

impl View for SmallVecBoolN22 {
    type V = Seq<bool>;

    open spec fn view(&self) -> Seq<bool> {
        sv_booln22_items(*self)
    }
}

impl SmallVecBoolN22 {
    /// The capacity that `capacity()` reports.
    pub open spec fn cap(self) -> nat {
        sv_booln22_cap(self)
    }

    /// What every vector of this type satisfies: it holds at most its
    /// capacity, is never smaller than its inline size, and a heap buffer
    /// never exceeds `isize::MAX` bytes.
    pub open spec fn wf(self) -> bool {
        &&& self@.len() <= self.cap()
        &&& self.cap() >= 22
        &&& self.cap() * vstd::layout::size_of::<bool>() <= isize::MAX || self.cap() == 22
    }
}

/// `SmallVec::new`: empty and inline.
#[verifier::external_body]
pub(crate) fn small_vec_booln22_new() -> (r: SmallVecBoolN22)
    ensures
        r.wf(),
        sv_booln22_items(r) == Seq::<bool>::empty(),
        sv_booln22_cap(r) == 22,
{
    SmallVecBoolN22 { inner: smallvec::SmallVec::new() }
}

/// `push`: `value` appended; a full vector first grows by amortised doubling,
/// whose size computation must not overflow.
#[verifier::external_body]
pub(crate) fn small_vec_booln22_push(v: &mut SmallVecBoolN22, value: bool)
    requires
        old(v).wf(),
        !growth_overflows(sv_booln22_items(*old(v)).len(), sv_booln22_cap(*old(v)), 1, vstd::layout::size_of::<bool>()),
    ensures
        final(v).wf(),
        sv_booln22_items(*final(v)) == sv_booln22_items(*old(v)).push(value),
        sv_booln22_cap(*final(v)) == grown(sv_booln22_items(*old(v)).len(), sv_booln22_cap(*old(v)), 1),
{
    v.inner.push(value)
}

/// `truncate`: the first `len` items kept (all of them when there are fewer).
#[verifier::external_body]
pub(crate) fn small_vec_booln22_truncate(v: &mut SmallVecBoolN22, len: usize)
    requires
        old(v).wf(),
    ensures
        final(v).wf(),
        sv_booln22_items(*final(v)) == if len < sv_booln22_items(*old(v)).len() { sv_booln22_items(*old(v)).take(len as int) } else { sv_booln22_items(*old(v)) },
        sv_booln22_cap(*final(v)) == sv_booln22_cap(*old(v)),
{
    v.inner.truncate(len)
}

/// `remove`: the item at `index`, later items shifted left; it panics when
/// `index >= len`.
#[verifier::external_body]
pub(crate) fn small_vec_booln22_remove(v: &mut SmallVecBoolN22, index: usize) -> (r: bool)
    requires
        old(v).wf(),
        index < sv_booln22_items(*old(v)).len(),
    ensures
        final(v).wf(),
        r == sv_booln22_items(*old(v))[index as int],
        sv_booln22_items(*final(v)) == sv_booln22_items(*old(v)).remove(index as int),
        sv_booln22_cap(*final(v)) == sv_booln22_cap(*old(v)),
{
    v.inner.remove(index)
}

/// `len`: the number of items.
#[verifier::external_body]
pub(crate) fn small_vec_booln22_len(v: &SmallVecBoolN22) -> (r: usize)
    ensures
        r == sv_booln22_items(*v).len(),
{
    v.inner.len()
}

/// `into_vec`: the items, as a `Vec`.
#[verifier::external_body]
pub(crate) fn small_vec_booln22_into_vec(v: SmallVecBoolN22) -> (r: Vec<bool>)
    ensures
        r@ == sv_booln22_items(v),
{
    v.inner.into_vec()
}

} // verus!

//! `SmallVec<[char; 12]>` of the outside crate, behind trusted wrappers.
//!
//! The outside type is held in a private field: Verus sees a value of it only
//! through two names, the items it holds and the capacity it records. Each
//! wrapper states, over those names, what the crate's source does.
use vstd::prelude::*;
use crate::small_vec::{dedup_seq, exact_growth_overflows, exact_grown, growth_overflows, grown, lex_order, repeat, Order};

verus! {

/// A small vector of `char` with room for 12 items inline.
#[verifier::external_body]
pub struct SmallVecCharN12 {
    inner: smallvec::SmallVec<[char; 12]>,
}

/// The items a `SmallVec<[char; 12]>` holds, in order.
pub uninterp spec fn sv_charn12_items(v: SmallVecCharN12) -> Seq<char>;

/// The capacity a `SmallVec<[char; 12]>` records (12 while it is inline).
pub uninterp spec fn sv_charn12_cap(v: SmallVecCharN12) -> nat;

impl View for SmallVecCharN12 {
    type V = Seq<char>;

    open spec fn view(&self) -> Seq<char> {
        sv_charn12_items(*self)
    }
}

impl SmallVecCharN12 {
    /// The capacity that `capacity()` reports.
    pub open spec fn cap(self) -> nat {
        sv_charn12_cap(self)
    }

    /// What every vector of this type satisfies: it holds at most its
    /// capacity, is never smaller than its inline size, and a heap buffer
    /// never exceeds `isize::MAX` bytes.
    pub open spec fn wf(self) -> bool {
        &&& self@.len() <= self.cap()
        &&& self.cap() >= 12
        &&& self.cap() * vstd::layout::size_of::<char>() <= isize::MAX || self.cap() == 12
    }
}

/// `SmallVec::new`: empty and inline.
#[verifier::external_body]
pub(crate) fn small_vec_charn12_new() -> (r: SmallVecCharN12)
    ensures
        r.wf(),
        sv_charn12_items(r) == Seq::<char>::empty(),
        sv_charn12_cap(r) == 12,
{
    SmallVecCharN12 { inner: smallvec::SmallVec::new() }
}

/// `push`: `value` appended; a full vector first grows by amortised doubling,
/// whose size computation must not overflow.
#[verifier::external_body]
pub(crate) fn small_vec_charn12_push(v: &mut SmallVecCharN12, value: char)
    requires
        old(v).wf(),
        !growth_overflows(sv_charn12_items(*old(v)).len(), sv_charn12_cap(*old(v)), 1, vstd::layout::size_of::<char>()),
    ensures
        final(v).wf(),
        sv_charn12_items(*final(v)) == sv_charn12_items(*old(v)).push(value),
        sv_charn12_cap(*final(v)) == grown(sv_charn12_items(*old(v)).len(), sv_charn12_cap(*old(v)), 1),
{
    v.inner.push(value)
}

/// `into_iter`, run to its end and collected: the items, in order.
#[verifier::external_body]
pub(crate) fn small_vec_charn12_into_iter_collect(v: SmallVecCharN12) -> (r: Vec<char>)
    ensures
        r@ == sv_charn12_items(v),
{
    v.inner.into_iter().collect()
}

/// `len`: the number of items.
#[verifier::external_body]
pub(crate) fn small_vec_charn12_len(v: &SmallVecCharN12) -> (r: usize)
    ensures
        r == sv_charn12_items(*v).len(),
{
    v.inner.len()
}

/// `capacity`: the recorded capacity.
#[verifier::external_body]
pub(crate) fn small_vec_charn12_capacity(v: &SmallVecCharN12) -> (r: usize)
    ensures
        r == sv_charn12_cap(*v),
{
    v.inner.capacity()
}

} // verus!

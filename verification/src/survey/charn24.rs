//! `SmallVec<[char; 24]>` of the outside crate, behind trusted wrappers.
//!
//! The outside type is held in a private field: Verus sees a value of it only
//! through two names, the items it holds and the capacity it records. Each
//! wrapper states, over those names, what the crate's source does.
use vstd::prelude::*;
use crate::small_vec::{dedup_seq, exact_growth_overflows, exact_grown, growth_overflows, grown, lex_order, repeat, Order};

verus! {

/// A small vector of `char` with room for 24 items inline.
#[verifier::external_body]
pub struct SmallVecCharN24 {
    inner: smallvec::SmallVec<[char; 24]>,
}

/// The items a `SmallVec<[char; 24]>` holds, in order.
pub uninterp spec fn sv_charn24_items(v: SmallVecCharN24) -> Seq<char>;

/// The capacity a `SmallVec<[char; 24]>` records (24 while it is inline).
pub uninterp spec fn sv_charn24_cap(v: SmallVecCharN24) -> nat;

impl View for SmallVecCharN24 {
    type V = Seq<char>;

    open spec fn view(&self) -> Seq<char> {
        sv_charn24_items(*self)
    }
}

impl SmallVecCharN24 {
    /// The capacity that `capacity()` reports.
    pub open spec fn cap(self) -> nat {
        sv_charn24_cap(self)
    }

    /// What every vector of this type satisfies: it holds at most its
    /// capacity, is never smaller than its inline size, and a heap buffer
    /// never exceeds `isize::MAX` bytes.
    pub open spec fn wf(self) -> bool {
        &&& self@.len() <= self.cap()
        &&& self.cap() >= 24
        &&& self.cap() * vstd::layout::size_of::<char>() <= isize::MAX || self.cap() == 24
    }
}

/// `SmallVec::new`: empty and inline.
#[verifier::external_body]
pub(crate) fn small_vec_charn24_new() -> (r: SmallVecCharN24)
    ensures
        r.wf(),
        sv_charn24_items(r) == Seq::<char>::empty(),
        sv_charn24_cap(r) == 24,
{
    SmallVecCharN24 { inner: smallvec::SmallVec::new() }
}

/// `push`: `value` appended; a full vector first grows by amortised doubling,
/// whose size computation must not overflow.
#[verifier::external_body]
pub(crate) fn small_vec_charn24_push(v: &mut SmallVecCharN24, value: char)
    requires
        old(v).wf(),
        !growth_overflows(sv_charn24_items(*old(v)).len(), sv_charn24_cap(*old(v)), 1, vstd::layout::size_of::<char>()),
    ensures
        final(v).wf(),
        sv_charn24_items(*final(v)) == sv_charn24_items(*old(v)).push(value),
        sv_charn24_cap(*final(v)) == grown(sv_charn24_items(*old(v)).len(), sv_charn24_cap(*old(v)), 1),
{
    v.inner.push(value)
}

/// `len`: the number of items.
#[verifier::external_body]
pub(crate) fn small_vec_charn24_len(v: &SmallVecCharN24) -> (r: usize)
    ensures
        r == sv_charn24_items(*v).len(),
{
    v.inner.len()
}

/// `as_slice`: the items.
#[verifier::external_body]
pub(crate) fn small_vec_charn24_as_slice(v: &SmallVecCharN24) -> (r: &[char])
    ensures
        r@ == sv_charn24_items(*v),
{
    v.inner.as_slice()
}

/// `clear`: no items left; the capacity stays.
#[verifier::external_body]
pub(crate) fn small_vec_charn24_clear(v: &mut SmallVecCharN24)
    requires
        old(v).wf(),
    ensures
        final(v).wf(),
        sv_charn24_items(*final(v)) == Seq::<char>::empty(),
        sv_charn24_cap(*final(v)) == sv_charn24_cap(*old(v)),
{
    v.inner.clear()
}

} // verus!

//! `SmallVec<[char; 25]>` of the outside crate, behind trusted wrappers.
//!
//! The outside type is held in a private field: Verus sees a value of it only
//! through two names, the items it holds and the capacity it records. Each
//! wrapper states, over those names, what the crate's source does.
use vstd::prelude::*;
use crate::small_vec::{dedup_seq, exact_growth_overflows, exact_grown, growth_overflows, grown, lex_order, repeat, Order};

verus! {

/// A small vector of `char` with room for 25 items inline.
#[verifier::external_body]
pub struct SmallVecCharN25 {
    inner: smallvec::SmallVec<[char; 25]>,
}

/// The items a `SmallVec<[char; 25]>` holds, in order.
pub uninterp spec fn sv_charn25_items(v: SmallVecCharN25) -> Seq<char>;

/// The capacity a `SmallVec<[char; 25]>` records (25 while it is inline).
pub uninterp spec fn sv_charn25_cap(v: SmallVecCharN25) -> nat;

impl View for SmallVecCharN25 {
    type V = Seq<char>;

    open spec fn view(&self) -> Seq<char> {
        sv_charn25_items(*self)
    }
}

impl SmallVecCharN25 {
    /// The capacity that `capacity()` reports.
    pub open spec fn cap(self) -> nat {
        sv_charn25_cap(self)
    }

    /// What every vector of this type satisfies: it holds at most its
    /// capacity, is never smaller than its inline size, and a heap buffer
    /// never exceeds `isize::MAX` bytes.
    pub open spec fn wf(self) -> bool {
        &&& self@.len() <= self.cap()
        &&& self.cap() >= 25
        &&& self.cap() * vstd::layout::size_of::<char>() <= isize::MAX || self.cap() == 25
    }
}

/// `SmallVec::from_slice`: a copy of `slice`; inline when it has at most 25
/// items, else in a heap buffer whose capacity nothing here states.
#[verifier::external_body]
pub(crate) fn small_vec_charn25_from_slice(slice: &[char]) -> (r: SmallVecCharN25)
    ensures
        r.wf(),
        sv_charn25_items(r) == slice@,
        slice@.len() <= 25 ==> sv_charn25_cap(r) == 25,
{
    SmallVecCharN25 { inner: smallvec::SmallVec::from_slice(slice) }
}

/// `as_ptr`: the address of the buffer, as an integer (nothing is stated of
/// it).
#[verifier::external_body]
pub(crate) fn small_vec_charn25_as_ptr(v: &SmallVecCharN25) -> (r: usize)
{
    v.inner.as_ptr() as usize
}

/// `as_mut_ptr`: the address of the buffer, as an integer (nothing is stated
/// of it); the vector is left as it was.
#[verifier::external_body]
pub(crate) fn small_vec_charn25_as_mut_ptr(v: &mut SmallVecCharN25) -> (r: usize)
    ensures
        sv_charn25_items(*final(v)) == sv_charn25_items(*old(v)),
        sv_charn25_cap(*final(v)) == sv_charn25_cap(*old(v)),
{
    v.inner.as_mut_ptr() as usize
}

/// `clear`: no items left; the capacity stays.
#[verifier::external_body]
pub(crate) fn small_vec_charn25_clear(v: &mut SmallVecCharN25)
    requires
        old(v).wf(),
    ensures
        final(v).wf(),
        sv_charn25_items(*final(v)) == Seq::<char>::empty(),
        sv_charn25_cap(*final(v)) == sv_charn25_cap(*old(v)),
{
    v.inner.clear()
}

/// `is_empty`: whether there are no items.
#[verifier::external_body]
pub(crate) fn small_vec_charn25_is_empty(v: &SmallVecCharN25) -> (r: bool)
    ensures
        r == (sv_charn25_items(*v).len() == 0),
{
    v.inner.is_empty()
}

} // verus!

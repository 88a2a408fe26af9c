//! `SmallVec<[char; 15]>` of the outside crate, behind trusted wrappers.
//!
//! The outside type is held in a private field: Verus sees a value of it only
//! through two names, the items it holds and the capacity it records. Each
//! wrapper states, over those names, what the crate's source does.
use vstd::prelude::*;
use crate::small_vec::{dedup_seq, exact_growth_overflows, exact_grown, growth_overflows, grown, lex_order, repeat, Order};

verus! {

/// A small vector of `char` with room for 15 items inline.
#[verifier::external_body]
pub struct SmallVecCharN15 {
    inner: smallvec::SmallVec<[char; 15]>,
}

/// The items a `SmallVec<[char; 15]>` holds, in order.
pub uninterp spec fn sv_charn15_items(v: SmallVecCharN15) -> Seq<char>;

/// The capacity a `SmallVec<[char; 15]>` records (15 while it is inline).
pub uninterp spec fn sv_charn15_cap(v: SmallVecCharN15) -> nat;

impl View for SmallVecCharN15 {
    type V = Seq<char>;

    open spec fn view(&self) -> Seq<char> {
        sv_charn15_items(*self)
    }
}

impl SmallVecCharN15 {
    /// The capacity that `capacity()` reports.
    pub open spec fn cap(self) -> nat {
        sv_charn15_cap(self)
    }

    /// What every vector of this type satisfies: it holds at most its
    /// capacity, is never smaller than its inline size, and a heap buffer
    /// never exceeds `isize::MAX` bytes.
    pub open spec fn wf(self) -> bool {
        &&& self@.len() <= self.cap()
        &&& self.cap() >= 15
        &&& self.cap() * vstd::layout::size_of::<char>() <= isize::MAX || self.cap() == 15
    }
}

/// `SmallVec::new`: empty and inline.
#[verifier::external_body]
pub(crate) fn small_vec_charn15_new() -> (r: SmallVecCharN15)
    ensures
        r.wf(),
        sv_charn15_items(r) == Seq::<char>::empty(),
        sv_charn15_cap(r) == 15,
{
    SmallVecCharN15 { inner: smallvec::SmallVec::new() }
}

/// `len`: the number of items.
#[verifier::external_body]
pub(crate) fn small_vec_charn15_len(v: &SmallVecCharN15) -> (r: usize)
    ensures
        r == sv_charn15_items(*v).len(),
{
    v.inner.len()
}

/// `capacity`: the recorded capacity.
#[verifier::external_body]
pub(crate) fn small_vec_charn15_capacity(v: &SmallVecCharN15) -> (r: usize)
    ensures
        r == sv_charn15_cap(*v),
{
    v.inner.capacity()
}

/// `push`: `value` appended; a full vector first grows by amortised doubling,
/// whose size computation must not overflow.
#[verifier::external_body]
pub(crate) fn small_vec_charn15_push(v: &mut SmallVecCharN15, value: char)
    requires
        old(v).wf(),
        !growth_overflows(sv_charn15_items(*old(v)).len(), sv_charn15_cap(*old(v)), 1, vstd::layout::size_of::<char>()),
    ensures
        final(v).wf(),
        sv_charn15_items(*final(v)) == sv_charn15_items(*old(v)).push(value),
        sv_charn15_cap(*final(v)) == grown(sv_charn15_items(*old(v)).len(), sv_charn15_cap(*old(v)), 1),
{
    v.inner.push(value)
}

/// `insert_from_slice`: the items of `slice` placed at `index`, later items
/// shifted right, after reserving room for them; it panics when
/// `index > len`.
#[verifier::external_body]
pub(crate) fn small_vec_charn15_insert_from_slice(v: &mut SmallVecCharN15, index: usize, slice: &[char])
    requires
        old(v).wf(),
        index <= sv_charn15_items(*old(v)).len(),
        !growth_overflows(sv_charn15_items(*old(v)).len(), sv_charn15_cap(*old(v)), slice@.len(), vstd::layout::size_of::<char>()),
    ensures
        final(v).wf(),
        sv_charn15_items(*final(v)) == sv_charn15_items(*old(v)).take(index as int) + slice@ + sv_charn15_items(*old(v)).skip(index as int),
        sv_charn15_cap(*final(v)) == grown(sv_charn15_items(*old(v)).len(), sv_charn15_cap(*old(v)), slice@.len()),
{
    v.inner.insert_from_slice(index, slice)
}

/// `clear`: no items left; the capacity stays.
#[verifier::external_body]
pub(crate) fn small_vec_charn15_clear(v: &mut SmallVecCharN15)
    requires
        old(v).wf(),
    ensures
        final(v).wf(),
        sv_charn15_items(*final(v)) == Seq::<char>::empty(),
        sv_charn15_cap(*final(v)) == sv_charn15_cap(*old(v)),
{
    v.inner.clear()
}

/// `reserve`: room for `additional` more items by amortised doubling; the
/// size computation must not overflow.
#[verifier::external_body]
pub(crate) fn small_vec_charn15_reserve(v: &mut SmallVecCharN15, additional: usize)
    requires
        old(v).wf(),
        !growth_overflows(sv_charn15_items(*old(v)).len(), sv_charn15_cap(*old(v)), additional as nat, vstd::layout::size_of::<char>()),
    ensures
        final(v).wf(),
        sv_charn15_items(*final(v)) == sv_charn15_items(*old(v)),
        sv_charn15_cap(*final(v)) == grown(sv_charn15_items(*old(v)).len(), sv_charn15_cap(*old(v)), additional as nat),
{
    v.inner.reserve(additional)
}

/// `is_empty`: whether there are no items.
#[verifier::external_body]
pub(crate) fn small_vec_charn15_is_empty(v: &SmallVecCharN15) -> (r: bool)
    ensures
        r == (sv_charn15_items(*v).len() == 0),
{
    v.inner.is_empty()
}

/// `remove`: the item at `index`, later items shifted left; it panics when
/// `index >= len`.
#[verifier::external_body]
pub(crate) fn small_vec_charn15_remove(v: &mut SmallVecCharN15, index: usize) -> (r: char)
    requires
        old(v).wf(),
        index < sv_charn15_items(*old(v)).len(),
    ensures
        final(v).wf(),
        r == sv_charn15_items(*old(v))[index as int],
        sv_charn15_items(*final(v)) == sv_charn15_items(*old(v)).remove(index as int),
        sv_charn15_cap(*final(v)) == sv_charn15_cap(*old(v)),
{
    v.inner.remove(index)
}

} // verus!

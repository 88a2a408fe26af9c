//! `SmallVec<[char; 18]>` of the outside crate, behind trusted wrappers.
//!
//! The outside type is held in a private field: Verus sees a value of it only
//! through two names, the items it holds and the capacity it records. Each
//! wrapper states, over those names, what the crate's source does.
use vstd::prelude::*;
use crate::small_vec::{dedup_seq, exact_growth_overflows, exact_grown, growth_overflows, grown, lex_order, repeat, Order};

verus! {

/// A small vector of `char` with room for 18 items inline.
#[verifier::external_body]
pub struct SmallVecCharN18 {
    inner: smallvec::SmallVec<[char; 18]>,
}

/// The items a `SmallVec<[char; 18]>` holds, in order.
pub uninterp spec fn sv_charn18_items(v: SmallVecCharN18) -> Seq<char>;

/// The capacity a `SmallVec<[char; 18]>` records (18 while it is inline).
pub uninterp spec fn sv_charn18_cap(v: SmallVecCharN18) -> nat;

impl View for SmallVecCharN18 {
    type V = Seq<char>;

    open spec fn view(&self) -> Seq<char> {
        sv_charn18_items(*self)
    }
}

impl SmallVecCharN18 {
    /// The capacity that `capacity()` reports.
    pub open spec fn cap(self) -> nat {
        sv_charn18_cap(self)
    }

    /// What every vector of this type satisfies: it holds at most its
    /// capacity, is never smaller than its inline size, and a heap buffer
    /// never exceeds `isize::MAX` bytes.
    pub open spec fn wf(self) -> bool {
        &&& self@.len() <= self.cap()
        &&& self.cap() >= 18
        &&& self.cap() * vstd::layout::size_of::<char>() <= isize::MAX || self.cap() == 18
    }
}

/// `SmallVec::new`: empty and inline.
#[verifier::external_body]
pub(crate) fn small_vec_charn18_new() -> (r: SmallVecCharN18)
    ensures
        r.wf(),
        sv_charn18_items(r) == Seq::<char>::empty(),
        sv_charn18_cap(r) == 18,
{
    SmallVecCharN18 { inner: smallvec::SmallVec::new() }
}

/// `len`: the number of items.
#[verifier::external_body]
pub(crate) fn small_vec_charn18_len(v: &SmallVecCharN18) -> (r: usize)
    ensures
        r == sv_charn18_items(*v).len(),
{
    v.inner.len()
}

/// `capacity`: the recorded capacity.
#[verifier::external_body]
pub(crate) fn small_vec_charn18_capacity(v: &SmallVecCharN18) -> (r: usize)
    ensures
        r == sv_charn18_cap(*v),
{
    v.inner.capacity()
}

/// `push`: `value` appended; a full vector first grows by amortised doubling,
/// whose size computation must not overflow.
#[verifier::external_body]
pub(crate) fn small_vec_charn18_push(v: &mut SmallVecCharN18, value: char)
    requires
        old(v).wf(),
        !growth_overflows(sv_charn18_items(*old(v)).len(), sv_charn18_cap(*old(v)), 1, vstd::layout::size_of::<char>()),
    ensures
        final(v).wf(),
        sv_charn18_items(*final(v)) == sv_charn18_items(*old(v)).push(value),
        sv_charn18_cap(*final(v)) == grown(sv_charn18_items(*old(v)).len(), sv_charn18_cap(*old(v)), 1),
{
    v.inner.push(value)
}

/// `AsMut<[T]>`: the items, to be written in place.
#[verifier::external_body]
pub(crate) fn small_vec_charn18_as_mut(v: &mut SmallVecCharN18) -> (r: &mut [char])
    requires
        old(v).wf(),
    ensures
        r@ == sv_charn18_items(*old(v)),
        sv_charn18_items(*final(v)) == final(r)@,
        sv_charn18_cap(*final(v)) == sv_charn18_cap(*old(v)),
{
    std::convert::AsMut::<[char]>::as_mut(&mut v.inner)
}

/// `clear`: no items left; the capacity stays.
#[verifier::external_body]
pub(crate) fn small_vec_charn18_clear(v: &mut SmallVecCharN18)
    requires
        old(v).wf(),
    ensures
        final(v).wf(),
        sv_charn18_items(*final(v)) == Seq::<char>::empty(),
        sv_charn18_cap(*final(v)) == sv_charn18_cap(*old(v)),
{
    v.inner.clear()
}

/// `Index<usize>`: the item at `index`; it panics when `index >= len`.
#[verifier::external_body]
pub(crate) fn small_vec_charn18_index(v: &SmallVecCharN18, index: usize) -> (r: char)
    requires
        index < sv_charn18_items(*v).len(),
    ensures
        r == sv_charn18_items(*v)[index as int],
{
    v.inner[index]
}

/// `as_ptr`: the address of the buffer, as an integer (nothing is stated of
/// it).
#[verifier::external_body]
pub(crate) fn small_vec_charn18_as_ptr(v: &SmallVecCharN18) -> (r: usize)
{
    v.inner.as_ptr() as usize
}

/// `into_vec`: the items, as a `Vec`.
#[verifier::external_body]
pub(crate) fn small_vec_charn18_into_vec(v: SmallVecCharN18) -> (r: Vec<char>)
    ensures
        r@ == sv_charn18_items(v),
{
    v.inner.into_vec()
}

} // verus!

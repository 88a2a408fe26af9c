//! `SmallVec<[char; 16]>` of the outside crate, behind trusted wrappers.
//!
//! The outside type is held in a private field: Verus sees a value of it only
//! through two names, the items it holds and the capacity it records. Each
//! wrapper states, over those names, what the crate's source does.
use vstd::prelude::*;
use crate::small_vec::{dedup_seq, exact_growth_overflows, exact_grown, growth_overflows, grown, lex_order, repeat, Order};

verus! {

/// A small vector of `char` with room for 16 items inline.
#[verifier::external_body]
pub struct SmallVecCharN16 {
    inner: smallvec::SmallVec<[char; 16]>,
}

/// The items a `SmallVec<[char; 16]>` holds, in order.
pub uninterp spec fn sv_charn16_items(v: SmallVecCharN16) -> Seq<char>;

/// The capacity a `SmallVec<[char; 16]>` records (16 while it is inline).
pub uninterp spec fn sv_charn16_cap(v: SmallVecCharN16) -> nat;

impl View for SmallVecCharN16 {
    type V = Seq<char>;

    open spec fn view(&self) -> Seq<char> {
        sv_charn16_items(*self)
    }
}

impl SmallVecCharN16 {
    /// The capacity that `capacity()` reports.
    pub open spec fn cap(self) -> nat {
        sv_charn16_cap(self)
    }

    /// What every vector of this type satisfies: it holds at most its
    /// capacity, is never smaller than its inline size, and a heap buffer
    /// never exceeds `isize::MAX` bytes.
    pub open spec fn wf(self) -> bool {
        &&& self@.len() <= self.cap()
        &&& self.cap() >= 16
        &&& self.cap() * vstd::layout::size_of::<char>() <= isize::MAX || self.cap() == 16
    }
}

/// `SmallVec::new`: empty and inline.
#[verifier::external_body]
pub(crate) fn small_vec_charn16_new() -> (r: SmallVecCharN16)
    ensures
        r.wf(),
        sv_charn16_items(r) == Seq::<char>::empty(),
        sv_charn16_cap(r) == 16,
{
    SmallVecCharN16 { inner: smallvec::SmallVec::new() }
}

/// `FromIterator` over the items of `vec`: an empty vector extended by them,
/// reserving room for all of them first.
#[verifier::external_body]
pub(crate) fn small_vec_charn16_from_iter(vec: Vec<char>) -> (r: SmallVecCharN16)
    requires
        !growth_overflows(0, 16, vec@.len(), vstd::layout::size_of::<char>()),
    ensures
        r.wf(),
        sv_charn16_items(r) == vec@,
        sv_charn16_cap(r) == grown(0, 16, vec@.len()),
{
    SmallVecCharN16 { inner: <smallvec::SmallVec<[char; 16]> as std::iter::FromIterator<char>>::from_iter(vec.into_iter()) }
}

/// `From<[T; 16]>`, that is `from_buf`: all 16 items of `buf`, inline.
#[verifier::external_body]
pub(crate) fn small_vec_charn16_from_buf(buf: [char; 16]) -> (r: SmallVecCharN16)
    ensures
        r.wf(),
        sv_charn16_items(r) == buf@,
        sv_charn16_cap(r) == 16,
{
    SmallVecCharN16 { inner: std::convert::From::from(buf) }
}

/// `push`: `value` appended; a full vector first grows by amortised doubling,
/// whose size computation must not overflow.
#[verifier::external_body]
pub(crate) fn small_vec_charn16_push(v: &mut SmallVecCharN16, value: char)
    requires
        old(v).wf(),
        !growth_overflows(sv_charn16_items(*old(v)).len(), sv_charn16_cap(*old(v)), 1, vstd::layout::size_of::<char>()),
    ensures
        final(v).wf(),
        sv_charn16_items(*final(v)) == sv_charn16_items(*old(v)).push(value),
        sv_charn16_cap(*final(v)) == grown(sv_charn16_items(*old(v)).len(), sv_charn16_cap(*old(v)), 1),
{
    v.inner.push(value)
}

/// `Borrow<[T]>`: the items.
#[verifier::external_body]
pub(crate) fn small_vec_charn16_borrow(v: &SmallVecCharN16) -> (r: &[char])
    ensures
        r@ == sv_charn16_items(*v),
{
    std::borrow::Borrow::<[char]>::borrow(&v.inner)
}

/// `is_empty`: whether there are no items.
#[verifier::external_body]
pub(crate) fn small_vec_charn16_is_empty(v: &SmallVecCharN16) -> (r: bool)
    ensures
        r == (sv_charn16_items(*v).len() == 0),
{
    v.inner.is_empty()
}

/// `len`: the number of items.
#[verifier::external_body]
pub(crate) fn small_vec_charn16_len(v: &SmallVecCharN16) -> (r: usize)
    ensures
        r == sv_charn16_items(*v).len(),
{
    v.inner.len()
}

/// `Index<usize>`: the item at `index`; it panics when `index >= len`.
#[verifier::external_body]
pub(crate) fn small_vec_charn16_index(v: &SmallVecCharN16, index: usize) -> (r: char)
    requires
        index < sv_charn16_items(*v).len(),
    ensures
        r == sv_charn16_items(*v)[index as int],
{
    v.inner[index]
}

/// `into_boxed_slice`: the items, as a boxed slice.
#[verifier::external_body]
pub(crate) fn small_vec_charn16_into_boxed_slice(v: SmallVecCharN16) -> (r: Box<[char]>)
    ensures
        r@ == sv_charn16_items(v),
{
    v.inner.into_boxed_slice()
}

} // verus!

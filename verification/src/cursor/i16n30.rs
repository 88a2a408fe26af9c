//! `SmallVec<[i16; 30]>` of the outside crate, behind trusted wrappers.
//!
//! The outside type is held in a private field: Verus sees a value of it only
//! through two names, the items it holds and the capacity it records. Each
//! wrapper states, over those names, what the crate's source does.
use vstd::prelude::*;
use crate::small_vec::{dedup_seq, exact_growth_overflows, exact_grown, growth_overflows, grown, lex_order, repeat, Order};

verus! {

/// A small vector of `i16` with room for 30 items inline.
#[verifier::external_body]
pub struct SmallVecI16N30 {
    inner: smallvec::SmallVec<[i16; 30]>,
}

/// The items a `SmallVec<[i16; 30]>` holds, in order.
pub uninterp spec fn sv_i16n30_items(v: SmallVecI16N30) -> Seq<i16>;

/// The capacity a `SmallVec<[i16; 30]>` records (30 while it is inline).
pub uninterp spec fn sv_i16n30_cap(v: SmallVecI16N30) -> nat;

impl View for SmallVecI16N30 {
    type V = Seq<i16>;

    open spec fn view(&self) -> Seq<i16> {
        sv_i16n30_items(*self)
    }
}

impl SmallVecI16N30 {
    /// The capacity that `capacity()` reports.
    pub open spec fn cap(self) -> nat {
        sv_i16n30_cap(self)
    }

    /// What every vector of this type satisfies: it holds at most its
    /// capacity, is never smaller than its inline size, and a heap buffer
    /// never exceeds `isize::MAX` bytes.
    pub open spec fn wf(self) -> bool {
        &&& self@.len() <= self.cap()
        &&& self.cap() >= 30
        &&& self.cap() * vstd::layout::size_of::<i16>() <= isize::MAX || self.cap() == 30
    }
}

/// `SmallVec::from_slice`: a copy of `slice`; inline when it has at most 30
/// items, else in a heap buffer whose capacity nothing here states.
#[verifier::external_body]
pub(crate) fn small_vec_i16n30_from_slice(slice: &[i16]) -> (r: SmallVecI16N30)
    ensures
        r.wf(),
        sv_i16n30_items(r) == slice@,
        slice@.len() <= 30 ==> sv_i16n30_cap(r) == 30,
{
    SmallVecI16N30 { inner: smallvec::SmallVec::from_slice(slice) }
}

/// `reserve`: room for `additional` more items by amortised doubling; the
/// size computation must not overflow.
#[verifier::external_body]
pub(crate) fn small_vec_i16n30_reserve(v: &mut SmallVecI16N30, additional: usize)
    requires
        old(v).wf(),
        !growth_overflows(sv_i16n30_items(*old(v)).len(), sv_i16n30_cap(*old(v)), additional as nat, vstd::layout::size_of::<i16>()),
    ensures
        final(v).wf(),
        sv_i16n30_items(*final(v)) == sv_i16n30_items(*old(v)),
        sv_i16n30_cap(*final(v)) == grown(sv_i16n30_items(*old(v)).len(), sv_i16n30_cap(*old(v)), additional as nat),
{
    v.inner.reserve(additional)
}

/// `insert_from_slice`: the items of `slice` placed at `index`, later items
/// shifted right, after reserving room for them; it panics when
/// `index > len`.
#[verifier::external_body]
pub(crate) fn small_vec_i16n30_insert_from_slice(v: &mut SmallVecI16N30, index: usize, slice: &[i16])
    requires
        old(v).wf(),
        index <= sv_i16n30_items(*old(v)).len(),
        !growth_overflows(sv_i16n30_items(*old(v)).len(), sv_i16n30_cap(*old(v)), slice@.len(), vstd::layout::size_of::<i16>()),
    ensures
        final(v).wf(),
        sv_i16n30_items(*final(v)) == sv_i16n30_items(*old(v)).take(index as int) + slice@ + sv_i16n30_items(*old(v)).skip(index as int),
        sv_i16n30_cap(*final(v)) == grown(sv_i16n30_items(*old(v)).len(), sv_i16n30_cap(*old(v)), slice@.len()),
{
    v.inner.insert_from_slice(index, slice)
}

/// `Borrow<[T]>`: the items.
#[verifier::external_body]
pub(crate) fn small_vec_i16n30_borrow(v: &SmallVecI16N30) -> (r: &[i16])
    ensures
        r@ == sv_i16n30_items(*v),
{
    std::borrow::Borrow::<[i16]>::borrow(&v.inner)
}

/// `BorrowMut<[T]>`: the items, to be written in place.
#[verifier::external_body]
pub(crate) fn small_vec_i16n30_borrow_mut(v: &mut SmallVecI16N30) -> (r: &mut [i16])
    requires
        old(v).wf(),
    ensures
        r@ == sv_i16n30_items(*old(v)),
        sv_i16n30_items(*final(v)) == final(r)@,
        sv_i16n30_cap(*final(v)) == sv_i16n30_cap(*old(v)),
{
    std::borrow::BorrowMut::<[i16]>::borrow_mut(&mut v.inner)
}

/// `len`: the number of items.
#[verifier::external_body]
pub(crate) fn small_vec_i16n30_len(v: &SmallVecI16N30) -> (r: usize)
    ensures
        r == sv_i16n30_items(*v).len(),
{
    v.inner.len()
}

/// `capacity`: the recorded capacity.
#[verifier::external_body]
pub(crate) fn small_vec_i16n30_capacity(v: &SmallVecI16N30) -> (r: usize)
    ensures
        r == sv_i16n30_cap(*v),
{
    v.inner.capacity()
}

} // verus!

//! `SmallVec<[i64; 14]>` of the outside crate, behind trusted wrappers.
//!
//! The outside type is held in a private field: Verus sees a value of it only
//! through two names, the items it holds and the capacity it records. Each
//! wrapper states, over those names, what the crate's source does.
use vstd::prelude::*;
use crate::small_vec::{dedup_seq, exact_growth_overflows, exact_grown, growth_overflows, grown, lex_order, repeat, Order};

verus! {

/// A small vector of `i64` with room for 14 items inline.
#[verifier::external_body]
pub struct SmallVecI64N14 {
    inner: smallvec::SmallVec<[i64; 14]>,
}

/// The items a `SmallVec<[i64; 14]>` holds, in order.
pub uninterp spec fn sv_i64n14_items(v: SmallVecI64N14) -> Seq<i64>;

/// The capacity a `SmallVec<[i64; 14]>` records (14 while it is inline).
pub uninterp spec fn sv_i64n14_cap(v: SmallVecI64N14) -> nat;

impl View for SmallVecI64N14 {
    type V = Seq<i64>;

    open spec fn view(&self) -> Seq<i64> {
        sv_i64n14_items(*self)
    }
}

impl SmallVecI64N14 {
    /// The capacity that `capacity()` reports.
    pub open spec fn cap(self) -> nat {
        sv_i64n14_cap(self)
    }

    /// What every vector of this type satisfies: it holds at most its
    /// capacity, is never smaller than its inline size, and a heap buffer
    /// never exceeds `isize::MAX` bytes.
    pub open spec fn wf(self) -> bool {
        &&& self@.len() <= self.cap()
        &&& self.cap() >= 14
        &&& self.cap() * vstd::layout::size_of::<i64>() <= isize::MAX || self.cap() == 14
    }
}

/// `FromIterator` over the items of `vec`: an empty vector extended by them,
/// reserving room for all of them first.
#[verifier::external_body]
pub(crate) fn small_vec_i64n14_from_iter(vec: Vec<i64>) -> (r: SmallVecI64N14)
    requires
        !growth_overflows(0, 14, vec@.len(), vstd::layout::size_of::<i64>()),
    ensures
        r.wf(),
        sv_i64n14_items(r) == vec@,
        sv_i64n14_cap(r) == grown(0, 14, vec@.len()),
{
    SmallVecI64N14 { inner: <smallvec::SmallVec<[i64; 14]> as std::iter::FromIterator<i64>>::from_iter(vec.into_iter()) }
}

/// `as_slice`: the items.
#[verifier::external_body]
pub(crate) fn small_vec_i64n14_as_slice(v: &SmallVecI64N14) -> (r: &[i64])
    ensures
        r@ == sv_i64n14_items(*v),
{
    v.inner.as_slice()
}

/// `as_ptr`: the address of the buffer, as an integer (nothing is stated of
/// it).
#[verifier::external_body]
pub(crate) fn small_vec_i64n14_as_ptr(v: &SmallVecI64N14) -> (r: usize)
{
    v.inner.as_ptr() as usize
}

/// `into_boxed_slice`: the items, as a boxed slice.
#[verifier::external_body]
pub(crate) fn small_vec_i64n14_into_boxed_slice(v: SmallVecI64N14) -> (r: Box<[i64]>)
    ensures
        r@ == sv_i64n14_items(v),
{
    v.inner.into_boxed_slice()
}

} // verus!

//! `SmallVec<[usize; 12]>` of the outside crate, behind trusted wrappers.
//!
//! The outside type is held in a private field: Verus sees a value of it only
//! through two names, the items it holds and the capacity it records. Each
//! wrapper states, over those names, what the crate's source does.
use vstd::prelude::*;
use crate::small_vec::{dedup_seq, exact_growth_overflows, exact_grown, growth_overflows, grown, lex_order, repeat, Order};
use crate::numbered::usize_ints;
use crate::fixed::dedup_keyed;
use crate::script::usize_at;

verus! {

/// A small vector of `usize` with room for 12 items inline.
#[verifier::external_body]
pub struct SmallVecNumbers12 {
    inner: smallvec::SmallVec<[usize; 12]>,
}

/// The items a `SmallVec<[usize; 12]>` holds, in order.
pub uninterp spec fn sv_n12_items(v: SmallVecNumbers12) -> Seq<usize>;

/// The capacity a `SmallVec<[usize; 12]>` records (12 while it is inline).
pub uninterp spec fn sv_n12_cap(v: SmallVecNumbers12) -> nat;

impl View for SmallVecNumbers12 {
    type V = Seq<usize>;

    open spec fn view(&self) -> Seq<usize> {
        sv_n12_items(*self)
    }
}

impl SmallVecNumbers12 {
    /// The capacity that `capacity()` reports.
    pub open spec fn cap(self) -> nat {
        sv_n12_cap(self)
    }

    /// What every vector of this type satisfies: it holds at most its
    /// capacity, is never smaller than its inline size, and a heap buffer
    /// never exceeds `isize::MAX` bytes.
    pub open spec fn wf(self) -> bool {
        &&& self@.len() <= self.cap()
        &&& self.cap() >= 12
        &&& self.cap() * vstd::layout::size_of::<usize>() <= isize::MAX || self.cap() == 12
    }
}

/// `SmallVec::new`: empty and inline.
#[verifier::external_body]
pub(crate) fn small_vec_n12_new() -> (r: SmallVecNumbers12)
    ensures
        r.wf(),
        sv_n12_items(r) == Seq::<usize>::empty(),
        sv_n12_cap(r) == 12,
{
    SmallVecNumbers12 { inner: smallvec::SmallVec::new() }
}

/// `extend_from_slice`: the items of `slice` appended, after reserving room
/// for all of them.
#[verifier::external_body]
pub(crate) fn small_vec_n12_extend_from_slice(v: &mut SmallVecNumbers12, slice: &[usize])
    requires
        old(v).wf(),
        !growth_overflows(sv_n12_items(*old(v)).len(), sv_n12_cap(*old(v)), slice@.len(), vstd::layout::size_of::<usize>()),
    ensures
        final(v).wf(),
        sv_n12_items(*final(v)) == sv_n12_items(*old(v)) + slice@,
        sv_n12_cap(*final(v)) == grown(sv_n12_items(*old(v)).len(), sv_n12_cap(*old(v)), slice@.len()),
{
    v.inner.extend_from_slice(slice)
}

/// `insert_from_slice`: the items of `slice` placed at `index`, later items
/// shifted right, after reserving room for them; it panics when
/// `index > len`.
#[verifier::external_body]
pub(crate) fn small_vec_n12_insert_from_slice(v: &mut SmallVecNumbers12, index: usize, slice: &[usize])
    requires
        old(v).wf(),
        index <= sv_n12_items(*old(v)).len(),
        !growth_overflows(sv_n12_items(*old(v)).len(), sv_n12_cap(*old(v)), slice@.len(), vstd::layout::size_of::<usize>()),
    ensures
        final(v).wf(),
        sv_n12_items(*final(v)) == sv_n12_items(*old(v)).take(index as int) + slice@ + sv_n12_items(*old(v)).skip(index as int),
        sv_n12_cap(*final(v)) == grown(sv_n12_items(*old(v)).len(), sv_n12_cap(*old(v)), slice@.len()),
{
    v.inner.insert_from_slice(index, slice)
}

/// `SmallVec::from_slice`: a copy of `slice`; inline when it has at most 12
/// items, else in a heap buffer whose capacity nothing here states.
#[verifier::external_body]
pub(crate) fn small_vec_n12_from_slice(slice: &[usize]) -> (r: SmallVecNumbers12)
    ensures
        r.wf(),
        sv_n12_items(r) == slice@,
        slice@.len() <= 12 ==> sv_n12_cap(r) == 12,
{
    SmallVecNumbers12 { inner: smallvec::SmallVec::from_slice(slice) }
}

/// `as_slice`: the items.
#[verifier::external_body]
pub(crate) fn small_vec_n12_as_slice(v: &SmallVecNumbers12) -> (r: &[usize])
    ensures
        r@ == sv_n12_items(*v),
{
    v.inner.as_slice()
}

/// `Extend` by the items of `vec`: room reserved for all of them first, then
/// each appended in order.
#[verifier::external_body]
pub(crate) fn small_vec_n12_extend(v: &mut SmallVecNumbers12, vec: Vec<usize>)
    requires
        old(v).wf(),
        !growth_overflows(sv_n12_items(*old(v)).len(), sv_n12_cap(*old(v)), vec@.len(), vstd::layout::size_of::<usize>()),
    ensures
        final(v).wf(),
        sv_n12_items(*final(v)) == sv_n12_items(*old(v)) + vec@,
        sv_n12_cap(*final(v)) == grown(sv_n12_items(*old(v)).len(), sv_n12_cap(*old(v)), vec@.len()),
{
    std::iter::Extend::extend(&mut v.inner, vec)
}

/// `insert_many` with the items of `vec`: placed at `index`, later items
/// shifted right, after reserving room for all of them; it panics when
/// `index > len`.
#[verifier::external_body]
pub(crate) fn small_vec_n12_insert_many(v: &mut SmallVecNumbers12, index: usize, vec: Vec<usize>)
    requires
        old(v).wf(),
        index <= sv_n12_items(*old(v)).len(),
        !growth_overflows(sv_n12_items(*old(v)).len(), sv_n12_cap(*old(v)), vec@.len(), vstd::layout::size_of::<usize>()),
    ensures
        final(v).wf(),
        sv_n12_items(*final(v)) == sv_n12_items(*old(v)).take(index as int) + vec@ + sv_n12_items(*old(v)).skip(index as int),
        sv_n12_cap(*final(v)) == grown(sv_n12_items(*old(v)).len(), sv_n12_cap(*old(v)), vec@.len()),
{
    v.inner.insert_many(index, vec)
}

/// `len`: the number of items.
#[verifier::external_body]
pub(crate) fn small_vec_n12_len(v: &SmallVecNumbers12) -> (r: usize)
    ensures
        r == sv_n12_items(*v).len(),
{
    v.inner.len()
}

} // verus!

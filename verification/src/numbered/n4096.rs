//! `SmallVec<[usize; 4096]>` of the outside crate, behind trusted wrappers:
//! a vector of number-carrying elements, held as their numbers.
//!
//! The outside type is held in a private field: Verus sees a value of it only
//! through two names, the items it holds and the capacity it records. Each
//! wrapper states, over those names, what the crate's source does.
use vstd::prelude::*;
use crate::small_vec::{dedup_seq, exact_growth_overflows, exact_grown, growth_overflows, grown, lex_order, repeat, Order};
use crate::script::usize_at;
use crate::numbered::{is_even_usize, same_usize, usize_ints};

verus! {

/// A small vector of `usize` with room for 4096 items inline.
#[verifier::external_body]
pub struct SmallVecNumbers4096 {
    inner: smallvec::SmallVec<[usize; 4096]>,
}

/// The items a `SmallVec<[usize; 4096]>` holds, in order.
pub uninterp spec fn sv_n4096_items(v: SmallVecNumbers4096) -> Seq<usize>;

/// The capacity a `SmallVec<[usize; 4096]>` records (4096 while it is inline).
pub uninterp spec fn sv_n4096_cap(v: SmallVecNumbers4096) -> nat;

impl View for SmallVecNumbers4096 {
    type V = Seq<usize>;

    open spec fn view(&self) -> Seq<usize> {
        sv_n4096_items(*self)
    }
}

impl SmallVecNumbers4096 {
    /// The capacity that `capacity()` reports.
    pub open spec fn cap(self) -> nat {
        sv_n4096_cap(self)
    }

    /// What every vector of this type satisfies: it holds at most its
    /// capacity, is never smaller than its inline size, and a heap buffer
    /// never exceeds `isize::MAX` bytes.
    pub open spec fn wf(self) -> bool {
        &&& self@.len() <= self.cap()
        &&& self.cap() >= 4096
        &&& self.cap() * vstd::layout::size_of::<usize>() <= isize::MAX || self.cap() == 4096
    }
}

/// `SmallVec::new`: empty and inline.
#[verifier::external_body]
pub(crate) fn small_vec_n4096_new() -> (r: SmallVecNumbers4096)
    ensures
        r.wf(),
        sv_n4096_items(r) == Seq::<usize>::empty(),
        sv_n4096_cap(r) == 4096,
{
    SmallVecNumbers4096 { inner: smallvec::SmallVec::new() }
}

/// `push`: `value` appended; a full vector first grows by amortised doubling,
/// whose size computation must not overflow.
#[verifier::external_body]
pub(crate) fn small_vec_n4096_push(v: &mut SmallVecNumbers4096, value: usize)
    requires
        old(v).wf(),
        !growth_overflows(sv_n4096_items(*old(v)).len(), sv_n4096_cap(*old(v)), 1, vstd::layout::size_of::<usize>()),
    ensures
        final(v).wf(),
        sv_n4096_items(*final(v)) == sv_n4096_items(*old(v)).push(value),
        sv_n4096_cap(*final(v)) == grown(sv_n4096_items(*old(v)).len(), sv_n4096_cap(*old(v)), 1),
{
    v.inner.push(value)
}

/// `extend_from_slice`: the items of `slice` appended, after reserving room
/// for all of them.
#[verifier::external_body]
pub(crate) fn small_vec_n4096_extend_from_slice(v: &mut SmallVecNumbers4096, slice: &[usize])
    requires
        old(v).wf(),
        !growth_overflows(sv_n4096_items(*old(v)).len(), sv_n4096_cap(*old(v)), slice@.len(), vstd::layout::size_of::<usize>()),
    ensures
        final(v).wf(),
        sv_n4096_items(*final(v)) == sv_n4096_items(*old(v)) + slice@,
        sv_n4096_cap(*final(v)) == grown(sv_n4096_items(*old(v)).len(), sv_n4096_cap(*old(v)), slice@.len()),
{
    v.inner.extend_from_slice(slice)
}

/// `len`: the number of items.
#[verifier::external_body]
pub(crate) fn small_vec_n4096_len(v: &SmallVecNumbers4096) -> (r: usize)
    ensures
        r == sv_n4096_items(*v).len(),
{
    v.inner.len()
}

/// `capacity`: the recorded capacity.
#[verifier::external_body]
pub(crate) fn small_vec_n4096_capacity(v: &SmallVecNumbers4096) -> (r: usize)
    ensures
        r == sv_n4096_cap(*v),
{
    v.inner.capacity()
}

/// `is_empty`: whether there are no items.
#[verifier::external_body]
pub(crate) fn small_vec_n4096_is_empty(v: &SmallVecNumbers4096) -> (r: bool)
    ensures
        r == (sv_n4096_items(*v).len() == 0),
{
    v.inner.is_empty()
}

/// `IndexMut<usize>`: the item at `index`, read through a mutable reference;
/// it panics when `index >= len`.
#[verifier::external_body]
pub(crate) fn small_vec_n4096_index_mut(v: &mut SmallVecNumbers4096, index: usize) -> (r: usize)
    requires
        old(v).wf(),
        index < sv_n4096_items(*old(v)).len(),
    ensures
        r == sv_n4096_items(*old(v))[index as int],
        sv_n4096_items(*final(v)) == sv_n4096_items(*old(v)),
        sv_n4096_cap(*final(v)) == sv_n4096_cap(*old(v)),
{
    *std::ops::IndexMut::index_mut(&mut v.inner, index)
}

} // verus!

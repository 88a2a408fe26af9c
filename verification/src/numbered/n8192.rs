//! `SmallVec<[usize; 8192]>` of the outside crate, behind trusted wrappers:
//! a vector of number-carrying elements, held as their numbers.
//!
//! The outside type is held in a private field: Verus sees a value of it only
//! through two names, the items it holds and the capacity it records. Each
//! wrapper states, over those names, what the crate's source does.
use vstd::prelude::*;
use crate::small_vec::{dedup_seq, exact_growth_overflows, exact_grown, growth_overflows, grown, lex_order, repeat, Order};
use crate::script::usize_at;
use crate::numbered::{is_even_usize, same_usize, usize_ints};

verus! {

/// A small vector of `usize` with room for 8192 items inline.
#[verifier::external_body]
pub struct SmallVecNumbers8192 {
    inner: smallvec::SmallVec<[usize; 8192]>,
}

/// The items a `SmallVec<[usize; 8192]>` holds, in order.
pub uninterp spec fn sv_n8192_items(v: SmallVecNumbers8192) -> Seq<usize>;

/// The capacity a `SmallVec<[usize; 8192]>` records (8192 while it is inline).
pub uninterp spec fn sv_n8192_cap(v: SmallVecNumbers8192) -> nat;

impl View for SmallVecNumbers8192 {
    type V = Seq<usize>;

    open spec fn view(&self) -> Seq<usize> {
        sv_n8192_items(*self)
    }
}

impl SmallVecNumbers8192 {
    /// The capacity that `capacity()` reports.
    pub open spec fn cap(self) -> nat {
        sv_n8192_cap(self)
    }

    /// What every vector of this type satisfies: it holds at most its
    /// capacity, is never smaller than its inline size, and a heap buffer
    /// never exceeds `isize::MAX` bytes.
    pub open spec fn wf(self) -> bool {
        &&& self@.len() <= self.cap()
        &&& self.cap() >= 8192
        &&& self.cap() * vstd::layout::size_of::<usize>() <= isize::MAX || self.cap() == 8192
    }
}

/// `SmallVec::with_capacity`: empty, with room for `n` items (inline when
/// `n <= 8192`); the size computation must not overflow.
#[verifier::external_body]
pub(crate) fn small_vec_n8192_with_capacity(n: usize) -> (r: SmallVecNumbers8192)
    requires
        !exact_growth_overflows(0, 8192, n as nat, vstd::layout::size_of::<usize>()),
    ensures
        r.wf(),
        sv_n8192_items(r) == Seq::<usize>::empty(),
        sv_n8192_cap(r) == if n <= 8192 { 8192 } else { n as nat },
{
    SmallVecNumbers8192 { inner: smallvec::SmallVec::with_capacity(n) }
}

/// `push`: `value` appended; a full vector first grows by amortised doubling,
/// whose size computation must not overflow.
#[verifier::external_body]
pub(crate) fn small_vec_n8192_push(v: &mut SmallVecNumbers8192, value: usize)
    requires
        old(v).wf(),
        !growth_overflows(sv_n8192_items(*old(v)).len(), sv_n8192_cap(*old(v)), 1, vstd::layout::size_of::<usize>()),
    ensures
        final(v).wf(),
        sv_n8192_items(*final(v)) == sv_n8192_items(*old(v)).push(value),
        sv_n8192_cap(*final(v)) == grown(sv_n8192_items(*old(v)).len(), sv_n8192_cap(*old(v)), 1),
{
    v.inner.push(value)
}

/// `reserve_exact`: room for exactly `additional` more items when there is
/// not enough; the size computation must not overflow.
#[verifier::external_body]
pub(crate) fn small_vec_n8192_reserve_exact(v: &mut SmallVecNumbers8192, additional: usize)
    requires
        old(v).wf(),
        !exact_growth_overflows(sv_n8192_items(*old(v)).len(), sv_n8192_cap(*old(v)), additional as nat, vstd::layout::size_of::<usize>()),
    ensures
        final(v).wf(),
        sv_n8192_items(*final(v)) == sv_n8192_items(*old(v)),
        sv_n8192_cap(*final(v)) == exact_grown(sv_n8192_items(*old(v)).len(), sv_n8192_cap(*old(v)), additional as nat),
{
    v.inner.reserve_exact(additional)
}

/// `pop`: the last item, removed, or `None` when empty; the capacity stays.
#[verifier::external_body]
pub(crate) fn small_vec_n8192_pop(v: &mut SmallVecNumbers8192) -> (r: Option<usize>)
    requires
        old(v).wf(),
    ensures
        final(v).wf(),
        sv_n8192_cap(*final(v)) == sv_n8192_cap(*old(v)),
        sv_n8192_items(*old(v)).len() == 0 ==> r is None && sv_n8192_items(*final(v)) == sv_n8192_items(*old(v)),
        sv_n8192_items(*old(v)).len() > 0 ==> r == Some(sv_n8192_items(*old(v)).last()) && sv_n8192_items(*final(v)) == sv_n8192_items(*old(v)).drop_last(),
{
    v.inner.pop()
}

/// `len`: the number of items.
#[verifier::external_body]
pub(crate) fn small_vec_n8192_len(v: &SmallVecNumbers8192) -> (r: usize)
    ensures
        r == sv_n8192_items(*v).len(),
{
    v.inner.len()
}

/// `capacity`: the recorded capacity.
#[verifier::external_body]
pub(crate) fn small_vec_n8192_capacity(v: &SmallVecNumbers8192) -> (r: usize)
    ensures
        r == sv_n8192_cap(*v),
{
    v.inner.capacity()
}

/// `is_empty`: whether there are no items.
#[verifier::external_body]
pub(crate) fn small_vec_n8192_is_empty(v: &SmallVecNumbers8192) -> (r: bool)
    ensures
        r == (sv_n8192_items(*v).len() == 0),
{
    v.inner.is_empty()
}

/// `IndexMut<usize>`: the item at `index`, read through a mutable reference;
/// it panics when `index >= len`.
#[verifier::external_body]
pub(crate) fn small_vec_n8192_index_mut(v: &mut SmallVecNumbers8192, index: usize) -> (r: usize)
    requires
        old(v).wf(),
        index < sv_n8192_items(*old(v)).len(),
    ensures
        r == sv_n8192_items(*old(v))[index as int],
        sv_n8192_items(*final(v)) == sv_n8192_items(*old(v)),
        sv_n8192_cap(*final(v)) == sv_n8192_cap(*old(v)),
{
    *std::ops::IndexMut::index_mut(&mut v.inner, index)
}

} // verus!

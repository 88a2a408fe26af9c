//! `SmallVec<[isize; 19]>` of the outside crate, behind trusted wrappers.
//!
//! The outside type is held in a private field: Verus sees a value of it only
//! through two names, the items it holds and the capacity it records. Each
//! wrapper states, over those names, what the crate's source does.
use vstd::prelude::*;
use crate::small_vec::{dedup_seq, exact_growth_overflows, exact_grown, growth_overflows, grown, lex_order, repeat, Order};

verus! {

/// A small vector of `isize` with room for 19 items inline.
#[verifier::external_body]
pub struct SmallVecIsizeN19 {
    inner: smallvec::SmallVec<[isize; 19]>,
}

/// The items a `SmallVec<[isize; 19]>` holds, in order.
pub uninterp spec fn sv_isizen19_items(v: SmallVecIsizeN19) -> Seq<isize>;

/// The capacity a `SmallVec<[isize; 19]>` records (19 while it is inline).
pub uninterp spec fn sv_isizen19_cap(v: SmallVecIsizeN19) -> nat;

impl View for SmallVecIsizeN19 {
    type V = Seq<isize>;

    open spec fn view(&self) -> Seq<isize> {
        sv_isizen19_items(*self)
    }
}

impl SmallVecIsizeN19 {
    /// The capacity that `capacity()` reports.
    pub open spec fn cap(self) -> nat {
        sv_isizen19_cap(self)
    }

    /// What every vector of this type satisfies: it holds at most its
    /// capacity, is never smaller than its inline size, and a heap buffer
    /// never exceeds `isize::MAX` bytes.
    pub open spec fn wf(self) -> bool {
        &&& self@.len() <= self.cap()
        &&& self.cap() >= 19
        &&& self.cap() * vstd::layout::size_of::<isize>() <= isize::MAX || self.cap() == 19
    }
}

/// `SmallVec::new`: empty and inline.
#[verifier::external_body]
pub(crate) fn small_vec_isizen19_new() -> (r: SmallVecIsizeN19)
    ensures
        r.wf(),
        sv_isizen19_items(r) == Seq::<isize>::empty(),
        sv_isizen19_cap(r) == 19,
{
    SmallVecIsizeN19 { inner: smallvec::SmallVec::new() }
}

/// `push`: `value` appended; a full vector first grows by amortised doubling,
/// whose size computation must not overflow.
#[verifier::external_body]
pub(crate) fn small_vec_isizen19_push(v: &mut SmallVecIsizeN19, value: isize)
    requires
        old(v).wf(),
        !growth_overflows(sv_isizen19_items(*old(v)).len(), sv_isizen19_cap(*old(v)), 1, vstd::layout::size_of::<isize>()),
    ensures
        final(v).wf(),
        sv_isizen19_items(*final(v)) == sv_isizen19_items(*old(v)).push(value),
        sv_isizen19_cap(*final(v)) == grown(sv_isizen19_items(*old(v)).len(), sv_isizen19_cap(*old(v)), 1),
{
    v.inner.push(value)
}

/// `grow`: the capacity set to `new_cap`, or back to inline when
/// `new_cap <= 19`; it panics when `new_cap < len` or when the size
/// computation overflows.
#[verifier::external_body]
pub(crate) fn small_vec_isizen19_grow(v: &mut SmallVecIsizeN19, new_cap: usize)
    requires
        old(v).wf(),
        new_cap >= sv_isizen19_items(*old(v)).len(),
        new_cap <= 19 || new_cap * vstd::layout::size_of::<isize>() <= isize::MAX,
    ensures
        final(v).wf(),
        sv_isizen19_items(*final(v)) == sv_isizen19_items(*old(v)),
        sv_isizen19_cap(*final(v)) == if new_cap <= 19 { 19 } else { new_cap as nat },
{
    v.inner.grow(new_cap)
}

/// `len`: the number of items.
#[verifier::external_body]
pub(crate) fn small_vec_isizen19_len(v: &SmallVecIsizeN19) -> (r: usize)
    ensures
        r == sv_isizen19_items(*v).len(),
{
    v.inner.len()
}

/// `into_iter`, run to its end and collected: the items, in order.
#[verifier::external_body]
pub(crate) fn small_vec_isizen19_into_iter_collect(v: SmallVecIsizeN19) -> (r: Vec<isize>)
    ensures
        r@ == sv_isizen19_items(v),
{
    v.inner.into_iter().collect()
}

} // verus!

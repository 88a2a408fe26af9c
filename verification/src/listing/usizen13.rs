//! `SmallVec<[usize; 13]>` of the outside crate, behind trusted wrappers.
//!
//! The outside type is held in a private field: Verus sees a value of it only
//! through two names, the items it holds and the capacity it records. Each
//! wrapper states, over those names, what the crate's source does.
use vstd::prelude::*;
use crate::small_vec::{dedup_seq, exact_growth_overflows, exact_grown, growth_overflows, grown, lex_order, repeat, Order};

verus! {

/// A small vector of `usize` with room for 13 items inline.
#[verifier::external_body]
pub struct SmallVecUsizeN13 {
    inner: smallvec::SmallVec<[usize; 13]>,
}

/// The items a `SmallVec<[usize; 13]>` holds, in order.
pub uninterp spec fn sv_usizen13_items(v: SmallVecUsizeN13) -> Seq<usize>;

/// The capacity a `SmallVec<[usize; 13]>` records (13 while it is inline).
pub uninterp spec fn sv_usizen13_cap(v: SmallVecUsizeN13) -> nat;

impl View for SmallVecUsizeN13 {
    type V = Seq<usize>;

    open spec fn view(&self) -> Seq<usize> {
        sv_usizen13_items(*self)
    }
}

impl SmallVecUsizeN13 {
    /// The capacity that `capacity()` reports.
    pub open spec fn cap(self) -> nat {
        sv_usizen13_cap(self)
    }

    /// What every vector of this type satisfies: it holds at most its
    /// capacity, is never smaller than its inline size, and a heap buffer
    /// never exceeds `isize::MAX` bytes.
    pub open spec fn wf(self) -> bool {
        &&& self@.len() <= self.cap()
        &&& self.cap() >= 13
        &&& self.cap() * vstd::layout::size_of::<usize>() <= isize::MAX || self.cap() == 13
    }
}

/// `SmallVec::new`: empty and inline.
#[verifier::external_body]
pub(crate) fn small_vec_usizen13_new() -> (r: SmallVecUsizeN13)
    ensures
        r.wf(),
        sv_usizen13_items(r) == Seq::<usize>::empty(),
        sv_usizen13_cap(r) == 13,
{
    SmallVecUsizeN13 { inner: smallvec::SmallVec::new() }
}

/// `push`: `value` appended; a full vector first grows by amortised doubling,
/// whose size computation must not overflow.
#[verifier::external_body]
pub(crate) fn small_vec_usizen13_push(v: &mut SmallVecUsizeN13, value: usize)
    requires
        old(v).wf(),
        !growth_overflows(sv_usizen13_items(*old(v)).len(), sv_usizen13_cap(*old(v)), 1, vstd::layout::size_of::<usize>()),
    ensures
        final(v).wf(),
        sv_usizen13_items(*final(v)) == sv_usizen13_items(*old(v)).push(value),
        sv_usizen13_cap(*final(v)) == grown(sv_usizen13_items(*old(v)).len(), sv_usizen13_cap(*old(v)), 1),
{
    v.inner.push(value)
}

/// `extend_from_slice`: the items of `slice` appended, after reserving room
/// for all of them.
#[verifier::external_body]
pub(crate) fn small_vec_usizen13_extend_from_slice(v: &mut SmallVecUsizeN13, slice: &[usize])
    requires
        old(v).wf(),
        !growth_overflows(sv_usizen13_items(*old(v)).len(), sv_usizen13_cap(*old(v)), slice@.len(), vstd::layout::size_of::<usize>()),
    ensures
        final(v).wf(),
        sv_usizen13_items(*final(v)) == sv_usizen13_items(*old(v)) + slice@,
        sv_usizen13_cap(*final(v)) == grown(sv_usizen13_items(*old(v)).len(), sv_usizen13_cap(*old(v)), slice@.len()),
{
    v.inner.extend_from_slice(slice)
}

/// `pop`: the last item, removed, or `None` when empty; the capacity stays.
#[verifier::external_body]
pub(crate) fn small_vec_usizen13_pop(v: &mut SmallVecUsizeN13) -> (r: Option<usize>)
    requires
        old(v).wf(),
    ensures
        final(v).wf(),
        sv_usizen13_cap(*final(v)) == sv_usizen13_cap(*old(v)),
        sv_usizen13_items(*old(v)).len() == 0 ==> r is None && sv_usizen13_items(*final(v)) == sv_usizen13_items(*old(v)),
        sv_usizen13_items(*old(v)).len() > 0 ==> r == Some(sv_usizen13_items(*old(v)).last()) && sv_usizen13_items(*final(v)) == sv_usizen13_items(*old(v)).drop_last(),
{
    v.inner.pop()
}

/// `into_vec`: the items, as a `Vec`.
#[verifier::external_body]
pub(crate) fn small_vec_usizen13_into_vec(v: SmallVecUsizeN13) -> (r: Vec<usize>)
    ensures
        r@ == sv_usizen13_items(v),
{
    v.inner.into_vec()
}

} // verus!

//! `SmallVec<[i32; 20]>` of the outside crate, behind trusted wrappers.
//!
//! The outside type is held in a private field: Verus sees a value of it only
//! through two names, the items it holds and the capacity it records. Each
//! wrapper states, over those names, what the crate's source does.
use vstd::prelude::*;
use crate::small_vec::{dedup_seq, exact_growth_overflows, exact_grown, growth_overflows, grown, lex_order, repeat, Order};

verus! {

/// A small vector of `i32` with room for 20 items inline.
#[verifier::external_body]
pub struct SmallVecI32N20 {
    inner: smallvec::SmallVec<[i32; 20]>,
}

/// The items a `SmallVec<[i32; 20]>` holds, in order.
pub uninterp spec fn sv_i32n20_items(v: SmallVecI32N20) -> Seq<i32>;

/// The capacity a `SmallVec<[i32; 20]>` records (20 while it is inline).
pub uninterp spec fn sv_i32n20_cap(v: SmallVecI32N20) -> nat;

impl View for SmallVecI32N20 {
    type V = Seq<i32>;

    open spec fn view(&self) -> Seq<i32> {
        sv_i32n20_items(*self)
    }
}

impl SmallVecI32N20 {
    /// The capacity that `capacity()` reports.
    pub open spec fn cap(self) -> nat {
        sv_i32n20_cap(self)
    }

    /// What every vector of this type satisfies: it holds at most its
    /// capacity, is never smaller than its inline size, and a heap buffer
    /// never exceeds `isize::MAX` bytes.
    pub open spec fn wf(self) -> bool {
        &&& self@.len() <= self.cap()
        &&& self.cap() >= 20
        &&& self.cap() * vstd::layout::size_of::<i32>() <= isize::MAX || self.cap() == 20
    }
}

/// `SmallVec::with_capacity`: empty, with room for `n` items (inline when
/// `n <= 20`); the size computation must not overflow.
#[verifier::external_body]
pub(crate) fn small_vec_i32n20_with_capacity(n: usize) -> (r: SmallVecI32N20)
    requires
        !exact_growth_overflows(0, 20, n as nat, vstd::layout::size_of::<i32>()),
    ensures
        r.wf(),
        sv_i32n20_items(r) == Seq::<i32>::empty(),
        sv_i32n20_cap(r) == if n <= 20 { 20 } else { n as nat },
{
    SmallVecI32N20 { inner: smallvec::SmallVec::with_capacity(n) }
}

/// `push`: `value` appended; a full vector first grows by amortised doubling,
/// whose size computation must not overflow.
#[verifier::external_body]
pub(crate) fn small_vec_i32n20_push(v: &mut SmallVecI32N20, value: i32)
    requires
        old(v).wf(),
        !growth_overflows(sv_i32n20_items(*old(v)).len(), sv_i32n20_cap(*old(v)), 1, vstd::layout::size_of::<i32>()),
    ensures
        final(v).wf(),
        sv_i32n20_items(*final(v)) == sv_i32n20_items(*old(v)).push(value),
        sv_i32n20_cap(*final(v)) == grown(sv_i32n20_items(*old(v)).len(), sv_i32n20_cap(*old(v)), 1),
{
    v.inner.push(value)
}

/// `len`: the number of items.
#[verifier::external_body]
pub(crate) fn small_vec_i32n20_len(v: &SmallVecI32N20) -> (r: usize)
    ensures
        r == sv_i32n20_items(*v).len(),
{
    v.inner.len()
}

/// `capacity`: the recorded capacity.
#[verifier::external_body]
pub(crate) fn small_vec_i32n20_capacity(v: &SmallVecI32N20) -> (r: usize)
    ensures
        r == sv_i32n20_cap(*v),
{
    v.inner.capacity()
}

/// `is_empty`: whether there are no items.
#[verifier::external_body]
pub(crate) fn small_vec_i32n20_is_empty(v: &SmallVecI32N20) -> (r: bool)
    ensures
        r == (sv_i32n20_items(*v).len() == 0),
{
    v.inner.is_empty()
}

/// `as_slice`: the items.
#[verifier::external_body]
pub(crate) fn small_vec_i32n20_as_slice(v: &SmallVecI32N20) -> (r: &[i32])
    ensures
        r@ == sv_i32n20_items(*v),
{
    v.inner.as_slice()
}

/// `reserve`: room for `additional` more items by amortised doubling; the
/// size computation must not overflow.
#[verifier::external_body]
pub(crate) fn small_vec_i32n20_reserve(v: &mut SmallVecI32N20, additional: usize)
    requires
        old(v).wf(),
        !growth_overflows(sv_i32n20_items(*old(v)).len(), sv_i32n20_cap(*old(v)), additional as nat, vstd::layout::size_of::<i32>()),
    ensures
        final(v).wf(),
        sv_i32n20_items(*final(v)) == sv_i32n20_items(*old(v)),
        sv_i32n20_cap(*final(v)) == grown(sv_i32n20_items(*old(v)).len(), sv_i32n20_cap(*old(v)), additional as nat),
{
    v.inner.reserve(additional)
}

/// `shrink_to_fit`: a heap vector moves back inline when its items fit there,
/// else its buffer shrinks to its length.
#[verifier::external_body]
pub(crate) fn small_vec_i32n20_shrink_to_fit(v: &mut SmallVecI32N20)
    requires
        old(v).wf(),
    ensures
        final(v).wf(),
        sv_i32n20_items(*final(v)) == sv_i32n20_items(*old(v)),
        sv_i32n20_cap(*final(v)) == if sv_i32n20_cap(*old(v)) == 20 || sv_i32n20_items(*old(v)).len() <= 20 { 20 } else { sv_i32n20_items(*old(v)).len() },
{
    v.inner.shrink_to_fit()
}

/// `SmallVec::from_elem`: `n` copies of `elem`; inline when `n <= 20`, else
/// through `vec![elem; n]`, whose size computation must not overflow.
#[verifier::external_body]
pub(crate) fn small_vec_i32n20_from_elem(elem: i32, n: usize) -> (r: SmallVecI32N20)
    requires
        n <= 20 || n * vstd::layout::size_of::<i32>() <= isize::MAX,
    ensures
        r.wf(),
        sv_i32n20_items(r) == repeat(elem, n as nat),
        n <= 20 ==> sv_i32n20_cap(r) == 20,
{
    SmallVecI32N20 { inner: smallvec::SmallVec::from_elem(elem, n) }
}

/// `resize`: truncated to `len`, or extended to `len` with copies of
/// `value` after reserving room for them.
#[verifier::external_body]
pub(crate) fn small_vec_i32n20_resize(v: &mut SmallVecI32N20, len: usize, value: i32)
    requires
        old(v).wf(),
        len > sv_i32n20_items(*old(v)).len() ==> !growth_overflows(sv_i32n20_items(*old(v)).len(), sv_i32n20_cap(*old(v)), (len - sv_i32n20_items(*old(v)).len()) as nat, vstd::layout::size_of::<i32>()),
    ensures
        final(v).wf(),
        len <= sv_i32n20_items(*old(v)).len() ==> sv_i32n20_items(*final(v)) == sv_i32n20_items(*old(v)).take(len as int) && sv_i32n20_cap(*final(v)) == sv_i32n20_cap(*old(v)),
        len > sv_i32n20_items(*old(v)).len() ==> sv_i32n20_items(*final(v)) == sv_i32n20_items(*old(v)) + repeat(value, (len - sv_i32n20_items(*old(v)).len()) as nat)
            && sv_i32n20_cap(*final(v)) == grown(sv_i32n20_items(*old(v)).len(), sv_i32n20_cap(*old(v)), (len - sv_i32n20_items(*old(v)).len()) as nat),
{
    v.inner.resize(len, value)
}

/// `drain` of `start..end`, run to its end: the removed items, in order; the
/// items after the range close the gap. It panics unless
/// `start <= end <= len`.
#[verifier::external_body]
pub(crate) fn small_vec_i32n20_drain(v: &mut SmallVecI32N20, start: usize, end: usize) -> (r: Vec<i32>)
    requires
        old(v).wf(),
        start <= end <= sv_i32n20_items(*old(v)).len(),
    ensures
        final(v).wf(),
        r@ == sv_i32n20_items(*old(v)).subrange(start as int, end as int),
        sv_i32n20_items(*final(v)) == sv_i32n20_items(*old(v)).take(start as int) + sv_i32n20_items(*old(v)).skip(end as int),
        sv_i32n20_cap(*final(v)) == sv_i32n20_cap(*old(v)),
{
    v.inner.drain(start..end).collect()
}

} // verus!

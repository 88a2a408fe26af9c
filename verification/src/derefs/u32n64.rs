//! `SmallVec<[u32; 64]>` of the outside crate, behind trusted wrappers.
//!
//! The outside type is held in a private field: Verus sees a value of it only
//! through two names, the items it holds and the capacity it records. Each
//! wrapper states, over those names, what the crate's source does.
use vstd::prelude::*;
use crate::small_vec::{dedup_seq, exact_growth_overflows, exact_grown, growth_overflows, grown, lex_order, repeat, Order};

verus! {

/// A small vector of `u32` with room for 64 items inline.
#[verifier::external_body]
pub struct SmallVecU32N64 {
    inner: smallvec::SmallVec<[u32; 64]>,
}

/// The items a `SmallVec<[u32; 64]>` holds, in order.
pub uninterp spec fn sv_u32n64_items(v: SmallVecU32N64) -> Seq<u32>;

/// The capacity a `SmallVec<[u32; 64]>` records (64 while it is inline).
pub uninterp spec fn sv_u32n64_cap(v: SmallVecU32N64) -> nat;

impl View for SmallVecU32N64 {
    type V = Seq<u32>;

    open spec fn view(&self) -> Seq<u32> {
        sv_u32n64_items(*self)
    }
}

impl SmallVecU32N64 {
    /// The capacity that `capacity()` reports.
    pub open spec fn cap(self) -> nat {
        sv_u32n64_cap(self)
    }

    /// What every vector of this type satisfies: it holds at most its
    /// capacity, is never smaller than its inline size, and a heap buffer
    /// never exceeds `isize::MAX` bytes.
    pub open spec fn wf(self) -> bool {
        &&& self@.len() <= self.cap()
        &&& self.cap() >= 64
        &&& self.cap() * vstd::layout::size_of::<u32>() <= isize::MAX || self.cap() == 64
    }
}

/// `SmallVec::new`: empty and inline.
#[verifier::external_body]
pub(crate) fn small_vec_u32n64_new() -> (r: SmallVecU32N64)
    ensures
        r.wf(),
        sv_u32n64_items(r) == Seq::<u32>::empty(),
        sv_u32n64_cap(r) == 64,
{
    SmallVecU32N64 { inner: smallvec::SmallVec::new() }
}

/// `SmallVec::from_elem`: `n` copies of `elem`; inline when `n <= 64`, else
/// through `vec![elem; n]`, whose size computation must not overflow.
#[verifier::external_body]
pub(crate) fn small_vec_u32n64_from_elem(elem: u32, n: usize) -> (r: SmallVecU32N64)
    requires
        n <= 64 || n * vstd::layout::size_of::<u32>() <= isize::MAX,
    ensures
        r.wf(),
        sv_u32n64_items(r) == repeat(elem, n as nat),
        n <= 64 ==> sv_u32n64_cap(r) == 64,
{
    SmallVecU32N64 { inner: smallvec::SmallVec::from_elem(elem, n) }
}

/// `push`: `value` appended; a full vector first grows by amortised doubling,
/// whose size computation must not overflow.
#[verifier::external_body]
pub(crate) fn small_vec_u32n64_push(v: &mut SmallVecU32N64, value: u32)
    requires
        old(v).wf(),
        !growth_overflows(sv_u32n64_items(*old(v)).len(), sv_u32n64_cap(*old(v)), 1, vstd::layout::size_of::<u32>()),
    ensures
        final(v).wf(),
        sv_u32n64_items(*final(v)) == sv_u32n64_items(*old(v)).push(value),
        sv_u32n64_cap(*final(v)) == grown(sv_u32n64_items(*old(v)).len(), sv_u32n64_cap(*old(v)), 1),
{
    v.inner.push(value)
}

/// `resize`: truncated to `len`, or extended to `len` with copies of
/// `value` after reserving room for them.
#[verifier::external_body]
pub(crate) fn small_vec_u32n64_resize(v: &mut SmallVecU32N64, len: usize, value: u32)
    requires
        old(v).wf(),
        len > sv_u32n64_items(*old(v)).len() ==> !growth_overflows(sv_u32n64_items(*old(v)).len(), sv_u32n64_cap(*old(v)), (len - sv_u32n64_items(*old(v)).len()) as nat, vstd::layout::size_of::<u32>()),
    ensures
        final(v).wf(),
        len <= sv_u32n64_items(*old(v)).len() ==> sv_u32n64_items(*final(v)) == sv_u32n64_items(*old(v)).take(len as int) && sv_u32n64_cap(*final(v)) == sv_u32n64_cap(*old(v)),
        len > sv_u32n64_items(*old(v)).len() ==> sv_u32n64_items(*final(v)) == sv_u32n64_items(*old(v)) + repeat(value, (len - sv_u32n64_items(*old(v)).len()) as nat)
            && sv_u32n64_cap(*final(v)) == grown(sv_u32n64_items(*old(v)).len(), sv_u32n64_cap(*old(v)), (len - sv_u32n64_items(*old(v)).len()) as nat),
{
    v.inner.resize(len, value)
}

/// `Deref`: the items.
#[verifier::external_body]
pub(crate) fn small_vec_u32n64_deref(v: &SmallVecU32N64) -> (r: &[u32])
    ensures
        r@ == sv_u32n64_items(*v),
{
    std::ops::Deref::deref(&v.inner)
}

/// `SmallVec::with_capacity`: empty, with room for `n` items (inline when
/// `n <= 64`); the size computation must not overflow.
#[verifier::external_body]
pub(crate) fn small_vec_u32n64_with_capacity(n: usize) -> (r: SmallVecU32N64)
    requires
        !exact_growth_overflows(0, 64, n as nat, vstd::layout::size_of::<u32>()),
    ensures
        r.wf(),
        sv_u32n64_items(r) == Seq::<u32>::empty(),
        sv_u32n64_cap(r) == if n <= 64 { 64 } else { n as nat },
{
    SmallVecU32N64 { inner: smallvec::SmallVec::with_capacity(n) }
}

/// `reserve_exact`: room for exactly `additional` more items when there is
/// not enough; the size computation must not overflow.
#[verifier::external_body]
pub(crate) fn small_vec_u32n64_reserve_exact(v: &mut SmallVecU32N64, additional: usize)
    requires
        old(v).wf(),
        !exact_growth_overflows(sv_u32n64_items(*old(v)).len(), sv_u32n64_cap(*old(v)), additional as nat, vstd::layout::size_of::<u32>()),
    ensures
        final(v).wf(),
        sv_u32n64_items(*final(v)) == sv_u32n64_items(*old(v)),
        sv_u32n64_cap(*final(v)) == exact_grown(sv_u32n64_items(*old(v)).len(), sv_u32n64_cap(*old(v)), additional as nat),
{
    v.inner.reserve_exact(additional)
}

/// `is_empty`: whether there are no items.
#[verifier::external_body]
pub(crate) fn small_vec_u32n64_is_empty(v: &SmallVecU32N64) -> (r: bool)
    ensures
        r == (sv_u32n64_items(*v).len() == 0),
{
    v.inner.is_empty()
}

/// `insert`: `element` placed at `index`, later items shifted right; it first
/// reserves room for one item, and panics when `index > len`.
#[verifier::external_body]
pub(crate) fn small_vec_u32n64_insert(v: &mut SmallVecU32N64, index: usize, element: u32)
    requires
        old(v).wf(),
        index <= sv_u32n64_items(*old(v)).len(),
        !growth_overflows(sv_u32n64_items(*old(v)).len(), sv_u32n64_cap(*old(v)), 1, vstd::layout::size_of::<u32>()),
    ensures
        final(v).wf(),
        sv_u32n64_items(*final(v)) == sv_u32n64_items(*old(v)).insert(index as int, element),
        sv_u32n64_cap(*final(v)) == grown(sv_u32n64_items(*old(v)).len(), sv_u32n64_cap(*old(v)), 1),
{
    v.inner.insert(index, element)
}

/// `shrink_to_fit`: a heap vector moves back inline when its items fit there,
/// else its buffer shrinks to its length.
#[verifier::external_body]
pub(crate) fn small_vec_u32n64_shrink_to_fit(v: &mut SmallVecU32N64)
    requires
        old(v).wf(),
    ensures
        final(v).wf(),
        sv_u32n64_items(*final(v)) == sv_u32n64_items(*old(v)),
        sv_u32n64_cap(*final(v)) == if sv_u32n64_cap(*old(v)) == 64 || sv_u32n64_items(*old(v)).len() <= 64 { 64 } else { sv_u32n64_items(*old(v)).len() },
{
    v.inner.shrink_to_fit()
}

/// `spilled`: whether the items live in a heap buffer, that is, whether the
/// capacity exceeds the inline size.
#[verifier::external_body]
pub(crate) fn small_vec_u32n64_spilled(v: &SmallVecU32N64) -> (r: bool)
    ensures
        r == (sv_u32n64_cap(*v) > 64),
{
    v.inner.spilled()
}

/// `len`: the number of items.
#[verifier::external_body]
pub(crate) fn small_vec_u32n64_len(v: &SmallVecU32N64) -> (r: usize)
    ensures
        r == sv_u32n64_items(*v).len(),
{
    v.inner.len()
}

/// `capacity`: the recorded capacity.
#[verifier::external_body]
pub(crate) fn small_vec_u32n64_capacity(v: &SmallVecU32N64) -> (r: usize)
    ensures
        r == sv_u32n64_cap(*v),
{
    v.inner.capacity()
}

} // verus!

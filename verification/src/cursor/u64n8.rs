//! `SmallVec<[u64; 8]>` of the outside crate, behind trusted wrappers.
//!
//! The outside type is held in a private field: Verus sees a value of it only
//! through two names, the items it holds and the capacity it records. Each
//! wrapper states, over those names, what the crate's source does.
use vstd::prelude::*;
use crate::small_vec::{dedup_seq, exact_growth_overflows, exact_grown, growth_overflows, grown, lex_order, repeat, Order};

verus! {

/// A small vector of `u64` with room for 8 items inline.
#[verifier::external_body]
pub struct SmallVecU64N8 {
    inner: smallvec::SmallVec<[u64; 8]>,
}

/// The items a `SmallVec<[u64; 8]>` holds, in order.
pub uninterp spec fn sv_u64n8_items(v: SmallVecU64N8) -> Seq<u64>;

/// The capacity a `SmallVec<[u64; 8]>` records (8 while it is inline).
pub uninterp spec fn sv_u64n8_cap(v: SmallVecU64N8) -> nat;

impl View for SmallVecU64N8 {
    type V = Seq<u64>;

    open spec fn view(&self) -> Seq<u64> {
        sv_u64n8_items(*self)
    }
}

impl SmallVecU64N8 {
    /// The capacity that `capacity()` reports.
    pub open spec fn cap(self) -> nat {
        sv_u64n8_cap(self)
    }

    /// What every vector of this type satisfies: it holds at most its
    /// capacity, is never smaller than its inline size, and a heap buffer
    /// never exceeds `isize::MAX` bytes.
    pub open spec fn wf(self) -> bool {
        &&& self@.len() <= self.cap()
        &&& self.cap() >= 8
        &&& self.cap() * vstd::layout::size_of::<u64>() <= isize::MAX || self.cap() == 8
    }
}

/// `SmallVec::from_elem`: `n` copies of `elem`; inline when `n <= 8`, else
/// through `vec![elem; n]`, whose size computation must not overflow.
#[verifier::external_body]
pub(crate) fn small_vec_u64n8_from_elem(elem: u64, n: usize) -> (r: SmallVecU64N8)
    requires
        n <= 8 || n * vstd::layout::size_of::<u64>() <= isize::MAX,
    ensures
        r.wf(),
        sv_u64n8_items(r) == repeat(elem, n as nat),
        n <= 8 ==> sv_u64n8_cap(r) == 8,
{
    SmallVecU64N8 { inner: smallvec::SmallVec::from_elem(elem, n) }
}

/// `reserve`: room for `additional` more items by amortised doubling; the
/// size computation must not overflow.
#[verifier::external_body]
pub(crate) fn small_vec_u64n8_reserve(v: &mut SmallVecU64N8, additional: usize)
    requires
        old(v).wf(),
        !growth_overflows(sv_u64n8_items(*old(v)).len(), sv_u64n8_cap(*old(v)), additional as nat, vstd::layout::size_of::<u64>()),
    ensures
        final(v).wf(),
        sv_u64n8_items(*final(v)) == sv_u64n8_items(*old(v)),
        sv_u64n8_cap(*final(v)) == grown(sv_u64n8_items(*old(v)).len(), sv_u64n8_cap(*old(v)), additional as nat),
{
    v.inner.reserve(additional)
}

/// `truncate`: the first `len` items kept (all of them when there are fewer).
#[verifier::external_body]
pub(crate) fn small_vec_u64n8_truncate(v: &mut SmallVecU64N8, len: usize)
    requires
        old(v).wf(),
    ensures
        final(v).wf(),
        sv_u64n8_items(*final(v)) == if len < sv_u64n8_items(*old(v)).len() { sv_u64n8_items(*old(v)).take(len as int) } else { sv_u64n8_items(*old(v)) },
        sv_u64n8_cap(*final(v)) == sv_u64n8_cap(*old(v)),
{
    v.inner.truncate(len)
}

/// `len`: the number of items.
#[verifier::external_body]
pub(crate) fn small_vec_u64n8_len(v: &SmallVecU64N8) -> (r: usize)
    ensures
        r == sv_u64n8_items(*v).len(),
{
    v.inner.len()
}

/// `capacity`: the recorded capacity.
#[verifier::external_body]
pub(crate) fn small_vec_u64n8_capacity(v: &SmallVecU64N8) -> (r: usize)
    ensures
        r == sv_u64n8_cap(*v),
{
    v.inner.capacity()
}

} // verus!

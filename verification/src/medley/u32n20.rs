//! `SmallVec<[u32; 20]>` of the outside crate, behind trusted wrappers.
//!
//! The outside type is held in a private field: Verus sees a value of it only
//! through two names, the items it holds and the capacity it records. Each
//! wrapper states, over those names, what the crate's source does.
use vstd::prelude::*;
use crate::small_vec::{dedup_seq, exact_growth_overflows, exact_grown, growth_overflows, grown, lex_order, repeat, Order};

verus! {

/// A small vector of `u32` with room for 20 items inline.
#[verifier::external_body]
pub struct SmallVecU32N20 {
    inner: smallvec::SmallVec<[u32; 20]>,
}

/// The items a `SmallVec<[u32; 20]>` holds, in order.
pub uninterp spec fn sv_u32n20_items(v: SmallVecU32N20) -> Seq<u32>;

/// The capacity a `SmallVec<[u32; 20]>` records (20 while it is inline).
pub uninterp spec fn sv_u32n20_cap(v: SmallVecU32N20) -> nat;

impl View for SmallVecU32N20 {
    type V = Seq<u32>;

    open spec fn view(&self) -> Seq<u32> {
        sv_u32n20_items(*self)
    }
}

impl SmallVecU32N20 {
    /// The capacity that `capacity()` reports.
    pub open spec fn cap(self) -> nat {
        sv_u32n20_cap(self)
    }

    /// What every vector of this type satisfies: it holds at most its
    /// capacity, is never smaller than its inline size, and a heap buffer
    /// never exceeds `isize::MAX` bytes.
    pub open spec fn wf(self) -> bool {
        &&& self@.len() <= self.cap()
        &&& self.cap() >= 20
        &&& self.cap() * vstd::layout::size_of::<u32>() <= isize::MAX || self.cap() == 20
    }
}

/// `From<[T; 20]>`, that is `from_buf`: all 20 items of `buf`, inline.
#[verifier::external_body]
pub(crate) fn small_vec_u32n20_from_buf(buf: [u32; 20]) -> (r: SmallVecU32N20)
    ensures
        r.wf(),
        sv_u32n20_items(r) == buf@,
        sv_u32n20_cap(r) == 20,
{
    SmallVecU32N20 { inner: std::convert::From::from(buf) }
}

/// `Index<Range<usize>>`: the items `start..end`; it panics unless
/// `start <= end <= len`.
#[verifier::external_body]
pub(crate) fn small_vec_u32n20_index_range(v: &SmallVecU32N20, start: usize, end: usize) -> (r: &[u32])
    requires
        start <= end <= sv_u32n20_items(*v).len(),
    ensures
        r@ == sv_u32n20_items(*v).subrange(start as int, end as int),
{
    &v.inner[start..end]
}

} // verus!

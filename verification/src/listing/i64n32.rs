//! `SmallVec<[i64; 32]>` of the outside crate, behind trusted wrappers.
//!
//! The outside type is held in a private field: Verus sees a value of it only
//! through two names, the items it holds and the capacity it records. Each
//! wrapper states, over those names, what the crate's source does.
use vstd::prelude::*;
use crate::small_vec::{dedup_seq, exact_growth_overflows, exact_grown, growth_overflows, grown, lex_order, repeat, Order};

verus! {

/// A small vector of `i64` with room for 32 items inline.
#[verifier::external_body]
pub struct SmallVecI64N32 {
    inner: smallvec::SmallVec<[i64; 32]>,
}

/// The items a `SmallVec<[i64; 32]>` holds, in order.
pub uninterp spec fn sv_i64n32_items(v: SmallVecI64N32) -> Seq<i64>;

/// The capacity a `SmallVec<[i64; 32]>` records (32 while it is inline).
pub uninterp spec fn sv_i64n32_cap(v: SmallVecI64N32) -> nat;

impl View for SmallVecI64N32 {
    type V = Seq<i64>;

    open spec fn view(&self) -> Seq<i64> {
        sv_i64n32_items(*self)
    }
}

impl SmallVecI64N32 {
    /// The capacity that `capacity()` reports.
    pub open spec fn cap(self) -> nat {
        sv_i64n32_cap(self)
    }

    /// What every vector of this type satisfies: it holds at most its
    /// capacity, is never smaller than its inline size, and a heap buffer
    /// never exceeds `isize::MAX` bytes.
    pub open spec fn wf(self) -> bool {
        &&& self@.len() <= self.cap()
        &&& self.cap() >= 32
        &&& self.cap() * vstd::layout::size_of::<i64>() <= isize::MAX || self.cap() == 32
    }
}

/// `SmallVec::from_buf_and_len`: the first `len` items of `buf`, inline; it
/// panics when `len > 32`.
#[verifier::external_body]
pub(crate) fn small_vec_i64n32_from_buf_and_len(buf: [i64; 32], len: usize) -> (r: SmallVecI64N32)
    requires
        len <= 32,
    ensures
        r.wf(),
        sv_i64n32_items(r) == buf@.take(len as int),
        sv_i64n32_cap(r) == 32,
{
    SmallVecI64N32 { inner: smallvec::SmallVec::from_buf_and_len(buf, len) }
}

/// `into_vec`: the items, as a `Vec`.
#[verifier::external_body]
pub(crate) fn small_vec_i64n32_into_vec(v: SmallVecI64N32) -> (r: Vec<i64>)
    ensures
        r@ == sv_i64n32_items(v),
{
    v.inner.into_vec()
}

} // verus!

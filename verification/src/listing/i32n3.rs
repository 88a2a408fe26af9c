//! `SmallVec<[i32; 3]>` of the outside crate, behind trusted wrappers.
//!
//! The outside type is held in a private field: Verus sees a value of it only
//! through two names, the items it holds and the capacity it records. Each
//! wrapper states, over those names, what the crate's source does.
use vstd::prelude::*;
use crate::small_vec::{dedup_seq, exact_growth_overflows, exact_grown, growth_overflows, grown, lex_order, repeat, Order};

verus! {

/// A small vector of `i32` with room for 3 items inline.
#[verifier::external_body]
pub struct SmallVecI32N3 {
    inner: smallvec::SmallVec<[i32; 3]>,
}

/// The items a `SmallVec<[i32; 3]>` holds, in order.
pub uninterp spec fn sv_i32n3_items(v: SmallVecI32N3) -> Seq<i32>;

/// The capacity a `SmallVec<[i32; 3]>` records (3 while it is inline).
pub uninterp spec fn sv_i32n3_cap(v: SmallVecI32N3) -> nat;

impl View for SmallVecI32N3 {
    type V = Seq<i32>;

    open spec fn view(&self) -> Seq<i32> {
        sv_i32n3_items(*self)
    }
}

impl SmallVecI32N3 {
    /// The capacity that `capacity()` reports.
    pub open spec fn cap(self) -> nat {
        sv_i32n3_cap(self)
    }

    /// What every vector of this type satisfies: it holds at most its
    /// capacity, is never smaller than its inline size, and a heap buffer
    /// never exceeds `isize::MAX` bytes.
    pub open spec fn wf(self) -> bool {
        &&& self@.len() <= self.cap()
        &&& self.cap() >= 3
        &&& self.cap() * vstd::layout::size_of::<i32>() <= isize::MAX || self.cap() == 3
    }
}

/// `From<[T; 3]>`, that is `from_buf`: all 3 items of `buf`, inline.
#[verifier::external_body]
pub(crate) fn small_vec_i32n3_from_buf(buf: [i32; 3]) -> (r: SmallVecI32N3)
    ensures
        r.wf(),
        sv_i32n3_items(r) == buf@,
        sv_i32n3_cap(r) == 3,
{
    SmallVecI32N3 { inner: std::convert::From::from(buf) }
}

/// `push`: `value` appended; a full vector first grows by amortised doubling,
/// whose size computation must not overflow.
#[verifier::external_body]
pub(crate) fn small_vec_i32n3_push(v: &mut SmallVecI32N3, value: i32)
    requires
        old(v).wf(),
        !growth_overflows(sv_i32n3_items(*old(v)).len(), sv_i32n3_cap(*old(v)), 1, vstd::layout::size_of::<i32>()),
    ensures
        final(v).wf(),
        sv_i32n3_items(*final(v)) == sv_i32n3_items(*old(v)).push(value),
        sv_i32n3_cap(*final(v)) == grown(sv_i32n3_items(*old(v)).len(), sv_i32n3_cap(*old(v)), 1),
{
    v.inner.push(value)
}

/// `into_vec`: the items, as a `Vec`.
#[verifier::external_body]
pub(crate) fn small_vec_i32n3_into_vec(v: SmallVecI32N3) -> (r: Vec<i32>)
    ensures
        r@ == sv_i32n3_items(v),
{
    v.inner.into_vec()
}

} // verus!

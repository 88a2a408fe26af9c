//! `SmallVec<[u32; 28]>` of the outside crate, behind trusted wrappers.
//!
//! The outside type is held in a private field: Verus sees a value of it only
//! through two names, the items it holds and the capacity it records. Each
//! wrapper states, over those names, what the crate's source does.
use vstd::prelude::*;
use crate::small_vec::{dedup_seq, exact_growth_overflows, exact_grown, growth_overflows, grown, lex_order, repeat, u32_ints, Order};

verus! {

/// A small vector of `u32` with room for 28 items inline.
#[verifier::external_body]
pub struct SmallVecU32N28 {
    inner: smallvec::SmallVec<[u32; 28]>,
}

/// The items a `SmallVec<[u32; 28]>` holds, in order.
pub uninterp spec fn sv_u32n28_items(v: SmallVecU32N28) -> Seq<u32>;

/// The capacity a `SmallVec<[u32; 28]>` records (28 while it is inline).
pub uninterp spec fn sv_u32n28_cap(v: SmallVecU32N28) -> nat;

impl View for SmallVecU32N28 {
    type V = Seq<u32>;

    open spec fn view(&self) -> Seq<u32> {
        sv_u32n28_items(*self)
    }
}

impl SmallVecU32N28 {
    /// The capacity that `capacity()` reports.
    pub open spec fn cap(self) -> nat {
        sv_u32n28_cap(self)
    }

    /// What every vector of this type satisfies: it holds at most its
    /// capacity, is never smaller than its inline size, and a heap buffer
    /// never exceeds `isize::MAX` bytes.
    pub open spec fn wf(self) -> bool {
        &&& self@.len() <= self.cap()
        &&& self.cap() >= 28
        &&& self.cap() * vstd::layout::size_of::<u32>() <= isize::MAX || self.cap() == 28
    }
}

/// `From<[T; 28]>`, that is `from_buf`: all 28 items of `buf`, inline.
#[verifier::external_body]
pub(crate) fn small_vec_u32n28_from_buf(buf: [u32; 28]) -> (r: SmallVecU32N28)
    ensures
        r.wf(),
        sv_u32n28_items(r) == buf@,
        sv_u32n28_cap(r) == 28,
{
    SmallVecU32N28 { inner: std::convert::From::from(buf) }
}

/// `reserve_exact`: room for exactly `additional` more items when there is
/// not enough; the size computation must not overflow.
#[verifier::external_body]
pub(crate) fn small_vec_u32n28_reserve_exact(v: &mut SmallVecU32N28, additional: usize)
    requires
        old(v).wf(),
        !exact_growth_overflows(sv_u32n28_items(*old(v)).len(), sv_u32n28_cap(*old(v)), additional as nat, vstd::layout::size_of::<u32>()),
    ensures
        final(v).wf(),
        sv_u32n28_items(*final(v)) == sv_u32n28_items(*old(v)),
        sv_u32n28_cap(*final(v)) == exact_grown(sv_u32n28_items(*old(v)).len(), sv_u32n28_cap(*old(v)), additional as nat),
{
    v.inner.reserve_exact(additional)
}

/// `clear`: no items left; the capacity stays.
#[verifier::external_body]
pub(crate) fn small_vec_u32n28_clear(v: &mut SmallVecU32N28)
    requires
        old(v).wf(),
    ensures
        final(v).wf(),
        sv_u32n28_items(*final(v)) == Seq::<u32>::empty(),
        sv_u32n28_cap(*final(v)) == sv_u32n28_cap(*old(v)),
{
    v.inner.clear()
}

/// `grow`: the capacity set to `new_cap`, or back to inline when
/// `new_cap <= 28`; it panics when `new_cap < len` or when the size
/// computation overflows.
#[verifier::external_body]
pub(crate) fn small_vec_u32n28_grow(v: &mut SmallVecU32N28, new_cap: usize)
    requires
        old(v).wf(),
        new_cap >= sv_u32n28_items(*old(v)).len(),
        new_cap <= 28 || new_cap * vstd::layout::size_of::<u32>() <= isize::MAX,
    ensures
        final(v).wf(),
        sv_u32n28_items(*final(v)) == sv_u32n28_items(*old(v)),
        sv_u32n28_cap(*final(v)) == if new_cap <= 28 { 28 } else { new_cap as nat },
{
    v.inner.grow(new_cap)
}

/// `len`: the number of items.
#[verifier::external_body]
pub(crate) fn small_vec_u32n28_len(v: &SmallVecU32N28) -> (r: usize)
    ensures
        r == sv_u32n28_items(*v).len(),
{
    v.inner.len()
}

} // verus!

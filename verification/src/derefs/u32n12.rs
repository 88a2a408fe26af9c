//! `SmallVec<[u32; 12]>` of the outside crate, behind trusted wrappers.
//!
//! The outside type is held in a private field: Verus sees a value of it only
//! through two names, the items it holds and the capacity it records. Each
//! wrapper states, over those names, what the crate's source does.
use vstd::prelude::*;
use crate::small_vec::{dedup_seq, exact_growth_overflows, exact_grown, growth_overflows, grown, lex_order, repeat, Order};

verus! {

/// A small vector of `u32` with room for 12 items inline.
#[verifier::external_body]
pub struct SmallVecU32N12 {
    inner: smallvec::SmallVec<[u32; 12]>,
}

/// The items a `SmallVec<[u32; 12]>` holds, in order.
pub uninterp spec fn sv_u32n12_items(v: SmallVecU32N12) -> Seq<u32>;

/// The capacity a `SmallVec<[u32; 12]>` records (12 while it is inline).
pub uninterp spec fn sv_u32n12_cap(v: SmallVecU32N12) -> nat;

impl View for SmallVecU32N12 {
    type V = Seq<u32>;

    open spec fn view(&self) -> Seq<u32> {
        sv_u32n12_items(*self)
    }
}

impl SmallVecU32N12 {
    /// The capacity that `capacity()` reports.
    pub open spec fn cap(self) -> nat {
        sv_u32n12_cap(self)
    }

    /// What every vector of this type satisfies: it holds at most its
    /// capacity, is never smaller than its inline size, and a heap buffer
    /// never exceeds `isize::MAX` bytes.
    pub open spec fn wf(self) -> bool {
        &&& self@.len() <= self.cap()
        &&& self.cap() >= 12
        &&& self.cap() * vstd::layout::size_of::<u32>() <= isize::MAX || self.cap() == 12
    }
}

/// `SmallVec::from_buf_and_len`: the first `len` items of `buf`, inline; it
/// panics when `len > 12`.
#[verifier::external_body]
pub(crate) fn small_vec_u32n12_from_buf_and_len(buf: [u32; 12], len: usize) -> (r: SmallVecU32N12)
    requires
        len <= 12,
    ensures
        r.wf(),
        sv_u32n12_items(r) == buf@.take(len as int),
        sv_u32n12_cap(r) == 12,
{
    SmallVecU32N12 { inner: smallvec::SmallVec::from_buf_and_len(buf, len) }
}

/// `Deref`: the items.
#[verifier::external_body]
pub(crate) fn small_vec_u32n12_deref(v: &SmallVecU32N12) -> (r: &[u32])
    ensures
        r@ == sv_u32n12_items(*v),
{
    std::ops::Deref::deref(&v.inner)
}

/// `SmallVec::new`: empty and inline.
#[verifier::external_body]
pub(crate) fn small_vec_u32n12_new() -> (r: SmallVecU32N12)
    ensures
        r.wf(),
        sv_u32n12_items(r) == Seq::<u32>::empty(),
        sv_u32n12_cap(r) == 12,
{
    SmallVecU32N12 { inner: smallvec::SmallVec::new() }
}

/// `Extend` by the items of `vec`: room reserved for all of them first, then
/// each appended in order.
#[verifier::external_body]
pub(crate) fn small_vec_u32n12_extend(v: &mut SmallVecU32N12, vec: Vec<u32>)
    requires
        old(v).wf(),
        !growth_overflows(sv_u32n12_items(*old(v)).len(), sv_u32n12_cap(*old(v)), vec@.len(), vstd::layout::size_of::<u32>()),
    ensures
        final(v).wf(),
        sv_u32n12_items(*final(v)) == sv_u32n12_items(*old(v)) + vec@,
        sv_u32n12_cap(*final(v)) == grown(sv_u32n12_items(*old(v)).len(), sv_u32n12_cap(*old(v)), vec@.len()),
{
    std::iter::Extend::extend(&mut v.inner, vec)
}

/// `reserve_exact`: room for exactly `additional` more items when there is
/// not enough; the size computation must not overflow.
#[verifier::external_body]
pub(crate) fn small_vec_u32n12_reserve_exact(v: &mut SmallVecU32N12, additional: usize)
    requires
        old(v).wf(),
        !exact_growth_overflows(sv_u32n12_items(*old(v)).len(), sv_u32n12_cap(*old(v)), additional as nat, vstd::layout::size_of::<u32>()),
    ensures
        final(v).wf(),
        sv_u32n12_items(*final(v)) == sv_u32n12_items(*old(v)),
        sv_u32n12_cap(*final(v)) == exact_grown(sv_u32n12_items(*old(v)).len(), sv_u32n12_cap(*old(v)), additional as nat),
{
    v.inner.reserve_exact(additional)
}

/// `truncate`: the first `len` items kept (all of them when there are fewer).
#[verifier::external_body]
pub(crate) fn small_vec_u32n12_truncate(v: &mut SmallVecU32N12, len: usize)
    requires
        old(v).wf(),
    ensures
        final(v).wf(),
        sv_u32n12_items(*final(v)) == if len < sv_u32n12_items(*old(v)).len() { sv_u32n12_items(*old(v)).take(len as int) } else { sv_u32n12_items(*old(v)) },
        sv_u32n12_cap(*final(v)) == sv_u32n12_cap(*old(v)),
{
    v.inner.truncate(len)
}

/// `len`: the number of items.
#[verifier::external_body]
pub(crate) fn small_vec_u32n12_len(v: &SmallVecU32N12) -> (r: usize)
    ensures
        r == sv_u32n12_items(*v).len(),
{
    v.inner.len()
}

/// `capacity`: the recorded capacity.
#[verifier::external_body]
pub(crate) fn small_vec_u32n12_capacity(v: &SmallVecU32N12) -> (r: usize)
    ensures
        r == sv_u32n12_cap(*v),
{
    v.inner.capacity()
}

} // verus!

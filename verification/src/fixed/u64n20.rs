//! `SmallVec<[u64; 20]>` of the outside crate, behind trusted wrappers.
//!
//! The outside type is held in a private field: Verus sees a value of it only
//! through two names, the items it holds and the capacity it records. Each
//! wrapper states, over those names, what the crate's source does.
use vstd::prelude::*;
use crate::small_vec::{dedup_seq, exact_growth_overflows, exact_grown, growth_overflows, grown, lex_order, repeat, Order};

verus! {

/// A small vector of `u64` with room for 20 items inline.
#[verifier::external_body]
pub struct SmallVecU64N20 {
    inner: smallvec::SmallVec<[u64; 20]>,
}

/// The items a `SmallVec<[u64; 20]>` holds, in order.
pub uninterp spec fn sv_u64n20_items(v: SmallVecU64N20) -> Seq<u64>;

/// The capacity a `SmallVec<[u64; 20]>` records (20 while it is inline).
pub uninterp spec fn sv_u64n20_cap(v: SmallVecU64N20) -> nat;

impl View for SmallVecU64N20 {
    type V = Seq<u64>;

    open spec fn view(&self) -> Seq<u64> {
        sv_u64n20_items(*self)
    }
}

impl SmallVecU64N20 {
    /// The capacity that `capacity()` reports.
    pub open spec fn cap(self) -> nat {
        sv_u64n20_cap(self)
    }

    /// What every vector of this type satisfies: it holds at most its
    /// capacity, is never smaller than its inline size, and a heap buffer
    /// never exceeds `isize::MAX` bytes.
    pub open spec fn wf(self) -> bool {
        &&& self@.len() <= self.cap()
        &&& self.cap() >= 20
        &&& self.cap() * vstd::layout::size_of::<u64>() <= isize::MAX || self.cap() == 20
    }
}

/// `SmallVec::from_slice`: a copy of `slice`; inline when it has at most 20
/// items, else in a heap buffer whose capacity nothing here states.
#[verifier::external_body]
pub(crate) fn small_vec_u64n20_from_slice(slice: &[u64]) -> (r: SmallVecU64N20)
    ensures
        r.wf(),
        sv_u64n20_items(r) == slice@,
        slice@.len() <= 20 ==> sv_u64n20_cap(r) == 20,
{
    SmallVecU64N20 { inner: smallvec::SmallVec::from_slice(slice) }
}

/// `truncate`: the first `len` items kept (all of them when there are fewer).
#[verifier::external_body]
pub(crate) fn small_vec_u64n20_truncate(v: &mut SmallVecU64N20, len: usize)
    requires
        old(v).wf(),
    ensures
        final(v).wf(),
        sv_u64n20_items(*final(v)) == if len < sv_u64n20_items(*old(v)).len() { sv_u64n20_items(*old(v)).take(len as int) } else { sv_u64n20_items(*old(v)) },
        sv_u64n20_cap(*final(v)) == sv_u64n20_cap(*old(v)),
{
    v.inner.truncate(len)
}

/// `as_slice`: the items.
#[verifier::external_body]
pub(crate) fn small_vec_u64n20_as_slice(v: &SmallVecU64N20) -> (r: &[u64])
    ensures
        r@ == sv_u64n20_items(*v),
{
    v.inner.as_slice()
}

/// `as_mut_slice`: the items, to be written in place.
#[verifier::external_body]
pub(crate) fn small_vec_u64n20_as_mut_slice(v: &mut SmallVecU64N20) -> (r: &mut [u64])
    requires
        old(v).wf(),
    ensures
        r@ == sv_u64n20_items(*old(v)),
        sv_u64n20_items(*final(v)) == final(r)@,
        sv_u64n20_cap(*final(v)) == sv_u64n20_cap(*old(v)),
{
    v.inner.as_mut_slice()
}

/// `extend_from_slice`: the items of `slice` appended, after reserving room
/// for all of them.
#[verifier::external_body]
pub(crate) fn small_vec_u64n20_extend_from_slice(v: &mut SmallVecU64N20, slice: &[u64])
    requires
        old(v).wf(),
        !growth_overflows(sv_u64n20_items(*old(v)).len(), sv_u64n20_cap(*old(v)), slice@.len(), vstd::layout::size_of::<u64>()),
    ensures
        final(v).wf(),
        sv_u64n20_items(*final(v)) == sv_u64n20_items(*old(v)) + slice@,
        sv_u64n20_cap(*final(v)) == grown(sv_u64n20_items(*old(v)).len(), sv_u64n20_cap(*old(v)), slice@.len()),
{
    v.inner.extend_from_slice(slice)
}

/// `insert_from_slice`: the items of `slice` placed at `index`, later items
/// shifted right, after reserving room for them; it panics when
/// `index > len`.
#[verifier::external_body]
pub(crate) fn small_vec_u64n20_insert_from_slice(v: &mut SmallVecU64N20, index: usize, slice: &[u64])
    requires
        old(v).wf(),
        index <= sv_u64n20_items(*old(v)).len(),
        !growth_overflows(sv_u64n20_items(*old(v)).len(), sv_u64n20_cap(*old(v)), slice@.len(), vstd::layout::size_of::<u64>()),
    ensures
        final(v).wf(),
        sv_u64n20_items(*final(v)) == sv_u64n20_items(*old(v)).take(index as int) + slice@ + sv_u64n20_items(*old(v)).skip(index as int),
        sv_u64n20_cap(*final(v)) == grown(sv_u64n20_items(*old(v)).len(), sv_u64n20_cap(*old(v)), slice@.len()),
{
    v.inner.insert_from_slice(index, slice)
}

/// `as_ptr`: the address of the buffer, as an integer (nothing is stated of
/// it).
#[verifier::external_body]
pub(crate) fn small_vec_u64n20_as_ptr(v: &SmallVecU64N20) -> (r: usize)
{
    v.inner.as_ptr() as usize
}

/// `as_mut_ptr`: the address of the buffer, as an integer (nothing is stated
/// of it); the vector is left as it was.
#[verifier::external_body]
pub(crate) fn small_vec_u64n20_as_mut_ptr(v: &mut SmallVecU64N20) -> (r: usize)
    ensures
        sv_u64n20_items(*final(v)) == sv_u64n20_items(*old(v)),
        sv_u64n20_cap(*final(v)) == sv_u64n20_cap(*old(v)),
{
    v.inner.as_mut_ptr() as usize
}

/// `len`: the number of items.
#[verifier::external_body]
pub(crate) fn small_vec_u64n20_len(v: &SmallVecU64N20) -> (r: usize)
    ensures
        r == sv_u64n20_items(*v).len(),
{
    v.inner.len()
}

/// `capacity`: the recorded capacity.
#[verifier::external_body]
pub(crate) fn small_vec_u64n20_capacity(v: &SmallVecU64N20) -> (r: usize)
    ensures
        r == sv_u64n20_cap(*v),
{
    v.inner.capacity()
}

} // verus!

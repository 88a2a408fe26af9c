//! `SmallVec<[u8; 20]>` of the outside crate, behind trusted wrappers.
//!
//! The outside type is held in a private field: Verus sees a value of it only
//! through two names, the items it holds and the capacity it records. Each
//! wrapper states, over those names, what the crate's source does.
use vstd::prelude::*;
use crate::small_vec::{dedup_seq, exact_growth_overflows, growth_overflows, grown, repeat};

verus! {

/// A small vector of `u8` with room for 20 items inline.
#[verifier::external_body]
pub struct SmallVecU8N20 {
    inner: smallvec::SmallVec<[u8; 20]>,
}

/// The items a `SmallVec<[u8; 20]>` holds, in order.
pub uninterp spec fn sv_u8n20_items(v: SmallVecU8N20) -> Seq<u8>;

/// The capacity a `SmallVec<[u8; 20]>` records (20 while it is inline).
pub uninterp spec fn sv_u8n20_cap(v: SmallVecU8N20) -> nat;

impl View for SmallVecU8N20 {
    type V = Seq<u8>;

    open spec fn view(&self) -> Seq<u8> {
        sv_u8n20_items(*self)
    }
}

/// Whether `x` is even: the test by which the script keeps items.
pub fn is_even_u8(x: u8) -> (r: bool)
    ensures
        r == (x % 2 == 0),
{
    x % 2 == 0
}

impl SmallVecU8N20 {
    /// The capacity that `capacity()` reports.
    pub open spec fn cap(self) -> nat {
        sv_u8n20_cap(self)
    }

    /// What every vector of this type satisfies: it holds at most its
    /// capacity, is never smaller than its inline size, and a heap buffer
    /// never exceeds `isize::MAX` bytes.
    pub open spec fn wf(self) -> bool {
        &&& self@.len() <= self.cap()
        &&& self.cap() >= 20
        &&& self.cap() * 1 <= isize::MAX || self.cap() == 20
    }
}

/// `SmallVec::new`: empty and inline.
#[verifier::external_body]
pub(crate) fn small_vec_u8n20_new() -> (r: SmallVecU8N20)
    ensures
        r.wf(),
        sv_u8n20_items(r) == Seq::<u8>::empty(),
        sv_u8n20_cap(r) == 20,
{
    SmallVecU8N20 { inner: smallvec::SmallVec::new() }
}

/// `SmallVec::with_capacity`: empty, with room for `n` items (inline when
/// `n <= 20`); the size computation must not overflow.
#[verifier::external_body]
pub(crate) fn small_vec_u8n20_with_capacity(n: usize) -> (r: SmallVecU8N20)
    requires
        !exact_growth_overflows(0, 20, n as nat, 1),
    ensures
        r.wf(),
        sv_u8n20_items(r) == Seq::<u8>::empty(),
        sv_u8n20_cap(r) == if n <= 20 { 20 } else { n as nat },
{
    SmallVecU8N20 { inner: smallvec::SmallVec::with_capacity(n) }
}

/// `SmallVec::from_vec`: the items of `vec`; inline when the vector's own
/// capacity is at most 20, else taking over its buffer, whose capacity
/// nothing here states.
#[verifier::external_body]
pub(crate) fn small_vec_u8n20_from_vec(vec: Vec<u8>) -> (r: SmallVecU8N20)
    ensures
        r.wf(),
        sv_u8n20_items(r) == vec@,
{
    SmallVecU8N20 { inner: smallvec::SmallVec::from_vec(vec) }
}

/// `len`: the number of items.
#[verifier::external_body]
pub(crate) fn small_vec_u8n20_len(v: &SmallVecU8N20) -> (r: usize)
    ensures
        r == sv_u8n20_items(*v).len(),
{
    v.inner.len()
}

/// `capacity`: the recorded capacity.
#[verifier::external_body]
pub(crate) fn small_vec_u8n20_capacity(v: &SmallVecU8N20) -> (r: usize)
    ensures
        r == sv_u8n20_cap(*v),
{
    v.inner.capacity()
}

/// `is_empty`: whether there are no items.
#[verifier::external_body]
pub(crate) fn small_vec_u8n20_is_empty(v: &SmallVecU8N20) -> (r: bool)
    ensures
        r == (sv_u8n20_items(*v).len() == 0),
{
    v.inner.is_empty()
}

/// `as_mut_slice`: the items, to be written in place.
#[verifier::external_body]
pub(crate) fn small_vec_u8n20_as_mut_slice(v: &mut SmallVecU8N20) -> (r: &mut [u8])
    requires
        old(v).wf(),
    ensures
        r@ == sv_u8n20_items(*old(v)),
        sv_u8n20_items(*final(v)) == final(r)@,
        sv_u8n20_cap(*final(v)) == sv_u8n20_cap(*old(v)),
{
    v.inner.as_mut_slice()
}

/// `as_ptr`: the address of the buffer, as an integer (nothing is stated of
/// it).
#[verifier::external_body]
pub(crate) fn small_vec_u8n20_as_ptr(v: &SmallVecU8N20) -> (r: usize)
{
    v.inner.as_ptr() as usize
}

/// `as_mut_ptr`: the address of the buffer, as an integer (nothing is stated
/// of it); the vector is left as it was.
#[verifier::external_body]
pub(crate) fn small_vec_u8n20_as_mut_ptr(v: &mut SmallVecU8N20) -> (r: usize)
    ensures
        sv_u8n20_items(*final(v)) == sv_u8n20_items(*old(v)),
        sv_u8n20_cap(*final(v)) == sv_u8n20_cap(*old(v)),
{
    v.inner.as_mut_ptr() as usize
}

/// `remove`: the item at `index`, later items shifted left; it panics when
/// `index >= len`.
#[verifier::external_body]
pub(crate) fn small_vec_u8n20_remove(v: &mut SmallVecU8N20, index: usize) -> (r: u8)
    requires
        old(v).wf(),
        index < sv_u8n20_items(*old(v)).len(),
    ensures
        final(v).wf(),
        r == sv_u8n20_items(*old(v))[index as int],
        sv_u8n20_items(*final(v)) == sv_u8n20_items(*old(v)).remove(index as int),
        sv_u8n20_cap(*final(v)) == sv_u8n20_cap(*old(v)),
{
    v.inner.remove(index)
}

/// `try_reserve`: as `reserve`, reporting failure instead of panicking. It
/// fails whenever the size computation overflows; otherwise it may still fail
/// when the allocator refuses, which nothing here states. A failure leaves the
/// vector as it was.
#[verifier::external_body]
pub(crate) fn small_vec_u8n20_try_reserve(v: &mut SmallVecU8N20, additional: usize) -> (r: Result<(), smallvec::CollectionAllocErr>)
    requires
        old(v).wf(),
    ensures
        final(v).wf(),
        sv_u8n20_items(*final(v)) == sv_u8n20_items(*old(v)),
        growth_overflows(sv_u8n20_items(*old(v)).len(), sv_u8n20_cap(*old(v)), additional as nat, 1) ==> r is Err,
        sv_u8n20_cap(*old(v)) - sv_u8n20_items(*old(v)).len() >= additional ==> r is Ok,
        r is Ok ==> sv_u8n20_cap(*final(v)) == grown(sv_u8n20_items(*old(v)).len(), sv_u8n20_cap(*old(v)), additional as nat),
        r is Err ==> sv_u8n20_cap(*final(v)) == sv_u8n20_cap(*old(v)),
{
    v.inner.try_reserve(additional)
}

/// `extend_from_slice`: the items of `slice` appended, after reserving room
/// for all of them.
#[verifier::external_body]
pub(crate) fn small_vec_u8n20_extend_from_slice(v: &mut SmallVecU8N20, slice: &[u8])
    requires
        old(v).wf(),
        !growth_overflows(sv_u8n20_items(*old(v)).len(), sv_u8n20_cap(*old(v)), slice@.len(), 1),
    ensures
        final(v).wf(),
        sv_u8n20_items(*final(v)) == sv_u8n20_items(*old(v)) + slice@,
        sv_u8n20_cap(*final(v)) == grown(sv_u8n20_items(*old(v)).len(), sv_u8n20_cap(*old(v)), slice@.len()),
{
    v.inner.extend_from_slice(slice)
}

/// `resize`: truncated to `len`, or extended to `len` with copies of
/// `value` after reserving room for them.
#[verifier::external_body]
pub(crate) fn small_vec_u8n20_resize(v: &mut SmallVecU8N20, len: usize, value: u8)
    requires
        old(v).wf(),
        len > sv_u8n20_items(*old(v)).len() ==> !growth_overflows(sv_u8n20_items(*old(v)).len(), sv_u8n20_cap(*old(v)), (len - sv_u8n20_items(*old(v)).len()) as nat, 1),
    ensures
        final(v).wf(),
        len <= sv_u8n20_items(*old(v)).len() ==> sv_u8n20_items(*final(v)) == sv_u8n20_items(*old(v)).take(len as int) && sv_u8n20_cap(*final(v)) == sv_u8n20_cap(*old(v)),
        len > sv_u8n20_items(*old(v)).len() ==> sv_u8n20_items(*final(v)) == sv_u8n20_items(*old(v)) + repeat(value, (len - sv_u8n20_items(*old(v)).len()) as nat)
            && sv_u8n20_cap(*final(v)) == grown(sv_u8n20_items(*old(v)).len(), sv_u8n20_cap(*old(v)), (len - sv_u8n20_items(*old(v)).len()) as nat),
{
    v.inner.resize(len, value)
}

/// `retain` with the even test: the even items kept, in order; the capacity
/// stays.
#[verifier::external_body]
pub(crate) fn small_vec_u8n20_retain_even(v: &mut SmallVecU8N20)
    requires
        old(v).wf(),
    ensures
        final(v).wf(),
        sv_u8n20_items(*final(v)) == sv_u8n20_items(*old(v)).filter(|x: u8| x % 2 == 0),
        sv_u8n20_cap(*final(v)) == sv_u8n20_cap(*old(v)),
{
    v.inner.retain(|x: &mut u8| is_even_u8(*x))
}

/// `dedup`: every item equal to the one before it removed; the capacity
/// stays.
#[verifier::external_body]
pub(crate) fn small_vec_u8n20_dedup(v: &mut SmallVecU8N20)
    requires
        old(v).wf(),
    ensures
        final(v).wf(),
        sv_u8n20_items(*final(v)) == dedup_seq(sv_u8n20_items(*old(v))),
        sv_u8n20_cap(*final(v)) == sv_u8n20_cap(*old(v)),
{
    v.inner.dedup()
}

/// `shrink_to_fit`: a heap vector moves back inline when its items fit there,
/// else its buffer shrinks to its length.
#[verifier::external_body]
pub(crate) fn small_vec_u8n20_shrink_to_fit(v: &mut SmallVecU8N20)
    requires
        old(v).wf(),
    ensures
        final(v).wf(),
        sv_u8n20_items(*final(v)) == sv_u8n20_items(*old(v)),
        sv_u8n20_cap(*final(v)) == if sv_u8n20_cap(*old(v)) == 20 || sv_u8n20_items(*old(v)).len() <= 20 { 20 } else { sv_u8n20_items(*old(v)).len() },
{
    v.inner.shrink_to_fit()
}

/// `Hash::hash` into `state`: the items are fed to the hasher; what that
/// does to the hasher's state is not stated here (it writes the length in
/// the machine's byte order).
#[verifier::external_body]
pub(crate) fn small_vec_u8n20_hash(v: &SmallVecU8N20, state: &mut std::collections::hash_map::DefaultHasher)
{
    std::hash::Hash::hash(&v.inner, state)
}

/// The by-value iterator of `SmallVec<[u8; 20]>`.
#[verifier::external_body]
pub struct IntoIterSmallVecU8N20 {
    inner: smallvec::IntoIter<[u8; 20]>,
}

/// The items a by-value iterator has yet to yield, in order.
pub uninterp spec fn into_iter_u8n20_rest(it: IntoIterSmallVecU8N20) -> Seq<u8>;

/// `into_iter`: an iterator that will yield all items in order.
#[verifier::external_body]
pub(crate) fn small_vec_u8n20_into_iter(v: SmallVecU8N20) -> (r: IntoIterSmallVecU8N20)
    ensures
        into_iter_u8n20_rest(r) == sv_u8n20_items(v),
{
    IntoIterSmallVecU8N20 { inner: v.inner.into_iter() }
}

/// `IntoIter::next`: the next item, or `None` when none is left.
#[verifier::external_body]
pub(crate) fn into_iter_u8n20_next(it: &mut IntoIterSmallVecU8N20) -> (r: Option<u8>)
    ensures
        into_iter_u8n20_rest(*old(it)).len() == 0 ==> r is None && into_iter_u8n20_rest(*final(it))
            == into_iter_u8n20_rest(*old(it)),
        into_iter_u8n20_rest(*old(it)).len() > 0 ==> r == Some(into_iter_u8n20_rest(*old(it))[0])
            && into_iter_u8n20_rest(*final(it)) == into_iter_u8n20_rest(*old(it)).drop_first(),
{
    it.inner.next()
}

} // verus!

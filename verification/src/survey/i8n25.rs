//! `SmallVec<[i8; 25]>` of the outside crate, behind trusted wrappers.
//!
//! The outside type is held in a private field: Verus sees a value of it only
//! through two names, the items it holds and the capacity it records. Each
//! wrapper states, over those names, what the crate's source does.
use vstd::prelude::*;
use crate::small_vec::{dedup_seq, exact_growth_overflows, exact_grown, growth_overflows, grown, lex_order, repeat, Order};

verus! {

/// A small vector of `i8` with room for 25 items inline.
#[verifier::external_body]
pub struct SmallVecI8N25 {
    inner: smallvec::SmallVec<[i8; 25]>,
}

/// The items a `SmallVec<[i8; 25]>` holds, in order.
pub uninterp spec fn sv_i8n25_items(v: SmallVecI8N25) -> Seq<i8>;

/// The capacity a `SmallVec<[i8; 25]>` records (25 while it is inline).
pub uninterp spec fn sv_i8n25_cap(v: SmallVecI8N25) -> nat;

impl View for SmallVecI8N25 {
    type V = Seq<i8>;

    open spec fn view(&self) -> Seq<i8> {
        sv_i8n25_items(*self)
    }
}

impl SmallVecI8N25 {
    /// The capacity that `capacity()` reports.
    pub open spec fn cap(self) -> nat {
        sv_i8n25_cap(self)
    }

    /// What every vector of this type satisfies: it holds at most its
    /// capacity, is never smaller than its inline size, and a heap buffer
    /// never exceeds `isize::MAX` bytes.
    pub open spec fn wf(self) -> bool {
        &&& self@.len() <= self.cap()
        &&& self.cap() >= 25
        &&& self.cap() * vstd::layout::size_of::<i8>() <= isize::MAX || self.cap() == 25
    }
}

/// `From<&[T]>`: copies of the items of `slice`, collected into a new vector
/// that reserves room for all of them.
#[verifier::external_body]
pub(crate) fn small_vec_i8n25_from_ref_slice(slice: &[i8]) -> (r: SmallVecI8N25)
    requires
        !growth_overflows(0, 25, slice@.len(), vstd::layout::size_of::<i8>()),
    ensures
        r.wf(),
        sv_i8n25_items(r) == slice@,
        sv_i8n25_cap(r) == grown(0, 25, slice@.len()),
{
    SmallVecI8N25 { inner: std::convert::From::from(slice) }
}

/// `as_slice`: the items.
#[verifier::external_body]
pub(crate) fn small_vec_i8n25_as_slice(v: &SmallVecI8N25) -> (r: &[i8])
    ensures
        r@ == sv_i8n25_items(*v),
{
    v.inner.as_slice()
}

/// `len`: the number of items.
#[verifier::external_body]
pub(crate) fn small_vec_i8n25_len(v: &SmallVecI8N25) -> (r: usize)
    ensures
        r == sv_i8n25_items(*v).len(),
{
    v.inner.len()
}

/// `insert_from_slice`: the items of `slice` placed at `index`, later items
/// shifted right, after reserving room for them; it panics when
/// `index > len`.
#[verifier::external_body]
pub(crate) fn small_vec_i8n25_insert_from_slice(v: &mut SmallVecI8N25, index: usize, slice: &[i8])
    requires
        old(v).wf(),
        index <= sv_i8n25_items(*old(v)).len(),
        !growth_overflows(sv_i8n25_items(*old(v)).len(), sv_i8n25_cap(*old(v)), slice@.len(), vstd::layout::size_of::<i8>()),
    ensures
        final(v).wf(),
        sv_i8n25_items(*final(v)) == sv_i8n25_items(*old(v)).take(index as int) + slice@ + sv_i8n25_items(*old(v)).skip(index as int),
        sv_i8n25_cap(*final(v)) == grown(sv_i8n25_items(*old(v)).len(), sv_i8n25_cap(*old(v)), slice@.len()),
{
    v.inner.insert_from_slice(index, slice)
}

/// `as_mut_ptr`: the address of the buffer, as an integer (nothing is stated
/// of it); the vector is left as it was.
#[verifier::external_body]
pub(crate) fn small_vec_i8n25_as_mut_ptr(v: &mut SmallVecI8N25) -> (r: usize)
    ensures
        sv_i8n25_items(*final(v)) == sv_i8n25_items(*old(v)),
        sv_i8n25_cap(*final(v)) == sv_i8n25_cap(*old(v)),
{
    v.inner.as_mut_ptr() as usize
}

/// `SmallVec::new`: empty and inline.
#[verifier::external_body]
pub(crate) fn small_vec_i8n25_new() -> (r: SmallVecI8N25)
    ensures
        r.wf(),
        sv_i8n25_items(r) == Seq::<i8>::empty(),
        sv_i8n25_cap(r) == 25,
{
    SmallVecI8N25 { inner: smallvec::SmallVec::new() }
}

/// `push`: `value` appended; a full vector first grows by amortised doubling,
/// whose size computation must not overflow.
#[verifier::external_body]
pub(crate) fn small_vec_i8n25_push(v: &mut SmallVecI8N25, value: i8)
    requires
        old(v).wf(),
        !growth_overflows(sv_i8n25_items(*old(v)).len(), sv_i8n25_cap(*old(v)), 1, vstd::layout::size_of::<i8>()),
    ensures
        final(v).wf(),
        sv_i8n25_items(*final(v)) == sv_i8n25_items(*old(v)).push(value),
        sv_i8n25_cap(*final(v)) == grown(sv_i8n25_items(*old(v)).len(), sv_i8n25_cap(*old(v)), 1),
{
    v.inner.push(value)
}

/// `clear`: no items left; the capacity stays.
#[verifier::external_body]
pub(crate) fn small_vec_i8n25_clear(v: &mut SmallVecI8N25)
    requires
        old(v).wf(),
    ensures
        final(v).wf(),
        sv_i8n25_items(*final(v)) == Seq::<i8>::empty(),
        sv_i8n25_cap(*final(v)) == sv_i8n25_cap(*old(v)),
{
    v.inner.clear()
}

/// `Clone`: copies of the items, collected into a new vector that reserves
/// room for all of them.
#[verifier::external_body]
pub(crate) fn small_vec_i8n25_clone(v: &SmallVecI8N25) -> (r: SmallVecI8N25)
    requires
        !growth_overflows(0, 25, sv_i8n25_items(*v).len(), vstd::layout::size_of::<i8>()),
    ensures
        r.wf(),
        sv_i8n25_items(r) == sv_i8n25_items(*v),
        sv_i8n25_cap(r) == grown(0, 25, sv_i8n25_items(*v).len()),
{
    SmallVecI8N25 { inner: v.inner.clone() }
}

/// `into_vec`: the items, as a `Vec`.
#[verifier::external_body]
pub(crate) fn small_vec_i8n25_into_vec(v: SmallVecI8N25) -> (r: Vec<i8>)
    ensures
        r@ == sv_i8n25_items(v),
{
    v.inner.into_vec()
}

} // verus!

//! `SmallVec<[isize; 11]>` of the outside crate, behind trusted wrappers.
//!
//! The outside type is held in a private field: Verus sees a value of it only
//! through two names, the items it holds and the capacity it records. Each
//! wrapper states, over those names, what the crate's source does.
use vstd::prelude::*;
use crate::small_vec::{dedup_seq, exact_growth_overflows, exact_grown, growth_overflows, grown, lex_order, repeat, Order};
use crate::bytes::mixed_i64;

verus! {

/// A small vector of `isize` with room for 11 items inline.
#[verifier::external_body]
pub struct SmallVecIsizeN11 {
    inner: smallvec::SmallVec<[isize; 11]>,
}

/// The items a `SmallVec<[isize; 11]>` holds, in order.
pub uninterp spec fn sv_isizen11_items(v: SmallVecIsizeN11) -> Seq<isize>;

/// The capacity a `SmallVec<[isize; 11]>` records (11 while it is inline).
pub uninterp spec fn sv_isizen11_cap(v: SmallVecIsizeN11) -> nat;

impl View for SmallVecIsizeN11 {
    type V = Seq<isize>;

    open spec fn view(&self) -> Seq<isize> {
        sv_isizen11_items(*self)
    }
}

impl SmallVecIsizeN11 {
    /// The capacity that `capacity()` reports.
    pub open spec fn cap(self) -> nat {
        sv_isizen11_cap(self)
    }

    /// What every vector of this type satisfies: it holds at most its
    /// capacity, is never smaller than its inline size, and a heap buffer
    /// never exceeds `isize::MAX` bytes.
    pub open spec fn wf(self) -> bool {
        &&& self@.len() <= self.cap()
        &&& self.cap() >= 11
        &&& self.cap() * vstd::layout::size_of::<isize>() <= isize::MAX || self.cap() == 11
    }
}

/// `SmallVec::new`: empty and inline.
#[verifier::external_body]
pub(crate) fn small_vec_isizen11_new() -> (r: SmallVecIsizeN11)
    ensures
        r.wf(),
        sv_isizen11_items(r) == Seq::<isize>::empty(),
        sv_isizen11_cap(r) == 11,
{
    SmallVecIsizeN11 { inner: smallvec::SmallVec::new() }
}

/// `len`: the number of items.
#[verifier::external_body]
pub(crate) fn small_vec_isizen11_len(v: &SmallVecIsizeN11) -> (r: usize)
    ensures
        r == sv_isizen11_items(*v).len(),
{
    v.inner.len()
}

/// `capacity`: the recorded capacity.
#[verifier::external_body]
pub(crate) fn small_vec_isizen11_capacity(v: &SmallVecIsizeN11) -> (r: usize)
    ensures
        r == sv_isizen11_cap(*v),
{
    v.inner.capacity()
}

/// `push`: `value` appended; a full vector first grows by amortised doubling,
/// whose size computation must not overflow.
#[verifier::external_body]
pub(crate) fn small_vec_isizen11_push(v: &mut SmallVecIsizeN11, value: isize)
    requires
        old(v).wf(),
        !growth_overflows(sv_isizen11_items(*old(v)).len(), sv_isizen11_cap(*old(v)), 1, vstd::layout::size_of::<isize>()),
    ensures
        final(v).wf(),
        sv_isizen11_items(*final(v)) == sv_isizen11_items(*old(v)).push(value),
        sv_isizen11_cap(*final(v)) == grown(sv_isizen11_items(*old(v)).len(), sv_isizen11_cap(*old(v)), 1),
{
    v.inner.push(value)
}

/// `reserve`: room for `additional` more items by amortised doubling; the
/// size computation must not overflow.
#[verifier::external_body]
pub(crate) fn small_vec_isizen11_reserve(v: &mut SmallVecIsizeN11, additional: usize)
    requires
        old(v).wf(),
        !growth_overflows(sv_isizen11_items(*old(v)).len(), sv_isizen11_cap(*old(v)), additional as nat, vstd::layout::size_of::<isize>()),
    ensures
        final(v).wf(),
        sv_isizen11_items(*final(v)) == sv_isizen11_items(*old(v)),
        sv_isizen11_cap(*final(v)) == grown(sv_isizen11_items(*old(v)).len(), sv_isizen11_cap(*old(v)), additional as nat),
{
    v.inner.reserve(additional)
}

/// `resize_with`, each new item made by reading the value at `at` of `g`:
/// truncated to `len`, or extended to `len` after reserving room for the
/// new items.
#[verifier::external_body]
pub(crate) fn small_vec_isizen11_resize_with_read(v: &mut SmallVecIsizeN11, len: usize, g: &[u8], at: usize)
    requires
        old(v).wf(),
        len > sv_isizen11_items(*old(v)).len() ==> !growth_overflows(sv_isizen11_items(*old(v)).len(), sv_isizen11_cap(*old(v)), (len - sv_isizen11_items(*old(v)).len()) as nat, vstd::layout::size_of::<isize>()),
        len > sv_isizen11_items(*old(v)).len() ==> at + 8 <= g@.len(),
    ensures
        final(v).wf(),
        len <= sv_isizen11_items(*old(v)).len() ==> sv_isizen11_items(*final(v)) == sv_isizen11_items(*old(v)).take(len as int) && sv_isizen11_cap(*final(v)) == sv_isizen11_cap(*old(v)),
        len > sv_isizen11_items(*old(v)).len() ==> sv_isizen11_items(*final(v)) == sv_isizen11_items(*old(v)) + repeat((mixed_i64(g@, at as int) as isize), (len - sv_isizen11_items(*old(v)).len()) as nat)
            && sv_isizen11_cap(*final(v)) == grown(sv_isizen11_items(*old(v)).len(), sv_isizen11_cap(*old(v)), (len - sv_isizen11_items(*old(v)).len()) as nat),
{
    v.inner.resize_with(len, || crate::bytes::_to_isize(g, at))
}

/// `clear`: no items left; the capacity stays.
#[verifier::external_body]
pub(crate) fn small_vec_isizen11_clear(v: &mut SmallVecIsizeN11)
    requires
        old(v).wf(),
    ensures
        final(v).wf(),
        sv_isizen11_items(*final(v)) == Seq::<isize>::empty(),
        sv_isizen11_cap(*final(v)) == sv_isizen11_cap(*old(v)),
{
    v.inner.clear()
}

} // verus!

//! `SmallVec<[isize; 15]>` of the outside crate, behind trusted wrappers.
//!
//! The outside type is held in a private field: Verus sees a value of it only
//! through two names, the items it holds and the capacity it records. Each
//! wrapper states, over those names, what the crate's source does.
use vstd::prelude::*;
use crate::small_vec::{dedup_seq, exact_growth_overflows, exact_grown, growth_overflows, grown, lex_order, repeat, Order};

verus! {

/// A small vector of `isize` with room for 15 items inline.
#[verifier::external_body]
pub struct SmallVecIsizeN15 {
    inner: smallvec::SmallVec<[isize; 15]>,
}

/// The items a `SmallVec<[isize; 15]>` holds, in order.
pub uninterp spec fn sv_isizen15_items(v: SmallVecIsizeN15) -> Seq<isize>;

/// The capacity a `SmallVec<[isize; 15]>` records (15 while it is inline).
pub uninterp spec fn sv_isizen15_cap(v: SmallVecIsizeN15) -> nat;

impl View for SmallVecIsizeN15 {
    type V = Seq<isize>;

    open spec fn view(&self) -> Seq<isize> {
        sv_isizen15_items(*self)
    }
}

impl SmallVecIsizeN15 {
    /// The capacity that `capacity()` reports.
    pub open spec fn cap(self) -> nat {
        sv_isizen15_cap(self)
    }

    /// What every vector of this type satisfies: it holds at most its
    /// capacity, is never smaller than its inline size, and a heap buffer
    /// never exceeds `isize::MAX` bytes.
    pub open spec fn wf(self) -> bool {
        &&& self@.len() <= self.cap()
        &&& self.cap() >= 15
        &&& self.cap() * vstd::layout::size_of::<isize>() <= isize::MAX || self.cap() == 15
    }
}

/// `SmallVec::with_capacity`: empty, with room for `n` items (inline when
/// `n <= 15`); the size computation must not overflow.
#[verifier::external_body]
pub(crate) fn small_vec_isizen15_with_capacity(n: usize) -> (r: SmallVecIsizeN15)
    requires
        !exact_growth_overflows(0, 15, n as nat, vstd::layout::size_of::<isize>()),
    ensures
        r.wf(),
        sv_isizen15_items(r) == Seq::<isize>::empty(),
        sv_isizen15_cap(r) == if n <= 15 { 15 } else { n as nat },
{
    SmallVecIsizeN15 { inner: smallvec::SmallVec::with_capacity(n) }
}

/// `push`: `value` appended; a full vector first grows by amortised doubling,
/// whose size computation must not overflow.
#[verifier::external_body]
pub(crate) fn small_vec_isizen15_push(v: &mut SmallVecIsizeN15, value: isize)
    requires
        old(v).wf(),
        !growth_overflows(sv_isizen15_items(*old(v)).len(), sv_isizen15_cap(*old(v)), 1, vstd::layout::size_of::<isize>()),
    ensures
        final(v).wf(),
        sv_isizen15_items(*final(v)) == sv_isizen15_items(*old(v)).push(value),
        sv_isizen15_cap(*final(v)) == grown(sv_isizen15_items(*old(v)).len(), sv_isizen15_cap(*old(v)), 1),
{
    v.inner.push(value)
}

/// `reserve`: room for `additional` more items by amortised doubling; the
/// size computation must not overflow.
#[verifier::external_body]
pub(crate) fn small_vec_isizen15_reserve(v: &mut SmallVecIsizeN15, additional: usize)
    requires
        old(v).wf(),
        !growth_overflows(sv_isizen15_items(*old(v)).len(), sv_isizen15_cap(*old(v)), additional as nat, vstd::layout::size_of::<isize>()),
    ensures
        final(v).wf(),
        sv_isizen15_items(*final(v)) == sv_isizen15_items(*old(v)),
        sv_isizen15_cap(*final(v)) == grown(sv_isizen15_items(*old(v)).len(), sv_isizen15_cap(*old(v)), additional as nat),
{
    v.inner.reserve(additional)
}

/// `try_reserve`: as `reserve`, reporting failure instead of panicking. It
/// fails whenever the size computation overflows; otherwise it may still fail
/// when the allocator refuses, which nothing here states. A failure leaves the
/// vector as it was.
#[verifier::external_body]
pub(crate) fn small_vec_isizen15_try_reserve(v: &mut SmallVecIsizeN15, additional: usize) -> (r: Result<(), smallvec::CollectionAllocErr>)
    requires
        old(v).wf(),
    ensures
        final(v).wf(),
        sv_isizen15_items(*final(v)) == sv_isizen15_items(*old(v)),
        growth_overflows(sv_isizen15_items(*old(v)).len(), sv_isizen15_cap(*old(v)), additional as nat, vstd::layout::size_of::<isize>()) ==> r is Err,
        sv_isizen15_cap(*old(v)) - sv_isizen15_items(*old(v)).len() >= additional ==> r is Ok,
        r is Ok ==> sv_isizen15_cap(*final(v)) == grown(sv_isizen15_items(*old(v)).len(), sv_isizen15_cap(*old(v)), additional as nat),
        r is Err ==> sv_isizen15_cap(*final(v)) == sv_isizen15_cap(*old(v)),
{
    v.inner.try_reserve(additional)
}

/// `reserve_exact`: room for exactly `additional` more items when there is
/// not enough; the size computation must not overflow.
#[verifier::external_body]
pub(crate) fn small_vec_isizen15_reserve_exact(v: &mut SmallVecIsizeN15, additional: usize)
    requires
        old(v).wf(),
        !exact_growth_overflows(sv_isizen15_items(*old(v)).len(), sv_isizen15_cap(*old(v)), additional as nat, vstd::layout::size_of::<isize>()),
    ensures
        final(v).wf(),
        sv_isizen15_items(*final(v)) == sv_isizen15_items(*old(v)),
        sv_isizen15_cap(*final(v)) == exact_grown(sv_isizen15_items(*old(v)).len(), sv_isizen15_cap(*old(v)), additional as nat),
{
    v.inner.reserve_exact(additional)
}

/// `Deref`: the items.
#[verifier::external_body]
pub(crate) fn small_vec_isizen15_deref(v: &SmallVecIsizeN15) -> (r: &[isize])
    ensures
        r@ == sv_isizen15_items(*v),
{
    std::ops::Deref::deref(&v.inner)
}

/// `len`: the number of items.
#[verifier::external_body]
pub(crate) fn small_vec_isizen15_len(v: &SmallVecIsizeN15) -> (r: usize)
    ensures
        r == sv_isizen15_items(*v).len(),
{
    v.inner.len()
}

/// `capacity`: the recorded capacity.
#[verifier::external_body]
pub(crate) fn small_vec_isizen15_capacity(v: &SmallVecIsizeN15) -> (r: usize)
    ensures
        r == sv_isizen15_cap(*v),
{
    v.inner.capacity()
}

} // verus!

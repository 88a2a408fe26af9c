//! `SmallVec<[isize; 30]>` of the outside crate, behind trusted wrappers.
//!
//! The outside type is held in a private field: Verus sees a value of it only
//! through two names, the items it holds and the capacity it records. Each
//! wrapper states, over those names, what the crate's source does.
use vstd::prelude::*;
use crate::small_vec::{dedup_seq, exact_growth_overflows, exact_grown, growth_overflows, grown, lex_order, repeat, Order};

verus! {

/// A small vector of `isize` with room for 30 items inline.
#[verifier::external_body]
pub struct SmallVecIsizeN30 {
    inner: smallvec::SmallVec<[isize; 30]>,
}

/// The items a `SmallVec<[isize; 30]>` holds, in order.
pub uninterp spec fn sv_isizen30_items(v: SmallVecIsizeN30) -> Seq<isize>;

/// The capacity a `SmallVec<[isize; 30]>` records (30 while it is inline).
pub uninterp spec fn sv_isizen30_cap(v: SmallVecIsizeN30) -> nat;

impl View for SmallVecIsizeN30 {
    type V = Seq<isize>;

    open spec fn view(&self) -> Seq<isize> {
        sv_isizen30_items(*self)
    }
}

impl SmallVecIsizeN30 {
    /// The capacity that `capacity()` reports.
    pub open spec fn cap(self) -> nat {
        sv_isizen30_cap(self)
    }

    /// What every vector of this type satisfies: it holds at most its
    /// capacity, is never smaller than its inline size, and a heap buffer
    /// never exceeds `isize::MAX` bytes.
    pub open spec fn wf(self) -> bool {
        &&& self@.len() <= self.cap()
        &&& self.cap() >= 30
        &&& self.cap() * vstd::layout::size_of::<isize>() <= isize::MAX || self.cap() == 30
    }
}

/// `SmallVec::new`: empty and inline.
#[verifier::external_body]
pub(crate) fn small_vec_isizen30_new() -> (r: SmallVecIsizeN30)
    ensures
        r.wf(),
        sv_isizen30_items(r) == Seq::<isize>::empty(),
        sv_isizen30_cap(r) == 30,
{
    SmallVecIsizeN30 { inner: smallvec::SmallVec::new() }
}

/// `len`: the number of items.
#[verifier::external_body]
pub(crate) fn small_vec_isizen30_len(v: &SmallVecIsizeN30) -> (r: usize)
    ensures
        r == sv_isizen30_items(*v).len(),
{
    v.inner.len()
}

/// `capacity`: the recorded capacity.
#[verifier::external_body]
pub(crate) fn small_vec_isizen30_capacity(v: &SmallVecIsizeN30) -> (r: usize)
    ensures
        r == sv_isizen30_cap(*v),
{
    v.inner.capacity()
}

/// `reserve_exact`: room for exactly `additional` more items when there is
/// not enough; the size computation must not overflow.
#[verifier::external_body]
pub(crate) fn small_vec_isizen30_reserve_exact(v: &mut SmallVecIsizeN30, additional: usize)
    requires
        old(v).wf(),
        !exact_growth_overflows(sv_isizen30_items(*old(v)).len(), sv_isizen30_cap(*old(v)), additional as nat, vstd::layout::size_of::<isize>()),
    ensures
        final(v).wf(),
        sv_isizen30_items(*final(v)) == sv_isizen30_items(*old(v)),
        sv_isizen30_cap(*final(v)) == exact_grown(sv_isizen30_items(*old(v)).len(), sv_isizen30_cap(*old(v)), additional as nat),
{
    v.inner.reserve_exact(additional)
}

/// `push`: `value` appended; a full vector first grows by amortised doubling,
/// whose size computation must not overflow.
#[verifier::external_body]
pub(crate) fn small_vec_isizen30_push(v: &mut SmallVecIsizeN30, value: isize)
    requires
        old(v).wf(),
        !growth_overflows(sv_isizen30_items(*old(v)).len(), sv_isizen30_cap(*old(v)), 1, vstd::layout::size_of::<isize>()),
    ensures
        final(v).wf(),
        sv_isizen30_items(*final(v)) == sv_isizen30_items(*old(v)).push(value),
        sv_isizen30_cap(*final(v)) == grown(sv_isizen30_items(*old(v)).len(), sv_isizen30_cap(*old(v)), 1),
{
    v.inner.push(value)
}

/// `into_inner`: the array of items where the vector is inline and full,
/// else the vector back.
#[verifier::external_body]
pub(crate) fn small_vec_isizen30_into_inner(v: SmallVecIsizeN30) -> (r: Result<[isize; 30], SmallVecIsizeN30>)
    ensures
        r is Ok <==> (sv_isizen30_cap(v) <= 30 && sv_isizen30_items(v).len() == 30),
        r matches Ok(a) ==> a@ == sv_isizen30_items(v),
{
    match v.inner.into_inner() {
        Ok(a) => Ok(a),
        Err(inner) => Err(SmallVecIsizeN30 { inner }),
    }
}

} // verus!

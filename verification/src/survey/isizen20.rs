//! `SmallVec<[isize; 20]>` of the outside crate, behind trusted wrappers.
//!
//! The outside type is held in a private field: Verus sees a value of it only
//! through two names, the items it holds and the capacity it records. Each
//! wrapper states, over those names, what the crate's source does.
use vstd::prelude::*;
use crate::small_vec::{dedup_seq, exact_growth_overflows, exact_grown, growth_overflows, grown, lex_order, repeat, Order};

verus! {

/// A small vector of `isize` with room for 20 items inline.
#[verifier::external_body]
pub struct SmallVecIsizeN20 {
    inner: smallvec::SmallVec<[isize; 20]>,
}

/// The items a `SmallVec<[isize; 20]>` holds, in order.
pub uninterp spec fn sv_isizen20_items(v: SmallVecIsizeN20) -> Seq<isize>;

/// The capacity a `SmallVec<[isize; 20]>` records (20 while it is inline).
pub uninterp spec fn sv_isizen20_cap(v: SmallVecIsizeN20) -> nat;

impl View for SmallVecIsizeN20 {
    type V = Seq<isize>;

    open spec fn view(&self) -> Seq<isize> {
        sv_isizen20_items(*self)
    }
}

impl SmallVecIsizeN20 {
    /// The capacity that `capacity()` reports.
    pub open spec fn cap(self) -> nat {
        sv_isizen20_cap(self)
    }

    /// What every vector of this type satisfies: it holds at most its
    /// capacity, is never smaller than its inline size, and a heap buffer
    /// never exceeds `isize::MAX` bytes.
    pub open spec fn wf(self) -> bool {
        &&& self@.len() <= self.cap()
        &&& self.cap() >= 20
        &&& self.cap() * vstd::layout::size_of::<isize>() <= isize::MAX || self.cap() == 20
    }
}

/// `SmallVec::with_capacity`: empty, with room for `n` items (inline when
/// `n <= 20`); the size computation must not overflow.
#[verifier::external_body]
pub(crate) fn small_vec_isizen20_with_capacity(n: usize) -> (r: SmallVecIsizeN20)
    requires
        !exact_growth_overflows(0, 20, n as nat, vstd::layout::size_of::<isize>()),
    ensures
        r.wf(),
        sv_isizen20_items(r) == Seq::<isize>::empty(),
        sv_isizen20_cap(r) == if n <= 20 { 20 } else { n as nat },
{
    SmallVecIsizeN20 { inner: smallvec::SmallVec::with_capacity(n) }
}

/// `push`: `value` appended; a full vector first grows by amortised doubling,
/// whose size computation must not overflow.
#[verifier::external_body]
pub(crate) fn small_vec_isizen20_push(v: &mut SmallVecIsizeN20, value: isize)
    requires
        old(v).wf(),
        !growth_overflows(sv_isizen20_items(*old(v)).len(), sv_isizen20_cap(*old(v)), 1, vstd::layout::size_of::<isize>()),
    ensures
        final(v).wf(),
        sv_isizen20_items(*final(v)) == sv_isizen20_items(*old(v)).push(value),
        sv_isizen20_cap(*final(v)) == grown(sv_isizen20_items(*old(v)).len(), sv_isizen20_cap(*old(v)), 1),
{
    v.inner.push(value)
}

/// `len`: the number of items.
#[verifier::external_body]
pub(crate) fn small_vec_isizen20_len(v: &SmallVecIsizeN20) -> (r: usize)
    ensures
        r == sv_isizen20_items(*v).len(),
{
    v.inner.len()
}

/// `as_slice`: the items.
#[verifier::external_body]
pub(crate) fn small_vec_isizen20_as_slice(v: &SmallVecIsizeN20) -> (r: &[isize])
    ensures
        r@ == sv_isizen20_items(*v),
{
    v.inner.as_slice()
}

/// `grow`: the capacity set to `new_cap`, or back to inline when
/// `new_cap <= 20`; it panics when `new_cap < len` or when the size
/// computation overflows.
#[verifier::external_body]
pub(crate) fn small_vec_isizen20_grow(v: &mut SmallVecIsizeN20, new_cap: usize)
    requires
        old(v).wf(),
        new_cap >= sv_isizen20_items(*old(v)).len(),
        new_cap <= 20 || new_cap * vstd::layout::size_of::<isize>() <= isize::MAX,
    ensures
        final(v).wf(),
        sv_isizen20_items(*final(v)) == sv_isizen20_items(*old(v)),
        sv_isizen20_cap(*final(v)) == if new_cap <= 20 { 20 } else { new_cap as nat },
{
    v.inner.grow(new_cap)
}

/// `Hash::hash` into `state`: the items are fed to the hasher; what that
/// does to the hasher's state is not stated here (it writes the length in
/// the machine's byte order).
#[verifier::external_body]
pub(crate) fn small_vec_isizen20_hash(v: &SmallVecIsizeN20, state: &mut std::collections::hash_map::DefaultHasher)
{
    std::hash::Hash::hash(&v.inner, state)
}

} // verus!

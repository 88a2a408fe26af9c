//! `SmallVec<[u16; 32]>` of the outside crate, behind trusted wrappers.
//!
//! The outside type is held in a private field: Verus sees a value of it only
//! through two names, the items it holds and the capacity it records. Each
//! wrapper states, over those names, what the crate's source does.
use vstd::prelude::*;
use crate::small_vec::{dedup_seq, exact_growth_overflows, exact_grown, growth_overflows, grown, lex_order, repeat, Order};

verus! {

/// A small vector of `u16` with room for 32 items inline.
#[verifier::external_body]
pub struct SmallVecU16N32 {
    inner: smallvec::SmallVec<[u16; 32]>,
}

/// The items a `SmallVec<[u16; 32]>` holds, in order.
pub uninterp spec fn sv_u16n32_items(v: SmallVecU16N32) -> Seq<u16>;

/// The capacity a `SmallVec<[u16; 32]>` records (32 while it is inline).
pub uninterp spec fn sv_u16n32_cap(v: SmallVecU16N32) -> nat;

impl View for SmallVecU16N32 {
    type V = Seq<u16>;

    open spec fn view(&self) -> Seq<u16> {
        sv_u16n32_items(*self)
    }
}

impl SmallVecU16N32 {
    /// The capacity that `capacity()` reports.
    pub open spec fn cap(self) -> nat {
        sv_u16n32_cap(self)
    }

    /// What every vector of this type satisfies: it holds at most its
    /// capacity, is never smaller than its inline size, and a heap buffer
    /// never exceeds `isize::MAX` bytes.
    pub open spec fn wf(self) -> bool {
        &&& self@.len() <= self.cap()
        &&& self.cap() >= 32
        &&& self.cap() * vstd::layout::size_of::<u16>() <= isize::MAX || self.cap() == 32
    }
}

/// `SmallVec::from_elem`: `n` copies of `elem`; inline when `n <= 32`, else
/// through `vec![elem; n]`, whose size computation must not overflow.
#[verifier::external_body]
pub(crate) fn small_vec_u16n32_from_elem(elem: u16, n: usize) -> (r: SmallVecU16N32)
    requires
        n <= 32 || n * vstd::layout::size_of::<u16>() <= isize::MAX,
    ensures
        r.wf(),
        sv_u16n32_items(r) == repeat(elem, n as nat),
        n <= 32 ==> sv_u16n32_cap(r) == 32,
{
    SmallVecU16N32 { inner: smallvec::SmallVec::from_elem(elem, n) }
}

/// `as_slice`: the items.
#[verifier::external_body]
pub(crate) fn small_vec_u16n32_as_slice(v: &SmallVecU16N32) -> (r: &[u16])
    ensures
        r@ == sv_u16n32_items(*v),
{
    v.inner.as_slice()
}

/// `retain` with the test of `keeps_u16`: the items it keeps, in order; the
/// capacity stays.
#[verifier::external_body]
pub(crate) fn small_vec_u16n32_retain_by(v: &mut SmallVecU16N32, large: bool)
    requires
        old(v).wf(),
    ensures
        final(v).wf(),
        sv_u16n32_items(*final(v)) == sv_u16n32_items(*old(v)).filter(|x: u16| if large { x > 100 } else { x < 30000 }),
        sv_u16n32_cap(*final(v)) == sv_u16n32_cap(*old(v)),
{
    v.inner.retain(|x: &mut u16| crate::survey::keeps_u16(large, *x))
}

/// `dedup`: every item equal to the one before it removed; the capacity
/// stays.
#[verifier::external_body]
pub(crate) fn small_vec_u16n32_dedup(v: &mut SmallVecU16N32)
    requires
        old(v).wf(),
    ensures
        final(v).wf(),
        sv_u16n32_items(*final(v)) == dedup_seq(sv_u16n32_items(*old(v))),
        sv_u16n32_cap(*final(v)) == sv_u16n32_cap(*old(v)),
{
    v.inner.dedup()
}

/// `ToSmallVec::to_smallvec` on a slice: a copy of it, as `from_slice` makes;
/// inline when it has at most 32 items, else in a heap buffer whose
/// capacity nothing here states.
#[verifier::external_body]
pub(crate) fn small_vec_u16n32_to_small_vec(slice: &[u16]) -> (r: SmallVecU16N32)
    ensures
        r.wf(),
        sv_u16n32_items(r) == slice@,
        slice@.len() <= 32 ==> sv_u16n32_cap(r) == 32,
{
    SmallVecU16N32 { inner: smallvec::ToSmallVec::to_smallvec(slice) }
}

/// `Borrow<[T]>`: the items.
#[verifier::external_body]
pub(crate) fn small_vec_u16n32_borrow(v: &SmallVecU16N32) -> (r: &[u16])
    ensures
        r@ == sv_u16n32_items(*v),
{
    std::borrow::Borrow::<[u16]>::borrow(&v.inner)
}

/// `as_ptr`: the address of the buffer, as an integer (nothing is stated of
/// it).
#[verifier::external_body]
pub(crate) fn small_vec_u16n32_as_ptr(v: &SmallVecU16N32) -> (r: usize)
{
    v.inner.as_ptr() as usize
}

/// `spilled`: whether the items live in a heap buffer, that is, whether the
/// capacity exceeds the inline size.
#[verifier::external_body]
pub(crate) fn small_vec_u16n32_spilled(v: &SmallVecU16N32) -> (r: bool)
    ensures
        r == (sv_u16n32_cap(*v) > 32),
{
    v.inner.spilled()
}

/// `into_vec`: the items, as a `Vec`.
#[verifier::external_body]
pub(crate) fn small_vec_u16n32_into_vec(v: SmallVecU16N32) -> (r: Vec<u16>)
    ensures
        r@ == sv_u16n32_items(v),
{
    v.inner.into_vec()
}

} // verus!

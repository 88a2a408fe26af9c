//! `SmallVec<[u64; 12]>` of the outside crate, behind trusted wrappers.
//!
//! The outside type is held in a private field: Verus sees a value of it only
//! through two names, the items it holds and the capacity it records. Each
//! wrapper states, over those names, what the crate's source does.
use vstd::prelude::*;
use crate::small_vec::{dedup_seq, exact_growth_overflows, exact_grown, growth_overflows, grown, lex_order, repeat, Order};

verus! {

/// A small vector of `u64` with room for 12 items inline.
#[verifier::external_body]
pub struct SmallVecU64N12 {
    inner: smallvec::SmallVec<[u64; 12]>,
}

/// The items a `SmallVec<[u64; 12]>` holds, in order.
pub uninterp spec fn sv_u64n12_items(v: SmallVecU64N12) -> Seq<u64>;

/// The capacity a `SmallVec<[u64; 12]>` records (12 while it is inline).
pub uninterp spec fn sv_u64n12_cap(v: SmallVecU64N12) -> nat;

impl View for SmallVecU64N12 {
    type V = Seq<u64>;

    open spec fn view(&self) -> Seq<u64> {
        sv_u64n12_items(*self)
    }
}

/// The items of `s` as integers.
pub open spec fn u64_ints(s: Seq<u64>) -> Seq<int> {
    s.map_values(|x: u64| x as int)
}

impl SmallVecU64N12 {
    /// The capacity that `capacity()` reports.
    pub open spec fn cap(self) -> nat {
        sv_u64n12_cap(self)
    }

    /// What every vector of this type satisfies: it holds at most its
    /// capacity, is never smaller than its inline size, and a heap buffer
    /// never exceeds `isize::MAX` bytes.
    pub open spec fn wf(self) -> bool {
        &&& self@.len() <= self.cap()
        &&& self.cap() >= 12
        &&& self.cap() * vstd::layout::size_of::<u64>() <= isize::MAX || self.cap() == 12
    }
}

/// `SmallVec::from_elem`: `n` copies of `elem`; inline when `n <= 12`, else
/// through `vec![elem; n]`, whose size computation must not overflow.
#[verifier::external_body]
pub(crate) fn small_vec_u64n12_from_elem(elem: u64, n: usize) -> (r: SmallVecU64N12)
    requires
        n <= 12 || n * vstd::layout::size_of::<u64>() <= isize::MAX,
    ensures
        r.wf(),
        sv_u64n12_items(r) == repeat(elem, n as nat),
        n <= 12 ==> sv_u64n12_cap(r) == 12,
{
    SmallVecU64N12 { inner: smallvec::SmallVec::from_elem(elem, n) }
}

/// `capacity`: the recorded capacity.
#[verifier::external_body]
pub(crate) fn small_vec_u64n12_capacity(v: &SmallVecU64N12) -> (r: usize)
    ensures
        r == sv_u64n12_cap(*v),
{
    v.inner.capacity()
}

/// `shrink_to_fit`: a heap vector moves back inline when its items fit there,
/// else its buffer shrinks to its length.
#[verifier::external_body]
pub(crate) fn small_vec_u64n12_shrink_to_fit(v: &mut SmallVecU64N12)
    requires
        old(v).wf(),
    ensures
        final(v).wf(),
        sv_u64n12_items(*final(v)) == sv_u64n12_items(*old(v)),
        sv_u64n12_cap(*final(v)) == if sv_u64n12_cap(*old(v)) == 12 || sv_u64n12_items(*old(v)).len() <= 12 { 12 } else { sv_u64n12_items(*old(v)).len() },
{
    v.inner.shrink_to_fit()
}

/// `clear`: no items left; the capacity stays.
#[verifier::external_body]
pub(crate) fn small_vec_u64n12_clear(v: &mut SmallVecU64N12)
    requires
        old(v).wf(),
    ensures
        final(v).wf(),
        sv_u64n12_items(*final(v)) == Seq::<u64>::empty(),
        sv_u64n12_cap(*final(v)) == sv_u64n12_cap(*old(v)),
{
    v.inner.clear()
}

/// `len`: the number of items.
#[verifier::external_body]
pub(crate) fn small_vec_u64n12_len(v: &SmallVecU64N12) -> (r: usize)
    ensures
        r == sv_u64n12_items(*v).len(),
{
    v.inner.len()
}

/// `SmallVec::from_slice`: a copy of `slice`; inline when it has at most 12
/// items, else in a heap buffer whose capacity nothing here states.
#[verifier::external_body]
pub(crate) fn small_vec_u64n12_from_slice(slice: &[u64]) -> (r: SmallVecU64N12)
    ensures
        r.wf(),
        sv_u64n12_items(r) == slice@,
        slice@.len() <= 12 ==> sv_u64n12_cap(r) == 12,
{
    SmallVecU64N12 { inner: smallvec::SmallVec::from_slice(slice) }
}

/// `as_slice`: the items.
#[verifier::external_body]
pub(crate) fn small_vec_u64n12_as_slice(v: &SmallVecU64N12) -> (r: &[u64])
    ensures
        r@ == sv_u64n12_items(*v),
{
    v.inner.as_slice()
}

/// `Clone`: copies of the items, collected into a new vector that reserves
/// room for all of them.
#[verifier::external_body]
pub(crate) fn small_vec_u64n12_clone(v: &SmallVecU64N12) -> (r: SmallVecU64N12)
    requires
        !growth_overflows(0, 12, sv_u64n12_items(*v).len(), vstd::layout::size_of::<u64>()),
    ensures
        r.wf(),
        sv_u64n12_items(r) == sv_u64n12_items(*v),
        sv_u64n12_cap(r) == grown(0, 12, sv_u64n12_items(*v).len()),
{
    SmallVecU64N12 { inner: v.inner.clone() }
}

/// `Ord::cmp`: the lexicographic order of the items.
#[verifier::external_body]
pub(crate) fn small_vec_u64n12_compare(a: &SmallVecU64N12, b: &SmallVecU64N12) -> (r: Order)
    ensures
        r == lex_order(u64_ints(sv_u64n12_items(*a)), u64_ints(sv_u64n12_items(*b))),
{
    match std::cmp::Ord::cmp(&a.inner, &b.inner) {
        std::cmp::Ordering::Less => Order::Less,
        std::cmp::Ordering::Equal => Order::Equal,
        std::cmp::Ordering::Greater => Order::Greater,
    }
}

/// `as_ptr`: the address of the buffer, as an integer (nothing is stated of
/// it).
#[verifier::external_body]
pub(crate) fn small_vec_u64n12_as_ptr(v: &SmallVecU64N12) -> (r: usize)
{
    v.inner.as_ptr() as usize
}

} // verus!

//! `SmallVec<[i16; 16]>` of the outside crate, behind trusted wrappers.
//!
//! The outside type is held in a private field: Verus sees a value of it only
//! through two names, the items it holds and the capacity it records. Each
//! wrapper states, over those names, what the crate's source does.
use vstd::prelude::*;
use crate::small_vec::{dedup_seq, exact_growth_overflows, exact_grown, growth_overflows, grown, lex_order, repeat, Order};

verus! {

/// A small vector of `i16` with room for 16 items inline.
#[verifier::external_body]
pub struct SmallVecI16N16 {
    inner: smallvec::SmallVec<[i16; 16]>,
}

/// The items a `SmallVec<[i16; 16]>` holds, in order.
pub uninterp spec fn sv_i16n16_items(v: SmallVecI16N16) -> Seq<i16>;

/// The capacity a `SmallVec<[i16; 16]>` records (16 while it is inline).
pub uninterp spec fn sv_i16n16_cap(v: SmallVecI16N16) -> nat;

impl View for SmallVecI16N16 {
    type V = Seq<i16>;

    open spec fn view(&self) -> Seq<i16> {
        sv_i16n16_items(*self)
    }
}

/// The items of `s` as integers.
pub open spec fn i16_ints(s: Seq<i16>) -> Seq<int> {
    s.map_values(|x: i16| x as int)
}

impl SmallVecI16N16 {
    /// The capacity that `capacity()` reports.
    pub open spec fn cap(self) -> nat {
        sv_i16n16_cap(self)
    }

    /// What every vector of this type satisfies: it holds at most its
    /// capacity, is never smaller than its inline size, and a heap buffer
    /// never exceeds `isize::MAX` bytes.
    pub open spec fn wf(self) -> bool {
        &&& self@.len() <= self.cap()
        &&& self.cap() >= 16
        &&& self.cap() * vstd::layout::size_of::<i16>() <= isize::MAX || self.cap() == 16
    }
}

/// `From<[T; 16]>`, that is `from_buf`: all 16 items of `buf`, inline.
#[verifier::external_body]
pub(crate) fn small_vec_i16n16_from_buf(buf: [i16; 16]) -> (r: SmallVecI16N16)
    ensures
        r.wf(),
        sv_i16n16_items(r) == buf@,
        sv_i16n16_cap(r) == 16,
{
    SmallVecI16N16 { inner: std::convert::From::from(buf) }
}

/// `Deref`: the items.
#[verifier::external_body]
pub(crate) fn small_vec_i16n16_deref(v: &SmallVecI16N16) -> (r: &[i16])
    ensures
        r@ == sv_i16n16_items(*v),
{
    std::ops::Deref::deref(&v.inner)
}

/// `Clone`: copies of the items, collected into a new vector that reserves
/// room for all of them.
#[verifier::external_body]
pub(crate) fn small_vec_i16n16_clone(v: &SmallVecI16N16) -> (r: SmallVecI16N16)
    requires
        !growth_overflows(0, 16, sv_i16n16_items(*v).len(), vstd::layout::size_of::<i16>()),
    ensures
        r.wf(),
        sv_i16n16_items(r) == sv_i16n16_items(*v),
        sv_i16n16_cap(r) == grown(0, 16, sv_i16n16_items(*v).len()),
{
    SmallVecI16N16 { inner: v.inner.clone() }
}

/// `Ord::cmp`: the lexicographic order of the items.
#[verifier::external_body]
pub(crate) fn small_vec_i16n16_compare(a: &SmallVecI16N16, b: &SmallVecI16N16) -> (r: Order)
    ensures
        r == lex_order(i16_ints(sv_i16n16_items(*a)), i16_ints(sv_i16n16_items(*b))),
{
    match std::cmp::Ord::cmp(&a.inner, &b.inner) {
        std::cmp::Ordering::Less => Order::Less,
        std::cmp::Ordering::Equal => Order::Equal,
        std::cmp::Ordering::Greater => Order::Greater,
    }
}

/// `clear`: no items left; the capacity stays.
#[verifier::external_body]
pub(crate) fn small_vec_i16n16_clear(v: &mut SmallVecI16N16)
    requires
        old(v).wf(),
    ensures
        final(v).wf(),
        sv_i16n16_items(*final(v)) == Seq::<i16>::empty(),
        sv_i16n16_cap(*final(v)) == sv_i16n16_cap(*old(v)),
{
    v.inner.clear()
}

} // verus!

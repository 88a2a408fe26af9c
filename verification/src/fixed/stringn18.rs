//! `SmallVec<[String; 18]>` of the outside crate, behind trusted wrappers.
//!
//! The outside type is held in a private field: Verus sees a value of it only
//! through two names, the items it holds and the capacity it records. Each
//! wrapper states, over those names, what the crate's source does.
use vstd::prelude::*;
use crate::small_vec::{dedup_seq, exact_growth_overflows, exact_grown, growth_overflows, grown, lex_order, repeat, Order};

verus! {

/// A small vector of `String` with room for 18 items inline.
#[verifier::external_body]
pub struct SmallVecStringN18 {
    inner: smallvec::SmallVec<[String; 18]>,
}

/// The items a `SmallVec<[String; 18]>` holds, in order.
pub uninterp spec fn sv_stringn18_items(v: SmallVecStringN18) -> Seq<String>;

/// The capacity a `SmallVec<[String; 18]>` records (18 while it is inline).
pub uninterp spec fn sv_stringn18_cap(v: SmallVecStringN18) -> nat;

impl View for SmallVecStringN18 {
    type V = Seq<String>;

    open spec fn view(&self) -> Seq<String> {
        sv_stringn18_items(*self)
    }
}

impl SmallVecStringN18 {
    /// The capacity that `capacity()` reports.
    pub open spec fn cap(self) -> nat {
        sv_stringn18_cap(self)
    }

    /// What every vector of this type satisfies: it holds at most its
    /// capacity, is never smaller than its inline size, and a heap buffer
    /// never exceeds `isize::MAX` bytes.
    pub open spec fn wf(self) -> bool {
        &&& self@.len() <= self.cap()
        &&& self.cap() >= 18
        &&& self.cap() * vstd::layout::size_of::<String>() <= isize::MAX || self.cap() == 18
    }
}

/// `SmallVec::new`: empty and inline.
#[verifier::external_body]
pub(crate) fn small_vec_stringn18_new() -> (r: SmallVecStringN18)
    ensures
        r.wf(),
        sv_stringn18_items(r) == Seq::<String>::empty(),
        sv_stringn18_cap(r) == 18,
{
    SmallVecStringN18 { inner: smallvec::SmallVec::new() }
}

/// `SmallVec::with_capacity`: empty, with room for `n` items (inline when
/// `n <= 18`); the size computation must not overflow.
#[verifier::external_body]
pub(crate) fn small_vec_stringn18_with_capacity(n: usize) -> (r: SmallVecStringN18)
    requires
        !exact_growth_overflows(0, 18, n as nat, vstd::layout::size_of::<String>()),
    ensures
        r.wf(),
        sv_stringn18_items(r) == Seq::<String>::empty(),
        sv_stringn18_cap(r) == if n <= 18 { 18 } else { n as nat },
{
    SmallVecStringN18 { inner: smallvec::SmallVec::with_capacity(n) }
}

/// `SmallVec::from_vec`: the items of `vec`; inline when the vector's own
/// capacity is at most 18, else taking over its buffer, whose capacity
/// nothing here states.
#[verifier::external_body]
pub(crate) fn small_vec_stringn18_from_vec(vec: Vec<String>) -> (r: SmallVecStringN18)
    ensures
        r.wf(),
        sv_stringn18_items(r) == vec@,
{
    SmallVecStringN18 { inner: smallvec::SmallVec::from_vec(vec) }
}

/// `SmallVec::from_elem`: `n` copies of `elem`; inline when `n <= 18`, else
/// through `vec![elem; n]`, whose size computation must not overflow.
#[verifier::external_body]
pub(crate) fn small_vec_stringn18_from_elem(elem: String, n: usize) -> (r: SmallVecStringN18)
    requires
        n <= 18 || n * vstd::layout::size_of::<String>() <= isize::MAX,
    ensures
        r.wf(),
        sv_stringn18_items(r) == repeat(elem, n as nat),
        n <= 18 ==> sv_stringn18_cap(r) == 18,
{
    SmallVecStringN18 { inner: smallvec::SmallVec::from_elem(elem, n) }
}

/// `FromIterator` over the items of `vec`: an empty vector extended by them,
/// reserving room for all of them first.
#[verifier::external_body]
pub(crate) fn small_vec_stringn18_from_iter(vec: Vec<String>) -> (r: SmallVecStringN18)
    requires
        !growth_overflows(0, 18, vec@.len(), vstd::layout::size_of::<String>()),
    ensures
        r.wf(),
        sv_stringn18_items(r) == vec@,
        sv_stringn18_cap(r) == grown(0, 18, vec@.len()),
{
    SmallVecStringN18 { inner: <smallvec::SmallVec<[String; 18]> as std::iter::FromIterator<String>>::from_iter(vec.into_iter()) }
}

/// `push`: `value` appended; a full vector first grows by amortised doubling,
/// whose size computation must not overflow.
#[verifier::external_body]
pub(crate) fn small_vec_stringn18_push(v: &mut SmallVecStringN18, value: String)
    requires
        old(v).wf(),
        !growth_overflows(sv_stringn18_items(*old(v)).len(), sv_stringn18_cap(*old(v)), 1, vstd::layout::size_of::<String>()),
    ensures
        final(v).wf(),
        sv_stringn18_items(*final(v)) == sv_stringn18_items(*old(v)).push(value),
        sv_stringn18_cap(*final(v)) == grown(sv_stringn18_items(*old(v)).len(), sv_stringn18_cap(*old(v)), 1),
{
    v.inner.push(value)
}

/// `len`: the number of items.
#[verifier::external_body]
pub(crate) fn small_vec_stringn18_len(v: &SmallVecStringN18) -> (r: usize)
    ensures
        r == sv_stringn18_items(*v).len(),
{
    v.inner.len()
}

/// `capacity`: the recorded capacity.
#[verifier::external_body]
pub(crate) fn small_vec_stringn18_capacity(v: &SmallVecStringN18) -> (r: usize)
    ensures
        r == sv_stringn18_cap(*v),
{
    v.inner.capacity()
}

/// `is_empty`: whether there are no items.
#[verifier::external_body]
pub(crate) fn small_vec_stringn18_is_empty(v: &SmallVecStringN18) -> (r: bool)
    ensures
        r == (sv_stringn18_items(*v).len() == 0),
{
    v.inner.is_empty()
}

/// `spilled`: whether the items live in a heap buffer, that is, whether the
/// capacity exceeds the inline size.
#[verifier::external_body]
pub(crate) fn small_vec_stringn18_spilled(v: &SmallVecStringN18) -> (r: bool)
    ensures
        r == (sv_stringn18_cap(*v) > 18),
{
    v.inner.spilled()
}

/// `Clone`: copies of the items, collected into a new vector that reserves
/// room for all of them.
#[verifier::external_body]
pub(crate) fn small_vec_stringn18_clone(v: &SmallVecStringN18) -> (r: SmallVecStringN18)
    requires
        !growth_overflows(0, 18, sv_stringn18_items(*v).len(), vstd::layout::size_of::<String>()),
    ensures
        r.wf(),
        sv_stringn18_items(r) == sv_stringn18_items(*v),
        sv_stringn18_cap(r) == grown(0, 18, sv_stringn18_items(*v).len()),
{
    SmallVecStringN18 { inner: v.inner.clone() }
}

} // verus!

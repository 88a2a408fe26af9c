//! `SmallVec<[i16; 20]>` of the outside crate, behind trusted wrappers.
//!
//! The outside type is held in a private field: Verus sees a value of it only
//! through two names, the items it holds and the capacity it records. Each
//! wrapper states, over those names, what the crate's source does.
use vstd::prelude::*;
use crate::small_vec::{dedup_seq, exact_growth_overflows, exact_grown, growth_overflows, grown, lex_order, repeat, Order};

verus! {

/// A small vector of `i16` with room for 20 items inline.
#[verifier::external_body]
pub struct SmallVecI16N20 {
    inner: smallvec::SmallVec<[i16; 20]>,
}

/// The items a `SmallVec<[i16; 20]>` holds, in order.
pub uninterp spec fn sv_i16n20_items(v: SmallVecI16N20) -> Seq<i16>;

/// The capacity a `SmallVec<[i16; 20]>` records (20 while it is inline).
pub uninterp spec fn sv_i16n20_cap(v: SmallVecI16N20) -> nat;

impl View for SmallVecI16N20 {
    type V = Seq<i16>;

    open spec fn view(&self) -> Seq<i16> {
        sv_i16n20_items(*self)
    }
}

impl SmallVecI16N20 {
    /// The capacity that `capacity()` reports.
    pub open spec fn cap(self) -> nat {
        sv_i16n20_cap(self)
    }

    /// What every vector of this type satisfies: it holds at most its
    /// capacity, is never smaller than its inline size, and a heap buffer
    /// never exceeds `isize::MAX` bytes.
    pub open spec fn wf(self) -> bool {
        &&& self@.len() <= self.cap()
        &&& self.cap() >= 20
        &&& self.cap() * vstd::layout::size_of::<i16>() <= isize::MAX || self.cap() == 20
    }
}

/// `SmallVec::new`: empty and inline.
#[verifier::external_body]
pub(crate) fn small_vec_i16n20_new() -> (r: SmallVecI16N20)
    ensures
        r.wf(),
        sv_i16n20_items(r) == Seq::<i16>::empty(),
        sv_i16n20_cap(r) == 20,
{
    SmallVecI16N20 { inner: smallvec::SmallVec::new() }
}

/// `SmallVec::with_capacity`: empty, with room for `n` items (inline when
/// `n <= 20`); the size computation must not overflow.
#[verifier::external_body]
pub(crate) fn small_vec_i16n20_with_capacity(n: usize) -> (r: SmallVecI16N20)
    requires
        !exact_growth_overflows(0, 20, n as nat, vstd::layout::size_of::<i16>()),
    ensures
        r.wf(),
        sv_i16n20_items(r) == Seq::<i16>::empty(),
        sv_i16n20_cap(r) == if n <= 20 { 20 } else { n as nat },
{
    SmallVecI16N20 { inner: smallvec::SmallVec::with_capacity(n) }
}

/// `resize`: truncated to `len`, or extended to `len` with copies of
/// `value` after reserving room for them.
#[verifier::external_body]
pub(crate) fn small_vec_i16n20_resize(v: &mut SmallVecI16N20, len: usize, value: i16)
    requires
        old(v).wf(),
        len > sv_i16n20_items(*old(v)).len() ==> !growth_overflows(sv_i16n20_items(*old(v)).len(), sv_i16n20_cap(*old(v)), (len - sv_i16n20_items(*old(v)).len()) as nat, vstd::layout::size_of::<i16>()),
    ensures
        final(v).wf(),
        len <= sv_i16n20_items(*old(v)).len() ==> sv_i16n20_items(*final(v)) == sv_i16n20_items(*old(v)).take(len as int) && sv_i16n20_cap(*final(v)) == sv_i16n20_cap(*old(v)),
        len > sv_i16n20_items(*old(v)).len() ==> sv_i16n20_items(*final(v)) == sv_i16n20_items(*old(v)) + repeat(value, (len - sv_i16n20_items(*old(v)).len()) as nat)
            && sv_i16n20_cap(*final(v)) == grown(sv_i16n20_items(*old(v)).len(), sv_i16n20_cap(*old(v)), (len - sv_i16n20_items(*old(v)).len()) as nat),
{
    v.inner.resize(len, value)
}

/// `Extend` by the items of `vec`: room reserved for all of them first, then
/// each appended in order.
#[verifier::external_body]
pub(crate) fn small_vec_i16n20_extend(v: &mut SmallVecI16N20, vec: Vec<i16>)
    requires
        old(v).wf(),
        !growth_overflows(sv_i16n20_items(*old(v)).len(), sv_i16n20_cap(*old(v)), vec@.len(), vstd::layout::size_of::<i16>()),
    ensures
        final(v).wf(),
        sv_i16n20_items(*final(v)) == sv_i16n20_items(*old(v)) + vec@,
        sv_i16n20_cap(*final(v)) == grown(sv_i16n20_items(*old(v)).len(), sv_i16n20_cap(*old(v)), vec@.len()),
{
    std::iter::Extend::extend(&mut v.inner, vec)
}

/// `Borrow<[T]>`: the items.
#[verifier::external_body]
pub(crate) fn small_vec_i16n20_borrow(v: &SmallVecI16N20) -> (r: &[i16])
    ensures
        r@ == sv_i16n20_items(*v),
{
    std::borrow::Borrow::<[i16]>::borrow(&v.inner)
}

/// `dedup`: every item equal to the one before it removed; the capacity
/// stays.
#[verifier::external_body]
pub(crate) fn small_vec_i16n20_dedup(v: &mut SmallVecI16N20)
    requires
        old(v).wf(),
    ensures
        final(v).wf(),
        sv_i16n20_items(*final(v)) == dedup_seq(sv_i16n20_items(*old(v))),
        sv_i16n20_cap(*final(v)) == sv_i16n20_cap(*old(v)),
{
    v.inner.dedup()
}

/// `as_mut_slice`: the items, to be written in place.
#[verifier::external_body]
pub(crate) fn small_vec_i16n20_as_mut_slice(v: &mut SmallVecI16N20) -> (r: &mut [i16])
    requires
        old(v).wf(),
    ensures
        r@ == sv_i16n20_items(*old(v)),
        sv_i16n20_items(*final(v)) == final(r)@,
        sv_i16n20_cap(*final(v)) == sv_i16n20_cap(*old(v)),
{
    v.inner.as_mut_slice()
}

/// `len`: the number of items.
#[verifier::external_body]
pub(crate) fn small_vec_i16n20_len(v: &SmallVecI16N20) -> (r: usize)
    ensures
        r == sv_i16n20_items(*v).len(),
{
    v.inner.len()
}

/// `capacity`: the recorded capacity.
#[verifier::external_body]
pub(crate) fn small_vec_i16n20_capacity(v: &SmallVecI16N20) -> (r: usize)
    ensures
        r == sv_i16n20_cap(*v),
{
    v.inner.capacity()
}

} // verus!

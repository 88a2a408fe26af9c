//! `SmallVec<[i16; 8]>` of the outside crate, behind trusted wrappers.
//!
//! The outside type is held in a private field: Verus sees a value of it only
//! through two names, the items it holds and the capacity it records. Each
//! wrapper states, over those names, what the crate's source does.
use vstd::prelude::*;
use crate::small_vec::{dedup_seq, exact_growth_overflows, exact_grown, growth_overflows, grown, lex_order, repeat, Order};
use crate::bytes::mixed_i16;
use crate::fixed::is_even_i16;

verus! {

/// A small vector of `i16` with room for 8 items inline.
#[verifier::external_body]
pub struct SmallVecI16N8 {
    inner: smallvec::SmallVec<[i16; 8]>,
}

/// The items a `SmallVec<[i16; 8]>` holds, in order.
pub uninterp spec fn sv_i16n8_items(v: SmallVecI16N8) -> Seq<i16>;

/// The capacity a `SmallVec<[i16; 8]>` records (8 while it is inline).
pub uninterp spec fn sv_i16n8_cap(v: SmallVecI16N8) -> nat;

impl View for SmallVecI16N8 {
    type V = Seq<i16>;

    open spec fn view(&self) -> Seq<i16> {
        sv_i16n8_items(*self)
    }
}

impl SmallVecI16N8 {
    /// The capacity that `capacity()` reports.
    pub open spec fn cap(self) -> nat {
        sv_i16n8_cap(self)
    }

    /// What every vector of this type satisfies: it holds at most its
    /// capacity, is never smaller than its inline size, and a heap buffer
    /// never exceeds `isize::MAX` bytes.
    pub open spec fn wf(self) -> bool {
        &&& self@.len() <= self.cap()
        &&& self.cap() >= 8
        &&& self.cap() * vstd::layout::size_of::<i16>() <= isize::MAX || self.cap() == 8
    }
}

/// `FromIterator` over the items of `vec`: an empty vector extended by them,
/// reserving room for all of them first.
#[verifier::external_body]
pub(crate) fn small_vec_i16n8_from_iter(vec: Vec<i16>) -> (r: SmallVecI16N8)
    requires
        !growth_overflows(0, 8, vec@.len(), vstd::layout::size_of::<i16>()),
    ensures
        r.wf(),
        sv_i16n8_items(r) == vec@,
        sv_i16n8_cap(r) == grown(0, 8, vec@.len()),
{
    SmallVecI16N8 { inner: <smallvec::SmallVec<[i16; 8]> as std::iter::FromIterator<i16>>::from_iter(vec.into_iter()) }
}

/// `resize`: truncated to `len`, or extended to `len` with copies of
/// `value` after reserving room for them.
#[verifier::external_body]
pub(crate) fn small_vec_i16n8_resize(v: &mut SmallVecI16N8, len: usize, value: i16)
    requires
        old(v).wf(),
        len > sv_i16n8_items(*old(v)).len() ==> !growth_overflows(sv_i16n8_items(*old(v)).len(), sv_i16n8_cap(*old(v)), (len - sv_i16n8_items(*old(v)).len()) as nat, vstd::layout::size_of::<i16>()),
    ensures
        final(v).wf(),
        len <= sv_i16n8_items(*old(v)).len() ==> sv_i16n8_items(*final(v)) == sv_i16n8_items(*old(v)).take(len as int) && sv_i16n8_cap(*final(v)) == sv_i16n8_cap(*old(v)),
        len > sv_i16n8_items(*old(v)).len() ==> sv_i16n8_items(*final(v)) == sv_i16n8_items(*old(v)) + repeat(value, (len - sv_i16n8_items(*old(v)).len()) as nat)
            && sv_i16n8_cap(*final(v)) == grown(sv_i16n8_items(*old(v)).len(), sv_i16n8_cap(*old(v)), (len - sv_i16n8_items(*old(v)).len()) as nat),
{
    v.inner.resize(len, value)
}

/// `resize_with`, each new item the `i16` read at `at` of `g`: truncated to
/// `len`, or extended to `len` after reserving room for the new items.
#[verifier::external_body]
pub(crate) fn small_vec_i16n8_resize_with_read(v: &mut SmallVecI16N8, len: usize, g: &[u8], at: usize)
    requires
        old(v).wf(),
        len > sv_i16n8_items(*old(v)).len() ==> !growth_overflows(sv_i16n8_items(*old(v)).len(), sv_i16n8_cap(*old(v)), (len - sv_i16n8_items(*old(v)).len()) as nat, vstd::layout::size_of::<i16>()),
        len > sv_i16n8_items(*old(v)).len() ==> at + 2 <= g@.len(),
    ensures
        final(v).wf(),
        len <= sv_i16n8_items(*old(v)).len() ==> sv_i16n8_items(*final(v)) == sv_i16n8_items(*old(v)).take(len as int) && sv_i16n8_cap(*final(v)) == sv_i16n8_cap(*old(v)),
        len > sv_i16n8_items(*old(v)).len() ==> sv_i16n8_items(*final(v)) == sv_i16n8_items(*old(v)) + repeat(mixed_i16(g@, at as int) as i16, (len - sv_i16n8_items(*old(v)).len()) as nat)
            && sv_i16n8_cap(*final(v)) == grown(sv_i16n8_items(*old(v)).len(), sv_i16n8_cap(*old(v)), (len - sv_i16n8_items(*old(v)).len()) as nat),
{
    v.inner.resize_with(len, || crate::bytes::_to_i16(g, at))
}

/// `dedup`: every item equal to the one before it removed; the capacity
/// stays.
#[verifier::external_body]
pub(crate) fn small_vec_i16n8_dedup(v: &mut SmallVecI16N8)
    requires
        old(v).wf(),
    ensures
        final(v).wf(),
        sv_i16n8_items(*final(v)) == dedup_seq(sv_i16n8_items(*old(v))),
        sv_i16n8_cap(*final(v)) == sv_i16n8_cap(*old(v)),
{
    v.inner.dedup()
}

/// `retain` with the even test: the even items kept, in order; the capacity
/// stays.
#[verifier::external_body]
pub(crate) fn small_vec_i16n8_retain_even(v: &mut SmallVecI16N8)
    requires
        old(v).wf(),
    ensures
        final(v).wf(),
        sv_i16n8_items(*final(v)) == sv_i16n8_items(*old(v)).filter(|x: i16| x % 2 == 0),
        sv_i16n8_cap(*final(v)) == sv_i16n8_cap(*old(v)),
{
    v.inner.retain(|x: &mut i16| is_even_i16(*x))
}

/// `len`: the number of items.
#[verifier::external_body]
pub(crate) fn small_vec_i16n8_len(v: &SmallVecI16N8) -> (r: usize)
    ensures
        r == sv_i16n8_items(*v).len(),
{
    v.inner.len()
}

/// `capacity`: the recorded capacity.
#[verifier::external_body]
pub(crate) fn small_vec_i16n8_capacity(v: &SmallVecI16N8) -> (r: usize)
    ensures
        r == sv_i16n8_cap(*v),
{
    v.inner.capacity()
}

/// `into_vec`: the items, as a `Vec`.
#[verifier::external_body]
pub(crate) fn small_vec_i16n8_into_vec(v: SmallVecI16N8) -> (r: Vec<i16>)
    ensures
        r@ == sv_i16n8_items(v),
{
    v.inner.into_vec()
}

} // verus!

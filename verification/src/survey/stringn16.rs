//! `SmallVec<[String; 16]>` of the outside crate, behind trusted wrappers.
//!
//! The outside type is held in a private field: Verus sees a value of it only
//! through two names, the items it holds and the capacity it records. Each
//! wrapper states, over those names, what the crate's source does.
use vstd::prelude::*;
use crate::small_vec::{dedup_seq, exact_growth_overflows, exact_grown, growth_overflows, grown, lex_order, repeat, Order};

verus! {

/// A small vector of `String` with room for 16 items inline.
#[verifier::external_body]
pub struct SmallVecStringN16 {
    inner: smallvec::SmallVec<[String; 16]>,
}

/// The items a `SmallVec<[String; 16]>` holds, in order.
pub uninterp spec fn sv_stringn16_items(v: SmallVecStringN16) -> Seq<String>;

/// The capacity a `SmallVec<[String; 16]>` records (16 while it is inline).
pub uninterp spec fn sv_stringn16_cap(v: SmallVecStringN16) -> nat;

impl View for SmallVecStringN16 {
    type V = Seq<String>;

    open spec fn view(&self) -> Seq<String> {
        sv_stringn16_items(*self)
    }
}

impl SmallVecStringN16 {
    /// The capacity that `capacity()` reports.
    pub open spec fn cap(self) -> nat {
        sv_stringn16_cap(self)
    }

    /// What every vector of this type satisfies: it holds at most its
    /// capacity, is never smaller than its inline size, and a heap buffer
    /// never exceeds `isize::MAX` bytes.
    pub open spec fn wf(self) -> bool {
        &&& self@.len() <= self.cap()
        &&& self.cap() >= 16
        &&& self.cap() * vstd::layout::size_of::<String>() <= isize::MAX || self.cap() == 16
    }
}

/// `SmallVec::with_capacity`: empty, with room for `n` items (inline when
/// `n <= 16`); the size computation must not overflow.
#[verifier::external_body]
pub(crate) fn small_vec_stringn16_with_capacity(n: usize) -> (r: SmallVecStringN16)
    requires
        !exact_growth_overflows(0, 16, n as nat, vstd::layout::size_of::<String>()),
    ensures
        r.wf(),
        sv_stringn16_items(r) == Seq::<String>::empty(),
        sv_stringn16_cap(r) == if n <= 16 { 16 } else { n as nat },
{
    SmallVecStringN16 { inner: smallvec::SmallVec::with_capacity(n) }
}

/// `push`: `value` appended; a full vector first grows by amortised doubling,
/// whose size computation must not overflow.
#[verifier::external_body]
pub(crate) fn small_vec_stringn16_push(v: &mut SmallVecStringN16, value: String)
    requires
        old(v).wf(),
        !growth_overflows(sv_stringn16_items(*old(v)).len(), sv_stringn16_cap(*old(v)), 1, vstd::layout::size_of::<String>()),
    ensures
        final(v).wf(),
        sv_stringn16_items(*final(v)) == sv_stringn16_items(*old(v)).push(value),
        sv_stringn16_cap(*final(v)) == grown(sv_stringn16_items(*old(v)).len(), sv_stringn16_cap(*old(v)), 1),
{
    v.inner.push(value)
}

/// `len`: the number of items.
#[verifier::external_body]
pub(crate) fn small_vec_stringn16_len(v: &SmallVecStringN16) -> (r: usize)
    ensures
        r == sv_stringn16_items(*v).len(),
{
    v.inner.len()
}

/// `is_empty`: whether there are no items.
#[verifier::external_body]
pub(crate) fn small_vec_stringn16_is_empty(v: &SmallVecStringN16) -> (r: bool)
    ensures
        r == (sv_stringn16_items(*v).len() == 0),
{
    v.inner.is_empty()
}

/// `as_slice`: the items.
#[verifier::external_body]
pub(crate) fn small_vec_stringn16_as_slice(v: &SmallVecStringN16) -> (r: &[String])
    ensures
        r@ == sv_stringn16_items(*v),
{
    v.inner.as_slice()
}

/// `swap_remove`: the item at `index`, replaced by the last item; it panics
/// when `index >= len`.
#[verifier::external_body]
pub(crate) fn small_vec_stringn16_swap_remove(v: &mut SmallVecStringN16, index: usize) -> (r: String)
    requires
        old(v).wf(),
        index < sv_stringn16_items(*old(v)).len(),
    ensures
        final(v).wf(),
        r == sv_stringn16_items(*old(v))[index as int],
        sv_stringn16_items(*final(v)) == sv_stringn16_items(*old(v)).update(index as int, sv_stringn16_items(*old(v)).last()).drop_last(),
        sv_stringn16_cap(*final(v)) == sv_stringn16_cap(*old(v)),
{
    v.inner.swap_remove(index)
}

} // verus!

//! `SmallVec<[i8; 17]>` of the outside crate, behind trusted wrappers.
//!
//! The outside type is held in a private field: Verus sees a value of it only
//! through two names, the items it holds and the capacity it records. Each
//! wrapper states, over those names, what the crate's source does.
use vstd::prelude::*;
use crate::small_vec::{dedup_seq, exact_growth_overflows, exact_grown, growth_overflows, grown, lex_order, repeat, Order};

verus! {

/// A small vector of `i8` with room for 17 items inline.
#[verifier::external_body]
pub struct SmallVecI8N17 {
    inner: smallvec::SmallVec<[i8; 17]>,
}

/// The items a `SmallVec<[i8; 17]>` holds, in order.
pub uninterp spec fn sv_i8n17_items(v: SmallVecI8N17) -> Seq<i8>;

/// The capacity a `SmallVec<[i8; 17]>` records (17 while it is inline).
pub uninterp spec fn sv_i8n17_cap(v: SmallVecI8N17) -> nat;

impl View for SmallVecI8N17 {
    type V = Seq<i8>;

    open spec fn view(&self) -> Seq<i8> {
        sv_i8n17_items(*self)
    }
}

/// Whether `x` is even: the test by which items are kept.
pub fn is_even_i8(x: i8) -> (r: bool)
    ensures
        r == (x % 2 == 0),
{
    x % 2 == 0
}

impl SmallVecI8N17 {
    /// The capacity that `capacity()` reports.
    pub open spec fn cap(self) -> nat {
        sv_i8n17_cap(self)
    }

    /// What every vector of this type satisfies: it holds at most its
    /// capacity, is never smaller than its inline size, and a heap buffer
    /// never exceeds `isize::MAX` bytes.
    pub open spec fn wf(self) -> bool {
        &&& self@.len() <= self.cap()
        &&& self.cap() >= 17
        &&& self.cap() * vstd::layout::size_of::<i8>() <= isize::MAX || self.cap() == 17
    }
}

/// `SmallVec::new`: empty and inline.
#[verifier::external_body]
pub(crate) fn small_vec_i8n17_new() -> (r: SmallVecI8N17)
    ensures
        r.wf(),
        sv_i8n17_items(r) == Seq::<i8>::empty(),
        sv_i8n17_cap(r) == 17,
{
    SmallVecI8N17 { inner: smallvec::SmallVec::new() }
}

/// `len`: the number of items.
#[verifier::external_body]
pub(crate) fn small_vec_i8n17_len(v: &SmallVecI8N17) -> (r: usize)
    ensures
        r == sv_i8n17_items(*v).len(),
{
    v.inner.len()
}

/// `capacity`: the recorded capacity.
#[verifier::external_body]
pub(crate) fn small_vec_i8n17_capacity(v: &SmallVecI8N17) -> (r: usize)
    ensures
        r == sv_i8n17_cap(*v),
{
    v.inner.capacity()
}

/// `push`: `value` appended; a full vector first grows by amortised doubling,
/// whose size computation must not overflow.
#[verifier::external_body]
pub(crate) fn small_vec_i8n17_push(v: &mut SmallVecI8N17, value: i8)
    requires
        old(v).wf(),
        !growth_overflows(sv_i8n17_items(*old(v)).len(), sv_i8n17_cap(*old(v)), 1, vstd::layout::size_of::<i8>()),
    ensures
        final(v).wf(),
        sv_i8n17_items(*final(v)) == sv_i8n17_items(*old(v)).push(value),
        sv_i8n17_cap(*final(v)) == grown(sv_i8n17_items(*old(v)).len(), sv_i8n17_cap(*old(v)), 1),
{
    v.inner.push(value)
}

/// `truncate`: the first `len` items kept (all of them when there are fewer).
#[verifier::external_body]
pub(crate) fn small_vec_i8n17_truncate(v: &mut SmallVecI8N17, len: usize)
    requires
        old(v).wf(),
    ensures
        final(v).wf(),
        sv_i8n17_items(*final(v)) == if len < sv_i8n17_items(*old(v)).len() { sv_i8n17_items(*old(v)).take(len as int) } else { sv_i8n17_items(*old(v)) },
        sv_i8n17_cap(*final(v)) == sv_i8n17_cap(*old(v)),
{
    v.inner.truncate(len)
}

/// `retain` with the even test: the even items kept, in order; the capacity
/// stays.
#[verifier::external_body]
pub(crate) fn small_vec_i8n17_retain_even(v: &mut SmallVecI8N17)
    requires
        old(v).wf(),
    ensures
        final(v).wf(),
        sv_i8n17_items(*final(v)) == sv_i8n17_items(*old(v)).filter(|x: i8| x % 2 == 0),
        sv_i8n17_cap(*final(v)) == sv_i8n17_cap(*old(v)),
{
    v.inner.retain(|x: &mut i8| is_even_i8(*x))
}

/// `clear`: no items left; the capacity stays.
#[verifier::external_body]
pub(crate) fn small_vec_i8n17_clear(v: &mut SmallVecI8N17)
    requires
        old(v).wf(),
    ensures
        final(v).wf(),
        sv_i8n17_items(*final(v)) == Seq::<i8>::empty(),
        sv_i8n17_cap(*final(v)) == sv_i8n17_cap(*old(v)),
{
    v.inner.clear()
}

} // verus!

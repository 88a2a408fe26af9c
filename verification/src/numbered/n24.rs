//! `SmallVec<[usize; 24]>` of the outside crate, behind trusted wrappers:
//! a vector of number-carrying elements, held as their numbers.
//!
//! The outside type is held in a private field: Verus sees a value of it only
//! through two names, the items it holds and the capacity it records. Each
//! wrapper states, over those names, what the crate's source does.
use vstd::prelude::*;
use crate::small_vec::{dedup_seq, exact_growth_overflows, exact_grown, growth_overflows, grown, lex_order, repeat, Order};
use crate::script::usize_at;
use crate::numbered::{is_even_usize, same_usize, usize_ints};

verus! {

/// A small vector of `usize` with room for 24 items inline.
#[verifier::external_body]
pub struct SmallVecNumbers24 {
    inner: smallvec::SmallVec<[usize; 24]>,
}

/// The items a `SmallVec<[usize; 24]>` holds, in order.
pub uninterp spec fn sv_n24_items(v: SmallVecNumbers24) -> Seq<usize>;

/// The capacity a `SmallVec<[usize; 24]>` records (24 while it is inline).
pub uninterp spec fn sv_n24_cap(v: SmallVecNumbers24) -> nat;

impl View for SmallVecNumbers24 {
    type V = Seq<usize>;

    open spec fn view(&self) -> Seq<usize> {
        sv_n24_items(*self)
    }
}

impl SmallVecNumbers24 {
    /// The capacity that `capacity()` reports.
    pub open spec fn cap(self) -> nat {
        sv_n24_cap(self)
    }

    /// What every vector of this type satisfies: it holds at most its
    /// capacity, is never smaller than its inline size, and a heap buffer
    /// never exceeds `isize::MAX` bytes.
    pub open spec fn wf(self) -> bool {
        &&& self@.len() <= self.cap()
        &&& self.cap() >= 24
        &&& self.cap() * vstd::layout::size_of::<usize>() <= isize::MAX || self.cap() == 24
    }
}

/// `SmallVec::with_capacity`: empty, with room for `n` items (inline when
/// `n <= 24`); the size computation must not overflow.
#[verifier::external_body]
pub(crate) fn small_vec_n24_with_capacity(n: usize) -> (r: SmallVecNumbers24)
    requires
        !exact_growth_overflows(0, 24, n as nat, vstd::layout::size_of::<usize>()),
    ensures
        r.wf(),
        sv_n24_items(r) == Seq::<usize>::empty(),
        sv_n24_cap(r) == if n <= 24 { 24 } else { n as nat },
{
    SmallVecNumbers24 { inner: smallvec::SmallVec::with_capacity(n) }
}

/// `push`: `value` appended; a full vector first grows by amortised doubling,
/// whose size computation must not overflow.
#[verifier::external_body]
pub(crate) fn small_vec_n24_push(v: &mut SmallVecNumbers24, value: usize)
    requires
        old(v).wf(),
        !growth_overflows(sv_n24_items(*old(v)).len(), sv_n24_cap(*old(v)), 1, vstd::layout::size_of::<usize>()),
    ensures
        final(v).wf(),
        sv_n24_items(*final(v)) == sv_n24_items(*old(v)).push(value),
        sv_n24_cap(*final(v)) == grown(sv_n24_items(*old(v)).len(), sv_n24_cap(*old(v)), 1),
{
    v.inner.push(value)
}

/// `as_slice`: the items.
#[verifier::external_body]
pub(crate) fn small_vec_n24_as_slice(v: &SmallVecNumbers24) -> (r: &[usize])
    ensures
        r@ == sv_n24_items(*v),
{
    v.inner.as_slice()
}

/// `as_mut_slice`: the items, to be written in place.
#[verifier::external_body]
pub(crate) fn small_vec_n24_as_mut_slice(v: &mut SmallVecNumbers24) -> (r: &mut [usize])
    requires
        old(v).wf(),
    ensures
        r@ == sv_n24_items(*old(v)),
        sv_n24_items(*final(v)) == final(r)@,
        sv_n24_cap(*final(v)) == sv_n24_cap(*old(v)),
{
    v.inner.as_mut_slice()
}

/// `len`: the number of items.
#[verifier::external_body]
pub(crate) fn small_vec_n24_len(v: &SmallVecNumbers24) -> (r: usize)
    ensures
        r == sv_n24_items(*v).len(),
{
    v.inner.len()
}

/// `capacity`: the recorded capacity.
#[verifier::external_body]
pub(crate) fn small_vec_n24_capacity(v: &SmallVecNumbers24) -> (r: usize)
    ensures
        r == sv_n24_cap(*v),
{
    v.inner.capacity()
}

/// `is_empty`: whether there are no items.
#[verifier::external_body]
pub(crate) fn small_vec_n24_is_empty(v: &SmallVecNumbers24) -> (r: bool)
    ensures
        r == (sv_n24_items(*v).len() == 0),
{
    v.inner.is_empty()
}

/// `IndexMut<usize>`: the item at `index`, read through a mutable reference;
/// it panics when `index >= len`.
#[verifier::external_body]
pub(crate) fn small_vec_n24_index_mut(v: &mut SmallVecNumbers24, index: usize) -> (r: usize)
    requires
        old(v).wf(),
        index < sv_n24_items(*old(v)).len(),
    ensures
        r == sv_n24_items(*old(v))[index as int],
        sv_n24_items(*final(v)) == sv_n24_items(*old(v)),
        sv_n24_cap(*final(v)) == sv_n24_cap(*old(v)),
{
    *std::ops::IndexMut::index_mut(&mut v.inner, index)
}

/// `SmallVec::new`: empty and inline.
#[verifier::external_body]
pub(crate) fn small_vec_n24_new() -> (r: SmallVecNumbers24)
    ensures
        r.wf(),
        sv_n24_items(r) == Seq::<usize>::empty(),
        sv_n24_cap(r) == 24,
{
    SmallVecNumbers24 { inner: smallvec::SmallVec::new() }
}

/// `pop`: the last item, removed, or `None` when empty; the capacity stays.
#[verifier::external_body]
pub(crate) fn small_vec_n24_pop(v: &mut SmallVecNumbers24) -> (r: Option<usize>)
    requires
        old(v).wf(),
    ensures
        final(v).wf(),
        sv_n24_cap(*final(v)) == sv_n24_cap(*old(v)),
        sv_n24_items(*old(v)).len() == 0 ==> r is None && sv_n24_items(*final(v)) == sv_n24_items(*old(v)),
        sv_n24_items(*old(v)).len() > 0 ==> r == Some(sv_n24_items(*old(v)).last()) && sv_n24_items(*final(v)) == sv_n24_items(*old(v)).drop_last(),
{
    v.inner.pop()
}

/// `reserve`: room for `additional` more items by amortised doubling; the
/// size computation must not overflow.
#[verifier::external_body]
pub(crate) fn small_vec_n24_reserve(v: &mut SmallVecNumbers24, additional: usize)
    requires
        old(v).wf(),
        !growth_overflows(sv_n24_items(*old(v)).len(), sv_n24_cap(*old(v)), additional as nat, vstd::layout::size_of::<usize>()),
    ensures
        final(v).wf(),
        sv_n24_items(*final(v)) == sv_n24_items(*old(v)),
        sv_n24_cap(*final(v)) == grown(sv_n24_items(*old(v)).len(), sv_n24_cap(*old(v)), additional as nat),
{
    v.inner.reserve(additional)
}

/// `truncate`: the first `len` items kept (all of them when there are fewer).
#[verifier::external_body]
pub(crate) fn small_vec_n24_truncate(v: &mut SmallVecNumbers24, len: usize)
    requires
        old(v).wf(),
    ensures
        final(v).wf(),
        sv_n24_items(*final(v)) == if len < sv_n24_items(*old(v)).len() { sv_n24_items(*old(v)).take(len as int) } else { sv_n24_items(*old(v)) },
        sv_n24_cap(*final(v)) == sv_n24_cap(*old(v)),
{
    v.inner.truncate(len)
}

/// `append`: all items of `other` moved to the end of `v`, after reserving
/// room for them, leaving `other` empty with its capacity.
#[verifier::external_body]
pub(crate) fn small_vec_n24_append(v: &mut SmallVecNumbers24, other: &mut SmallVecNumbers24)
    requires
        old(v).wf(),
        old(other).wf(),
        !growth_overflows(sv_n24_items(*old(v)).len(), sv_n24_cap(*old(v)), sv_n24_items(*old(other)).len(), vstd::layout::size_of::<usize>()),
    ensures
        final(v).wf(),
        final(other).wf(),
        sv_n24_items(*final(v)) == sv_n24_items(*old(v)) + sv_n24_items(*old(other)),
        sv_n24_cap(*final(v)) == grown(sv_n24_items(*old(v)).len(), sv_n24_cap(*old(v)), sv_n24_items(*old(other)).len()),
        sv_n24_items(*final(other)) == Seq::<usize>::empty(),
        sv_n24_cap(*final(other)) == sv_n24_cap(*old(other)),
{
    v.inner.append(&mut other.inner)
}

/// `Deref`: the items.
#[verifier::external_body]
pub(crate) fn small_vec_n24_deref(v: &SmallVecNumbers24) -> (r: &[usize])
    ensures
        r@ == sv_n24_items(*v),
{
    std::ops::Deref::deref(&v.inner)
}

/// `AsRef<[T]>`: the items.
#[verifier::external_body]
pub(crate) fn small_vec_n24_as_ref(v: &SmallVecNumbers24) -> (r: &[usize])
    ensures
        r@ == sv_n24_items(*v),
{
    std::convert::AsRef::<[usize]>::as_ref(&v.inner)
}

} // verus!

//! `SmallVec<[i32; 12]>` of the outside crate, behind trusted wrappers.
//!
//! The outside type is held in a private field: Verus sees a value of it only
//! through two names, the items it holds and the capacity it records. Each
//! wrapper states, over those names, what the crate's source does.
use vstd::prelude::*;
use crate::small_vec::{dedup_seq, exact_growth_overflows, exact_grown, growth_overflows, grown, lex_order, repeat, Order};

verus! {

/// A small vector of `i32` with room for 12 items inline.
#[verifier::external_body]
pub struct SmallVecI32N12 {
    inner: smallvec::SmallVec<[i32; 12]>,
}

/// The items a `SmallVec<[i32; 12]>` holds, in order.
pub uninterp spec fn sv_i32n12_items(v: SmallVecI32N12) -> Seq<i32>;

/// The capacity a `SmallVec<[i32; 12]>` records (12 while it is inline).
pub uninterp spec fn sv_i32n12_cap(v: SmallVecI32N12) -> nat;

impl View for SmallVecI32N12 {
    type V = Seq<i32>;

    open spec fn view(&self) -> Seq<i32> {
        sv_i32n12_items(*self)
    }
}

impl SmallVecI32N12 {
    /// The capacity that `capacity()` reports.
    pub open spec fn cap(self) -> nat {
        sv_i32n12_cap(self)
    }

    /// What every vector of this type satisfies: it holds at most its
    /// capacity, is never smaller than its inline size, and a heap buffer
    /// never exceeds `isize::MAX` bytes.
    pub open spec fn wf(self) -> bool {
        &&& self@.len() <= self.cap()
        &&& self.cap() >= 12
        &&& self.cap() * vstd::layout::size_of::<i32>() <= isize::MAX || self.cap() == 12
    }
}

/// `SmallVec::from_vec`: the items of `vec`; inline when the vector's own
/// capacity is at most 12, else taking over its buffer, whose capacity
/// nothing here states.
#[verifier::external_body]
pub(crate) fn small_vec_i32n12_from_vec(vec: Vec<i32>) -> (r: SmallVecI32N12)
    ensures
        r.wf(),
        sv_i32n12_items(r) == vec@,
{
    SmallVecI32N12 { inner: smallvec::SmallVec::from_vec(vec) }
}

/// `reserve`: room for `additional` more items by amortised doubling; the
/// size computation must not overflow.
#[verifier::external_body]
pub(crate) fn small_vec_i32n12_reserve(v: &mut SmallVecI32N12, additional: usize)
    requires
        old(v).wf(),
        !growth_overflows(sv_i32n12_items(*old(v)).len(), sv_i32n12_cap(*old(v)), additional as nat, vstd::layout::size_of::<i32>()),
    ensures
        final(v).wf(),
        sv_i32n12_items(*final(v)) == sv_i32n12_items(*old(v)),
        sv_i32n12_cap(*final(v)) == grown(sv_i32n12_items(*old(v)).len(), sv_i32n12_cap(*old(v)), additional as nat),
{
    v.inner.reserve(additional)
}

/// `is_empty`: whether there are no items.
#[verifier::external_body]
pub(crate) fn small_vec_i32n12_is_empty(v: &SmallVecI32N12) -> (r: bool)
    ensures
        r == (sv_i32n12_items(*v).len() == 0),
{
    v.inner.is_empty()
}

/// `pop`: the last item, removed, or `None` when empty; the capacity stays.
#[verifier::external_body]
pub(crate) fn small_vec_i32n12_pop(v: &mut SmallVecI32N12) -> (r: Option<i32>)
    requires
        old(v).wf(),
    ensures
        final(v).wf(),
        sv_i32n12_cap(*final(v)) == sv_i32n12_cap(*old(v)),
        sv_i32n12_items(*old(v)).len() == 0 ==> r is None && sv_i32n12_items(*final(v)) == sv_i32n12_items(*old(v)),
        sv_i32n12_items(*old(v)).len() > 0 ==> r == Some(sv_i32n12_items(*old(v)).last()) && sv_i32n12_items(*final(v)) == sv_i32n12_items(*old(v)).drop_last(),
{
    v.inner.pop()
}

/// `insert`: `element` placed at `index`, later items shifted right; it first
/// reserves room for one item, and panics when `index > len`.
#[verifier::external_body]
pub(crate) fn small_vec_i32n12_insert(v: &mut SmallVecI32N12, index: usize, element: i32)
    requires
        old(v).wf(),
        index <= sv_i32n12_items(*old(v)).len(),
        !growth_overflows(sv_i32n12_items(*old(v)).len(), sv_i32n12_cap(*old(v)), 1, vstd::layout::size_of::<i32>()),
    ensures
        final(v).wf(),
        sv_i32n12_items(*final(v)) == sv_i32n12_items(*old(v)).insert(index as int, element),
        sv_i32n12_cap(*final(v)) == grown(sv_i32n12_items(*old(v)).len(), sv_i32n12_cap(*old(v)), 1),
{
    v.inner.insert(index, element)
}

/// `len`: the number of items.
#[verifier::external_body]
pub(crate) fn small_vec_i32n12_len(v: &SmallVecI32N12) -> (r: usize)
    ensures
        r == sv_i32n12_items(*v).len(),
{
    v.inner.len()
}

/// `capacity`: the recorded capacity.
#[verifier::external_body]
pub(crate) fn small_vec_i32n12_capacity(v: &SmallVecI32N12) -> (r: usize)
    ensures
        r == sv_i32n12_cap(*v),
{
    v.inner.capacity()
}

/// `SmallVec::new`: empty and inline.
#[verifier::external_body]
pub(crate) fn small_vec_i32n12_new() -> (r: SmallVecI32N12)
    ensures
        r.wf(),
        sv_i32n12_items(r) == Seq::<i32>::empty(),
        sv_i32n12_cap(r) == 12,
{
    SmallVecI32N12 { inner: smallvec::SmallVec::new() }
}

/// `SmallVec::with_capacity`: empty, with room for `n` items (inline when
/// `n <= 12`); the size computation must not overflow.
#[verifier::external_body]
pub(crate) fn small_vec_i32n12_with_capacity(n: usize) -> (r: SmallVecI32N12)
    requires
        !exact_growth_overflows(0, 12, n as nat, vstd::layout::size_of::<i32>()),
    ensures
        r.wf(),
        sv_i32n12_items(r) == Seq::<i32>::empty(),
        sv_i32n12_cap(r) == if n <= 12 { 12 } else { n as nat },
{
    SmallVecI32N12 { inner: smallvec::SmallVec::with_capacity(n) }
}

/// `SmallVec::from_elem`: `n` copies of `elem`; inline when `n <= 12`, else
/// through `vec![elem; n]`, whose size computation must not overflow.
#[verifier::external_body]
pub(crate) fn small_vec_i32n12_from_elem(elem: i32, n: usize) -> (r: SmallVecI32N12)
    requires
        n <= 12 || n * vstd::layout::size_of::<i32>() <= isize::MAX,
    ensures
        r.wf(),
        sv_i32n12_items(r) == repeat(elem, n as nat),
        n <= 12 ==> sv_i32n12_cap(r) == 12,
{
    SmallVecI32N12 { inner: smallvec::SmallVec::from_elem(elem, n) }
}

/// `From<[T; 12]>`, that is `from_buf`: all 12 items of `buf`, inline.
#[verifier::external_body]
pub(crate) fn small_vec_i32n12_from_buf(buf: [i32; 12]) -> (r: SmallVecI32N12)
    ensures
        r.wf(),
        sv_i32n12_items(r) == buf@,
        sv_i32n12_cap(r) == 12,
{
    SmallVecI32N12 { inner: std::convert::From::from(buf) }
}

/// `push`: `value` appended; a full vector first grows by amortised doubling,
/// whose size computation must not overflow.
#[verifier::external_body]
pub(crate) fn small_vec_i32n12_push(v: &mut SmallVecI32N12, value: i32)
    requires
        old(v).wf(),
        !growth_overflows(sv_i32n12_items(*old(v)).len(), sv_i32n12_cap(*old(v)), 1, vstd::layout::size_of::<i32>()),
    ensures
        final(v).wf(),
        sv_i32n12_items(*final(v)) == sv_i32n12_items(*old(v)).push(value),
        sv_i32n12_cap(*final(v)) == grown(sv_i32n12_items(*old(v)).len(), sv_i32n12_cap(*old(v)), 1),
{
    v.inner.push(value)
}

/// `Borrow<[T]>`: the items.
#[verifier::external_body]
pub(crate) fn small_vec_i32n12_borrow(v: &SmallVecI32N12) -> (r: &[i32])
    ensures
        r@ == sv_i32n12_items(*v),
{
    std::borrow::Borrow::<[i32]>::borrow(&v.inner)
}

/// `as_slice`: the items.
#[verifier::external_body]
pub(crate) fn small_vec_i32n12_as_slice(v: &SmallVecI32N12) -> (r: &[i32])
    ensures
        r@ == sv_i32n12_items(*v),
{
    v.inner.as_slice()
}

/// `Deref`: the items.
#[verifier::external_body]
pub(crate) fn small_vec_i32n12_deref(v: &SmallVecI32N12) -> (r: &[i32])
    ensures
        r@ == sv_i32n12_items(*v),
{
    std::ops::Deref::deref(&v.inner)
}

/// `clear`: no items left; the capacity stays.
#[verifier::external_body]
pub(crate) fn small_vec_i32n12_clear(v: &mut SmallVecI32N12)
    requires
        old(v).wf(),
    ensures
        final(v).wf(),
        sv_i32n12_items(*final(v)) == Seq::<i32>::empty(),
        sv_i32n12_cap(*final(v)) == sv_i32n12_cap(*old(v)),
{
    v.inner.clear()
}

/// `shrink_to_fit`: a heap vector moves back inline when its items fit there,
/// else its buffer shrinks to its length.
#[verifier::external_body]
pub(crate) fn small_vec_i32n12_shrink_to_fit(v: &mut SmallVecI32N12)
    requires
        old(v).wf(),
    ensures
        final(v).wf(),
        sv_i32n12_items(*final(v)) == sv_i32n12_items(*old(v)),
        sv_i32n12_cap(*final(v)) == if sv_i32n12_cap(*old(v)) == 12 || sv_i32n12_items(*old(v)).len() <= 12 { 12 } else { sv_i32n12_items(*old(v)).len() },
{
    v.inner.shrink_to_fit()
}

} // verus!

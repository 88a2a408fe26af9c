//! `SmallVec<[usize; 512]>` of the outside crate, behind trusted wrappers:
//! a vector of number-carrying elements, held as their numbers.
//!
//! The outside type is held in a private field: Verus sees a value of it only
//! through two names, the items it holds and the capacity it records. Each
//! wrapper states, over those names, what the crate's source does.
use vstd::prelude::*;
use crate::small_vec::{dedup_seq, exact_growth_overflows, exact_grown, growth_overflows, grown, lex_order, repeat, Order};
use crate::script::usize_at;
use crate::numbered::{is_even_usize, same_usize, usize_ints};

verus! {

/// A small vector of `usize` with room for 512 items inline.
#[verifier::external_body]
pub struct SmallVecNumbers512 {
    inner: smallvec::SmallVec<[usize; 512]>,
}

/// The items a `SmallVec<[usize; 512]>` holds, in order.
pub uninterp spec fn sv_n512_items(v: SmallVecNumbers512) -> Seq<usize>;

/// The capacity a `SmallVec<[usize; 512]>` records (512 while it is inline).
pub uninterp spec fn sv_n512_cap(v: SmallVecNumbers512) -> nat;

impl View for SmallVecNumbers512 {
    type V = Seq<usize>;

    open spec fn view(&self) -> Seq<usize> {
        sv_n512_items(*self)
    }
}

impl SmallVecNumbers512 {
    /// The capacity that `capacity()` reports.
    pub open spec fn cap(self) -> nat {
        sv_n512_cap(self)
    }

    /// What every vector of this type satisfies: it holds at most its
    /// capacity, is never smaller than its inline size, and a heap buffer
    /// never exceeds `isize::MAX` bytes.
    pub open spec fn wf(self) -> bool {
        &&& self@.len() <= self.cap()
        &&& self.cap() >= 512
        &&& self.cap() * vstd::layout::size_of::<usize>() <= isize::MAX || self.cap() == 512
    }
}

/// `SmallVec::from_vec`: the items of `vec`; inline when the vector's own
/// capacity is at most 512, else taking over its buffer, whose capacity
/// nothing here states.
#[verifier::external_body]
pub(crate) fn small_vec_n512_from_vec(vec: Vec<usize>) -> (r: SmallVecNumbers512)
    ensures
        r.wf(),
        sv_n512_items(r) == vec@,
{
    SmallVecNumbers512 { inner: smallvec::SmallVec::from_vec(vec) }
}

/// `swap_remove`: the item at `index`, replaced by the last item; it panics
/// when `index >= len`.
#[verifier::external_body]
pub(crate) fn small_vec_n512_swap_remove(v: &mut SmallVecNumbers512, index: usize) -> (r: usize)
    requires
        old(v).wf(),
        index < sv_n512_items(*old(v)).len(),
    ensures
        final(v).wf(),
        r == sv_n512_items(*old(v))[index as int],
        sv_n512_items(*final(v)) == sv_n512_items(*old(v)).update(index as int, sv_n512_items(*old(v)).last()).drop_last(),
        sv_n512_cap(*final(v)) == sv_n512_cap(*old(v)),
{
    v.inner.swap_remove(index)
}

/// `resize`: truncated to `len`, or extended to `len` with copies of
/// `value` after reserving room for them.
#[verifier::external_body]
pub(crate) fn small_vec_n512_resize(v: &mut SmallVecNumbers512, len: usize, value: usize)
    requires
        old(v).wf(),
        len > sv_n512_items(*old(v)).len() ==> !growth_overflows(sv_n512_items(*old(v)).len(), sv_n512_cap(*old(v)), (len - sv_n512_items(*old(v)).len()) as nat, vstd::layout::size_of::<usize>()),
    ensures
        final(v).wf(),
        len <= sv_n512_items(*old(v)).len() ==> sv_n512_items(*final(v)) == sv_n512_items(*old(v)).take(len as int) && sv_n512_cap(*final(v)) == sv_n512_cap(*old(v)),
        len > sv_n512_items(*old(v)).len() ==> sv_n512_items(*final(v)) == sv_n512_items(*old(v)) + repeat(value, (len - sv_n512_items(*old(v)).len()) as nat)
            && sv_n512_cap(*final(v)) == grown(sv_n512_items(*old(v)).len(), sv_n512_cap(*old(v)), (len - sv_n512_items(*old(v)).len()) as nat),
{
    v.inner.resize(len, value)
}

/// `len`: the number of items.
#[verifier::external_body]
pub(crate) fn small_vec_n512_len(v: &SmallVecNumbers512) -> (r: usize)
    ensures
        r == sv_n512_items(*v).len(),
{
    v.inner.len()
}

/// `capacity`: the recorded capacity.
#[verifier::external_body]
pub(crate) fn small_vec_n512_capacity(v: &SmallVecNumbers512) -> (r: usize)
    ensures
        r == sv_n512_cap(*v),
{
    v.inner.capacity()
}

/// `is_empty`: whether there are no items.
#[verifier::external_body]
pub(crate) fn small_vec_n512_is_empty(v: &SmallVecNumbers512) -> (r: bool)
    ensures
        r == (sv_n512_items(*v).len() == 0),
{
    v.inner.is_empty()
}

/// `IndexMut<usize>`: the item at `index`, read through a mutable reference;
/// it panics when `index >= len`.
#[verifier::external_body]
pub(crate) fn small_vec_n512_index_mut(v: &mut SmallVecNumbers512, index: usize) -> (r: usize)
    requires
        old(v).wf(),
        index < sv_n512_items(*old(v)).len(),
    ensures
        r == sv_n512_items(*old(v))[index as int],
        sv_n512_items(*final(v)) == sv_n512_items(*old(v)),
        sv_n512_cap(*final(v)) == sv_n512_cap(*old(v)),
{
    *std::ops::IndexMut::index_mut(&mut v.inner, index)
}

} // verus!

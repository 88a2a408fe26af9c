//! `SmallVec<[String; 15]>` and `SmallVec<[String; 12]>` of the outside
//! crate, behind trusted wrappers.
//!
//! Each outside type is held in a private field: Verus sees a value of it
//! only through two names, the texts of the items it holds and the capacity
//! it records. Each wrapper states, over those names, what the crate's
//! source does. Growth is computed over items of `size_of::<String>()` bytes.
use vstd::prelude::*;
use crate::small_vec::{exact_growth_overflows, growth_overflows, grown, repeat, Order};

verus! {

/// The texts of a sequence of strings.
pub open spec fn texts(v: Seq<String>) -> Seq<Seq<char>> {
    v.map_values(|s: String| s@)
}

/// The size in bytes of one item.
pub open spec fn string_size() -> nat {
    vstd::layout::size_of::<String>()
}

/// A small vector of strings with room for 15 items inline.
#[verifier::external_body]
pub struct SmallVecString15 {
    inner: smallvec::SmallVec<[String; 15]>,
}

/// A small vector of strings with room for 12 items inline.
#[verifier::external_body]
pub struct SmallVecString12 {
    inner: smallvec::SmallVec<[String; 12]>,
}

/// The texts of the items a `SmallVec<[String; 15]>` holds, in order.
pub uninterp spec fn sv_str15_items(v: SmallVecString15) -> Seq<Seq<char>>;

/// The capacity a `SmallVec<[String; 15]>` records (15 while it is inline).
pub uninterp spec fn sv_str15_cap(v: SmallVecString15) -> nat;

/// The texts of the items a `SmallVec<[String; 12]>` holds, in order.
pub uninterp spec fn sv_str12_items(v: SmallVecString12) -> Seq<Seq<char>>;

/// The capacity a `SmallVec<[String; 12]>` records (12 while it is inline).
pub uninterp spec fn sv_str12_cap(v: SmallVecString12) -> nat;

impl SmallVecString15 {
    /// What every vector of this type satisfies: it holds at most its
    /// capacity, is never smaller than its inline size, and a heap buffer
    /// never exceeds `isize::MAX` bytes.
    pub open spec fn wf(self) -> bool {
        &&& sv_str15_items(self).len() <= sv_str15_cap(self)
        &&& sv_str15_cap(self) >= 15
        &&& sv_str15_cap(self) * string_size() <= isize::MAX || sv_str15_cap(self) == 15
    }
}

/// `SmallVec::new`: empty and inline.
#[verifier::external_body]
pub(crate) fn small_vec_string15_new() -> (r: SmallVecString15)
    ensures
        r.wf(),
        sv_str15_items(r) == Seq::<Seq<char>>::empty(),
        sv_str15_cap(r) == 15,
{
    SmallVecString15 { inner: smallvec::SmallVec::new() }
}

impl SmallVecString12 {
    /// What every vector of this type satisfies: it holds at most its
    /// capacity, is never smaller than its inline size, and a heap buffer
    /// never exceeds `isize::MAX` bytes.
    pub open spec fn wf(self) -> bool {
        &&& sv_str12_items(self).len() <= sv_str12_cap(self)
        &&& sv_str12_cap(self) >= 12
        &&& sv_str12_cap(self) * string_size() <= isize::MAX || sv_str12_cap(self) == 12
    }
}

/// `SmallVec::new`: empty and inline.
#[verifier::external_body]
pub(crate) fn small_vec_string12_new() -> (r: SmallVecString12)
    ensures
        r.wf(),
        sv_str12_items(r) == Seq::<Seq<char>>::empty(),
        sv_str12_cap(r) == 12,
{
    SmallVecString12 { inner: smallvec::SmallVec::new() }
}

/// `SmallVec::with_capacity`: empty, with room for `n` items (inline when
/// `n <= 12`); the size computation must not overflow.
#[verifier::external_body]
pub(crate) fn small_vec_string12_with_capacity(n: usize) -> (r: SmallVecString12)
    requires
        !exact_growth_overflows(0, 12, n as nat, string_size()),
    ensures
        r.wf(),
        sv_str12_items(r) == Seq::<Seq<char>>::empty(),
        sv_str12_cap(r) == if n <= 12 { 12 } else { n as nat },
{
    SmallVecString12 { inner: smallvec::SmallVec::with_capacity(n) }
}

/// `SmallVec::from_vec`: the items of `vec`; inline when the vector's own
/// capacity is at most 12, else taking over its buffer, whose capacity
/// nothing here states.
#[verifier::external_body]
pub(crate) fn small_vec_string12_from_vec(vec: Vec<String>) -> (r: SmallVecString12)
    ensures
        r.wf(),
        sv_str12_items(r) == texts(vec@),
{
    SmallVecString12 { inner: smallvec::SmallVec::from_vec(vec) }
}

/// `push`: `value` appended; a full vector first grows by amortised doubling,
/// whose size computation must not overflow.
#[verifier::external_body]
pub(crate) fn small_vec_string12_push(v: &mut SmallVecString12, value: String)
    requires
        old(v).wf(),
        !growth_overflows(sv_str12_items(*old(v)).len(), sv_str12_cap(*old(v)), 1, string_size()),
    ensures
        final(v).wf(),
        sv_str12_items(*final(v)) == sv_str12_items(*old(v)).push(value@),
        sv_str12_cap(*final(v)) == grown(sv_str12_items(*old(v)).len(), sv_str12_cap(*old(v)), 1),
{
    v.inner.push(value)
}

/// `try_reserve`: as `reserve`, reporting failure instead of panicking. It
/// fails whenever the size computation overflows; otherwise it may still fail
/// when the allocator refuses, which nothing here states. A failure leaves the
/// vector as it was.
#[verifier::external_body]
pub(crate) fn small_vec_string12_try_reserve(v: &mut SmallVecString12, additional: usize) -> (r: Result<(), smallvec::CollectionAllocErr>)
    requires
        old(v).wf(),
    ensures
        final(v).wf(),
        sv_str12_items(*final(v)) == sv_str12_items(*old(v)),
        growth_overflows(sv_str12_items(*old(v)).len(), sv_str12_cap(*old(v)), additional as nat, string_size()) ==> r is Err,
        sv_str12_cap(*old(v)) - sv_str12_items(*old(v)).len() >= additional ==> r is Ok,
        r is Ok ==> sv_str12_cap(*final(v)) == grown(sv_str12_items(*old(v)).len(), sv_str12_cap(*old(v)), additional as nat),
        r is Err ==> sv_str12_cap(*final(v)) == sv_str12_cap(*old(v)),
{
    v.inner.try_reserve(additional)
}

/// `append` of another 12-slot vector: all its items moved to the end of
/// `v`, after reserving room for them, leaving `other` empty with its
/// capacity.
#[verifier::external_body]
pub(crate) fn small_vec_string12_append(v: &mut SmallVecString12, other: &mut SmallVecString12)
    requires
        old(v).wf(),
        old(other).wf(),
        !growth_overflows(
            sv_str12_items(*old(v)).len(),
            sv_str12_cap(*old(v)),
            sv_str12_items(*old(other)).len(),
            string_size(),
        ),
    ensures
        final(v).wf(),
        final(other).wf(),
        sv_str12_items(*final(v)) == sv_str12_items(*old(v)) + sv_str12_items(*old(other)),
        sv_str12_cap(*final(v)) == grown(
            sv_str12_items(*old(v)).len(),
            sv_str12_cap(*old(v)),
            sv_str12_items(*old(other)).len(),
        ),
        sv_str12_items(*final(other)) == Seq::<Seq<char>>::empty(),
        sv_str12_cap(*final(other)) == sv_str12_cap(*old(other)),
{
    v.inner.append(&mut other.inner)
}

/// `Clone`: clones of the items, collected into a new vector that reserves
/// room for all of them.
#[verifier::external_body]
pub(crate) fn small_vec_string12_clone(v: &SmallVecString12) -> (r: SmallVecString12)
    requires
        !growth_overflows(0, 12, sv_str12_items(*v).len(), string_size()),
    ensures
        r.wf(),
        sv_str12_items(r) == sv_str12_items(*v),
        sv_str12_cap(r) == grown(0, 12, sv_str12_items(*v).len()),
{
    SmallVecString12 { inner: v.inner.clone() }
}

/// `PartialEq::eq`: whether the texts are equal, one for one.
#[verifier::external_body]
pub(crate) fn small_vec_string12_eq(a: &SmallVecString12, b: &SmallVecString12) -> (r: bool)
    ensures
        r == (sv_str12_items(*a) == sv_str12_items(*b)),
{
    a.inner == b.inner
}

/// `Ord::cmp`: the lexicographic order of the texts. It is `Equal` exactly
/// when the texts are equal, one for one; which of the other two it is, is
/// not stated here.
#[verifier::external_body]
pub(crate) fn small_vec_string12_compare(a: &SmallVecString12, b: &SmallVecString12) -> (r: Order)
    ensures
        (r == Order::Equal) == (sv_str12_items(*a) == sv_str12_items(*b)),
{
    match std::cmp::Ord::cmp(&a.inner, &b.inner) {
        std::cmp::Ordering::Less => Order::Less,
        std::cmp::Ordering::Equal => Order::Equal,
        std::cmp::Ordering::Greater => Order::Greater,
    }
}

/// `PartialOrd::partial_cmp`: always `Some` of the order of `Ord::cmp`; it
/// is `Some(Equal)` exactly when the texts are equal, one for one.
#[verifier::external_body]
pub(crate) fn small_vec_string12_partial_compare(a: &SmallVecString12, b: &SmallVecString12) -> (r: Option<Order>)
    ensures
        r is Some,
        (r == Some(Order::Equal)) == (sv_str12_items(*a) == sv_str12_items(*b)),
{
    match std::cmp::PartialOrd::partial_cmp(&a.inner, &b.inner) {
        Some(std::cmp::Ordering::Less) => Some(Order::Less),
        Some(std::cmp::Ordering::Equal) => Some(Order::Equal),
        Some(std::cmp::Ordering::Greater) => Some(Order::Greater),
        None => None,
    }
}

/// `len`: the number of items.
#[verifier::external_body]
pub(crate) fn small_vec_string12_len(v: &SmallVecString12) -> (r: usize)
    ensures
        r == sv_str12_items(*v).len(),
{
    v.inner.len()
}

/// `capacity`: the recorded capacity.
#[verifier::external_body]
pub(crate) fn small_vec_string12_capacity(v: &SmallVecString12) -> (r: usize)
    ensures
        r == sv_str12_cap(*v),
{
    v.inner.capacity()
}

/// `into_boxed_slice`: the items, as a boxed slice.
#[verifier::external_body]
pub(crate) fn small_vec_string12_into_boxed_slice(v: SmallVecString12) -> (r: Box<[String]>)
    ensures
        texts(r@) == sv_str12_items(v),
{
    v.inner.into_boxed_slice()
}

/// `Deref`: the items.
#[verifier::external_body]
pub(crate) fn small_vec_string12_deref(v: &SmallVecString12) -> (r: &[String])
    ensures
        texts(r@) == sv_str12_items(*v),
{
    std::ops::Deref::deref(&v.inner)
}

/// `SmallVec::with_capacity`: empty, with room for `n` items (inline when
/// `n <= 15`); the size computation must not overflow.
#[verifier::external_body]
pub(crate) fn small_vec_string15_with_capacity(n: usize) -> (r: SmallVecString15)
    requires
        !exact_growth_overflows(0, 15, n as nat, string_size()),
    ensures
        r.wf(),
        sv_str15_items(r) == Seq::<Seq<char>>::empty(),
        sv_str15_cap(r) == if n <= 15 { 15 } else { n as nat },
{
    SmallVecString15 { inner: smallvec::SmallVec::with_capacity(n) }
}

/// `SmallVec::from_vec`: the items of `vec`; inline when the vector's own
/// capacity is at most 15, else taking over its buffer.
#[verifier::external_body]
pub(crate) fn small_vec_string15_from_vec(vec: Vec<String>) -> (r: SmallVecString15)
    ensures
        r.wf(),
        sv_str15_items(r) == texts(vec@),
{
    SmallVecString15 { inner: smallvec::SmallVec::from_vec(vec) }
}

/// `SmallVec::from_elem`: `n` clones of `elem`; inline when `n <= 15`, else
/// through `vec![elem; n]`, whose size computation must not overflow.
#[verifier::external_body]
pub(crate) fn small_vec_string15_from_elem(elem: String, n: usize) -> (r: SmallVecString15)
    requires
        n <= 15 || n * string_size() <= isize::MAX,
    ensures
        r.wf(),
        sv_str15_items(r) == repeat(elem@, n as nat),
        n <= 15 ==> sv_str15_cap(r) == 15,
{
    SmallVecString15 { inner: smallvec::SmallVec::from_elem(elem, n) }
}

/// `len`: the number of items.
#[verifier::external_body]
pub(crate) fn small_vec_string15_len(v: &SmallVecString15) -> (r: usize)
    ensures
        r == sv_str15_items(*v).len(),
{
    v.inner.len()
}

/// `capacity`: the recorded capacity.
#[verifier::external_body]
pub(crate) fn small_vec_string15_capacity(v: &SmallVecString15) -> (r: usize)
    ensures
        r == sv_str15_cap(*v),
{
    v.inner.capacity()
}

/// `as_slice`: the items.
#[verifier::external_body]
pub(crate) fn small_vec_string15_as_slice(v: &SmallVecString15) -> (r: &[String])
    ensures
        texts(r@) == sv_str15_items(*v),
{
    v.inner.as_slice()
}

/// `Deref`: the items.
#[verifier::external_body]
pub(crate) fn small_vec_string15_deref(v: &SmallVecString15) -> (r: &[String])
    ensures
        texts(r@) == sv_str15_items(*v),
{
    std::ops::Deref::deref(&v.inner)
}

/// `push`: `value` appended; a full vector first grows by amortised doubling,
/// whose size computation must not overflow.
#[verifier::external_body]
pub(crate) fn small_vec_string15_push(v: &mut SmallVecString15, value: String)
    requires
        old(v).wf(),
        !growth_overflows(sv_str15_items(*old(v)).len(), sv_str15_cap(*old(v)), 1, string_size()),
    ensures
        final(v).wf(),
        sv_str15_items(*final(v)) == sv_str15_items(*old(v)).push(value@),
        sv_str15_cap(*final(v)) == grown(sv_str15_items(*old(v)).len(), sv_str15_cap(*old(v)), 1),
{
    v.inner.push(value)
}

/// `pop`: the last item, removed, or `None` when empty; the capacity stays.
#[verifier::external_body]
pub(crate) fn small_vec_string15_pop(v: &mut SmallVecString15) -> (r: Option<String>)
    requires
        old(v).wf(),
    ensures
        final(v).wf(),
        sv_str15_cap(*final(v)) == sv_str15_cap(*old(v)),
        sv_str15_items(*old(v)).len() == 0 ==> r is None && sv_str15_items(*final(v))
            == sv_str15_items(*old(v)),
        sv_str15_items(*old(v)).len() > 0 ==> (r matches Some(s) && s@ == sv_str15_items(
            *old(v),
        ).last()) && sv_str15_items(*final(v)) == sv_str15_items(*old(v)).drop_last(),
{
    v.inner.pop()
}

/// `insert`: `element` placed at `index`, later items shifted right; it first
/// reserves room for one item, and panics when `index > len`.
#[verifier::external_body]
pub(crate) fn small_vec_string15_insert(v: &mut SmallVecString15, index: usize, element: String)
    requires
        old(v).wf(),
        index <= sv_str15_items(*old(v)).len(),
        !growth_overflows(sv_str15_items(*old(v)).len(), sv_str15_cap(*old(v)), 1, string_size()),
    ensures
        final(v).wf(),
        sv_str15_items(*final(v)) == sv_str15_items(*old(v)).insert(index as int, element@),
        sv_str15_cap(*final(v)) == grown(sv_str15_items(*old(v)).len(), sv_str15_cap(*old(v)), 1),
{
    v.inner.insert(index, element)
}

/// `remove`: the item at `index`, later items shifted left; it panics when
/// `index >= len`.
#[verifier::external_body]
pub(crate) fn small_vec_string15_remove(v: &mut SmallVecString15, index: usize) -> (r: String)
    requires
        old(v).wf(),
        index < sv_str15_items(*old(v)).len(),
    ensures
        final(v).wf(),
        r@ == sv_str15_items(*old(v))[index as int],
        sv_str15_items(*final(v)) == sv_str15_items(*old(v)).remove(index as int),
        sv_str15_cap(*final(v)) == sv_str15_cap(*old(v)),
{
    v.inner.remove(index)
}

/// `swap_remove`: the item at `index`, replaced by the last item; it panics
/// when `index >= len`.
#[verifier::external_body]
pub(crate) fn small_vec_string15_swap_remove(v: &mut SmallVecString15, index: usize) -> (r: String)
    requires
        old(v).wf(),
        index < sv_str15_items(*old(v)).len(),
    ensures
        final(v).wf(),
        r@ == sv_str15_items(*old(v))[index as int],
        sv_str15_items(*final(v)) == sv_str15_items(*old(v)).update(
            index as int,
            sv_str15_items(*old(v)).last(),
        ).drop_last(),
        sv_str15_cap(*final(v)) == sv_str15_cap(*old(v)),
{
    v.inner.swap_remove(index)
}

/// `truncate`: the first `len` items kept (all of them when there are fewer).
#[verifier::external_body]
pub(crate) fn small_vec_string15_truncate(v: &mut SmallVecString15, len: usize)
    requires
        old(v).wf(),
    ensures
        final(v).wf(),
        sv_str15_items(*final(v)) == if len < sv_str15_items(*old(v)).len() {
            sv_str15_items(*old(v)).take(len as int)
        } else {
            sv_str15_items(*old(v))
        },
        sv_str15_cap(*final(v)) == sv_str15_cap(*old(v)),
{
    v.inner.truncate(len)
}

/// `clear`: no items left; the capacity stays.
#[verifier::external_body]
pub(crate) fn small_vec_string15_clear(v: &mut SmallVecString15)
    requires
        old(v).wf(),
    ensures
        final(v).wf(),
        sv_str15_items(*final(v)) == Seq::<Seq<char>>::empty(),
        sv_str15_cap(*final(v)) == sv_str15_cap(*old(v)),
{
    v.inner.clear()
}

/// `reserve`: room for `additional` more items by amortised doubling; the
/// size computation must not overflow.
#[verifier::external_body]
pub(crate) fn small_vec_string15_reserve(v: &mut SmallVecString15, additional: usize)
    requires
        old(v).wf(),
        !growth_overflows(
            sv_str15_items(*old(v)).len(),
            sv_str15_cap(*old(v)),
            additional as nat,
            string_size(),
        ),
    ensures
        final(v).wf(),
        sv_str15_items(*final(v)) == sv_str15_items(*old(v)),
        sv_str15_cap(*final(v)) == grown(
            sv_str15_items(*old(v)).len(),
            sv_str15_cap(*old(v)),
            additional as nat,
        ),
{
    v.inner.reserve(additional)
}

/// `shrink_to_fit`: a heap vector moves back inline when its items fit there,
/// else its buffer shrinks to its length.
#[verifier::external_body]
pub(crate) fn small_vec_string15_shrink_to_fit(v: &mut SmallVecString15)
    requires
        old(v).wf(),
    ensures
        final(v).wf(),
        sv_str15_items(*final(v)) == sv_str15_items(*old(v)),
        sv_str15_cap(*final(v)) == if sv_str15_cap(*old(v)) == 15 || sv_str15_items(*old(v)).len()
            <= 15 {
            15
        } else {
            sv_str15_items(*old(v)).len()
        },
{
    v.inner.shrink_to_fit()
}

/// `append` of a 12-slot vector: all its items moved to the end of `v`,
/// after reserving room for them, leaving `other` empty with its capacity.
#[verifier::external_body]
pub(crate) fn small_vec_string15_append(v: &mut SmallVecString15, other: &mut SmallVecString12)
    requires
        old(v).wf(),
        !growth_overflows(
            sv_str15_items(*old(v)).len(),
            sv_str15_cap(*old(v)),
            sv_str12_items(*old(other)).len(),
            string_size(),
        ),
    ensures
        final(v).wf(),
        sv_str15_items(*final(v)) == sv_str15_items(*old(v)) + sv_str12_items(*old(other)),
        sv_str15_cap(*final(v)) == grown(
            sv_str15_items(*old(v)).len(),
            sv_str15_cap(*old(v)),
            sv_str12_items(*old(other)).len(),
        ),
        sv_str12_items(*final(other)) == Seq::<Seq<char>>::empty(),
        sv_str12_cap(*final(other)) == sv_str12_cap(*old(other)),
{
    v.inner.append(&mut other.inner)
}

/// `Clone`: clones of the items, collected into a new vector that reserves
/// room for all of them.
#[verifier::external_body]
pub(crate) fn small_vec_string15_clone(v: &SmallVecString15) -> (r: SmallVecString15)
    requires
        !growth_overflows(0, 15, sv_str15_items(*v).len(), string_size()),
    ensures
        r.wf(),
        sv_str15_items(r) == sv_str15_items(*v),
        sv_str15_cap(r) == grown(0, 15, sv_str15_items(*v).len()),
{
    SmallVecString15 { inner: v.inner.clone() }
}

/// `into_vec`: the items, as a `Vec`.
#[verifier::external_body]
pub(crate) fn small_vec_string15_into_vec(v: SmallVecString15) -> (r: Vec<String>)
    ensures
        texts(r@) == sv_str15_items(v),
{
    v.inner.into_vec()
}

/// `drain` of `start..end`, run to its end: the removed items, in order; the
/// items after the range close the gap. It panics unless
/// `start <= end <= len`.
#[verifier::external_body]
pub(crate) fn small_vec_string15_drain(v: &mut SmallVecString15, start: usize, end: usize) -> (r: Vec<String>)
    requires
        old(v).wf(),
        start <= end <= sv_str15_items(*old(v)).len(),
    ensures
        final(v).wf(),
        texts(r@) == sv_str15_items(*old(v)).subrange(start as int, end as int),
        sv_str15_items(*final(v)) == sv_str15_items(*old(v)).take(start as int) + sv_str15_items(
            *old(v),
        ).skip(end as int),
        sv_str15_cap(*final(v)) == sv_str15_cap(*old(v)),
{
    v.inner.drain(start..end).collect()
}

} // verus!

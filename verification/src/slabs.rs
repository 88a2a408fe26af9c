//! `Slab<T>` of the outside crate `simple_slab`, behind trusted wrappers.
//!
//! A slab is opaque to Verus: a value of it is seen only through two names
//! for each element type, the items it holds and the capacity it records.
//! Each wrapper states, over those names, what the crate's source does. The
//! crate allocates through the C allocator: `with_capacity(n)` asks for
//! `size * n` bytes and panics on a null answer, and `insert` into a full slab
//! asks to double the buffer, panicking likewise. Requests above `isize::MAX`
//! bytes are refused by the C allocator; the wrappers require that none is
//! made, and an allocation that fails for want of memory is not modelled.
use vstd::prelude::*;

verus! {

/// `simple_slab::Slab`, declared so that it can stand in signatures.
#[verifier::external_type_specification]
#[verifier::external_body]
#[verifier::reject_recursive_types(T)]
pub struct ExSlab<T>(simple_slab::Slab<T>);

/// The capacity after one insertion onto `len` items in capacity `cap`: a
/// full slab doubles it (an empty buffer grows to one).
pub open spec fn slab_grown(len: nat, cap: nat) -> nat {
    if len == cap {
        if cap == 0 {
            1
        } else {
            2 * cap
        }
    } else {
        cap
    }
}

/// The items a `Slab<String>` holds, in order (by their views).
pub uninterp spec fn slab_texts_items(s: simple_slab::Slab<String>) -> Seq<Seq<char>>;

/// The capacity a `Slab<String>` records: the items its buffer has room for.
pub uninterp spec fn slab_texts_cap(s: simple_slab::Slab<String>) -> nat;

/// What every slab of items of this type satisfies: it holds at most its
/// capacity, and its buffer stays within `isize::MAX` bytes.
pub open spec fn slab_texts_wf(s: simple_slab::Slab<String>) -> bool {
    &&& slab_texts_items(s).len() <= slab_texts_cap(s)
    &&& slab_texts_cap(s) * vstd::layout::size_of::<String>() <= isize::MAX
}

/// `Slab::with_capacity`: empty, with room for `capacity` items; the
/// request of `size * capacity` bytes must stay within `isize::MAX`.
#[verifier::external_body]
pub(crate) fn slab_texts_with_capacity(capacity: usize) -> (r: simple_slab::Slab<String>)
    requires
        capacity * vstd::layout::size_of::<String>() <= isize::MAX,
    ensures
        slab_texts_wf(r),
        slab_texts_items(r) == Seq::<Seq<char>>::empty(),
        slab_texts_cap(r) == capacity,
{
    simple_slab::Slab::with_capacity(capacity)
}

/// `Slab::new`: `with_capacity(1)`.
#[verifier::external_body]
pub(crate) fn slab_texts_new() -> (r: simple_slab::Slab<String>)
    ensures
        slab_texts_wf(r),
        slab_texts_items(r) == Seq::<Seq<char>>::empty(),
        slab_texts_cap(r) == 1,
{
    simple_slab::Slab::new()
}

/// `insert`: `elem` appended; a full slab first doubles its buffer, which
/// must stay within `isize::MAX` bytes.
#[verifier::external_body]
pub(crate) fn slab_texts_insert(s: &mut simple_slab::Slab<String>, elem: String)
    requires
        slab_texts_wf(*old(s)),
        slab_grown(slab_texts_items(*old(s)).len(), slab_texts_cap(*old(s))) * vstd::layout::size_of::<String>() <= isize::MAX,
    ensures
        slab_texts_wf(*final(s)),
        slab_texts_items(*final(s)) == slab_texts_items(*old(s)).push(elem@),
        slab_texts_cap(*final(s)) == slab_grown(slab_texts_items(*old(s)).len(), slab_texts_cap(*old(s))),
{
    s.insert(elem)
}

/// `len`: the number of items.
#[verifier::external_body]
pub(crate) fn slab_texts_len(s: &simple_slab::Slab<String>) -> (r: usize)
    ensures
        r == slab_texts_items(*s).len(),
{
    s.len()
}

/// The items, in order, as the slab's iterator hands them out, copied.
#[verifier::external_body]
pub(crate) fn slab_texts_contents(s: &mut simple_slab::Slab<String>) -> (r: Vec<String>)
    ensures
        r@.map_values(|x: String| x@) == slab_texts_items(*old(s)),
        slab_texts_items(*final(s)) == slab_texts_items(*old(s)),
        slab_texts_cap(*final(s)) == slab_texts_cap(*old(s)),
{
    s.iter().cloned().collect()
}

/// The items a `Slab<i32>` holds, in order.
pub uninterp spec fn slab_i32s_items(s: simple_slab::Slab<i32>) -> Seq<i32>;

/// The capacity a `Slab<i32>` records: the items its buffer has room for.
pub uninterp spec fn slab_i32s_cap(s: simple_slab::Slab<i32>) -> nat;

/// What every slab of items of this type satisfies: it holds at most its
/// capacity, and its buffer stays within `isize::MAX` bytes.
pub open spec fn slab_i32s_wf(s: simple_slab::Slab<i32>) -> bool {
    &&& slab_i32s_items(s).len() <= slab_i32s_cap(s)
    &&& slab_i32s_cap(s) * vstd::layout::size_of::<i32>() <= isize::MAX
}

/// `Slab::with_capacity`: empty, with room for `capacity` items; the
/// request of `size * capacity` bytes must stay within `isize::MAX`.
#[verifier::external_body]
pub(crate) fn slab_i32s_with_capacity(capacity: usize) -> (r: simple_slab::Slab<i32>)
    requires
        capacity * vstd::layout::size_of::<i32>() <= isize::MAX,
    ensures
        slab_i32s_wf(r),
        slab_i32s_items(r) == Seq::<i32>::empty(),
        slab_i32s_cap(r) == capacity,
{
    simple_slab::Slab::with_capacity(capacity)
}

/// `Slab::new`: `with_capacity(1)`.
#[verifier::external_body]
pub(crate) fn slab_i32s_new() -> (r: simple_slab::Slab<i32>)
    ensures
        slab_i32s_wf(r),
        slab_i32s_items(r) == Seq::<i32>::empty(),
        slab_i32s_cap(r) == 1,
{
    simple_slab::Slab::new()
}

/// `insert`: `elem` appended; a full slab first doubles its buffer, which
/// must stay within `isize::MAX` bytes.
#[verifier::external_body]
pub(crate) fn slab_i32s_insert(s: &mut simple_slab::Slab<i32>, elem: i32)
    requires
        slab_i32s_wf(*old(s)),
        slab_grown(slab_i32s_items(*old(s)).len(), slab_i32s_cap(*old(s))) * vstd::layout::size_of::<i32>() <= isize::MAX,
    ensures
        slab_i32s_wf(*final(s)),
        slab_i32s_items(*final(s)) == slab_i32s_items(*old(s)).push(elem),
        slab_i32s_cap(*final(s)) == slab_grown(slab_i32s_items(*old(s)).len(), slab_i32s_cap(*old(s))),
{
    s.insert(elem)
}

/// `len`: the number of items.
#[verifier::external_body]
pub(crate) fn slab_i32s_len(s: &simple_slab::Slab<i32>) -> (r: usize)
    ensures
        r == slab_i32s_items(*s).len(),
{
    s.len()
}

/// The items, in order, as the slab's iterator hands them out, copied.
#[verifier::external_body]
pub(crate) fn slab_i32s_contents(s: &mut simple_slab::Slab<i32>) -> (r: Vec<i32>)
    ensures
        r@ == slab_i32s_items(*old(s)),
        slab_i32s_items(*final(s)) == slab_i32s_items(*old(s)),
        slab_i32s_cap(*final(s)) == slab_i32s_cap(*old(s)),
{
    s.iter_mut().map(|x: &mut i32| *x).collect()
}

/// The items a `Slab<Vec<u8>>` holds, in order (by their views).
pub uninterp spec fn slab_bytes_items(s: simple_slab::Slab<Vec<u8>>) -> Seq<Seq<u8>>;

/// The capacity a `Slab<Vec<u8>>` records: the items its buffer has room for.
pub uninterp spec fn slab_bytes_cap(s: simple_slab::Slab<Vec<u8>>) -> nat;

/// What every slab of items of this type satisfies: it holds at most its
/// capacity, and its buffer stays within `isize::MAX` bytes.
pub open spec fn slab_bytes_wf(s: simple_slab::Slab<Vec<u8>>) -> bool {
    &&& slab_bytes_items(s).len() <= slab_bytes_cap(s)
    &&& slab_bytes_cap(s) * vstd::layout::size_of::<Vec<u8>>() <= isize::MAX
}

/// `Slab::with_capacity`: empty, with room for `capacity` items; the
/// request of `size * capacity` bytes must stay within `isize::MAX`.
#[verifier::external_body]
pub(crate) fn slab_bytes_with_capacity(capacity: usize) -> (r: simple_slab::Slab<Vec<u8>>)
    requires
        capacity * vstd::layout::size_of::<Vec<u8>>() <= isize::MAX,
    ensures
        slab_bytes_wf(r),
        slab_bytes_items(r) == Seq::<Seq<u8>>::empty(),
        slab_bytes_cap(r) == capacity,
{
    simple_slab::Slab::with_capacity(capacity)
}

/// `Slab::new`: `with_capacity(1)`.
#[verifier::external_body]
pub(crate) fn slab_bytes_new() -> (r: simple_slab::Slab<Vec<u8>>)
    ensures
        slab_bytes_wf(r),
        slab_bytes_items(r) == Seq::<Seq<u8>>::empty(),
        slab_bytes_cap(r) == 1,
{
    simple_slab::Slab::new()
}

/// `insert`: `elem` appended; a full slab first doubles its buffer, which
/// must stay within `isize::MAX` bytes.
#[verifier::external_body]
pub(crate) fn slab_bytes_insert(s: &mut simple_slab::Slab<Vec<u8>>, elem: Vec<u8>)
    requires
        slab_bytes_wf(*old(s)),
        slab_grown(slab_bytes_items(*old(s)).len(), slab_bytes_cap(*old(s))) * vstd::layout::size_of::<Vec<u8>>() <= isize::MAX,
    ensures
        slab_bytes_wf(*final(s)),
        slab_bytes_items(*final(s)) == slab_bytes_items(*old(s)).push(elem@),
        slab_bytes_cap(*final(s)) == slab_grown(slab_bytes_items(*old(s)).len(), slab_bytes_cap(*old(s))),
{
    s.insert(elem)
}

/// `len`: the number of items.
#[verifier::external_body]
pub(crate) fn slab_bytes_len(s: &simple_slab::Slab<Vec<u8>>) -> (r: usize)
    ensures
        r == slab_bytes_items(*s).len(),
{
    s.len()
}

/// The items, in order, as the slab's iterator hands them out, copied.
#[verifier::external_body]
pub(crate) fn slab_bytes_contents(s: &mut simple_slab::Slab<Vec<u8>>) -> (r: Vec<Vec<u8>>)
    ensures
        r@.map_values(|x: Vec<u8>| x@) == slab_bytes_items(*old(s)),
        slab_bytes_items(*final(s)) == slab_bytes_items(*old(s)),
        slab_bytes_cap(*final(s)) == slab_bytes_cap(*old(s)),
{
    s.iter().cloned().collect()
}

/// The items a `Slab<i64>` holds, in order.
pub uninterp spec fn slab_i64s_items(s: simple_slab::Slab<i64>) -> Seq<i64>;

/// The capacity a `Slab<i64>` records: the items its buffer has room for.
pub uninterp spec fn slab_i64s_cap(s: simple_slab::Slab<i64>) -> nat;

/// What every slab of items of this type satisfies: it holds at most its
/// capacity, and its buffer stays within `isize::MAX` bytes.
pub open spec fn slab_i64s_wf(s: simple_slab::Slab<i64>) -> bool {
    &&& slab_i64s_items(s).len() <= slab_i64s_cap(s)
    &&& slab_i64s_cap(s) * vstd::layout::size_of::<i64>() <= isize::MAX
}

/// `Slab::with_capacity`: empty, with room for `capacity` items; the
/// request of `size * capacity` bytes must stay within `isize::MAX`.
#[verifier::external_body]
pub(crate) fn slab_i64s_with_capacity(capacity: usize) -> (r: simple_slab::Slab<i64>)
    requires
        capacity * vstd::layout::size_of::<i64>() <= isize::MAX,
    ensures
        slab_i64s_wf(r),
        slab_i64s_items(r) == Seq::<i64>::empty(),
        slab_i64s_cap(r) == capacity,
{
    simple_slab::Slab::with_capacity(capacity)
}

/// `Slab::new`: `with_capacity(1)`.
#[verifier::external_body]
pub(crate) fn slab_i64s_new() -> (r: simple_slab::Slab<i64>)
    ensures
        slab_i64s_wf(r),
        slab_i64s_items(r) == Seq::<i64>::empty(),
        slab_i64s_cap(r) == 1,
{
    simple_slab::Slab::new()
}

/// `insert`: `elem` appended; a full slab first doubles its buffer, which
/// must stay within `isize::MAX` bytes.
#[verifier::external_body]
pub(crate) fn slab_i64s_insert(s: &mut simple_slab::Slab<i64>, elem: i64)
    requires
        slab_i64s_wf(*old(s)),
        slab_grown(slab_i64s_items(*old(s)).len(), slab_i64s_cap(*old(s))) * vstd::layout::size_of::<i64>() <= isize::MAX,
    ensures
        slab_i64s_wf(*final(s)),
        slab_i64s_items(*final(s)) == slab_i64s_items(*old(s)).push(elem),
        slab_i64s_cap(*final(s)) == slab_grown(slab_i64s_items(*old(s)).len(), slab_i64s_cap(*old(s))),
{
    s.insert(elem)
}

/// `len`: the number of items.
#[verifier::external_body]
pub(crate) fn slab_i64s_len(s: &simple_slab::Slab<i64>) -> (r: usize)
    ensures
        r == slab_i64s_items(*s).len(),
{
    s.len()
}

/// The items, in order, as the slab's iterator hands them out, copied.
#[verifier::external_body]
pub(crate) fn slab_i64s_contents(s: &mut simple_slab::Slab<i64>) -> (r: Vec<i64>)
    ensures
        r@ == slab_i64s_items(*old(s)),
        slab_i64s_items(*final(s)) == slab_i64s_items(*old(s)),
        slab_i64s_cap(*final(s)) == slab_i64s_cap(*old(s)),
{
    s.iter_mut().map(|x: &mut i64| *x).collect()
}

/// The items a `Slab<bool>` holds, in order.
pub uninterp spec fn slab_flags_items(s: simple_slab::Slab<bool>) -> Seq<bool>;

/// The capacity a `Slab<bool>` records: the items its buffer has room for.
pub uninterp spec fn slab_flags_cap(s: simple_slab::Slab<bool>) -> nat;

/// What every slab of items of this type satisfies: it holds at most its
/// capacity, and its buffer stays within `isize::MAX` bytes.
pub open spec fn slab_flags_wf(s: simple_slab::Slab<bool>) -> bool {
    &&& slab_flags_items(s).len() <= slab_flags_cap(s)
    &&& slab_flags_cap(s) * vstd::layout::size_of::<bool>() <= isize::MAX
}

/// `Slab::with_capacity`: empty, with room for `capacity` items; the
/// request of `size * capacity` bytes must stay within `isize::MAX`.
#[verifier::external_body]
pub(crate) fn slab_flags_with_capacity(capacity: usize) -> (r: simple_slab::Slab<bool>)
    requires
        capacity * vstd::layout::size_of::<bool>() <= isize::MAX,
    ensures
        slab_flags_wf(r),
        slab_flags_items(r) == Seq::<bool>::empty(),
        slab_flags_cap(r) == capacity,
{
    simple_slab::Slab::with_capacity(capacity)
}

/// `Slab::new`: `with_capacity(1)`.
#[verifier::external_body]
pub(crate) fn slab_flags_new() -> (r: simple_slab::Slab<bool>)
    ensures
        slab_flags_wf(r),
        slab_flags_items(r) == Seq::<bool>::empty(),
        slab_flags_cap(r) == 1,
{
    simple_slab::Slab::new()
}

/// `insert`: `elem` appended; a full slab first doubles its buffer, which
/// must stay within `isize::MAX` bytes.
#[verifier::external_body]
pub(crate) fn slab_flags_insert(s: &mut simple_slab::Slab<bool>, elem: bool)
    requires
        slab_flags_wf(*old(s)),
        slab_grown(slab_flags_items(*old(s)).len(), slab_flags_cap(*old(s))) * vstd::layout::size_of::<bool>() <= isize::MAX,
    ensures
        slab_flags_wf(*final(s)),
        slab_flags_items(*final(s)) == slab_flags_items(*old(s)).push(elem),
        slab_flags_cap(*final(s)) == slab_grown(slab_flags_items(*old(s)).len(), slab_flags_cap(*old(s))),
{
    s.insert(elem)
}

/// `len`: the number of items.
#[verifier::external_body]
pub(crate) fn slab_flags_len(s: &simple_slab::Slab<bool>) -> (r: usize)
    ensures
        r == slab_flags_items(*s).len(),
{
    s.len()
}

/// The items, in order, as the slab's iterator hands them out, copied.
#[verifier::external_body]
pub(crate) fn slab_flags_contents(s: &mut simple_slab::Slab<bool>) -> (r: Vec<bool>)
    ensures
        r@ == slab_flags_items(*old(s)),
        slab_flags_items(*final(s)) == slab_flags_items(*old(s)),
        slab_flags_cap(*final(s)) == slab_flags_cap(*old(s)),
{
    (&*s).into_iter().copied().collect()
}

/// `remove` on a slab of `i32`: the item at `offset`, taken out; its slot
/// then holds what lies one past the last item, which nothing here states,
/// and the count drops by one. Every other item stays where it was; removing
/// the last one leaves the others exactly. It panics when `offset >= len`.
#[verifier::external_body]
pub(crate) fn slab_i32s_remove(s: &mut simple_slab::Slab<i32>, offset: usize) -> (r: i32)
    requires
        slab_i32s_wf(*old(s)),
        offset < slab_i32s_items(*old(s)).len(),
    ensures
        slab_i32s_wf(*final(s)),
        r == slab_i32s_items(*old(s))[offset as int],
        slab_i32s_items(*final(s)).len() == slab_i32s_items(*old(s)).len() - 1,
        forall|i: int|
            0 <= i < slab_i32s_items(*final(s)).len() && i != offset ==> #[trigger] slab_i32s_items(*final(s))[i]
                == slab_i32s_items(*old(s))[i],
        slab_i32s_cap(*final(s)) == slab_i32s_cap(*old(s)),
{
    s.remove(offset)
}

/// `Index<usize>` on a slab of byte vectors: a copy of the item at `index`.
/// The crate does not check the index; the wrapper requires it in range.
#[verifier::external_body]
pub(crate) fn slab_bytes_get(s: &simple_slab::Slab<Vec<u8>>, index: usize) -> (r: Vec<u8>)
    requires
        index < slab_bytes_items(*s).len(),
    ensures
        r@ == slab_bytes_items(*s)[index as int],
{
    s[index].clone()
}

} // verus!

//! A script of operations on `SmallVec<[u32; 16]>` read out of an input.
//!
//! The first byte chooses how many operations run (1 to 15); operation `k`
//! owns the twelve bytes from `1 + 12 * k`, whose first byte chooses what it
//! does. Each operation builds fresh vectors, works on them and reports what
//! it observed. A run stops at the first operation whose bytes do not fit,
//! and halts where a read runs past the input or an argument is out of range
//! for the vector.
use vstd::prelude::*;
use crate::bytes::_to_u8;
use crate::script::{
    fits, read_u32, read_u32s, read_u8, read_usize, reads_fit, u32_at, u32s_at, usize_at, Halt,
};
use crate::small_vec::{
    dedup_seq, exact_growth_overflows, exact_growth_overflows_exec, growth_overflows,
    growth_overflows_exec, grown, lex_order, repeat, u32_ints, Order,
};
use crate::sv_u32::{
    small_vec_u32_as_ptr, small_vec_u32_as_slice, small_vec_u32_capacity, small_vec_u32_from_buf,
    small_vec_u32_from_buf_and_len, small_vec_u32_from_elem, small_vec_u32_from_iter,
    small_vec_u32_from_slice, small_vec_u32_from_vec, small_vec_u32_is_empty, small_vec_u32_len,
    small_vec_u32_new, small_vec_u32_spilled, small_vec_u32_with_capacity, sv_u32_cap, sv_u32_items,
    SmallVecU32, small_vec_u32_push, small_vec_u32_pop, small_vec_u32_deref, small_vec_u32_compare,
    small_vec_u32_partial_compare, small_vec_u32_eq, small_vec_u32_reserve,
    small_vec_u32_shrink_to_fit, small_vec_u32_insert, small_vec_u32_extend_from_slice,
    small_vec_u32_as_mut_slice, small_vec_u32_drain, small_vec_u32_remove, small_vec_u32_clone,
    small_vec_u32_into_vec, small_vec_u32_into_iter, small_vec_u32_truncate, small_vec_u32_clear,
    small_vec_u32_swap_remove, small_vec_u32_resize, small_vec_u32_append,
    small_vec_u32_insert_many, small_vec_u32_extend, small_vec_u32_try_reserve,
    small_vec_u32_into_boxed_slice, small_vec_u32_into_inner, small_vec_u32_retain_even,
    small_vec_u32_dedup, small_vec_u32_as_mut_ptr, small_vec_u32_borrow, small_vec_u32_as_ref,
    small_vec_u32_to_small_vec,
};
use vstd::slice::slice_to_vec;

verus! {

/// What the script reports, one value per printed line.
pub enum Event {
    /// An address of the buffer.
    Ptr(usize),
    /// All items.
    Items(Vec<u32>),
    /// Length, capacity, emptiness and whether the items are on the heap.
    Stats { len: usize, capacity: usize, empty: bool, spilled: bool },
    /// The first item.
    First(u32),
    /// The item `pop` returned.
    Popped(u32),
    /// The addresses of two buffers.
    PtrPair(usize, usize),
    /// Both comparisons and the equality of two vectors.
    Comparison { total: Order, partial: Option<Order>, equal: bool },
    /// The capacity after `reserve`.
    ReservedCapacity(usize),
    /// The capacity after `shrink_to_fit`.
    ShrunkCapacity(usize),
    /// The address of the buffer before and after an `insert`.
    InsertPtrs(usize, usize),
    /// Item `i` of the vector.
    Elem(usize, u32),
    /// The length of the items.
    SliceLen(usize),
    /// The first item after overwriting it.
    ModifiedFirst(u32),
    /// An item taken out by `drain`.
    Drained(u32),
    /// The address of the buffer before and after `drain`.
    DrainPtrs(usize, usize),
    /// The item `remove` returned.
    Removed(u32),
    /// An address of the buffer, labelled as such.
    LabelledPtr(usize),
    /// The length seen through `Deref`.
    DerefLen(usize),
    /// The length of the `Vec` that `into_vec` gave.
    IntoVecLen(usize),
    /// Item `i` as `into_iter` yielded it.
    IterItem(usize, u32),
    /// The address of the buffer before and after `truncate`.
    TruncatePtrs(usize, usize),
    /// The length after `truncate`.
    NewLen(usize),
    /// The length after `clear`.
    Cleared(usize),
    /// The item `swap_remove` returned.
    SwapRemoved(u32),
    /// The length asked of `resize`.
    ResizedTo(usize),
    /// The length after `append`.
    Appended(usize),
    /// The index given to `insert_many`.
    InsertedManyAt(usize),
    /// Whether `try_reserve` succeeded.
    TryReserve(bool),
    /// The length of the boxed slice.
    BoxedLen(usize),
    /// Whether `into_inner` gave the array.
    IntoInner(bool),
    /// The length after keeping the even items.
    Retained(usize),
    /// The length after `dedup`.
    Deduped(usize),
    /// The address that `as_mut_ptr` gave.
    MutPtr(usize),
    /// The address of a new vector's buffer.
    DefaultPtr(usize),
    /// The address of a clone's buffer.
    ClonedPtr(usize),
    /// The length seen through `Borrow`.
    BorrowLen(usize),
    /// The length seen through `AsRef`.
    AsRefLen(usize),
    /// The length of a vector made by `to_smallvec`.
    ToSmallVecLen(usize),
}

/// What the script is owed to report: an `Event` with every address left
/// open, and a capacity left open (`None`) where the outside crate does not
/// fix it.
pub enum Expect {
    Ptr,
    Items(Seq<u32>),
    Stats { len: nat, capacity: Option<nat> },
    First(u32),
    Popped(u32),
    PtrPair,
    Comparison { total: Order, partial: Option<Order>, equal: bool },
    ReservedCapacity(nat),
    ShrunkCapacity(nat),
    InsertPtrs,
    Elem(nat, u32),
    SliceLen(nat),
    ModifiedFirst(u32),
    Drained(u32),
    DrainPtrs,
    Removed(u32),
    LabelledPtr,
    DerefLen(nat),
    IntoVecLen(nat),
    IterItem(nat, u32),
    TruncatePtrs,
    NewLen(nat),
    Cleared(nat),
    SwapRemoved(u32),
    ResizedTo(nat),
    Appended(nat),
    InsertedManyAt(nat),
    /// `None` where the allocator decides.
    TryReserve(Option<bool>),
    BoxedLen(nat),
    IntoInner(bool),
    Retained(nat),
    Deduped(nat),
    MutPtr,
    DefaultPtr,
    ClonedPtr,
    BorrowLen(nat),
    AsRefLen(nat),
    ToSmallVecLen(nat),
}

/// Whether a reported event is one that was owed.
pub open spec fn event_matches(e: Event, x: Expect) -> bool {
    match e {
        Event::Ptr(_) => x is Ptr,
        Event::Items(v) => x == Expect::Items(v@),
        Event::Stats { len, capacity, empty, spilled } => match x {
            Expect::Stats { len: l, capacity: c } => {
                &&& len == l
                &&& empty == (l == 0)
                &&& spilled == (capacity > 16)
                &&& match c {
                    Some(c) => capacity == c,
                    None => capacity >= 16 && capacity >= l,
                }
            },
            _ => false,
        },
        Event::First(v) => x == Expect::First(v),
        Event::Popped(v) => x == Expect::Popped(v),
        Event::PtrPair(_, _) => x is PtrPair,
        Event::Comparison { total, partial, equal } => x == Expect::Comparison { total, partial, equal },
        Event::ReservedCapacity(c) => x == Expect::ReservedCapacity(c as nat),
        Event::ShrunkCapacity(c) => x == Expect::ShrunkCapacity(c as nat),
        Event::InsertPtrs(_, _) => x is InsertPtrs,
        Event::Elem(i, v) => x == Expect::Elem(i as nat, v),
        Event::SliceLen(n) => x == Expect::SliceLen(n as nat),
        Event::ModifiedFirst(v) => x == Expect::ModifiedFirst(v),
        Event::Drained(v) => x == Expect::Drained(v),
        Event::DrainPtrs(_, _) => x is DrainPtrs,
        Event::Removed(v) => x == Expect::Removed(v),
        Event::LabelledPtr(_) => x is LabelledPtr,
        Event::DerefLen(n) => x == Expect::DerefLen(n as nat),
        Event::IntoVecLen(n) => x == Expect::IntoVecLen(n as nat),
        Event::IterItem(i, v) => x == Expect::IterItem(i as nat, v),
        Event::TruncatePtrs(_, _) => x is TruncatePtrs,
        Event::NewLen(n) => x == Expect::NewLen(n as nat),
        Event::Cleared(n) => x == Expect::Cleared(n as nat),
        Event::SwapRemoved(v) => x == Expect::SwapRemoved(v),
        Event::ResizedTo(n) => x == Expect::ResizedTo(n as nat),
        Event::Appended(n) => x == Expect::Appended(n as nat),
        Event::InsertedManyAt(n) => x == Expect::InsertedManyAt(n as nat),
        Event::TryReserve(b) => match x {
            Expect::TryReserve(o) => o matches Some(ob) ==> b == ob,
            _ => false,
        },
        Event::BoxedLen(n) => x == Expect::BoxedLen(n as nat),
        Event::IntoInner(b) => x == Expect::IntoInner(b),
        Event::Retained(n) => x == Expect::Retained(n as nat),
        Event::Deduped(n) => x == Expect::Deduped(n as nat),
        Event::MutPtr(_) => x is MutPtr,
        Event::DefaultPtr(_) => x is DefaultPtr,
        Event::ClonedPtr(_) => x is ClonedPtr,
        Event::BorrowLen(n) => x == Expect::BorrowLen(n as nat),
        Event::AsRefLen(n) => x == Expect::AsRefLen(n as nat),
        Event::ToSmallVecLen(n) => x == Expect::ToSmallVecLen(n as nat),
    }
}

/// Whether the reported events are, one for one, those owed.
pub open spec fn events_match(a: Seq<Event>, x: Seq<Expect>) -> bool {
    &&& a.len() == x.len()
    &&& forall|i: int| 0 <= i < a.len() ==> #[trigger] event_matches(a[i], x[i])
}

/// What an operation is owed: its events, and why it halts, if it does.
pub type Outcome = (Seq<Expect>, Option<Halt>);

/// An operation that halts before reporting anything.
pub open spec fn halted(h: Halt) -> Outcome {
    (Seq::empty(), Some(h))
}

/// The report on a freshly built vector: address, items, statistics and, when
/// there is one, the first item.
pub open spec fn report_built(items: Seq<u32>, capacity: Option<nat>) -> Seq<Expect> {
    seq![Expect::Ptr, Expect::Items(items), Expect::Stats { len: items.len(), capacity }] + if items.len()
        > 0 {
        seq![Expect::First(items[0])]
    } else {
        Seq::empty()
    }
}

/// The array that constructor 3 fills: the `u32` values at `base + 2`,
/// `base + 6` and `base + 10`, repeated.
pub open spec fn cycled_array(gd: Seq<u8>, base: int) -> Seq<u32> {
    Seq::new(16, |i: int| u32_at(gd, base + 2 + 4 * (i % 3)))
}

/// Operation 0: build a vector by one of eight constructors and report it.
pub open spec fn op_build(gd: Seq<u8>, base: int) -> Outcome {
    let choice = gd[base + 1] % 8;
    if choice == 0 {
        (report_built(Seq::empty(), Some(16)), None)
    } else if choice == 1 {
        let n = usize_at(gd, base + 2);
        if exact_growth_overflows(0, 16, n as nat, 4) {
            halted(Halt::CapacityOverflow)
        } else {
            (report_built(Seq::empty(), Some(if n <= 16 { 16 } else { n as nat })), None)
        }
    } else if choice == 2 || choice == 5 || choice == 6 {
        let k = (gd[base + 2] % 8) as nat;
        if !reads_fit(gd, base + 3, 4, k) {
            halted(Halt::InputExhausted)
        } else {
            let items = u32s_at(gd, base + 3, 4, k);
            (report_built(items, if choice == 2 { None } else { Some(16) }), None)
        }
    } else if choice == 3 {
        if !fits(gd, base + 8, 8) {
            halted(Halt::InputExhausted)
        } else if usize_at(gd, base + 8) > 16 {
            halted(Halt::OutOfRange)
        } else {
            (report_built(cycled_array(gd, base).take(usize_at(gd, base + 8) as int), Some(16)), None)
        }
    } else if choice == 4 {
        let n = usize_at(gd, base + 6);
        if !fits(gd, base + 6, 8) {
            halted(Halt::InputExhausted)
        } else if n > 16 && n * 4 > isize::MAX {
            halted(Halt::CapacityOverflow)
        } else {
            (report_built(repeat(u32_at(gd, base + 2), n as nat), if n <= 16 { Some(16) } else { None }), None)
        }
    } else {
        (report_built(repeat(0u32, 16), Some(16)), None)
    }
}


/// Reports a freshly built vector: its address, items, statistics and first
/// item.
fn report_vec(v: &SmallVecU32, Ghost(owed_cap): Ghost<Option<nat>>) -> (r: Vec<Event>)
    requires
        v.wf(),
        owed_cap matches Some(c) ==> sv_u32_cap(*v) == c,
    ensures
        events_match(r@, report_built(sv_u32_items(*v), owed_cap)),
{
    let mut out: Vec<Event> = Vec::new();
    let ptr = small_vec_u32_as_ptr(v);
    out.push(Event::Ptr(ptr));
    let slice_ref = small_vec_u32_as_slice(v);
    out.push(Event::Items(slice_to_vec(slice_ref)));
    let len = small_vec_u32_len(v);
    let capacity = small_vec_u32_capacity(v);
    let is_empty = small_vec_u32_is_empty(v);
    let spilled = small_vec_u32_spilled(v);
    out.push(Event::Stats { len, capacity, empty: is_empty, spilled });
    if slice_ref.len() != 0 {
        out.push(Event::First(slice_ref[0]));
    }
    proof {
        let x = report_built(sv_u32_items(*v), owed_cap);
        assert(forall|i: int| 0 <= i < out@.len() ==> #[trigger] event_matches(out@[i], x[i]));
    }
    out
}

/// The sixteen-item array of constructor 3.
fn cycled_buf(gd: &[u8], base: usize) -> (r: [u32; 16])
    requires
        base + 14 <= gd.len(),
    ensures
        r@ == cycled_array(gd@, base as int),
{
    let a = crate::bytes::_to_u32(gd, base + 2);
    let b = crate::bytes::_to_u32(gd, base + 6);
    let c = crate::bytes::_to_u32(gd, base + 10);
    let r = [a, b, c, a, b, c, a, b, c, a, b, c, a, b, c, a];
    assert(r@ =~= cycled_array(gd@, base as int));
    r
}

/// Operation 0 (see `op_build`).
pub fn build_and_report(gd: &[u8], base: usize) -> (r: (Vec<Event>, Option<Halt>))
    requires
        base + 12 <= gd.len() <= isize::MAX,
    ensures
        events_match(r.0@, op_build(gd@, base as int).0),
        r.1 == op_build(gd@, base as int).1,
{
    let choice = _to_u8(gd, base + 1) % 8;
    if choice == 0 {
        let v = small_vec_u32_new();
        (report_vec(&v, Ghost(Some(16))), None)
    } else if choice == 1 {
        let n = crate::bytes::_to_usize(gd, base + 2);
        if exact_growth_overflows_exec(0, 16, n, 4) {
            return (Vec::new(), Some(Halt::CapacityOverflow));
        }
        let v = small_vec_u32_with_capacity(n);
        (report_vec(&v, Ghost(Some(if n <= 16 { 16 } else { n as nat }))), None)
    } else if choice == 2 || choice == 5 || choice == 6 {
        let k = _to_u8(gd, base + 2) % 8;
        let vals = match read_u32s(gd, base + 3, 4, k as usize) {
            Some(vals) => vals,
            None => return (Vec::new(), Some(Halt::InputExhausted)),
        };
        if choice == 2 {
            let v = small_vec_u32_from_vec(vals);
            (report_vec(&v, Ghost(None)), None)
        } else if choice == 5 {
            let v = small_vec_u32_from_slice(vals.as_slice());
            (report_vec(&v, Ghost(Some(16))), None)
        } else {
            let v = small_vec_u32_from_iter(vals);
            (report_vec(&v, Ghost(Some(16))), None)
        }
    } else if choice == 3 {
        if gd.len() - base < 16 {
            return (Vec::new(), Some(Halt::InputExhausted));
        }
        let array = cycled_buf(gd, base);
        let len = crate::bytes::_to_usize(gd, base + 8);
        if len > 16 {
            return (Vec::new(), Some(Halt::OutOfRange));
        }
        let v = small_vec_u32_from_buf_and_len(array, len);
        (report_vec(&v, Ghost(Some(16))), None)
    } else if choice == 4 {
        let elem = crate::bytes::_to_u32(gd, base + 2);
        let count = match read_usize(gd, base + 6) {
            Some(c) => c,
            None => return (Vec::new(), Some(Halt::InputExhausted)),
        };
        if count > 16 && count > (isize::MAX as usize) / 4 {
            return (Vec::new(), Some(Halt::CapacityOverflow));
        }
        let v = small_vec_u32_from_elem(elem, count);
        (report_vec(&v, Ghost(if count <= 16 { Some(16nat) } else { None })), None)
    } else {
        let array: [u32; 16] = [0; 16];
        let v = small_vec_u32_from_buf(array);
        proof {
            assert(array@ =~= repeat(0u32, 16));
        }
        (report_vec(&v, Ghost(Some(16))), None)
    }
}


/// A fresh vector holding `count` values read at `start + stride * k`, each
/// read and pushed in turn, or `None` when a read runs past the end.
fn pushed_from(gd: &[u8], start: usize, stride: usize, count: usize) -> (r: Option<SmallVecU32>)
    requires
        count <= 16,
        start + stride * count + 4 <= usize::MAX,
    ensures
        r is Some <==> reads_fit(gd@, start as int, stride as int, count as nat),
        r matches Some(v) ==> v.wf() && sv_u32_items(v) == u32s_at(
            gd@,
            start as int,
            stride as int,
            count as nat,
        ) && sv_u32_cap(v) == 16,
{
    let mut v = small_vec_u32_new();
    let mut k: usize = 0;
    while k < count
        invariant
            k <= count <= 16,
            start + stride * count + 4 <= usize::MAX,
            v.wf(),
            sv_u32_cap(v) == 16,
            sv_u32_items(v) == u32s_at(gd@, start as int, stride as int, k as nat),
            k > 0 ==> fits(gd@, start + stride * (k - 1), 4),
        decreases count - k,
    {
        assert(stride * k <= stride * count) by (nonlinear_arith)
            requires
                k <= count,
        ;
        match read_u32(gd, start + stride * k) {
            Some(x) => {
                small_vec_u32_push(&mut v, x);
                k = k + 1;
                assert(sv_u32_items(v) =~= u32s_at(gd@, start as int, stride as int, k as nat));
            },
            None => {
                assert(!reads_fit(gd@, start as int, stride as int, count as nat)) by {
                    assert(stride * k <= stride * (count - 1)) by (nonlinear_arith)
                        requires
                            k <= count - 1,
                    ;
                }
                return None;
            },
        }
    }
    Some(v)
}

/// Operation 1: push up to nine read values, report the address and items,
/// then pop the last one.
pub open spec fn op_push_pop(gd: Seq<u8>, base: int) -> Outcome {
    let k = (gd[base + 1] % 10) as nat;
    if !reads_fit(gd, base + 2, 4, k) {
        halted(Halt::InputExhausted)
    } else {
        let items = u32s_at(gd, base + 2, 4, k);
        (seq![Expect::Ptr, Expect::Items(items)] + if k > 0 {
            seq![Expect::Popped(items.last())]
        } else {
            Seq::empty()
        }, None)
    }
}

/// Operation 1 (see `op_push_pop`).
pub fn push_pop(gd: &[u8], base: usize) -> (r: (Vec<Event>, Option<Halt>))
    requires
        base + 12 <= gd.len() <= isize::MAX,
    ensures
        events_match(r.0@, op_push_pop(gd@, base as int).0),
        r.1 == op_push_pop(gd@, base as int).1,
{
    let push_count = _to_u8(gd, base + 1) % 10;
    let mut v = match pushed_from(gd, base + 2, 4, push_count as usize) {
        Some(v) => v,
        None => return (Vec::new(), Some(Halt::InputExhausted)),
    };
    let mut out: Vec<Event> = Vec::new();
    out.push(Event::Ptr(small_vec_u32_as_ptr(&v)));
    let deref_slice = small_vec_u32_deref(&v);
    out.push(Event::Items(slice_to_vec(deref_slice)));
    if !small_vec_u32_is_empty(&v) {
        if let Some(val) = small_vec_u32_pop(&mut v) {
            out.push(Event::Popped(val));
        }
    }
    proof {
        let x = op_push_pop(gd@, base as int).0;
        assert(forall|i: int| 0 <= i < out@.len() ==> #[trigger] event_matches(out@[i], x[i]));
    }
    (out, None)
}

/// Operation 2: compare two one-item vectors.
pub open spec fn op_compare(gd: Seq<u8>, base: int) -> Outcome {
    let a = u32_at(gd, base + 1);
    let b = u32_at(gd, base + 5);
    let total = lex_order(u32_ints(seq![a]), u32_ints(seq![b]));
    (seq![Expect::PtrPair, Expect::Comparison { total, partial: Some(total), equal: a == b }], None)
}

/// Operation 2 (see `op_compare`).
pub fn compare(gd: &[u8], base: usize) -> (r: (Vec<Event>, Option<Halt>))
    requires
        base + 12 <= gd.len() <= isize::MAX,
    ensures
        events_match(r.0@, op_compare(gd@, base as int).0),
        r.1 == op_compare(gd@, base as int).1,
{
    let mut v1 = small_vec_u32_new();
    let mut v2 = small_vec_u32_new();
    small_vec_u32_push(&mut v1, crate::bytes::_to_u32(gd, base + 1));
    small_vec_u32_push(&mut v2, crate::bytes::_to_u32(gd, base + 5));
    assert(sv_u32_items(v1) =~= seq![u32_at(gd@, base + 1)]);
    assert(sv_u32_items(v2) =~= seq![u32_at(gd@, base + 5)]);
    let ptr1 = small_vec_u32_as_ptr(&v1);
    let ptr2 = small_vec_u32_as_ptr(&v2);
    let total = small_vec_u32_compare(&v1, &v2);
    let partial = small_vec_u32_partial_compare(&v1, &v2);
    let equal = small_vec_u32_eq(&v1, &v2);
    let mut out: Vec<Event> = Vec::new();
    out.push(Event::PtrPair(ptr1, ptr2));
    out.push(Event::Comparison { total, partial, equal });
    proof {
        let x = op_compare(gd@, base as int).0;
        assert(equal == (u32_at(gd@, base + 1) == u32_at(gd@, base + 5))) by {
            if equal {
                assert(sv_u32_items(v1)[0] == sv_u32_items(v2)[0]);
            }
        }
        assert(forall|i: int| 0 <= i < out@.len() ==> #[trigger] event_matches(out@[i], x[i]));
    }
    (out, None)
}

/// Operation 3: reserve room for a read number of items, then shrink.
pub open spec fn op_reserve(gd: Seq<u8>, base: int) -> Outcome {
    let amount = usize_at(gd, base + 1) as nat;
    if growth_overflows(0, 16, amount, 4) {
        halted(Halt::CapacityOverflow)
    } else {
        (seq![
            Expect::Ptr,
            Expect::ReservedCapacity(grown(0, 16, amount)),
            Expect::ShrunkCapacity(16),
        ], None)
    }
}

/// Operation 3 (see `op_reserve`).
pub fn reserve(gd: &[u8], base: usize) -> (r: (Vec<Event>, Option<Halt>))
    requires
        base + 12 <= gd.len() <= isize::MAX,
    ensures
        events_match(r.0@, op_reserve(gd@, base as int).0),
        r.1 == op_reserve(gd@, base as int).1,
{
    let mut v = small_vec_u32_new();
    let amount = crate::bytes::_to_usize(gd, base + 1);
    if growth_overflows_exec(0, 16, amount, 4) {
        return (Vec::new(), Some(Halt::CapacityOverflow));
    }
    small_vec_u32_reserve(&mut v, amount);
    let mut out: Vec<Event> = Vec::new();
    out.push(Event::Ptr(small_vec_u32_as_ptr(&v)));
    out.push(Event::ReservedCapacity(small_vec_u32_capacity(&v)));
    small_vec_u32_shrink_to_fit(&mut v);
    out.push(Event::ShrunkCapacity(small_vec_u32_capacity(&v)));
    proof {
        let x = op_reserve(gd@, base as int).0;
        assert(forall|i: int| 0 <= i < out@.len() ==> #[trigger] event_matches(out@[i], x[i]));
    }
    (out, None)
}

/// The events listing each item with its index.
pub open spec fn elems(items: Seq<u32>) -> Seq<Expect> {
    Seq::new(items.len(), |i: int| Expect::Elem(i as nat, items[i]))
}

/// Operation 4: insert a read value at a read index when it is at most the
/// length, then list the items.
pub open spec fn op_insert(gd: Seq<u8>, base: int) -> Outcome {
    let two = seq![u32_at(gd, base + 1), u32_at(gd, base + 5)];
    if !fits(gd, base + 9, 8) {
        halted(Halt::InputExhausted)
    } else {
        let index = usize_at(gd, base + 9);
        let items = if index <= 2 { two.insert(index as int, u32_at(gd, base + 2)) } else { two };
        (seq![Expect::InsertPtrs] + elems(items), None)
    }
}

/// Operation 4 (see `op_insert`).
pub fn insert(gd: &[u8], base: usize) -> (r: (Vec<Event>, Option<Halt>))
    requires
        base + 12 <= gd.len() <= isize::MAX,
    ensures
        events_match(r.0@, op_insert(gd@, base as int).0),
        r.1 == op_insert(gd@, base as int).1,
{
    let mut v = small_vec_u32_new();
    small_vec_u32_push(&mut v, crate::bytes::_to_u32(gd, base + 1));
    small_vec_u32_push(&mut v, crate::bytes::_to_u32(gd, base + 5));
    let ptr_before = small_vec_u32_as_ptr(&v);
    let index = match read_usize(gd, base + 9) {
        Some(i) => i,
        None => return (Vec::new(), Some(Halt::InputExhausted)),
    };
    let value = crate::bytes::_to_u32(gd, base + 2);
    if index <= small_vec_u32_len(&v) {
        small_vec_u32_insert(&mut v, index, value);
    }
    let ptr_after = small_vec_u32_as_ptr(&v);
    let mut out: Vec<Event> = Vec::new();
    out.push(Event::InsertPtrs(ptr_before, ptr_after));
    let slice = small_vec_u32_as_slice(&v);
    let ghost x = op_insert(gd@, base as int).0;
    proof {
        let two = seq![u32_at(gd@, base + 1), u32_at(gd@, base + 5)];
        let spec_items = if index <= 2 { two.insert(index as int, u32_at(gd@, base + 2)) } else { two };
        assert(slice@ =~= spec_items);
        assert(x == seq![Expect::InsertPtrs] + elems(slice@));
    }
    let mut i: usize = 0;
    while i < slice.len()
        invariant
            0 <= i <= slice@.len(),
            x == seq![Expect::InsertPtrs] + elems(slice@),
            out@.len() == i + 1,
            forall|j: int| 0 <= j < out@.len() ==> #[trigger] event_matches(out@[j], x[j]),
        decreases slice@.len() - i,
    {
        out.push(Event::Elem(i, slice[i]));
        i = i + 1;
    }
    (out, None)
}


/// Operation 5: extend by two read values, report, then overwrite the first
/// item with a third read value.
pub open spec fn op_overwrite(gd: Seq<u8>, base: int) -> Outcome {
    let head = seq![Expect::Ptr, Expect::SliceLen(2)];
    if !fits(gd, base + 9, 4) {
        (head, Some(Halt::InputExhausted))
    } else {
        (head.push(Expect::ModifiedFirst(u32_at(gd, base + 9))), None)
    }
}

/// Operation 5 (see `op_overwrite`).
pub fn overwrite(gd: &[u8], base: usize) -> (r: (Vec<Event>, Option<Halt>))
    requires
        base + 12 <= gd.len() <= isize::MAX,
    ensures
        events_match(r.0@, op_overwrite(gd@, base as int).0),
        r.1 == op_overwrite(gd@, base as int).1,
{
    let mut v = small_vec_u32_new();
    let slice_data = [crate::bytes::_to_u32(gd, base + 1), crate::bytes::_to_u32(gd, base + 5)];
    small_vec_u32_extend_from_slice(&mut v, &slice_data);
    let mut out: Vec<Event> = Vec::new();
    out.push(Event::Ptr(small_vec_u32_as_ptr(&v)));
    let as_slice = small_vec_u32_as_slice(&v);
    out.push(Event::SliceLen(as_slice.len()));
    let ghost x = op_overwrite(gd@, base as int).0;
    if !small_vec_u32_is_empty(&v) {
        let value = match read_u32(gd, base + 9) {
            Some(value) => value,
            None => {
                proof {
                    assert(forall|i: int| 0 <= i < out@.len() ==> #[trigger] event_matches(out@[i], x[i]));
                }
                return (out, Some(Halt::InputExhausted));
            },
        };
        let as_mut_slice = small_vec_u32_as_mut_slice(&mut v);
        as_mut_slice[0] = value;
        out.push(Event::ModifiedFirst(as_mut_slice[0]));
    }
    proof {
        assert(forall|i: int| 0 <= i < out@.len() ==> #[trigger] event_matches(out@[i], x[i]));
    }
    (out, None)
}

/// Operation 6: push five values read two bytes apart, drain a read range
/// (start below 3, end clamped to the length) and list what it took.
pub open spec fn op_drain(gd: Seq<u8>, base: int) -> Outcome {
    if !reads_fit(gd, base + 1, 2, 5) || !fits(gd, base + 5, 8) {
        halted(Halt::InputExhausted)
    } else {
        let items = u32s_at(gd, base + 1, 2, 5);
        let start = usize_at(gd, base + 1) % 3;
        let end0 = start + usize_at(gd, base + 5) % 3 + 1;
        let end = if end0 > 5 { 5 } else { end0 };
        let taken = items.subrange(start as int, end as int);
        (Seq::new(taken.len(), |i: int| Expect::Drained(taken[i])).push(Expect::DrainPtrs), None)
    }
}

/// Operation 6 (see `op_drain`).
pub fn drain(gd: &[u8], base: usize) -> (r: (Vec<Event>, Option<Halt>))
    requires
        base + 12 <= gd.len() <= isize::MAX,
    ensures
        events_match(r.0@, op_drain(gd@, base as int).0),
        r.1 == op_drain(gd@, base as int).1,
{
    let mut v = match pushed_from(gd, base + 1, 2, 5) {
        Some(v) => v,
        None => return (Vec::new(), Some(Halt::InputExhausted)),
    };
    let ptr_before = small_vec_u32_as_ptr(&v);
    let range_start = crate::bytes::_to_usize(gd, base + 1) % 3;
    let range_end = match read_usize(gd, base + 5) {
        Some(e) => range_start + e % 3 + 1,
        None => return (Vec::new(), Some(Halt::InputExhausted)),
    };
    let len = small_vec_u32_len(&v);
    let range_end = if range_end > len { len } else { range_end };
    let drained = small_vec_u32_drain(&mut v, range_start, range_end);
    let ghost x = op_drain(gd@, base as int).0;
    let mut out: Vec<Event> = Vec::new();
    let mut i: usize = 0;
    while i < drained.len()
        invariant
            0 <= i <= drained@.len(),
            x == Seq::new(drained@.len(), |k: int| Expect::Drained(drained@[k])).push(Expect::DrainPtrs),
            out@.len() == i,
            forall|j: int| 0 <= j < out@.len() ==> #[trigger] event_matches(out@[j], x[j]),
        decreases drained@.len() - i,
    {
        out.push(Event::Drained(drained[i]));
        i = i + 1;
    }
    let ptr_after = small_vec_u32_as_ptr(&v);
    out.push(Event::DrainPtrs(ptr_before, ptr_after));
    (out, None)
}

/// Operation 7: remove the item at a read index when it is in range, then
/// report the length.
pub open spec fn op_remove(gd: Seq<u8>, base: int) -> Outcome {
    let two = seq![u32_at(gd, base + 1), u32_at(gd, base + 5)];
    if !fits(gd, base + 9, 8) {
        halted(Halt::InputExhausted)
    } else {
        let index = usize_at(gd, base + 9);
        if index < 2 {
            (seq![Expect::Removed(two[index as int]), Expect::LabelledPtr, Expect::DerefLen(1)], None)
        } else {
            (seq![Expect::LabelledPtr, Expect::DerefLen(2)], None)
        }
    }
}

/// Operation 7 (see `op_remove`).
pub fn remove(gd: &[u8], base: usize) -> (r: (Vec<Event>, Option<Halt>))
    requires
        base + 12 <= gd.len() <= isize::MAX,
    ensures
        events_match(r.0@, op_remove(gd@, base as int).0),
        r.1 == op_remove(gd@, base as int).1,
{
    let mut v = small_vec_u32_new();
    small_vec_u32_push(&mut v, crate::bytes::_to_u32(gd, base + 1));
    small_vec_u32_push(&mut v, crate::bytes::_to_u32(gd, base + 5));
    let ptr = small_vec_u32_as_ptr(&v);
    let index = match read_usize(gd, base + 9) {
        Some(i) => i,
        None => return (Vec::new(), Some(Halt::InputExhausted)),
    };
    let mut out: Vec<Event> = Vec::new();
    if index < small_vec_u32_len(&v) {
        let removed = small_vec_u32_remove(&mut v, index);
        out.push(Event::Removed(removed));
    }
    out.push(Event::LabelledPtr(ptr));
    let deref_result = small_vec_u32_deref(&v);
    out.push(Event::DerefLen(deref_result.len()));
    proof {
        let x = op_remove(gd@, base as int).0;
        assert(forall|i: int| 0 <= i < out@.len() ==> #[trigger] event_matches(out@[i], x[i]));
    }
    (out, None)
}

/// Operation 8: push three read values, convert a clone to a `Vec`, and list
/// the items through `into_iter`.
pub open spec fn op_into_iter(gd: Seq<u8>, base: int) -> Outcome {
    if !reads_fit(gd, base + 1, 4, 3) {
        halted(Halt::InputExhausted)
    } else {
        let items = u32s_at(gd, base + 1, 4, 3);
        (seq![
            Expect::IntoVecLen(3),
            Expect::IterItem(0, items[0]),
            Expect::IterItem(1, items[1]),
            Expect::IterItem(2, items[2]),
            Expect::LabelledPtr,
        ], None)
    }
}

/// Operation 8 (see `op_into_iter`).
pub fn into_iter(gd: &[u8], base: usize) -> (r: (Vec<Event>, Option<Halt>))
    requires
        base + 12 <= gd.len() <= isize::MAX,
    ensures
        events_match(r.0@, op_into_iter(gd@, base as int).0),
        r.1 == op_into_iter(gd@, base as int).1,
{
    let v = match pushed_from(gd, base + 1, 4, 3) {
        Some(v) => v,
        None => return (Vec::new(), Some(Halt::InputExhausted)),
    };
    let ptr = small_vec_u32_as_ptr(&v);
    let mut out: Vec<Event> = Vec::new();
    let into_vec = small_vec_u32_into_vec(small_vec_u32_clone(&v));
    out.push(Event::IntoVecLen(into_vec.len()));
    let items = small_vec_u32_into_iter(v);
    let ghost x = op_into_iter(gd@, base as int).0;
    let mut i: usize = 0;
    while i < items.len()
        invariant
            0 <= i <= items@.len() == 3,
            items@ == u32s_at(gd@, base + 1, 4, 3),
            x == op_into_iter(gd@, base as int).0,
            reads_fit(gd@, base + 1, 4, 3),
            out@.len() == 1 + i,
            forall|j: int| 0 <= j < out@.len() ==> #[trigger] event_matches(out@[j], x[j]),
        decreases items@.len() - i,
    {
        if i < 3 {
            out.push(Event::IterItem(i, items[i]));
        }
        i = i + 1;
    }
    out.push(Event::LabelledPtr(ptr));
    proof {
        assert(forall|i: int| 0 <= i < out@.len() ==> #[trigger] event_matches(out@[i], x[i]));
    }
    (out, None)
}

/// Operation 9: push eight read values and truncate to a read length.
pub open spec fn op_truncate(gd: Seq<u8>, base: int) -> Outcome {
    if !reads_fit(gd, base + 2, 4, 8) {
        halted(Halt::InputExhausted)
    } else {
        let keep = usize_at(gd, base + 1);
        (seq![Expect::TruncatePtrs, Expect::NewLen(if keep < 8 { keep as nat } else { 8 })], None)
    }
}

/// Operation 9 (see `op_truncate`).
pub fn truncate(gd: &[u8], base: usize) -> (r: (Vec<Event>, Option<Halt>))
    requires
        base + 12 <= gd.len() <= isize::MAX,
    ensures
        events_match(r.0@, op_truncate(gd@, base as int).0),
        r.1 == op_truncate(gd@, base as int).1,
{
    let truncate_len = crate::bytes::_to_usize(gd, base + 1);
    let mut v = match pushed_from(gd, base + 2, 4, 8) {
        Some(v) => v,
        None => return (Vec::new(), Some(Halt::InputExhausted)),
    };
    let ptr_before = small_vec_u32_as_ptr(&v);
    small_vec_u32_truncate(&mut v, truncate_len);
    let ptr_after = small_vec_u32_as_ptr(&v);
    let mut out: Vec<Event> = Vec::new();
    out.push(Event::TruncatePtrs(ptr_before, ptr_after));
    out.push(Event::NewLen(small_vec_u32_len(&v)));
    proof {
        let x = op_truncate(gd@, base as int).0;
        assert(forall|i: int| 0 <= i < out@.len() ==> #[trigger] event_matches(out@[i], x[i]));
    }
    (out, None)
}


/// Operation 10: push four read values; maybe clear; swap-remove at a read
/// index when it is in range; maybe resize to a read length below 10.
pub open spec fn op_clear_swap_resize(gd: Seq<u8>, base: int) -> Outcome {
    if !reads_fit(gd, base + 1, 4, 4) {
        halted(Halt::InputExhausted)
    } else {
        let items0 = u32s_at(gd, base + 1, 4, 4);
        let cleared = gd[base + 1] % 2 == 0;
        let items1 = if cleared { Seq::<u32>::empty() } else { items0 };
        let ev1 = if cleared { seq![Expect::Cleared(0)] } else { Seq::<Expect>::empty() };
        if !fits(gd, base + 5, 8) {
            (ev1, Some(Halt::InputExhausted))
        } else {
            let index = usize_at(gd, base + 5);
            let ev2 = if index < items1.len() {
                ev1.push(Expect::SwapRemoved(items1[index as int]))
            } else {
                ev1
            };
            if gd[base + 9] % 2 == 0 {
                if !fits(gd, base + 10, 8) {
                    (ev2, Some(Halt::InputExhausted))
                } else {
                    (ev2.push(Expect::ResizedTo((usize_at(gd, base + 10) % 10) as nat)), None)
                }
            } else {
                (ev2, None)
            }
        }
    }
}

/// Operation 10 (see `op_clear_swap_resize`).
pub fn clear_swap_resize(gd: &[u8], base: usize) -> (r: (Vec<Event>, Option<Halt>))
    requires
        base + 12 <= gd.len() <= isize::MAX,
    ensures
        events_match(r.0@, op_clear_swap_resize(gd@, base as int).0),
        r.1 == op_clear_swap_resize(gd@, base as int).1,
{
    let mut v = match pushed_from(gd, base + 1, 4, 4) {
        Some(v) => v,
        None => return (Vec::new(), Some(Halt::InputExhausted)),
    };
    let ghost x = op_clear_swap_resize(gd@, base as int).0;
    let mut out: Vec<Event> = Vec::new();
    let clear_choice = _to_u8(gd, base + 1) % 2;
    if clear_choice == 0 {
        small_vec_u32_clear(&mut v);
        out.push(Event::Cleared(small_vec_u32_len(&v)));
    }
    let swap_remove_index = match read_usize(gd, base + 5) {
        Some(i) => i,
        None => {
            proof {
                assert(forall|i: int| 0 <= i < out@.len() ==> #[trigger] event_matches(out@[i], x[i]));
            }
            return (out, Some(Halt::InputExhausted));
        },
    };
    if swap_remove_index < small_vec_u32_len(&v) {
        let removed = small_vec_u32_swap_remove(&mut v, swap_remove_index);
        out.push(Event::SwapRemoved(removed));
    }
    let resize_choice = _to_u8(gd, base + 9) % 2;
    if resize_choice == 0 {
        let new_size = match read_usize(gd, base + 10) {
            Some(n) => n % 10,
            None => {
                proof {
                    assert(forall|i: int| 0 <= i < out@.len() ==> #[trigger] event_matches(out@[i], x[i]));
                }
                return (out, Some(Halt::InputExhausted));
            },
        };
        let fill_value = crate::bytes::_to_u32(gd, base + 11);
        small_vec_u32_resize(&mut v, new_size, fill_value);
        out.push(Event::ResizedTo(new_size));
    }
    proof {
        assert(forall|i: int| 0 <= i < out@.len() ==> #[trigger] event_matches(out@[i], x[i]));
    }
    (out, None)
}

/// Operation 11: fill two vectors with three read values each, maybe append
/// the second to the first, then insert two read values at a read index when
/// it is at most the length.
pub open spec fn op_append_insert_many(gd: Seq<u8>, base: int) -> Outcome {
    if !fits(gd, base + 10, 4) {
        halted(Halt::InputExhausted)
    } else {
        let appended = gd[base + 1] % 2 == 0;
        let len: nat = if appended { 6 } else { 3 };
        let ev1 = if appended { seq![Expect::Appended(6)] } else { Seq::<Expect>::empty() };
        let index = usize_at(gd, base + 5);
        (if index <= len { ev1.push(Expect::InsertedManyAt(index as nat)) } else { ev1 }, None)
    }
}

/// Operation 11 (see `op_append_insert_many`).
pub fn append_insert_many(gd: &[u8], base: usize) -> (r: (Vec<Event>, Option<Halt>))
    requires
        base + 12 <= gd.len() <= isize::MAX,
    ensures
        events_match(r.0@, op_append_insert_many(gd@, base as int).0),
        r.1 == op_append_insert_many(gd@, base as int).1,
{
    let mut v1 = small_vec_u32_new();
    let mut v2 = small_vec_u32_new();
    let mut i: usize = 0;
    while i < 3
        invariant
            0 <= i <= 3,
            base + 12 <= gd.len() <= isize::MAX,
            v1.wf(),
            v2.wf(),
            sv_u32_cap(v1) == 16,
            sv_u32_cap(v2) == 16,
            sv_u32_items(v1).len() == i,
            sv_u32_items(v2).len() == i,
            i == 3 ==> fits(gd@, base + 10, 4),
        decreases 3 - i,
    {
        let a = match read_u32(gd, base + 1 + i * 4) {
            Some(a) => a,
            None => return (Vec::new(), Some(Halt::InputExhausted)),
        };
        small_vec_u32_push(&mut v1, a);
        let b = match read_u32(gd, base + 2 + i * 4) {
            Some(b) => b,
            None => return (Vec::new(), Some(Halt::InputExhausted)),
        };
        small_vec_u32_push(&mut v2, b);
        i = i + 1;
    }
    let ghost x = op_append_insert_many(gd@, base as int).0;
    let mut out: Vec<Event> = Vec::new();
    let append_choice = _to_u8(gd, base + 1) % 2;
    if append_choice == 0 {
        small_vec_u32_append(&mut v1, &mut v2);
        out.push(Event::Appended(small_vec_u32_len(&v1)));
    }
    let insert_many_index = crate::bytes::_to_usize(gd, base + 5);
    if insert_many_index <= small_vec_u32_len(&v1) {
        let mut insert_data: Vec<u32> = Vec::new();
        insert_data.push(crate::bytes::_to_u32(gd, base + 6));
        insert_data.push(crate::bytes::_to_u32(gd, base + 7));
        small_vec_u32_insert_many(&mut v1, insert_many_index, insert_data);
        out.push(Event::InsertedManyAt(insert_many_index));
    }
    proof {
        assert(forall|i: int| 0 <= i < out@.len() ==> #[trigger] event_matches(out@[i], x[i]));
    }
    (out, None)
}

/// What `try_reserve` of `amount` on two items in a fresh vector is owed to
/// report: failure on overflow, success when there is room, and otherwise
/// whatever the allocator decides.
pub open spec fn try_reserve_known(amount: nat) -> Option<bool> {
    if growth_overflows(2, 16, amount, 4) {
        Some(false)
    } else if amount <= 14 {
        Some(true)
    } else {
        None
    }
}

/// Operation 12: extend by two read values, try to reserve a read amount,
/// box a clone and try to take the inline array.
pub open spec fn op_try_reserve(gd: Seq<u8>, base: int) -> Outcome {
    if !fits(gd, base + 9, 8) {
        halted(Halt::InputExhausted)
    } else {
        (seq![
            Expect::TryReserve(try_reserve_known(usize_at(gd, base + 9) as nat)),
            Expect::BoxedLen(2),
            Expect::IntoInner(false),
        ], None)
    }
}

/// Operation 12 (see `op_try_reserve`).
pub fn try_reserve(gd: &[u8], base: usize) -> (r: (Vec<Event>, Option<Halt>))
    requires
        base + 12 <= gd.len() <= isize::MAX,
    ensures
        events_match(r.0@, op_try_reserve(gd@, base as int).0),
        r.1 == op_try_reserve(gd@, base as int).1,
{
    let mut v = small_vec_u32_new();
    let mut extend_data: Vec<u32> = Vec::new();
    extend_data.push(crate::bytes::_to_u32(gd, base + 1));
    extend_data.push(crate::bytes::_to_u32(gd, base + 5));
    small_vec_u32_extend(&mut v, extend_data);
    let amount = match read_usize(gd, base + 9) {
        Some(a) => a,
        None => return (Vec::new(), Some(Halt::InputExhausted)),
    };
    let result = small_vec_u32_try_reserve(&mut v, amount);
    let mut out: Vec<Event> = Vec::new();
    out.push(Event::TryReserve(result.is_ok()));
    let boxed = small_vec_u32_into_boxed_slice(small_vec_u32_clone(&v));
    out.push(Event::BoxedLen(boxed.len()));
    let inner = small_vec_u32_into_inner(v);
    out.push(Event::IntoInner(inner.is_ok()));
    proof {
        let x = op_try_reserve(gd@, base as int).0;
        assert(forall|i: int| 0 <= i < out@.len() ==> #[trigger] event_matches(out@[i], x[i]));
    }
    (out, None)
}

/// Operation 13: push six values read two bytes apart, maybe keep the even
/// ones, maybe remove repeated neighbours.
pub open spec fn op_retain_dedup(gd: Seq<u8>, base: int) -> Outcome {
    if !reads_fit(gd, base + 1, 2, 6) {
        halted(Halt::InputExhausted)
    } else {
        let items0 = u32s_at(gd, base + 1, 2, 6);
        let retained = gd[base + 1] % 2 == 0;
        let items1 = if retained { items0.filter(|x: u32| x % 2 == 0) } else { items0 };
        let ev1 = if retained { seq![Expect::Retained(items1.len())] } else { Seq::<Expect>::empty() };
        let deduped = gd[base + 2] % 2 == 0;
        let ev2 = if deduped { ev1.push(Expect::Deduped(dedup_seq(items1).len())) } else { ev1 };
        (ev2.push(Expect::MutPtr), None)
    }
}

/// Operation 13 (see `op_retain_dedup`).
pub fn retain_dedup(gd: &[u8], base: usize) -> (r: (Vec<Event>, Option<Halt>))
    requires
        base + 12 <= gd.len() <= isize::MAX,
    ensures
        events_match(r.0@, op_retain_dedup(gd@, base as int).0),
        r.1 == op_retain_dedup(gd@, base as int).1,
{
    let mut v = match pushed_from(gd, base + 1, 2, 6) {
        Some(v) => v,
        None => return (Vec::new(), Some(Halt::InputExhausted)),
    };
    let ghost x = op_retain_dedup(gd@, base as int).0;
    let mut out: Vec<Event> = Vec::new();
    let retain_choice = _to_u8(gd, base + 1) % 2;
    if retain_choice == 0 {
        small_vec_u32_retain_even(&mut v);
        out.push(Event::Retained(small_vec_u32_len(&v)));
    }
    let dedup_choice = _to_u8(gd, base + 2) % 2;
    if dedup_choice == 0 {
        small_vec_u32_dedup(&mut v);
        out.push(Event::Deduped(small_vec_u32_len(&v)));
    }
    out.push(Event::MutPtr(small_vec_u32_as_mut_ptr(&mut v)));
    proof {
        assert(forall|i: int| 0 <= i < out@.len() ==> #[trigger] event_matches(out@[i], x[i]));
    }
    (out, None)
}

/// Operation 14: a new vector, its clone, its views, and a vector made from
/// `[1, 2, 3]`.
pub open spec fn op_views() -> Outcome {
    (seq![
        Expect::DefaultPtr,
        Expect::ClonedPtr,
        Expect::BorrowLen(0),
        Expect::AsRefLen(0),
        Expect::ToSmallVecLen(3),
    ], None)
}

/// Operation 14 (see `op_views`).
pub fn views() -> (r: (Vec<Event>, Option<Halt>))
    ensures
        events_match(r.0@, op_views().0),
        r.1 == op_views().1,
{
    let v = small_vec_u32_new();
    let mut out: Vec<Event> = Vec::new();
    out.push(Event::DefaultPtr(small_vec_u32_as_ptr(&v)));
    let cloned = small_vec_u32_clone(&v);
    out.push(Event::ClonedPtr(small_vec_u32_as_ptr(&cloned)));
    out.push(Event::BorrowLen(small_vec_u32_borrow(&v).len()));
    out.push(Event::AsRefLen(small_vec_u32_as_ref(&v).len()));
    let three: [u32; 3] = [1, 2, 3];
    let made = small_vec_u32_to_small_vec(&three);
    out.push(Event::ToSmallVecLen(small_vec_u32_len(&made)));
    proof {
        let x = op_views().0;
        assert(forall|i: int| 0 <= i < out@.len() ==> #[trigger] event_matches(out@[i], x[i]));
    }
    (out, None)
}


/// What the operation whose twelve bytes start at `base` is owed.
pub open spec fn op_outcome(gd: Seq<u8>, base: int) -> Outcome {
    let op = gd[base] % 15;
    if op == 0 {
        op_build(gd, base)
    } else if op == 1 {
        op_push_pop(gd, base)
    } else if op == 2 {
        op_compare(gd, base)
    } else if op == 3 {
        op_reserve(gd, base)
    } else if op == 4 {
        op_insert(gd, base)
    } else if op == 5 {
        op_overwrite(gd, base)
    } else if op == 6 {
        op_drain(gd, base)
    } else if op == 7 {
        op_remove(gd, base)
    } else if op == 8 {
        op_into_iter(gd, base)
    } else if op == 9 {
        op_truncate(gd, base)
    } else if op == 10 {
        op_clear_swap_resize(gd, base)
    } else if op == 11 {
        op_append_insert_many(gd, base)
    } else if op == 12 {
        op_try_reserve(gd, base)
    } else if op == 13 {
        op_retain_dedup(gd, base)
    } else {
        op_views()
    }
}

/// Runs the operation whose twelve bytes start at `base`.
pub fn run_op(gd: &[u8], base: usize) -> (r: (Vec<Event>, Option<Halt>))
    requires
        base + 12 <= gd.len() <= isize::MAX,
    ensures
        events_match(r.0@, op_outcome(gd@, base as int).0),
        r.1 == op_outcome(gd@, base as int).1,
{
    let operation = _to_u8(gd, base) % 15;
    match operation {
        0 => build_and_report(gd, base),
        1 => push_pop(gd, base),
        2 => compare(gd, base),
        3 => reserve(gd, base),
        4 => insert(gd, base),
        5 => overwrite(gd, base),
        6 => drain(gd, base),
        7 => remove(gd, base),
        8 => into_iter(gd, base),
        9 => truncate(gd, base),
        10 => clear_swap_resize(gd, base),
        11 => append_insert_many(gd, base),
        12 => try_reserve(gd, base),
        13 => retain_dedup(gd, base),
        _ => views(),
    }
}

/// What operations `k` up to `count` are owed: each one's events in turn,
/// stopping at the first that halts or whose twelve bytes do not fit.
pub open spec fn ops_from(gd: Seq<u8>, k: nat, count: nat) -> Outcome
    decreases count - k,
{
    if k >= count {
        (Seq::empty(), None)
    } else {
        let base = 1 + 12 * k;
        if base + 12 > gd.len() {
            (Seq::empty(), None)
        } else {
            let o = op_outcome(gd, base as int);
            if o.1 is Some {
                o
            } else {
                let rest = ops_from(gd, k + 1, count);
                (o.0 + rest.0, rest.1)
            }
        }
    }
}

/// What a whole run is owed. Inputs shorter than 200 bytes are ignored; `gd`
/// is the half of the input that the script reads, and its first byte
/// chooses how many operations run (1 to 15).
pub open spec fn script_outcome(input_len: nat, gd: Seq<u8>) -> Outcome {
    if input_len < 200 {
        (Seq::empty(), None)
    } else if gd.len() == 0 {
        halted(Halt::InputExhausted)
    } else {
        ops_from(gd, 0, (gd[0] % 15 + 1) as nat)
    }
}

/// The events of a run, and why it stopped early, if it did.
pub struct Run {
    pub events: Vec<Event>,
    pub halt: Option<Halt>,
}

/// Reported events, followed by more, match what was owed followed by more.
proof fn lemma_events_match_append(a: Seq<Event>, x: Seq<Expect>, b: Seq<Event>, y: Seq<Expect>)
    requires
        events_match(a, x),
        events_match(b, y),
    ensures
        events_match(a + b, x + y),
{
    assert forall|i: int| 0 <= i < (a + b).len() implies #[trigger] event_matches((a + b)[i], (x + y)[i]) by {
        if i < a.len() {
            assert(event_matches(a[i], x[i]));
        } else {
            assert(event_matches(b[i - a.len()], y[i - a.len()]));
        }
    }
}

/// Runs the script of an input of `input_len` bytes whose first half is `gd`.
pub fn run(input_len: usize, gd: &[u8]) -> (r: Run)
    requires
        gd.len() <= isize::MAX,
    ensures
        events_match(r.events@, script_outcome(input_len as nat, gd@).0),
        r.halt == script_outcome(input_len as nat, gd@).1,
{
    let mut events: Vec<Event> = Vec::new();
    if input_len < 200 {
        return Run { events, halt: None };
    }
    let first = match read_u8(gd, 0) {
        Some(b) => b,
        None => return Run { events, halt: Some(Halt::InputExhausted) },
    };
    let operations_count = first % 15 + 1;
    let ghost count = operations_count as nat;
    let ghost mut owed: Seq<Expect> = Seq::empty();
    let mut op_idx: u8 = 0;
    while op_idx < operations_count
        invariant
            input_len >= 200,
            gd@.len() > 0,
            gd.len() <= isize::MAX,
            count == operations_count as nat == (gd@[0] % 15 + 1) as nat,
            op_idx <= operations_count <= 15,
            events_match(events@, owed),
            script_outcome(input_len as nat, gd@) == (
                owed + ops_from(gd@, op_idx as nat, count).0,
                ops_from(gd@, op_idx as nat, count).1,
            ),
        decreases operations_count - op_idx,
    {
        let base = 1 + op_idx as usize * 12;
        if base + 12 > gd.len() {
            assert(owed + ops_from(gd@, op_idx as nat, count).0 =~= owed);
            return Run { events, halt: None };
        }
        let (evs, halt) = run_op(gd, base);
        let ghost o = op_outcome(gd@, base as int);
        proof {
            lemma_events_match_append(events@, owed, evs@, o.0);
        }
        let mut evs = evs;
        events.append(&mut evs);
        if halt.is_some() {
            assert(owed + ops_from(gd@, op_idx as nat, count).0 =~= owed + o.0);
            return Run { events, halt };
        }
        proof {
            let rest = ops_from(gd@, (op_idx + 1) as nat, count);
            assert(owed + (o.0 + rest.0) =~= (owed + o.0) + rest.0);
            owed = owed + o.0;
        }
        op_idx = op_idx + 1;
    }
    proof {
        if op_idx >= operations_count {
            assert(owed + ops_from(gd@, op_idx as nat, count).0 =~= owed);
        }
    }
    Run { events, halt: None }
}

/// Operation 7, where the read index is in range, removes and reports the item
/// that the input put at that index: the `u32` read at `base + 1 + 4 * index`
/// (the first pushed value for index 0, the second for index 1); one item is
/// left.
pub proof fn law_remove_reports_the_item_at_its_index(gd: Seq<u8>, base: int)
    requires
        0 <= base < gd.len(),
        gd[base] % 15 == 7,
        fits(gd, base + 9, 8),
        usize_at(gd, base + 9) < 2,
    ensures
        op_outcome(gd, base).1 is None,
        op_outcome(gd, base).0[0] == Expect::Removed(u32_at(gd, base + 1 + 4 * usize_at(gd, base + 9))),
        op_outcome(gd, base).0[2] == Expect::DerefLen(1),
{
}

/// Operation 1 pops the value pushed last: the `u32` read at
/// `base + 2 + 4 * (k - 1)` for `k` values, after listing all of them in the
/// order they were read.
pub proof fn law_pop_gives_the_last_value_pushed(gd: Seq<u8>, base: int)
    requires
        0 <= base,
        base + 1 < gd.len(),
        gd[base] % 15 == 1,
        gd[base + 1] % 10 > 0,
        reads_fit(gd, base + 2, 4, (gd[base + 1] % 10) as nat),
    ensures
        ({
            let k = (gd[base + 1] % 10) as int;
            let o = op_outcome(gd, base);
            &&& o.1 is None
            &&& o.0.len() == 3
            &&& o.0[2] == Expect::Popped(u32_at(gd, base + 2 + 4 * (k - 1)))
            &&& o.0[1] matches Expect::Items(v) && v.len() == k && forall|j: int|
                0 <= j < k ==> v[j] == u32_at(gd, base + 2 + 4 * j)
        }),
{
}

/// Operation 6 lists, in order, exactly the values in the drained range: the
/// `j`-th reported is the value pushed at position `start + j`, read at
/// `base + 1 + 2 * (start + j)`.
pub proof fn law_drain_lists_the_values_in_its_range(gd: Seq<u8>, base: int)
    requires
        0 <= base < gd.len(),
        gd[base] % 15 == 6,
        reads_fit(gd, base + 1, 2, 5),
        fits(gd, base + 5, 8),
    ensures
        ({
            let start = (usize_at(gd, base + 1) % 3) as int;
            let end0 = start + usize_at(gd, base + 5) % 3 + 1;
            let end: int = if end0 > 5 { 5 } else { end0 };
            let o = op_outcome(gd, base);
            &&& o.1 is None
            &&& o.0.len() == end - start + 1
            &&& forall|j: int| 0 <= j < end - start ==> o.0[j] == Expect::Drained(u32_at(gd, base + 1 + 2 * (start + j)))
        }),
{
}

} // verus!

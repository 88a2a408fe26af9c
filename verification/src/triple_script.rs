//! A script of operations on three persistent vectors: a
//! `SmallVec<[i32; 16]>`, a `SmallVec<[u8; 32]>` and a small vector of
//! number-carrying elements with room for 12 inline, whose `Clone` reads the
//! input.
//!
//! Bytes 8 to 10 of the input's first half choose how each vector starts;
//! then operations run in blocks of 32 bytes from byte 72, as many as the
//! `usize` at byte 0 says (modulo 65, plus one), while a whole block is
//! left. A block's first byte chooses one of fifteen operations and its
//! second, for most of them, the vector. A run halts where a read runs past
//! the input, a size computation overflows, a capacity asked of `grow` is
//! below the length, or a clone of an element panics.
//!
//! The number-carrying elements are held as their numbers. The outside
//! crate leaves open the capacity that a vector built from more copies of
//! one item than fit inline takes over from a `Vec`; what a run reports is
//! stated for every such capacity (`Caps`).
use vstd::prelude::*;
use crate::hooks::{clone_number, cloned_number};
use crate::script::{fits, i32_at, read_i32, read_u8, read_usize, usize_at, Halt};
use crate::small_vec::{
    exact_growth_overflows, exact_growth_overflows_exec, exact_grown, growth_overflows,
    growth_overflows_exec, grown, i32_ints, law_lex_order_reflexive, open_cap, repeat, Order,
};
use crate::sv_i32::{
    small_vec_i32_as_mut_ptr, small_vec_i32_as_mut_slice, small_vec_i32_as_ptr, small_vec_i32_as_ref,
    small_vec_i32_as_slice, small_vec_i32_borrow, small_vec_i32_borrow_mut, small_vec_i32_capacity,
    small_vec_i32_clear, small_vec_i32_clone, small_vec_i32_compare, small_vec_i32_deref,
    small_vec_i32_drain, small_vec_i32_eq, small_vec_i32_extend_from_slice, small_vec_i32_from_elem,
    small_vec_i32_grow, small_vec_i32_inline_size, small_vec_i32_insert, small_vec_i32_insert_many,
    small_vec_i32_is_empty, small_vec_i32_len, small_vec_i32_new, small_vec_i32_partial_compare,
    small_vec_i32_pop, small_vec_i32_push, small_vec_i32_remove, small_vec_i32_reserve,
    small_vec_i32_reserve_exact, small_vec_i32_shrink_to_fit, small_vec_i32_spilled,
    small_vec_i32_swap_remove, small_vec_i32_truncate, small_vec_i32_with_capacity, sv_i32_cap,
    sv_i32_items, SmallVecI32,
};
use crate::sv_u8n32::{
    small_vec_u8n32_as_mut_ptr, small_vec_u8n32_as_mut_slice, small_vec_u8n32_as_ptr,
    small_vec_u8n32_as_slice, small_vec_u8n32_borrow, small_vec_u8n32_borrow_mut,
    small_vec_u8n32_capacity, small_vec_u8n32_clear, small_vec_u8n32_deref, small_vec_u8n32_drain,
    small_vec_u8n32_extend_from_slice, small_vec_u8n32_from_elem, small_vec_u8n32_grow,
    small_vec_u8n32_inline_size, small_vec_u8n32_insert, small_vec_u8n32_insert_many,
    small_vec_u8n32_is_empty, small_vec_u8n32_len, small_vec_u8n32_new, small_vec_u8n32_pop,
    small_vec_u8n32_push, small_vec_u8n32_remove, small_vec_u8n32_reserve,
    small_vec_u8n32_reserve_exact, small_vec_u8n32_shrink_to_fit, small_vec_u8n32_spilled,
    small_vec_u8n32_swap_remove, small_vec_u8n32_truncate, small_vec_u8n32_with_capacity,
    sv_u8n32_cap, sv_u8n32_items, SmallVecU8N32,
};
use crate::sv_usize12::{
    small_vec_usize12_as_mut_ptr, small_vec_usize12_as_ptr, small_vec_usize12_borrow,
    small_vec_usize12_borrow_mut, small_vec_usize12_capacity, small_vec_usize12_clear,
    small_vec_usize12_deref, small_vec_usize12_deref_mut, small_vec_usize12_drain,
    small_vec_usize12_extend_from_slice, small_vec_usize12_from_elem, small_vec_usize12_from_vec,
    small_vec_usize12_grow, small_vec_usize12_inline_size, small_vec_usize12_insert,
    small_vec_usize12_insert_many, small_vec_usize12_is_empty, small_vec_usize12_len,
    small_vec_usize12_new, small_vec_usize12_pop, small_vec_usize12_push, small_vec_usize12_remove,
    small_vec_usize12_reserve, small_vec_usize12_reserve_exact, small_vec_usize12_shrink_to_fit,
    small_vec_usize12_spilled, small_vec_usize12_swap_remove, small_vec_usize12_truncate,
    small_vec_usize12_with_capacity, sv_usize12_cap, sv_usize12_items, usize_size, SmallVecUsize12,
};

verus! {

/// What the script reports, one value per printed line.
#[derive(Debug, PartialEq, Eq)]
pub enum Event {
    /// The items of the `i32` vector.
    Ints(Vec<i32>),
    /// The items of the byte vector.
    Bytes(Vec<u8>),
    /// A capacity.
    Capacity(usize),
    /// Whether a vector has spilled to the heap.
    Spilled(bool),
    /// A length.
    Len(usize),
    /// An inline size.
    InlineSize(usize),
    /// Whether a vector is empty.
    Empty(bool),
    /// An item of the `i32` vector.
    Int(i32),
    /// An item of the byte vector.
    Byte(u8),
    /// The number of an element of the third vector.
    Number(usize),
    /// An address.
    Ptr(usize),
    /// The order of the `i32` vector and its clone.
    Compared(Order),
    /// Whether the `i32` vector equals its clone.
    Equal(bool),
    /// The partial order of the `i32` vector and its clone.
    PartialCompared(Option<Order>),
}

/// What the script is owed to report, items as integers; an address may be
/// any.
pub enum Expect {
    Items(Seq<int>),
    Capacity(nat),
    Spilled(bool),
    Len(nat),
    InlineSize(nat),
    Empty(bool),
    Value(int),
    Ptr,
    Compared(Order),
    Equal(bool),
    PartialCompared(Option<Order>),
}

/// The bytes of `s` as integers.
pub open spec fn u8_ints(s: Seq<u8>) -> Seq<int> {
    s.map_values(|x: u8| x as int)
}

/// Whether a reported event is the one that was owed.
pub open spec fn event_matches(e: Event, x: Expect) -> bool {
    match e {
        Event::Ints(v) => x == Expect::Items(i32_ints(v@)),
        Event::Bytes(v) => x == Expect::Items(u8_ints(v@)),
        Event::Capacity(c) => x == Expect::Capacity(c as nat),
        Event::Spilled(b) => x == Expect::Spilled(b),
        Event::Len(n) => x == Expect::Len(n as nat),
        Event::InlineSize(n) => x == Expect::InlineSize(n as nat),
        Event::Empty(b) => x == Expect::Empty(b),
        Event::Int(v) => x == Expect::Value(v as int),
        Event::Byte(v) => x == Expect::Value(v as int),
        Event::Number(v) => x == Expect::Value(v as int),
        Event::Ptr(_) => x is Ptr,
        Event::Compared(o) => x == Expect::Compared(o),
        Event::Equal(b) => x == Expect::Equal(b),
        Event::PartialCompared(o) => x == Expect::PartialCompared(o),
    }
}

/// Whether the reported events are, one for one, those owed.
pub open spec fn events_match(a: Seq<Event>, x: Seq<Expect>) -> bool {
    &&& a.len() == x.len()
    &&& forall|i: int| 0 <= i < a.len() ==> #[trigger] event_matches(a[i], x[i])
}

/// Reported events, followed by more, match what was owed followed by more.
proof fn lemma_events_match_append(a: Seq<Event>, x: Seq<Expect>, b: Seq<Event>, y: Seq<Expect>)
    requires
        events_match(a, x),
        events_match(b, y),
    ensures
        events_match(a + b, x + y),
{
    assert forall|i: int| 0 <= i < (a + b).len() implies #[trigger] event_matches((a + b)[i], (x + y)[i]) by {
        if i < a.len() {
            assert(event_matches(a[i], x[i]));
        } else {
            assert(event_matches(b[i - a.len()], y[i - a.len()]));
        }
    }
}

/// Which of the three vectors an operation works on.
#[derive(Clone, Copy, Debug, PartialEq, Eq, Structural)]
pub enum Kind {
    /// The `SmallVec<[i32; 16]>`.
    Ints,
    /// The `SmallVec<[u8; 32]>`.
    Bytes,
    /// The vector of number-carrying elements.
    Numbers,
}

/// The vector that a selector chooses.
pub open spec fn kind_of(selector: int) -> Kind {
    if selector == 0 {
        Kind::Ints
    } else if selector == 1 {
        Kind::Bytes
    } else {
        Kind::Numbers
    }
}

/// The number of items a vector holds inline.
pub open spec fn inline(k: Kind) -> nat {
    match k {
        Kind::Ints => 16,
        Kind::Bytes => 32,
        Kind::Numbers => 12,
    }
}

/// The size in bytes of an item in memory.
pub open spec fn item_size(k: Kind) -> nat {
    match k {
        Kind::Ints => 4,
        Kind::Bytes => 1,
        Kind::Numbers => usize_size(),
    }
}

/// The number of input bytes an item is read from.
pub open spec fn width(k: Kind) -> int {
    match k {
        Kind::Ints => 4,
        Kind::Bytes => 1,
        Kind::Numbers => 8,
    }
}

/// The item read at `o`, as an integer.
pub open spec fn item_at(g: Seq<u8>, k: Kind, o: int) -> int {
    match k {
        Kind::Ints => i32_at(g, o) as int,
        Kind::Bytes => g[o] as int,
        Kind::Numbers => usize_at(g, o) as int,
    }
}

/// `count` items read at `o`, `width` bytes apart.
pub open spec fn items_at(g: Seq<u8>, k: Kind, o: int, count: nat) -> Seq<int> {
    Seq::new(count, |i: int| item_at(g, k, o + width(k) * i))
}

/// Whether all `count` items read at `o` lie inside `g`.
pub open spec fn items_fit(g: Seq<u8>, k: Kind, o: int, count: nat) -> bool {
    count == 0 || fits(g, o + width(k) * (count - 1), width(k))
}

/// A vector as the script sees it: its items as integers, and its capacity.
pub struct Model {
    pub items: Seq<int>,
    pub cap: nat,
}

/// The three vectors.
pub struct Vecs {
    pub ints: Model,
    pub bytes: Model,
    pub numbers: Model,
}

/// The vector of kind `k`.
pub open spec fn get(vs: Vecs, k: Kind) -> Model {
    match k {
        Kind::Ints => vs.ints,
        Kind::Bytes => vs.bytes,
        Kind::Numbers => vs.numbers,
    }
}

/// The vectors with that of kind `k` replaced by `m`.
pub open spec fn set(vs: Vecs, k: Kind, m: Model) -> Vecs {
    match k {
        Kind::Ints => Vecs { ints: m, ..vs },
        Kind::Bytes => Vecs { bytes: m, ..vs },
        Kind::Numbers => Vecs { numbers: m, ..vs },
    }
}

/// How a vector's items are printed: in full, or for the third vector by
/// their number.
pub open spec fn listing(k: Kind, items: Seq<int>) -> Expect {
    if k == Kind::Numbers {
        Expect::Len(items.len())
    } else {
        Expect::Items(items)
    }
}

/// What an operation does: its events, why it halts, if it does, and the
/// vectors after it.
pub type Step = (Seq<Expect>, Option<Halt>, Vecs);

/// Operation 10: where both selectors choose the `i32` vector `m`, compare
/// it with a clone.
pub open spec fn op_compare_clone(g: Seq<u8>, o: int, m: Model) -> (Seq<Expect>, Option<Halt>) {
    if g[o + 1] % 3 == 0 && g[o + 2] % 3 == 0 {
        if growth_overflows(0, 16, m.items.len(), 4) {
            (Seq::empty(), Some(Halt::CapacityOverflow))
        } else {
            (
                seq![
                    Expect::Compared(Order::Equal),
                    Expect::Equal(true),
                    Expect::PartialCompared(Some(Order::Equal)),
                ],
                None,
            )
        }
    } else {
        (Seq::empty(), None)
    }
}

/// What operation `op` (other than 10) does to the vector `m` of kind `k`,
/// with its block at `o`: its events, why it halts, if it does, and the
/// vector after it.
pub open spec fn op_on(g: Seq<u8>, o: int, op: int, k: Kind, m: Model) -> (Seq<Expect>, Option<Halt>, Model) {
    let n = m.items.len();
    let z = item_size(k);
    let none = Seq::<Expect>::empty();
    let arg = usize_at(g, o + 2) as nat;
    if op == 0 {
        let count = (g[o + 2] % 33) as nat;
        if !items_fit(g, k, o + 3, count) {
            (none, Some(Halt::InputExhausted), m)
        } else if growth_overflows(n, m.cap, count, z) {
            (none, Some(Halt::CapacityOverflow), m)
        } else {
            let m2 = Model { items: m.items + items_at(g, k, o + 3, count), cap: grown(n, m.cap, count) };
            (
                match k {
                    Kind::Ints => seq![Expect::Items(m2.items), Expect::Capacity(m2.cap)],
                    Kind::Bytes => seq![Expect::Items(m2.items), Expect::Len(m2.items.len())],
                    Kind::Numbers => seq![Expect::Len(m2.items.len())],
                },
                None,
                m2,
            )
        }
    } else if op == 1 {
        if growth_overflows(n, m.cap, arg, z) {
            (none, Some(Halt::CapacityOverflow), m)
        } else {
            let c = grown(n, m.cap, arg);
            (seq![Expect::Capacity(c), Expect::Spilled(c > inline(k))], None, Model { items: m.items, cap: c })
        }
    } else if op == 2 {
        if n == 0 {
            (none, None, m)
        } else if growth_overflows(n, m.cap, 1, z) {
            (none, Some(Halt::CapacityOverflow), m)
        } else {
            let items = m.items.insert((arg % n) as int, item_at(g, k, o + 10));
            (
                seq![listing(k, items), Expect::InlineSize(inline(k))],
                None,
                Model { items, cap: grown(n, m.cap, 1) },
            )
        }
    } else if op == 3 {
        let items = if arg < n { m.items.take(arg as int) } else { m.items };
        (seq![listing(k, items), Expect::Empty(items.len() == 0)], None, Model { items, cap: m.cap })
    } else if op == 4 {
        if n == 0 {
            (seq![Expect::Len(0)], None, m)
        } else {
            (
                seq![Expect::Value(m.items.last()), Expect::Len((n - 1) as nat)],
                None,
                Model { items: m.items.drop_last(), cap: m.cap },
            )
        }
    } else if op == 5 {
        if growth_overflows(n, m.cap, 1, z) {
            (none, Some(Halt::CapacityOverflow), m)
        } else {
            let items = m.items.push(item_at(g, k, o + 2));
            (seq![listing(k, items), Expect::Ptr], None, Model { items, cap: grown(n, m.cap, 1) })
        }
    } else if op == 6 {
        (
            seq![Expect::Empty(true), listing(k, Seq::empty())],
            None,
            Model { items: Seq::empty(), cap: m.cap },
        )
    } else if op == 7 {
        let c = if m.cap == inline(k) || n <= inline(k) { inline(k) } else { n };
        (seq![Expect::Capacity(c), listing(k, m.items)], None, Model { items: m.items, cap: c })
    } else if op == 8 {
        if n == 0 {
            (none, None, m)
        } else {
            let i = (arg % n) as int;
            (seq![Expect::Value(m.items[i]), Expect::Ptr], None, Model { items: m.items.remove(i), cap: m.cap })
        }
    } else if op == 9 {
        if n == 0 {
            (none, None, m)
        } else {
            let i = (arg % n) as int;
            let items = m.items.update(i, m.items.last()).drop_last();
            (seq![Expect::Value(m.items[i]), listing(k, items)], None, Model { items, cap: m.cap })
        }
    } else if op == 11 {
        if n == 0 {
            (none, None, m)
        } else {
            let s = (arg % n) as int;
            let end = usize_at(g, o + 10) as int;
            let e = if end > s { end % (n - s) + s + 1 } else { s + 1 };
            (
                m.items.subrange(s, e).map_values(|x: int| Expect::Value(x)),
                None,
                Model { items: m.items.take(s) + m.items.skip(e), cap: m.cap },
            )
        }
    } else if op == 12 {
        if exact_growth_overflows(n, m.cap, arg, z) {
            (none, Some(Halt::CapacityOverflow), m)
        } else {
            let c = exact_grown(n, m.cap, arg);
            (seq![Expect::Capacity(c)], None, Model { items: m.items, cap: c })
        }
    } else if op == 13 {
        if arg < n {
            (none, Some(Halt::OutOfRange), m)
        } else if arg > inline(k) && arg * z > isize::MAX {
            (none, Some(Halt::CapacityOverflow), m)
        } else {
            let c = if arg <= inline(k) { inline(k) } else { arg };
            (seq![Expect::Capacity(c)], None, Model { items: m.items, cap: c })
        }
    } else {
        let count = (usize_at(g, o + 10) % 65) as nat;
        if !items_fit(g, k, o + 18, count) {
            (none, Some(Halt::InputExhausted), m)
        } else if growth_overflows(n, m.cap, count, z) {
            (none, Some(Halt::CapacityOverflow), m)
        } else {
            let at: int = if n == 0 { 0 } else { (arg % n) as int };
            let items = m.items.take(at) + items_at(g, k, o + 18, count) + m.items.skip(at);
            (seq![listing(k, items)], None, Model { items, cap: grown(n, m.cap, count) })
        }
    }
}

/// What the operation of the block at `o` does to the vectors.
#[verifier::opaque]
pub open spec fn op_step(g: Seq<u8>, o: int, vs: Vecs) -> Step {
    let op = (g[o] % 15) as int;
    if op == 10 {
        let s = op_compare_clone(g, o, vs.ints);
        (s.0, s.1, vs)
    } else {
        let k = kind_of((g[o + 1] % 3) as int);
        let s = op_on(g, o, op, k, get(vs, k));
        (s.0, s.1, set(vs, k, s.2))
    }
}

/// What blocks `k` up to `count` do, in turn, stopping at the first that
/// halts or once a block would run past the end of `g`.
pub open spec fn ops_from(g: Seq<u8>, k: nat, count: nat, vs: Vecs) -> (Seq<Expect>, Option<Halt>)
    decreases count - k,
{
    let o: int = 72 + 32 * k as int;
    if k >= count || o + 31 >= g.len() {
        (Seq::empty(), None)
    } else {
        let s = op_step(g, o, vs);
        if s.1 is Some {
            (s.0, s.1)
        } else {
            let rest = ops_from(g, k + 1, count, s.2);
            (s.0 + rest.0, rest.1)
        }
    }
}

/// The capacities the outside crate leaves open: those of the three
/// vectors where each is built from more copies of one item than fit inline.
pub struct Caps {
    pub ints: nat,
    pub bytes: nat,
    pub numbers: nat,
}

/// How the `i32` vector starts, by the selector at byte 8.
pub open spec fn start_ints(g: Seq<u8>, open: nat) -> Result<Model, Halt> {
    let s = g[8] % 3;
    if s == 0 {
        Ok(Model { items: Seq::empty(), cap: 16 })
    } else if s == 1 {
        if !fits(g, 11, 8) {
            Err(Halt::InputExhausted)
        } else if exact_growth_overflows(0, 16, usize_at(g, 11) as nat, 4) {
            Err(Halt::CapacityOverflow)
        } else {
            let n = usize_at(g, 11) as nat;
            Ok(Model { items: Seq::empty(), cap: if n <= 16 { 16 } else { n } })
        }
    } else if !fits(g, 19, 4) || !fits(g, 23, 8) {
        Err(Halt::InputExhausted)
    } else {
        let n = (usize_at(g, 23) % 65) as nat;
        Ok(Model {
            items: repeat(i32_at(g, 19) as int, n),
            cap: if n <= 16 { 16 } else { open_cap(open, n, 16, 4) },
        })
    }
}

/// How the byte vector starts, by the selector at byte 9.
pub open spec fn start_bytes(g: Seq<u8>, open: nat) -> Result<Model, Halt> {
    let s = g[9] % 3;
    if s == 0 {
        Ok(Model { items: Seq::empty(), cap: 32 })
    } else if s == 1 {
        if !fits(g, 31, 8) {
            Err(Halt::InputExhausted)
        } else if exact_growth_overflows(0, 32, usize_at(g, 31) as nat, 1) {
            Err(Halt::CapacityOverflow)
        } else {
            let n = usize_at(g, 31) as nat;
            Ok(Model { items: Seq::empty(), cap: if n <= 32 { 32 } else { n } })
        }
    } else if !fits(g, 39, 1) || !fits(g, 40, 8) {
        Err(Halt::InputExhausted)
    } else {
        let n = (usize_at(g, 40) % 65) as nat;
        Ok(Model {
            items: repeat(g[39] as int, n),
            cap: if n <= 32 { 32 } else { open_cap(open, n, 32, 1) },
        })
    }
}

/// How the third vector starts, by the selector at byte 10. Copies of one
/// element are its clones; where more are asked for than fit inline, they
/// come by way of `vec!`, which moves the element itself into the last
/// place.
pub open spec fn start_numbers(first: Seq<u8>, second: Seq<u8>, open: nat) -> Result<Model, Halt> {
    let s = first[10] % 3;
    if s == 0 {
        Ok(Model { items: Seq::empty(), cap: 12 })
    } else if s == 1 {
        if !fits(first, 48, 8) {
            Err(Halt::InputExhausted)
        } else if exact_growth_overflows(0, 12, usize_at(first, 48) as nat, usize_size()) {
            Err(Halt::CapacityOverflow)
        } else {
            let n = usize_at(first, 48) as nat;
            Ok(Model { items: Seq::empty(), cap: if n <= 12 { 12 } else { n } })
        }
    } else if !fits(first, 56, 8) || !fits(first, 64, 8) {
        Err(Halt::InputExhausted)
    } else {
        let e = usize_at(first, 56);
        let n = (usize_at(first, 64) % 65) as nat;
        if n == 0 {
            Ok(Model { items: Seq::empty(), cap: 12 })
        } else {
            match cloned_number(first, second, 35, 43, e as nat) {
                Err(h) => Err(h),
                Ok(c) => if n <= 12 {
                    Ok(Model { items: repeat(c as int, n), cap: 12 })
                } else {
                    Ok(Model {
                        items: repeat(c as int, (n - 1) as nat).push(e as int),
                        cap: open_cap(open, n, 12, usize_size()),
                    })
                },
            }
        }
    }
}

/// How the three vectors start, the open capacities being `caps`.
pub open spec fn start(first: Seq<u8>, second: Seq<u8>, caps: Caps) -> Result<Vecs, Halt> {
    if !fits(first, 8, 3) {
        Err(Halt::InputExhausted)
    } else {
        match start_ints(first, caps.ints) {
            Err(h) => Err(h),
            Ok(a) => match start_bytes(first, caps.bytes) {
                Err(h) => Err(h),
                Ok(b) => match start_numbers(first, second, caps.numbers) {
                    Err(h) => Err(h),
                    Ok(c) => Ok(Vecs { ints: a, bytes: b, numbers: c }),
                },
            },
        }
    }
}

/// What a whole run is owed, the open capacities being `caps`. Inputs
/// shorter than 3072 bytes are ignored.
pub open spec fn script_outcome(input_len: nat, first: Seq<u8>, second: Seq<u8>, caps: Caps) -> (
    Seq<Expect>,
    Option<Halt>,
) {
    if input_len < 3072 {
        (Seq::empty(), None)
    } else if !fits(first, 0, 8) {
        (Seq::empty(), Some(Halt::InputExhausted))
    } else {
        match start(first, second, caps) {
            Err(h) => (Seq::empty(), Some(h)),
            Ok(vs) => ops_from(first, 0, (usize_at(first, 0) % 65 + 1) as nat, vs),
        }
    }
}

/// The numbers of `s` as integers.
pub open spec fn usize_ints(s: Seq<usize>) -> Seq<int> {
    s.map_values(|x: usize| x as int)
}

/// The model of the `i32` vector.
pub open spec fn ints_model(v: SmallVecI32) -> Model {
    Model { items: i32_ints(sv_i32_items(v)), cap: sv_i32_cap(v) }
}

/// The model of the byte vector.
pub open spec fn bytes_model(v: SmallVecU8N32) -> Model {
    Model { items: u8_ints(sv_u8n32_items(v)), cap: sv_u8n32_cap(v) }
}

/// The model of the third vector.
pub open spec fn numbers_model(v: SmallVecUsize12) -> Model {
    Model { items: usize_ints(sv_usize12_items(v)), cap: sv_usize12_cap(v) }
}

/// The `i32` items of `items_at`, or `None` where they do not fit.
fn read_ints_at(g: &[u8], start: usize, count: usize) -> (r: Option<Vec<i32>>)
    requires
        start <= 8192,
        count <= 64,
    ensures
        r is Some <==> items_fit(g@, Kind::Ints, start as int, count as nat),
        r matches Some(v) ==> i32_ints(v@) == items_at(g@, Kind::Ints, start as int, count as nat),
{
    let mut v: Vec<i32> = Vec::new();
    let mut i: usize = 0;
    while i < count
        invariant
            i <= count <= 64,
            start <= 8192,
            v@.len() == i,
            forall|j: int| 0 <= j < i ==> v@[j] == i32_at(g@, start + 4 * j),
            i > 0 ==> fits(g@, start + 4 * (i - 1), 4),
        decreases count - i,
    {
        match read_i32(g, start + 4 * i) {
            Some(x) => v.push(x),
            None => {
                assert(!items_fit(g@, Kind::Ints, start as int, count as nat));
                return None;
            },
        }
        i = i + 1;
    }
    assert(i32_ints(v@) =~= items_at(g@, Kind::Ints, start as int, count as nat));
    Some(v)
}

/// The byte items of `items_at`, or `None` where they do not fit.
fn read_bytes_at(g: &[u8], start: usize, count: usize) -> (r: Option<Vec<u8>>)
    requires
        start <= 8192,
        count <= 64,
    ensures
        r is Some <==> items_fit(g@, Kind::Bytes, start as int, count as nat),
        r matches Some(v) ==> u8_ints(v@) == items_at(g@, Kind::Bytes, start as int, count as nat),
{
    let mut v: Vec<u8> = Vec::new();
    let mut i: usize = 0;
    while i < count
        invariant
            i <= count <= 64,
            start <= 8192,
            v@.len() == i,
            forall|j: int| 0 <= j < i ==> v@[j] == g@[start + j],
            i > 0 ==> fits(g@, start + (i - 1), 1),
        decreases count - i,
    {
        match read_u8(g, start + i) {
            Some(x) => v.push(x),
            None => {
                assert(!items_fit(g@, Kind::Bytes, start as int, count as nat));
                return None;
            },
        }
        i = i + 1;
    }
    assert(u8_ints(v@) =~= items_at(g@, Kind::Bytes, start as int, count as nat));
    Some(v)
}

/// The number items of `items_at`, or `None` where they do not fit.
fn read_numbers_at(g: &[u8], start: usize, count: usize) -> (r: Option<Vec<usize>>)
    requires
        start <= 8192,
        count <= 64,
    ensures
        r is Some <==> items_fit(g@, Kind::Numbers, start as int, count as nat),
        r matches Some(v) ==> usize_ints(v@) == items_at(g@, Kind::Numbers, start as int, count as nat),
{
    let mut v: Vec<usize> = Vec::new();
    let mut i: usize = 0;
    while i < count
        invariant
            i <= count <= 64,
            start <= 8192,
            v@.len() == i,
            forall|j: int| 0 <= j < i ==> v@[j] == usize_at(g@, start + 8 * j),
            i > 0 ==> fits(g@, start + 8 * (i - 1), 8),
        decreases count - i,
    {
        match read_usize(g, start + 8 * i) {
            Some(x) => v.push(x),
            None => {
                assert(!items_fit(g@, Kind::Numbers, start as int, count as nat));
                return None;
            },
        }
        i = i + 1;
    }
    assert(usize_ints(v@) =~= items_at(g@, Kind::Numbers, start as int, count as nat));
    Some(v)
}

/// Operations 0 to 6 on the ints vector (see `op_on`).
fn ints_early(g: &[u8], o: usize, op: u8, v: &mut SmallVecI32) -> (r: (Vec<Event>, Option<Halt>))
    requires
        old(v).wf(),
        o + 32 <= g.len(),
        o <= 4096,
        op == 0 || op == 1 || op == 2 || op == 3 || op == 4 || op == 5 || op == 6,
    ensures
        final(v).wf(),
        ({
            let s = op_on(g@, o as int, op as int, Kind::Ints, ints_model(*old(v)));
            &&& events_match(r.0@, s.0)
            &&& r.1 == s.1
            &&& ints_model(*final(v)) == s.2
        }),
{
    let ghost m = ints_model(*v);
    let mut events: Vec<Event> = Vec::new();
    let n = small_vec_i32_len(v);
    let arg = match read_usize(g, o + 2) {
        Some(x) => x,
        None => return (events, Some(Halt::InputExhausted)),
    };
    if op == 0 {
        let count = g[o + 2] % 33;
        let vals = match read_ints_at(g, o + 3, count as usize) {
            Some(x) => x,
            None => return (events, Some(Halt::InputExhausted)),
        };
        if growth_overflows_exec(n, small_vec_i32_capacity(v), vals.len(), 4) {
            return (events, Some(Halt::CapacityOverflow));
        }
        small_vec_i32_extend_from_slice(v, vals.as_slice());
        proof {
            assert(i32_ints(sv_i32_items(*v)) =~= m.items + i32_ints(vals@));
        }
        let items = small_vec_i32_as_slice(&*v);
        events.push(Event::Ints(vstd::slice::slice_to_vec(items)));
        events.push(Event::Capacity(small_vec_i32_capacity(v)));
    } else if op == 1 {
        if growth_overflows_exec(n, small_vec_i32_capacity(v), arg, 4) {
            return (events, Some(Halt::CapacityOverflow));
        }
        small_vec_i32_reserve(v, arg);
        events.push(Event::Capacity(small_vec_i32_capacity(v)));
        events.push(Event::Spilled(small_vec_i32_spilled(v)));
    } else if op == 2 {
        if !small_vec_i32_is_empty(v) {
            let val = match read_i32(g, o + 10) {
                Some(x) => x,
                None => return (events, Some(Halt::InputExhausted)),
            };
            if growth_overflows_exec(n, small_vec_i32_capacity(v), 1, 4) {
                return (events, Some(Halt::CapacityOverflow));
            }
            small_vec_i32_insert(v, arg % n, val);
            proof {
                assert(i32_ints(sv_i32_items(*v)) =~= m.items.insert((arg % n) as int, val as int));
            }
            let items = small_vec_i32_as_ref(&*v);
            events.push(Event::Ints(vstd::slice::slice_to_vec(items)));
            events.push(Event::InlineSize(small_vec_i32_inline_size(v)));
        }
    } else if op == 3 {
        small_vec_i32_truncate(v, arg);
        proof {
            if arg < n {
                assert(i32_ints(sv_i32_items(*v)) =~= m.items.take(arg as int));
            }
        }
        let items = small_vec_i32_as_slice(&*v);
        events.push(Event::Ints(vstd::slice::slice_to_vec(items)));
        events.push(Event::Empty(small_vec_i32_is_empty(v)));
    } else if op == 4 {
        if let Some(x) = small_vec_i32_pop(v) {
            events.push(Event::Int(x));
        }
        proof {
            if n > 0 {
                assert(i32_ints(sv_i32_items(*v)) =~= m.items.drop_last());
            }
        }
        events.push(Event::Len(small_vec_i32_len(v)));
    } else if op == 5 {
        let val = match read_i32(g, o + 2) {
            Some(x) => x,
            None => return (events, Some(Halt::InputExhausted)),
        };
        if growth_overflows_exec(n, small_vec_i32_capacity(v), 1, 4) {
            return (events, Some(Halt::CapacityOverflow));
        }
        small_vec_i32_push(v, val);
        proof {
            assert(i32_ints(sv_i32_items(*v)) =~= m.items.push(val as int));
        }
        let items = small_vec_i32_as_mut_slice(v);
        events.push(Event::Ints(vstd::slice::slice_to_vec(items)));
        events.push(Event::Ptr(small_vec_i32_as_ptr(v)));
    } else if op == 6 {
        small_vec_i32_clear(v);
        proof {
            assert(i32_ints(sv_i32_items(*v)) =~= Seq::<int>::empty());
        }
        events.push(Event::Empty(small_vec_i32_is_empty(v)));
        let items = small_vec_i32_borrow(&*v);
        events.push(Event::Ints(vstd::slice::slice_to_vec(items)));
    }
    proof {
        let x = op_on(g@, o as int, op as int, Kind::Ints, m).0;
        assert(forall|i: int| 0 <= i < events@.len() ==> #[trigger] event_matches(events@[i], x[i]));
    }
    (events, None)
}

/// Operations 7 to 14, but 10, on the ints vector (see `op_on`).
fn ints_late(g: &[u8], o: usize, op: u8, v: &mut SmallVecI32) -> (r: (Vec<Event>, Option<Halt>))
    requires
        old(v).wf(),
        o + 32 <= g.len(),
        o <= 4096,
        op == 7 || op == 8 || op == 9 || op == 11 || op == 12 || op == 13 || op == 14,
    ensures
        final(v).wf(),
        ({
            let s = op_on(g@, o as int, op as int, Kind::Ints, ints_model(*old(v)));
            &&& events_match(r.0@, s.0)
            &&& r.1 == s.1
            &&& ints_model(*final(v)) == s.2
        }),
{
    let ghost m = ints_model(*v);
    let mut events: Vec<Event> = Vec::new();
    let n = small_vec_i32_len(v);
    let arg = match read_usize(g, o + 2) {
        Some(x) => x,
        None => return (events, Some(Halt::InputExhausted)),
    };
    if op == 7 {
        small_vec_i32_shrink_to_fit(v);
        events.push(Event::Capacity(small_vec_i32_capacity(v)));
        let items = small_vec_i32_deref(&*v);
        events.push(Event::Ints(vstd::slice::slice_to_vec(items)));
    } else if op == 8 {
        if n > 0 {
            let x = small_vec_i32_remove(v, arg % n);
            proof {
                assert(i32_ints(sv_i32_items(*v)) =~= m.items.remove((arg % n) as int));
            }
            events.push(Event::Int(x));
            events.push(Event::Ptr(small_vec_i32_as_mut_ptr(v)));
        }
    } else if op == 9 {
        if n > 0 {
            let i = arg % n;
            let x = small_vec_i32_swap_remove(v, i);
            proof {
                assert(i32_ints(sv_i32_items(*v)) =~= m.items.update(i as int, m.items.last()).drop_last());
            }
            events.push(Event::Int(x));
            let items = small_vec_i32_borrow_mut(v);
            events.push(Event::Ints(vstd::slice::slice_to_vec(items)));
        }
    } else if op == 11 {
        if n > 0 {
            let end = match read_usize(g, o + 10) {
                Some(x) => x,
                None => return (events, Some(Halt::InputExhausted)),
            };
            let s = arg % n;
            let e = if end > s { end % (n - s) + s + 1 } else { s + 1 };
            let drained = small_vec_i32_drain(v, s, e);
            proof {
                assert(i32_ints(sv_i32_items(*v)) =~= m.items.take(s as int) + m.items.skip(e as int));
            }
            let ghost owed = m.items.subrange(s as int, e as int).map_values(|x: int| Expect::Value(x));
            let mut j: usize = 0;
            while j < drained.len()
                invariant
                    j <= drained@.len(),
                    drained@.len() == owed.len(),
                    forall|i: int| 0 <= i < drained@.len() ==> owed[i] == Expect::Value(drained@[i] as int),
                    events@.len() == j,
                    forall|i: int| 0 <= i < j ==> #[trigger] event_matches(events@[i], owed[i]),
                decreases drained.len() - j,
            {
                events.push(Event::Int(drained[j]));
                j = j + 1;
            }
        }
    } else if op == 12 {
        if exact_growth_overflows_exec(n, small_vec_i32_capacity(v), arg, 4) {
            return (events, Some(Halt::CapacityOverflow));
        }
        small_vec_i32_reserve_exact(v, arg);
        events.push(Event::Capacity(small_vec_i32_capacity(v)));
    } else if op == 13 {
        if arg < n {
            return (events, Some(Halt::OutOfRange));
        }
        if arg > 16 && exact_growth_overflows_exec(0, 16, arg, 4) {
            return (events, Some(Halt::CapacityOverflow));
        }
        small_vec_i32_grow(v, arg);
        events.push(Event::Capacity(small_vec_i32_capacity(v)));
    } else if op == 14 {
        let count = match read_usize(g, o + 10) {
            Some(x) => x % 65,
            None => return (events, Some(Halt::InputExhausted)),
        };
        let vals = match read_ints_at(g, o + 18, count) {
            Some(x) => x,
            None => return (events, Some(Halt::InputExhausted)),
        };
        if growth_overflows_exec(n, small_vec_i32_capacity(v), vals.len(), 4) {
            return (events, Some(Halt::CapacityOverflow));
        }
        let at = if n == 0 { 0 } else { arg % n };
        small_vec_i32_insert_many(v, at, vals);
        proof {
            assert(i32_ints(sv_i32_items(*v)) =~= m.items.take(at as int) + items_at(g@, Kind::Ints, o + 18, count as nat) + m.items.skip(at as int));
        }
        let items = small_vec_i32_as_slice(&*v);
        events.push(Event::Ints(vstd::slice::slice_to_vec(items)));
    }
    proof {
        let x = op_on(g@, o as int, op as int, Kind::Ints, m).0;
        assert(forall|i: int| 0 <= i < events@.len() ==> #[trigger] event_matches(events@[i], x[i]));
    }
    (events, None)
}

/// Operations 0 to 6 on the bytes vector (see `op_on`).
fn bytes_early(g: &[u8], o: usize, op: u8, v: &mut SmallVecU8N32) -> (r: (Vec<Event>, Option<Halt>))
    requires
        old(v).wf(),
        o + 32 <= g.len(),
        o <= 4096,
        op == 0 || op == 1 || op == 2 || op == 3 || op == 4 || op == 5 || op == 6,
    ensures
        final(v).wf(),
        ({
            let s = op_on(g@, o as int, op as int, Kind::Bytes, bytes_model(*old(v)));
            &&& events_match(r.0@, s.0)
            &&& r.1 == s.1
            &&& bytes_model(*final(v)) == s.2
        }),
{
    let ghost m = bytes_model(*v);
    let mut events: Vec<Event> = Vec::new();
    let n = small_vec_u8n32_len(v);
    let arg = match read_usize(g, o + 2) {
        Some(x) => x,
        None => return (events, Some(Halt::InputExhausted)),
    };
    if op == 0 {
        let count = g[o + 2] % 33;
        let vals = match read_bytes_at(g, o + 3, count as usize) {
            Some(x) => x,
            None => return (events, Some(Halt::InputExhausted)),
        };
        if growth_overflows_exec(n, small_vec_u8n32_capacity(v), vals.len(), 1) {
            return (events, Some(Halt::CapacityOverflow));
        }
        small_vec_u8n32_extend_from_slice(v, vals.as_slice());
        proof {
            assert(u8_ints(sv_u8n32_items(*v)) =~= m.items + u8_ints(vals@));
        }
        let items = small_vec_u8n32_as_slice(&*v);
        events.push(Event::Bytes(vstd::slice::slice_to_vec(items)));
        events.push(Event::Len(small_vec_u8n32_len(v)));
    } else if op == 1 {
        if growth_overflows_exec(n, small_vec_u8n32_capacity(v), arg, 1) {
            return (events, Some(Halt::CapacityOverflow));
        }
        small_vec_u8n32_reserve(v, arg);
        events.push(Event::Capacity(small_vec_u8n32_capacity(v)));
        events.push(Event::Spilled(small_vec_u8n32_spilled(v)));
    } else if op == 2 {
        if !small_vec_u8n32_is_empty(v) {
            let val = match read_u8(g, o + 10) {
                Some(x) => x,
                None => return (events, Some(Halt::InputExhausted)),
            };
            if growth_overflows_exec(n, small_vec_u8n32_capacity(v), 1, 1) {
                return (events, Some(Halt::CapacityOverflow));
            }
            small_vec_u8n32_insert(v, arg % n, val);
            proof {
                assert(u8_ints(sv_u8n32_items(*v)) =~= m.items.insert((arg % n) as int, val as int));
            }
            let items = small_vec_u8n32_deref(&*v);
            events.push(Event::Bytes(vstd::slice::slice_to_vec(items)));
            events.push(Event::InlineSize(small_vec_u8n32_inline_size(v)));
        }
    } else if op == 3 {
        small_vec_u8n32_truncate(v, arg);
        proof {
            if arg < n {
                assert(u8_ints(sv_u8n32_items(*v)) =~= m.items.take(arg as int));
            }
        }
        let items = small_vec_u8n32_as_slice(&*v);
        events.push(Event::Bytes(vstd::slice::slice_to_vec(items)));
        events.push(Event::Empty(small_vec_u8n32_is_empty(v)));
    } else if op == 4 {
        if let Some(x) = small_vec_u8n32_pop(v) {
            events.push(Event::Byte(x));
        }
        proof {
            if n > 0 {
                assert(u8_ints(sv_u8n32_items(*v)) =~= m.items.drop_last());
            }
        }
        events.push(Event::Len(small_vec_u8n32_len(v)));
    } else if op == 5 {
        let val = match read_u8(g, o + 2) {
            Some(x) => x,
            None => return (events, Some(Halt::InputExhausted)),
        };
        if growth_overflows_exec(n, small_vec_u8n32_capacity(v), 1, 1) {
            return (events, Some(Halt::CapacityOverflow));
        }
        small_vec_u8n32_push(v, val);
        proof {
            assert(u8_ints(sv_u8n32_items(*v)) =~= m.items.push(val as int));
        }
        let items = small_vec_u8n32_as_mut_slice(v);
        events.push(Event::Bytes(vstd::slice::slice_to_vec(items)));
        events.push(Event::Ptr(small_vec_u8n32_as_ptr(v)));
    } else if op == 6 {
        small_vec_u8n32_clear(v);
        proof {
            assert(u8_ints(sv_u8n32_items(*v)) =~= Seq::<int>::empty());
        }
        events.push(Event::Empty(small_vec_u8n32_is_empty(v)));
        let items = small_vec_u8n32_borrow(&*v);
        events.push(Event::Bytes(vstd::slice::slice_to_vec(items)));
    }
    proof {
        let x = op_on(g@, o as int, op as int, Kind::Bytes, m).0;
        assert(forall|i: int| 0 <= i < events@.len() ==> #[trigger] event_matches(events@[i], x[i]));
    }
    (events, None)
}

/// Operations 7 to 14, but 10, on the bytes vector (see `op_on`).
fn bytes_late(g: &[u8], o: usize, op: u8, v: &mut SmallVecU8N32) -> (r: (Vec<Event>, Option<Halt>))
    requires
        old(v).wf(),
        o + 32 <= g.len(),
        o <= 4096,
        op == 7 || op == 8 || op == 9 || op == 11 || op == 12 || op == 13 || op == 14,
    ensures
        final(v).wf(),
        ({
            let s = op_on(g@, o as int, op as int, Kind::Bytes, bytes_model(*old(v)));
            &&& events_match(r.0@, s.0)
            &&& r.1 == s.1
            &&& bytes_model(*final(v)) == s.2
        }),
{
    let ghost m = bytes_model(*v);
    let mut events: Vec<Event> = Vec::new();
    let n = small_vec_u8n32_len(v);
    let arg = match read_usize(g, o + 2) {
        Some(x) => x,
        None => return (events, Some(Halt::InputExhausted)),
    };
    if op == 7 {
        small_vec_u8n32_shrink_to_fit(v);
        events.push(Event::Capacity(small_vec_u8n32_capacity(v)));
        let items = small_vec_u8n32_deref(&*v);
        events.push(Event::Bytes(vstd::slice::slice_to_vec(items)));
    } else if op == 8 {
        if n > 0 {
            let x = small_vec_u8n32_remove(v, arg % n);
            proof {
                assert(u8_ints(sv_u8n32_items(*v)) =~= m.items.remove((arg % n) as int));
            }
            events.push(Event::Byte(x));
            events.push(Event::Ptr(small_vec_u8n32_as_mut_ptr(v)));
        }
    } else if op == 9 {
        if n > 0 {
            let i = arg % n;
            let x = small_vec_u8n32_swap_remove(v, i);
            proof {
                assert(u8_ints(sv_u8n32_items(*v)) =~= m.items.update(i as int, m.items.last()).drop_last());
            }
            events.push(Event::Byte(x));
            let items = small_vec_u8n32_borrow_mut(v);
            events.push(Event::Bytes(vstd::slice::slice_to_vec(items)));
        }
    } else if op == 11 {
        if n > 0 {
            let end = match read_usize(g, o + 10) {
                Some(x) => x,
                None => return (events, Some(Halt::InputExhausted)),
            };
            let s = arg % n;
            let e = if end > s { end % (n - s) + s + 1 } else { s + 1 };
            let drained = small_vec_u8n32_drain(v, s, e);
            proof {
                assert(u8_ints(sv_u8n32_items(*v)) =~= m.items.take(s as int) + m.items.skip(e as int));
            }
            let ghost owed = m.items.subrange(s as int, e as int).map_values(|x: int| Expect::Value(x));
            let mut j: usize = 0;
            while j < drained.len()
                invariant
                    j <= drained@.len(),
                    drained@.len() == owed.len(),
                    forall|i: int| 0 <= i < drained@.len() ==> owed[i] == Expect::Value(drained@[i] as int),
                    events@.len() == j,
                    forall|i: int| 0 <= i < j ==> #[trigger] event_matches(events@[i], owed[i]),
                decreases drained.len() - j,
            {
                events.push(Event::Byte(drained[j]));
                j = j + 1;
            }
        }
    } else if op == 12 {
        if exact_growth_overflows_exec(n, small_vec_u8n32_capacity(v), arg, 1) {
            return (events, Some(Halt::CapacityOverflow));
        }
        small_vec_u8n32_reserve_exact(v, arg);
        events.push(Event::Capacity(small_vec_u8n32_capacity(v)));
    } else if op == 13 {
        if arg < n {
            return (events, Some(Halt::OutOfRange));
        }
        if arg > 32 && exact_growth_overflows_exec(0, 32, arg, 1) {
            return (events, Some(Halt::CapacityOverflow));
        }
        small_vec_u8n32_grow(v, arg);
        events.push(Event::Capacity(small_vec_u8n32_capacity(v)));
    } else if op == 14 {
        let count = match read_usize(g, o + 10) {
            Some(x) => x % 65,
            None => return (events, Some(Halt::InputExhausted)),
        };
        let vals = match read_bytes_at(g, o + 18, count) {
            Some(x) => x,
            None => return (events, Some(Halt::InputExhausted)),
        };
        if growth_overflows_exec(n, small_vec_u8n32_capacity(v), vals.len(), 1) {
            return (events, Some(Halt::CapacityOverflow));
        }
        let at = if n == 0 { 0 } else { arg % n };
        small_vec_u8n32_insert_many(v, at, vals);
        proof {
            assert(u8_ints(sv_u8n32_items(*v)) =~= m.items.take(at as int) + items_at(g@, Kind::Bytes, o + 18, count as nat) + m.items.skip(at as int));
        }
        let items = small_vec_u8n32_as_slice(&*v);
        events.push(Event::Bytes(vstd::slice::slice_to_vec(items)));
    }
    proof {
        let x = op_on(g@, o as int, op as int, Kind::Bytes, m).0;
        assert(forall|i: int| 0 <= i < events@.len() ==> #[trigger] event_matches(events@[i], x[i]));
    }
    (events, None)
}

/// Operations 0 to 6 on the numbers vector (see `op_on`).
fn numbers_early(g: &[u8], o: usize, op: u8, v: &mut SmallVecUsize12) -> (r: (Vec<Event>, Option<Halt>))
    requires
        old(v).wf(),
        o + 32 <= g.len(),
        o <= 4096,
        op == 0 || op == 1 || op == 2 || op == 3 || op == 4 || op == 5 || op == 6,
    ensures
        final(v).wf(),
        ({
            let s = op_on(g@, o as int, op as int, Kind::Numbers, numbers_model(*old(v)));
            &&& events_match(r.0@, s.0)
            &&& r.1 == s.1
            &&& numbers_model(*final(v)) == s.2
        }),
{
    let ghost m = numbers_model(*v);
    let mut events: Vec<Event> = Vec::new();
    let n = small_vec_usize12_len(v);
    let arg = match read_usize(g, o + 2) {
        Some(x) => x,
        None => return (events, Some(Halt::InputExhausted)),
    };
    if op == 0 {
        let count = g[o + 2] % 33;
        let vals = match read_numbers_at(g, o + 3, count as usize) {
            Some(x) => x,
            None => return (events, Some(Halt::InputExhausted)),
        };
        if growth_overflows_exec(n, small_vec_usize12_capacity(v), vals.len(), core::mem::size_of::<usize>()) {
            return (events, Some(Halt::CapacityOverflow));
        }
        small_vec_usize12_extend_from_slice(v, vals.as_slice());
        proof {
            assert(usize_ints(sv_usize12_items(*v)) =~= m.items + usize_ints(vals@));
        }
        let items = small_vec_usize12_deref(&*v);
        events.push(Event::Len(items.len()));
    } else if op == 1 {
        if growth_overflows_exec(n, small_vec_usize12_capacity(v), arg, core::mem::size_of::<usize>()) {
            return (events, Some(Halt::CapacityOverflow));
        }
        small_vec_usize12_reserve(v, arg);
        events.push(Event::Capacity(small_vec_usize12_capacity(v)));
        events.push(Event::Spilled(small_vec_usize12_spilled(v)));
    } else if op == 2 {
        if !small_vec_usize12_is_empty(v) {
            let val = match read_usize(g, o + 10) {
                Some(x) => x,
                None => return (events, Some(Halt::InputExhausted)),
            };
            if growth_overflows_exec(n, small_vec_usize12_capacity(v), 1, core::mem::size_of::<usize>()) {
                return (events, Some(Halt::CapacityOverflow));
            }
            small_vec_usize12_insert(v, arg % n, val);
            proof {
                assert(usize_ints(sv_usize12_items(*v)) =~= m.items.insert((arg % n) as int, val as int));
            }
            let items = small_vec_usize12_deref(&*v);
            events.push(Event::Len(items.len()));
            events.push(Event::InlineSize(small_vec_usize12_inline_size(v)));
        }
    } else if op == 3 {
        small_vec_usize12_truncate(v, arg);
        proof {
            if arg < n {
                assert(usize_ints(sv_usize12_items(*v)) =~= m.items.take(arg as int));
            }
        }
        let items = small_vec_usize12_deref(&*v);
        events.push(Event::Len(items.len()));
        events.push(Event::Empty(small_vec_usize12_is_empty(v)));
    } else if op == 4 {
        if let Some(x) = small_vec_usize12_pop(v) {
            events.push(Event::Number(x));
        }
        proof {
            if n > 0 {
                assert(usize_ints(sv_usize12_items(*v)) =~= m.items.drop_last());
            }
        }
        events.push(Event::Len(small_vec_usize12_len(v)));
    } else if op == 5 {
        let val = match read_usize(g, o + 2) {
            Some(x) => x,
            None => return (events, Some(Halt::InputExhausted)),
        };
        if growth_overflows_exec(n, small_vec_usize12_capacity(v), 1, core::mem::size_of::<usize>()) {
            return (events, Some(Halt::CapacityOverflow));
        }
        small_vec_usize12_push(v, val);
        proof {
            assert(usize_ints(sv_usize12_items(*v)) =~= m.items.push(val as int));
        }
        let items = small_vec_usize12_deref_mut(v);
        events.push(Event::Len(items.len()));
        events.push(Event::Ptr(small_vec_usize12_as_ptr(v)));
    } else if op == 6 {
        small_vec_usize12_clear(v);
        proof {
            assert(usize_ints(sv_usize12_items(*v)) =~= Seq::<int>::empty());
        }
        events.push(Event::Empty(small_vec_usize12_is_empty(v)));
        let items = small_vec_usize12_borrow(&*v);
        events.push(Event::Len(items.len()));
    }
    proof {
        let x = op_on(g@, o as int, op as int, Kind::Numbers, m).0;
        assert(forall|i: int| 0 <= i < events@.len() ==> #[trigger] event_matches(events@[i], x[i]));
    }
    (events, None)
}

/// Operations 7 to 14, but 10, on the numbers vector (see `op_on`).
fn numbers_late(g: &[u8], o: usize, op: u8, v: &mut SmallVecUsize12) -> (r: (Vec<Event>, Option<Halt>))
    requires
        old(v).wf(),
        o + 32 <= g.len(),
        o <= 4096,
        op == 7 || op == 8 || op == 9 || op == 11 || op == 12 || op == 13 || op == 14,
    ensures
        final(v).wf(),
        ({
            let s = op_on(g@, o as int, op as int, Kind::Numbers, numbers_model(*old(v)));
            &&& events_match(r.0@, s.0)
            &&& r.1 == s.1
            &&& numbers_model(*final(v)) == s.2
        }),
{
    let ghost m = numbers_model(*v);
    let mut events: Vec<Event> = Vec::new();
    let n = small_vec_usize12_len(v);
    let arg = match read_usize(g, o + 2) {
        Some(x) => x,
        None => return (events, Some(Halt::InputExhausted)),
    };
    if op == 7 {
        small_vec_usize12_shrink_to_fit(v);
        events.push(Event::Capacity(small_vec_usize12_capacity(v)));
        let items = small_vec_usize12_deref(&*v);
        events.push(Event::Len(items.len()));
    } else if op == 8 {
        if n > 0 {
            let x = small_vec_usize12_remove(v, arg % n);
            proof {
                assert(usize_ints(sv_usize12_items(*v)) =~= m.items.remove((arg % n) as int));
            }
            events.push(Event::Number(x));
            events.push(Event::Ptr(small_vec_usize12_as_mut_ptr(v)));
        }
    } else if op == 9 {
        if n > 0 {
            let i = arg % n;
            let x = small_vec_usize12_swap_remove(v, i);
            proof {
                assert(usize_ints(sv_usize12_items(*v)) =~= m.items.update(i as int, m.items.last()).drop_last());
            }
            events.push(Event::Number(x));
            let items = small_vec_usize12_borrow_mut(v);
            events.push(Event::Len(items.len()));
        }
    } else if op == 11 {
        if n > 0 {
            let end = match read_usize(g, o + 10) {
                Some(x) => x,
                None => return (events, Some(Halt::InputExhausted)),
            };
            let s = arg % n;
            let e = if end > s { end % (n - s) + s + 1 } else { s + 1 };
            let drained = small_vec_usize12_drain(v, s, e);
            proof {
                assert(usize_ints(sv_usize12_items(*v)) =~= m.items.take(s as int) + m.items.skip(e as int));
            }
            let ghost owed = m.items.subrange(s as int, e as int).map_values(|x: int| Expect::Value(x));
            let mut j: usize = 0;
            while j < drained.len()
                invariant
                    j <= drained@.len(),
                    drained@.len() == owed.len(),
                    forall|i: int| 0 <= i < drained@.len() ==> owed[i] == Expect::Value(drained@[i] as int),
                    events@.len() == j,
                    forall|i: int| 0 <= i < j ==> #[trigger] event_matches(events@[i], owed[i]),
                decreases drained.len() - j,
            {
                events.push(Event::Number(drained[j]));
                j = j + 1;
            }
        }
    } else if op == 12 {
        if exact_growth_overflows_exec(n, small_vec_usize12_capacity(v), arg, core::mem::size_of::<usize>()) {
            return (events, Some(Halt::CapacityOverflow));
        }
        small_vec_usize12_reserve_exact(v, arg);
        events.push(Event::Capacity(small_vec_usize12_capacity(v)));
    } else if op == 13 {
        if arg < n {
            return (events, Some(Halt::OutOfRange));
        }
        if arg > 12 && exact_growth_overflows_exec(0, 12, arg, core::mem::size_of::<usize>()) {
            return (events, Some(Halt::CapacityOverflow));
        }
        small_vec_usize12_grow(v, arg);
        events.push(Event::Capacity(small_vec_usize12_capacity(v)));
    } else if op == 14 {
        let count = match read_usize(g, o + 10) {
            Some(x) => x % 65,
            None => return (events, Some(Halt::InputExhausted)),
        };
        let vals = match read_numbers_at(g, o + 18, count) {
            Some(x) => x,
            None => return (events, Some(Halt::InputExhausted)),
        };
        if growth_overflows_exec(n, small_vec_usize12_capacity(v), vals.len(), core::mem::size_of::<usize>()) {
            return (events, Some(Halt::CapacityOverflow));
        }
        let at = if n == 0 { 0 } else { arg % n };
        small_vec_usize12_insert_many(v, at, vals);
        proof {
            assert(usize_ints(sv_usize12_items(*v)) =~= m.items.take(at as int) + items_at(g@, Kind::Numbers, o + 18, count as nat) + m.items.skip(at as int));
        }
        events.push(Event::Len(small_vec_usize12_len(v)));
    }
    proof {
        let x = op_on(g@, o as int, op as int, Kind::Numbers, m).0;
        assert(forall|i: int| 0 <= i < events@.len() ==> #[trigger] event_matches(events@[i], x[i]));
    }
    (events, None)
}

/// Operation 10 (see `op_compare_clone`).
fn compare_clone(g: &[u8], o: usize, v: &SmallVecI32) -> (r: (Vec<Event>, Option<Halt>))
    requires
        v.wf(),
        o + 32 <= g.len(),
    ensures
        events_match(r.0@, op_compare_clone(g@, o as int, ints_model(*v)).0),
        r.1 == op_compare_clone(g@, o as int, ints_model(*v)).1,
{
    let mut events: Vec<Event> = Vec::new();
    if g[o + 1] % 3 == 0 && g[o + 2] % 3 == 0 {
        if growth_overflows_exec(0, 16, small_vec_i32_len(v), 4) {
            return (events, Some(Halt::CapacityOverflow));
        }
        let cloned = small_vec_i32_clone(v);
        proof {
            law_lex_order_reflexive(i32_ints(sv_i32_items(*v)));
        }
        events.push(Event::Compared(small_vec_i32_compare(v, &cloned)));
        events.push(Event::Equal(small_vec_i32_eq(v, &cloned)));
        events.push(Event::PartialCompared(small_vec_i32_partial_compare(v, &cloned)));
        proof {
            let x = op_compare_clone(g@, o as int, ints_model(*v)).0;
            assert(forall|i: int| 0 <= i < events@.len() ==> #[trigger] event_matches(events@[i], x[i]));
        }
    }
    (events, None)
}

/// The three vectors' models.
pub open spec fn vecs_of(a: SmallVecI32, b: SmallVecU8N32, c: SmallVecUsize12) -> Vecs {
    Vecs { ints: ints_model(a), bytes: bytes_model(b), numbers: numbers_model(c) }
}

/// The operation of the block at `o` (see `op_step`).
fn run_block(
    g: &[u8],
    o: usize,
    a: &mut SmallVecI32,
    b: &mut SmallVecU8N32,
    c: &mut SmallVecUsize12,
) -> (r: (Vec<Event>, Option<Halt>))
    requires
        old(a).wf(),
        old(b).wf(),
        old(c).wf(),
        o + 32 <= g.len(),
        o <= 4096,
    ensures
        final(a).wf(),
        final(b).wf(),
        final(c).wf(),
        ({
            let s = op_step(g@, o as int, vecs_of(*old(a), *old(b), *old(c)));
            &&& events_match(r.0@, s.0)
            &&& r.1 == s.1
            &&& vecs_of(*final(a), *final(b), *final(c)) == s.2
        }),
{
    reveal(op_step);
    let op = g[o] % 15;
    if op == 10 {
        return compare_clone(g, o, a);
    }
    let selector = g[o + 1] % 3;
    if selector == 0 {
        if op <= 6 {
            ints_early(g, o, op, a)
        } else {
            ints_late(g, o, op, a)
        }
    } else if selector == 1 {
        if op <= 6 {
            bytes_early(g, o, op, b)
        } else {
            bytes_late(g, o, op, b)
        }
    } else {
        if op <= 6 {
            numbers_early(g, o, op, c)
        } else {
            numbers_late(g, o, op, c)
        }
    }
}

/// The `i32` vector, as it starts (see `start_ints`); the capacity it took is
/// the open one.
fn start_ints_exec(g: &[u8]) -> (r: (Result<SmallVecI32, Halt>, Ghost<nat>))
    requires
        fits(g@, 8, 3),
    ensures
        match r.0 {
            Ok(v) => v.wf() && start_ints(g@, r.1@) == Ok::<Model, Halt>(ints_model(v)),
            Err(h) => start_ints(g@, r.1@) == Err::<Model, Halt>(h),
        },
{
    let s = g[8] % 3;
    if s == 0 {
        let v = small_vec_i32_new();
        assert(ints_model(v).items =~= Seq::<int>::empty());
        (Ok(v), Ghost(0))
    } else if s == 1 {
        let n = match read_usize(g, 11) {
            Some(x) => x,
            None => return (Err(Halt::InputExhausted), Ghost(0)),
        };
        if exact_growth_overflows_exec(0, 16, n, 4) {
            return (Err(Halt::CapacityOverflow), Ghost(0));
        }
        let v = small_vec_i32_with_capacity(n);
        assert(ints_model(v).items =~= Seq::<int>::empty());
        (Ok(v), Ghost(0))
    } else {
        let e = match read_i32(g, 19) {
            Some(x) => x,
            None => return (Err(Halt::InputExhausted), Ghost(0)),
        };
        let n = match read_usize(g, 23) {
            Some(x) => x % 65,
            None => return (Err(Halt::InputExhausted), Ghost(0)),
        };
        let v = small_vec_i32_from_elem(e, n);
        assert(ints_model(v).items =~= repeat(e as int, n as nat));
        (Ok(v), Ghost(sv_i32_cap(v)))
    }
}

/// The byte vector, as it starts (see `start_bytes`); the capacity it took
/// is the open one.
fn start_bytes_exec(g: &[u8]) -> (r: (Result<SmallVecU8N32, Halt>, Ghost<nat>))
    requires
        fits(g@, 8, 3),
    ensures
        match r.0 {
            Ok(v) => v.wf() && start_bytes(g@, r.1@) == Ok::<Model, Halt>(bytes_model(v)),
            Err(h) => start_bytes(g@, r.1@) == Err::<Model, Halt>(h),
        },
{
    let s = g[9] % 3;
    if s == 0 {
        let v = small_vec_u8n32_new();
        assert(bytes_model(v).items =~= Seq::<int>::empty());
        (Ok(v), Ghost(0))
    } else if s == 1 {
        let n = match read_usize(g, 31) {
            Some(x) => x,
            None => return (Err(Halt::InputExhausted), Ghost(0)),
        };
        if exact_growth_overflows_exec(0, 32, n, 1) {
            return (Err(Halt::CapacityOverflow), Ghost(0));
        }
        let v = small_vec_u8n32_with_capacity(n);
        assert(bytes_model(v).items =~= Seq::<int>::empty());
        (Ok(v), Ghost(0))
    } else {
        let e = match read_u8(g, 39) {
            Some(x) => x,
            None => return (Err(Halt::InputExhausted), Ghost(0)),
        };
        let n = match read_usize(g, 40) {
            Some(x) => x % 65,
            None => return (Err(Halt::InputExhausted), Ghost(0)),
        };
        let v = small_vec_u8n32_from_elem(e, n);
        assert(bytes_model(v).items =~= repeat(e as int, n as nat));
        (Ok(v), Ghost(sv_u8n32_cap(v)))
    }
}

/// The third vector, as it starts (see `start_numbers`); the capacity it
/// took is the open one. Copies of the element are its clones, computed
/// here as the element's `Clone` computes them.
fn start_numbers_exec(first: &[u8], second: &[u8]) -> (r: (Result<SmallVecUsize12, Halt>, Ghost<nat>))
    requires
        fits(first@, 8, 3),
    ensures
        match r.0 {
            Ok(v) => v.wf() && start_numbers(first@, second@, r.1@) == Ok::<Model, Halt>(numbers_model(v)),
            Err(h) => start_numbers(first@, second@, r.1@) == Err::<Model, Halt>(h),
        },
{
    let s = first[10] % 3;
    if s == 0 {
        let v = small_vec_usize12_new();
        assert(numbers_model(v).items =~= Seq::<int>::empty());
        (Ok(v), Ghost(0))
    } else if s == 1 {
        let n = match read_usize(first, 48) {
            Some(x) => x,
            None => return (Err(Halt::InputExhausted), Ghost(0)),
        };
        if exact_growth_overflows_exec(0, 12, n, core::mem::size_of::<usize>()) {
            return (Err(Halt::CapacityOverflow), Ghost(0));
        }
        let v = small_vec_usize12_with_capacity(n);
        assert(numbers_model(v).items =~= Seq::<int>::empty());
        (Ok(v), Ghost(0))
    } else {
        let e = match read_usize(first, 56) {
            Some(x) => x,
            None => return (Err(Halt::InputExhausted), Ghost(0)),
        };
        let n = match read_usize(first, 64) {
            Some(x) => x % 65,
            None => return (Err(Halt::InputExhausted), Ghost(0)),
        };
        if n == 0 {
            let v = small_vec_usize12_from_elem(e, 0);
            assert(numbers_model(v).items =~= Seq::<int>::empty());
            return (Ok(v), Ghost(0));
        }
        let copy = match clone_number(first, second, 35, 43, e) {
            Ok(x) => x,
            Err(h) => return (Err(h), Ghost(0)),
        };
        if n <= 12 {
            let v = small_vec_usize12_from_elem(copy, n);
            assert(numbers_model(v).items =~= repeat(copy as int, n as nat));
            (Ok(v), Ghost(0))
        } else {
            let mut items: Vec<usize> = Vec::new();
            let mut i: usize = 1;
            while i < n
                invariant
                    1 <= i <= n <= 64,
                    items@ == Seq::new((i - 1) as nat, |j: int| copy),
                decreases n - i,
            {
                items.push(copy);
                i = i + 1;
                assert(items@ =~= Seq::new((i - 1) as nat, |j: int| copy));
            }
            items.push(e);
            let v = small_vec_usize12_from_vec(items);
            assert(numbers_model(v).items =~= repeat(copy as int, (n - 1) as nat).push(e as int));
            (Ok(v), Ghost(sv_usize12_cap(v)))
        }
    }
}

/// The events of a run, and why it stopped early, if it did.
pub struct Run {
    pub events: Vec<Event>,
    pub halt: Option<Halt>,
}

/// Runs the script of an input of `input_len` bytes whose halves are `first`
/// and `second`. What it reports is owed for some capacities that the
/// outside crate leaves open.
pub fn run(input_len: usize, first: &[u8], second: &[u8]) -> (r: Run)
    ensures
        exists|caps: Caps|
            #![trigger script_outcome(input_len as nat, first@, second@, caps)]
            events_match(r.events@, script_outcome(input_len as nat, first@, second@, caps).0)
                && r.halt == script_outcome(input_len as nat, first@, second@, caps).1,
{
    let mut events: Vec<Event> = Vec::new();
    let ghost any = Caps { ints: 0, bytes: 0, numbers: 0 };
    if input_len < 3072 {
        assert(script_outcome(input_len as nat, first@, second@, any).0 =~= Seq::<Expect>::empty());
        return Run { events, halt: None };
    }
    let count = match read_usize(first, 0) {
        Some(x) => x % 65 + 1,
        None => {
            assert(script_outcome(input_len as nat, first@, second@, any).0 =~= Seq::<Expect>::empty());
            return Run { events, halt: Some(Halt::InputExhausted) };
        },
    };
    if first.len() < 11 {
        assert(script_outcome(input_len as nat, first@, second@, any).0 =~= Seq::<Expect>::empty());
        return Run { events, halt: Some(Halt::InputExhausted) };
    }
    let (ra, Ghost(ca)) = start_ints_exec(first);
    let ghost caps_a = Caps { ints: ca, bytes: 0, numbers: 0 };
    let mut a = match ra {
        Ok(v) => v,
        Err(h) => {
            assert(script_outcome(input_len as nat, first@, second@, caps_a).0 =~= Seq::<Expect>::empty());
            return Run { events, halt: Some(h) };
        },
    };
    let (rb, Ghost(cb)) = start_bytes_exec(first);
    let ghost caps_b = Caps { ints: ca, bytes: cb, numbers: 0 };
    let mut b = match rb {
        Ok(v) => v,
        Err(h) => {
            assert(script_outcome(input_len as nat, first@, second@, caps_b).0 =~= Seq::<Expect>::empty());
            return Run { events, halt: Some(h) };
        },
    };
    let (rc, Ghost(cc)) = start_numbers_exec(first, second);
    let ghost caps = Caps { ints: ca, bytes: cb, numbers: cc };
    let mut c = match rc {
        Ok(v) => v,
        Err(h) => {
            assert(script_outcome(input_len as nat, first@, second@, caps).0 =~= Seq::<Expect>::empty());
            return Run { events, halt: Some(h) };
        },
    };
    let ghost n = count as nat;
    let ghost mut owed = Seq::<Expect>::empty();
    assert(owed + ops_from(first@, 0, n, vecs_of(a, b, c)).0 =~= ops_from(first@, 0, n, vecs_of(a, b, c)).0);
    let mut k: usize = 0;
    while k < count
        invariant
            k <= count <= 65,
            n == count as nat,
            a.wf(),
            b.wf(),
            c.wf(),
            events_match(events@, owed),
            script_outcome(input_len as nat, first@, second@, caps) == (
                owed + ops_from(first@, k as nat, n, vecs_of(a, b, c)).0,
                ops_from(first@, k as nat, n, vecs_of(a, b, c)).1,
            ),
        decreases count - k,
    {
        let o = 72 + 32 * k;
        if o >= first.len() || first.len() - o <= 31 {
            assert(owed + ops_from(first@, k as nat, n, vecs_of(a, b, c)).0 =~= owed);
            return Run { events, halt: None };
        }
        let ghost vs = vecs_of(a, b, c);
        let (evs, halt) = run_block(first, o, &mut a, &mut b, &mut c);
        let ghost s = op_step(first@, o as int, vs);
        proof {
            lemma_events_match_append(events@, owed, evs@, s.0);
        }
        let mut evs = evs;
        events.append(&mut evs);
        if halt.is_some() {
            return Run { events, halt };
        }
        proof {
            let rest = ops_from(first@, (k + 1) as nat, n, s.2);
            assert(owed + (s.0 + rest.0) =~= (owed + s.0) + rest.0);
            owed = owed + s.0;
        }
        k = k + 1;
    }
    assert(owed + ops_from(first@, k as nat, n, vecs_of(a, b, c)).0 =~= owed);
    Run { events, halt: None }
}

/// Operation 4 on a non-empty vector reports its last item and the length
/// left, and leaves the other items as they were.
pub proof fn law_pop_reports_the_last_item(g: Seq<u8>, o: int, k: Kind, m: Model)
    requires
        m.items.len() > 0,
    ensures
        op_on(g, o, 4, k, m).1 is None,
        op_on(g, o, 4, k, m).0 == seq![Expect::Value(m.items[m.items.len() - 1]), Expect::Len((m.items.len() - 1) as nat)],
        op_on(g, o, 4, k, m).2.items =~= m.items.take(m.items.len() - 1),
{
}

} // verus!

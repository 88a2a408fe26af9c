//! A script of twelve kinds of operation whose arguments lie at fixed
//! positions of the input. Two of the element types take their `Clone` and
//! `Hash` from the input (see `hooks`): a clone reads the number at byte 50
//! of the half that the selector keyed at byte 42 picks, and a hash only
//! stops where the selector keyed at byte 0 does.
use vstd::prelude::*;
use crate::hooks::{clone_number, cloned_number, hash_number, selected_half};
use crate::medley::{chars_halt, pushes_cap, reads_ok};
use crate::script::{fits, i32s_at, read_bool, read_char, read_i16, read_i32, read_i32s, read_u32, read_u8, read_usize, u32_at, usize_at, Halt};
use crate::small_vec::{
    dedup_seq, exact_growth_overflows, exact_growth_overflows_exec, exact_grown, growth_overflows,
    growth_overflows_exec, grown, i32_ints, lex_order, lemma_small_growth_sized, open_cap, repeat, Order,
};
use crate::survey::{codes_at, i16_at};
use crate::survey::bytes_at;
use crate::bytes::be_u32;
use crate::sv_u8n32::{
    small_vec_u8n32_capacity, small_vec_u8n32_clear, small_vec_u8n32_drain, small_vec_u8n32_len, small_vec_u8n32_new,
    small_vec_u8n32_push, small_vec_u8n32_shrink_to_fit, sv_u8n32_cap, sv_u8n32_items,
};
use crate::sv_i32::{
    small_vec_i32_append, small_vec_i32_capacity, small_vec_i32_compare, small_vec_i32_eq, small_vec_i32_new,
    small_vec_i32_partial_compare, small_vec_i32_push, sv_i32_cap, sv_i32_items, SmallVecI32,
};
use crate::numbered::n16::{
    small_vec_n16_as_slice, small_vec_n16_deref, small_vec_n16_from_elem, small_vec_n16_from_iter,
    small_vec_n16_as_mut, small_vec_n16_dedup_by_key, small_vec_n16_inline_size, small_vec_n16_into_inner,
    small_vec_n16_try_grow, small_vec_n16_from_slice, small_vec_n16_from_vec, small_vec_n16_into_boxed_slice,
    small_vec_n16_is_empty,
    small_vec_n16_len, small_vec_n16_new, small_vec_n16_push, small_vec_n16_with_capacity, sv_n16_cap, sv_n16_items,
    SmallVecNumbers16,
};

use crate::cursor::booln24;

pub mod u64n20;
pub mod i16n8;
pub mod charn12;
pub mod stringn18;
pub mod u32n32;

verus! {

/// The key by which operation 10 removes repeats: the number modulo 10,
/// divided by 100, or itself.
pub open spec fn key_of(kind: u8, x: usize) -> usize {
    if kind == 0 {
        x % 10
    } else if kind == 1 {
        x / 100
    } else {
        x
    }
}

/// The key of `x` (see `key_of`).
pub fn number_key(kind: u8, x: usize) -> (r: usize)
    ensures
        r == key_of(kind, x),
{
    if kind == 0 {
        x % 10
    } else if kind == 1 {
        x / 100
    } else {
        x
    }
}

/// `s` with every item whose key equals that of the item before it removed.
pub open spec fn dedup_keyed(s: Seq<usize>, kind: u8) -> Seq<usize>
    decreases s.len(),
{
    if s.len() <= 1 {
        s
    } else if key_of(kind, s.last()) == key_of(kind, s[s.len() - 2]) {
        dedup_keyed(s.drop_last(), kind)
    } else {
        dedup_keyed(s.drop_last(), kind).push(s.last())
    }
}

/// Whether `x` is even: the test by which items are kept.
pub fn is_even_i16(x: i16) -> (r: bool)
    ensures
        r == (x % 2 == 0),
{
    x % 2 == 0
}

/// Whether two flags are equal: the test by which repeats are removed.
pub fn same_bool(a: &mut bool, b: &mut bool) -> (r: bool)
    ensures
        r == (*old(a) == *old(b)),
        *final(a) == *old(a),
        *final(b) == *old(b),
{
    *a == *b
}

/// What the script reports, one value per printed line.
#[derive(Debug, PartialEq, Eq)]
pub enum Event {
    /// The number of an element.
    Number(usize),
    /// A length or capacity.
    Count(usize),
    U8(u8),
    /// A flag printed with `{}`.
    Flag(bool),
    /// An order of two vectors.
    Compared(Order),
    U64(u64),
    /// An address from `as_ptr`.
    Ptr(usize),
    /// An address from `as_mut_ptr`.
    MutPtr(usize),
    Char(char),
    Bool(bool),
    /// "Reserve successful".
    ReserveOk,
    /// "Reserve exact successful".
    ReserveExactOk,
    U32(u32),
    /// "Grow successful".
    GrowOk,
    Usize(usize),
    /// "Into inner successful, size: n".
    IntoInnerOk(usize),
    /// "Into inner failed, len: n".
    IntoInnerFailed(usize),
    /// The operation on floating-point items, left to the caller.
    FloatOp,
}

/// What the script is owed to report; an address may be any, and a
/// character is owed by its code.
pub enum Expect {
    Number(usize),
    Count(nat),
    U8(u8),
    Flag(bool),
    Compared(Order),
    U64(u64),
    Ptr,
    MutPtr,
    Char(u32),
    Bool(bool),
    ReserveOk,
    ReserveExactOk,
    U32(u32),
    GrowOk,
    Usize(usize),
    IntoInnerOk(nat),
    IntoInnerFailed(nat),
    FloatOp,
}

/// Whether a reported event is the one that was owed.
pub open spec fn event_matches(e: Event, x: Expect) -> bool {
    match e {
        Event::Number(n) => x == Expect::Number(n),
        Event::Count(n) => x == Expect::Count(n as nat),
        Event::U8(v) => x == Expect::U8(v),
        Event::Flag(b) => x == Expect::Flag(b),
        Event::Compared(o) => x == Expect::Compared(o),
        Event::U64(v) => x == Expect::U64(v),
        Event::Ptr(_) => x is Ptr,
        Event::MutPtr(_) => x is MutPtr,
        Event::Char(c) => x == Expect::Char(c as u32),
        Event::Bool(b) => x == Expect::Bool(b),
        Event::ReserveOk => x is ReserveOk,
        Event::ReserveExactOk => x is ReserveExactOk,
        Event::U32(v) => x == Expect::U32(v),
        Event::GrowOk => x is GrowOk,
        Event::Usize(v) => x == Expect::Usize(v),
        Event::IntoInnerOk(n) => x == Expect::IntoInnerOk(n as nat),
        Event::IntoInnerFailed(n) => x == Expect::IntoInnerFailed(n as nat),
        Event::FloatOp => x is FloatOp,
    }
}

/// Whether the reported events are, one for one, those owed.
pub open spec fn events_match(a: Seq<Event>, x: Seq<Expect>) -> bool {
    &&& a.len() == x.len()
    &&& forall|i: int| 0 <= i < a.len() ==> #[trigger] event_matches(a[i], x[i])
}

/// Reported events, followed by more, match what was owed followed by more.
proof fn lemma_events_match_append(a: Seq<Event>, x: Seq<Expect>, b: Seq<Event>, y: Seq<Expect>)
    requires
        events_match(a, x),
        events_match(b, y),
    ensures
        events_match(a + b, x + y),
{
    assert forall|i: int| 0 <= i < (a + b).len() implies #[trigger] event_matches((a + b)[i], (x + y)[i]) by {
        if i < a.len() {
            assert(event_matches(a[i], x[i]));
        } else {
            assert(event_matches(b[i - a.len()], y[i - a.len()]));
        }
    }
}

/// What an operation is owed: its events, and why it halts, if it does.
pub type Outcome = (Seq<Expect>, Option<Halt>);

/// An operation that halts with `h` before reporting anything.
pub open spec fn halted(h: Halt) -> Outcome {
    (Seq::empty(), Some(h))
}

/// An operation that reports `events` and does not halt.
pub open spec fn done(events: Seq<Expect>) -> Outcome {
    (events, None)
}

/// What the allocator decides within one operation: the capacity of a
/// vector taken over from a `Vec`, and whether a `try_reserve`, a
/// `try_reserve_exact` or a `try_grow` that could succeed does.
pub struct Choices {
    pub cap: nat,
    pub ok: bool,
    pub exact_ok: bool,
}

/// The capacity after `try_reserve(add)`: unchanged where there is room or
/// the size computation overflows, else grown where the allocator agrees.
pub open spec fn try_cap(len: nat, cap: nat, add: nat, size: nat, ok: bool) -> nat {
    if cap - len >= add || growth_overflows(len, cap, add, size) || !ok {
        cap
    } else {
        grown(len, cap, add)
    }
}

/// The capacity after `try_reserve_exact(add)` (see `try_cap`).
pub open spec fn exact_try_cap(len: nat, cap: nat, add: nat, size: nat, ok: bool) -> nat {
    if cap - len >= add || exact_growth_overflows(len, cap, add, size) || !ok {
        cap
    } else {
        exact_grown(len, cap, add)
    }
}

/// A clone of the element numbered `e`: the number at byte 50 of the half
/// that the selector keyed at byte 42 picks.
pub open spec fn copy_of(first: Seq<u8>, second: Seq<u8>, e: usize) -> Result<usize, Halt> {
    cloned_number(first, second, 42, 50, e as nat)
}

/// Clones of `items`, made in order, stopping at the first that halts.
pub open spec fn clones_of(first: Seq<u8>, second: Seq<u8>, items: Seq<usize>) -> Result<Seq<usize>, Halt>
    decreases items.len(),
{
    if items.len() == 0 {
        Ok(Seq::empty())
    } else {
        match clones_of(first, second, items.drop_last()) {
            Err(h) => Err(h),
            Ok(s) => match copy_of(first, second, items.last()) {
                Err(h) => Err(h),
                Ok(c) => Ok(s.push(c)),
            },
        }
    }
}

/// Where hashing `items` in order stops: at the first whose selector,
/// keyed at byte 0, halts.
pub open spec fn hash_halt(first: Seq<u8>, items: Seq<usize>) -> Option<Halt>
    decreases items.len(),
{
    if items.len() == 0 {
        None
    } else {
        match hash_halt(first, items.drop_last()) {
            Some(h) => Some(h),
            None => match selected_half(first, 0, items.last() as nat) {
                Err(h) => Some(h),
                Ok(_) => None,
            },
        }
    }
}

/// The numbers read at `start`, eight bytes apart.
pub open spec fn numbers_at(g: Seq<u8>, start: int, n: nat) -> Seq<usize> {
    Seq::new(n, |k: int| usize_at(g, start + 8 * k))
}

/// The vector of operation 0 made by the constructor read at byte 300.
pub open spec fn built_0(g: Seq<u8>, s: Seq<u8>) -> Result<Seq<usize>, Halt> {
    let choice = g[300] % 5;
    if choice == 0 {
        Ok(Seq::empty())
    } else if choice == 1 {
        if !fits(g, 400, 8) {
            Err(Halt::InputExhausted)
        } else if exact_growth_overflows(0, 16, usize_at(g, 400) as nat, vstd::layout::size_of::<usize>()) {
            Err(Halt::CapacityOverflow)
        } else {
            Ok(Seq::empty())
        }
    } else if choice == 2 || choice == 3 {
        Ok(numbers_at(g, 50, 32))
    } else if !fits(g, 450, 16) {
        Err(Halt::InputExhausted)
    } else {
        let e = usize_at(g, 450);
        let n = usize_at(g, 458) as nat % 64;
        if n == 0 {
            Ok(Seq::empty())
        } else {
            match copy_of(g, s, e) {
                Err(h) => Err(h),
                Ok(c) => Ok(if n <= 16 { repeat(c, n) } else { repeat(c, (n - 1) as nat).push(e) }),
            }
        }
    }
}

/// Operation 0: a `SmallVec<[_; 16]>` of number-carrying elements made by
/// one of five constructors, then hashed; report the number of the first
/// element twice.
pub open spec fn op_0(g: Seq<u8>, s: Seq<u8>) -> Outcome {
    if !fits(g, 50, 256) || !fits(g, 300, 1) {
        halted(Halt::InputExhausted)
    } else {
        match built_0(g, s) {
            Err(h) => halted(h),
            Ok(v) => match hash_halt(g, v) {
                Some(h) => halted(h),
                None => done(if v.len() > 0 { seq![Expect::Number(v[0]), Expect::Number(v[0])] } else { Seq::empty() }),
            },
        }
    }
}

/// Operation 1: read bytes pushed to a `SmallVec<[u8; 32]>`, after reporting
/// its capacity and length; drain a read range (the whole where it is
/// empty or starts past the end) and report its first byte.
pub open spec fn op_1(g: Seq<u8>) -> Outcome {
    let shown = seq![Expect::Count(32), Expect::Count(0)];
    if !fits(g, 500, 1) {
        (shown, Some(Halt::InputExhausted))
    } else {
        let n = (g[500] % 64) as nat;
        if !reads_ok(g, 501, 1, 1, n) || !fits(g, 600, 16) {
            (shown, Some(Halt::InputExhausted))
        } else {
            let a = usize_at(g, 600) as nat;
            let b = usize_at(g, 608) as nat;
            let whole = b <= a || a >= n;
            let start = if whole { 0 } else { a };
            let end0 = if whole { n } else { b };
            let end = if end0 > n { n } else { end0 };
            done(if start < end { shown.push(Expect::U8(g[501 + start as int])) } else { shown })
        }
    }
}

/// Operation 2: two `SmallVec<[i32; 16]>` of read values; report whether
/// they are equal, their order twice, and the capacity after appending the
/// second to the first.
pub open spec fn op_2(g: Seq<u8>) -> Outcome {
    if !fits(g, 700, 1) {
        halted(Halt::InputExhausted)
    } else {
        let m = (g[700] % 32) as nat;
        if !reads_ok(g, 701, 4, 4, m) || !fits(g, 800, 1) {
            halted(Halt::InputExhausted)
        } else {
            let k = (g[800] % 32) as nat;
            if !reads_ok(g, 801, 4, 4, k) {
                halted(Halt::InputExhausted)
            } else {
                let a = i32s_at(g, 701, 4, m);
                let b = i32s_at(g, 801, 4, k);
                let o = lex_order(i32_ints(a), i32_ints(b));
                done(seq![
                    Expect::Flag(a == b),
                    Expect::Compared(o),
                    Expect::Compared(o),
                    Expect::Count(grown(m, pushes_cap(0, 16, m), k)),
                ])
            }
        }
    }
}

/// The sixteen numbers of operation 4.
pub open spec fn sixteen() -> Seq<u64> {
    Seq::new(16, |k: int| (k + 1) as u64)
}

/// Operation 4: the numbers 1 to 16 in a `SmallVec<[u64; 20]>`, truncated to
/// a read length; report it and the first number, extend, insert at a read
/// position, and report the addresses.
pub open spec fn op_4(g: Seq<u8>) -> Outcome {
    if !fits(g, 1100, 8) {
        halted(Halt::InputExhausted)
    } else {
        let t = usize_at(g, 1100) as nat % 20;
        let len: nat = if t < 16 { t } else { 16 };
        let shown = if len > 0 { seq![Expect::Count(len), Expect::U64(1)] } else { seq![Expect::Count(len)] };
        if !fits(g, 1200, 8) {
            (shown, Some(Halt::InputExhausted))
        } else {
            done(shown + seq![Expect::Ptr, Expect::MutPtr])
        }
    }
}

/// Operation 5: twelve copies of 42 in a `SmallVec<[i16; 8]>`, resized with
/// a read value, resized again with a value read at byte 1400, repeats
/// removed, odd values dropped; report the length twice.
pub open spec fn op_5(g: Seq<u8>) -> Outcome {
    if !fits(g, 1300, 8) || !fits(g, 1308, 2) {
        halted(Halt::InputExhausted)
    } else {
        let a = usize_at(g, 1300) as nat % 32;
        let v1 = if a > 12 { repeat(42i16, 12) + repeat(i16_at(g, 1308), (a - 12) as nat) } else { repeat(42i16, a) };
        if !fits(g, 1350, 8) {
            halted(Halt::InputExhausted)
        } else {
            let b = usize_at(g, 1350) as nat % 16;
            if b > v1.len() && !fits(g, 1400, 2) {
                halted(Halt::InputExhausted)
            } else {
                let v2 = if b > v1.len() { v1 + repeat(i16_at(g, 1400), (b - v1.len()) as nat) } else { v1.take(b as int) };
                let v3 = dedup_seq(v2).filter(|x: i16| x % 2 == 0);
                done(seq![Expect::Count(v3.len()), Expect::Count(v3.len())])
            }
        }
    }
}

/// Operation 6: read characters pushed to a `SmallVec<[char; 12]>`; report
/// the first five as it is consumed.
pub open spec fn op_6(g: Seq<u8>) -> Outcome {
    if !fits(g, 1500, 1) {
        halted(Halt::InputExhausted)
    } else {
        let n = (g[1500] % 16) as nat;
        match chars_halt(g, 1501, 0, n) {
            Some(h) => halted(h),
            None => done(codes_at(g, 1501, if n < 5 { n } else { 5 }).map_values(|c: u32| Expect::Char(c))),
        }
    }
}

/// The length of the second vector of operation 7, made by the constructor
/// read at byte 1700.
pub open spec fn built_7(g: Seq<u8>) -> Result<nat, Halt> {
    let choice = g[1700] % 5;
    if choice == 0 {
        Ok(0)
    } else if choice == 1 {
        if !fits(g, 1705, 8) {
            Err(Halt::InputExhausted)
        } else if exact_growth_overflows(0, 18, usize_at(g, 1705) as nat, vstd::layout::size_of::<String>()) {
            Err(Halt::CapacityOverflow)
        } else {
            Ok(0)
        }
    } else if choice == 3 {
        if !fits(g, 1720, 8) {
            Err(Halt::InputExhausted)
        } else {
            Ok(usize_at(g, 1720) as nat % 10)
        }
    } else {
        Ok(2)
    }
}

/// Operation 7: a `SmallVec<[String; 18]>` with one text pushed, and another
/// made by one of five constructors; report the first's length, capacity,
/// emptiness and whether it spilled, and the length of a clone of the
/// second.
pub open spec fn op_7(g: Seq<u8>) -> Outcome {
    if !fits(g, 1700, 1) {
        halted(Halt::InputExhausted)
    } else {
        match built_7(g) {
            Err(h) => halted(h),
            Ok(n) => done(seq![
                Expect::Count(1),
                Expect::Count(18),
                Expect::Flag(false),
                Expect::Flag(false),
                Expect::Count(n),
            ]),
        }
    }
}

/// The flags read at `start`, one byte apart.
pub open spec fn flags_at(g: Seq<u8>, start: int, n: nat) -> Seq<bool> {
    Seq::new(n, |k: int| g[start + k] % 2 == 0)
}

/// Operation 8 after the drain, on `v` in capacity `cap`, having reported
/// `shown`: reserve exactly, grow, report the flag at a read index.
pub open spec fn rest_8(g: Seq<u8>, v: Seq<bool>, cap: nat, shown: Seq<Expect>) -> Outcome {
    if !fits(g, 1900, 8) {
        (shown, Some(Halt::InputExhausted))
    } else if exact_growth_overflows(v.len(), cap, usize_at(g, 1900) as nat, 1) {
        (shown, Some(Halt::CapacityOverflow))
    } else if !fits(g, 1920, 8) {
        (shown, Some(Halt::InputExhausted))
    } else {
        let gc = usize_at(g, 1920) as nat;
        if gc < v.len() {
            (shown, Some(Halt::OutOfRange))
        } else if gc > 24 && gc > isize::MAX {
            (shown, Some(Halt::CapacityOverflow))
        } else if v.len() == 0 {
            done(shown)
        } else if !fits(g, 1950, 8) {
            (shown, Some(Halt::InputExhausted))
        } else {
            done(shown.push(Expect::Bool(v[(usize_at(g, 1950) as nat % v.len()) as int])))
        }
    }
}

/// Operation 8: read flags pushed to a `SmallVec<[bool; 24]>`; drain a read
/// range that is in range and report its first flag, then the rest (see
/// `rest_8`).
pub open spec fn op_8(g: Seq<u8>) -> Outcome {
    if !fits(g, 1800, 1) {
        halted(Halt::InputExhausted)
    } else {
        let n = (g[1800] % 30) as nat;
        if !reads_ok(g, 1801, 1, 1, n) || !fits(g, 1850, 8) || !fits(g, 1860, 8) {
            halted(Halt::InputExhausted)
        } else {
            let items = flags_at(g, 1801, n);
            let a = usize_at(g, 1850) as nat;
            let b = usize_at(g, 1860) as nat;
            let cap = pushes_cap(0, 24, n);
            if a < n && b <= n && a <= b {
                rest_8(
                    g,
                    items.take(a as int) + items.skip(b as int),
                    cap,
                    if a < b { seq![Expect::Bool(items[a as int])] } else { Seq::empty() },
                )
            } else {
                rest_8(g, items, cap, Seq::empty())
            }
        }
    }
}

/// The vector of operation 9 made by the constructor read at byte 2000, and
/// its capacity, `c.cap` where left open.
pub open spec fn built_9(g: Seq<u8>, c: Choices) -> Result<(Seq<u32>, nat), Halt> {
    let choice = g[2000] % 4;
    if choice == 0 {
        Ok((Seq::empty(), 32))
    } else if choice == 1 {
        if !fits(g, 2010, 8) {
            Err(Halt::InputExhausted)
        } else {
            let n0 = usize_at(g, 2010) as nat;
            if exact_growth_overflows(0, 32, n0, 4) {
                Err(Halt::CapacityOverflow)
            } else {
                Ok((Seq::empty(), if n0 <= 32 { 32 } else { n0 }))
            }
        }
    } else if choice == 2 {
        if !fits(g, 2020, 4) || !fits(g, 2030, 8) {
            Err(Halt::InputExhausted)
        } else {
            Ok((repeat(u32_at(g, 2020), usize_at(g, 2030) as nat % 20), 32))
        }
    } else if !fits(g, 2040, 4) || !fits(g, 2050, 4) {
        Err(Halt::InputExhausted)
    } else {
        Ok((seq![u32_at(g, 2040), u32_at(g, 2050)], open_cap(c.cap, 2, 32, 4)))
    }
}

/// Operation 9: a `SmallVec<[u32; 32]>` made by one of four constructors,
/// extended by three read values, two more inserted at a read position that
/// is in range; try to reserve a read amount, then exactly another, each
/// reported where it succeeds (left to the allocator where it could,
/// `c.ok` and `c.exact_ok`), then the first value.
pub open spec fn op_9(g: Seq<u8>, c: Choices) -> Outcome {
    if !fits(g, 2000, 1) {
        halted(Halt::InputExhausted)
    } else {
        match built_9(g, c) {
            Err(h) => halted(h),
            Ok(b) => if !fits(g, 2100, 4) || !fits(g, 2110, 4) || !fits(g, 2120, 4) || !fits(g, 2150, 8)
                || !fits(g, 2160, 4) || !fits(g, 2170, 4) || !fits(g, 2200, 8) {
                halted(Halt::InputExhausted)
            } else {
                let v1 = b.0 + seq![u32_at(g, 2100), u32_at(g, 2110), u32_at(g, 2120)];
                let c1 = grown(b.0.len(), b.1, 3);
                let at = usize_at(g, 2150) as nat;
                let v2 = if at <= v1.len() {
                    v1.take(at as int) + seq![u32_at(g, 2160), u32_at(g, 2170)] + v1.skip(at as int)
                } else {
                    v1
                };
                let c2 = if at <= v1.len() { grown(v1.len(), c1, 2) } else { c1 };
                let len = v2.len();
                let t = usize_at(g, 2200) as nat;
                let ok = !growth_overflows(len, c2, t, 4) && (c2 - len >= t || c.ok);
                let c3 = try_cap(len, c2, t, 4, c.ok);
                let shown = if ok { seq![Expect::ReserveOk] } else { Seq::empty() };
                if !fits(g, 2220, 8) {
                    (shown, Some(Halt::InputExhausted))
                } else {
                    let te = usize_at(g, 2220) as nat;
                    let ok2 = !exact_growth_overflows(len, c3, te, 4) && (c3 - len >= te || c.exact_ok);
                    let shown = if ok2 { shown.push(Expect::ReserveExactOk) } else { shown };
                    done(shown.push(Expect::U32(v2[0])))
                }
            },
        }
    }
}

/// Operation 10: read numbers pushed to a `SmallVec<[usize; 16]>`, repeats
/// by a read key removed; try to grow to a read capacity and report success
/// (left to the allocator where it could succeed, `c.ok`), report the first
/// number, then whether the vector is a full inline array.
pub open spec fn op_10(g: Seq<u8>, c: Choices) -> Outcome {
    let z = vstd::layout::size_of::<usize>();
    if !fits(g, 2300, 1) {
        halted(Halt::InputExhausted)
    } else {
        let n = (g[2300] % 20) as nat;
        if !reads_ok(g, 2301, 8, 8, n) || !fits(g, 2400, 1) || !fits(g, 2450, 8) {
            halted(Halt::InputExhausted)
        } else {
            let v = dedup_keyed(numbers_at(g, 2301, n), g[2400] % 3);
            let cap0 = pushes_cap(0, 16, n);
            let gc = usize_at(g, 2450) as nat;
            if gc < v.len() {
                halted(Halt::OutOfRange)
            } else {
                let ok = gc <= 16 || gc == cap0 || (!(gc * z > isize::MAX) && c.ok);
                let cap1: nat = if !ok { cap0 } else if gc <= 16 { 16 } else { gc };
                let shown = if ok { seq![Expect::GrowOk] } else { Seq::empty() };
                let shown = if v.len() > 0 { shown.push(Expect::Usize(v[0])) } else { shown };
                done(shown.push(
                    if cap1 <= 16 && v.len() == 16 { Expect::IntoInnerOk(16) } else { Expect::IntoInnerFailed(v.len()) },
                ))
            }
        }
    }
}

/// Operation 11 (and any other number): read numbers as elements pushed to a
/// `SmallVec<[_; 16]>`, hashed; report the length, that of a clone where
/// there are elements, and that of the boxed slice it turns into.
pub open spec fn op_11(g: Seq<u8>, s: Seq<u8>) -> Outcome {
    if !fits(g, 1600, 1) {
        halted(Halt::InputExhausted)
    } else {
        let n = (g[1600] % 32) as nat;
        if !reads_ok(g, 1601, 8, 8, n) {
            halted(Halt::InputExhausted)
        } else {
            let items = numbers_at(g, 1601, n);
            match hash_halt(g, items) {
                Some(h) => halted(h),
                None => if n == 0 {
                    done(seq![Expect::Count(0), Expect::Count(0)])
                } else {
                    match clones_of(g, s, items) {
                        Err(h) => (seq![Expect::Count(n)], Some(h)),
                        Ok(_) => done(seq![Expect::Count(n), Expect::Count(n), Expect::Count(n)]),
                    }
                },
            }
        }
    }
}

/// What operation `op` is owed, the allocator's choices being `c`.
#[verifier::opaque]
pub open spec fn op_step(g: Seq<u8>, s: Seq<u8>, op: u8, c: Choices) -> Outcome {
    if op == 0 {
        op_0(g, s)
    } else if op == 1 {
        op_1(g)
    } else if op == 2 {
        op_2(g)
    } else if op == 3 {
        done(seq![Expect::FloatOp])
    } else if op == 4 {
        op_4(g)
    } else if op == 5 {
        op_5(g)
    } else if op == 6 {
        op_6(g)
    } else if op == 7 {
        op_7(g)
    } else if op == 8 {
        op_8(g)
    } else if op == 9 {
        op_9(g, c)
    } else if op == 10 {
        op_10(g, c)
    } else {
        op_11(g, s)
    }
}

/// What operations `k` up to `count` owe, in turn, stopping at the first
/// that halts; the choices of operation `k` are `cs[0]`, and so on.
pub open spec fn ops_from(g: Seq<u8>, s: Seq<u8>, k: nat, count: nat, cs: Seq<Choices>) -> Outcome
    decreases count - k,
{
    if k >= count {
        (Seq::empty(), None)
    } else if !fits(g, 11 + k as int, 1) {
        halted(Halt::InputExhausted)
    } else {
        let st = op_step(g, s, g[11 + k as int] % 12, cs[0]);
        if st.1 is Some {
            st
        } else {
            let rest = ops_from(g, s, k + 1, count, cs.drop_first());
            (st.0 + rest.0, rest.1)
        }
    }
}

/// What a whole run is owed, the choices being `cs`. Inputs shorter than
/// 2800 bytes are ignored.
pub open spec fn script_outcome(input_len: nat, g: Seq<u8>, s: Seq<u8>, cs: Seq<Choices>) -> Outcome {
    if input_len < 2800 {
        (Seq::empty(), None)
    } else if !fits(g, 10, 1) {
        halted(Halt::InputExhausted)
    } else {
        ops_from(g, s, 0, (g[10] % 64) as nat, cs)
    }
}


/// `n` numbers read at `start`, eight bytes apart, or `None` when a read runs
/// past the end.
fn read_numbers8(g: &[u8], start: usize, n: usize) -> (r: Option<Vec<usize>>)
    requires
        start <= 4096,
        n <= 64,
    ensures
        r is Some <==> reads_ok(g@, start as int, 8, 8, n as nat),
        r matches Some(v) ==> v@ == numbers_at(g@, start as int, n as nat),
{
    let mut v: Vec<usize> = Vec::new();
    let mut k: usize = 0;
    while k < n
        invariant
            k <= n <= 64,
            start <= 4096,
            v@ == numbers_at(g@, start as int, k as nat),
            k > 0 ==> fits(g@, start + 8 * (k - 1), 8),
        decreases n - k,
    {
        match read_usize(g, start + 8 * k) {
            Some(x) => v.push(x),
            None => return None,
        }
        k = k + 1;
        assert(v@ =~= numbers_at(g@, start as int, k as nat));
    }
    Some(v)
}

/// Where hashing a prefix of `items` halts, hashing all of them halts there.
proof fn lemma_hash_halt_extends(first: Seq<u8>, items: Seq<usize>, k: nat, h: Halt)
    requires
        k <= items.len(),
        hash_halt(first, items.take(k as int)) == Some(h),
    ensures
        hash_halt(first, items) == Some(h),
    decreases items.len(),
{
    if k < items.len() {
        assert(items.drop_last().take(k as int) =~= items.take(k as int));
        lemma_hash_halt_extends(first, items.drop_last(), k, h);
    } else {
        assert(items.take(k as int) =~= items);
    }
}

/// Hashes the elements numbered `items`, in order (see `hash_halt`).
fn hash_all(g: &[u8], items: &[usize]) -> (r: Result<(), Halt>)
    ensures
        r is Ok <==> hash_halt(g@, items@) is None,
        r matches Err(h) ==> hash_halt(g@, items@) == Some(h),
{
    let mut j: usize = 0;
    assert(items@.take(0) =~= Seq::<usize>::empty());
    while j < items.len()
        invariant
            j <= items@.len(),
            hash_halt(g@, items@.take(j as int)) is None,
        decreases items.len() - j,
    {
        assert(items@.take(j + 1).drop_last() =~= items@.take(j as int));
        match hash_number(g, 0, items[j]) {
            Ok(()) => {},
            Err(h) => {
                proof {
                    lemma_hash_halt_extends(g@, items@, (j + 1) as nat, h);
                }
                return Err(h);
            },
        }
        j = j + 1;
    }
    assert(items@.take(items@.len() as int) =~= items@);
    Ok(())
}

/// Where cloning a prefix of `items` halts, cloning all of them halts there.
proof fn lemma_clones_halt_extends(first: Seq<u8>, second: Seq<u8>, items: Seq<usize>, k: nat, h: Halt)
    requires
        k <= items.len(),
        clones_of(first, second, items.take(k as int)) == Err::<Seq<usize>, Halt>(h),
    ensures
        clones_of(first, second, items) == Err::<Seq<usize>, Halt>(h),
    decreases items.len(),
{
    if k < items.len() {
        assert(items.drop_last().take(k as int) =~= items.take(k as int));
        lemma_clones_halt_extends(first, second, items.drop_last(), k, h);
    } else {
        assert(items.take(k as int) =~= items);
    }
}

/// Clones of the elements numbered `items`, in order (see `clones_of`).
fn clone_all(g: &[u8], s: &[u8], items: &[usize]) -> (r: Result<Vec<usize>, Halt>)
    ensures
        match r {
            Ok(v) => clones_of(g@, s@, items@) == Ok::<Seq<usize>, Halt>(v@) && v@.len() == items@.len(),
            Err(h) => clones_of(g@, s@, items@) == Err::<Seq<usize>, Halt>(h),
        },
{
    let mut made: Vec<usize> = Vec::new();
    let mut j: usize = 0;
    assert(items@.take(0) =~= Seq::<usize>::empty());
    while j < items.len()
        invariant
            j <= items@.len(),
            made@.len() == j,
            clones_of(g@, s@, items@.take(j as int)) == Ok::<Seq<usize>, Halt>(made@),
        decreases items.len() - j,
    {
        assert(items@.take(j + 1).drop_last() =~= items@.take(j as int));
        match clone_number(g, s, 42, 50, items[j]) {
            Ok(c) => made.push(c),
            Err(h) => {
                proof {
                    lemma_clones_halt_extends(g@, s@, items@, (j + 1) as nat, h);
                }
                return Err(h);
            },
        }
        j = j + 1;
    }
    assert(items@.take(items@.len() as int) =~= items@);
    Ok(made)
}

/// The vector of operation 0 (see `built_0`), the 32 numbers read at byte 50
/// being `items`.
fn build_0(g: &[u8], s: &[u8], items: Vec<usize>) -> (r: Result<SmallVecNumbers16, Halt>)
    requires
        fits(g@, 50, 256),
        items@ == numbers_at(g@, 50, 32),
    ensures
        match r {
            Ok(v) => v.wf() && built_0(g@, s@) == Ok::<Seq<usize>, Halt>(sv_n16_items(v)),
            Err(h) => built_0(g@, s@) == Err::<Seq<usize>, Halt>(h),
        },
{
    let choice = g[300] % 5;
    if choice == 0 {
        Ok(small_vec_n16_new())
    } else if choice == 1 {
        let n0 = match read_usize(g, 400) {
            Some(x) => x,
            None => return Err(Halt::InputExhausted),
        };
        if exact_growth_overflows_exec(0, 16, n0, core::mem::size_of::<usize>()) {
            return Err(Halt::CapacityOverflow);
        }
        Ok(small_vec_n16_with_capacity(n0))
    } else if choice == 2 {
        Ok(small_vec_n16_from_vec(items))
    } else if choice == 3 {
        Ok(small_vec_n16_from_slice(items.as_slice()))
    } else {
        let e = match read_usize(g, 450) {
            Some(x) => x,
            None => return Err(Halt::InputExhausted),
        };
        let n = match read_usize(g, 458) {
            Some(x) => x % 64,
            None => return Err(Halt::InputExhausted),
        };
        if n == 0 {
            let v = small_vec_n16_from_elem(e, 0);
            assert(sv_n16_items(v) =~= Seq::<usize>::empty());
            return Ok(v);
        }
        let copy = match clone_number(g, s, 42, 50, e) {
            Ok(x) => x,
            Err(h) => return Err(h),
        };
        if n <= 16 {
            Ok(small_vec_n16_from_elem(copy, n))
        } else {
            let mut made: Vec<usize> = Vec::new();
            let mut i: usize = 1;
            while i < n
                invariant
                    1 <= i <= n < 64,
                    made@ == repeat(copy, (i - 1) as nat),
                decreases n - i,
            {
                made.push(copy);
                i = i + 1;
                assert(made@ =~= repeat(copy, (i - 1) as nat));
            }
            made.push(e);
            Ok(small_vec_n16_from_vec(made))
        }
    }
}

/// Operation 0 (see `op_0`).
fn run_op_0(g: &[u8], s: &[u8]) -> (r: (Vec<Event>, Option<Halt>))
    ensures
        events_match(r.0@, op_0(g@, s@).0),
        r.1 == op_0(g@, s@).1,
{
    let items = match read_numbers8(g, 50, 32) {
        Some(v) => v,
        None => return (Vec::new(), Some(Halt::InputExhausted)),
    };
    let v = match build_0(g, s, items) {
        Ok(v) => v,
        Err(h) => return (Vec::new(), Some(h)),
    };
    match hash_all(g, small_vec_n16_as_slice(&v)) {
        Ok(()) => {},
        Err(h) => return (Vec::new(), Some(h)),
    }
    let mut events: Vec<Event> = Vec::new();
    let first = small_vec_n16_as_slice(&v);
    if first.len() > 0 {
        events.push(Event::Number(first[0]));
    }
    let again = small_vec_n16_deref(&v);
    if again.len() > 0 {
        events.push(Event::Number(again[0]));
    }
    proof {
        let x = op_0(g@, s@).0;
        assert(forall|i: int| 0 <= i < events@.len() ==> #[trigger] event_matches(events@[i], x[i]));
    }
    (events, None)
}

/// Operation 11 (see `op_11`).
#[verifier::loop_isolation(false)]
fn run_op_11(g: &[u8], s: &[u8]) -> (r: (Vec<Event>, Option<Halt>))
    ensures
        events_match(r.0@, op_11(g@, s@).0),
        r.1 == op_11(g@, s@).1,
{
    let n = match read_u8(g, 1600) {
        Some(x) => x % 32,
        None => return (Vec::new(), Some(Halt::InputExhausted)),
    };
    let mut v = small_vec_n16_new();
    let mut j: usize = 0;
    while j < n as usize
        invariant
            j <= n < 32,
            v.wf(),
            sv_n16_items(v) == numbers_at(g@, 1601, j as nat),
            j > 0 ==> fits(g@, 1601 + 8 * (j - 1), 8),
        decreases n - j,
    {
        let x = match read_usize(g, 1601 + 8 * j) {
            Some(x) => x,
            None => return (Vec::new(), Some(Halt::InputExhausted)),
        };
        proof {
            broadcast use vstd::layout::layout_of_primitives;
            lemma_small_growth_sized(j as nat, sv_n16_cap(v), 1, vstd::layout::size_of::<usize>());
        }
        small_vec_n16_push(&mut v, x);
        j = j + 1;
        assert(sv_n16_items(v) =~= numbers_at(g@, 1601, j as nat));
    }
    match hash_all(g, small_vec_n16_as_slice(&v)) {
        Ok(()) => {},
        Err(h) => return (Vec::new(), Some(h)),
    }
    let mut events: Vec<Event> = Vec::new();
    events.push(Event::Count(small_vec_n16_as_slice(&v).len()));
    if !small_vec_n16_is_empty(&v) {
        let copies = match clone_all(g, s, small_vec_n16_as_slice(&v)) {
            Ok(c) => c,
            Err(h) => return (events, Some(h)),
        };
        proof {
            broadcast use vstd::layout::layout_of_primitives;
            lemma_small_growth_sized(0, 16, copies@.len(), vstd::layout::size_of::<usize>());
        }
        let copy = small_vec_n16_from_iter(copies);
        events.push(Event::Count(small_vec_n16_len(&copy)));
    }
    let boxed = small_vec_n16_into_boxed_slice(v);
    events.push(Event::Count(boxed.len()));
    proof {
        let x = op_11(g@, s@).0;
        assert(forall|i: int| 0 <= i < events@.len() ==> #[trigger] event_matches(events@[i], x[i]));
    }
    (events, None)
}


/// Operation 1 (see `op_1`).
#[verifier::loop_isolation(false)]
fn run_op_1(g: &[u8]) -> (r: (Vec<Event>, Option<Halt>))
    ensures
        events_match(r.0@, op_1(g@).0),
        r.1 == op_1(g@).1,
{
    let mut v = small_vec_u8n32_new();
    let mut events: Vec<Event> = Vec::new();
    events.push(Event::Count(small_vec_u8n32_capacity(&v)));
    events.push(Event::Count(small_vec_u8n32_len(&v)));
    let ghost shown = seq![Expect::Count(32), Expect::Count(0)];
    assert(forall|i: int| 0 <= i < events@.len() ==> #[trigger] event_matches(events@[i], shown[i]));
    let n = match read_u8(g, 500) {
        Some(x) => x % 64,
        None => return (events, Some(Halt::InputExhausted)),
    };
    let mut j: usize = 0;
    while j < n as usize
        invariant
            j <= n < 64,
            v.wf(),
            sv_u8n32_items(v) == bytes_at(g@, 501, j as nat),
            j > 0 ==> fits(g@, 501 + (j - 1), 1),
        decreases n - j,
    {
        let x = match read_u8(g, 501 + j) {
            Some(x) => x,
            None => return (events, Some(Halt::InputExhausted)),
        };
        proof {
            lemma_small_growth_sized(j as nat, sv_u8n32_cap(v), 1, 1);
        }
        small_vec_u8n32_push(&mut v, x);
        j = j + 1;
        assert(sv_u8n32_items(v) =~= bytes_at(g@, 501, j as nat));
    }
    let a = match read_usize(g, 600) {
        Some(x) => x,
        None => return (events, Some(Halt::InputExhausted)),
    };
    let b = match read_usize(g, 608) {
        Some(x) => x,
        None => return (events, Some(Halt::InputExhausted)),
    };
    let len = small_vec_u8n32_len(&v);
    let mut start = a;
    let mut end = b;
    if end <= start || start >= len {
        start = 0;
        end = len;
    }
    if end > len {
        end = len;
    }
    let drained = small_vec_u8n32_drain(&mut v, start, end);
    if drained.len() > 0 {
        events.push(Event::U8(drained[0]));
    }
    small_vec_u8n32_shrink_to_fit(&mut v);
    small_vec_u8n32_clear(&mut v);
    proof {
        let x = op_1(g@).0;
        assert(forall|i: int| 0 <= i < events@.len() ==> #[trigger] event_matches(events@[i], x[i]));
    }
    (events, None)
}

/// `n` values read at `start`, four bytes apart, pushed onto an empty
/// `SmallVec<[i32; 16]>`, or `None` when a read runs past the end.
fn push_i32s(g: &[u8], start: usize, n: u8) -> (r: Option<SmallVecI32>)
    requires
        start <= 4096,
        n < 32,
    ensures
        r is Some <==> reads_ok(g@, start as int, 4, 4, n as nat),
        r matches Some(v) ==> v.wf() && sv_i32_items(v) == i32s_at(g@, start as int, 4, n as nat)
            && sv_i32_cap(v) == pushes_cap(0, 16, n as nat),
{
    let mut v = small_vec_i32_new();
    let mut j: usize = 0;
    while j < n as usize
        invariant
            j <= n < 32,
            start <= 4096,
            v.wf(),
            sv_i32_items(v) == i32s_at(g@, start as int, 4, j as nat),
            sv_i32_cap(v) == pushes_cap(0, 16, j as nat),
            j > 0 ==> fits(g@, start + 4 * (j - 1), 4),
        decreases n - j,
    {
        let x = match read_i32(g, start + 4 * j) {
            Some(x) => x,
            None => return None,
        };
        proof {
            lemma_small_growth_sized(j as nat, sv_i32_cap(v), 1, 4);
        }
        small_vec_i32_push(&mut v, x);
        j = j + 1;
        assert(sv_i32_items(v) =~= i32s_at(g@, start as int, 4, j as nat));
    }
    Some(v)
}

/// Operation 2 (see `op_2`).
fn run_op_2(g: &[u8]) -> (r: (Vec<Event>, Option<Halt>))
    ensures
        events_match(r.0@, op_2(g@).0),
        r.1 == op_2(g@).1,
{
    let m = match read_u8(g, 700) {
        Some(x) => x % 32,
        None => return (Vec::new(), Some(Halt::InputExhausted)),
    };
    let mut a = match push_i32s(g, 701, m) {
        Some(v) => v,
        None => return (Vec::new(), Some(Halt::InputExhausted)),
    };
    let k = match read_u8(g, 800) {
        Some(x) => x % 32,
        None => return (Vec::new(), Some(Halt::InputExhausted)),
    };
    let mut b = match push_i32s(g, 801, k) {
        Some(v) => v,
        None => return (Vec::new(), Some(Halt::InputExhausted)),
    };
    let mut events: Vec<Event> = Vec::new();
    events.push(Event::Flag(small_vec_i32_eq(&a, &b)));
    events.push(Event::Compared(small_vec_i32_compare(&a, &b)));
    match small_vec_i32_partial_compare(&a, &b) {
        Some(o) => events.push(Event::Compared(o)),
        None => {},
    }
    proof {
        lemma_small_growth_sized(m as nat, sv_i32_cap(a), k as nat, 4);
    }
    small_vec_i32_append(&mut a, &mut b);
    events.push(Event::Count(small_vec_i32_capacity(&a)));
    proof {
        let x = op_2(g@).0;
        assert(forall|i: int| 0 <= i < events@.len() ==> #[trigger] event_matches(events@[i], x[i]));
    }
    (events, None)
}

/// Operation 4 (see `op_4`).
fn run_op_4(g: &[u8]) -> (r: (Vec<Event>, Option<Halt>))
    ensures
        events_match(r.0@, op_4(g@).0),
        r.1 == op_4(g@).1,
{
    let mut data: Vec<u64> = Vec::new();
    let mut k: u64 = 0;
    while k < 16
        invariant
            k <= 16,
            data@ == Seq::new(k as nat, |i: int| (i + 1) as u64),
        decreases 16 - k,
    {
        data.push(k + 1);
        k = k + 1;
        assert(data@ =~= Seq::new(k as nat, |i: int| (i + 1) as u64));
    }
    assert(data@ =~= sixteen());
    let mut v = u64n20::small_vec_u64n20_from_slice(data.as_slice());
    let t = match read_usize(g, 1100) {
        Some(x) => x % 20,
        None => return (Vec::new(), Some(Halt::InputExhausted)),
    };
    u64n20::small_vec_u64n20_truncate(&mut v, t);
    let mut events: Vec<Event> = Vec::new();
    events.push(Event::Count(u64n20::small_vec_u64n20_as_slice(&v).len()));
    let items = u64n20::small_vec_u64n20_as_mut_slice(&mut v);
    if items.len() > 0 {
        events.push(Event::U64(items[0]));
    }
    let ghost shown = op_4(g@).0;
    proof {
        assert(forall|i: int| 0 <= i < events@.len() ==> #[trigger] event_matches(events@[i], shown[i]));
    }
    let more: Vec<u64> = vec![17, 18, 19, 20];
    proof {
        broadcast use vstd::layout::layout_of_primitives;
        lemma_small_growth_sized(
            u64n20::sv_u64n20_items(v).len(),
            u64n20::sv_u64n20_cap(v),
            more@.len(),
            vstd::layout::size_of::<u64>(),
        );
    }
    u64n20::small_vec_u64n20_extend_from_slice(&mut v, more.as_slice());
    let at = match read_usize(g, 1200) {
        Some(x) => x,
        None => return (events, Some(Halt::InputExhausted)),
    };
    if at <= u64n20::small_vec_u64n20_len(&v) {
        let pair: Vec<u64> = vec![99, 100];
        proof {
            broadcast use vstd::layout::layout_of_primitives;
            lemma_small_growth_sized(
                u64n20::sv_u64n20_items(v).len(),
                u64n20::sv_u64n20_cap(v),
                pair@.len(),
                vstd::layout::size_of::<u64>(),
            );
        }
        u64n20::small_vec_u64n20_insert_from_slice(&mut v, at, pair.as_slice());
    }
    events.push(Event::Ptr(u64n20::small_vec_u64n20_as_ptr(&v)));
    events.push(Event::MutPtr(u64n20::small_vec_u64n20_as_mut_ptr(&mut v)));
    proof {
        let x = op_4(g@).0;
        assert(forall|i: int| 0 <= i < events@.len() ==> #[trigger] event_matches(events@[i], x[i]));
    }
    (events, None)
}


/// Operation 5 (see `op_5`).
fn run_op_5(g: &[u8]) -> (r: (Vec<Event>, Option<Halt>))
    ensures
        events_match(r.0@, op_5(g@).0),
        r.1 == op_5(g@).1,
{
    let mut init: Vec<i16> = Vec::new();
    let mut k: usize = 0;
    while k < 12
        invariant
            k <= 12,
            init@ == repeat(42i16, k as nat),
        decreases 12 - k,
    {
        init.push(42);
        k = k + 1;
        assert(init@ =~= repeat(42i16, k as nat));
    }
    proof {
        broadcast use vstd::layout::layout_of_primitives;
        lemma_small_growth_sized(0, 8, 12, vstd::layout::size_of::<i16>());
    }
    let mut v = i16n8::small_vec_i16n8_from_iter(init);
    let a = match read_usize(g, 1300) {
        Some(x) => x % 32,
        None => return (Vec::new(), Some(Halt::InputExhausted)),
    };
    let value = match read_i16(g, 1308) {
        Some(x) => x,
        None => return (Vec::new(), Some(Halt::InputExhausted)),
    };
    proof {
        broadcast use vstd::layout::layout_of_primitives;
        if a > 12 {
            lemma_small_growth_sized(12, i16n8::sv_i16n8_cap(v), (a - 12) as nat, vstd::layout::size_of::<i16>());
        }
    }
    i16n8::small_vec_i16n8_resize(&mut v, a, value);
    let ghost v1 = i16n8::sv_i16n8_items(v);
    assert(a <= 12 ==> v1 =~= repeat(42i16, a as nat));
    let b = match read_usize(g, 1350) {
        Some(x) => x % 16,
        None => return (Vec::new(), Some(Halt::InputExhausted)),
    };
    let len = i16n8::small_vec_i16n8_len(&v);
    if b > len && (g.len() < 1402) {
        return (Vec::new(), Some(Halt::InputExhausted));
    }
    proof {
        broadcast use vstd::layout::layout_of_primitives;
        if b > len {
            lemma_small_growth_sized(len as nat, i16n8::sv_i16n8_cap(v), (b - len) as nat, vstd::layout::size_of::<i16>());
        }
    }
    i16n8::small_vec_i16n8_resize_with_read(&mut v, b, g, 1400);
    i16n8::small_vec_i16n8_dedup(&mut v);
    i16n8::small_vec_i16n8_retain_even(&mut v);
    let mut events: Vec<Event> = Vec::new();
    events.push(Event::Count(i16n8::small_vec_i16n8_len(&v)));
    let all = i16n8::small_vec_i16n8_into_vec(v);
    events.push(Event::Count(all.len()));
    proof {
        let x = op_5(g@).0;
        assert(forall|i: int| 0 <= i < events@.len() ==> #[trigger] event_matches(events@[i], x[i]));
    }
    (events, None)
}

/// The item at `k` of `items`.
fn char_at(items: &[char], k: usize) -> (c: char)
    requires
        k < items@.len(),
    ensures
        c == items@[k as int],
{
    items[k]
}

/// Operation 6 (see `op_6`).
#[verifier::loop_isolation(false)]
fn run_op_6(g: &[u8]) -> (r: (Vec<Event>, Option<Halt>))
    ensures
        events_match(r.0@, op_6(g@).0),
        r.1 == op_6(g@).1,
{
    let mut v = charn12::small_vec_charn12_new();
    let n = match read_u8(g, 1500) {
        Some(x) => x % 16,
        None => return (Vec::new(), Some(Halt::InputExhausted)),
    };
    let mut j: u8 = 0;
    while j < n
        invariant
            j <= n < 16,
            v.wf(),
            charn12::sv_charn12_items(v).len() == j,
            forall|k: int| 0 <= k < j ==> (#[trigger] charn12::sv_charn12_items(v)[k]) as u32 == be_u32(g@, 1501 + 4 * k),
            chars_halt(g@, 1501, 0, n as nat) == chars_halt(g@, 1501, j as nat, n as nat),
        decreases n - j,
    {
        let c = match read_char(g, 1501 + 4 * j as usize) {
            Ok(c) => c,
            Err(h) => return (Vec::new(), Some(h)),
        };
        proof {
            broadcast use vstd::layout::layout_of_primitives;
            lemma_small_growth_sized(j as nat, charn12::sv_charn12_cap(v), 1, vstd::layout::size_of::<char>());
        }
        charn12::small_vec_charn12_push(&mut v, c);
        j = j + 1;
    }
    let all = charn12::small_vec_charn12_into_iter_collect(v);
    let ghost count: nat = if n < 5 { n as nat } else { 5 };
    let ghost owed = codes_at(g@, 1501, count).map_values(|c: u32| Expect::Char(c));
    let mut events: Vec<Event> = Vec::new();
    let mut idx: usize = 0;
    while idx < all.len()
        invariant
            idx <= all@.len() == n,
            all@.len() == n,
            forall|k: int| 0 <= k < n ==> (#[trigger] all@[k]) as u32 == be_u32(g@, 1501 + 4 * k),
            events@.len() == if idx < 5 { idx as nat } else { 5 },
            forall|i: int| 0 <= i < events@.len() ==> #[trigger] event_matches(events@[i], owed[i]),
        decreases all.len() - idx,
    {
        if idx < 5 {
            let c = char_at(all.as_slice(), idx);
            events.push(Event::Char(c));
        }
        idx = idx + 1;
    }
    (events, None)
}

/// Operation 7 (see `op_7`).
fn run_op_7(g: &[u8]) -> (r: (Vec<Event>, Option<Halt>))
    ensures
        events_match(r.0@, op_7(g@).0),
        r.1 == op_7(g@).1,
{
    let mut first = stringn18::small_vec_stringn18_new();
    let choice = match read_u8(g, 1700) {
        Some(x) => x % 5,
        None => return (Vec::new(), Some(Halt::InputExhausted)),
    };
    let second = if choice == 0 {
        stringn18::small_vec_stringn18_new()
    } else if choice == 1 {
        let n0 = match read_usize(g, 1705) {
            Some(x) => x,
            None => return (Vec::new(), Some(Halt::InputExhausted)),
        };
        if exact_growth_overflows_exec(0, 18, n0, core::mem::size_of::<String>()) {
            return (Vec::new(), Some(Halt::CapacityOverflow));
        }
        stringn18::small_vec_stringn18_with_capacity(n0)
    } else if choice == 2 {
        let texts: Vec<String> = vec!["test1".to_string(), "test2".to_string()];
        stringn18::small_vec_stringn18_from_vec(texts)
    } else if choice == 3 {
        let count = match read_usize(g, 1720) {
            Some(x) => x % 10,
            None => return (Vec::new(), Some(Halt::InputExhausted)),
        };
        stringn18::small_vec_stringn18_from_elem("repeated".to_string(), count)
    } else {
        let texts: Vec<String> = vec!["iter1".to_string(), "iter2".to_string()];
        stringn18::small_vec_stringn18_from_iter(texts)
    };
    stringn18::small_vec_stringn18_push(&mut first, "pushed".to_string());
    let mut events: Vec<Event> = Vec::new();
    events.push(Event::Count(stringn18::small_vec_stringn18_len(&first)));
    events.push(Event::Count(stringn18::small_vec_stringn18_capacity(&first)));
    events.push(Event::Flag(stringn18::small_vec_stringn18_is_empty(&first)));
    events.push(Event::Flag(stringn18::small_vec_stringn18_spilled(&first)));
    let copy = stringn18::small_vec_stringn18_clone(&second);
    events.push(Event::Count(stringn18::small_vec_stringn18_len(&copy)));
    proof {
        let x = op_7(g@).0;
        assert(forall|i: int| 0 <= i < events@.len() ==> #[trigger] event_matches(events@[i], x[i]));
    }
    (events, None)
}


/// Operation 8 (see `op_8`).
#[verifier::loop_isolation(false)]
fn run_op_8(g: &[u8]) -> (r: (Vec<Event>, Option<Halt>))
    ensures
        events_match(r.0@, op_8(g@).0),
        r.1 == op_8(g@).1,
{
    let mut v = booln24::small_vec_booln24_new();
    let n = match read_u8(g, 1800) {
        Some(x) => x % 30,
        None => return (Vec::new(), Some(Halt::InputExhausted)),
    };
    let mut j: usize = 0;
    while j < n as usize
        invariant
            j <= n < 30,
            v.wf(),
            booln24::sv_booln24_items(v) == flags_at(g@, 1801, j as nat),
            booln24::sv_booln24_cap(v) == pushes_cap(0, 24, j as nat),
            j > 0 ==> fits(g@, 1801 + (j - 1), 1),
        decreases n - j,
    {
        let x = match read_bool(g, 1801 + j) {
            Some(x) => x,
            None => return (Vec::new(), Some(Halt::InputExhausted)),
        };
        proof {
            broadcast use vstd::layout::layout_of_primitives;
            lemma_small_growth_sized(j as nat, booln24::sv_booln24_cap(v), 1, vstd::layout::size_of::<bool>());
        }
        booln24::small_vec_booln24_push(&mut v, x);
        j = j + 1;
        assert(booln24::sv_booln24_items(v) =~= flags_at(g@, 1801, j as nat));
    }
    let a = match read_usize(g, 1850) {
        Some(x) => x,
        None => return (Vec::new(), Some(Halt::InputExhausted)),
    };
    let b = match read_usize(g, 1860) {
        Some(x) => x,
        None => return (Vec::new(), Some(Halt::InputExhausted)),
    };
    let mut events: Vec<Event> = Vec::new();
    let len = booln24::small_vec_booln24_len(&v);
    if a < len && b <= len && a <= b {
        let drained = booln24::small_vec_booln24_drain(&mut v, a, b);
        if drained.len() > 0 {
            events.push(Event::Bool(drained[0]));
        }
    }
    let ghost items = flags_at(g@, 1801, n as nat);
    let ghost shown: Seq<Expect> = if a < len && b <= len && a <= b && a < b {
        seq![Expect::Bool(items[a as int])]
    } else {
        Seq::empty()
    };
    assert(forall|i: int| 0 <= i < events@.len() ==> #[trigger] event_matches(events@[i], shown[i]));
    proof {
        broadcast use vstd::layout::layout_of_primitives;
        if a < len && b <= len && a <= b {
            assert(booln24::sv_booln24_items(v) =~= items.take(a as int) + items.skip(b as int));
        }
    }
    let extra = match read_usize(g, 1900) {
        Some(x) => x,
        None => return (events, Some(Halt::InputExhausted)),
    };
    let len = booln24::small_vec_booln24_len(&v);
    if exact_growth_overflows_exec(len, booln24::small_vec_booln24_capacity(&v), extra, 1) {
        return (events, Some(Halt::CapacityOverflow));
    }
    booln24::small_vec_booln24_reserve_exact(&mut v, extra);
    let gc = match read_usize(g, 1920) {
        Some(x) => x,
        None => return (events, Some(Halt::InputExhausted)),
    };
    if gc < len {
        return (events, Some(Halt::OutOfRange));
    }
    if gc > 24 && gc > isize::MAX as usize {
        return (events, Some(Halt::CapacityOverflow));
    }
    booln24::small_vec_booln24_grow(&mut v, gc);
    if !booln24::small_vec_booln24_is_empty(&v) {
        let k = match read_usize(g, 1950) {
            Some(x) => x % len,
            None => return (events, Some(Halt::InputExhausted)),
        };
        let x = booln24::small_vec_booln24_as_slice(&v)[k];
        events.push(Event::Bool(x));
    }
    booln24::small_vec_booln24_dedup_by_eq(&mut v);
    proof {
        let x = op_8(g@).0;
        assert(forall|i: int| 0 <= i < events@.len() ==> #[trigger] event_matches(events@[i], x[i]));
    }
    (events, None)
}

/// The vector of operation 9 (see `built_9`), and the capacity it took over
/// where the constructor leaves it open.
fn build_9(g: &[u8]) -> (r: (Result<u32n32::SmallVecU32N32, Halt>, Ghost<nat>))
    requires
        fits(g@, 2000, 1),
    ensures
        forall|c: Choices|
            #![trigger built_9(g@, c)]
            c.cap == r.1@ ==> match r.0 {
                Ok(v) => built_9(g@, c) == Ok::<(Seq<u32>, nat), Halt>((u32n32::sv_u32n32_items(v), u32n32::sv_u32n32_cap(v))),
                Err(h) => built_9(g@, c) == Err::<(Seq<u32>, nat), Halt>(h),
            },
        r.0 matches Ok(v) ==> v.wf(),
{
    proof {
        broadcast use vstd::layout::layout_of_primitives;
    }
    let choice = g[2000] % 4;
    if choice == 0 {
        (Ok(u32n32::small_vec_u32n32_new()), Ghost(0))
    } else if choice == 1 {
        let n0 = match read_usize(g, 2010) {
            Some(x) => x,
            None => return (Err(Halt::InputExhausted), Ghost(0)),
        };
        if exact_growth_overflows_exec(0, 32, n0, 4) {
            return (Err(Halt::CapacityOverflow), Ghost(0));
        }
        (Ok(u32n32::small_vec_u32n32_with_capacity(n0)), Ghost(0))
    } else if choice == 2 {
        let e = match read_u32(g, 2020) {
            Some(x) => x,
            None => return (Err(Halt::InputExhausted), Ghost(0)),
        };
        let n = match read_usize(g, 2030) {
            Some(x) => x % 20,
            None => return (Err(Halt::InputExhausted), Ghost(0)),
        };
        (Ok(u32n32::small_vec_u32n32_from_elem(e, n)), Ghost(0))
    } else {
        let x = match read_u32(g, 2040) {
            Some(x) => x,
            None => return (Err(Halt::InputExhausted), Ghost(0)),
        };
        let y = match read_u32(g, 2050) {
            Some(x) => x,
            None => return (Err(Halt::InputExhausted), Ghost(0)),
        };
        let mut pair: Vec<u32> = Vec::new();
        pair.push(x);
        pair.push(y);
        let v = u32n32::small_vec_u32n32_from_vec(pair);
        assert(u32n32::sv_u32n32_items(v) =~= seq![x, y]);
        (Ok(v), Ghost(u32n32::sv_u32n32_cap(v)))
    }
}

/// Operation 9 (see `op_9`); whether the allocator grants the two
/// reservations, and the capacity a vector took over, are the choices.
#[verifier::loop_isolation(false)]
fn run_op_9(g: &[u8]) -> (r: (Vec<Event>, Option<Halt>, Ghost<Choices>))
    ensures
        events_match(r.0@, op_9(g@, r.2@).0),
        r.1 == op_9(g@, r.2@).1,
{
    let none = Ghost(Choices { cap: 0, ok: false, exact_ok: false });
    if g.len() < 2001 {
        return (Vec::new(), Some(Halt::InputExhausted), none);
    }
    let (built, Ghost(cap0)) = build_9(g);
    let ghost c0 = Choices { cap: cap0, ok: false, exact_ok: false };
    let mut v = match built {
        Ok(v) => v,
        Err(h) => return (Vec::new(), Some(h), Ghost(c0)),
    };
    assert(built_9(g@, c0) is Ok);
    let x1 = match read_u32(g, 2100) {
        Some(x) => x,
        None => return (Vec::new(), Some(Halt::InputExhausted), Ghost(c0)),
    };
    let x2 = match read_u32(g, 2110) {
        Some(x) => x,
        None => return (Vec::new(), Some(Halt::InputExhausted), Ghost(c0)),
    };
    let x3 = match read_u32(g, 2120) {
        Some(x) => x,
        None => return (Vec::new(), Some(Halt::InputExhausted), Ghost(c0)),
    };
    let mut three: Vec<u32> = Vec::new();
    three.push(x1);
    three.push(x2);
    three.push(x3);
    assert(three@ =~= seq![x1, x2, x3]);
    proof {
        broadcast use vstd::layout::layout_of_primitives;
        lemma_small_growth_sized(u32n32::sv_u32n32_items(v).len(), u32n32::sv_u32n32_cap(v), 3, 4);
    }
    u32n32::small_vec_u32n32_extend(&mut v, three);
    let at = match read_usize(g, 2150) {
        Some(x) => x,
        None => return (Vec::new(), Some(Halt::InputExhausted), Ghost(c0)),
    };
    let y1 = match read_u32(g, 2160) {
        Some(x) => x,
        None => return (Vec::new(), Some(Halt::InputExhausted), Ghost(c0)),
    };
    let y2 = match read_u32(g, 2170) {
        Some(x) => x,
        None => return (Vec::new(), Some(Halt::InputExhausted), Ghost(c0)),
    };
    if at <= u32n32::small_vec_u32n32_len(&v) {
        let mut two: Vec<u32> = Vec::new();
        two.push(y1);
        two.push(y2);
        assert(two@ =~= seq![y1, y2]);
        proof {
            broadcast use vstd::layout::layout_of_primitives;
            lemma_small_growth_sized(u32n32::sv_u32n32_items(v).len(), u32n32::sv_u32n32_cap(v), 2, 4);
        }
        u32n32::small_vec_u32n32_insert_many(&mut v, at, two);
    }
    let t = match read_usize(g, 2200) {
        Some(x) => x,
        None => return (Vec::new(), Some(Halt::InputExhausted), Ghost(c0)),
    };
    let ghost v2 = u32n32::sv_u32n32_items(v);
    let first_try = u32n32::small_vec_u32n32_try_reserve(&mut v, t);
    let ghost c1 = Choices { cap: cap0, ok: first_try is Ok, exact_ok: false };
    assert(built_9(g@, c1) == built_9(g@, c0));
    let mut events: Vec<Event> = Vec::new();
    if first_try.is_ok() {
        events.push(Event::ReserveOk);
    }
    let te = match read_usize(g, 2220) {
        Some(x) => x,
        None => {
            proof {
                let x = op_9(g@, c1).0;
                assert(forall|i: int| 0 <= i < events@.len() ==> #[trigger] event_matches(events@[i], x[i]));
            }
            return (events, Some(Halt::InputExhausted), Ghost(c1));
        },
    };
    let second_try = u32n32::small_vec_u32n32_try_reserve_exact(&mut v, te);
    let ghost c2 = Choices { cap: cap0, ok: first_try is Ok, exact_ok: second_try is Ok };
    assert(built_9(g@, c2) == built_9(g@, c0));
    if second_try.is_ok() {
        events.push(Event::ReserveExactOk);
    }
    if !u32n32::small_vec_u32n32_is_empty(&v) {
        let items = u32n32::small_vec_u32n32_as_ref(&v);
        if items.len() > 0 {
            events.push(Event::U32(items[0]));
        }
    }
    proof {
        let x = op_9(g@, c2).0;
        assert(forall|i: int| 0 <= i < events@.len() ==> #[trigger] event_matches(events@[i], x[i]));
    }
    (events, None, Ghost(c2))
}


/// Operation 10 (see `op_10`); whether the allocator grants the new buffer
/// is the choice.
#[verifier::loop_isolation(false)]
fn run_op_10(g: &[u8]) -> (r: (Vec<Event>, Option<Halt>, Ghost<Choices>))
    ensures
        events_match(r.0@, op_10(g@, r.2@).0),
        r.1 == op_10(g@, r.2@).1,
{
    let none = Ghost(Choices { cap: 0, ok: false, exact_ok: false });
    let n = match read_u8(g, 2300) {
        Some(x) => x % 20,
        None => return (Vec::new(), Some(Halt::InputExhausted), none),
    };
    let mut v = small_vec_n16_new();
    let mut j: usize = 0;
    while j < n as usize
        invariant
            j <= n < 20,
            v.wf(),
            sv_n16_items(v) == numbers_at(g@, 2301, j as nat),
            sv_n16_cap(v) == pushes_cap(0, 16, j as nat),
            j > 0 ==> fits(g@, 2301 + 8 * (j - 1), 8),
        decreases n - j,
    {
        let x = match read_usize(g, 2301 + 8 * j) {
            Some(x) => x,
            None => return (Vec::new(), Some(Halt::InputExhausted), none),
        };
        proof {
            broadcast use vstd::layout::layout_of_primitives;
            lemma_small_growth_sized(j as nat, sv_n16_cap(v), 1, vstd::layout::size_of::<usize>());
        }
        small_vec_n16_push(&mut v, x);
        j = j + 1;
        assert(sv_n16_items(v) =~= numbers_at(g@, 2301, j as nat));
    }
    let kind = match read_u8(g, 2400) {
        Some(x) => x % 3,
        None => return (Vec::new(), Some(Halt::InputExhausted), none),
    };
    small_vec_n16_dedup_by_key(&mut v, kind);
    let gc = match read_usize(g, 2450) {
        Some(x) => x,
        None => return (Vec::new(), Some(Halt::InputExhausted), none),
    };
    if gc < small_vec_n16_len(&v) {
        return (Vec::new(), Some(Halt::OutOfRange), none);
    }
    proof {
        broadcast use vstd::layout::layout_of_primitives;
    }
    let grew = small_vec_n16_try_grow(&mut v, gc);
    let ghost c = Choices { cap: 0, ok: grew is Ok, exact_ok: false };
    let mut events: Vec<Event> = Vec::new();
    if grew.is_ok() {
        events.push(Event::GrowOk);
    }
    if !small_vec_n16_is_empty(&v) {
        let items = small_vec_n16_as_mut(&mut v);
        if items.len() > 0 {
            events.push(Event::Usize(items[0]));
        }
    }
    let size = small_vec_n16_inline_size(&v);
    let len = small_vec_n16_len(&v);
    match small_vec_n16_into_inner(v) {
        Ok(_) => events.push(Event::IntoInnerOk(size)),
        Err(w) => events.push(Event::IntoInnerFailed(small_vec_n16_len(&w))),
    }
    proof {
        let x = op_10(g@, c).0;
        assert(forall|i: int| 0 <= i < events@.len() ==> #[trigger] event_matches(events@[i], x[i]));
    }
    (events, None, Ghost(c))
}

/// The choices of an operation that leaves nothing to the allocator.
pub open spec fn no_choice() -> Choices {
    Choices { cap: 0, ok: false, exact_ok: false }
}

/// Runs operation `op` (see `op_step`); the allocator's decisions are the
/// choices.
fn run_op(g: &[u8], s: &[u8], op: u8) -> (r: (Vec<Event>, Option<Halt>, Ghost<Choices>))
    requires
        op < 12,
    ensures
        events_match(r.0@, op_step(g@, s@, op, r.2@).0),
        r.1 == op_step(g@, s@, op, r.2@).1,
{
    reveal(op_step);
    let none = Ghost(no_choice());
    if op == 9 {
        return run_op_9(g);
    } else if op == 10 {
        return run_op_10(g);
    }
    let (events, halt) = if op == 0 {
        run_op_0(g, s)
    } else if op == 1 {
        run_op_1(g)
    } else if op == 2 {
        run_op_2(g)
    } else if op == 3 {
        let mut events: Vec<Event> = Vec::new();
        events.push(Event::FloatOp);
        assert(events_match(events@, seq![Expect::FloatOp]));
        (events, None)
    } else if op == 4 {
        run_op_4(g)
    } else if op == 5 {
        run_op_5(g)
    } else if op == 6 {
        run_op_6(g)
    } else if op == 7 {
        run_op_7(g)
    } else if op == 8 {
        run_op_8(g)
    } else {
        run_op_11(g, s)
    };
    (events, halt, none)
}

/// Once operation `k` has run without halting, the run's outcome is what was
/// owed so far and its events, followed by what the later operations owe.
proof fn lemma_run_continues(
    input_len: nat,
    g: Seq<u8>,
    s: Seq<u8>,
    k: nat,
    count: nat,
    done_cs: Seq<Choices>,
    owed: Seq<Expect>,
    c: Choices,
)
    requires
        forall|rest: Seq<Choices>|
            #![trigger ops_from(g, s, k, count, rest)]
            script_outcome(input_len, g, s, done_cs + rest) == (
                owed + ops_from(g, s, k, count, rest).0,
                ops_from(g, s, k, count, rest).1,
            ),
        k < count,
        fits(g, 11 + k as int, 1),
        op_step(g, s, g[11 + k as int] % 12, c).1 is None,
    ensures
        ({
            let st = op_step(g, s, g[11 + k as int] % 12, c);
            forall|rest: Seq<Choices>|
                #![trigger ops_from(g, s, k + 1, count, rest)]
                script_outcome(input_len, g, s, done_cs.push(c) + rest) == (
                    (owed + st.0) + ops_from(g, s, k + 1, count, rest).0,
                    ops_from(g, s, k + 1, count, rest).1,
                )
        }),
{
    let st = op_step(g, s, g[11 + k as int] % 12, c);
    assert forall|rest: Seq<Choices>|
        #![trigger ops_from(g, s, k + 1, count, rest)]
        script_outcome(input_len, g, s, done_cs.push(c) + rest) == (
            (owed + st.0) + ops_from(g, s, k + 1, count, rest).0,
            ops_from(g, s, k + 1, count, rest).1,
        ) by {
        let full = seq![c] + rest;
        assert(done_cs.push(c) + rest =~= done_cs + full);
        assert(full.drop_first() =~= rest);
        let tail = ops_from(g, s, k + 1, count, rest);
        assert(ops_from(g, s, k, count, full) == (st.0 + tail.0, tail.1));
        assert(owed + (st.0 + tail.0) =~= (owed + st.0) + tail.0);
    }
}

/// Where operation `k` halts, the run's outcome is what was owed so far and
/// its events, and the halt.
proof fn lemma_run_halts(
    input_len: nat,
    g: Seq<u8>,
    s: Seq<u8>,
    k: nat,
    count: nat,
    done_cs: Seq<Choices>,
    owed: Seq<Expect>,
    c: Choices,
)
    requires
        forall|rest: Seq<Choices>|
            #![trigger ops_from(g, s, k, count, rest)]
            script_outcome(input_len, g, s, done_cs + rest) == (
                owed + ops_from(g, s, k, count, rest).0,
                ops_from(g, s, k, count, rest).1,
            ),
        k < count,
        fits(g, 11 + k as int, 1),
        op_step(g, s, g[11 + k as int] % 12, c).1 is Some,
    ensures
        script_outcome(input_len, g, s, done_cs.push(c)) == (
            owed + op_step(g, s, g[11 + k as int] % 12, c).0,
            op_step(g, s, g[11 + k as int] % 12, c).1,
        ),
{
    let full = seq![c];
    assert(done_cs.push(c) =~= done_cs + full);
    assert(full[0] == c);
    assert(ops_from(g, s, k, count, full) == op_step(g, s, g[11 + k as int] % 12, c));
}

/// The events of a run, and why it stopped early, if it did.
pub struct Run {
    pub events: Vec<Event>,
    pub halt: Option<Halt>,
}

/// Runs the script of an input of `input_len` bytes whose halves are `first`
/// and `second`. What it reports is owed for some decisions of the
/// allocator; the operation on floating-point items is left to the caller,
/// reported as `FloatOp` in its place.
pub fn run(input_len: usize, first: &[u8], second: &[u8]) -> (r: Run)
    ensures
        exists|cs: Seq<Choices>|
            #![trigger script_outcome(input_len as nat, first@, second@, cs)]
            events_match(r.events@, script_outcome(input_len as nat, first@, second@, cs).0) && r.halt
                == script_outcome(input_len as nat, first@, second@, cs).1,
{
    let mut events: Vec<Event> = Vec::new();
    let ghost none = Seq::<Choices>::empty();
    let ghost g = first@;
    let ghost s = second@;
    if input_len < 2800 {
        assert(script_outcome(input_len as nat, g, s, none).0 =~= Seq::<Expect>::empty());
        return Run { events, halt: None };
    }
    let count = match read_u8(first, 10) {
        Some(x) => x % 64,
        None => {
            assert(script_outcome(input_len as nat, g, s, none).0 =~= Seq::<Expect>::empty());
            return Run { events, halt: Some(Halt::InputExhausted) };
        },
    };
    let ghost n = count as nat;
    let ghost mut done_cs = Seq::<Choices>::empty();
    let ghost mut owed = Seq::<Expect>::empty();
    let ghost mut gk: nat = 0;
    assert forall|rest: Seq<Choices>|
        #![trigger ops_from(g, s, gk, n, rest)]
        script_outcome(input_len as nat, g, s, done_cs + rest) == (
            owed + ops_from(g, s, gk, n, rest).0,
            ops_from(g, s, gk, n, rest).1,
        ) by {
        assert(done_cs + rest =~= rest);
        assert(owed + ops_from(g, s, gk, n, rest).0 =~= ops_from(g, s, gk, n, rest).0);
    }
    let mut i: usize = 0;
    while i < count as usize
        invariant
            i <= count < 64,
            input_len >= 2800,
            g == first@,
            s == second@,
            fits(g, 10, 1),
            n == count as nat,
            n == (g[10] % 64) as nat,
            gk == i as nat,
            none == Seq::<Choices>::empty(),
            events_match(events@, owed),
            forall|rest: Seq<Choices>|
                #![trigger ops_from(g, s, gk, n, rest)]
                script_outcome(input_len as nat, g, s, done_cs + rest) == (
                    owed + ops_from(g, s, gk, n, rest).0,
                    ops_from(g, s, gk, n, rest).1,
                ),
        decreases count as usize - i,
    {
        let op = match read_u8(first, 11 + i) {
            Some(x) => x % 12,
            None => {
                proof {
                    assert(ops_from(g, s, gk, n, none) == halted(Halt::InputExhausted));
                    assert(owed + Seq::<Expect>::empty() =~= owed);
                }
                return Run { events, halt: Some(Halt::InputExhausted) };
            },
        };
        let (evs, halt, Ghost(c)) = run_op(first, second, op);
        let ghost st = op_step(g, s, op, c);
        proof {
            lemma_events_match_append(events@, owed, evs@, st.0);
        }
        let mut evs = evs;
        events.append(&mut evs);
        if halt.is_some() {
            proof {
                lemma_run_halts(input_len as nat, g, s, gk, n, done_cs, owed, c);
            }
            return Run { events, halt };
        }
        proof {
            lemma_run_continues(input_len as nat, g, s, gk, n, done_cs, owed, c);
            done_cs = done_cs.push(c);
            owed = owed + st.0;
            gk = gk + 1;
        }
        i = i + 1;
    }
    proof {
        assert(ops_from(g, s, gk, n, none) == (Seq::<Expect>::empty(), None::<Halt>));
        assert(owed + Seq::<Expect>::empty() =~= owed);
        assert(done_cs + none =~= done_cs);
    }
    Run { events, halt: None }
}

/// Operation 1, for a read range `a..b` with `a < b` and `a` below the
/// number of bytes pushed, reports as the first byte drained the byte pushed
/// at position `a`, the one read at `501 + a`.
pub proof fn law_drain_reports_the_byte_at_the_start(g: Seq<u8>)
    requires
        fits(g, 500, 1),
        reads_ok(g, 501, 1, 1, (g[500] % 64) as nat),
        fits(g, 600, 16),
        usize_at(g, 600) < usize_at(g, 608),
        usize_at(g, 600) < g[500] % 64,
    ensures
        op_1(g).1 is None,
        op_1(g).0 == seq![Expect::Count(32), Expect::Count(0), Expect::U8(g[501 + usize_at(g, 600)])],
{
}

} // verus!

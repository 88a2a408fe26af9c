//! A script of twenty kinds of operation, each on a fresh vector of its own
//! element type and inline size, that reports every item it iterates over
//! by reference.
use vstd::prelude::*;
use crate::bytes::{be_u128, be_u16, be_u32, be_u64, i8_of, mixed_i16, mixed_i64};
use crate::medley::chars_halt;
use crate::bytes::{_to_i16, _to_i64, _to_i8, _to_u128, _to_u64, _to_usize};
use crate::script::{
    fits, i32_at, i32s_at, read_char, read_i32, read_i32s, read_i8, read_isize, read_text, read_u16, read_u32, read_u8,
    read_usize, text_of, u32_at, usize_at, Halt,
};
use crate::sv_u32::{
    small_vec_u32_as_slice, small_vec_u32_capacity, small_vec_u32_from_elem, small_vec_u32_from_vec,
    small_vec_u32_len, small_vec_u32_spilled, small_vec_u32_with_capacity, sv_u32_cap, sv_u32_items, SmallVecU32,
};
use crate::medley::{booln18, u64n12};
use crate::numbered::n16;
use crate::sv_u8n32::{
    small_vec_u8n32_as_slice, small_vec_u8n32_capacity, small_vec_u8n32_from_elem, small_vec_u8n32_len,
    small_vec_u8n32_remove, small_vec_u8n32_reserve, small_vec_u8n32_shrink_to_fit, small_vec_u8n32_truncate,
    sv_u8n32_cap,
};
use crate::sv_string::texts;
use crate::small_vec::{
    exact_growth_overflows, exact_growth_overflows_exec, growth_overflows, growth_overflows_exec, grown,
    law_lex_order_reflexive, lemma_small_push, open_cap, repeat, Order,
};

pub mod i32n20;
pub mod i16n15;
pub mod charn24;
pub mod i64n14;
pub mod u128n12;
pub mod stringn16;
pub mod bytesn12;
pub mod u8n24;
pub mod u16n32;
pub mod isizen20;
pub mod u8n18;
pub mod i8n25;

verus! {

/// Whether operation 15 keeps `x`: above 100 where its read byte is even
/// (`large`), else below 30000.
pub fn keeps_u16(large: bool, x: u16) -> (r: bool)
    ensures
        r == if large { x > 100 } else { x < 30000 },
{
    if large {
        x > 100
    } else {
        x < 30000
    }
}

/// What the script reports, one value per printed line.
#[derive(Debug, PartialEq, Eq)]
pub enum Event {
    U32(u32),
    I32(i32),
    U64(u64),
    I16(i16),
    U8(u8),
    Char(char),
    Bool(bool),
    I64(i64),
    U128(u128),
    Text(String),
    Bytes(Vec<u8>),
    U16(u16),
    Isize(isize),
    I8(i8),
    Usize(usize),
    /// A flag printed with `{}`.
    Flag(bool),
    /// A length, capacity or inline size printed with `{}`.
    Count(usize),
    U32s(Vec<u32>),
    U64s(Vec<u64>),
    I16s(Vec<i16>),
    U8s(Vec<u8>),
    Bools(Vec<bool>),
    I64s(Vec<i64>),
    Vecs(Vec<Vec<u8>>),
    /// The order of a vector and its clone.
    Compared(Order),
    /// An address.
    Ptr(usize),
    /// "Got array".
    GotArray,
    /// "Got vec back".
    GotVecBack,
    /// An operation on floating-point items, left to the caller: the
    /// operation's number and its position in the run.
    FloatOp(u8, usize),
}

/// What the script is owed to report; an address may be any, and a
/// character is owed by its code.
pub enum Expect {
    U32(u32),
    I32(i32),
    U64(u64),
    I16(i16),
    U8(u8),
    Char(u32),
    Bool(bool),
    I64(i64),
    U128(u128),
    Text(Seq<char>),
    Bytes(Seq<u8>),
    U16(u16),
    Isize(isize),
    I8(i8),
    Usize(usize),
    Flag(bool),
    Count(nat),
    U32s(Seq<u32>),
    U64s(Seq<u64>),
    I16s(Seq<i16>),
    U8s(Seq<u8>),
    Bools(Seq<bool>),
    I64s(Seq<i64>),
    Vecs(Seq<Seq<u8>>),
    Compared(Order),
    Ptr,
    GotArray,
    GotVecBack,
    FloatOp(u8, nat),
}

/// The contents of byte vectors.
pub open spec fn contents(v: Seq<Vec<u8>>) -> Seq<Seq<u8>> {
    v.map_values(|b: Vec<u8>| b@)
}

/// Whether a reported event is the one that was owed.
pub open spec fn event_matches(e: Event, x: Expect) -> bool {
    match e {
        Event::U32(v) => x == Expect::U32(v),
        Event::I32(v) => x == Expect::I32(v),
        Event::U64(v) => x == Expect::U64(v),
        Event::I16(v) => x == Expect::I16(v),
        Event::U8(v) => x == Expect::U8(v),
        Event::Char(c) => x == Expect::Char(c as u32),
        Event::Bool(v) => x == Expect::Bool(v),
        Event::I64(v) => x == Expect::I64(v),
        Event::U128(v) => x == Expect::U128(v),
        Event::Text(s) => x == Expect::Text(s@),
        Event::Bytes(b) => x == Expect::Bytes(b@),
        Event::U16(v) => x == Expect::U16(v),
        Event::Isize(v) => x == Expect::Isize(v),
        Event::I8(v) => x == Expect::I8(v),
        Event::Usize(v) => x == Expect::Usize(v),
        Event::Flag(b) => x == Expect::Flag(b),
        Event::Count(n) => x == Expect::Count(n as nat),
        Event::U32s(v) => x == Expect::U32s(v@),
        Event::U64s(v) => x == Expect::U64s(v@),
        Event::I16s(v) => x == Expect::I16s(v@),
        Event::U8s(v) => x == Expect::U8s(v@),
        Event::Bools(v) => x == Expect::Bools(v@),
        Event::I64s(v) => x == Expect::I64s(v@),
        Event::Vecs(v) => x == Expect::Vecs(contents(v@)),
        Event::Compared(o) => x == Expect::Compared(o),
        Event::Ptr(_) => x is Ptr,
        Event::GotArray => x is GotArray,
        Event::GotVecBack => x is GotVecBack,
        Event::FloatOp(op, at) => x == Expect::FloatOp(op, at as nat),
    }
}

/// Whether the reported events are, one for one, those owed.
pub open spec fn events_match(a: Seq<Event>, x: Seq<Expect>) -> bool {
    &&& a.len() == x.len()
    &&& forall|i: int| 0 <= i < a.len() ==> #[trigger] event_matches(a[i], x[i])
}

/// Reported events, followed by more, match what was owed followed by more.
proof fn lemma_events_match_append(a: Seq<Event>, x: Seq<Expect>, b: Seq<Event>, y: Seq<Expect>)
    requires
        events_match(a, x),
        events_match(b, y),
    ensures
        events_match(a + b, x + y),
{
    assert forall|i: int| 0 <= i < (a + b).len() implies #[trigger] event_matches((a + b)[i], (x + y)[i]) by {
        if i < a.len() {
            assert(event_matches(a[i], x[i]));
        } else {
            assert(event_matches(b[i - a.len()], y[i - a.len()]));
        }
    }
}

/// What an operation is owed: its events, and why it halts, if it does.
pub type Outcome = (Seq<Expect>, Option<Halt>);

/// An operation that halts with `h` before reporting anything.
pub open spec fn halted(h: Halt) -> Outcome {
    (Seq::empty(), Some(h))
}

/// An operation that reports `events` and does not halt.
pub open spec fn done(events: Seq<Expect>) -> Outcome {
    (events, None)
}

/// `shown`, then what `rest` owes.
pub open spec fn after(shown: Seq<Expect>, rest: Outcome) -> Outcome {
    (shown + rest.0, rest.1)
}

/// Whether `n` items of `size` bytes overflow the size computation of a
/// buffer.
pub open spec fn too_big(n: nat, size: nat) -> bool {
    n * size > isize::MAX
}

pub open spec fn each_u32(s: Seq<u32>) -> Seq<Expect> {
    s.map_values(|v: u32| Expect::U32(v))
}

pub open spec fn each_i32(s: Seq<i32>) -> Seq<Expect> {
    s.map_values(|v: i32| Expect::I32(v))
}

pub open spec fn each_u64(s: Seq<u64>) -> Seq<Expect> {
    s.map_values(|v: u64| Expect::U64(v))
}

pub open spec fn each_i16(s: Seq<i16>) -> Seq<Expect> {
    s.map_values(|v: i16| Expect::I16(v))
}

pub open spec fn each_u8(s: Seq<u8>) -> Seq<Expect> {
    s.map_values(|v: u8| Expect::U8(v))
}

pub open spec fn each_char(s: Seq<char>) -> Seq<Expect> {
    s.map_values(|v: char| Expect::Char(v as u32))
}

pub open spec fn each_code(s: Seq<u32>) -> Seq<Expect> {
    s.map_values(|v: u32| Expect::Char(v))
}

pub open spec fn each_bool(s: Seq<bool>) -> Seq<Expect> {
    s.map_values(|v: bool| Expect::Bool(v))
}

pub open spec fn each_i64(s: Seq<i64>) -> Seq<Expect> {
    s.map_values(|v: i64| Expect::I64(v))
}

pub open spec fn each_u128(s: Seq<u128>) -> Seq<Expect> {
    s.map_values(|v: u128| Expect::U128(v))
}

pub open spec fn each_text(s: Seq<Seq<char>>) -> Seq<Expect> {
    s.map_values(|v: Seq<char>| Expect::Text(v))
}

pub open spec fn each_bytes(s: Seq<Seq<u8>>) -> Seq<Expect> {
    s.map_values(|v: Seq<u8>| Expect::Bytes(v))
}

pub open spec fn each_u16(s: Seq<u16>) -> Seq<Expect> {
    s.map_values(|v: u16| Expect::U16(v))
}

pub open spec fn each_isize(s: Seq<isize>) -> Seq<Expect> {
    s.map_values(|v: isize| Expect::Isize(v))
}

pub open spec fn each_i8(s: Seq<i8>) -> Seq<Expect> {
    s.map_values(|v: i8| Expect::I8(v))
}

pub open spec fn each_usize(s: Seq<usize>) -> Seq<Expect> {
    s.map_values(|v: usize| Expect::Usize(v))
}

/// The big-endian `u64` at `i`.
pub open spec fn u64_at(g: Seq<u8>, i: int) -> u64 {
    be_u64(g, i) as u64
}

/// The `i16` at `i`.
pub open spec fn i16_at(g: Seq<u8>, i: int) -> i16 {
    mixed_i16(g, i) as i16
}

/// The big-endian `u16` at `i`.
pub open spec fn u16_at(g: Seq<u8>, i: int) -> u16 {
    be_u16(g, i) as u16
}

/// The `i64` at `i`.
pub open spec fn i64_at(g: Seq<u8>, i: int) -> i64 {
    mixed_i64(g, i) as i64
}

/// The big-endian `u128` at `i`.
pub open spec fn u128_at(g: Seq<u8>, i: int) -> u128 {
    be_u128(g, i) as u128
}

/// The byte at `i` as an `i8`.
pub open spec fn i8_at(g: Seq<u8>, i: int) -> i8 {
    i8_of(g[i]) as i8
}

/// The vector of operation 0 made by the constructor read at `70 + i`, and
/// its capacity, `c` standing for one the outside crate leaves open.
pub open spec fn built_0(g: Seq<u8>, i: int, c: nat) -> Result<(Seq<u32>, nat), Halt> {
    let choice = g[70 + i] % 3;
    if choice == 0 {
        if !fits(g, 80 + 8 * i, 8) {
            Err(Halt::InputExhausted)
        } else {
            let n0 = usize_at(g, 80 + 8 * i) as nat;
            if exact_growth_overflows(0, 16, n0, 4) {
                Err(Halt::CapacityOverflow)
            } else {
                Ok((Seq::empty(), if n0 <= 16 { 16 } else { n0 }))
            }
        }
    } else if choice == 1 {
        if !fits(g, 88 + 4 * i, 4) || !fits(g, 92 + 8 * i, 8) {
            Err(Halt::InputExhausted)
        } else {
            let n = usize_at(g, 92 + 8 * i) as nat;
            if n > 16 && too_big(n, 4) {
                Err(Halt::CapacityOverflow)
            } else {
                Ok((repeat(u32_at(g, 88 + 4 * i), n), if n <= 16 { 16 } else { open_cap(c, n, 16, 4) }))
            }
        }
    } else if !fits(g, 100 + 4 * i, 4) || !fits(g, 104 + i, 1) {
        Err(Halt::InputExhausted)
    } else {
        let n = (g[104 + i] % 15) as nat;
        Ok((repeat(u32_at(g, 100 + 4 * i), n), open_cap(c, n, 16, 4)))
    }
}

/// Operation 0: a `SmallVec<[u32; 16]>` made by one of three constructors;
/// report its items, whether it spilled, its length, capacity and items.
pub open spec fn op_0(g: Seq<u8>, i: int, c: nat) -> Outcome {
    if !fits(g, 70 + i, 1) {
        halted(Halt::InputExhausted)
    } else {
        match built_0(g, i, c) {
            Err(h) => halted(h),
            Ok(b) => done(
                each_u32(b.0) + seq![
                    Expect::Flag(b.1 > 16),
                    Expect::Count(b.0.len()),
                    Expect::Count(b.1),
                    Expect::U32s(b.0),
                ],
            ),
        }
    }
}

/// The capacity after `k` pushes onto `len` items in capacity `cap`.
pub open spec fn pushes_cap(len: nat, cap: nat, k: nat) -> nat
    decreases k,
{
    if k == 0 {
        cap
    } else {
        grown((len + k - 1) as nat, pushes_cap(len, cap, (k - 1) as nat), 1)
    }
}

/// Operation 1: read values pushed to a `SmallVec<[i32; 20]>` of a read
/// capacity; report them, the length, capacity and emptiness, then reserve
/// a read amount.
pub open spec fn op_1(g: Seq<u8>, i: int) -> Outcome {
    if !fits(g, 110 + 8 * i, 8) {
        halted(Halt::InputExhausted)
    } else {
        let n0 = usize_at(g, 110 + 8 * i) as nat;
        if exact_growth_overflows(0, 20, n0, 4) {
            halted(Halt::CapacityOverflow)
        } else if !fits(g, 118 + i, 1) {
            halted(Halt::InputExhausted)
        } else {
            let n = (g[118 + i] % 25) as nat;
            if !(n == 0 || fits(g, 120 + 4 * (n - 1), 4)) {
                halted(Halt::InputExhausted)
            } else {
                let cap = pushes_cap(0, if n0 <= 20 { 20 } else { n0 }, n);
                let shown = each_i32(i32s_at(g, 120, 4, n)) + seq![
                    Expect::Count(n),
                    Expect::Count(cap),
                    Expect::Flag(n == 0),
                ];
                if !fits(g, 130 + 8 * i, 8) {
                    (shown, Some(Halt::InputExhausted))
                } else if growth_overflows(n, cap, usize_at(g, 130 + 8 * i) as nat, 4) {
                    (shown, Some(Halt::CapacityOverflow))
                } else {
                    done(shown)
                }
            }
        }
    }
}

/// The three `u64` values of operation 2.
pub open spec fn words_2(g: Seq<u8>) -> Seq<u64> {
    seq![u64_at(g, 150), u64_at(g, 158), u64_at(g, 166)]
}

/// Operation 2: three read values copied into a `SmallVec<[u64; 12]>`;
/// report them, the items, their order against a clone, and an address.
pub open spec fn op_2(g: Seq<u8>) -> Outcome {
    if !fits(g, 150, 24) {
        halted(Halt::InputExhausted)
    } else {
        let w = words_2(g);
        done(each_u64(w) + seq![Expect::U64s(w), Expect::Compared(Order::Equal), Expect::Ptr])
    }
}

/// The four `i16` values of operation 4.
pub open spec fn shorts_4(g: Seq<u8>) -> Seq<i16> {
    seq![i16_at(g, 180), i16_at(g, 182), i16_at(g, 184), i16_at(g, 186)]
}

/// Operation 4: four read values copied into a `SmallVec<[i16; 15]>`;
/// report them, that it did not spill, and the items twice.
pub open spec fn op_4(g: Seq<u8>) -> Outcome {
    if !fits(g, 180, 8) {
        halted(Halt::InputExhausted)
    } else {
        let w = shorts_4(g);
        done(each_i16(w) + seq![Expect::Flag(false), Expect::I16s(w), Expect::I16s(w)])
    }
}

/// Operation 5: copies of a read byte in a `SmallVec<[u8; 32]>` (of open
/// capacity `c` where they do not fit inline); report them, truncate,
/// reserve, shrink, then remove an item and report it.
pub open spec fn op_5(g: Seq<u8>, c: nat) -> Outcome {
    if !fits(g, 190, 9) {
        halted(Halt::InputExhausted)
    } else {
        let e = g[190];
        let n = usize_at(g, 191) as nat;
        if n > 32 && too_big(n, 1) {
            halted(Halt::CapacityOverflow)
        } else {
            let cap = if n <= 32 { 32 } else { open_cap(c, n, 32, 1) };
            let shown = each_u8(repeat(e, n));
            if !fits(g, 195, 8) {
                (shown, Some(Halt::InputExhausted))
            } else {
                let t = usize_at(g, 195) as nat;
                let len = if t < n { t } else { n };
                if !fits(g, 197, 8) {
                    (shown, Some(Halt::InputExhausted))
                } else if growth_overflows(len, cap, usize_at(g, 197) as nat, 1) {
                    (shown, Some(Halt::CapacityOverflow))
                } else if len == 0 {
                    done(shown)
                } else if !fits(g, 199, 8) {
                    (shown, Some(Halt::InputExhausted))
                } else {
                    done(shown.push(Expect::U8(e)))
                }
            }
        }
    }
}

/// The codes of `count` characters read at `start`, four bytes apart.
pub open spec fn codes_at(g: Seq<u8>, start: int, count: nat) -> Seq<u32> {
    Seq::new(count, |k: int| be_u32(g, start + 4 * k) as u32)
}

/// Operation 6: read characters pushed to a `SmallVec<[char; 24]>`; report
/// them and the one at a read index; clear, then push more read characters.
pub open spec fn op_6(g: Seq<u8>) -> Outcome {
    if !fits(g, 200, 1) {
        halted(Halt::InputExhausted)
    } else {
        let n = (g[200] % 30) as nat;
        match chars_halt(g, 201, 0, n) {
            Some(h) => halted(h),
            None => {
                let codes = codes_at(g, 201, n);
                let shown = each_code(codes);
                if n > 0 && !fits(g, 230, 8) {
                    (shown, Some(Halt::InputExhausted))
                } else {
                    let shown = if n > 0 {
                        shown.push(Expect::Char(codes[(usize_at(g, 230) as nat % n) as int]))
                    } else {
                        shown
                    };
                    if !fits(g, 240, 1) {
                        (shown, Some(Halt::InputExhausted))
                    } else {
                        (shown, chars_halt(g, 241, 0, (g[240] % 20) as nat))
                    }
                }
            },
        }
    }
}

/// The eighteen flags of operation 7.
pub open spec fn flags_7(g: Seq<u8>) -> Seq<bool> {
    Seq::new(18, |k: int| g[245 + k] % 2 == 0)
}

/// Operation 7: three flags read and dropped, eighteen read into a full
/// `SmallVec<[bool; 18]>`; report them, and the items twice.
pub open spec fn op_7(g: Seq<u8>) -> Outcome {
    if !fits(g, 240, 3) || !fits(g, 245, 18) {
        halted(Halt::InputExhausted)
    } else {
        let w = flags_7(g);
        done(each_bool(w) + seq![Expect::Bools(w), Expect::Bools(w)])
    }
}

/// The three `i64` values of operation 8.
pub open spec fn longs_8(g: Seq<u8>) -> Seq<i64> {
    seq![i64_at(g, 250), i64_at(g, 258), i64_at(g, 266)]
}

/// Operation 8: three read values collected into a `SmallVec<[i64; 14]>`;
/// report them, an address, and the items.
pub open spec fn op_8(g: Seq<u8>) -> Outcome {
    if !fits(g, 250, 24) {
        halted(Halt::InputExhausted)
    } else {
        let w = longs_8(g);
        done(each_i64(w) + seq![Expect::Ptr, Expect::I64s(w)])
    }
}

/// Operation 9: two read `u128` values in a `SmallVec<[u128; 12]>`; report
/// them, then that it is no full inline array.
pub open spec fn op_9(g: Seq<u8>) -> Outcome {
    if !fits(g, 270, 32) {
        halted(Halt::InputExhausted)
    } else {
        done(each_u128(seq![u128_at(g, 270), u128_at(g, 286)]).push(Expect::GotVecBack))
    }
}

/// The texts of eight bytes read at `300 + 10 * k` for `k` from `j` to
/// `count`, or why reading them stops.
pub open spec fn texts_from(g: Seq<u8>, j: nat, count: nat) -> Result<Seq<Seq<char>>, Halt>
    decreases count - j,
{
    if j >= count {
        Ok(Seq::empty())
    } else {
        match text_of(g, 300 + 10 * j as int, 8) {
            Err(h) => Err(h),
            Ok(t) => match texts_from(g, j + 1, count) {
                Err(h) => Err(h),
                Ok(rest) => Ok(seq![t] + rest),
            },
        }
    }
}

/// Operation 10: read texts pushed to a `SmallVec<[String; 16]>` of a read
/// capacity; report them, then swap-remove one at a read index and report
/// it.
pub open spec fn op_10(g: Seq<u8>, i: int) -> Outcome {
    if !fits(g, 280 + 8 * i, 8) {
        halted(Halt::InputExhausted)
    } else if exact_growth_overflows(0, 16, usize_at(g, 280 + 8 * i) as nat, vstd::layout::size_of::<String>()) {
        halted(Halt::CapacityOverflow)
    } else if !fits(g, 290 + i, 1) {
        halted(Halt::InputExhausted)
    } else {
        match texts_from(g, 0, (g[290 + i] % 10) as nat) {
            Err(h) => halted(h),
            Ok(ts) => {
                let shown = each_text(ts);
                if ts.len() == 0 {
                    done(shown)
                } else if !fits(g, 320 + 8 * i, 8) {
                    (shown, Some(Halt::InputExhausted))
                } else {
                    done(shown.push(Expect::Text(ts[(usize_at(g, 320 + 8 * i) as nat % ts.len()) as int])))
                }
            },
        }
    }
}

/// The `size` bytes at `start`.
pub open spec fn bytes_at(g: Seq<u8>, start: int, size: nat) -> Seq<u8> {
    Seq::new(size, |m: int| g[start + m])
}

/// The byte vectors `j` to `count` of operation 11: vector `k` has (the byte
/// at `360 + k`, modulo 5) bytes read at `370 + 5 * k`.
pub open spec fn vecs_from(g: Seq<u8>, j: nat, count: nat) -> Result<Seq<Seq<u8>>, Halt>
    decreases count - j,
{
    if j >= count {
        Ok(Seq::empty())
    } else if !fits(g, 360 + j as int, 1) {
        Err(Halt::InputExhausted)
    } else {
        let size = (g[360 + j as int] % 5) as nat;
        if size > 0 && !fits(g, 370 + 5 * j as int, size as int) {
            Err(Halt::InputExhausted)
        } else {
            match vecs_from(g, j + 1, count) {
                Err(h) => Err(h),
                Ok(rest) => Ok(seq![bytes_at(g, 370 + 5 * j as int, size)] + rest),
            }
        }
    }
}

/// Operation 11: read byte vectors pushed to a `SmallVec<[Vec<u8>; 12]>`;
/// report each, and all of them.
pub open spec fn op_11(g: Seq<u8>, i: int) -> Outcome {
    if !fits(g, 350 + i, 1) {
        halted(Halt::InputExhausted)
    } else {
        match vecs_from(g, 0, (g[350 + i] % 8) as nat) {
            Err(h) => halted(h),
            Ok(vs) => done(each_bytes(vs).push(Expect::Vecs(vs))),
        }
    }
}

/// Operation 12 after the copies are reported: resize with a read value to
/// a read length, drain a read range and report what it held. The vector
/// holds `n` copies of `e` in capacity `cap`.
pub open spec fn rest_12(g: Seq<u8>, i: int, e: i32, n: nat, cap: nat) -> Outcome {
    if !fits(g, 420 + 4 * i, 4) || !fits(g, 425 + 8 * i, 8) {
        halted(Halt::InputExhausted)
    } else {
        let ne = i32_at(g, 420 + 4 * i);
        let nn = usize_at(g, 425 + 8 * i) as nat;
        if nn > n && growth_overflows(n, cap, (nn - n) as nat, 4) {
            halted(Halt::CapacityOverflow)
        } else if !fits(g, 430 + 8 * i, 8) || !fits(g, 435 + 8 * i, 8) {
            halted(Halt::InputExhausted)
        } else {
            let v = if nn > n { repeat(e, n) + repeat(ne, (nn - n) as nat) } else { repeat(e, nn) };
            let ds = usize_at(g, 430 + 8 * i) as nat;
            let de = usize_at(g, 435 + 8 * i) as nat;
            if ds < v.len() {
                let end = if de < v.len() { de } else { v.len() };
                let start = if ds < end { ds } else { end };
                done(each_i32(v.subrange(start as int, end as int)))
            } else {
                done(Seq::empty())
            }
        }
    }
}

/// Operation 12: copies of a read value in a `SmallVec<[i32; 20]>` (of open
/// capacity `c` where they do not fit inline); report them, then the rest
/// (see `rest_12`).
pub open spec fn op_12(g: Seq<u8>, i: int, c: nat) -> Outcome {
    if !fits(g, 400 + 4 * i, 4) || !fits(g, 410 + 8 * i, 8) {
        halted(Halt::InputExhausted)
    } else {
        let e = i32_at(g, 400 + 4 * i);
        let n = usize_at(g, 410 + 8 * i) as nat;
        if n > 20 && too_big(n, 4) {
            halted(Halt::CapacityOverflow)
        } else {
            after(each_i32(repeat(e, n)), rest_12(g, i, e, n, if n <= 20 { 20 } else { open_cap(c, n, 20, 4) }))
        }
    }
}

/// Operation 14: four read bytes copied into a `SmallVec<[u8; 24]>`;
/// report them, then insert a read byte at a read index that is in range
/// and extend by two read bytes.
pub open spec fn op_14(g: Seq<u8>, i: int) -> Outcome {
    if !fits(g, 480, 4) {
        halted(Halt::InputExhausted)
    } else {
        let shown = each_u8(g.subrange(480, 484));
        if !fits(g, 485 + 8 * i, 8) || !fits(g, 490 + i, 1) || !fits(g, 495, 2) {
            (shown, Some(Halt::InputExhausted))
        } else {
            done(shown)
        }
    }
}

/// Operation 15: copies of a read value in a `SmallVec<[u16; 32]>`; report
/// them, then keep those that a read byte's test keeps and remove repeats.
pub open spec fn op_15(g: Seq<u8>, i: int) -> Outcome {
    if !fits(g, 500 + 2 * i, 2) || !fits(g, 510 + 8 * i, 8) {
        halted(Halt::InputExhausted)
    } else {
        let n = usize_at(g, 510 + 8 * i) as nat;
        if n > 32 && too_big(n, 2) {
            halted(Halt::CapacityOverflow)
        } else {
            let shown = each_u16(repeat(u16_at(g, 500 + 2 * i), n));
            if !fits(g, 520 + i, 1) {
                (shown, Some(Halt::InputExhausted))
            } else {
                done(shown)
            }
        }
    }
}

/// The `count` `isize` values read at `start`, eight bytes apart.
pub open spec fn isizes_at(g: Seq<u8>, start: int, count: nat) -> Seq<isize> {
    Seq::new(count, |k: int| mixed_i64(g, start + 8 * k) as isize)
}

/// Operation 16: read values pushed to a `SmallVec<[isize; 20]>` of a read
/// capacity; report them, grow to a read capacity, read a value and hash
/// the vector.
pub open spec fn op_16(g: Seq<u8>, i: int) -> Outcome {
    let z = vstd::layout::size_of::<isize>();
    if !fits(g, 530 + 8 * i, 8) {
        halted(Halt::InputExhausted)
    } else if exact_growth_overflows(0, 20, usize_at(g, 530 + 8 * i) as nat, z) {
        halted(Halt::CapacityOverflow)
    } else if !fits(g, 540 + i, 1) {
        halted(Halt::InputExhausted)
    } else {
        let n = (g[540 + i] % 15) as nat;
        if !(n == 0 || fits(g, 550 + 8 * (n - 1), 8)) {
            halted(Halt::InputExhausted)
        } else {
            let shown = each_isize(isizes_at(g, 550, n));
            if !fits(g, 570 + 8 * i, 8) {
                (shown, Some(Halt::InputExhausted))
            } else {
                let gc = usize_at(g, 570 + 8 * i) as nat;
                if gc < n {
                    (shown, Some(Halt::OutOfRange))
                } else if gc > 20 && too_big(gc, z) {
                    (shown, Some(Halt::CapacityOverflow))
                } else if !fits(g, 580 + 8 * i, 8) {
                    (shown, Some(Halt::InputExhausted))
                } else {
                    done(shown)
                }
            }
        }
    }
}

/// Operation 17: three read bytes copied into a `SmallVec<[u8; 18]>`;
/// report them, the items, and that it equals itself.
pub open spec fn op_17(g: Seq<u8>) -> Outcome {
    if !fits(g, 590, 3) {
        halted(Halt::InputExhausted)
    } else {
        let w = g.subrange(590, 593);
        done(each_u8(w) + seq![Expect::U8s(w), Expect::Flag(true)])
    }
}

/// The four `i8` values of operation 18.
pub open spec fn tiny_18(g: Seq<u8>) -> Seq<i8> {
    seq![i8_at(g, 600), i8_at(g, 601), i8_at(g, 602), i8_at(g, 603)]
}

/// Operation 18: four read values collected into a `SmallVec<[i8; 25]>`;
/// report them, insert two read values at a read position that is in
/// range, and report an address.
pub open spec fn op_18(g: Seq<u8>, i: int) -> Outcome {
    if !fits(g, 600, 4) {
        halted(Halt::InputExhausted)
    } else {
        let shown = each_i8(tiny_18(g));
        if !fits(g, 610, 2) || !fits(g, 615 + 8 * i, 8) {
            (shown, Some(Halt::InputExhausted))
        } else {
            done(shown.push(Expect::Ptr))
        }
    }
}

/// The vector of operation 19 made by the constructor read at `620 + i`.
pub open spec fn built_19(g: Seq<u8>, i: int) -> Result<Seq<usize>, Halt> {
    let z = vstd::layout::size_of::<usize>();
    let choice = g[620 + i] % 4;
    if choice == 0 {
        Ok(Seq::empty())
    } else if choice == 1 {
        if !fits(g, 630 + 8 * i, 8) {
            Err(Halt::InputExhausted)
        } else if exact_growth_overflows(0, 16, usize_at(g, 630 + 8 * i) as nat, z) {
            Err(Halt::CapacityOverflow)
        } else {
            Ok(Seq::empty())
        }
    } else if choice == 2 {
        if !fits(g, 640 + 8 * i, 8) || !fits(g, 650 + 8 * i, 8) {
            Err(Halt::InputExhausted)
        } else {
            let n = usize_at(g, 650 + 8 * i) as nat;
            if n > 16 && too_big(n, z) {
                Err(Halt::CapacityOverflow)
            } else {
                Ok(repeat(usize_at(g, 640 + 8 * i), n))
            }
        }
    } else if !fits(g, 660, 16) {
        Err(Halt::InputExhausted)
    } else {
        Ok(seq![usize_at(g, 660), usize_at(g, 668)])
    }
}

/// Operation 19 (and any other number): a `SmallVec<[usize; 16]>` made by
/// one of four constructors; report its items, emptiness and inline size.
pub open spec fn op_19(g: Seq<u8>, i: int) -> Outcome {
    if !fits(g, 620 + i, 1) {
        halted(Halt::InputExhausted)
    } else {
        match built_19(g, i) {
            Err(h) => halted(h),
            Ok(v) => done(each_usize(v) + seq![Expect::Flag(v.len() == 0), Expect::Count(16)]),
        }
    }
}

/// Whether operation `op` works on floating-point items.
pub open spec fn is_float_op(op: u8) -> bool {
    op == 3 || op == 13
}

/// What operation `op`, at position `i` of the run, is owed, the open
/// capacity of operations 0, 5 and 12 being `c`.
#[verifier::opaque]
pub open spec fn op_step(g: Seq<u8>, i: nat, op: u8, c: nat) -> Outcome {
    let k = i as int;
    if is_float_op(op) {
        done(seq![Expect::FloatOp(op, i)])
    } else if op == 0 {
        op_0(g, k, c)
    } else if op == 1 {
        op_1(g, k)
    } else if op == 2 {
        op_2(g)
    } else if op == 4 {
        op_4(g)
    } else if op == 5 {
        op_5(g, c)
    } else if op == 6 {
        op_6(g)
    } else if op == 7 {
        op_7(g)
    } else if op == 8 {
        op_8(g)
    } else if op == 9 {
        op_9(g)
    } else if op == 10 {
        op_10(g, k)
    } else if op == 11 {
        op_11(g, k)
    } else if op == 12 {
        op_12(g, k, c)
    } else if op == 14 {
        op_14(g, k)
    } else if op == 15 {
        op_15(g, k)
    } else if op == 16 {
        op_16(g, k)
    } else if op == 17 {
        op_17(g)
    } else if op == 18 {
        op_18(g, k)
    } else {
        op_19(g, k)
    }
}

/// What operations `k` up to `count` owe, in turn, stopping at the first
/// that halts; the open capacity of operation `k` is `cs[0]`, of the next
/// `cs[1]`, and so on.
pub open spec fn ops_from(g: Seq<u8>, k: nat, count: nat, cs: Seq<nat>) -> Outcome
    decreases count - k,
{
    if k >= count {
        (Seq::empty(), None)
    } else if !fits(g, 1 + k as int, 1) {
        halted(Halt::InputExhausted)
    } else {
        let st = op_step(g, k, g[1 + k as int] % 20, cs[0]);
        if st.1 is Some {
            st
        } else {
            let rest = ops_from(g, k + 1, count, cs.drop_first());
            (st.0 + rest.0, rest.1)
        }
    }
}

/// What a whole run is owed, the open capacities being `cs`. Inputs shorter
/// than 300 bytes are ignored.
pub open spec fn script_outcome(input_len: nat, g: Seq<u8>, cs: Seq<nat>) -> Outcome {
    if input_len < 300 {
        (Seq::empty(), None)
    } else if !fits(g, 0, 1) {
        halted(Halt::InputExhausted)
    } else {
        ops_from(g, 0, (g[0] % 65) as nat, cs)
    }
}

/// One event for each item of `items`, in order.
fn report_u32s(items: &[u32]) -> (r: Vec<Event>)
    ensures
        events_match(r@, each_u32(items@)),
{
    let mut r: Vec<Event> = Vec::new();
    let mut k: usize = 0;
    while k < items.len()
        invariant
            k <= items@.len(),
            r@.len() == k,
            forall|i: int| 0 <= i < k ==> #[trigger] event_matches(r@[i], each_u32(items@)[i]),
        decreases items.len() - k,
    {
        r.push(Event::U32(items[k]));
        k = k + 1;
    }
    r
}

/// One event for each item of `items`, in order.
fn report_i32s(items: &[i32]) -> (r: Vec<Event>)
    ensures
        events_match(r@, each_i32(items@)),
{
    let mut r: Vec<Event> = Vec::new();
    let mut k: usize = 0;
    while k < items.len()
        invariant
            k <= items@.len(),
            r@.len() == k,
            forall|i: int| 0 <= i < k ==> #[trigger] event_matches(r@[i], each_i32(items@)[i]),
        decreases items.len() - k,
    {
        r.push(Event::I32(items[k]));
        k = k + 1;
    }
    r
}

/// One event for each item of `items`, in order.
fn report_u64s(items: &[u64]) -> (r: Vec<Event>)
    ensures
        events_match(r@, each_u64(items@)),
{
    let mut r: Vec<Event> = Vec::new();
    let mut k: usize = 0;
    while k < items.len()
        invariant
            k <= items@.len(),
            r@.len() == k,
            forall|i: int| 0 <= i < k ==> #[trigger] event_matches(r@[i], each_u64(items@)[i]),
        decreases items.len() - k,
    {
        r.push(Event::U64(items[k]));
        k = k + 1;
    }
    r
}

/// One event for each item of `items`, in order.
fn report_i16s(items: &[i16]) -> (r: Vec<Event>)
    ensures
        events_match(r@, each_i16(items@)),
{
    let mut r: Vec<Event> = Vec::new();
    let mut k: usize = 0;
    while k < items.len()
        invariant
            k <= items@.len(),
            r@.len() == k,
            forall|i: int| 0 <= i < k ==> #[trigger] event_matches(r@[i], each_i16(items@)[i]),
        decreases items.len() - k,
    {
        r.push(Event::I16(items[k]));
        k = k + 1;
    }
    r
}

/// One event for each item of `items`, in order.
fn report_u8s(items: &[u8]) -> (r: Vec<Event>)
    ensures
        events_match(r@, each_u8(items@)),
{
    let mut r: Vec<Event> = Vec::new();
    let mut k: usize = 0;
    while k < items.len()
        invariant
            k <= items@.len(),
            r@.len() == k,
            forall|i: int| 0 <= i < k ==> #[trigger] event_matches(r@[i], each_u8(items@)[i]),
        decreases items.len() - k,
    {
        r.push(Event::U8(items[k]));
        k = k + 1;
    }
    r
}

/// The character at `k`.
fn char_of(items: &[char], k: usize) -> (c: char)
    requires
        k < items@.len(),
    ensures
        c == items@[k as int],
{
    items[k]
}

/// One event for each item of `items`, in order.
fn report_chars(items: &[char]) -> (r: Vec<Event>)
    ensures
        events_match(r@, each_char(items@)),
{
    let mut r: Vec<Event> = Vec::new();
    let mut k: usize = 0;
    while k < items.len()
        invariant
            k <= items@.len(),
            r@.len() == k,
            forall|i: int| 0 <= i < k ==> #[trigger] event_matches(r@[i], each_char(items@)[i]),
        decreases items.len() - k,
    {
        let c = char_of(items, k);
        r.push(Event::Char(c));
        k = k + 1;
    }
    r
}

/// One event for each item of `items`, in order.
fn report_bools(items: &[bool]) -> (r: Vec<Event>)
    ensures
        events_match(r@, each_bool(items@)),
{
    let mut r: Vec<Event> = Vec::new();
    let mut k: usize = 0;
    while k < items.len()
        invariant
            k <= items@.len(),
            r@.len() == k,
            forall|i: int| 0 <= i < k ==> #[trigger] event_matches(r@[i], each_bool(items@)[i]),
        decreases items.len() - k,
    {
        r.push(Event::Bool(items[k]));
        k = k + 1;
    }
    r
}

/// One event for each item of `items`, in order.
fn report_i64s(items: &[i64]) -> (r: Vec<Event>)
    ensures
        events_match(r@, each_i64(items@)),
{
    let mut r: Vec<Event> = Vec::new();
    let mut k: usize = 0;
    while k < items.len()
        invariant
            k <= items@.len(),
            r@.len() == k,
            forall|i: int| 0 <= i < k ==> #[trigger] event_matches(r@[i], each_i64(items@)[i]),
        decreases items.len() - k,
    {
        r.push(Event::I64(items[k]));
        k = k + 1;
    }
    r
}

/// One event for each item of `items`, in order.
fn report_u128s(items: &[u128]) -> (r: Vec<Event>)
    ensures
        events_match(r@, each_u128(items@)),
{
    let mut r: Vec<Event> = Vec::new();
    let mut k: usize = 0;
    while k < items.len()
        invariant
            k <= items@.len(),
            r@.len() == k,
            forall|i: int| 0 <= i < k ==> #[trigger] event_matches(r@[i], each_u128(items@)[i]),
        decreases items.len() - k,
    {
        r.push(Event::U128(items[k]));
        k = k + 1;
    }
    r
}

/// One event for each item of `items`, in order.
fn report_texts(items: &[String]) -> (r: Vec<Event>)
    ensures
        events_match(r@, each_text(texts(items@))),
{
    let mut r: Vec<Event> = Vec::new();
    let mut k: usize = 0;
    while k < items.len()
        invariant
            k <= items@.len(),
            r@.len() == k,
            forall|i: int| 0 <= i < k ==> #[trigger] event_matches(r@[i], each_text(texts(items@))[i]),
        decreases items.len() - k,
    {
        r.push(Event::Text(items[k].clone()));
        k = k + 1;
    }
    r
}

/// One event for each item of `items`, in order.
fn report_byte_vecs(items: &[Vec<u8>]) -> (r: Vec<Event>)
    ensures
        events_match(r@, each_bytes(contents(items@))),
{
    let mut r: Vec<Event> = Vec::new();
    let mut k: usize = 0;
    while k < items.len()
        invariant
            k <= items@.len(),
            r@.len() == k,
            forall|i: int| 0 <= i < k ==> #[trigger] event_matches(r@[i], each_bytes(contents(items@))[i]),
        decreases items.len() - k,
    {
        r.push(Event::Bytes(vstd::slice::slice_to_vec(items[k].as_slice())));
        k = k + 1;
    }
    r
}

/// One event for each item of `items`, in order.
fn report_u16s(items: &[u16]) -> (r: Vec<Event>)
    ensures
        events_match(r@, each_u16(items@)),
{
    let mut r: Vec<Event> = Vec::new();
    let mut k: usize = 0;
    while k < items.len()
        invariant
            k <= items@.len(),
            r@.len() == k,
            forall|i: int| 0 <= i < k ==> #[trigger] event_matches(r@[i], each_u16(items@)[i]),
        decreases items.len() - k,
    {
        r.push(Event::U16(items[k]));
        k = k + 1;
    }
    r
}

/// One event for each item of `items`, in order.
fn report_isizes(items: &[isize]) -> (r: Vec<Event>)
    ensures
        events_match(r@, each_isize(items@)),
{
    let mut r: Vec<Event> = Vec::new();
    let mut k: usize = 0;
    while k < items.len()
        invariant
            k <= items@.len(),
            r@.len() == k,
            forall|i: int| 0 <= i < k ==> #[trigger] event_matches(r@[i], each_isize(items@)[i]),
        decreases items.len() - k,
    {
        r.push(Event::Isize(items[k]));
        k = k + 1;
    }
    r
}

/// One event for each item of `items`, in order.
fn report_i8s(items: &[i8]) -> (r: Vec<Event>)
    ensures
        events_match(r@, each_i8(items@)),
{
    let mut r: Vec<Event> = Vec::new();
    let mut k: usize = 0;
    while k < items.len()
        invariant
            k <= items@.len(),
            r@.len() == k,
            forall|i: int| 0 <= i < k ==> #[trigger] event_matches(r@[i], each_i8(items@)[i]),
        decreases items.len() - k,
    {
        r.push(Event::I8(items[k]));
        k = k + 1;
    }
    r
}

/// One event for each item of `items`, in order.
fn report_usizes(items: &[usize]) -> (r: Vec<Event>)
    ensures
        events_match(r@, each_usize(items@)),
{
    let mut r: Vec<Event> = Vec::new();
    let mut k: usize = 0;
    while k < items.len()
        invariant
            k <= items@.len(),
            r@.len() == k,
            forall|i: int| 0 <= i < k ==> #[trigger] event_matches(r@[i], each_usize(items@)[i]),
        decreases items.len() - k,
    {
        r.push(Event::Usize(items[k]));
        k = k + 1;
    }
    r
}

/// `e`, reported after events that match `owed`.
fn push_event(events: &mut Vec<Event>, owed: Ghost<Seq<Expect>>, e: Event, x: Ghost<Expect>)
    requires
        events_match(old(events)@, owed@),
        event_matches(e, x@),
    ensures
        events_match(final(events)@, owed@.push(x@)),
{
    events.push(e);
    assert(forall|i: int| 0 <= i < events@.len() ==> #[trigger] event_matches(events@[i], owed@.push(x@)[i]));
}

/// `more`, reported after events that match `owed`.
fn append_events(events: &mut Vec<Event>, owed: Ghost<Seq<Expect>>, more: Vec<Event>, more_owed: Ghost<Seq<Expect>>)
    requires
        events_match(old(events)@, owed@),
        events_match(more@, more_owed@),
    ensures
        events_match(final(events)@, owed@ + more_owed@),
{
    proof {
        lemma_events_match_append(events@, owed@, more@, more_owed@);
    }
    let mut more = more;
    events.append(&mut more);
}

/// Whether `n` items of `size` bytes overflow the size computation (see
/// `too_big`).
fn too_big_exec(n: usize, size: usize) -> (r: bool)
    requires
        size > 0,
    ensures
        r == too_big(n as nat, size as nat),
{
    let lim = (isize::MAX as usize) / size;
    assert((n > lim) == (n * size > isize::MAX)) by (nonlinear_arith)
        requires
            size > 0,
            lim == isize::MAX as int / size as int,
    ;
    n > lim
}

/// The vector of operation 0 (see `built_0`); where its capacity is left
/// open, the one it got.
fn build_0(g: &[u8], i: usize) -> (r: Result<(SmallVecU32, Ghost<nat>), Halt>)
    requires
        i < 65,
        fits(g@, 70 + i, 1),
    ensures
        match r {
            Ok((v, c)) => v.wf() && built_0(g@, i as int, c@) == Ok::<(Seq<u32>, nat), Halt>(
                (sv_u32_items(v), sv_u32_cap(v)),
            ),
            Err(h) => built_0(g@, i as int, 0) == Err::<(Seq<u32>, nat), Halt>(h),
        },
{
    let choice = g[70 + i] % 3;
    if choice == 0 {
        let n0 = match read_usize(g, 80 + 8 * i) {
            Some(x) => x,
            None => return Err(Halt::InputExhausted),
        };
        if exact_growth_overflows_exec(0, 16, n0, 4) {
            return Err(Halt::CapacityOverflow);
        }
        let v = small_vec_u32_with_capacity(n0);
        Ok((v, Ghost(0)))
    } else if choice == 1 {
        let e = match read_u32(g, 88 + 4 * i) {
            Some(x) => x,
            None => return Err(Halt::InputExhausted),
        };
        let n = match read_usize(g, 92 + 8 * i) {
            Some(x) => x,
            None => return Err(Halt::InputExhausted),
        };
        if n > 16 && too_big_exec(n, 4) {
            return Err(Halt::CapacityOverflow);
        }
        let v = small_vec_u32_from_elem(e, n);
        Ok((v, Ghost(sv_u32_cap(v))))
    } else {
        let e = match read_u32(g, 100 + 4 * i) {
            Some(x) => x,
            None => return Err(Halt::InputExhausted),
        };
        let n = match read_u8(g, 104 + i) {
            Some(x) => x % 15,
            None => return Err(Halt::InputExhausted),
        };
        let w = vec_of_copies_u32(e, n as usize);
        let v = small_vec_u32_from_vec(w);
        Ok((v, Ghost(sv_u32_cap(v))))
    }
}

/// `vec![e; n]`.
fn vec_of_copies_u32(e: u32, n: usize) -> (r: Vec<u32>)
    ensures
        r@ == repeat(e, n as nat),
{
    let mut w: Vec<u32> = Vec::new();
    let mut k: usize = 0;
    while k < n
        invariant
            k <= n,
            w@ == repeat(e, k as nat),
        decreases n - k,
    {
        w.push(e);
        k = k + 1;
        assert(w@ =~= repeat(e, k as nat));
    }
    w
}

/// Operation 0 (see `op_0`); the capacity the constructor left open is the
/// choice.
fn run_op_0(g: &[u8], i: usize) -> (r: (Vec<Event>, Option<Halt>, Ghost<nat>))
    requires
        i < 65,
    ensures
        events_match(r.0@, op_0(g@, i as int, r.2@).0),
        r.1 == op_0(g@, i as int, r.2@).1,
{
    if 70 + i >= g.len() {
        return (Vec::new(), Some(Halt::InputExhausted), Ghost(0));
    }
    let (v, Ghost(c)) = match build_0(g, i) {
        Ok(x) => x,
        Err(h) => return (Vec::new(), Some(h), Ghost(0)),
    };
    let ghost items = sv_u32_items(v);
    let ghost cap = sv_u32_cap(v);
    let mut events = report_u32s(small_vec_u32_as_slice(&v));
    let ghost owed = each_u32(items);
    push_event(&mut events, Ghost(owed), Event::Flag(small_vec_u32_spilled(&v)), Ghost(Expect::Flag(cap > 16)));
    let ghost owed = owed.push(Expect::Flag(cap > 16));
    push_event(&mut events, Ghost(owed), Event::Count(small_vec_u32_len(&v)), Ghost(Expect::Count(items.len())));
    let ghost owed = owed.push(Expect::Count(items.len()));
    push_event(&mut events, Ghost(owed), Event::Count(small_vec_u32_capacity(&v)), Ghost(Expect::Count(cap)));
    let ghost owed = owed.push(Expect::Count(cap));
    let whole = vstd::slice::slice_to_vec(small_vec_u32_as_slice(&v));
    push_event(&mut events, Ghost(owed), Event::U32s(whole), Ghost(Expect::U32s(items)));
    let ghost owed = owed.push(Expect::U32s(items));
    assert(owed =~= op_0(g@, i as int, c).0);
    (events, None, Ghost(c))
}

/// Operation 1 (see `op_1`).
#[verifier::loop_isolation(false)]
fn run_op_1(g: &[u8], i: usize) -> (r: (Vec<Event>, Option<Halt>))
    requires
        i < 65,
    ensures
        events_match(r.0@, op_1(g@, i as int).0),
        r.1 == op_1(g@, i as int).1,
{
    let n0 = match read_usize(g, 110 + 8 * i) {
        Some(x) => x,
        None => return (Vec::new(), Some(Halt::InputExhausted)),
    };
    if exact_growth_overflows_exec(0, 20, n0, 4) {
        return (Vec::new(), Some(Halt::CapacityOverflow));
    }
    let mut v = i32n20::small_vec_i32n20_with_capacity(n0);
    let n = match read_u8(g, 118 + i) {
        Some(x) => x % 25,
        None => return (Vec::new(), Some(Halt::InputExhausted)),
    };
    let values = match read_i32s(g, 120, 4, n as usize) {
        Some(w) => w,
        None => return (Vec::new(), Some(Halt::InputExhausted)),
    };
    let ghost cap0 = i32n20::sv_i32n20_cap(v);
    let mut j: usize = 0;
    while j < values.len()
        invariant
            j <= values@.len() <= 24,
            v.wf(),
            i32n20::sv_i32n20_items(v) == values@.take(j as int),
            i32n20::sv_i32n20_cap(v) == pushes_cap(0, cap0, j as nat),
        decreases values.len() - j,
    {
        proof {
            broadcast use vstd::layout::layout_of_primitives;
            lemma_small_push(j as nat, i32n20::sv_i32n20_cap(v), vstd::layout::size_of::<i32>());
        }
        i32n20::small_vec_i32n20_push(&mut v, values[j]);
        j = j + 1;
        assert(i32n20::sv_i32n20_items(v) =~= values@.take(j as int));
    }
    assert(values@.take(values@.len() as int) =~= values@);
    let ghost cap = i32n20::sv_i32n20_cap(v);
    let mut events = report_i32s(i32n20::small_vec_i32n20_as_slice(&v));
    let ghost owed = each_i32(values@);
    push_event(&mut events, Ghost(owed), Event::Count(i32n20::small_vec_i32n20_len(&v)), Ghost(Expect::Count(n as nat)));
    let ghost owed = owed.push(Expect::Count(n as nat));
    let c = i32n20::small_vec_i32n20_capacity(&v);
    push_event(&mut events, Ghost(owed), Event::Count(c), Ghost(Expect::Count(cap)));
    let ghost owed = owed.push(Expect::Count(cap));
    push_event(&mut events, Ghost(owed), Event::Flag(i32n20::small_vec_i32n20_is_empty(&v)), Ghost(Expect::Flag(n == 0)));
    let ghost owed = owed.push(Expect::Flag(n == 0));
    assert(owed =~= each_i32(i32s_at(g@, 120, 4, n as nat)) + seq![
        Expect::Count(n as nat),
        Expect::Count(cap),
        Expect::Flag(n == 0),
    ]);
    let r = match read_usize(g, 130 + 8 * i) {
        Some(x) => x,
        None => return (events, Some(Halt::InputExhausted)),
    };
    let len = i32n20::small_vec_i32n20_len(&v);
    if growth_overflows_exec(len, c, r, 4) {
        return (events, Some(Halt::CapacityOverflow));
    }
    proof {
        broadcast use vstd::layout::layout_of_primitives;
    }
    i32n20::small_vec_i32n20_reserve(&mut v, r);
    i32n20::small_vec_i32n20_shrink_to_fit(&mut v);
    (events, None)
}

/// Operation 2 (see `op_2`).
fn run_op_2(g: &[u8]) -> (r: (Vec<Event>, Option<Halt>))
    ensures
        events_match(r.0@, op_2(g@).0),
        r.1 == op_2(g@).1,
{
    if g.len() < 174 {
        return (Vec::new(), Some(Halt::InputExhausted));
    }
    let a = _to_u64(g, 150);
    let b = _to_u64(g, 158);
    let c = _to_u64(g, 166);
    let words = vec![a, b, c];
    proof {
        broadcast use vstd::layout::layout_of_primitives;
    }
    let v = u64n12::small_vec_u64n12_from_slice(words.as_slice());
    let ghost w = words_2(g@);
    assert(words@ =~= w);
    let mut events = report_u64s(u64n12::small_vec_u64n12_as_slice(&v));
    let ghost owed = each_u64(w);
    let whole = vstd::slice::slice_to_vec(u64n12::small_vec_u64n12_as_slice(&v));
    push_event(&mut events, Ghost(owed), Event::U64s(whole), Ghost(Expect::U64s(w)));
    let ghost owed = owed.push(Expect::U64s(w));
    let twin = u64n12::small_vec_u64n12_clone(&v);
    let order = u64n12::small_vec_u64n12_compare(&v, &twin);
    proof {
        law_lex_order_reflexive(u64n12::u64_ints(w));
    }
    push_event(&mut events, Ghost(owed), Event::Compared(order), Ghost(Expect::Compared(Order::Equal)));
    let ghost owed = owed.push(Expect::Compared(Order::Equal));
    push_event(&mut events, Ghost(owed), Event::Ptr(u64n12::small_vec_u64n12_as_ptr(&v)), Ghost(Expect::Ptr));
    let ghost owed = owed.push(Expect::Ptr);
    assert(owed =~= op_2(g@).0);
    (events, None)
}

/// Operation 4 (see `op_4`).
fn run_op_4(g: &[u8]) -> (r: (Vec<Event>, Option<Halt>))
    ensures
        events_match(r.0@, op_4(g@).0),
        r.1 == op_4(g@).1,
{
    if g.len() < 188 {
        return (Vec::new(), Some(Halt::InputExhausted));
    }
    let a = _to_i16(g, 180);
    let b = _to_i16(g, 182);
    let c = _to_i16(g, 184);
    let d = _to_i16(g, 186);
    let shorts = vec![a, b, c, d];
    let ghost w = shorts_4(g@);
    assert(shorts@ =~= w);
    proof {
        broadcast use vstd::layout::layout_of_primitives;
    }
    let v = i16n15::small_vec_i16n15_from_slice(shorts.as_slice());
    let mut events = report_i16s(i16n15::small_vec_i16n15_as_slice(&v));
    let ghost owed = each_i16(w);
    push_event(&mut events, Ghost(owed), Event::Flag(i16n15::small_vec_i16n15_spilled(&v)), Ghost(Expect::Flag(false)));
    let ghost owed = owed.push(Expect::Flag(false));
    let whole = vstd::slice::slice_to_vec(i16n15::small_vec_i16n15_deref(&v));
    push_event(&mut events, Ghost(owed), Event::I16s(whole), Ghost(Expect::I16s(w)));
    let ghost owed = owed.push(Expect::I16s(w));
    let again = vstd::slice::slice_to_vec(i16n15::small_vec_i16n15_as_ref(&v));
    push_event(&mut events, Ghost(owed), Event::I16s(again), Ghost(Expect::I16s(w)));
    let ghost owed = owed.push(Expect::I16s(w));
    assert(owed =~= op_4(g@).0);
    (events, None)
}

/// Operation 5 (see `op_5`); the capacity that copies which do not fit
/// inline got is the choice.
fn run_op_5(g: &[u8]) -> (r: (Vec<Event>, Option<Halt>, Ghost<nat>))
    ensures
        events_match(r.0@, op_5(g@, r.2@).0),
        r.1 == op_5(g@, r.2@).1,
{
    if g.len() < 199 {
        return (Vec::new(), Some(Halt::InputExhausted), Ghost(0));
    }
    let e = g[190];
    let n = _to_usize(g, 191);
    if n > 32 && too_big_exec(n, 1) {
        return (Vec::new(), Some(Halt::CapacityOverflow), Ghost(0));
    }
    let mut v = small_vec_u8n32_from_elem(e, n);
    let ghost c = sv_u8n32_cap(v);
    let events = report_u8s(small_vec_u8n32_as_slice(&v));
    let ghost shown = each_u8(repeat(e, n as nat));
    let t = match read_usize(g, 195) {
        Some(x) => x,
        None => return (events, Some(Halt::InputExhausted), Ghost(c)),
    };
    small_vec_u8n32_truncate(&mut v, t);
    let r = match read_usize(g, 197) {
        Some(x) => x,
        None => return (events, Some(Halt::InputExhausted), Ghost(c)),
    };
    let len = small_vec_u8n32_len(&v);
    if growth_overflows_exec(len, small_vec_u8n32_capacity(&v), r, 1) {
        return (events, Some(Halt::CapacityOverflow), Ghost(c));
    }
    small_vec_u8n32_reserve(&mut v, r);
    small_vec_u8n32_shrink_to_fit(&mut v);
    if len == 0 {
        return (events, None, Ghost(c));
    }
    let k = match read_usize(g, 199) {
        Some(x) => x % len,
        None => return (events, Some(Halt::InputExhausted), Ghost(c)),
    };
    let removed = small_vec_u8n32_remove(&mut v, k);
    let mut events = events;
    push_event(&mut events, Ghost(shown), Event::U8(removed), Ghost(Expect::U8(e)));
    (events, None, Ghost(c))
}

/// Operation 6 (see `op_6`).
#[verifier::loop_isolation(false)]
fn run_op_6(g: &[u8]) -> (r: (Vec<Event>, Option<Halt>))
    ensures
        events_match(r.0@, op_6(g@).0),
        r.1 == op_6(g@).1,
{
    let n = match read_u8(g, 200) {
        Some(x) => x % 30,
        None => return (Vec::new(), Some(Halt::InputExhausted)),
    };
    let mut v = charn24::small_vec_charn24_new();
    let mut j: u8 = 0;
    while j < n
        invariant
            j <= n < 30,
            v.wf(),
            charn24::sv_charn24_items(v).len() == j,
            forall|k: int| 0 <= k < j ==> (#[trigger] charn24::sv_charn24_items(v)[k]) as u32 == be_u32(g@, 201 + 4 * k),
            chars_halt(g@, 201, 0, n as nat) == chars_halt(g@, 201, j as nat, n as nat),
        decreases n - j,
    {
        let c = match read_char(g, 201 + 4 * j as usize) {
            Ok(c) => c,
            Err(h) => return (Vec::new(), Some(h)),
        };
        proof {
            broadcast use vstd::layout::layout_of_primitives;
            lemma_small_push(j as nat, charn24::sv_charn24_cap(v), vstd::layout::size_of::<char>());
        }
        charn24::small_vec_charn24_push(&mut v, c);
        j = j + 1;
    }
    let ghost codes = codes_at(g@, 201, n as nat);
    let ghost items = charn24::sv_charn24_items(v);
    assert(each_char(items) =~= each_code(codes));
    let mut events = report_chars(charn24::small_vec_charn24_as_slice(&v));
    let ghost owed = each_code(codes);
    let len = charn24::small_vec_charn24_len(&v);
    if len > 0 {
        let k = match read_usize(g, 230) {
            Some(x) => x % len,
            None => return (events, Some(Halt::InputExhausted)),
        };
        let c = char_of(charn24::small_vec_charn24_as_slice(&v), k);
        push_event(&mut events, Ghost(owed), Event::Char(c), Ghost(Expect::Char(codes[k as int])));
        proof {
            owed = owed.push(Expect::Char(codes[k as int]));
        }
    }
    charn24::small_vec_charn24_clear(&mut v);
    let m = match read_u8(g, 240) {
        Some(x) => x % 20,
        None => return (events, Some(Halt::InputExhausted)),
    };
    let mut j: u8 = 0;
    while j < m
        invariant
            j <= m < 20,
            v.wf(),
            charn24::sv_charn24_items(v).len() == j,
            chars_halt(g@, 241, 0, m as nat) == chars_halt(g@, 241, j as nat, m as nat),
        decreases m - j,
    {
        let c = match read_char(g, 241 + 4 * j as usize) {
            Ok(c) => c,
            Err(h) => return (events, Some(h)),
        };
        proof {
            broadcast use vstd::layout::layout_of_primitives;
            lemma_small_push(j as nat, charn24::sv_charn24_cap(v), vstd::layout::size_of::<char>());
        }
        charn24::small_vec_charn24_push(&mut v, c);
        j = j + 1;
    }
    (events, None)
}

/// The eighteen flags of operation 7, as an array.
fn flags_at_245(g: &[u8]) -> (buf: [bool; 18])
    requires
        g@.len() >= 263,
    ensures
        buf@ == flags_7(g@),
{
    let mut buf = [false; 18];
    let mut k: usize = 0;
    while k < 18
        invariant
            k <= 18,
            g@.len() >= 263,
            forall|j: int| 0 <= j < k ==> buf@[j] == (g@[245 + j] % 2 == 0),
        decreases 18 - k,
    {
        buf[k] = g[245 + k] % 2 == 0;
        k = k + 1;
    }
    assert(buf@ =~= flags_7(g@));
    buf
}

/// Operation 7 (see `op_7`).
fn run_op_7(g: &[u8]) -> (r: (Vec<Event>, Option<Halt>))
    ensures
        events_match(r.0@, op_7(g@).0),
        r.1 == op_7(g@).1,
{
    if g.len() < 263 {
        return (Vec::new(), Some(Halt::InputExhausted));
    }
    let buf = flags_at_245(g);
    let ghost w = flags_7(g@);
    let v = booln18::small_vec_booln18_from_buf(buf);
    let mut events = report_bools(booln18::small_vec_booln18_as_slice(&v));
    let ghost owed = each_bool(w);
    let whole = vstd::slice::slice_to_vec(booln18::small_vec_booln18_as_ref(&v));
    push_event(&mut events, Ghost(owed), Event::Bools(whole), Ghost(Expect::Bools(w)));
    let ghost owed = owed.push(Expect::Bools(w));
    let all = booln18::small_vec_booln18_into_vec(v);
    push_event(&mut events, Ghost(owed), Event::Bools(all), Ghost(Expect::Bools(w)));
    let ghost owed = owed.push(Expect::Bools(w));
    assert(owed =~= op_7(g@).0);
    (events, None)
}

/// Operation 8 (see `op_8`).
fn run_op_8(g: &[u8]) -> (r: (Vec<Event>, Option<Halt>))
    ensures
        events_match(r.0@, op_8(g@).0),
        r.1 == op_8(g@).1,
{
    if g.len() < 274 {
        return (Vec::new(), Some(Halt::InputExhausted));
    }
    let longs = vec![_to_i64(g, 250), _to_i64(g, 258), _to_i64(g, 266)];
    let ghost w = longs_8(g@);
    assert(longs@ =~= w);
    proof {
        broadcast use vstd::layout::layout_of_primitives;
    }
    let v = i64n14::small_vec_i64n14_from_iter(longs);
    let mut events = report_i64s(i64n14::small_vec_i64n14_as_slice(&v));
    let ghost owed = each_i64(w);
    push_event(&mut events, Ghost(owed), Event::Ptr(i64n14::small_vec_i64n14_as_ptr(&v)), Ghost(Expect::Ptr));
    let ghost owed = owed.push(Expect::Ptr);
    let boxed = i64n14::small_vec_i64n14_into_boxed_slice(v);
    let whole = vstd::slice::slice_to_vec(&*boxed);
    push_event(&mut events, Ghost(owed), Event::I64s(whole), Ghost(Expect::I64s(w)));
    let ghost owed = owed.push(Expect::I64s(w));
    assert(owed =~= op_8(g@).0);
    (events, None)
}

/// Operation 9 (see `op_9`).
fn run_op_9(g: &[u8]) -> (r: (Vec<Event>, Option<Halt>))
    ensures
        events_match(r.0@, op_9(g@).0),
        r.1 == op_9(g@).1,
{
    if g.len() < 302 {
        return (Vec::new(), Some(Halt::InputExhausted));
    }
    let huge = vec![_to_u128(g, 270), _to_u128(g, 286)];
    let ghost w = seq![u128_at(g@, 270), u128_at(g@, 286)];
    assert(huge@ =~= w);
    let v = u128n12::small_vec_u128n12_to_small_vec(huge.as_slice());
    let mut events = report_u128s(u128n12::small_vec_u128n12_as_slice(&v));
    let ghost owed = each_u128(w);
    let e = match u128n12::small_vec_u128n12_into_inner(v) {
        Ok(_array) => Event::GotArray,
        Err(_back) => Event::GotVecBack,
    };
    push_event(&mut events, Ghost(owed), e, Ghost(Expect::GotVecBack));
    (events, None)
}

/// The texts of `prefix`, followed by those of `rest` where reading them did
/// not stop.
pub open spec fn then_texts(prefix: Seq<Seq<char>>, rest: Result<Seq<Seq<char>>, Halt>) -> Result<Seq<Seq<char>>, Halt> {
    match rest {
        Ok(r) => Ok(prefix + r),
        Err(h) => Err(h),
    }
}

/// One more text read moves from the rest to the prefix.
proof fn lemma_texts_step(g: Seq<u8>, j: nat, count: nat, prefix: Seq<Seq<char>>, t: Seq<char>)
    requires
        j < count,
        text_of(g, 300 + 10 * j as int, 8) == Ok::<Seq<char>, Halt>(t),
    ensures
        then_texts(prefix, texts_from(g, j, count)) == then_texts(prefix.push(t), texts_from(g, j + 1, count)),
{
    match texts_from(g, j + 1, count) {
        Ok(rest) => {
            assert(prefix + (seq![t] + rest) =~= prefix.push(t) + rest);
        },
        Err(_) => {},
    }
}

/// Operation 10 (see `op_10`).
#[verifier::loop_isolation(false)]
fn run_op_10(g: &[u8], i: usize) -> (r: (Vec<Event>, Option<Halt>))
    requires
        i < 65,
    ensures
        events_match(r.0@, op_10(g@, i as int).0),
        r.1 == op_10(g@, i as int).1,
{
    let n0 = match read_usize(g, 280 + 8 * i) {
        Some(x) => x,
        None => return (Vec::new(), Some(Halt::InputExhausted)),
    };
    if exact_growth_overflows_exec(0, 16, n0, core::mem::size_of::<String>()) {
        return (Vec::new(), Some(Halt::CapacityOverflow));
    }
    let mut v = stringn16::small_vec_stringn16_with_capacity(n0);
    let cnt = match read_u8(g, 290 + i) {
        Some(x) => x % 10,
        None => return (Vec::new(), Some(Halt::InputExhausted)),
    };
    assert(Seq::<Seq<char>>::empty() + Seq::<Seq<char>>::empty() =~= Seq::<Seq<char>>::empty());
    assert(texts(stringn16::sv_stringn16_items(v)) =~= Seq::<Seq<char>>::empty());
    assert(then_texts(Seq::empty(), texts_from(g@, 0, cnt as nat)) == texts_from(g@, 0, cnt as nat)) by {
        match texts_from(g@, 0, cnt as nat) {
            Ok(r) => {
                assert(Seq::<Seq<char>>::empty() + r =~= r);
            },
            Err(_) => {},
        }
    }
    let mut j: u8 = 0;
    while j < cnt
        invariant
            j <= cnt < 10,
            v.wf(),
            stringn16::sv_stringn16_items(v).len() == j,
            texts_from(g@, 0, cnt as nat) == then_texts(texts(stringn16::sv_stringn16_items(v)), texts_from(g@, j as nat, cnt as nat)),
        decreases cnt - j,
    {
        let t = match read_text(g, 300 + 10 * j as usize, 8) {
            Ok(t) => t,
            Err(h) => return (Vec::new(), Some(h)),
        };
        proof {
            lemma_texts_step(g@, j as nat, cnt as nat, texts(stringn16::sv_stringn16_items(v)), t@);
        }
        let ghost before = stringn16::sv_stringn16_items(v);
        stringn16::small_vec_stringn16_push(&mut v, t);
        assert(texts(stringn16::sv_stringn16_items(v)) =~= texts(before).push(t@));
        j = j + 1;
    }
    let ghost ts = texts(stringn16::sv_stringn16_items(v));
    assert(ts + Seq::<Seq<char>>::empty() =~= ts);
    let mut events = report_texts(stringn16::small_vec_stringn16_as_slice(&v));
    let len = stringn16::small_vec_stringn16_len(&v);
    if len > 0 {
        let k = match read_usize(g, 320 + 8 * i) {
            Some(x) => x % len,
            None => return (events, Some(Halt::InputExhausted)),
        };
        let removed = stringn16::small_vec_stringn16_swap_remove(&mut v, k);
        push_event(&mut events, Ghost(each_text(ts)), Event::Text(removed), Ghost(Expect::Text(ts[k as int])));
    }
    (events, None)
}

/// The byte vectors of `prefix`, followed by those of `rest` where reading
/// them did not stop.
pub open spec fn then_vecs(prefix: Seq<Seq<u8>>, rest: Result<Seq<Seq<u8>>, Halt>) -> Result<Seq<Seq<u8>>, Halt> {
    match rest {
        Ok(r) => Ok(prefix + r),
        Err(h) => Err(h),
    }
}

/// The bytes of `items`, copied out.
fn copy_byte_vecs(items: &[Vec<u8>]) -> (r: Vec<Vec<u8>>)
    ensures
        contents(r@) == contents(items@),
{
    let mut r: Vec<Vec<u8>> = Vec::new();
    let mut k: usize = 0;
    while k < items.len()
        invariant
            k <= items@.len(),
            r@.len() == k,
            forall|j: int| 0 <= j < k ==> (#[trigger] r@[j])@ == items@[j]@,
        decreases items.len() - k,
    {
        r.push(vstd::slice::slice_to_vec(items[k].as_slice()));
        k = k + 1;
    }
    assert(contents(r@) =~= contents(items@));
    r
}

/// Operation 11 (see `op_11`).
#[verifier::loop_isolation(false)]
fn run_op_11(g: &[u8], i: usize) -> (r: (Vec<Event>, Option<Halt>))
    requires
        i < 65,
    ensures
        events_match(r.0@, op_11(g@, i as int).0),
        r.1 == op_11(g@, i as int).1,
{
    let mut v = bytesn12::small_vec_bytesn12_new();
    let cnt = match read_u8(g, 350 + i) {
        Some(x) => x % 8,
        None => return (Vec::new(), Some(Halt::InputExhausted)),
    };
    assert(contents(bytesn12::sv_bytesn12_items(v)) =~= Seq::<Seq<u8>>::empty());
    assert(then_vecs(Seq::empty(), vecs_from(g@, 0, cnt as nat)) == vecs_from(g@, 0, cnt as nat)) by {
        match vecs_from(g@, 0, cnt as nat) {
            Ok(r) => {
                assert(Seq::<Seq<u8>>::empty() + r =~= r);
            },
            Err(_) => {},
        }
    }
    let mut j: usize = 0;
    while j < cnt as usize
        invariant
            j <= cnt < 8,
            v.wf(),
            bytesn12::sv_bytesn12_items(v).len() == j,
            vecs_from(g@, 0, cnt as nat) == then_vecs(contents(bytesn12::sv_bytesn12_items(v)), vecs_from(g@, j as nat, cnt as nat)),
        decreases cnt - j,
    {
        let size = match read_u8(g, 360 + j) {
            Some(x) => x % 5,
            None => return (Vec::new(), Some(Halt::InputExhausted)),
        };
        let mut w: Vec<u8> = Vec::new();
        let mut k: u8 = 0;
        while k < size
            invariant
                k <= size < 5,
                j < 8,
                w@ == bytes_at(g@, 370 + 5 * j as int, k as nat),
                k > 0 ==> fits(g@, 370 + 5 * j as int, k as int),
            decreases size - k,
        {
            let b = match read_u8(g, 370 + 5 * j + k as usize) {
                Some(x) => x,
                None => return (Vec::new(), Some(Halt::InputExhausted)),
            };
            w.push(b);
            k = k + 1;
            assert(w@ =~= bytes_at(g@, 370 + 5 * j as int, k as nat));
        }
        proof {
            let prefix = contents(bytesn12::sv_bytesn12_items(v));
            match vecs_from(g@, j as nat + 1, cnt as nat) {
                Ok(rest) => {
                    assert(prefix + (seq![w@] + rest) =~= prefix.push(w@) + rest);
                },
                Err(_) => {},
            }
        }
        let ghost before = bytesn12::sv_bytesn12_items(v);
        bytesn12::small_vec_bytesn12_push(&mut v, w);
        assert(contents(bytesn12::sv_bytesn12_items(v)) =~= contents(before).push(w@));
        j = j + 1;
    }
    let ghost vs = contents(bytesn12::sv_bytesn12_items(v));
    assert(vs + Seq::<Seq<u8>>::empty() =~= vs);
    let mut events = report_byte_vecs(bytesn12::small_vec_bytesn12_as_slice(&v));
    let all = bytesn12::small_vec_bytesn12_as_mut_slice(&mut v);
    let copies = copy_byte_vecs(&*all);
    push_event(&mut events, Ghost(each_bytes(vs)), Event::Vecs(copies), Ghost(Expect::Vecs(vs)));
    (events, None)
}

/// Operation 12 (see `op_12`); the capacity that copies which do not fit
/// inline got is the choice.
fn run_op_12(g: &[u8], i: usize) -> (r: (Vec<Event>, Option<Halt>, Ghost<nat>))
    requires
        i < 65,
    ensures
        events_match(r.0@, op_12(g@, i as int, r.2@).0),
        r.1 == op_12(g@, i as int, r.2@).1,
{
    let e = match read_i32(g, 400 + 4 * i) {
        Some(x) => x,
        None => return (Vec::new(), Some(Halt::InputExhausted), Ghost(0)),
    };
    let n = match read_usize(g, 410 + 8 * i) {
        Some(x) => x,
        None => return (Vec::new(), Some(Halt::InputExhausted), Ghost(0)),
    };
    if n > 20 && too_big_exec(n, 4) {
        return (Vec::new(), Some(Halt::CapacityOverflow), Ghost(0));
    }
    proof {
        broadcast use vstd::layout::layout_of_primitives;
    }
    let mut v = i32n20::small_vec_i32n20_from_elem(e, n);
    let ghost c = i32n20::sv_i32n20_cap(v);
    let events = report_i32s(i32n20::small_vec_i32n20_as_slice(&v));
    let ghost shown = each_i32(repeat(e, n as nat));
    let ne = match read_i32(g, 420 + 4 * i) {
        Some(x) => x,
        None => return (events, Some(Halt::InputExhausted), Ghost(c)),
    };
    let nn = match read_usize(g, 425 + 8 * i) {
        Some(x) => x,
        None => return (events, Some(Halt::InputExhausted), Ghost(c)),
    };
    if nn > n && growth_overflows_exec(n, i32n20::small_vec_i32n20_capacity(&v), nn - n, 4) {
        return (events, Some(Halt::CapacityOverflow), Ghost(c));
    }
    i32n20::small_vec_i32n20_resize(&mut v, nn, ne);
    assert(i32n20::sv_i32n20_items(v) =~= (if nn > n {
        repeat(e, n as nat) + repeat(ne, (nn - n) as nat)
    } else {
        repeat(e, nn as nat)
    }));
    let ds = match read_usize(g, 430 + 8 * i) {
        Some(x) => x,
        None => return (events, Some(Halt::InputExhausted), Ghost(c)),
    };
    let de = match read_usize(g, 435 + 8 * i) {
        Some(x) => x,
        None => return (events, Some(Halt::InputExhausted), Ghost(c)),
    };
    let len = i32n20::small_vec_i32n20_len(&v);
    let mut events = events;
    if ds < len {
        let end = if de < len { de } else { len };
        let start = if ds < end { ds } else { end };
        let ghost items = i32n20::sv_i32n20_items(v);
        let drained = i32n20::small_vec_i32n20_drain(&mut v, start, end);
        let more = report_i32s(drained.as_slice());
        append_events(&mut events, Ghost(shown), more, Ghost(each_i32(items.subrange(start as int, end as int))));
    } else {
        assert(shown + Seq::<Expect>::empty() =~= shown);
    }
    (events, None, Ghost(c))
}

/// Operation 14 (see `op_14`).
fn run_op_14(g: &[u8], i: usize) -> (r: (Vec<Event>, Option<Halt>))
    requires
        i < 65,
    ensures
        events_match(r.0@, op_14(g@, i as int).0),
        r.1 == op_14(g@, i as int).1,
{
    if g.len() < 484 {
        return (Vec::new(), Some(Halt::InputExhausted));
    }
    let bytes = vec![g[480], g[481], g[482], g[483]];
    assert(bytes@ =~= g@.subrange(480, 484));
    let mut v = u8n24::small_vec_u8n24_from_slice(bytes.as_slice());
    let events = report_u8s(u8n24::small_vec_u8n24_as_slice(&v));
    let at = match read_usize(g, 485 + 8 * i) {
        Some(x) => x,
        None => return (events, Some(Halt::InputExhausted)),
    };
    let b = match read_u8(g, 490 + i) {
        Some(x) => x,
        None => return (events, Some(Halt::InputExhausted)),
    };
    proof {
        broadcast use vstd::layout::layout_of_primitives;
    }
    if at <= u8n24::small_vec_u8n24_len(&v) {
        u8n24::small_vec_u8n24_insert(&mut v, at, b);
    }
    let x = match read_u8(g, 495) {
        Some(x) => x,
        None => return (events, Some(Halt::InputExhausted)),
    };
    let y = match read_u8(g, 496) {
        Some(x) => x,
        None => return (events, Some(Halt::InputExhausted)),
    };
    let more = vec![x, y];
    u8n24::small_vec_u8n24_extend_from_slice(&mut v, more.as_slice());
    (events, None)
}

/// Operation 15 (see `op_15`).
fn run_op_15(g: &[u8], i: usize) -> (r: (Vec<Event>, Option<Halt>))
    requires
        i < 65,
    ensures
        events_match(r.0@, op_15(g@, i as int).0),
        r.1 == op_15(g@, i as int).1,
{
    let e = match read_u16(g, 500 + 2 * i) {
        Some(x) => x,
        None => return (Vec::new(), Some(Halt::InputExhausted)),
    };
    let n = match read_usize(g, 510 + 8 * i) {
        Some(x) => x,
        None => return (Vec::new(), Some(Halt::InputExhausted)),
    };
    if n > 32 && too_big_exec(n, 2) {
        return (Vec::new(), Some(Halt::CapacityOverflow));
    }
    proof {
        broadcast use vstd::layout::layout_of_primitives;
    }
    let mut v = u16n32::small_vec_u16n32_from_elem(e, n);
    let events = report_u16s(u16n32::small_vec_u16n32_as_slice(&v));
    let op = match read_u8(g, 520 + i) {
        Some(x) => x,
        None => return (events, Some(Halt::InputExhausted)),
    };
    u16n32::small_vec_u16n32_retain_by(&mut v, op % 2 == 0);
    u16n32::small_vec_u16n32_dedup(&mut v);
    (events, None)
}

/// Operation 16 (see `op_16`).
#[verifier::loop_isolation(false)]
fn run_op_16(g: &[u8], i: usize) -> (r: (Vec<Event>, Option<Halt>))
    requires
        i < 65,
    ensures
        events_match(r.0@, op_16(g@, i as int).0),
        r.1 == op_16(g@, i as int).1,
{
    let z = core::mem::size_of::<isize>();
    proof {
        broadcast use vstd::layout::layout_of_primitives;
    }
    let n0 = match read_usize(g, 530 + 8 * i) {
        Some(x) => x,
        None => return (Vec::new(), Some(Halt::InputExhausted)),
    };
    if exact_growth_overflows_exec(0, 20, n0, z) {
        return (Vec::new(), Some(Halt::CapacityOverflow));
    }
    let mut v = isizen20::small_vec_isizen20_with_capacity(n0);
    let cnt = match read_u8(g, 540 + i) {
        Some(x) => x % 15,
        None => return (Vec::new(), Some(Halt::InputExhausted)),
    };
    let mut j: u8 = 0;
    while j < cnt
        invariant
            j <= cnt < 15,
            v.wf(),
            isizen20::sv_isizen20_items(v) == isizes_at(g@, 550, j as nat),
            j > 0 ==> fits(g@, 550 + 8 * (j - 1), 8),
        decreases cnt - j,
    {
        let x = match read_isize(g, 550 + 8 * j as usize) {
            Some(x) => x,
            None => return (Vec::new(), Some(Halt::InputExhausted)),
        };
        isizen20::small_vec_isizen20_push(&mut v, x);
        j = j + 1;
        assert(isizen20::sv_isizen20_items(v) =~= isizes_at(g@, 550, j as nat));
    }
    let events = report_isizes(isizen20::small_vec_isizen20_as_slice(&v));
    let gc = match read_usize(g, 570 + 8 * i) {
        Some(x) => x,
        None => return (events, Some(Halt::InputExhausted)),
    };
    if gc < isizen20::small_vec_isizen20_len(&v) {
        return (events, Some(Halt::OutOfRange));
    }
    if gc > 20 && too_big_exec(gc, z) {
        return (events, Some(Halt::CapacityOverflow));
    }
    isizen20::small_vec_isizen20_grow(&mut v, gc);
    let _hash_val = match read_usize(g, 580 + 8 * i) {
        Some(x) => x,
        None => return (events, Some(Halt::InputExhausted)),
    };
    let mut hasher = std::collections::hash_map::DefaultHasher::new();
    isizen20::small_vec_isizen20_hash(&v, &mut hasher);
    (events, None)
}

/// Operation 17 (see `op_17`).
fn run_op_17(g: &[u8]) -> (r: (Vec<Event>, Option<Halt>))
    ensures
        events_match(r.0@, op_17(g@).0),
        r.1 == op_17(g@).1,
{
    if g.len() < 593 {
        return (Vec::new(), Some(Halt::InputExhausted));
    }
    let bytes = vec![g[590], g[591], g[592]];
    let ghost w = g@.subrange(590, 593);
    assert(bytes@ =~= w);
    let v = u8n18::small_vec_u8n18_to_small_vec(bytes.as_slice());
    let mut events = report_u8s(u8n18::small_vec_u8n18_as_slice(&v));
    let ghost owed = each_u8(w);
    let whole = vstd::slice::slice_to_vec(u8n18::small_vec_u8n18_borrow(&v));
    push_event(&mut events, Ghost(owed), Event::U8s(whole), Ghost(Expect::U8s(w)));
    let ghost owed = owed.push(Expect::U8s(w));
    push_event(&mut events, Ghost(owed), Event::Flag(u8n18::small_vec_u8n18_eq(&v, &v)), Ghost(Expect::Flag(true)));
    let ghost owed = owed.push(Expect::Flag(true));
    assert(owed =~= op_17(g@).0);
    (events, None)
}

/// Operation 18 (see `op_18`).
fn run_op_18(g: &[u8], i: usize) -> (r: (Vec<Event>, Option<Halt>))
    requires
        i < 65,
    ensures
        events_match(r.0@, op_18(g@, i as int).0),
        r.1 == op_18(g@, i as int).1,
{
    if g.len() < 604 {
        return (Vec::new(), Some(Halt::InputExhausted));
    }
    let vals = vec![_to_i8(g, 600), _to_i8(g, 601), _to_i8(g, 602), _to_i8(g, 603)];
    let ghost w = tiny_18(g@);
    assert(vals@ =~= w);
    proof {
        broadcast use vstd::layout::layout_of_primitives;
    }
    let mut v = i8n25::small_vec_i8n25_from_ref_slice(vals.as_slice());
    let events = report_i8s(i8n25::small_vec_i8n25_as_slice(&v));
    let a = match read_i8(g, 610) {
        Some(x) => x,
        None => return (events, Some(Halt::InputExhausted)),
    };
    let b = match read_i8(g, 611) {
        Some(x) => x,
        None => return (events, Some(Halt::InputExhausted)),
    };
    let at = match read_usize(g, 615 + 8 * i) {
        Some(x) => x,
        None => return (events, Some(Halt::InputExhausted)),
    };
    if at <= i8n25::small_vec_i8n25_len(&v) {
        let more = vec![a, b];
        i8n25::small_vec_i8n25_insert_from_slice(&mut v, at, more.as_slice());
    }
    let mut events = events;
    push_event(&mut events, Ghost(each_i8(w)), Event::Ptr(i8n25::small_vec_i8n25_as_mut_ptr(&mut v)), Ghost(Expect::Ptr));
    (events, None)
}

/// The vector of operation 19 (see `built_19`).
fn build_19(g: &[u8], i: usize) -> (r: Result<n16::SmallVecNumbers16, Halt>)
    requires
        i < 65,
        fits(g@, 620 + i, 1),
    ensures
        match r {
            Ok(v) => v.wf() && built_19(g@, i as int) == Ok::<Seq<usize>, Halt>(n16::sv_n16_items(v)),
            Err(h) => built_19(g@, i as int) == Err::<Seq<usize>, Halt>(h),
        },
{
    let z = core::mem::size_of::<usize>();
    proof {
        broadcast use vstd::layout::layout_of_primitives;
    }
    let choice = g[620 + i] % 4;
    if choice == 0 {
        Ok(n16::small_vec_n16_new())
    } else if choice == 1 {
        let n0 = match read_usize(g, 630 + 8 * i) {
            Some(x) => x,
            None => return Err(Halt::InputExhausted),
        };
        if exact_growth_overflows_exec(0, 16, n0, z) {
            return Err(Halt::CapacityOverflow);
        }
        Ok(n16::small_vec_n16_with_capacity(n0))
    } else if choice == 2 {
        let e = match read_usize(g, 640 + 8 * i) {
            Some(x) => x,
            None => return Err(Halt::InputExhausted),
        };
        let n = match read_usize(g, 650 + 8 * i) {
            Some(x) => x,
            None => return Err(Halt::InputExhausted),
        };
        if n > 16 && too_big_exec(n, z) {
            return Err(Halt::CapacityOverflow);
        }
        Ok(n16::small_vec_n16_from_elem(e, n))
    } else {
        let a = match read_usize(g, 660) {
            Some(x) => x,
            None => return Err(Halt::InputExhausted),
        };
        let b = match read_usize(g, 668) {
            Some(x) => x,
            None => return Err(Halt::InputExhausted),
        };
        let pair = vec![a, b];
        let v = n16::small_vec_n16_from_slice(pair.as_slice());
        assert(n16::sv_n16_items(v) =~= seq![usize_at(g@, 660), usize_at(g@, 668)]);
        Ok(v)
    }
}

/// Operation 19 (see `op_19`).
fn run_op_19(g: &[u8], i: usize) -> (r: (Vec<Event>, Option<Halt>))
    requires
        i < 65,
    ensures
        events_match(r.0@, op_19(g@, i as int).0),
        r.1 == op_19(g@, i as int).1,
{
    if 620 + i >= g.len() {
        return (Vec::new(), Some(Halt::InputExhausted));
    }
    let v = match build_19(g, i) {
        Ok(v) => v,
        Err(h) => return (Vec::new(), Some(h)),
    };
    let ghost items = n16::sv_n16_items(v);
    let mut events = report_usizes(n16::small_vec_n16_as_slice(&v));
    let ghost owed = each_usize(items);
    push_event(&mut events, Ghost(owed), Event::Flag(n16::small_vec_n16_is_empty(&v)), Ghost(Expect::Flag(items.len() == 0)));
    let ghost owed = owed.push(Expect::Flag(items.len() == 0));
    push_event(&mut events, Ghost(owed), Event::Count(n16::small_vec_n16_inline_size(&v)), Ghost(Expect::Count(16)));
    let ghost owed = owed.push(Expect::Count(16));
    assert(owed =~= op_19(g@, i as int).0);
    (events, None)
}

/// The operation `op` at position `i` of the run (see `op_step`); the
/// capacity that operation 0, 5 or 12 got is the choice.
fn run_op(g: &[u8], i: usize, op: u8) -> (r: (Vec<Event>, Option<Halt>, Ghost<nat>))
    requires
        i < 65,
    ensures
        events_match(r.0@, op_step(g@, i as nat, op, r.2@).0),
        r.1 == op_step(g@, i as nat, op, r.2@).1,
{
    reveal(op_step);
    let none = Ghost(0nat);
    if op == 3 || op == 13 {
        let events = vec![Event::FloatOp(op, i)];
        proof {
            let x = op_step(g@, i as nat, op, 0).0;
            assert(forall|k: int| 0 <= k < events@.len() ==> #[trigger] event_matches(events@[k], x[k]));
        }
        return (events, None, none);
    }
    if op == 0 {
        return run_op_0(g, i);
    }
    if op == 5 {
        return run_op_5(g);
    }
    if op == 12 {
        return run_op_12(g, i);
    }
    let (events, halt) = if op == 1 {
        run_op_1(g, i)
    } else if op == 2 {
        run_op_2(g)
    } else if op == 4 {
        run_op_4(g)
    } else if op == 6 {
        run_op_6(g)
    } else if op == 7 {
        run_op_7(g)
    } else if op == 8 {
        run_op_8(g)
    } else if op == 9 {
        run_op_9(g)
    } else if op == 10 {
        run_op_10(g, i)
    } else if op == 11 {
        run_op_11(g, i)
    } else if op == 14 {
        run_op_14(g, i)
    } else if op == 15 {
        run_op_15(g, i)
    } else if op == 16 {
        run_op_16(g, i)
    } else if op == 17 {
        run_op_17(g)
    } else if op == 18 {
        run_op_18(g, i)
    } else {
        run_op_19(g, i)
    };
    (events, halt, none)
}

/// Once operation `k` has run without halting, the run's outcome is what was
/// owed so far and its events, followed by what the later operations owe.
proof fn lemma_run_continues(
    input_len: nat,
    g: Seq<u8>,
    k: nat,
    count: nat,
    done_cs: Seq<nat>,
    owed: Seq<Expect>,
    c: nat,
)
    requires
        forall|rest: Seq<nat>|
            #![trigger ops_from(g, k, count, rest)]
            script_outcome(input_len, g, done_cs + rest) == (
                owed + ops_from(g, k, count, rest).0,
                ops_from(g, k, count, rest).1,
            ),
        k < count,
        fits(g, 1 + k as int, 1),
        op_step(g, k, g[1 + k as int] % 20, c).1 is None,
    ensures
        ({
            let s = op_step(g, k, g[1 + k as int] % 20, c);
            forall|rest: Seq<nat>|
                #![trigger ops_from(g, k + 1, count, rest)]
                script_outcome(input_len, g, done_cs.push(c) + rest) == (
                    (owed + s.0) + ops_from(g, k + 1, count, rest).0,
                    ops_from(g, k + 1, count, rest).1,
                )
        }),
{
    let s = op_step(g, k, g[1 + k as int] % 20, c);
    assert forall|rest: Seq<nat>|
        #![trigger ops_from(g, k + 1, count, rest)]
        script_outcome(input_len, g, done_cs.push(c) + rest) == (
            (owed + s.0) + ops_from(g, k + 1, count, rest).0,
            ops_from(g, k + 1, count, rest).1,
        ) by {
        let full = seq![c] + rest;
        assert(done_cs.push(c) + rest =~= done_cs + full);
        assert(full.drop_first() =~= rest);
        let tail = ops_from(g, k + 1, count, rest);
        assert(ops_from(g, k, count, full) == (s.0 + tail.0, tail.1));
        assert(owed + (s.0 + tail.0) =~= (owed + s.0) + tail.0);
    }
}

/// Where operation `k` halts, the run's outcome is what was owed so far and
/// its events, and the halt.
proof fn lemma_run_halts(
    input_len: nat,
    g: Seq<u8>,
    k: nat,
    count: nat,
    done_cs: Seq<nat>,
    owed: Seq<Expect>,
    c: nat,
)
    requires
        forall|rest: Seq<nat>|
            #![trigger ops_from(g, k, count, rest)]
            script_outcome(input_len, g, done_cs + rest) == (
                owed + ops_from(g, k, count, rest).0,
                ops_from(g, k, count, rest).1,
            ),
        k < count,
        fits(g, 1 + k as int, 1),
        op_step(g, k, g[1 + k as int] % 20, c).1 is Some,
    ensures
        script_outcome(input_len, g, done_cs.push(c)) == (
            owed + op_step(g, k, g[1 + k as int] % 20, c).0,
            op_step(g, k, g[1 + k as int] % 20, c).1,
        ),
{
    let full = seq![c];
    assert(done_cs.push(c) =~= done_cs + full);
    assert(full[0] == c);
    assert(ops_from(g, k, count, full) == op_step(g, k, g[1 + k as int] % 20, c));
}

/// The events of a run, and why it stopped early, if it did.
pub struct Run {
    pub events: Vec<Event>,
    pub halt: Option<Halt>,
}

/// Runs the script of an input of `input_len` bytes whose first half is `g`.
/// What it reports is owed for some capacities that the outside crate
/// leaves open; operations on floating-point items are left to the caller,
/// each reported as `FloatOp` in its place.
pub fn run(input_len: usize, g: &[u8]) -> (r: Run)
    ensures
        exists|cs: Seq<nat>|
            #![trigger script_outcome(input_len as nat, g@, cs)]
            events_match(r.events@, script_outcome(input_len as nat, g@, cs).0) && r.halt
                == script_outcome(input_len as nat, g@, cs).1,
{
    let mut events: Vec<Event> = Vec::new();
    let ghost none = Seq::<nat>::empty();
    if input_len < 300 {
        assert(script_outcome(input_len as nat, g@, none).0 =~= Seq::<Expect>::empty());
        return Run { events, halt: None };
    }
    let count = match read_u8(g, 0) {
        Some(x) => x % 65,
        None => {
            assert(script_outcome(input_len as nat, g@, none).0 =~= Seq::<Expect>::empty());
            return Run { events, halt: Some(Halt::InputExhausted) };
        },
    };
    let ghost n = count as nat;
    let ghost mut done_cs = Seq::<nat>::empty();
    let ghost mut owed = Seq::<Expect>::empty();
    let ghost mut gk: nat = 0;
    assert forall|rest: Seq<nat>|
        #![trigger ops_from(g@, gk, n, rest)]
        script_outcome(input_len as nat, g@, done_cs + rest) == (
            owed + ops_from(g@, gk, n, rest).0,
            ops_from(g@, gk, n, rest).1,
        ) by {
        assert(done_cs + rest =~= rest);
        assert(owed + ops_from(g@, gk, n, rest).0 =~= ops_from(g@, gk, n, rest).0);
    }
    let mut i: usize = 0;
    while i < count as usize
        invariant
            i <= count < 65,
            input_len >= 300,
            fits(g@, 0, 1),
            n == count as nat,
            n == (g@[0] % 65) as nat,
            gk == i as nat,
            none == Seq::<nat>::empty(),
            events_match(events@, owed),
            forall|rest: Seq<nat>|
                #![trigger ops_from(g@, gk, n, rest)]
                script_outcome(input_len as nat, g@, done_cs + rest) == (
                    owed + ops_from(g@, gk, n, rest).0,
                    ops_from(g@, gk, n, rest).1,
                ),
        decreases count as usize - i,
    {
        let op = match read_u8(g, 1 + i as usize) {
            Some(x) => x % 20,
            None => {
                proof {
                    assert(ops_from(g@, gk, n, none) == halted(Halt::InputExhausted));
                    assert(owed + Seq::<Expect>::empty() =~= owed);
                }
                return Run { events, halt: Some(Halt::InputExhausted) };
            },
        };
        let (evs, halt, Ghost(c)) = run_op(g, i, op);
        let ghost s = op_step(g@, gk, op, c);
        proof {
            lemma_events_match_append(events@, owed, evs@, s.0);
        }
        let mut evs = evs;
        events.append(&mut evs);
        if halt.is_some() {
            proof {
                lemma_run_halts(input_len as nat, g@, gk, n, done_cs, owed, c);
            }
            return Run { events, halt };
        }
        proof {
            lemma_run_continues(input_len as nat, g@, gk, n, done_cs, owed, c);
            done_cs = done_cs.push(c);
            owed = owed + s.0;
            gk = gk + 1;
        }
        i = i + 1;
    }
    proof {
        assert(ops_from(g@, gk, n, none) == (Seq::<Expect>::empty(), None::<Halt>));
        assert(owed + Seq::<Expect>::empty() =~= owed);
        assert(done_cs + none =~= done_cs);
    }
    Run { events, halt: None }
}

} // verus!

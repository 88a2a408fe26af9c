//! A script of fifteen kinds of operation, each reading its arguments from
//! 20 bytes of its own, the `k`th operation from byte `10 + 20 * k`; almost
//! every operation lists, one line each, the items it ends with. The script
//! stops where the next 20 bytes run past the first half.
use vstd::prelude::*;
use crate::cursor::{bools_at, i16s_at, i64s_at, i8s_at, u16s_at};
use crate::fixed::numbers_at;
use crate::medley::{charn18, chars_halt, pushes_cap, reads_ok};
use crate::script::{
    fits, i32_at, i32s_at, read_bool, read_char, read_i16, read_i32, read_i32s, read_i64, read_i8, read_isize,
    read_text, read_u16, read_u32, read_u64, read_u8, read_usize, text_of, u32_at, usize_at, Halt,
};
use crate::small_vec::{
    exact_growth_overflows, exact_growth_overflows_exec, growth_overflows, growth_overflows_exec, i16_ints,
    lemma_small_growth_sized, lex_order, repeat, Order,
};
use crate::survey::{bytes_at, codes_at, isizes_at, u64_at, i8n25, i16n15, u8n24};
use crate::sv_string::{
    small_vec_string15_capacity, small_vec_string15_deref, small_vec_string15_into_vec, small_vec_string15_new,
    small_vec_string15_push, small_vec_string15_shrink_to_fit, string_size, sv_str15_cap, sv_str15_items, texts,
};
use crate::sv_i32::{
    small_vec_i32_from_elem, small_vec_i32_from_slice, small_vec_i32_from_vec, small_vec_i32_into_vec, small_vec_i32_new,
    small_vec_i32_with_capacity, sv_i32_items,
};
use crate::bytes::be_u32;

pub mod i32n3;
pub mod i64n32;
pub mod u16n20;
pub mod booln22;
pub mod u64n16;
pub mod u32n14;
pub mod usizen13;
pub mod isizen19;

verus! {

/// What the script reports, one value per printed line.
#[derive(Debug, PartialEq, Eq)]
pub enum Event {
    /// A length or capacity.
    Count(usize),
    I32(i32),
    I64(i64),
    U8(u8),
    /// A flag.
    Flag(bool),
    /// The operation on floating-point items of the block at the given
    /// position, left to the caller.
    FloatOp(usize),
    Text(String),
    U16(u16),
    I16(i16),
    /// An order from `partial_cmp`, printed as `Some(..)`.
    PartialCompared(Order),
    /// An order from `cmp`.
    Compared(Order),
    Char(char),
    /// An address from `as_ptr`.
    Ptr(usize),
    Bool(bool),
    U64(u64),
    I8(i8),
    U32(u32),
    /// What `pop` gave, printed with `{:?}`.
    Popped(Option<usize>),
    Usize(usize),
    Isize(isize),
}

/// What the script is owed to report; an address may be any, and a
/// character is owed by its code.
pub enum Expect {
    Count(nat),
    I32(i32),
    I64(i64),
    U8(u8),
    Flag(bool),
    FloatOp(nat),
    Text(Seq<char>),
    U16(u16),
    I16(i16),
    PartialCompared(Order),
    Compared(Order),
    Char(u32),
    Ptr,
    Bool(bool),
    U64(u64),
    I8(i8),
    U32(u32),
    Popped(Option<usize>),
    Usize(usize),
    Isize(isize),
}

/// Whether a reported event is the one that was owed.
pub open spec fn event_matches(e: Event, x: Expect) -> bool {
    match e {
        Event::Count(n) => x == Expect::Count(n as nat),
        Event::I32(v) => x == Expect::I32(v),
        Event::I64(v) => x == Expect::I64(v),
        Event::U8(v) => x == Expect::U8(v),
        Event::Flag(b) => x == Expect::Flag(b),
        Event::FloatOp(b) => x == Expect::FloatOp(b as nat),
        Event::Text(s) => x == Expect::Text(s@),
        Event::U16(v) => x == Expect::U16(v),
        Event::I16(v) => x == Expect::I16(v),
        Event::PartialCompared(o) => x == Expect::PartialCompared(o),
        Event::Compared(o) => x == Expect::Compared(o),
        Event::Char(c) => x == Expect::Char(c as u32),
        Event::Ptr(_) => x is Ptr,
        Event::Bool(b) => x == Expect::Bool(b),
        Event::U64(v) => x == Expect::U64(v),
        Event::I8(v) => x == Expect::I8(v),
        Event::U32(v) => x == Expect::U32(v),
        Event::Popped(p) => x == Expect::Popped(p),
        Event::Usize(v) => x == Expect::Usize(v),
        Event::Isize(v) => x == Expect::Isize(v),
    }
}

/// Whether the reported events are, one for one, those owed.
pub open spec fn events_match(a: Seq<Event>, x: Seq<Expect>) -> bool {
    &&& a.len() == x.len()
    &&& forall|i: int| 0 <= i < a.len() ==> #[trigger] event_matches(a[i], x[i])
}

/// Reported events, followed by more, match what was owed followed by more.
proof fn lemma_events_match_append(a: Seq<Event>, x: Seq<Expect>, b: Seq<Event>, y: Seq<Expect>)
    requires
        events_match(a, x),
        events_match(b, y),
    ensures
        events_match(a + b, x + y),
{
    assert forall|i: int| 0 <= i < (a + b).len() implies #[trigger] event_matches((a + b)[i], (x + y)[i]) by {
        if i < a.len() {
            assert(event_matches(a[i], x[i]));
        } else {
            assert(event_matches(b[i - a.len()], y[i - a.len()]));
        }
    }
}

/// One event for each item.
pub open spec fn each_i32(s: Seq<i32>) -> Seq<Expect> {
    s.map_values(|x: i32| Expect::I32(x))
}

/// One event for each item.
pub open spec fn each_i64(s: Seq<i64>) -> Seq<Expect> {
    s.map_values(|x: i64| Expect::I64(x))
}

/// One event for each item.
pub open spec fn each_u8(s: Seq<u8>) -> Seq<Expect> {
    s.map_values(|x: u8| Expect::U8(x))
}

/// One event for each item.
pub open spec fn each_u16(s: Seq<u16>) -> Seq<Expect> {
    s.map_values(|x: u16| Expect::U16(x))
}

/// One event for each item.
pub open spec fn each_i16(s: Seq<i16>) -> Seq<Expect> {
    s.map_values(|x: i16| Expect::I16(x))
}

/// One event for each item.
pub open spec fn each_bool(s: Seq<bool>) -> Seq<Expect> {
    s.map_values(|x: bool| Expect::Bool(x))
}

/// One event for each item.
pub open spec fn each_u64(s: Seq<u64>) -> Seq<Expect> {
    s.map_values(|x: u64| Expect::U64(x))
}

/// One event for each item.
pub open spec fn each_i8(s: Seq<i8>) -> Seq<Expect> {
    s.map_values(|x: i8| Expect::I8(x))
}

/// One event for each item.
pub open spec fn each_u32(s: Seq<u32>) -> Seq<Expect> {
    s.map_values(|x: u32| Expect::U32(x))
}

/// One event for each item.
pub open spec fn each_usize(s: Seq<usize>) -> Seq<Expect> {
    s.map_values(|x: usize| Expect::Usize(x))
}

/// One event for each item.
pub open spec fn each_isize(s: Seq<isize>) -> Seq<Expect> {
    s.map_values(|x: isize| Expect::Isize(x))
}

/// One event for each text.
pub open spec fn each_text(s: Seq<Seq<char>>) -> Seq<Expect> {
    s.map_values(|x: Seq<char>| Expect::Text(x))
}

/// One event for each character code.
pub open spec fn each_code(s: Seq<u32>) -> Seq<Expect> {
    s.map_values(|x: u32| Expect::Char(x))
}

/// What an operation is owed: its events, and why it halts, if it does.
pub type Outcome = (Seq<Expect>, Option<Halt>);

/// An operation that halts with `h` before reporting anything.
pub open spec fn halted(h: Halt) -> Outcome {
    (Seq::empty(), Some(h))
}

/// An operation that reports `events` and does not halt.
pub open spec fn done(events: Seq<Expect>) -> Outcome {
    (events, None)
}

/// The items of the vector of operation 0 made by the constructor read at
/// `b + 1`.
pub open spec fn built_0(g: Seq<u8>, b: int) -> Result<Seq<i32>, Halt> {
    let choice = g[b + 1] % 5;
    if choice == 0 {
        Ok(Seq::empty())
    } else if choice == 1 {
        if !fits(g, b + 2, 8) {
            Err(Halt::InputExhausted)
        } else if exact_growth_overflows(0, 16, usize_at(g, b + 2) as nat, 4) {
            Err(Halt::CapacityOverflow)
        } else {
            Ok(Seq::empty())
        }
    } else if choice == 2 || choice == 3 {
        if !fits(g, b + 10, 1) {
            Err(Halt::InputExhausted)
        } else {
            let n = (g[b + 10] % 65) as nat;
            if !reads_ok(g, b + 11, 4, 4, n) {
                Err(Halt::InputExhausted)
            } else {
                Ok(i32s_at(g, b + 11, 4, n))
            }
        }
    } else if !fits(g, b + 2, 4) || !fits(g, b + 6, 8) {
        Err(Halt::InputExhausted)
    } else {
        let n = usize_at(g, b + 6) as nat;
        if n > 16 && n * 4 > isize::MAX {
            Err(Halt::CapacityOverflow)
        } else {
            Ok(repeat(i32_at(g, b + 2), n))
        }
    }
}

/// Operation 0: a `SmallVec<[i32; 16]>` made by one of five constructors,
/// turned into a `Vec`; its length, then its items.
pub open spec fn op_0(g: Seq<u8>, b: int) -> Outcome {
    match built_0(g, b) {
        Err(h) => halted(h),
        Ok(items) => done(seq![Expect::Count(items.len())] + each_i32(items)),
    }
}

/// Operation 1: an array of three read values taken as a `SmallVec<[i32; 3]>`
/// and a fourth pushed; its items.
pub open spec fn op_1(g: Seq<u8>, b: int) -> Outcome {
    done(each_i32(i32s_at(g, b + 1, 4, 4)))
}

/// The `i64` array of operation 2: read values (up to 32 of them) first,
/// zeros after.
pub open spec fn array_2(g: Seq<u8>, b: int, m: nat) -> Seq<i64> {
    i64s_at(g, b + 2, m) + repeat(0i64, (32 - m) as nat)
}

/// Operation 2: an array of 32 `i64`, the first of them read, taken as a
/// `SmallVec` of a read length, which must be at most 32; its items.
pub open spec fn op_2(g: Seq<u8>, b: int) -> Outcome {
    let n = (g[b + 1] % 65) as nat;
    let m: nat = if n < 32 { n } else { 32 };
    if !reads_ok(g, b + 2, 8, 8, m) {
        halted(Halt::InputExhausted)
    } else {
        let len = usize_at(g, b + 10) as nat;
        if len > 32 {
            halted(Halt::OutOfRange)
        } else {
            done(each_i64(array_2(g, b, m).take(len as int)))
        }
    }
}

/// Operation 3: read bytes pushed to a `SmallVec<[u8; 24]>`; its capacity,
/// length and emptiness, then its items twice.
pub open spec fn op_3(g: Seq<u8>, b: int) -> Outcome {
    let n = (g[b + 1] % 65) as nat;
    if !reads_ok(g, b + 2, 1, 1, n) {
        halted(Halt::InputExhausted)
    } else {
        let items = bytes_at(g, b + 2, n);
        done(
            seq![Expect::Count(pushes_cap(0, 24, n)), Expect::Count(n), Expect::Flag(n == 0)] + each_u8(items)
                + each_u8(items),
        )
    }
}

/// The texts that the first `k` rounds of operation 5 push: round `i` reads
/// a length below 10 at `b + 2 + i` and the text at `b + 3 + 10 * i`, cut at
/// the end of the first half (a start past it is out of range).
pub open spec fn texts_5(g: Seq<u8>, b: int, k: nat) -> Result<Seq<Seq<char>>, Halt>
    decreases k,
{
    if k == 0 {
        Ok(Seq::empty())
    } else {
        match texts_5(g, b, (k - 1) as nat) {
            Err(h) => Err(h),
            Ok(s) => {
                let i = k - 1;
                if !fits(g, b + 2 + i, 1) {
                    Err(Halt::InputExhausted)
                } else {
                    let start = b + 3 + 10 * i;
                    let end0 = start + (g[b + 2 + i] % 10) as int;
                    let end = if end0 < g.len() { end0 } else { g.len() as int };
                    if start > end {
                        Err(Halt::OutOfRange)
                    } else {
                        match text_of(g, start, (end - start) as nat) {
                            Err(h) => Err(h),
                            Ok(t) => if growth_overflows(i as nat, pushes_cap(0, 15, i as nat), 1, string_size()) {
                                Err(Halt::CapacityOverflow)
                            } else {
                                Ok(s.push(t))
                            },
                        }
                    }
                }
            },
        }
    }
}

/// Operation 5: read texts pushed to a `SmallVec<[String; 15]>`, shrunk to
/// fit; its items twice.
pub open spec fn op_5(g: Seq<u8>, b: int) -> Outcome {
    match texts_5(g, b, (g[b + 1] % 65) as nat) {
        Err(h) => halted(h),
        Ok(items) => done(each_text(items) + each_text(items)),
    }
}

/// Operation 6: read values collected into a `SmallVec<[u16; 20]>`; its items
/// twice.
pub open spec fn op_6(g: Seq<u8>, b: int) -> Outcome {
    let n = (g[b + 1] % 65) as nat;
    if !reads_ok(g, b + 2, 2, 2, n) {
        halted(Halt::InputExhausted)
    } else {
        let items = u16s_at(g, b + 2, n);
        done(each_u16(items) + each_u16(items))
    }
}

/// Operation 7: two `SmallVec<[i16; 15]>` of read values; whether they are
/// equal, their order twice, then the items of the first.
pub open spec fn op_7(g: Seq<u8>, b: int) -> Outcome {
    let n1 = (g[b + 1] % 65) as nat;
    if !reads_ok(g, b + 2, 2, 2, n1) {
        halted(Halt::InputExhausted)
    } else {
        let n2 = (g[b + 10] % 65) as nat;
        if !reads_ok(g, b + 11, 2, 2, n2) {
            halted(Halt::InputExhausted)
        } else {
            let x = i16s_at(g, b + 2, n1);
            let y = i16s_at(g, b + 11, n2);
            let o = lex_order(i16_ints(x), i16_ints(y));
            done(seq![Expect::Flag(x == y), Expect::PartialCompared(o), Expect::Compared(o)] + each_i16(x))
        }
    }
}

/// Operation 8: read characters pushed to a `SmallVec<[char; 18]>`; the one
/// at a read index where it is in range, the address, then the items.
pub open spec fn op_8(g: Seq<u8>, b: int) -> Outcome {
    let n = (g[b + 1] % 65) as nat;
    match chars_halt(g, b + 2, 0, n) {
        Some(h) => halted(h),
        None => {
            let codes = codes_at(g, b + 2, n);
            let at = usize_at(g, b + 10) as nat;
            let shown = if at < n { seq![Expect::Char(codes[at as int])] } else { Seq::empty() };
            done(shown + seq![Expect::Ptr] + each_code(codes))
        },
    }
}

/// Operation 9: read flags pushed to a `SmallVec<[bool; 22]>`, truncated to a
/// read length; the one removed at a read index where it is in range, then
/// the items.
pub open spec fn op_9(g: Seq<u8>, b: int) -> Outcome {
    let n = (g[b + 1] % 65) as nat;
    if !reads_ok(g, b + 2, 1, 1, n) {
        halted(Halt::InputExhausted)
    } else if !fits(g, b + 14, 8) {
        halted(Halt::InputExhausted)
    } else {
        let items = bools_at(g, b + 2, n);
        let t = usize_at(g, b + 10) as nat;
        let v = if t < n { items.take(t as int) } else { items };
        let r = usize_at(g, b + 14) as nat;
        if r < v.len() {
            done(seq![Expect::Bool(v[r as int])] + each_bool(v.remove(r as int)))
        } else {
            done(each_bool(v))
        }
    }
}

/// The big-endian `u64` values read at `start`, eight bytes apart.
pub open spec fn u64s_at(g: Seq<u8>, start: int, n: nat) -> Seq<u64> {
    Seq::new(n, |k: int| u64_at(g, start + 8 * k))
}

/// Operation 10: read values pushed to a `SmallVec<[u64; 16]>`, a read value
/// inserted at a read index where it is in range; the one swapped out at a
/// read index where it is in range, then the items.
pub open spec fn op_10(g: Seq<u8>, b: int) -> Outcome {
    let n = (g[b + 1] % 65) as nat;
    if !reads_ok(g, b + 2, 8, 8, n) || !fits(g, b + 14, 8) || !fits(g, b + 18, 8) {
        halted(Halt::InputExhausted)
    } else {
        let items = u64s_at(g, b + 2, n);
        let at = usize_at(g, b + 10) as nat;
        let v = if at <= n { items.insert(at as int, u64_at(g, b + 14)) } else { items };
        let s = usize_at(g, b + 18) as nat;
        if s < v.len() {
            done(seq![Expect::U64(v[s as int])] + each_u64(v.update(s as int, v.last()).drop_last()))
        } else {
            done(each_u64(v))
        }
    }
}

/// Operation 11: read values pushed to a `SmallVec<[i8; 25]>`, cleared, and
/// others pushed; the items of a clone, then its own.
pub open spec fn op_11(g: Seq<u8>, b: int) -> Outcome {
    let n = (g[b + 1] % 65) as nat;
    if !reads_ok(g, b + 2, 1, 1, n) {
        halted(Halt::InputExhausted)
    } else {
        let m = (g[b + 10] % 65) as nat;
        if !reads_ok(g, b + 11, 1, 1, m) {
            halted(Halt::InputExhausted)
        } else {
            let items = i8s_at(g, b + 11, m);
            done(each_i8(items) + each_i8(items))
        }
    }
}

/// Operation 12: an empty `SmallVec<[u32; 14]>` resized to a read length
/// with a read value, then a read range drained, which must lie within it;
/// the drained items, then the rest.
pub open spec fn op_12(g: Seq<u8>, b: int) -> Outcome {
    let len = usize_at(g, b + 1) as nat;
    if growth_overflows(0, 14, len, 4) {
        halted(Halt::CapacityOverflow)
    } else if !fits(g, b + 13, 8) || !fits(g, b + 17, 8) {
        halted(Halt::InputExhausted)
    } else {
        let items = repeat(u32_at(g, b + 9), len);
        let s = usize_at(g, b + 13) as nat;
        let e = usize_at(g, b + 17) as nat;
        if s > e || e > len {
            halted(Halt::OutOfRange)
        } else {
            done(each_u32(items.subrange(s as int, e as int)) + each_u32(items.take(s as int) + items.skip(e as int)))
        }
    }
}

/// Operation 13: read numbers pushed to a `SmallVec<[usize; 13]>`, extended
/// by more read numbers; what `pop` gives, then the items left.
pub open spec fn op_13(g: Seq<u8>, b: int) -> Outcome {
    let n = (g[b + 1] % 65) as nat;
    if !reads_ok(g, b + 2, 8, 8, n) {
        halted(Halt::InputExhausted)
    } else {
        let m = (g[b + 10] % 65) as nat;
        if !reads_ok(g, b + 11, 8, 8, m) {
            halted(Halt::InputExhausted)
        } else {
            let all = numbers_at(g, b + 2, n) + numbers_at(g, b + 11, m);
            if all.len() == 0 {
                done(seq![Expect::Popped(None)])
            } else {
                done(seq![Expect::Popped(Some(all.last()))] + each_usize(all.drop_last()))
            }
        }
    }
}

/// Operation 14 (and any other number): read values pushed to a
/// `SmallVec<[isize; 19]>`, grown to a read capacity, which must hold them
/// all; the items twice as it is consumed.
pub open spec fn op_14(g: Seq<u8>, b: int) -> Outcome {
    let n = (g[b + 1] % 65) as nat;
    if !reads_ok(g, b + 2, 8, 8, n) {
        halted(Halt::InputExhausted)
    } else {
        let gc = usize_at(g, b + 10) as nat;
        if gc < n {
            halted(Halt::OutOfRange)
        } else if gc > 19 && gc * 8 > isize::MAX {
            halted(Halt::CapacityOverflow)
        } else {
            let items = isizes_at(g, b + 2, n);
            done(each_isize(items) + each_isize(items))
        }
    }
}

/// What operation `op` of the block at `b` is owed; the block's 20 bytes
/// lie within the first half.
#[verifier::opaque]
pub open spec fn op_step(g: Seq<u8>, op: u8, b: int) -> Outcome {
    if op == 0 {
        op_0(g, b)
    } else if op == 1 {
        op_1(g, b)
    } else if op == 2 {
        op_2(g, b)
    } else if op == 3 {
        op_3(g, b)
    } else if op == 4 {
        done(seq![Expect::FloatOp(b as nat)])
    } else if op == 5 {
        op_5(g, b)
    } else if op == 6 {
        op_6(g, b)
    } else if op == 7 {
        op_7(g, b)
    } else if op == 8 {
        op_8(g, b)
    } else if op == 9 {
        op_9(g, b)
    } else if op == 10 {
        op_10(g, b)
    } else if op == 11 {
        op_11(g, b)
    } else if op == 12 {
        op_12(g, b)
    } else if op == 13 {
        op_13(g, b)
    } else {
        op_14(g, b)
    }
}

/// What operations `k` up to `count` owe, in turn, stopping at the first
/// that halts, or quietly where the next block runs past the first half.
pub open spec fn ops_from(g: Seq<u8>, k: nat, count: nat) -> Outcome
    decreases count - k,
{
    if k >= count || 10 + 20 * k + 20 > g.len() {
        (Seq::empty(), None)
    } else {
        let b = 10 + 20 * k as int;
        let st = op_step(g, g[b] % 15, b);
        if st.1 is Some {
            st
        } else {
            let rest = ops_from(g, k + 1, count);
            (st.0 + rest.0, rest.1)
        }
    }
}

/// What a whole run is owed. Inputs shorter than 200 bytes are ignored.
pub open spec fn script_outcome(input_len: nat, g: Seq<u8>) -> Outcome {
    if input_len < 200 {
        (Seq::empty(), None)
    } else if !fits(g, 0, 1) {
        halted(Halt::InputExhausted)
    } else {
        ops_from(g, 0, (g[0] % 65) as nat)
    }
}


/// Reports each of `items`, after events that match `owed`.
fn report_i32s(events: &mut Vec<Event>, owed: Ghost<Seq<Expect>>, items: &[i32])
    requires
        events_match(old(events)@, owed@),
    ensures
        events_match(final(events)@, owed@ + each_i32(items@)),
{
    let ghost want = owed@ + each_i32(items@);
    let mut k: usize = 0;
    while k < items.len()
        invariant
            k <= items@.len(),
            want == owed@ + each_i32(items@),
            events@.len() == owed@.len() + k,
            forall|i: int| 0 <= i < events@.len() ==> #[trigger] event_matches(events@[i], want[i]),
        decreases items.len() - k,
    {
        events.push(Event::I32(items[k]));
        k = k + 1;
    }
}

/// Reports each of `items`, after events that match `owed`.
fn report_i64s(events: &mut Vec<Event>, owed: Ghost<Seq<Expect>>, items: &[i64])
    requires
        events_match(old(events)@, owed@),
    ensures
        events_match(final(events)@, owed@ + each_i64(items@)),
{
    let ghost want = owed@ + each_i64(items@);
    let mut k: usize = 0;
    while k < items.len()
        invariant
            k <= items@.len(),
            want == owed@ + each_i64(items@),
            events@.len() == owed@.len() + k,
            forall|i: int| 0 <= i < events@.len() ==> #[trigger] event_matches(events@[i], want[i]),
        decreases items.len() - k,
    {
        events.push(Event::I64(items[k]));
        k = k + 1;
    }
}

/// Reports each of `items`, after events that match `owed`.
fn report_u8s(events: &mut Vec<Event>, owed: Ghost<Seq<Expect>>, items: &[u8])
    requires
        events_match(old(events)@, owed@),
    ensures
        events_match(final(events)@, owed@ + each_u8(items@)),
{
    let ghost want = owed@ + each_u8(items@);
    let mut k: usize = 0;
    while k < items.len()
        invariant
            k <= items@.len(),
            want == owed@ + each_u8(items@),
            events@.len() == owed@.len() + k,
            forall|i: int| 0 <= i < events@.len() ==> #[trigger] event_matches(events@[i], want[i]),
        decreases items.len() - k,
    {
        events.push(Event::U8(items[k]));
        k = k + 1;
    }
}

/// Reports each of `items`, after events that match `owed`.
fn report_u16s(events: &mut Vec<Event>, owed: Ghost<Seq<Expect>>, items: &[u16])
    requires
        events_match(old(events)@, owed@),
    ensures
        events_match(final(events)@, owed@ + each_u16(items@)),
{
    let ghost want = owed@ + each_u16(items@);
    let mut k: usize = 0;
    while k < items.len()
        invariant
            k <= items@.len(),
            want == owed@ + each_u16(items@),
            events@.len() == owed@.len() + k,
            forall|i: int| 0 <= i < events@.len() ==> #[trigger] event_matches(events@[i], want[i]),
        decreases items.len() - k,
    {
        events.push(Event::U16(items[k]));
        k = k + 1;
    }
}

/// Reports each of `items`, after events that match `owed`.
fn report_i16s(events: &mut Vec<Event>, owed: Ghost<Seq<Expect>>, items: &[i16])
    requires
        events_match(old(events)@, owed@),
    ensures
        events_match(final(events)@, owed@ + each_i16(items@)),
{
    let ghost want = owed@ + each_i16(items@);
    let mut k: usize = 0;
    while k < items.len()
        invariant
            k <= items@.len(),
            want == owed@ + each_i16(items@),
            events@.len() == owed@.len() + k,
            forall|i: int| 0 <= i < events@.len() ==> #[trigger] event_matches(events@[i], want[i]),
        decreases items.len() - k,
    {
        events.push(Event::I16(items[k]));
        k = k + 1;
    }
}

/// Reports each of `items`, after events that match `owed`.
fn report_bools(events: &mut Vec<Event>, owed: Ghost<Seq<Expect>>, items: &[bool])
    requires
        events_match(old(events)@, owed@),
    ensures
        events_match(final(events)@, owed@ + each_bool(items@)),
{
    let ghost want = owed@ + each_bool(items@);
    let mut k: usize = 0;
    while k < items.len()
        invariant
            k <= items@.len(),
            want == owed@ + each_bool(items@),
            events@.len() == owed@.len() + k,
            forall|i: int| 0 <= i < events@.len() ==> #[trigger] event_matches(events@[i], want[i]),
        decreases items.len() - k,
    {
        events.push(Event::Bool(items[k]));
        k = k + 1;
    }
}

/// Reports each of `items`, after events that match `owed`.
fn report_u64s(events: &mut Vec<Event>, owed: Ghost<Seq<Expect>>, items: &[u64])
    requires
        events_match(old(events)@, owed@),
    ensures
        events_match(final(events)@, owed@ + each_u64(items@)),
{
    let ghost want = owed@ + each_u64(items@);
    let mut k: usize = 0;
    while k < items.len()
        invariant
            k <= items@.len(),
            want == owed@ + each_u64(items@),
            events@.len() == owed@.len() + k,
            forall|i: int| 0 <= i < events@.len() ==> #[trigger] event_matches(events@[i], want[i]),
        decreases items.len() - k,
    {
        events.push(Event::U64(items[k]));
        k = k + 1;
    }
}

/// Reports each of `items`, after events that match `owed`.
fn report_i8s(events: &mut Vec<Event>, owed: Ghost<Seq<Expect>>, items: &[i8])
    requires
        events_match(old(events)@, owed@),
    ensures
        events_match(final(events)@, owed@ + each_i8(items@)),
{
    let ghost want = owed@ + each_i8(items@);
    let mut k: usize = 0;
    while k < items.len()
        invariant
            k <= items@.len(),
            want == owed@ + each_i8(items@),
            events@.len() == owed@.len() + k,
            forall|i: int| 0 <= i < events@.len() ==> #[trigger] event_matches(events@[i], want[i]),
        decreases items.len() - k,
    {
        events.push(Event::I8(items[k]));
        k = k + 1;
    }
}

/// Reports each of `items`, after events that match `owed`.
fn report_u32s(events: &mut Vec<Event>, owed: Ghost<Seq<Expect>>, items: &[u32])
    requires
        events_match(old(events)@, owed@),
    ensures
        events_match(final(events)@, owed@ + each_u32(items@)),
{
    let ghost want = owed@ + each_u32(items@);
    let mut k: usize = 0;
    while k < items.len()
        invariant
            k <= items@.len(),
            want == owed@ + each_u32(items@),
            events@.len() == owed@.len() + k,
            forall|i: int| 0 <= i < events@.len() ==> #[trigger] event_matches(events@[i], want[i]),
        decreases items.len() - k,
    {
        events.push(Event::U32(items[k]));
        k = k + 1;
    }
}

/// Reports each of `items`, after events that match `owed`.
fn report_usizes(events: &mut Vec<Event>, owed: Ghost<Seq<Expect>>, items: &[usize])
    requires
        events_match(old(events)@, owed@),
    ensures
        events_match(final(events)@, owed@ + each_usize(items@)),
{
    let ghost want = owed@ + each_usize(items@);
    let mut k: usize = 0;
    while k < items.len()
        invariant
            k <= items@.len(),
            want == owed@ + each_usize(items@),
            events@.len() == owed@.len() + k,
            forall|i: int| 0 <= i < events@.len() ==> #[trigger] event_matches(events@[i], want[i]),
        decreases items.len() - k,
    {
        events.push(Event::Usize(items[k]));
        k = k + 1;
    }
}

/// Reports each of `items`, after events that match `owed`.
fn report_isizes(events: &mut Vec<Event>, owed: Ghost<Seq<Expect>>, items: &[isize])
    requires
        events_match(old(events)@, owed@),
    ensures
        events_match(final(events)@, owed@ + each_isize(items@)),
{
    let ghost want = owed@ + each_isize(items@);
    let mut k: usize = 0;
    while k < items.len()
        invariant
            k <= items@.len(),
            want == owed@ + each_isize(items@),
            events@.len() == owed@.len() + k,
            forall|i: int| 0 <= i < events@.len() ==> #[trigger] event_matches(events@[i], want[i]),
        decreases items.len() - k,
    {
        events.push(Event::Isize(items[k]));
        k = k + 1;
    }
}

/// The item at `k` of `items`.
fn char_at(items: &[char], k: usize) -> (c: char)
    requires
        k < items@.len(),
    ensures
        c == items@[k as int],
{
    items[k]
}

/// Reports each of `items`, after events that match `owed`.
fn report_chars(events: &mut Vec<Event>, owed: Ghost<Seq<Expect>>, items: &[char])
    requires
        events_match(old(events)@, owed@),
    ensures
        events_match(final(events)@, owed@ + each_code(items@.map_values(|c: char| c as u32))),
{
    let ghost want = owed@ + each_code(items@.map_values(|c: char| c as u32));
    let mut k: usize = 0;
    while k < items.len()
        invariant
            k <= items@.len(),
            want == owed@ + each_code(items@.map_values(|c: char| c as u32)),
            events@.len() == owed@.len() + k,
            forall|i: int| 0 <= i < events@.len() ==> #[trigger] event_matches(events@[i], want[i]),
        decreases items.len() - k,
    {
        events.push(Event::Char(char_at(items, k)));
        k = k + 1;
    }
}

/// Reports each of `items`, after events that match `owed`.
fn report_texts(events: &mut Vec<Event>, owed: Ghost<Seq<Expect>>, items: &[String])
    requires
        events_match(old(events)@, owed@),
    ensures
        events_match(final(events)@, owed@ + each_text(texts(items@))),
{
    let ghost want = owed@ + each_text(texts(items@));
    let mut k: usize = 0;
    while k < items.len()
        invariant
            k <= items@.len(),
            want == owed@ + each_text(texts(items@)),
            events@.len() == owed@.len() + k,
            forall|i: int| 0 <= i < events@.len() ==> #[trigger] event_matches(events@[i], want[i]),
        decreases items.len() - k,
    {
        events.push(Event::Text(items[k].clone()));
        k = k + 1;
    }
}

/// `e`, reported after events that match `owed`.
fn push_event(events: &mut Vec<Event>, owed: Ghost<Seq<Expect>>, e: Event, x: Ghost<Expect>)
    requires
        events_match(old(events)@, owed@),
        event_matches(e, x@),
    ensures
        events_match(final(events)@, owed@.push(x@)),
{
    events.push(e);
    assert(forall|i: int| 0 <= i < events@.len() ==> #[trigger] event_matches(events@[i], owed@.push(x@)[i]));
}

/// Operation 0 (see `op_0`).
fn run_op_0(g: &[u8], b: usize) -> (r: (Vec<Event>, Option<Halt>))
    requires
        b + 20 <= g.len(),
        b <= 1400,
    ensures
        events_match(r.0@, op_0(g@, b as int).0),
        r.1 == op_0(g@, b as int).1,
{
    let choice = g[b + 1] % 5;
    let v = if choice == 0 {
        small_vec_i32_new()
    } else if choice == 1 {
        let n0 = match read_usize(g, b + 2) {
            Some(x) => x,
            None => return (Vec::new(), Some(Halt::InputExhausted)),
        };
        if exact_growth_overflows_exec(0, 16, n0, 4) {
            return (Vec::new(), Some(Halt::CapacityOverflow));
        }
        small_vec_i32_with_capacity(n0)
    } else if choice == 2 || choice == 3 {
        let n = g[b + 10] % 65;
        let vals = match read_i32s(g, b + 11, 4, n as usize) {
            Some(v) => v,
            None => return (Vec::new(), Some(Halt::InputExhausted)),
        };
        if choice == 2 {
            small_vec_i32_from_vec(vals)
        } else {
            small_vec_i32_from_slice(vals.as_slice())
        }
    } else {
        let e = match read_i32(g, b + 2) {
            Some(x) => x,
            None => return (Vec::new(), Some(Halt::InputExhausted)),
        };
        let n = match read_usize(g, b + 6) {
            Some(x) => x,
            None => return (Vec::new(), Some(Halt::InputExhausted)),
        };
        if n > 16 && n > (isize::MAX as usize) / 4 {
            return (Vec::new(), Some(Halt::CapacityOverflow));
        }
        small_vec_i32_from_elem(e, n)
    };
    let ghost items = sv_i32_items(v);
    proof {
        if choice == 0 || choice == 1 {
            assert(items =~= Seq::<i32>::empty());
        }
    }
    assert(built_0(g@, b as int) == Ok::<Seq<i32>, Halt>(items));
    let all = small_vec_i32_into_vec(v);
    let mut events: Vec<Event> = Vec::new();
    events.push(Event::Count(all.len()));
    let ghost shown = seq![Expect::Count(items.len())];
    assert(events_match(events@, shown));
    report_i32s(&mut events, Ghost(shown), all.as_slice());
    (events, None)
}

/// Operation 1 (see `op_1`).
fn run_op_1(g: &[u8], b: usize) -> (r: (Vec<Event>, Option<Halt>))
    requires
        b + 20 <= g.len(),
        b <= 1400,
    ensures
        events_match(r.0@, op_1(g@, b as int).0),
        r.1 == op_1(g@, b as int).1,
{
    let vals = match read_i32s(g, b + 1, 4, 4) {
        Some(v) => v,
        None => return (Vec::new(), Some(Halt::InputExhausted)),
    };
    let buf: [i32; 3] = [vals[0], vals[1], vals[2]];
    let mut v = i32n3::small_vec_i32n3_from_buf(buf);
    proof {
        broadcast use vstd::layout::layout_of_primitives;
        lemma_small_growth_sized(3, 3, 1, 4);
    }
    i32n3::small_vec_i32n3_push(&mut v, vals[3]);
    assert(i32n3::sv_i32n3_items(v) =~= vals@);
    let all = i32n3::small_vec_i32n3_into_vec(v);
    let mut events: Vec<Event> = Vec::new();
    report_i32s(&mut events, Ghost(Seq::empty()), all.as_slice());
    assert(Seq::<Expect>::empty() + each_i32(all@) =~= op_1(g@, b as int).0);
    (events, None)
}

/// Operation 2 (see `op_2`).
#[verifier::loop_isolation(false)]
fn run_op_2(g: &[u8], b: usize) -> (r: (Vec<Event>, Option<Halt>))
    requires
        b + 20 <= g.len(),
        b <= 1400,
    ensures
        events_match(r.0@, op_2(g@, b as int).0),
        r.1 == op_2(g@, b as int).1,
{
    let n = g[b + 1] % 65;
    let m: usize = if n < 32 {
        n as usize
    } else {
        32
    };
    let mut arr: [i64; 32] = [0i64; 32];
    let mut i: usize = 0;
    while i < m
        invariant
            i <= m <= 32,
            b <= 1400,
            arr@ == i64s_at(g@, b + 2, i as nat) + repeat(0i64, (32 - i) as nat),
            i > 0 ==> fits(g@, b + 2 + 8 * (i - 1), 8),
        decreases m - i,
    {
        let x = match read_i64(g, b + 2 + 8 * i) {
            Some(x) => x,
            None => return (Vec::new(), Some(Halt::InputExhausted)),
        };
        arr[i] = x;
        i = i + 1;
        assert(arr@ =~= i64s_at(g@, b + 2, i as nat) + repeat(0i64, (32 - i) as nat));
    }
    let len = match read_usize(g, b + 10) {
        Some(x) => x,
        None => return (Vec::new(), Some(Halt::InputExhausted)),
    };
    if len > 32 {
        return (Vec::new(), Some(Halt::OutOfRange));
    }
    let v = i64n32::small_vec_i64n32_from_buf_and_len(arr, len);
    let all = i64n32::small_vec_i64n32_into_vec(v);
    let mut events: Vec<Event> = Vec::new();
    report_i64s(&mut events, Ghost(Seq::empty()), all.as_slice());
    assert(Seq::<Expect>::empty() + each_i64(all@) =~= op_2(g@, b as int).0);
    (events, None)
}

/// Operation 3 (see `op_3`).
#[verifier::loop_isolation(false)]
fn run_op_3(g: &[u8], b: usize) -> (r: (Vec<Event>, Option<Halt>))
    requires
        b + 20 <= g.len(),
        b <= 1400,
    ensures
        events_match(r.0@, op_3(g@, b as int).0),
        r.1 == op_3(g@, b as int).1,
{
    let n = g[b + 1] % 65;
    let mut v = u8n24::small_vec_u8n24_new();
    let mut j: usize = 0;
    while j < n as usize
        invariant
            j <= n < 65,
            v.wf(),
            u8n24::sv_u8n24_items(v) == bytes_at(g@, b + 2, j as nat),
            u8n24::sv_u8n24_cap(v) == pushes_cap(0, 24, j as nat),
            j > 0 ==> fits(g@, b + 2 + (j - 1), 1),
        decreases n - j,
    {
        let x = match read_u8(g, b + 2 + j) {
            Some(x) => x,
            None => return (Vec::new(), Some(Halt::InputExhausted)),
        };
        proof {
            broadcast use vstd::layout::layout_of_primitives;
            lemma_small_growth_sized(j as nat, u8n24::sv_u8n24_cap(v), 1, 1);
        }
        u8n24::small_vec_u8n24_push(&mut v, x);
        j = j + 1;
        assert(u8n24::sv_u8n24_items(v) =~= bytes_at(g@, b + 2, j as nat));
    }
    let mut events: Vec<Event> = Vec::new();
    events.push(Event::Count(u8n24::small_vec_u8n24_capacity(&v)));
    events.push(Event::Count(u8n24::small_vec_u8n24_len(&v)));
    events.push(Event::Flag(u8n24::small_vec_u8n24_is_empty(&v)));
    let ghost items = bytes_at(g@, b + 2, n as nat);
    let ghost shown = seq![Expect::Count(pushes_cap(0, 24, n as nat)), Expect::Count(n as nat), Expect::Flag(n == 0)];
    assert(events_match(events@, shown));
    report_u8s(&mut events, Ghost(shown), u8n24::small_vec_u8n24_as_slice(&v));
    let all = u8n24::small_vec_u8n24_into_vec(v);
    report_u8s(&mut events, Ghost(shown + each_u8(items)), all.as_slice());
    (events, None)
}

/// Where the first `k` rounds of operation 5 halt, all `n` of them do.
proof fn lemma_texts_halt_extends(g: Seq<u8>, b: int, k: nat, n: nat, h: Halt)
    requires
        k <= n,
        texts_5(g, b, k) == Err::<Seq<Seq<char>>, Halt>(h),
    ensures
        texts_5(g, b, n) == Err::<Seq<Seq<char>>, Halt>(h),
    decreases n,
{
    if n > k {
        lemma_texts_halt_extends(g, b, k, (n - 1) as nat, h);
    }
}

/// Operation 5 (see `op_5`).
#[verifier::loop_isolation(false)]
fn run_op_5(g: &[u8], b: usize) -> (r: (Vec<Event>, Option<Halt>))
    requires
        b + 20 <= g.len(),
        b <= 1400,
    ensures
        events_match(r.0@, op_5(g@, b as int).0),
        r.1 == op_5(g@, b as int).1,
{
    let n = g[b + 1] % 65;
    let mut v = small_vec_string15_new();
    let size = core::mem::size_of::<String>();
    let mut j: usize = 0;
    while j < n as usize
        invariant
            j <= n < 65,
            b <= 1400,
            v.wf(),
            texts_5(g@, b as int, j as nat) == Ok::<Seq<Seq<char>>, Halt>(sv_str15_items(v)),
            sv_str15_items(v).len() == j,
            sv_str15_cap(v) == pushes_cap(0, 15, j as nat),
        decreases n - j,
    {
        let lb = match read_u8(g, b + 2 + j) {
            Some(x) => x,
            None => {
                proof {
                    lemma_texts_halt_extends(g@, b as int, (j + 1) as nat, n as nat, Halt::InputExhausted);
                }
                return (Vec::new(), Some(Halt::InputExhausted));
            },
        };
        let start = b + 3 + 10 * j;
        let end0 = start + (lb % 10) as usize;
        let end = if end0 < g.len() {
            end0
        } else {
            g.len()
        };
        if start > end {
            proof {
                lemma_texts_halt_extends(g@, b as int, (j + 1) as nat, n as nat, Halt::OutOfRange);
            }
            return (Vec::new(), Some(Halt::OutOfRange));
        }
        let s = match read_text(g, start, end - start) {
            Ok(s) => s,
            Err(h) => {
                proof {
                    lemma_texts_halt_extends(g@, b as int, (j + 1) as nat, n as nat, h);
                }
                return (Vec::new(), Some(h));
            },
        };
        if growth_overflows_exec(j, small_vec_string15_capacity(&v), 1, size) {
            proof {
                lemma_texts_halt_extends(g@, b as int, (j + 1) as nat, n as nat, Halt::CapacityOverflow);
            }
            return (Vec::new(), Some(Halt::CapacityOverflow));
        }
        small_vec_string15_push(&mut v, s);
        j = j + 1;
    }
    small_vec_string15_shrink_to_fit(&mut v);
    let ghost items = sv_str15_items(v);
    let mut events: Vec<Event> = Vec::new();
    report_texts(&mut events, Ghost(Seq::empty()), small_vec_string15_deref(&v));
    let all = small_vec_string15_into_vec(v);
    report_texts(&mut events, Ghost(Seq::empty() + each_text(items)), all.as_slice());
    assert(Seq::<Expect>::empty() + each_text(items) + each_text(items) =~= op_5(g@, b as int).0);
    (events, None)
}

/// Operation 6 (see `op_6`).
#[verifier::loop_isolation(false)]
fn run_op_6(g: &[u8], b: usize) -> (r: (Vec<Event>, Option<Halt>))
    requires
        b + 20 <= g.len(),
        b <= 1400,
    ensures
        events_match(r.0@, op_6(g@, b as int).0),
        r.1 == op_6(g@, b as int).1,
{
    let n = g[b + 1] % 65;
    let mut vals: Vec<u16> = Vec::new();
    let mut j: usize = 0;
    while j < n as usize
        invariant
            j <= n < 65,
            b <= 1400,
            vals@ == u16s_at(g@, b + 2, j as nat),
            j > 0 ==> fits(g@, b + 2 + 2 * (j - 1), 2),
        decreases n - j,
    {
        match read_u16(g, b + 2 + 2 * j) {
            Some(x) => vals.push(x),
            None => return (Vec::new(), Some(Halt::InputExhausted)),
        }
        j = j + 1;
        assert(vals@ =~= u16s_at(g@, b + 2, j as nat));
    }
    proof {
        broadcast use vstd::layout::layout_of_primitives;
        lemma_small_growth_sized(0, 20, vals@.len(), 2);
    }
    let v = u16n20::small_vec_u16n20_from_iter(vals);
    let ghost items = u16s_at(g@, b + 2, n as nat);
    let mut events: Vec<Event> = Vec::new();
    report_u16s(&mut events, Ghost(Seq::empty()), u16n20::small_vec_u16n20_as_slice(&v));
    let all = u16n20::small_vec_u16n20_into_vec(v);
    report_u16s(&mut events, Ghost(Seq::empty() + each_u16(items)), all.as_slice());
    assert(Seq::<Expect>::empty() + each_u16(items) + each_u16(items) =~= op_6(g@, b as int).0);
    (events, None)
}

/// `n` values read at `start`, two bytes apart, pushed onto an empty
/// `SmallVec<[i16; 15]>`, or `None` when a read runs past the end.
fn push_i16s(g: &[u8], start: usize, n: u8) -> (r: Option<i16n15::SmallVecI16N15>)
    requires
        start <= 4096,
        n < 65,
    ensures
        r is Some <==> reads_ok(g@, start as int, 2, 2, n as nat),
        r matches Some(v) ==> v.wf() && i16n15::sv_i16n15_items(v) == i16s_at(g@, start as int, n as nat),
{
    let mut v = i16n15::small_vec_i16n15_new();
    let mut j: usize = 0;
    while j < n as usize
        invariant
            j <= n < 65,
            start <= 4096,
            v.wf(),
            i16n15::sv_i16n15_items(v) == i16s_at(g@, start as int, j as nat),
            j > 0 ==> fits(g@, start + 2 * (j - 1), 2),
        decreases n - j,
    {
        let x = match read_i16(g, start + 2 * j) {
            Some(x) => x,
            None => return None,
        };
        proof {
            broadcast use vstd::layout::layout_of_primitives;
            lemma_small_growth_sized(j as nat, i16n15::sv_i16n15_cap(v), 1, 2);
        }
        i16n15::small_vec_i16n15_push(&mut v, x);
        j = j + 1;
        assert(i16n15::sv_i16n15_items(v) =~= i16s_at(g@, start as int, j as nat));
    }
    Some(v)
}

/// Operation 7 (see `op_7`).
fn run_op_7(g: &[u8], b: usize) -> (r: (Vec<Event>, Option<Halt>))
    requires
        b + 20 <= g.len(),
        b <= 1400,
    ensures
        events_match(r.0@, op_7(g@, b as int).0),
        r.1 == op_7(g@, b as int).1,
{
    let first = match push_i16s(g, b + 2, g[b + 1] % 65) {
        Some(v) => v,
        None => return (Vec::new(), Some(Halt::InputExhausted)),
    };
    let second = match push_i16s(g, b + 11, g[b + 10] % 65) {
        Some(v) => v,
        None => return (Vec::new(), Some(Halt::InputExhausted)),
    };
    let mut events: Vec<Event> = Vec::new();
    events.push(Event::Flag(i16n15::small_vec_i16n15_eq(&first, &second)));
    match i16n15::small_vec_i16n15_partial_compare(&first, &second) {
        Some(o) => events.push(Event::PartialCompared(o)),
        None => {},
    }
    events.push(Event::Compared(i16n15::small_vec_i16n15_compare(&first, &second)));
    let ghost x = i16s_at(g@, b + 2, (g@[b + 1] % 65) as nat);
    let ghost y = i16s_at(g@, b + 11, (g@[b + 10] % 65) as nat);
    let ghost o = lex_order(i16_ints(x), i16_ints(y));
    let ghost shown = seq![Expect::Flag(x == y), Expect::PartialCompared(o), Expect::Compared(o)];
    assert(events_match(events@, shown));
    let all = i16n15::small_vec_i16n15_into_vec(first);
    report_i16s(&mut events, Ghost(shown), all.as_slice());
    (events, None)
}


/// Operation 8 (see `op_8`).
#[verifier::loop_isolation(false)]
fn run_op_8(g: &[u8], b: usize) -> (r: (Vec<Event>, Option<Halt>))
    requires
        b + 20 <= g.len(),
        b <= 1400,
    ensures
        events_match(r.0@, op_8(g@, b as int).0),
        r.1 == op_8(g@, b as int).1,
{
    let n = g[b + 1] % 65;
    let mut v = charn18::small_vec_charn18_new();
    let mut j: usize = 0;
    while j < n as usize
        invariant
            j <= n < 65,
            b <= 1400,
            v.wf(),
            charn18::sv_charn18_items(v).len() == j,
            forall|k: int| 0 <= k < j ==> (#[trigger] charn18::sv_charn18_items(v)[k]) as u32 == be_u32(g@, b + 2 + 4 * k),
            chars_halt(g@, b + 2, 0, n as nat) == chars_halt(g@, b + 2, j as nat, n as nat),
        decreases n - j,
    {
        let c = match read_char(g, b + 2 + 4 * j) {
            Ok(c) => c,
            Err(h) => return (Vec::new(), Some(h)),
        };
        proof {
            broadcast use vstd::layout::layout_of_primitives;
            lemma_small_growth_sized(j as nat, charn18::sv_charn18_cap(v), 1, vstd::layout::size_of::<char>());
        }
        charn18::small_vec_charn18_push(&mut v, c);
        j = j + 1;
    }
    let ghost codes = codes_at(g@, b + 2, n as nat);
    assert(charn18::sv_charn18_items(v).map_values(|c: char| c as u32) =~= codes);
    let at = match read_usize(g, b + 10) {
        Some(x) => x,
        None => return (Vec::new(), Some(Halt::InputExhausted)),
    };
    let mut events: Vec<Event> = Vec::new();
    if at < charn18::small_vec_charn18_len(&v) {
        events.push(Event::Char(charn18::small_vec_charn18_index(&v, at)));
    }
    events.push(Event::Ptr(charn18::small_vec_charn18_as_ptr(&v)));
    let ghost shown = (if at < n { seq![Expect::Char(codes[at as int])] } else { Seq::<Expect>::empty() }) + seq![
        Expect::Ptr,
    ];
    assert(forall|i: int| 0 <= i < events@.len() ==> #[trigger] event_matches(events@[i], shown[i]));
    let all = charn18::small_vec_charn18_into_vec(v);
    report_chars(&mut events, Ghost(shown), all.as_slice());
    (events, None)
}

/// Operation 9 (see `op_9`).
#[verifier::loop_isolation(false)]
fn run_op_9(g: &[u8], b: usize) -> (r: (Vec<Event>, Option<Halt>))
    requires
        b + 20 <= g.len(),
        b <= 1400,
    ensures
        events_match(r.0@, op_9(g@, b as int).0),
        r.1 == op_9(g@, b as int).1,
{
    let n = g[b + 1] % 65;
    let mut v = booln22::small_vec_booln22_new();
    let mut j: usize = 0;
    while j < n as usize
        invariant
            j <= n < 65,
            b <= 1400,
            v.wf(),
            booln22::sv_booln22_items(v) == bools_at(g@, b + 2, j as nat),
            j > 0 ==> fits(g@, b + 2 + (j - 1), 1),
        decreases n - j,
    {
        let x = match read_bool(g, b + 2 + j) {
            Some(x) => x,
            None => return (Vec::new(), Some(Halt::InputExhausted)),
        };
        proof {
            broadcast use vstd::layout::layout_of_primitives;
            lemma_small_growth_sized(j as nat, booln22::sv_booln22_cap(v), 1, 1);
        }
        booln22::small_vec_booln22_push(&mut v, x);
        j = j + 1;
        assert(booln22::sv_booln22_items(v) =~= bools_at(g@, b + 2, j as nat));
    }
    let t = match read_usize(g, b + 10) {
        Some(x) => x,
        None => return (Vec::new(), Some(Halt::InputExhausted)),
    };
    booln22::small_vec_booln22_truncate(&mut v, t);
    let k = match read_usize(g, b + 14) {
        Some(x) => x,
        None => return (Vec::new(), Some(Halt::InputExhausted)),
    };
    let mut events: Vec<Event> = Vec::new();
    let ghost mut shown = Seq::<Expect>::empty();
    if k < booln22::small_vec_booln22_len(&v) {
        let ghost before = booln22::sv_booln22_items(v);
        let x = booln22::small_vec_booln22_remove(&mut v, k);
        push_event(&mut events, Ghost(shown), Event::Bool(x), Ghost(Expect::Bool(before[k as int])));
        proof {
            shown = shown.push(Expect::Bool(before[k as int]));
        }
    }
    let all = booln22::small_vec_booln22_into_vec(v);
    report_bools(&mut events, Ghost(shown), all.as_slice());
    assert(op_9(g@, b as int).0 =~= shown + each_bool(all@));
    (events, None)
}

/// Operation 10 (see `op_10`).
#[verifier::loop_isolation(false)]
fn run_op_10(g: &[u8], b: usize) -> (r: (Vec<Event>, Option<Halt>))
    requires
        b + 20 <= g.len(),
        b <= 1400,
    ensures
        events_match(r.0@, op_10(g@, b as int).0),
        r.1 == op_10(g@, b as int).1,
{
    let n = g[b + 1] % 65;
    let mut v = u64n16::small_vec_u64n16_new();
    let mut j: usize = 0;
    while j < n as usize
        invariant
            j <= n < 65,
            b <= 1400,
            v.wf(),
            u64n16::sv_u64n16_items(v) == u64s_at(g@, b + 2, j as nat),
            j > 0 ==> fits(g@, b + 2 + 8 * (j - 1), 8),
        decreases n - j,
    {
        let x = match read_u64(g, b + 2 + 8 * j) {
            Some(x) => x,
            None => return (Vec::new(), Some(Halt::InputExhausted)),
        };
        proof {
            broadcast use vstd::layout::layout_of_primitives;
            lemma_small_growth_sized(j as nat, u64n16::sv_u64n16_cap(v), 1, 8);
        }
        u64n16::small_vec_u64n16_push(&mut v, x);
        j = j + 1;
        assert(u64n16::sv_u64n16_items(v) =~= u64s_at(g@, b + 2, j as nat));
    }
    let at = match read_usize(g, b + 10) {
        Some(x) => x,
        None => return (Vec::new(), Some(Halt::InputExhausted)),
    };
    let value = match read_u64(g, b + 14) {
        Some(x) => x,
        None => return (Vec::new(), Some(Halt::InputExhausted)),
    };
    if at <= u64n16::small_vec_u64n16_len(&v) {
        proof {
            broadcast use vstd::layout::layout_of_primitives;
            lemma_small_growth_sized(n as nat, u64n16::sv_u64n16_cap(v), 1, 8);
        }
        u64n16::small_vec_u64n16_insert(&mut v, at, value);
    }
    let s = match read_usize(g, b + 18) {
        Some(x) => x,
        None => return (Vec::new(), Some(Halt::InputExhausted)),
    };
    let mut events: Vec<Event> = Vec::new();
    let ghost mut shown = Seq::<Expect>::empty();
    if s < u64n16::small_vec_u64n16_len(&v) {
        let ghost before = u64n16::sv_u64n16_items(v);
        let x = u64n16::small_vec_u64n16_swap_remove(&mut v, s);
        push_event(&mut events, Ghost(shown), Event::U64(x), Ghost(Expect::U64(before[s as int])));
        proof {
            shown = shown.push(Expect::U64(before[s as int]));
        }
    }
    let all = u64n16::small_vec_u64n16_into_vec(v);
    report_u64s(&mut events, Ghost(shown), all.as_slice());
    assert(op_10(g@, b as int).0 =~= shown + each_u64(all@));
    (events, None)
}

/// Operation 11 (see `op_11`).
#[verifier::loop_isolation(false)]
fn run_op_11(g: &[u8], b: usize) -> (r: (Vec<Event>, Option<Halt>))
    requires
        b + 20 <= g.len(),
        b <= 1400,
    ensures
        events_match(r.0@, op_11(g@, b as int).0),
        r.1 == op_11(g@, b as int).1,
{
    let n = g[b + 1] % 65;
    let mut v = i8n25::small_vec_i8n25_new();
    let mut j: usize = 0;
    while j < n as usize
        invariant
            j <= n < 65,
            b <= 1400,
            v.wf(),
            i8n25::sv_i8n25_items(v).len() == j,
            j > 0 ==> fits(g@, b + 2 + (j - 1), 1),
        decreases n - j,
    {
        let x = match read_i8(g, b + 2 + j) {
            Some(x) => x,
            None => return (Vec::new(), Some(Halt::InputExhausted)),
        };
        proof {
            broadcast use vstd::layout::layout_of_primitives;
            lemma_small_growth_sized(j as nat, i8n25::sv_i8n25_cap(v), 1, 1);
        }
        i8n25::small_vec_i8n25_push(&mut v, x);
        j = j + 1;
    }
    i8n25::small_vec_i8n25_clear(&mut v);
    let m = g[b + 10] % 65;
    let mut j: usize = 0;
    while j < m as usize
        invariant
            j <= m < 65,
            b <= 1400,
            v.wf(),
            i8n25::sv_i8n25_items(v) == i8s_at(g@, b + 11, j as nat),
            j > 0 ==> fits(g@, b + 11 + (j - 1), 1),
        decreases m - j,
    {
        let x = match read_i8(g, b + 11 + j) {
            Some(x) => x,
            None => return (Vec::new(), Some(Halt::InputExhausted)),
        };
        proof {
            broadcast use vstd::layout::layout_of_primitives;
            lemma_small_growth_sized(j as nat, i8n25::sv_i8n25_cap(v), 1, 1);
        }
        i8n25::small_vec_i8n25_push(&mut v, x);
        j = j + 1;
        assert(i8n25::sv_i8n25_items(v) =~= i8s_at(g@, b + 11, j as nat));
    }
    proof {
        broadcast use vstd::layout::layout_of_primitives;
        lemma_small_growth_sized(0, 25, m as nat, 1);
    }
    let copy = i8n25::small_vec_i8n25_clone(&v);
    let ghost items = i8s_at(g@, b + 11, m as nat);
    let mut events: Vec<Event> = Vec::new();
    let copied = i8n25::small_vec_i8n25_into_vec(copy);
    report_i8s(&mut events, Ghost(Seq::empty()), copied.as_slice());
    let all = i8n25::small_vec_i8n25_into_vec(v);
    report_i8s(&mut events, Ghost(Seq::empty() + each_i8(items)), all.as_slice());
    assert(Seq::<Expect>::empty() + each_i8(items) + each_i8(items) =~= op_11(g@, b as int).0);
    (events, None)
}

/// Operation 12 (see `op_12`).
fn run_op_12(g: &[u8], b: usize) -> (r: (Vec<Event>, Option<Halt>))
    requires
        b + 20 <= g.len(),
        b <= 1400,
    ensures
        events_match(r.0@, op_12(g@, b as int).0),
        r.1 == op_12(g@, b as int).1,
{
    let mut v = u32n14::small_vec_u32n14_new();
    let len = match read_usize(g, b + 1) {
        Some(x) => x,
        None => return (Vec::new(), Some(Halt::InputExhausted)),
    };
    let value = match read_u32(g, b + 9) {
        Some(x) => x,
        None => return (Vec::new(), Some(Halt::InputExhausted)),
    };
    if growth_overflows_exec(0, u32n14::small_vec_u32n14_capacity(&v), len, 4) {
        return (Vec::new(), Some(Halt::CapacityOverflow));
    }
    proof {
        broadcast use vstd::layout::layout_of_primitives;
    }
    u32n14::small_vec_u32n14_resize(&mut v, len, value);
    assert(u32n14::sv_u32n14_items(v) =~= repeat(value, len as nat));
    let s = match read_usize(g, b + 13) {
        Some(x) => x,
        None => return (Vec::new(), Some(Halt::InputExhausted)),
    };
    let e = match read_usize(g, b + 17) {
        Some(x) => x,
        None => return (Vec::new(), Some(Halt::InputExhausted)),
    };
    if s > e || e > u32n14::small_vec_u32n14_len(&v) {
        return (Vec::new(), Some(Halt::OutOfRange));
    }
    let drained = u32n14::small_vec_u32n14_drain(&mut v, s, e);
    let mut events: Vec<Event> = Vec::new();
    report_u32s(&mut events, Ghost(Seq::empty()), drained.as_slice());
    let all = u32n14::small_vec_u32n14_into_vec(v);
    report_u32s(&mut events, Ghost(Seq::empty() + each_u32(drained@)), all.as_slice());
    assert(Seq::<Expect>::empty() + each_u32(drained@) + each_u32(all@) =~= op_12(g@, b as int).0);
    (events, None)
}

/// Operation 13 (see `op_13`).
#[verifier::loop_isolation(false)]
fn run_op_13(g: &[u8], b: usize) -> (r: (Vec<Event>, Option<Halt>))
    requires
        b + 20 <= g.len(),
        b <= 1400,
    ensures
        events_match(r.0@, op_13(g@, b as int).0),
        r.1 == op_13(g@, b as int).1,
{
    let n = g[b + 1] % 65;
    let mut v = usizen13::small_vec_usizen13_new();
    let mut j: usize = 0;
    while j < n as usize
        invariant
            j <= n < 65,
            b <= 1400,
            v.wf(),
            usizen13::sv_usizen13_items(v) == numbers_at(g@, b + 2, j as nat),
            j > 0 ==> fits(g@, b + 2 + 8 * (j - 1), 8),
        decreases n - j,
    {
        let x = match read_usize(g, b + 2 + 8 * j) {
            Some(x) => x,
            None => return (Vec::new(), Some(Halt::InputExhausted)),
        };
        proof {
            broadcast use vstd::layout::layout_of_primitives;
            lemma_small_growth_sized(j as nat, usizen13::sv_usizen13_cap(v), 1, vstd::layout::size_of::<usize>());
        }
        usizen13::small_vec_usizen13_push(&mut v, x);
        j = j + 1;
        assert(usizen13::sv_usizen13_items(v) =~= numbers_at(g@, b + 2, j as nat));
    }
    let m = g[b + 10] % 65;
    let mut more: Vec<usize> = Vec::new();
    let mut j: usize = 0;
    while j < m as usize
        invariant
            j <= m < 65,
            b <= 1400,
            more@ == numbers_at(g@, b + 11, j as nat),
            j > 0 ==> fits(g@, b + 11 + 8 * (j - 1), 8),
        decreases m - j,
    {
        match read_usize(g, b + 11 + 8 * j) {
            Some(x) => more.push(x),
            None => return (Vec::new(), Some(Halt::InputExhausted)),
        }
        j = j + 1;
        assert(more@ =~= numbers_at(g@, b + 11, j as nat));
    }
    proof {
        broadcast use vstd::layout::layout_of_primitives;
        lemma_small_growth_sized(n as nat, usizen13::sv_usizen13_cap(v), m as nat, vstd::layout::size_of::<usize>());
    }
    usizen13::small_vec_usizen13_extend_from_slice(&mut v, more.as_slice());
    let ghost all0 = usizen13::sv_usizen13_items(v);
    let p = usizen13::small_vec_usizen13_pop(&mut v);
    let mut events: Vec<Event> = Vec::new();
    events.push(Event::Popped(p));
    let ghost shown = seq![Expect::Popped(if all0.len() == 0 { None } else { Some(all0.last()) })];
    assert(events_match(events@, shown));
    let all = usizen13::small_vec_usizen13_into_vec(v);
    report_usizes(&mut events, Ghost(shown), all.as_slice());
    assert(op_13(g@, b as int).0 =~= shown + each_usize(all@));
    (events, None)
}

/// Operation 14 (see `op_14`).
#[verifier::loop_isolation(false)]
fn run_op_14(g: &[u8], b: usize) -> (r: (Vec<Event>, Option<Halt>))
    requires
        b + 20 <= g.len(),
        b <= 1400,
    ensures
        events_match(r.0@, op_14(g@, b as int).0),
        r.1 == op_14(g@, b as int).1,
{
    let n = g[b + 1] % 65;
    let mut v = isizen19::small_vec_isizen19_new();
    let mut j: usize = 0;
    while j < n as usize
        invariant
            j <= n < 65,
            b <= 1400,
            v.wf(),
            isizen19::sv_isizen19_items(v) == isizes_at(g@, b + 2, j as nat),
            j > 0 ==> fits(g@, b + 2 + 8 * (j - 1), 8),
        decreases n - j,
    {
        let x = match read_isize(g, b + 2 + 8 * j) {
            Some(x) => x,
            None => return (Vec::new(), Some(Halt::InputExhausted)),
        };
        proof {
            broadcast use vstd::layout::layout_of_primitives;
            lemma_small_growth_sized(j as nat, isizen19::sv_isizen19_cap(v), 1, vstd::layout::size_of::<isize>());
        }
        isizen19::small_vec_isizen19_push(&mut v, x);
        j = j + 1;
        assert(isizen19::sv_isizen19_items(v) =~= isizes_at(g@, b + 2, j as nat));
    }
    let gc = match read_usize(g, b + 10) {
        Some(x) => x,
        None => return (Vec::new(), Some(Halt::InputExhausted)),
    };
    if gc < isizen19::small_vec_isizen19_len(&v) {
        return (Vec::new(), Some(Halt::OutOfRange));
    }
    if gc > 19 && gc > (isize::MAX as usize) / 8 {
        return (Vec::new(), Some(Halt::CapacityOverflow));
    }
    proof {
        broadcast use vstd::layout::layout_of_primitives;
    }
    isizen19::small_vec_isizen19_grow(&mut v, gc);
    let all = isizen19::small_vec_isizen19_into_iter_collect(v);
    let ghost items = isizes_at(g@, b + 2, n as nat);
    let mut events: Vec<Event> = Vec::new();
    report_isizes(&mut events, Ghost(Seq::empty()), all.as_slice());
    report_isizes(&mut events, Ghost(Seq::empty() + each_isize(items)), all.as_slice());
    assert(Seq::<Expect>::empty() + each_isize(items) + each_isize(items) =~= op_14(g@, b as int).0);
    (events, None)
}

/// Runs operation `op` of the block at `b` (see `op_step`).
fn run_op(g: &[u8], op: u8, b: usize) -> (r: (Vec<Event>, Option<Halt>))
    requires
        op < 15,
        b + 20 <= g.len(),
        b <= 1400,
    ensures
        events_match(r.0@, op_step(g@, op, b as int).0),
        r.1 == op_step(g@, op, b as int).1,
{
    reveal(op_step);
    if op == 0 {
        run_op_0(g, b)
    } else if op == 1 {
        run_op_1(g, b)
    } else if op == 2 {
        run_op_2(g, b)
    } else if op == 3 {
        run_op_3(g, b)
    } else if op == 4 {
        let mut events: Vec<Event> = Vec::new();
        events.push(Event::FloatOp(b));
        assert(events_match(events@, seq![Expect::FloatOp(b as nat)]));
        (events, None)
    } else if op == 5 {
        run_op_5(g, b)
    } else if op == 6 {
        run_op_6(g, b)
    } else if op == 7 {
        run_op_7(g, b)
    } else if op == 8 {
        run_op_8(g, b)
    } else if op == 9 {
        run_op_9(g, b)
    } else if op == 10 {
        run_op_10(g, b)
    } else if op == 11 {
        run_op_11(g, b)
    } else if op == 12 {
        run_op_12(g, b)
    } else if op == 13 {
        run_op_13(g, b)
    } else {
        run_op_14(g, b)
    }
}

/// The events of a run, and why it stopped early, if it did.
pub struct Run {
    pub events: Vec<Event>,
    pub halt: Option<Halt>,
}

/// Runs the script of an input of `input_len` bytes whose first half is `g`;
/// what it reports is what the script is owed. The operation on
/// floating-point items is left to the caller, reported as `FloatOp` in its
/// place.
pub fn run(input_len: usize, g: &[u8]) -> (r: Run)
    ensures
        events_match(r.events@, script_outcome(input_len as nat, g@).0),
        r.halt == script_outcome(input_len as nat, g@).1,
{
    let mut events: Vec<Event> = Vec::new();
    if input_len < 200 {
        return Run { events, halt: None };
    }
    let count = match read_u8(g, 0) {
        Some(x) => x % 65,
        None => return Run { events, halt: Some(Halt::InputExhausted) },
    };
    let ghost n = count as nat;
    let ghost mut owed = Seq::<Expect>::empty();
    assert(owed + ops_from(g@, 0, n).0 =~= ops_from(g@, 0, n).0);
    let mut k: usize = 0;
    while k < count as usize
        invariant
            k <= count < 65,
            input_len >= 200,
            fits(g@, 0, 1),
            n == count as nat,
            n == (g@[0] % 65) as nat,
            events_match(events@, owed),
            script_outcome(input_len as nat, g@) == (owed + ops_from(g@, k as nat, n).0, ops_from(g@, k as nat, n).1),
        decreases count as usize - k,
    {
        let b = 10 + 20 * k;
        if b + 20 > g.len() {
            assert(owed + Seq::<Expect>::empty() =~= owed);
            return Run { events, halt: None };
        }
        let op = g[b] % 15;
        let (evs, halt) = run_op(g, op, b);
        let ghost st = op_step(g@, op, b as int);
        proof {
            lemma_events_match_append(events@, owed, evs@, st.0);
        }
        let mut evs = evs;
        events.append(&mut evs);
        if halt.is_some() {
            return Run { events, halt };
        }
        proof {
            let rest = ops_from(g@, (k + 1) as nat, n);
            assert(ops_from(g@, k as nat, n) == (st.0 + rest.0, rest.1));
            assert(owed + (st.0 + rest.0) =~= (owed + st.0) + rest.0);
            owed = owed + st.0;
        }
        k = k + 1;
    }
    assert(owed + Seq::<Expect>::empty() =~= owed);
    Run { events, halt: None }
}

/// Operation 9 removes and reports, at an index `r` within the truncated
/// flags, the flag read at `b + 2 + r` (whether that byte is even).
pub proof fn law_removed_flag_is_the_one_read_at_the_index(g: Seq<u8>, b: int)
    requires
        0 <= b,
        b + 1 < g.len(),
        reads_ok(g, b + 2, 1, 1, (g[b + 1] % 65) as nat),
        fits(g, b + 14, 8),
        usize_at(g, b + 14) < (g[b + 1] % 65),
        usize_at(g, b + 14) < usize_at(g, b + 10),
    ensures
        op_9(g, b).1 is None,
        op_9(g, b).0[0] == Expect::Bool(g[b + 2 + usize_at(g, b + 14)] % 2 == 0),
{
}

/// Operation 10 swaps out, at an index `s` in range, the value that ends up
/// there after the insertion: a read value before the insertion point, the
/// inserted value at it, and the read value one further on past it.
pub proof fn law_swapped_value_follows_the_insertion(g: Seq<u8>, b: int)
    requires
        0 <= b,
        b + 1 < g.len(),
        reads_ok(g, b + 2, 8, 8, (g[b + 1] % 65) as nat),
        fits(g, b + 14, 8),
        fits(g, b + 18, 8),
        usize_at(g, b + 10) <= (g[b + 1] % 65),
        usize_at(g, b + 18) <= (g[b + 1] % 65),
    ensures
        ({
            let at = usize_at(g, b + 10) as int;
            let s = usize_at(g, b + 18) as int;
            let o = op_10(g, b);
            &&& o.1 is None
            &&& s < at ==> o.0[0] == Expect::U64(u64_at(g, b + 2 + 8 * s))
            &&& s == at ==> o.0[0] == Expect::U64(u64_at(g, b + 14))
            &&& s > at ==> o.0[0] == Expect::U64(u64_at(g, b + 2 + 8 * (s - 1)))
        }),
{
}

} // verus!

//! A script of ten kinds of operation, each reading its arguments from a
//! block of 80 bytes of its own, the `k`th operation from byte `80 * k`;
//! almost every operation reports the items it holds, borrowed from the
//! vector as a slice.
use vstd::prelude::*;
use crate::cursor::{bools_at, i32n12, i64n16, i64s_at, u16s_at};
use crate::medley::{chars_halt, pushes_cap, reads_ok, stringn14};
use crate::script::{
    fits, i32_at, i32s_at, read_bool, read_char, read_i16, read_i32, read_i32s, read_i64, read_text, read_u16, read_u8,
    read_usize, text_of, usize_at, Halt,
};
use crate::small_vec::{
    dedup_seq, exact_growth_overflows, exact_growth_overflows_exec, growth_overflows, growth_overflows_exec, grown,
    i64_ints, lemma_small_growth_sized, lex_order, open_cap, repeat, Order,
};
use crate::survey::{bytes_at, codes_at, i16_at, i64_at, u16n32};
use crate::bytes::be_u32;

pub mod u8n15;
pub mod booln14;
pub mod charn16;
pub mod i16n20;

verus! {

/// What the script reports, one value per printed line.
#[derive(Debug, PartialEq, Eq)]
pub enum Event {
    I32(i32),
    I32s(Vec<i32>),
    U8s(Vec<u8>),
    /// A length or capacity.
    Count(usize),
    /// A flag printed with `{:?}`.
    Flag(bool),
    /// An operation on floating-point items, of the given kind and block,
    /// left to the caller.
    FloatOp(u8, usize),
    I64s(Vec<i64>),
    /// An order from `cmp`.
    Compared(Order),
    /// An order from `partial_cmp`, printed as `Some(..)`.
    PartialCompared(Order),
    Texts(Vec<String>),
    Text(String),
    Bools(Vec<bool>),
    Bool(bool),
    Chars(Vec<char>),
    Char(char),
    U16s(Vec<u16>),
    /// An address from `as_ptr`.
    Ptr(usize),
    I16s(Vec<i16>),
}

/// What the script is owed to report; an address may be any, and characters
/// are owed by their codes.
pub enum Expect {
    I32(i32),
    I32s(Seq<i32>),
    U8s(Seq<u8>),
    Count(nat),
    Flag(bool),
    FloatOp(u8, nat),
    I64s(Seq<i64>),
    Compared(Order),
    PartialCompared(Order),
    Texts(Seq<Seq<char>>),
    Text(Seq<char>),
    Bools(Seq<bool>),
    Bool(bool),
    Chars(Seq<u32>),
    Char(u32),
    U16s(Seq<u16>),
    Ptr,
    I16s(Seq<i16>),
}

/// The texts of `v`, as sequences of characters.
pub open spec fn texts_of(v: Seq<String>) -> Seq<Seq<char>> {
    v.map_values(|s: String| s@)
}

/// The codes of `v`.
pub open spec fn char_codes(v: Seq<char>) -> Seq<u32> {
    v.map_values(|c: char| c as u32)
}

/// Whether a reported event is the one that was owed.
pub open spec fn event_matches(e: Event, x: Expect) -> bool {
    match e {
        Event::I32(v) => x == Expect::I32(v),
        Event::I32s(v) => x == Expect::I32s(v@),
        Event::U8s(v) => x == Expect::U8s(v@),
        Event::Count(n) => x == Expect::Count(n as nat),
        Event::Flag(b) => x == Expect::Flag(b),
        Event::FloatOp(op, b) => x == Expect::FloatOp(op, b as nat),
        Event::I64s(v) => x == Expect::I64s(v@),
        Event::Compared(o) => x == Expect::Compared(o),
        Event::PartialCompared(o) => x == Expect::PartialCompared(o),
        Event::Texts(v) => x == Expect::Texts(texts_of(v@)),
        Event::Text(s) => x == Expect::Text(s@),
        Event::Bools(v) => x == Expect::Bools(v@),
        Event::Bool(b) => x == Expect::Bool(b),
        Event::Chars(v) => x == Expect::Chars(char_codes(v@)),
        Event::Char(c) => x == Expect::Char(c as u32),
        Event::U16s(v) => x == Expect::U16s(v@),
        Event::Ptr(_) => x is Ptr,
        Event::I16s(v) => x == Expect::I16s(v@),
    }
}

/// Whether the reported events are, one for one, those owed.
pub open spec fn events_match(a: Seq<Event>, x: Seq<Expect>) -> bool {
    &&& a.len() == x.len()
    &&& forall|i: int| 0 <= i < a.len() ==> #[trigger] event_matches(a[i], x[i])
}

/// Reported events, followed by more, match what was owed followed by more.
proof fn lemma_events_match_append(a: Seq<Event>, x: Seq<Expect>, b: Seq<Event>, y: Seq<Expect>)
    requires
        events_match(a, x),
        events_match(b, y),
    ensures
        events_match(a + b, x + y),
{
    assert forall|i: int| 0 <= i < (a + b).len() implies #[trigger] event_matches((a + b)[i], (x + y)[i]) by {
        if i < a.len() {
            assert(event_matches(a[i], x[i]));
        } else {
            assert(event_matches(b[i - a.len()], y[i - a.len()]));
        }
    }
}

/// What an operation is owed: its events, and why it halts, if it does.
pub type Outcome = (Seq<Expect>, Option<Halt>);

/// An operation that halts with `h` before reporting anything.
pub open spec fn halted(h: Halt) -> Outcome {
    (Seq::empty(), Some(h))
}

/// An operation that reports `events` and does not halt.
pub open spec fn done(events: Seq<Expect>) -> Outcome {
    (events, None)
}

/// The vector of operation 0 made by the constructor read at `b + 2`, and
/// its capacity, `c` where the constructor takes a `Vec`'s buffer over.
pub open spec fn built_0(g: Seq<u8>, b: int, c: nat) -> Result<(Seq<i32>, nat), Halt> {
    let choice = g[b + 2] % 5;
    if choice == 0 {
        if !fits(g, b + 3, 8) {
            Err(Halt::InputExhausted)
        } else if exact_growth_overflows(0, 12, usize_at(g, b + 3) as nat, 4) {
            Err(Halt::CapacityOverflow)
        } else {
            let n0 = usize_at(g, b + 3) as nat;
            Ok((Seq::empty(), if n0 <= 12 { 12 } else { n0 }))
        }
    } else if choice == 1 {
        if !fits(g, b + 11, 1) {
            Err(Halt::InputExhausted)
        } else {
            let m = (g[b + 11] % 33) as nat;
            if !reads_ok(g, b + 15, 4, 4, m) {
                Err(Halt::InputExhausted)
            } else {
                Ok((i32s_at(g, b + 15, 4, m), open_cap(c, m, 12, 4)))
            }
        }
    } else if choice == 2 {
        if !fits(g, b + 3, 4) || !fits(g, b + 7, 8) {
            Err(Halt::InputExhausted)
        } else {
            let n = usize_at(g, b + 7) as nat;
            if n > 12 && n * 4 > isize::MAX {
                Err(Halt::CapacityOverflow)
            } else {
                Ok((repeat(i32_at(g, b + 3), n), if n <= 12 { 12 } else { open_cap(c, n, 12, 4) }))
            }
        }
    } else if choice == 3 {
        if !fits(g, b + 3, 48) {
            Err(Halt::InputExhausted)
        } else {
            Ok((i32s_at(g, b + 3, 4, 12), 12))
        }
    } else {
        Ok((Seq::empty(), 12))
    }
}

/// Operation 0: a `SmallVec<[i32; 12]>` made by one of five constructors; a
/// read value pushed and popped again, reported, then the items three times
/// (borrowed, as a slice, dereferenced).
pub open spec fn op_0(g: Seq<u8>, b: int, c: nat) -> Outcome {
    if !fits(g, b + 2, 1) {
        halted(Halt::InputExhausted)
    } else {
        match built_0(g, b, c) {
            Err(h) => halted(h),
            Ok(t) => if !fits(g, b + 51, 4) {
                halted(Halt::InputExhausted)
            } else if growth_overflows(t.0.len(), t.1, 1, 4) {
                halted(Halt::CapacityOverflow)
            } else {
                done(seq![Expect::I32(i32_at(g, b + 51)), Expect::I32s(t.0), Expect::I32s(t.0), Expect::I32s(t.0)])
            },
        }
    }
}

/// The vector of operation 1 made by the constructor read at `b + 2`, and
/// its capacity.
pub open spec fn built_1(g: Seq<u8>, b: int) -> Result<(Seq<u8>, nat), Halt> {
    let choice = g[b + 2] % 3;
    if choice == 0 {
        Ok((Seq::empty(), 15))
    } else if choice == 1 {
        if !fits(g, b + 3, 8) {
            Err(Halt::InputExhausted)
        } else if exact_growth_overflows(0, 15, usize_at(g, b + 3) as nat, 1) {
            Err(Halt::CapacityOverflow)
        } else {
            let n0 = usize_at(g, b + 3) as nat;
            Ok((Seq::empty(), if n0 <= 15 { 15 } else { n0 }))
        }
    } else if !fits(g, b + 3, 3) {
        Err(Halt::InputExhausted)
    } else {
        Ok((bytes_at(g, b + 3, 3), 15))
    }
}

/// Operation 1: a `SmallVec<[u8; 15]>` made by one of three constructors,
/// read bytes pushed; report the items twice, the capacity, the length and
/// whether it spilled.
pub open spec fn op_1(g: Seq<u8>, b: int) -> Outcome {
    if !fits(g, b + 2, 1) {
        halted(Halt::InputExhausted)
    } else {
        match built_1(g, b) {
            Err(h) => halted(h),
            Ok(t) => if !fits(g, b + 7, 1) {
                halted(Halt::InputExhausted)
            } else {
                let n = (g[b + 7] % 25) as nat;
                if !reads_ok(g, b + 8, 1, 1, n) {
                    halted(Halt::InputExhausted)
                } else {
                    let items = t.0 + bytes_at(g, b + 8, n);
                    let cap = pushes_cap(t.0.len(), t.1, n);
                    done(seq![
                        Expect::U8s(items),
                        Expect::U8s(items),
                        Expect::Count(cap),
                        Expect::Count(items.len()),
                        Expect::Flag(cap > 15),
                    ])
                }
            },
        }
    }
}

/// One vector of operation 3 made by the constructor `choice`: empty, `n`
/// copies of the value at `at_elem` (`n` read at `at_count`), or empty with
/// the capacity read at `at_elem`.
pub open spec fn built_3(g: Seq<u8>, at_elem: int, at_count: int, choice: u8) -> Result<Seq<i64>, Halt> {
    if choice == 0 {
        Ok(Seq::empty())
    } else if choice == 1 {
        if !fits(g, at_elem, 8) || !fits(g, at_count, 8) {
            Err(Halt::InputExhausted)
        } else {
            Ok(repeat(i64_at(g, at_elem), usize_at(g, at_count) as nat % 20))
        }
    } else if !fits(g, at_elem, 8) {
        Err(Halt::InputExhausted)
    } else if exact_growth_overflows(0, 16, usize_at(g, at_elem) as nat, 8) {
        Err(Halt::CapacityOverflow)
    } else {
        Ok(Seq::empty())
    }
}

/// Operation 3: two `SmallVec<[i64; 16]>`, each made by one of three
/// constructors and given read values; report both, their order twice, and
/// the length of the second once appended to the first.
pub open spec fn op_3(g: Seq<u8>, b: int) -> Outcome {
    if !fits(g, b + 2, 2) {
        halted(Halt::InputExhausted)
    } else {
        match built_3(g, b + 4, b + 12, g[b + 2] % 3) {
            Err(h) => halted(h),
            Ok(f) => match built_3(g, b + 20, b + 28, g[b + 3] % 3) {
                Err(h) => halted(h),
                Ok(s) => if !fits(g, b + 36, 2) {
                    halted(Halt::InputExhausted)
                } else {
                    let m = (g[b + 36] % 12) as nat;
                    let k = (g[b + 37] % 12) as nat;
                    if !reads_ok(g, b + 38, 8, 8, m) || !reads_ok(g, b + 54, 8, 8, k) {
                        halted(Halt::InputExhausted)
                    } else {
                        let fv = f + i64s_at(g, b + 38, m);
                        let sv = s + i64s_at(g, b + 54, k);
                        let o = lex_order(i64_ints(fv), i64_ints(sv));
                        done(seq![
                            Expect::I64s(fv),
                            Expect::I64s(sv),
                            Expect::Compared(o),
                            Expect::PartialCompared(o),
                            Expect::Count(0),
                        ])
                    }
                },
            },
        }
    }
}

/// The texts of the vector of operation 4 made by the constructor read at
/// `b + 2`.
pub open spec fn built_4(g: Seq<u8>, b: int) -> Result<Seq<Seq<char>>, Halt> {
    let choice = g[b + 2] % 3;
    if choice == 0 {
        Ok(Seq::empty())
    } else if choice == 1 {
        if !fits(g, b + 3, 8) {
            Err(Halt::InputExhausted)
        } else if exact_growth_overflows(0, 14, usize_at(g, b + 3) as nat, vstd::layout::size_of::<String>()) {
            Err(Halt::CapacityOverflow)
        } else {
            Ok(Seq::empty())
        }
    } else {
        Ok(seq!["test1"@, "test2"@])
    }
}

/// The texts that the first `k` rounds of operation 4 push: round `i` reads
/// a length of 1 to 10 at `b + 12 + i` and a text of that length at
/// `b + 20 + 10 * i`, skipped where it runs past the first half.
pub open spec fn texts_4(g: Seq<u8>, b: int, k: nat) -> Result<Seq<Seq<char>>, Halt>
    decreases k,
{
    if k == 0 {
        Ok(Seq::empty())
    } else {
        match texts_4(g, b, (k - 1) as nat) {
            Err(h) => Err(h),
            Ok(s) => {
                let i = k - 1;
                if !fits(g, b + 12 + i, 1) {
                    Err(Halt::InputExhausted)
                } else {
                    let len = (g[b + 12 + i] % 10 + 1) as nat;
                    let start = b + 20 + 10 * i;
                    if start + len > g.len() {
                        Ok(s)
                    } else {
                        match text_of(g, start, len) {
                            Err(h) => Err(h),
                            Ok(t) => Ok(s.push(t)),
                        }
                    }
                }
            },
        }
    }
}

/// One event for each text.
pub open spec fn each_text(s: Seq<Seq<char>>) -> Seq<Expect> {
    s.map_values(|t: Seq<char>| Expect::Text(t))
}

/// Operation 4: a `SmallVec<[String; 14]>` made by one of three
/// constructors, read texts pushed; report them, insert a text at a read
/// position where there are any, and report each item as it is consumed.
pub open spec fn op_4(g: Seq<u8>, b: int) -> Outcome {
    if !fits(g, b + 2, 1) {
        halted(Halt::InputExhausted)
    } else {
        match built_4(g, b) {
            Err(h) => halted(h),
            Ok(base) => if !fits(g, b + 11, 1) {
                halted(Halt::InputExhausted)
            } else {
                match texts_4(g, b, (g[b + 11] % 8) as nat) {
                    Err(h) => halted(h),
                    Ok(pushed) => {
                        let items = base + pushed;
                        let shown = seq![Expect::Texts(items)];
                        if !fits(g, b + 70, 8) {
                            (shown, Some(Halt::InputExhausted))
                        } else {
                            let last = if items.len() > 0 {
                                items.insert((usize_at(g, b + 70) as nat % items.len()) as int, "inserted"@)
                            } else {
                                items
                            };
                            done(shown + each_text(last))
                        }
                    },
                }
            },
        }
    }
}

/// The capacity of the vector of operation 5 made by the constructor read
/// at `b + 2`.
pub open spec fn built_5(g: Seq<u8>, b: int) -> Result<nat, Halt> {
    if g[b + 2] % 2 == 0 {
        Ok(14)
    } else if !fits(g, b + 3, 8) {
        Err(Halt::InputExhausted)
    } else if exact_growth_overflows(0, 14, usize_at(g, b + 3) as nat, 1) {
        Err(Halt::CapacityOverflow)
    } else {
        Ok(if usize_at(g, b + 3) <= 14 { 14 } else { usize_at(g, b + 3) as nat })
    }
}

/// Operation 5: read flags pushed to a `SmallVec<[bool; 14]>` made by one of
/// two constructors; report them, truncate to a read length, and where any
/// are left drain a range read modulo the length, reporting its first flag.
pub open spec fn op_5(g: Seq<u8>, b: int) -> Outcome {
    if !fits(g, b + 2, 1) {
        halted(Halt::InputExhausted)
    } else {
        match built_5(g, b) {
            Err(h) => halted(h),
            Ok(_) => if !fits(g, b + 11, 1) {
                halted(Halt::InputExhausted)
            } else {
                let n = (g[b + 11] % 20) as nat;
                if !reads_ok(g, b + 12, 1, 1, n) {
                    halted(Halt::InputExhausted)
                } else {
                    let items = bools_at(g, b + 12, n);
                    let shown = seq![Expect::Bools(items)];
                    if !fits(g, b + 32, 8) {
                        (shown, Some(Halt::InputExhausted))
                    } else {
                        let t = usize_at(g, b + 32) as nat;
                        let v = if t < n { items.take(t as int) } else { items };
                        if !fits(g, b + 40, 8) || !fits(g, b + 48, 8) {
                            (shown, Some(Halt::InputExhausted))
                        } else if v.len() == 0 {
                            done(shown)
                        } else {
                            let s = usize_at(g, b + 40) as nat % v.len();
                            let e0 = usize_at(g, b + 48) as nat % v.len();
                            let e = if e0 < s { s } else { e0 };
                            done(if s < e { shown.push(Expect::Bool(v[s as int])) } else { shown })
                        }
                    }
                }
            },
        }
    }
}

/// The character codes of the vector of operation 6 made by the
/// constructor read at `b + 2`: three, sixteen or one read at `b + 3`.
pub open spec fn built_6(g: Seq<u8>, b: int) -> Result<Seq<u32>, Halt> {
    let choice = g[b + 2] % 3;
    let n: nat = if choice == 0 { 3 } else if choice == 1 { 16 } else { 1 };
    match chars_halt(g, b + 3, 0, n) {
        Some(h) => Err(h),
        None => Ok(codes_at(g, b + 3, n)),
    }
}

/// Operation 6: a `SmallVec<[char; 16]>` of read characters made by one of
/// three constructors; report them, the one at a read index, and the length
/// of the boxed slice it turns into.
pub open spec fn op_6(g: Seq<u8>, b: int) -> Outcome {
    if !fits(g, b + 2, 1) {
        halted(Halt::InputExhausted)
    } else {
        match built_6(g, b) {
            Err(h) => halted(h),
            Ok(codes) => {
                let shown = seq![Expect::Chars(codes)];
                if !fits(g, b + 19, 8) {
                    (shown, Some(Halt::InputExhausted))
                } else {
                    let k = usize_at(g, b + 19) as nat % codes.len();
                    done(shown + seq![Expect::Char(codes[k as int]), Expect::Count(codes.len())])
                }
            },
        }
    }
}

/// Operation 7: four read `u16` values copied into a `SmallVec<[u16; 32]>`;
/// report them, the address, that it did not spill, and the length of the
/// `Vec` it turns into.
pub open spec fn op_7(g: Seq<u8>, b: int) -> Outcome {
    if !fits(g, b + 2, 8) {
        halted(Halt::InputExhausted)
    } else {
        done(seq![Expect::U16s(u16s_at(g, b + 2, 4)), Expect::Ptr, Expect::Flag(false), Expect::Count(4)])
    }
}

/// The capacity of the vector of operation 9 made by the constructor read
/// at `b + 2`.
pub open spec fn built_9(g: Seq<u8>, b: int) -> Result<nat, Halt> {
    if g[b + 2] % 2 == 0 {
        Ok(20)
    } else if !fits(g, b + 3, 8) {
        Err(Halt::InputExhausted)
    } else if exact_growth_overflows(0, 20, usize_at(g, b + 3) as nat, 2) {
        Err(Halt::CapacityOverflow)
    } else {
        Ok(if usize_at(g, b + 3) <= 20 { 20 } else { usize_at(g, b + 3) as nat })
    }
}

/// Operation 9 (and any other number): an empty `SmallVec<[i16; 20]>` made
/// by one of two constructors, resized to a read length with a read value,
/// extended by two read values; report the items, then the length once
/// repeats are removed.
pub open spec fn op_9(g: Seq<u8>, b: int) -> Outcome {
    if !fits(g, b + 2, 1) {
        halted(Halt::InputExhausted)
    } else {
        match built_9(g, b) {
            Err(h) => halted(h),
            Ok(cap) => if !fits(g, b + 11, 8) || !fits(g, b + 19, 2) {
                halted(Halt::InputExhausted)
            } else {
                let len = usize_at(g, b + 11) as nat;
                if growth_overflows(0, cap, len, 2) {
                    halted(Halt::CapacityOverflow)
                } else if !fits(g, b + 21, 2) || !fits(g, b + 23, 2) {
                    halted(Halt::InputExhausted)
                } else if growth_overflows(len, grown(0, cap, len), 2, 2) {
                    halted(Halt::CapacityOverflow)
                } else {
                    let items = repeat(i16_at(g, b + 19), len) + seq![i16_at(g, b + 21), i16_at(g, b + 23)];
                    done(seq![Expect::I16s(items), Expect::Count(dedup_seq(items).len())])
                }
            },
        }
    }
}

/// What operation `op` of the block at `b` is owed, `c` being the capacity
/// of a buffer that a vector takes over.
#[verifier::opaque]
pub open spec fn op_step(g: Seq<u8>, op: u8, b: int, c: nat) -> Outcome {
    if op == 0 {
        op_0(g, b, c)
    } else if op == 1 {
        op_1(g, b)
    } else if op == 2 || op == 8 {
        done(seq![Expect::FloatOp(op, b as nat)])
    } else if op == 3 {
        op_3(g, b)
    } else if op == 4 {
        op_4(g, b)
    } else if op == 5 {
        op_5(g, b)
    } else if op == 6 {
        op_6(g, b)
    } else if op == 7 {
        op_7(g, b)
    } else {
        op_9(g, b)
    }
}

/// What operations `k` up to `count` owe, in turn, stopping at the first
/// that halts; the capacity choice of operation `k` is `cs[0]`, and so on.
pub open spec fn ops_from(g: Seq<u8>, k: nat, count: nat, cs: Seq<nat>) -> Outcome
    decreases count - k,
{
    if k >= count {
        (Seq::empty(), None)
    } else if !fits(g, 80 * k as int + 1, 1) {
        halted(Halt::InputExhausted)
    } else {
        let st = op_step(g, g[80 * k as int + 1] % 10, 80 * k as int, cs[0]);
        if st.1 is Some {
            st
        } else {
            let rest = ops_from(g, k + 1, count, cs.drop_first());
            (st.0 + rest.0, rest.1)
        }
    }
}

/// What a whole run is owed, the capacity choices being `cs`: between 5 and
/// 24 operations, by the first byte. Inputs shorter than 2000 bytes are
/// ignored.
pub open spec fn script_outcome(input_len: nat, g: Seq<u8>, cs: Seq<nat>) -> Outcome {
    if input_len < 2000 {
        (Seq::empty(), None)
    } else if !fits(g, 0, 1) {
        halted(Halt::InputExhausted)
    } else {
        ops_from(g, 0, (g[0] % 20 + 5) as nat, cs)
    }
}


/// `n` bytes read at `start`, or `None` when a read runs past the end.
fn read_bytes(g: &[u8], start: usize, n: usize) -> (r: Option<Vec<u8>>)
    requires
        start <= 4096,
        n <= 64,
    ensures
        r is Some <==> reads_ok(g@, start as int, 1, 1, n as nat),
        r matches Some(v) ==> v@ == bytes_at(g@, start as int, n as nat),
{
    let mut v: Vec<u8> = Vec::new();
    let mut k: usize = 0;
    while k < n
        invariant
            k <= n <= 64,
            start <= 4096,
            v@ == bytes_at(g@, start as int, k as nat),
            k > 0 ==> fits(g@, start + (k - 1), 1),
        decreases n - k,
    {
        match read_u8(g, start + k) {
            Some(x) => v.push(x),
            None => return None,
        }
        k = k + 1;
        assert(v@ =~= bytes_at(g@, start as int, k as nat));
    }
    Some(v)
}

/// `n` values read at `start`, eight bytes apart, or `None` when a read runs
/// past the end.
fn read_i64s(g: &[u8], start: usize, n: usize) -> (r: Option<Vec<i64>>)
    requires
        start <= 4096,
        n <= 64,
    ensures
        r is Some <==> reads_ok(g@, start as int, 8, 8, n as nat),
        r matches Some(v) ==> v@ == i64s_at(g@, start as int, n as nat),
{
    let mut v: Vec<i64> = Vec::new();
    let mut k: usize = 0;
    while k < n
        invariant
            k <= n <= 64,
            start <= 4096,
            v@ == i64s_at(g@, start as int, k as nat),
            k > 0 ==> fits(g@, start + 8 * (k - 1), 8),
        decreases n - k,
    {
        match read_i64(g, start + 8 * k) {
            Some(x) => v.push(x),
            None => return None,
        }
        k = k + 1;
        assert(v@ =~= i64s_at(g@, start as int, k as nat));
    }
    Some(v)
}

/// The vector of operation 0 (see `built_0`), and the capacity it took over
/// where the constructor leaves it open.
fn build_0(g: &[u8], b: usize) -> (r: (Result<i32n12::SmallVecI32N12, Halt>, Ghost<nat>))
    requires
        b <= 2000,
        fits(g@, b + 2, 1),
    ensures
        forall|c: nat|
            #![trigger built_0(g@, b as int, c)]
            c == r.1@ ==> match r.0 {
                Ok(v) => built_0(g@, b as int, c) == Ok::<(Seq<i32>, nat), Halt>(
                    (i32n12::sv_i32n12_items(v), i32n12::sv_i32n12_cap(v)),
                ),
                Err(h) => built_0(g@, b as int, c) == Err::<(Seq<i32>, nat), Halt>(h),
            },
        r.0 matches Ok(v) ==> v.wf(),
{
    proof {
        broadcast use vstd::layout::layout_of_primitives;
    }
    let choice = g[b + 2] % 5;
    if choice == 0 {
        let n0 = match read_usize(g, b + 3) {
            Some(x) => x,
            None => return (Err(Halt::InputExhausted), Ghost(0)),
        };
        if exact_growth_overflows_exec(0, 12, n0, 4) {
            return (Err(Halt::CapacityOverflow), Ghost(0));
        }
        (Ok(i32n12::small_vec_i32n12_with_capacity(n0)), Ghost(0))
    } else if choice == 1 {
        let m = match read_u8(g, b + 11) {
            Some(x) => x % 33,
            None => return (Err(Halt::InputExhausted), Ghost(0)),
        };
        let vals = match read_i32s(g, b + 15, 4, m as usize) {
            Some(v) => v,
            None => return (Err(Halt::InputExhausted), Ghost(0)),
        };
        let v = i32n12::small_vec_i32n12_from_vec(vals);
        (Ok(v), Ghost(i32n12::sv_i32n12_cap(v)))
    } else if choice == 2 {
        let e = match read_i32(g, b + 3) {
            Some(x) => x,
            None => return (Err(Halt::InputExhausted), Ghost(0)),
        };
        let n = match read_usize(g, b + 7) {
            Some(x) => x,
            None => return (Err(Halt::InputExhausted), Ghost(0)),
        };
        if n > 12 && n > (isize::MAX as usize) / 4 {
            return (Err(Halt::CapacityOverflow), Ghost(0));
        }
        let v = i32n12::small_vec_i32n12_from_elem(e, n);
        (Ok(v), Ghost(i32n12::sv_i32n12_cap(v)))
    } else if choice == 3 {
        let vals = match read_i32s(g, b + 3, 4, 12) {
            Some(v) => v,
            None => return (Err(Halt::InputExhausted), Ghost(0)),
        };
        let buf: [i32; 12] = [
            vals[0], vals[1], vals[2], vals[3], vals[4], vals[5], vals[6], vals[7], vals[8], vals[9], vals[10],
            vals[11],
        ];
        assert(buf@ =~= vals@);
        (Ok(i32n12::small_vec_i32n12_from_buf(buf)), Ghost(0))
    } else {
        (Ok(i32n12::small_vec_i32n12_new()), Ghost(0))
    }
}

/// Operation 0 (see `op_0`); the capacity a vector took over is the choice.
fn run_op_0(g: &[u8], b: usize) -> (r: (Vec<Event>, Option<Halt>, Ghost<nat>))
    requires
        b <= 2000,
    ensures
        events_match(r.0@, op_0(g@, b as int, r.2@).0),
        r.1 == op_0(g@, b as int, r.2@).1,
{
    if g.len() <= b + 2 {
        return (Vec::new(), Some(Halt::InputExhausted), Ghost(0));
    }
    let (built, Ghost(c)) = build_0(g, b);
    let mut v = match built {
        Ok(v) => v,
        Err(h) => return (Vec::new(), Some(h), Ghost(c)),
    };
    let x = match read_i32(g, b + 51) {
        Some(x) => x,
        None => return (Vec::new(), Some(Halt::InputExhausted), Ghost(c)),
    };
    let len = vstd::slice::slice_to_vec(i32n12::small_vec_i32n12_as_slice(&v)).len();
    if growth_overflows_exec(len, i32n12::small_vec_i32n12_capacity(&v), 1, 4) {
        return (Vec::new(), Some(Halt::CapacityOverflow), Ghost(c));
    }
    proof {
        broadcast use vstd::layout::layout_of_primitives;
    }
    i32n12::small_vec_i32n12_push(&mut v, x);
    let mut events: Vec<Event> = Vec::new();
    match i32n12::small_vec_i32n12_pop(&mut v) {
        Some(p) => events.push(Event::I32(p)),
        None => {},
    }
    assert(i32n12::sv_i32n12_items(v) =~= built_0(g@, b as int, c).unwrap().0);
    events.push(Event::I32s(vstd::slice::slice_to_vec(i32n12::small_vec_i32n12_borrow(&v))));
    events.push(Event::I32s(vstd::slice::slice_to_vec(i32n12::small_vec_i32n12_as_slice(&v))));
    events.push(Event::I32s(vstd::slice::slice_to_vec(i32n12::small_vec_i32n12_deref(&v))));
    i32n12::small_vec_i32n12_clear(&mut v);
    i32n12::small_vec_i32n12_shrink_to_fit(&mut v);
    proof {
        let w = op_0(g@, b as int, c).0;
        assert(forall|i: int| 0 <= i < events@.len() ==> #[trigger] event_matches(events@[i], w[i]));
    }
    (events, None, Ghost(c))
}

/// Operation 1 (see `op_1`).
#[verifier::loop_isolation(false)]
fn run_op_1(g: &[u8], b: usize) -> (r: (Vec<Event>, Option<Halt>))
    requires
        b <= 2000,
    ensures
        events_match(r.0@, op_1(g@, b as int).0),
        r.1 == op_1(g@, b as int).1,
{
    let choice = match read_u8(g, b + 2) {
        Some(x) => x % 3,
        None => return (Vec::new(), Some(Halt::InputExhausted)),
    };
    let mut v = if choice == 0 {
        u8n15::small_vec_u8n15_new()
    } else if choice == 1 {
        let n0 = match read_usize(g, b + 3) {
            Some(x) => x,
            None => return (Vec::new(), Some(Halt::InputExhausted)),
        };
        if exact_growth_overflows_exec(0, 15, n0, 1) {
            return (Vec::new(), Some(Halt::CapacityOverflow));
        }
        proof {
            broadcast use vstd::layout::layout_of_primitives;
        }
        u8n15::small_vec_u8n15_with_capacity(n0)
    } else {
        let three = match read_bytes(g, b + 3, 3) {
            Some(v) => v,
            None => return (Vec::new(), Some(Halt::InputExhausted)),
        };
        u8n15::small_vec_u8n15_from_slice(three.as_slice())
    };
    let ghost base = u8n15::sv_u8n15_items(v);
    let ghost cap0 = u8n15::sv_u8n15_cap(v);
    assert(built_1(g@, b as int) == Ok::<(Seq<u8>, nat), Halt>((base, cap0)));
    let n = match read_u8(g, b + 7) {
        Some(x) => x % 25,
        None => return (Vec::new(), Some(Halt::InputExhausted)),
    };
    let mut j: usize = 0;
    while j < n as usize
        invariant
            j <= n < 25,
            base.len() <= 3,
            v.wf(),
            u8n15::sv_u8n15_items(v) == base + bytes_at(g@, b + 8, j as nat),
            u8n15::sv_u8n15_cap(v) == pushes_cap(base.len(), cap0, j as nat),
            j > 0 ==> fits(g@, b + 8 + (j - 1), 1),
        decreases n - j,
    {
        let x = match read_u8(g, b + 8 + j) {
            Some(x) => x,
            None => return (Vec::new(), Some(Halt::InputExhausted)),
        };
        proof {
            broadcast use vstd::layout::layout_of_primitives;
            lemma_small_growth_sized((base.len() + j) as nat, u8n15::sv_u8n15_cap(v), 1, 1);
        }
        u8n15::small_vec_u8n15_push(&mut v, x);
        j = j + 1;
        assert(u8n15::sv_u8n15_items(v) =~= base + bytes_at(g@, b + 8, j as nat));
    }
    let mut events: Vec<Event> = Vec::new();
    events.push(Event::U8s(vstd::slice::slice_to_vec(u8n15::small_vec_u8n15_borrow(&v))));
    let items = u8n15::small_vec_u8n15_borrow_mut(&mut v);
    events.push(Event::U8s(vstd::slice::slice_to_vec(items)));
    events.push(Event::Count(u8n15::small_vec_u8n15_capacity(&v)));
    events.push(Event::Count(u8n15::small_vec_u8n15_len(&v)));
    events.push(Event::Flag(u8n15::small_vec_u8n15_spilled(&v)));
    proof {
        let w = op_1(g@, b as int).0;
        assert(forall|i: int| 0 <= i < events@.len() ==> #[trigger] event_matches(events@[i], w[i]));
    }
    (events, None)
}

/// One vector of operation 3 (see `built_3`).
fn build_3(g: &[u8], at_elem: usize, at_count: usize, choice: u8) -> (r: Result<i64n16::SmallVecI64N16, Halt>)
    requires
        at_elem <= 4096,
        at_count <= 4096,
    ensures
        match r {
            Ok(v) => v.wf() && built_3(g@, at_elem as int, at_count as int, choice) == Ok::<Seq<i64>, Halt>(
                i64n16::sv_i64n16_items(v),
            ),
            Err(h) => built_3(g@, at_elem as int, at_count as int, choice) == Err::<Seq<i64>, Halt>(h),
        },
{
    proof {
        broadcast use vstd::layout::layout_of_primitives;
    }
    if choice == 0 {
        Ok(i64n16::small_vec_i64n16_new())
    } else if choice == 1 {
        let e = match read_i64(g, at_elem) {
            Some(x) => x,
            None => return Err(Halt::InputExhausted),
        };
        let n = match read_usize(g, at_count) {
            Some(x) => x % 20,
            None => return Err(Halt::InputExhausted),
        };
        Ok(i64n16::small_vec_i64n16_from_elem(e, n))
    } else {
        let n0 = match read_usize(g, at_elem) {
            Some(x) => x,
            None => return Err(Halt::InputExhausted),
        };
        if exact_growth_overflows_exec(0, 16, n0, 8) {
            return Err(Halt::CapacityOverflow);
        }
        Ok(i64n16::small_vec_i64n16_with_capacity(n0))
    }
}

/// Operation 3 (see `op_3`).
fn run_op_3(g: &[u8], b: usize) -> (r: (Vec<Event>, Option<Halt>))
    requires
        b <= 2000,
    ensures
        events_match(r.0@, op_3(g@, b as int).0),
        r.1 == op_3(g@, b as int).1,
{
    let c1 = match read_u8(g, b + 2) {
        Some(x) => x % 3,
        None => return (Vec::new(), Some(Halt::InputExhausted)),
    };
    let c2 = match read_u8(g, b + 3) {
        Some(x) => x % 3,
        None => return (Vec::new(), Some(Halt::InputExhausted)),
    };
    let mut first = match build_3(g, b + 4, b + 12, c1) {
        Ok(v) => v,
        Err(h) => return (Vec::new(), Some(h)),
    };
    let mut second = match build_3(g, b + 20, b + 28, c2) {
        Ok(v) => v,
        Err(h) => return (Vec::new(), Some(h)),
    };
    let m = match read_u8(g, b + 36) {
        Some(x) => x % 12,
        None => return (Vec::new(), Some(Halt::InputExhausted)),
    };
    let k = match read_u8(g, b + 37) {
        Some(x) => x % 12,
        None => return (Vec::new(), Some(Halt::InputExhausted)),
    };
    let more_first = match read_i64s(g, b + 38, m as usize) {
        Some(v) => v,
        None => return (Vec::new(), Some(Halt::InputExhausted)),
    };
    let more_second = match read_i64s(g, b + 54, k as usize) {
        Some(v) => v,
        None => return (Vec::new(), Some(Halt::InputExhausted)),
    };
    let ghost f0 = i64n16::sv_i64n16_items(first);
    let ghost s0 = i64n16::sv_i64n16_items(second);
    let mut j: usize = 0;
    while j < more_first.len()
        invariant
            j <= more_first@.len() < 12,
            f0.len() < 20,
            first.wf(),
            i64n16::sv_i64n16_items(first) == f0 + more_first@.take(j as int),
        decreases more_first.len() - j,
    {
        proof {
            broadcast use vstd::layout::layout_of_primitives;
            lemma_small_growth_sized((f0.len() + j) as nat, i64n16::sv_i64n16_cap(first), 1, 8);
        }
        i64n16::small_vec_i64n16_push(&mut first, more_first[j]);
        j = j + 1;
        assert(i64n16::sv_i64n16_items(first) =~= f0 + more_first@.take(j as int));
    }
    let mut j: usize = 0;
    while j < more_second.len()
        invariant
            j <= more_second@.len() < 12,
            s0.len() < 20,
            second.wf(),
            i64n16::sv_i64n16_items(second) == s0 + more_second@.take(j as int),
        decreases more_second.len() - j,
    {
        proof {
            broadcast use vstd::layout::layout_of_primitives;
            lemma_small_growth_sized((s0.len() + j) as nat, i64n16::sv_i64n16_cap(second), 1, 8);
        }
        i64n16::small_vec_i64n16_push(&mut second, more_second[j]);
        j = j + 1;
        assert(i64n16::sv_i64n16_items(second) =~= s0 + more_second@.take(j as int));
    }
    assert(more_first@.take(more_first@.len() as int) =~= more_first@);
    assert(more_second@.take(more_second@.len() as int) =~= more_second@);
    let mut events: Vec<Event> = Vec::new();
    events.push(Event::I64s(vstd::slice::slice_to_vec(i64n16::small_vec_i64n16_borrow(&first))));
    events.push(Event::I64s(vstd::slice::slice_to_vec(i64n16::small_vec_i64n16_borrow(&second))));
    events.push(Event::Compared(i64n16::small_vec_i64n16_compare(&first, &second)));
    match i64n16::small_vec_i64n16_partial_compare(&first, &second) {
        Some(o) => events.push(Event::PartialCompared(o)),
        None => {},
    }
    proof {
        broadcast use vstd::layout::layout_of_primitives;
        lemma_small_growth_sized(
            i64n16::sv_i64n16_items(first).len(),
            i64n16::sv_i64n16_cap(first),
            i64n16::sv_i64n16_items(second).len(),
            8,
        );
    }
    i64n16::small_vec_i64n16_append(&mut first, &mut second);
    events.push(Event::Count(i64n16::small_vec_i64n16_len(&second)));
    proof {
        let w = op_3(g@, b as int).0;
        assert(forall|i: int| 0 <= i < events@.len() ==> #[trigger] event_matches(events@[i], w[i]));
    }
    (events, None)
}

/// Where the first `k` rounds of operation 4 halt, all `n` of them do.
proof fn lemma_texts_halt_extends(g: Seq<u8>, b: int, k: nat, n: nat, h: Halt)
    requires
        k <= n,
        texts_4(g, b, k) == Err::<Seq<Seq<char>>, Halt>(h),
    ensures
        texts_4(g, b, n) == Err::<Seq<Seq<char>>, Halt>(h),
    decreases n,
{
    if n > k {
        lemma_texts_halt_extends(g, b, k, (n - 1) as nat, h);
    }
}

/// Copies of the texts of `items`.
fn copy_texts(items: &[String]) -> (r: Vec<String>)
    ensures
        r@ == items@,
{
    let mut r: Vec<String> = Vec::new();
    let mut k: usize = 0;
    while k < items.len()
        invariant
            k <= items@.len(),
            r@ == items@.take(k as int),
        decreases items.len() - k,
    {
        r.push(items[k].clone());
        k = k + 1;
        assert(r@ =~= items@.take(k as int));
    }
    assert(items@.take(items@.len() as int) =~= items@);
    r
}

/// Operation 4 (see `op_4`).
#[verifier::loop_isolation(false)]
fn run_op_4(g: &[u8], b: usize) -> (r: (Vec<Event>, Option<Halt>))
    requires
        b <= 2000,
    ensures
        events_match(r.0@, op_4(g@, b as int).0),
        r.1 == op_4(g@, b as int).1,
{
    let choice = match read_u8(g, b + 2) {
        Some(x) => x % 3,
        None => return (Vec::new(), Some(Halt::InputExhausted)),
    };
    let mut v = if choice == 0 {
        stringn14::small_vec_stringn14_new()
    } else if choice == 1 {
        let n0 = match read_usize(g, b + 3) {
            Some(x) => x,
            None => return (Vec::new(), Some(Halt::InputExhausted)),
        };
        if exact_growth_overflows_exec(0, 14, n0, core::mem::size_of::<String>()) {
            return (Vec::new(), Some(Halt::CapacityOverflow));
        }
        stringn14::small_vec_stringn14_with_capacity(n0)
    } else {
        let (t1, t2) = ("test1", "test2");
        let (s1, s2) = (t1.to_string(), t2.to_string());
        proof {
            vstd::string::to_string_from_display_ensures_for_str(t1, s1);
            vstd::string::to_string_from_display_ensures_for_str(t2, s2);
        }
        let mut two: Vec<String> = Vec::new();
        two.push(s1);
        two.push(s2);
        assert(texts_of(two@) =~= seq!["test1"@, "test2"@]);
        stringn14::small_vec_stringn14_from_iter(two)
    };
    let ghost base = texts_of(stringn14::sv_stringn14_items(v));
    proof {
        if choice != 2 {
            assert(base =~= Seq::<Seq<char>>::empty());
        } else {
            assert(base =~= seq!["test1"@, "test2"@]);
        }
    }
    assert(built_4(g@, b as int) == Ok::<Seq<Seq<char>>, Halt>(base));
    let num = match read_u8(g, b + 11) {
        Some(x) => x % 8,
        None => return (Vec::new(), Some(Halt::InputExhausted)),
    };
    let ghost mut pushed = Seq::<Seq<char>>::empty();
    let mut j: usize = 0;
    while j < num as usize
        invariant
            j <= num < 8,
            b <= 2000,
            v.wf(),
            base.len() <= 2,
            texts_4(g@, b as int, j as nat) == Ok::<Seq<Seq<char>>, Halt>(pushed),
            texts_of(stringn14::sv_stringn14_items(v)) == base + pushed,
            pushed.len() <= j,
        decreases num - j,
    {
        let lb = match read_u8(g, b + 12 + j) {
            Some(x) => x,
            None => {
                proof {
                    lemma_texts_halt_extends(g@, b as int, (j + 1) as nat, num as nat, Halt::InputExhausted);
                }
                return (Vec::new(), Some(Halt::InputExhausted));
            },
        };
        let len = (lb % 10 + 1) as usize;
        let start = b + 20 + 10 * j;
        if start + len <= g.len() {
            match read_text(g, start, len) {
                Ok(s) => {
                    let ghost before = stringn14::sv_stringn14_items(v);
                    stringn14::small_vec_stringn14_push(&mut v, s);
                    proof {
                        assert(texts_of(before.push(s)) =~= texts_of(before).push(s@));
                        pushed = pushed.push(s@);
                    }
                },
                Err(h) => {
                    proof {
                        lemma_texts_halt_extends(g@, b as int, (j + 1) as nat, num as nat, h);
                    }
                    return (Vec::new(), Some(h));
                },
            }
        }
        j = j + 1;
    }
    let mut events: Vec<Event> = Vec::new();
    events.push(Event::Texts(copy_texts(stringn14::small_vec_stringn14_borrow(&v))));
    let ghost shown = seq![Expect::Texts(base + pushed)];
    assert(events_match(events@, shown));
    let at = match read_usize(g, b + 70) {
        Some(x) => x,
        None => return (events, Some(Halt::InputExhausted)),
    };
    if !stringn14::small_vec_stringn14_is_empty(&v) {
        let k = at % stringn14::small_vec_stringn14_len(&v);
        let ghost before = stringn14::sv_stringn14_items(v);
        let lit = "inserted";
        let ins = lit.to_string();
        proof {
            vstd::string::to_string_from_display_ensures_for_str(lit, ins);
        }
        stringn14::small_vec_stringn14_insert(&mut v, k, ins);
        assert(texts_of(before.insert(k as int, ins)) =~= texts_of(before).insert(k as int, "inserted"@));
    }
    let all = stringn14::small_vec_stringn14_into_iter_collect(v);
    let ghost owed = shown + each_text(texts_of(all@));
    let mut k: usize = 0;
    while k < all.len()
        invariant
            k <= all@.len(),
            events@.len() == 1 + k,
            forall|i: int| 0 <= i < events@.len() ==> #[trigger] event_matches(events@[i], owed[i]),
        decreases all.len() - k,
    {
        events.push(Event::Text(all[k].clone()));
        k = k + 1;
    }
    (events, None)
}


/// Operation 5 (see `op_5`).
#[verifier::loop_isolation(false)]
fn run_op_5(g: &[u8], b: usize) -> (r: (Vec<Event>, Option<Halt>))
    requires
        b <= 2000,
    ensures
        events_match(r.0@, op_5(g@, b as int).0),
        r.1 == op_5(g@, b as int).1,
{
    let choice = match read_u8(g, b + 2) {
        Some(x) => x % 2,
        None => return (Vec::new(), Some(Halt::InputExhausted)),
    };
    let mut v = if choice == 0 {
        booln14::small_vec_booln14_new()
    } else {
        let n0 = match read_usize(g, b + 3) {
            Some(x) => x,
            None => return (Vec::new(), Some(Halt::InputExhausted)),
        };
        if exact_growth_overflows_exec(0, 14, n0, 1) {
            return (Vec::new(), Some(Halt::CapacityOverflow));
        }
        proof {
            broadcast use vstd::layout::layout_of_primitives;
        }
        booln14::small_vec_booln14_with_capacity(n0)
    };
    let n = match read_u8(g, b + 11) {
        Some(x) => x % 20,
        None => return (Vec::new(), Some(Halt::InputExhausted)),
    };
    let mut j: usize = 0;
    while j < n as usize
        invariant
            j <= n < 20,
            v.wf(),
            booln14::sv_booln14_items(v) == bools_at(g@, b + 12, j as nat),
            j > 0 ==> fits(g@, b + 12 + (j - 1), 1),
        decreases n - j,
    {
        let x = match read_bool(g, b + 12 + j) {
            Some(x) => x,
            None => return (Vec::new(), Some(Halt::InputExhausted)),
        };
        proof {
            broadcast use vstd::layout::layout_of_primitives;
            lemma_small_growth_sized(j as nat, booln14::sv_booln14_cap(v), 1, 1);
        }
        booln14::small_vec_booln14_push(&mut v, x);
        j = j + 1;
        assert(booln14::sv_booln14_items(v) =~= bools_at(g@, b + 12, j as nat));
    }
    let mut events: Vec<Event> = Vec::new();
    events.push(Event::Bools(vstd::slice::slice_to_vec(booln14::small_vec_booln14_borrow(&v))));
    let ghost shown = seq![Expect::Bools(bools_at(g@, b + 12, n as nat))];
    assert(events_match(events@, shown));
    let t = match read_usize(g, b + 32) {
        Some(x) => x,
        None => return (events, Some(Halt::InputExhausted)),
    };
    booln14::small_vec_booln14_truncate(&mut v, t);
    let s0 = match read_usize(g, b + 40) {
        Some(x) => x,
        None => return (events, Some(Halt::InputExhausted)),
    };
    let e0 = match read_usize(g, b + 48) {
        Some(x) => x,
        None => return (events, Some(Halt::InputExhausted)),
    };
    if !booln14::small_vec_booln14_is_empty(&v) {
        let len = booln14::small_vec_booln14_len(&v);
        let s = s0 % len;
        let e1 = e0 % len;
        let e = if e1 < s {
            s
        } else {
            e1
        };
        let drained = booln14::small_vec_booln14_drain(&mut v, s, e);
        if drained.len() > 0 {
            events.push(Event::Bool(drained[0]));
        }
    }
    proof {
        let w = op_5(g@, b as int).0;
        assert(forall|i: int| 0 <= i < events@.len() ==> #[trigger] event_matches(events@[i], w[i]));
    }
    (events, None)
}

/// The item at `k` of `items`.
fn char_at(items: &[char], k: usize) -> (c: char)
    requires
        k < items@.len(),
    ensures
        c == items@[k as int],
{
    items[k]
}

/// `n` characters read at `start`, four bytes apart, or why reading them
/// stops the run.
fn read_chars(g: &[u8], start: usize, n: usize) -> (r: Result<Vec<char>, Halt>)
    requires
        start <= 4096,
        n <= 16,
    ensures
        match r {
            Ok(v) => chars_halt(g@, start as int, 0, n as nat) is None && v@.len() == n && char_codes(v@) == codes_at(
                g@,
                start as int,
                n as nat,
            ),
            Err(h) => chars_halt(g@, start as int, 0, n as nat) == Some(h),
        },
{
    let mut v: Vec<char> = Vec::new();
    let mut j: usize = 0;
    while j < n
        invariant
            j <= n <= 16,
            start <= 4096,
            v@.len() == j,
            forall|k: int| 0 <= k < j ==> (#[trigger] v@[k]) as u32 == be_u32(g@, start + 4 * k),
            chars_halt(g@, start as int, 0, n as nat) == chars_halt(g@, start as int, j as nat, n as nat),
        decreases n - j,
    {
        match read_char(g, start + 4 * j) {
            Ok(c) => v.push(c),
            Err(h) => return Err(h),
        }
        j = j + 1;
    }
    assert(char_codes(v@) =~= codes_at(g@, start as int, n as nat));
    Ok(v)
}

/// Operation 6 (see `op_6`).
fn run_op_6(g: &[u8], b: usize) -> (r: (Vec<Event>, Option<Halt>))
    requires
        b <= 2000,
    ensures
        events_match(r.0@, op_6(g@, b as int).0),
        r.1 == op_6(g@, b as int).1,
{
    let choice = match read_u8(g, b + 2) {
        Some(x) => x % 3,
        None => return (Vec::new(), Some(Halt::InputExhausted)),
    };
    let n: usize = if choice == 0 {
        3
    } else if choice == 1 {
        16
    } else {
        1
    };
    let chars = match read_chars(g, b + 3, n) {
        Ok(v) => v,
        Err(h) => return (Vec::new(), Some(h)),
    };
    let s = chars.as_slice();
    let v = if choice == 0 {
        charn16::small_vec_charn16_from_iter(chars)
    } else if choice == 1 {
        let buf: [char; 16] = [
            char_at(s, 0), char_at(s, 1), char_at(s, 2), char_at(s, 3), char_at(s, 4), char_at(s, 5),
            char_at(s, 6), char_at(s, 7), char_at(s, 8), char_at(s, 9), char_at(s, 10), char_at(s, 11),
            char_at(s, 12), char_at(s, 13), char_at(s, 14), char_at(s, 15),
        ];
        assert(buf@ =~= chars@);
        charn16::small_vec_charn16_from_buf(buf)
    } else {
        let mut w = charn16::small_vec_charn16_new();
        charn16::small_vec_charn16_push(&mut w, char_at(s, 0));
        assert(charn16::sv_charn16_items(w) =~= chars@);
        w
    };
    let ghost codes = codes_at(g@, b + 3, n as nat);
    let mut events: Vec<Event> = Vec::new();
    events.push(Event::Chars(vstd::slice::slice_to_vec(charn16::small_vec_charn16_borrow(&v))));
    let ghost shown = seq![Expect::Chars(codes)];
    assert(events_match(events@, shown));
    let at = match read_usize(g, b + 19) {
        Some(x) => x,
        None => return (events, Some(Halt::InputExhausted)),
    };
    if !charn16::small_vec_charn16_is_empty(&v) {
        let k = at % charn16::small_vec_charn16_len(&v);
        events.push(Event::Char(charn16::small_vec_charn16_index(&v, k)));
    }
    let boxed = charn16::small_vec_charn16_into_boxed_slice(v);
    events.push(Event::Count(boxed.len()));
    proof {
        let w = op_6(g@, b as int).0;
        assert(forall|i: int| 0 <= i < events@.len() ==> #[trigger] event_matches(events@[i], w[i]));
    }
    (events, None)
}

/// Operation 7 (see `op_7`).
fn run_op_7(g: &[u8], b: usize) -> (r: (Vec<Event>, Option<Halt>))
    requires
        b <= 2000,
    ensures
        events_match(r.0@, op_7(g@, b as int).0),
        r.1 == op_7(g@, b as int).1,
{
    let mut four: Vec<u16> = Vec::new();
    let mut k: usize = 0;
    while k < 4
        invariant
            k <= 4,
            b <= 2000,
            four@ == u16s_at(g@, b + 2, k as nat),
            k > 0 ==> fits(g@, b + 2 + 2 * (k - 1), 2),
        decreases 4 - k,
    {
        match read_u16(g, b + 2 + 2 * k) {
            Some(x) => four.push(x),
            None => return (Vec::new(), Some(Halt::InputExhausted)),
        }
        k = k + 1;
        assert(four@ =~= u16s_at(g@, b + 2, k as nat));
    }
    let v = u16n32::small_vec_u16n32_to_small_vec(four.as_slice());
    let mut events: Vec<Event> = Vec::new();
    events.push(Event::U16s(vstd::slice::slice_to_vec(u16n32::small_vec_u16n32_borrow(&v))));
    events.push(Event::Ptr(u16n32::small_vec_u16n32_as_ptr(&v)));
    events.push(Event::Flag(u16n32::small_vec_u16n32_spilled(&v)));
    let all = u16n32::small_vec_u16n32_into_vec(v);
    events.push(Event::Count(all.len()));
    proof {
        let w = op_7(g@, b as int).0;
        assert(forall|i: int| 0 <= i < events@.len() ==> #[trigger] event_matches(events@[i], w[i]));
    }
    (events, None)
}

/// Operation 9 (see `op_9`).
fn run_op_9(g: &[u8], b: usize) -> (r: (Vec<Event>, Option<Halt>))
    requires
        b <= 2000,
    ensures
        events_match(r.0@, op_9(g@, b as int).0),
        r.1 == op_9(g@, b as int).1,
{
    proof {
        broadcast use vstd::layout::layout_of_primitives;
    }
    let choice = match read_u8(g, b + 2) {
        Some(x) => x % 2,
        None => return (Vec::new(), Some(Halt::InputExhausted)),
    };
    let mut v = if choice == 0 {
        i16n20::small_vec_i16n20_new()
    } else {
        let n0 = match read_usize(g, b + 3) {
            Some(x) => x,
            None => return (Vec::new(), Some(Halt::InputExhausted)),
        };
        if exact_growth_overflows_exec(0, 20, n0, 2) {
            return (Vec::new(), Some(Halt::CapacityOverflow));
        }
        i16n20::small_vec_i16n20_with_capacity(n0)
    };
    let len = match read_usize(g, b + 11) {
        Some(x) => x,
        None => return (Vec::new(), Some(Halt::InputExhausted)),
    };
    let value = match read_i16(g, b + 19) {
        Some(x) => x,
        None => return (Vec::new(), Some(Halt::InputExhausted)),
    };
    if growth_overflows_exec(0, i16n20::small_vec_i16n20_capacity(&v), len, 2) {
        return (Vec::new(), Some(Halt::CapacityOverflow));
    }
    i16n20::small_vec_i16n20_resize(&mut v, len, value);
    let x = match read_i16(g, b + 21) {
        Some(x) => x,
        None => return (Vec::new(), Some(Halt::InputExhausted)),
    };
    let y = match read_i16(g, b + 23) {
        Some(x) => x,
        None => return (Vec::new(), Some(Halt::InputExhausted)),
    };
    if growth_overflows_exec(len, i16n20::small_vec_i16n20_capacity(&v), 2, 2) {
        return (Vec::new(), Some(Halt::CapacityOverflow));
    }
    let mut two: Vec<i16> = Vec::new();
    two.push(x);
    two.push(y);
    i16n20::small_vec_i16n20_extend(&mut v, two);
    assert(i16n20::sv_i16n20_items(v) =~= repeat(value, len as nat) + seq![x, y]);
    let mut events: Vec<Event> = Vec::new();
    events.push(Event::I16s(vstd::slice::slice_to_vec(i16n20::small_vec_i16n20_borrow(&v))));
    i16n20::small_vec_i16n20_dedup(&mut v);
    events.push(Event::Count(i16n20::small_vec_i16n20_as_mut_slice(&mut v).len()));
    proof {
        let w = op_9(g@, b as int).0;
        assert(forall|i: int| 0 <= i < events@.len() ==> #[trigger] event_matches(events@[i], w[i]));
    }
    (events, None)
}

/// Runs operation `op` of the block at `b` (see `op_step`); the capacity of
/// a buffer that a vector takes over is the choice.
fn run_op(g: &[u8], op: u8, b: usize) -> (r: (Vec<Event>, Option<Halt>, Ghost<nat>))
    requires
        op < 10,
        b <= 2000,
    ensures
        events_match(r.0@, op_step(g@, op, b as int, r.2@).0),
        r.1 == op_step(g@, op, b as int, r.2@).1,
{
    reveal(op_step);
    if op == 0 {
        return run_op_0(g, b);
    }
    let (events, halt) = if op == 1 {
        run_op_1(g, b)
    } else if op == 2 || op == 8 {
        let mut events: Vec<Event> = Vec::new();
        events.push(Event::FloatOp(op, b));
        assert(events_match(events@, seq![Expect::FloatOp(op, b as nat)]));
        (events, None)
    } else if op == 3 {
        run_op_3(g, b)
    } else if op == 4 {
        run_op_4(g, b)
    } else if op == 5 {
        run_op_5(g, b)
    } else if op == 6 {
        run_op_6(g, b)
    } else if op == 7 {
        run_op_7(g, b)
    } else {
        run_op_9(g, b)
    };
    (events, halt, Ghost(0))
}

/// Once operation `k` has run without halting, the run's outcome is what was
/// owed so far and its events, followed by what the later operations owe.
proof fn lemma_run_continues(
    input_len: nat,
    g: Seq<u8>,
    k: nat,
    count: nat,
    done_cs: Seq<nat>,
    owed: Seq<Expect>,
    c: nat,
)
    requires
        forall|rest: Seq<nat>|
            #![trigger ops_from(g, k, count, rest)]
            script_outcome(input_len, g, done_cs + rest) == (
                owed + ops_from(g, k, count, rest).0,
                ops_from(g, k, count, rest).1,
            ),
        k < count,
        fits(g, 80 * k as int + 1, 1),
        op_step(g, g[80 * k as int + 1] % 10, 80 * k as int, c).1 is None,
    ensures
        ({
            let st = op_step(g, g[80 * k as int + 1] % 10, 80 * k as int, c);
            forall|rest: Seq<nat>|
                #![trigger ops_from(g, k + 1, count, rest)]
                script_outcome(input_len, g, done_cs.push(c) + rest) == (
                    (owed + st.0) + ops_from(g, k + 1, count, rest).0,
                    ops_from(g, k + 1, count, rest).1,
                )
        }),
{
    let st = op_step(g, g[80 * k as int + 1] % 10, 80 * k as int, c);
    assert forall|rest: Seq<nat>|
        #![trigger ops_from(g, k + 1, count, rest)]
        script_outcome(input_len, g, done_cs.push(c) + rest) == (
            (owed + st.0) + ops_from(g, k + 1, count, rest).0,
            ops_from(g, k + 1, count, rest).1,
        ) by {
        let full = seq![c] + rest;
        assert(done_cs.push(c) + rest =~= done_cs + full);
        assert(full.drop_first() =~= rest);
        let tail = ops_from(g, k + 1, count, rest);
        assert(ops_from(g, k, count, full) == (st.0 + tail.0, tail.1));
        assert(owed + (st.0 + tail.0) =~= (owed + st.0) + tail.0);
    }
}

/// Where operation `k` halts, the run's outcome is what was owed so far and
/// its events, and the halt.
proof fn lemma_run_halts(
    input_len: nat,
    g: Seq<u8>,
    k: nat,
    count: nat,
    done_cs: Seq<nat>,
    owed: Seq<Expect>,
    c: nat,
)
    requires
        forall|rest: Seq<nat>|
            #![trigger ops_from(g, k, count, rest)]
            script_outcome(input_len, g, done_cs + rest) == (
                owed + ops_from(g, k, count, rest).0,
                ops_from(g, k, count, rest).1,
            ),
        k < count,
        fits(g, 80 * k as int + 1, 1),
        op_step(g, g[80 * k as int + 1] % 10, 80 * k as int, c).1 is Some,
    ensures
        script_outcome(input_len, g, done_cs.push(c)) == (
            owed + op_step(g, g[80 * k as int + 1] % 10, 80 * k as int, c).0,
            op_step(g, g[80 * k as int + 1] % 10, 80 * k as int, c).1,
        ),
{
    let full = seq![c];
    assert(done_cs.push(c) =~= done_cs + full);
    assert(full[0] == c);
    assert(ops_from(g, k, count, full) == op_step(g, g[80 * k as int + 1] % 10, 80 * k as int, c));
}

/// The events of a run, and why it stopped early, if it did.
pub struct Run {
    pub events: Vec<Event>,
    pub halt: Option<Halt>,
}

/// Runs the script of an input of `input_len` bytes whose first half is `g`.
/// What it reports is owed for some capacities of the buffers that vectors
/// take over; the operations on floating-point items are left to the caller,
/// each reported as `FloatOp` in its place.
pub fn run(input_len: usize, g: &[u8]) -> (r: Run)
    ensures
        exists|cs: Seq<nat>|
            #![trigger script_outcome(input_len as nat, g@, cs)]
            events_match(r.events@, script_outcome(input_len as nat, g@, cs).0) && r.halt
                == script_outcome(input_len as nat, g@, cs).1,
{
    let mut events: Vec<Event> = Vec::new();
    let ghost none = Seq::<nat>::empty();
    if input_len < 2000 {
        assert(script_outcome(input_len as nat, g@, none).0 =~= Seq::<Expect>::empty());
        return Run { events, halt: None };
    }
    let count = match read_u8(g, 0) {
        Some(x) => x % 20 + 5,
        None => {
            assert(script_outcome(input_len as nat, g@, none).0 =~= Seq::<Expect>::empty());
            return Run { events, halt: Some(Halt::InputExhausted) };
        },
    };
    let ghost n = count as nat;
    let ghost mut done_cs = Seq::<nat>::empty();
    let ghost mut owed = Seq::<Expect>::empty();
    let ghost mut gk: nat = 0;
    assert forall|rest: Seq<nat>|
        #![trigger ops_from(g@, gk, n, rest)]
        script_outcome(input_len as nat, g@, done_cs + rest) == (
            owed + ops_from(g@, gk, n, rest).0,
            ops_from(g@, gk, n, rest).1,
        ) by {
        assert(done_cs + rest =~= rest);
        assert(owed + ops_from(g@, gk, n, rest).0 =~= ops_from(g@, gk, n, rest).0);
    }
    let mut k: usize = 0;
    while k < count as usize
        invariant
            k <= count < 25,
            input_len >= 2000,
            fits(g@, 0, 1),
            n == count as nat,
            n == (g@[0] % 20 + 5) as nat,
            gk == k as nat,
            none == Seq::<nat>::empty(),
            events_match(events@, owed),
            forall|rest: Seq<nat>|
                #![trigger ops_from(g@, gk, n, rest)]
                script_outcome(input_len as nat, g@, done_cs + rest) == (
                    owed + ops_from(g@, gk, n, rest).0,
                    ops_from(g@, gk, n, rest).1,
                ),
        decreases count as usize - k,
    {
        let b = 80 * k;
        let op = match read_u8(g, b + 1) {
            Some(x) => x % 10,
            None => {
                proof {
                    assert(ops_from(g@, gk, n, none) == halted(Halt::InputExhausted));
                    assert(owed + Seq::<Expect>::empty() =~= owed);
                }
                return Run { events, halt: Some(Halt::InputExhausted) };
            },
        };
        let (evs, halt, Ghost(c)) = run_op(g, op, b);
        let ghost st = op_step(g@, op, b as int, c);
        proof {
            lemma_events_match_append(events@, owed, evs@, st.0);
        }
        let mut evs = evs;
        events.append(&mut evs);
        if halt.is_some() {
            proof {
                lemma_run_halts(input_len as nat, g@, gk, n, done_cs, owed, c);
            }
            return Run { events, halt };
        }
        proof {
            lemma_run_continues(input_len as nat, g@, gk, n, done_cs, owed, c);
            done_cs = done_cs.push(c);
            owed = owed + st.0;
            gk = gk + 1;
        }
        k = k + 1;
    }
    proof {
        assert(ops_from(g@, gk, n, none) == (Seq::<Expect>::empty(), None::<Halt>));
        assert(owed + Seq::<Expect>::empty() =~= owed);
        assert(done_cs + none =~= done_cs);
    }
    Run { events, halt: None }
}

/// Operation 6 reports, after the characters, the one at the read index
/// modulo their number: the same character as the reported list holds at
/// that place; then their number.
pub proof fn law_indexed_character_is_the_one_listed_there(g: Seq<u8>, b: int)
    requires
        fits(g, b + 2, 1),
        built_6(g, b) is Ok,
        built_6(g, b)->Ok_0.len() > 0,
        fits(g, b + 19, 8),
    ensures
        ({
            let codes = built_6(g, b)->Ok_0;
            let k = (usize_at(g, b + 19) as nat % codes.len()) as int;
            let o = op_6(g, b);
            &&& o.1 is None
            &&& o.0.len() == 3
            &&& o.0[0] matches Expect::Chars(listed) && listed.len() == codes.len() && o.0[1] == Expect::Char(listed[k])
            &&& o.0[2] == Expect::Count(codes.len())
        }),
{
}

} // verus!

//! A script of twelve operations on small vectors of number-carrying
//! elements whose `Clone` the input steers, each at fixed places of the
//! input.
use vstd::prelude::*;
use crate::hooks::clone_number;
use crate::numbered::{clone_all, cloned_all, copies, copy_of, count_at, elems, evens, number_size, usize_ints};
use crate::numbered::{n128, n16, n24, n256, n32, n64};
use crate::script::{fits, read_u8, read_usize, usize_at, Halt};
use crate::small_vec::{
    exact_grown, exact_growth_overflows, exact_growth_overflows_exec, grown, growth_overflows,
    growth_overflows_exec, lex_order, open_cap, repeat, Order,
};

pub mod n12;
pub mod n18;
pub mod n20;

verus! {

/// What the script reports, one value per printed line.
#[derive(Debug, PartialEq, Eq)]
pub enum Event {
    /// A slice of elements, printed as `[CustomType1(a), ...]`.
    Items(Vec<usize>),
    /// An element, printed as `CustomType1(n)`.
    Item(usize),
    /// A flag.
    Flag(bool),
    /// A length, capacity or inline size.
    Count(usize),
    /// An order from `cmp`, or the one inside `partial_cmp`, printed bare.
    Compared(Order),
    /// An order from `partial_cmp`, printed as `Some(..)`.
    PartialCompared(Order),
    /// An address from `as_ptr`.
    Ptr(usize),
    /// An address from `as_mut_ptr`.
    MutPtr(usize),
    /// A vector that gave up its full inline buffer as an array.
    Converted,
    /// A vector that could not, with its length.
    NotConverted(usize),
}

/// What the script is owed to report; an address may be any.
pub enum Expect {
    Items(Seq<usize>),
    Item(usize),
    Flag(bool),
    Count(nat),
    Compared(Order),
    PartialCompared(Order),
    Ptr,
    MutPtr,
    Converted,
    NotConverted(nat),
}

/// Whether a reported event is the one that was owed.
pub open spec fn event_matches(e: Event, x: Expect) -> bool {
    match e {
        Event::Items(v) => x == Expect::Items(v@),
        Event::Item(n) => x == Expect::Item(n),
        Event::Flag(b) => x == Expect::Flag(b),
        Event::Count(n) => x == Expect::Count(n as nat),
        Event::Compared(o) => x == Expect::Compared(o),
        Event::PartialCompared(o) => x == Expect::PartialCompared(o),
        Event::Ptr(_) => x is Ptr,
        Event::MutPtr(_) => x is MutPtr,
        Event::Converted => x is Converted,
        Event::NotConverted(n) => x == Expect::NotConverted(n as nat),
    }
}

/// Whether the reported events are, one for one, those owed.
pub open spec fn events_match(a: Seq<Event>, x: Seq<Expect>) -> bool {
    &&& a.len() == x.len()
    &&& forall|i: int| 0 <= i < a.len() ==> #[trigger] event_matches(a[i], x[i])
}

/// Reported events, followed by more, match what was owed followed by more.
proof fn lemma_events_match_append(a: Seq<Event>, x: Seq<Expect>, b: Seq<Event>, y: Seq<Expect>)
    requires
        events_match(a, x),
        events_match(b, y),
    ensures
        events_match(a + b, x + y),
{
    assert forall|i: int| 0 <= i < (a + b).len() implies #[trigger] event_matches((a + b)[i], (x + y)[i]) by {
        if i < a.len() {
            assert(event_matches(a[i], x[i]));
        } else {
            assert(event_matches(b[i - a.len()], y[i - a.len()]));
        }
    }
}

/// What an operation is owed: its events, and why it halts, if it does.
pub type Outcome = (Seq<Expect>, Option<Halt>);

/// What the outside crate and the allocator leave open in one operation: the
/// capacity that a constructor took over, and whether each of three fallible
/// reservations succeeded where neither an overflow nor spare room decides.
pub type Choice = (nat, bool, bool, bool);

/// An operation that halts with `h` before reporting anything.
pub open spec fn halted(h: Halt) -> Outcome {
    (Seq::empty(), Some(h))
}

/// An operation that reports `events` and does not halt.
pub open spec fn done(events: Seq<Expect>) -> Outcome {
    (events, None)
}

/// `shown`, then what `rest` owes.
pub open spec fn after(shown: Seq<Expect>, rest: Outcome) -> Outcome {
    (shown + rest.0, rest.1)
}

/// The `count` numbers read at `start`, `start + 8`, ...
pub open spec fn values_at(g: Seq<u8>, start: int, count: nat) -> Seq<usize> {
    Seq::new(count, |k: int| usize_at(g, start + 8 * k))
}

/// Whether the `count` reads at `start`, `start + 8`, ... lie inside `g`.
pub open spec fn values_fit(g: Seq<u8>, start: int, count: nat) -> bool {
    count == 0 || fits(g, start + 8 * (count - 1), 8)
}

/// The vector that operation 0 builds by the constructor `choice` from
/// `items`, and its capacity, `c` standing for one the outside crate leaves
/// open.
pub open spec fn built_0(g: Seq<u8>, s: Seq<u8>, choice: nat, items: Seq<usize>, c: nat) -> Result<
    (Seq<usize>, nat),
    Halt,
> {
    let z = number_size();
    if choice == 0 {
        Ok((Seq::empty(), 16))
    } else if choice == 1 {
        if !fits(g, 335, 8) {
            Err(Halt::InputExhausted)
        } else {
            let n0 = usize_at(g, 335) as nat;
            if exact_growth_overflows(0, 16, n0, z) {
                Err(Halt::CapacityOverflow)
            } else {
                Ok((Seq::empty(), if n0 <= 16 { 16 } else { n0 }))
            }
        }
    } else if choice == 2 || choice == 4 {
        Ok((items, open_cap(c, items.len(), 16, z)))
    } else if choice == 3 {
        if !fits(g, 343, 8) || !fits(g, 351, 8) {
            Err(Halt::InputExhausted)
        } else {
            let n = usize_at(g, 351) as nat;
            if n > 16 && n * z > isize::MAX {
                Err(Halt::CapacityOverflow)
            } else {
                match elems(g, s, usize_at(g, 343), n, 16) {
                    Err(h) => Err(h),
                    Ok(v) => Ok((v, if n <= 16 { 16 } else { open_cap(c, n, 16, z) })),
                }
            }
        }
    } else if choice == 6 {
        if items.len() == 0 {
            Ok((Seq::empty(), 16))
        } else {
            Ok((items, grown(0, 16, items.len())))
        }
    } else {
        Ok((items, if items.len() <= 16 { 16 } else { open_cap(c, items.len(), 16, z) }))
    }
}

/// Operation 0: read elements, a `SmallVec<[_; 16]>` made from them (or from
/// nothing, or copies of a read element) by one of eight constructors; report
/// the elements, the first item, the items, whether it spilled, its length
/// and whether it is empty.
pub open spec fn op_0(g: Seq<u8>, s: Seq<u8>, c: nat) -> Outcome {
    if !fits(g, 35, 1) {
        halted(Halt::InputExhausted)
    } else {
        let n = count_at(g, 35, 33);
        if !values_fit(g, 67, n) || !fits(g, 334, 1) {
            halted(Halt::InputExhausted)
        } else {
            let items = values_at(g, 67, n);
            match built_0(g, s, count_at(g, 334, 8), items, c) {
                Err(h) => halted(h),
                Ok(b) => done(
                    seq![Expect::Items(items)] + (if b.0.len() > 0 {
                        seq![Expect::Item(b.0[0])]
                    } else {
                        Seq::empty()
                    }) + seq![
                        Expect::Items(b.0),
                        Expect::Flag(b.1 > 16),
                        Expect::Count(b.0.len()),
                        Expect::Flag(b.0.len() == 0),
                    ],
                ),
            }
        }
    }
}

/// The first `k` elements read at `start`, `start + 8`, ..., each cloned as
/// soon as it is read: the clones and the elements, or why it stops.
pub open spec fn read_cloned(g: Seq<u8>, s: Seq<u8>, start: int, k: nat) -> Result<(Seq<usize>, Seq<usize>), Halt>
    decreases k,
{
    if k == 0 {
        Ok((Seq::empty(), Seq::empty()))
    } else {
        match read_cloned(g, s, start, (k - 1) as nat) {
            Err(h) => Err(h),
            Ok(p) => if !fits(g, start + 8 * (k - 1), 8) {
                Err(Halt::InputExhausted)
            } else {
                let x = usize_at(g, start + 8 * (k - 1));
                match copy_of(g, s, x) {
                    Err(h) => Err(h),
                    Ok(c) => Ok((p.0.push(c), p.1.push(x))),
                }
            },
        }
    }
}

/// Operation 1 after the pops: reserve, truncate and append the second
/// vector `b` to `a` (capacity 24); report the items three times.
pub open spec fn rest_1(g: Seq<u8>, a: Seq<usize>, b: Seq<usize>) -> Outcome {
    let z = number_size();
    if !fits(g, 480, 8) {
        halted(Halt::InputExhausted)
    } else {
        let r = usize_at(g, 480) as nat;
        if growth_overflows(a.len(), 24, r, z) {
            halted(Halt::CapacityOverflow)
        } else if !fits(g, 488, 8) {
            halted(Halt::InputExhausted)
        } else {
            let t = usize_at(g, 488) as nat;
            let a2 = if t < a.len() { a.take(t as int) } else { a };
            let cap = grown(a.len(), 24, r);
            if growth_overflows(a2.len(), cap, b.len(), z) {
                halted(Halt::CapacityOverflow)
            } else {
                let a3 = a2 + b;
                done(seq![Expect::Items(a3), Expect::Items(a3), Expect::Items(a3)])
            }
        }
    }
}

/// Operation 1: two `SmallVec<[_; 24]>`, the first given clones of read
/// elements, the second the elements; report the capacity, emptiness and
/// length of the first, pop it, then go on as `rest_1`.
pub open spec fn op_1(g: Seq<u8>, s: Seq<u8>) -> Outcome {
    if !fits(g, 359, 1) {
        halted(Halt::InputExhausted)
    } else {
        let k = count_at(g, 359, 15);
        match read_cloned(g, s, 360, k) {
            Err(h) => halted(h),
            Ok(p) => {
                let shown = seq![Expect::Count(24), Expect::Flag(k == 0), Expect::Count(k)];
                if k > 0 {
                    after(shown.push(Expect::Item(p.0.last())), rest_1(g, p.0.drop_last(), p.1))
                } else {
                    after(shown, rest_1(g, p.0, p.1))
                }
            },
        }
    }
}

/// Operation 2: one copy of a read element in a `SmallVec<[_; 20]>`; insert
/// a read element at a read index, remove at another and report it, grow to
/// a read capacity and shrink back, report the items, swap-remove at a read
/// index and report it, then the inline size.
pub open spec fn op_2(g: Seq<u8>, s: Seq<u8>) -> Outcome {
    if !fits(g, 496, 8) {
        halted(Halt::InputExhausted)
    } else {
        match elems(g, s, usize_at(g, 496), 1, 20) {
            Err(h) => halted(h),
            Ok(v0) => if !fits(g, 504, 8) || !fits(g, 512, 8) {
                halted(Halt::InputExhausted)
            } else if usize_at(g, 504) > v0.len() {
                halted(Halt::OutOfRange)
            } else {
                let v1 = v0.insert(usize_at(g, 504) as int, usize_at(g, 512));
                if !fits(g, 520, 8) {
                    halted(Halt::InputExhausted)
                } else if usize_at(g, 520) >= v1.len() {
                    halted(Halt::OutOfRange)
                } else {
                    let ri = usize_at(g, 520) as int;
                    let v2 = v1.remove(ri);
                    after(
                        seq![Expect::Item(v1[ri])],
                        if !fits(g, 528, 8) {
                            halted(Halt::InputExhausted)
                        } else if usize_at(g, 528) < v2.len() {
                            halted(Halt::OutOfRange)
                        } else if usize_at(g, 528) > 20 && usize_at(g, 528) * number_size() > isize::MAX {
                            halted(Halt::CapacityOverflow)
                        } else {
                            after(
                                seq![Expect::Items(v2)],
                                if !fits(g, 536, 8) {
                                    halted(Halt::InputExhausted)
                                } else if usize_at(g, 536) >= v2.len() {
                                    halted(Halt::OutOfRange)
                                } else {
                                    done(seq![Expect::Item(v2[usize_at(g, 536) as int]), Expect::Count(20)])
                                },
                            )
                        },
                    )
                }
            },
        }
    }
}

/// The items of `v` with `slice` inserted at `at`.
pub open spec fn spliced(v: Seq<usize>, at: nat, slice: Seq<usize>) -> Seq<usize> {
    v.take(at as int) + slice + v.skip(at as int)
}

/// Operation 3: read elements extended into a `SmallVec<[_; 12]>` and
/// inserted again at a read index; report the items, extend by clones of the
/// elements, then insert the elements once more at another read index.
pub open spec fn op_3(g: Seq<u8>, s: Seq<u8>) -> Outcome {
    if !fits(g, 536, 1) {
        halted(Halt::InputExhausted)
    } else {
        let n = count_at(g, 536, 20);
        if !values_fit(g, 537, n) || !fits(g, 697, 8) {
            halted(Halt::InputExhausted)
        } else if usize_at(g, 697) > n {
            halted(Halt::OutOfRange)
        } else {
            let ext = values_at(g, 537, n);
            let v1 = spliced(ext, usize_at(g, 697) as nat, ext);
            after(
                seq![Expect::Items(v1)],
                match cloned_all(g, s, ext) {
                    Err(h) => halted(h),
                    Ok(cl) => {
                        let v2 = v1 + cl;
                        if !fits(g, 705, 8) {
                            halted(Halt::InputExhausted)
                        } else if usize_at(g, 705) > v2.len() {
                            if usize_at(g, 705) + n > usize::MAX {
                                halted(Halt::ArithmeticOverflow)
                            } else {
                                halted(Halt::OutOfRange)
                            }
                        } else {
                            done(Seq::empty())
                        }
                    },
                },
            )
        }
    }
}

/// Operation 4: an empty `SmallVec<[_; 18]>` compared with its clone; report
/// equality, order and partial order, clear it and report that it is empty,
/// then push read elements and remove repeats three ways.
pub open spec fn op_4(g: Seq<u8>) -> Outcome {
    after(
        seq![
            Expect::Flag(true),
            Expect::Compared(Order::Equal),
            Expect::Compared(Order::Equal),
            Expect::Flag(true),
        ],
        if !fits(g, 753, 8) {
            halted(Halt::InputExhausted)
        } else {
            done(Seq::empty())
        },
    )
}

/// Operation 5 after the drain: keep the even items of `v` (capacity 32),
/// resize with clones of a read element, then with a read element.
pub open spec fn rest_5(g: Seq<u8>, s: Seq<u8>, v: Seq<usize>) -> Outcome {
    let z = number_size();
    let v2 = evens(v);
    if !fits(g, 801, 8) || !fits(g, 809, 8) {
        halted(Halt::InputExhausted)
    } else {
        let rl = usize_at(g, 801) as nat;
        if rl > v2.len() && growth_overflows(v2.len(), 32, (rl - v2.len()) as nat, z) {
            halted(Halt::CapacityOverflow)
        } else {
            let cl = if rl > v2.len() { copy_of(g, s, usize_at(g, 809)) } else { Ok(0usize) };
            match cl {
                Err(h) => halted(h),
                Ok(c) => {
            let v3 = if rl > v2.len() { v2 + repeat(c, (rl - v2.len()) as nat) } else { v2.take(rl as int) };
            let cap = if rl > v2.len() { grown(v2.len(), 32, (rl - v2.len()) as nat) } else { 32 };
            if !fits(g, 817, 8) {
                halted(Halt::InputExhausted)
            } else {
                let wl = usize_at(g, 817) as nat;
                if wl > v3.len() && growth_overflows(v3.len(), cap, (wl - v3.len()) as nat, z) {
                    halted(Halt::CapacityOverflow)
                } else if wl > v3.len() && !fits(g, 825, 8) {
                    halted(Halt::InputExhausted)
                } else {
                    done(Seq::empty())
                }
            }
                },
            }
        }
    }
}

/// Operation 5: read elements pushed to a `SmallVec<[_; 32]>`; drain a read
/// range, reporting the first element drained and the items left, then go on
/// as `rest_5`.
pub open spec fn op_5(g: Seq<u8>, s: Seq<u8>) -> Outcome {
    if !fits(g, 705, 8) || !fits(g, 713, 8) || !fits(g, 793, 8) {
        halted(Halt::InputExhausted)
    } else {
        let ds = usize_at(g, 705) as nat;
        let de = usize_at(g, 713) as nat;
        let v = values_at(g, 721, 10);
        if ds > de || de > 10 {
            halted(Halt::OutOfRange)
        } else {
            let left = v.take(ds as int) + v.skip(de as int);
            let first = if ds < de { seq![Expect::Item(v[ds as int])] } else { Seq::empty() };
            after(first.push(Expect::Items(left)), rest_5(g, s, left))
        }
    }
}

/// Operation 6: read elements pushed to a `SmallVec<[_; 64]>`, turned into an
/// iterator; report what it holds, then each element it gives.
pub open spec fn op_6(g: Seq<u8>) -> Outcome {
    if !fits(g, 833, 8) {
        halted(Halt::InputExhausted)
    } else {
        let v = values_at(g, 801, 5);
        done(seq![Expect::Items(v)] + v.map_values(|x: usize| Expect::Item(x)))
    }
}

/// Operation 7: copies of a read element, as many as read, in a
/// `SmallVec<[_; 128]>`; report them twice.
pub open spec fn op_7(g: Seq<u8>, s: Seq<u8>) -> Outcome {
    if !fits(g, 841, 8) || !fits(g, 849, 8) {
        halted(Halt::InputExhausted)
    } else {
        let n = usize_at(g, 849) as nat;
        if n > 128 && n * number_size() > isize::MAX {
            halted(Halt::CapacityOverflow)
        } else {
            match elems(g, s, usize_at(g, 841), n, 128) {
                Err(h) => halted(h),
                Ok(v) => done(seq![Expect::Items(v), Expect::Items(v)]),
            }
        }
    }
}

/// Operation 8: fifteen copies of a read element in a `Vec`, copied into a
/// `SmallVec<[_; 256]>`; report the items twice, its address, and the items.
pub open spec fn op_8(g: Seq<u8>, s: Seq<u8>) -> Outcome {
    if !fits(g, 857, 8) {
        halted(Halt::InputExhausted)
    } else {
        match elems(g, s, usize_at(g, 857), 15, 0) {
            Err(h) => halted(h),
            Ok(v) => done(seq![Expect::Items(v), Expect::Items(v), Expect::Ptr, Expect::Items(v)]),
        }
    }
}

/// Operation 9: read elements pushed to a `SmallVec<[_; 32]>`; report the
/// item at a read index, then the items three times.
pub open spec fn op_9(g: Seq<u8>) -> Outcome {
    if !fits(g, 921, 8) || !fits(g, 929, 8) {
        halted(Halt::InputExhausted)
    } else if usize_at(g, 929) >= 8 {
        halted(Halt::OutOfRange)
    } else {
        let v = values_at(g, 865, 8);
        done(seq![Expect::Item(v[usize_at(g, 929) as int]), Expect::Items(v), Expect::Items(v), Expect::Items(v)])
    }
}

/// Whether a fallible amortised reservation of `add` more items succeeds:
/// not where the size computation overflows, always where there is room,
/// else as the allocator decides (`ok`).
pub open spec fn reserve_ok(len: nat, cap: nat, add: nat, ok: bool) -> bool {
    if growth_overflows(len, cap, add, number_size()) {
        false
    } else if cap - len >= add {
        true
    } else {
        ok
    }
}

/// Whether a fallible exact reservation of `add` more items succeeds (see
/// `reserve_ok`).
pub open spec fn exact_reserve_ok(len: nat, cap: nat, add: nat, ok: bool) -> bool {
    if exact_growth_overflows(len, cap, add, number_size()) {
        false
    } else if cap - len >= add {
        true
    } else {
        ok
    }
}

/// Whether growing to `new_cap` (at least the length) succeeds: always within
/// the inline size or at the present capacity, never where the size
/// computation overflows, else as the allocator decides (`ok`).
pub open spec fn grow_ok(cap: nat, new_cap: nat, ok: bool) -> bool {
    if new_cap <= 16 || new_cap == cap {
        true
    } else if new_cap * number_size() > isize::MAX {
        false
    } else {
        ok
    }
}

/// Operation 10 after the comparison: whether a fallible reservation, a
/// fallible exact one, (after an exact reservation) and a fallible growth of
/// a vector of three items and capacity 16 succeed, their outcomes left open
/// being those of `c`.
pub open spec fn rest_10(g: Seq<u8>, c: Choice) -> Outcome {
    if !fits(g, 985, 8) {
        halted(Halt::InputExhausted)
    } else {
        let r1 = usize_at(g, 985) as nat;
        let ok1 = reserve_ok(3, 16, r1, c.1);
        let cap1 = if ok1 { grown(3, 16, r1) } else { 16 };
        after(
            seq![Expect::Flag(ok1)],
            if !fits(g, 993, 8) {
                halted(Halt::InputExhausted)
            } else {
                let r2 = usize_at(g, 993) as nat;
                let ok2 = exact_reserve_ok(3, cap1, r2, c.2);
                let cap2 = if ok2 { exact_grown(3, cap1, r2) } else { cap1 };
                after(
                    seq![Expect::Flag(ok2)],
                    if !fits(g, 1001, 8) {
                        halted(Halt::InputExhausted)
                    } else if exact_growth_overflows(3, cap2, usize_at(g, 1001) as nat, number_size()) {
                        halted(Halt::CapacityOverflow)
                    } else if !fits(g, 1009, 8) {
                        halted(Halt::InputExhausted)
                    } else if usize_at(g, 1009) < 3 {
                        halted(Halt::OutOfRange)
                    } else {
                        let cap3 = exact_grown(3, cap2, usize_at(g, 1001) as nat);
                        done(seq![Expect::Flag(grow_ok(cap3, usize_at(g, 1009) as nat, c.3))])
                    },
                )
            },
        )
    }
}

/// Operation 10: two `SmallVec<[_; 16]>` of three read elements each; report
/// whether they are equal and their order, then go on as `rest_10`.
pub open spec fn op_10(g: Seq<u8>, c: Choice) -> Outcome {
    if !fits(g, 977, 8) {
        halted(Halt::InputExhausted)
    } else {
        let a = values_at(g, 937, 3);
        let b = values_at(g, 961, 3);
        after(
            seq![Expect::Flag(a == b), Expect::PartialCompared(lex_order(usize_ints(a), usize_ints(b)))],
            rest_10(g, c),
        )
    }
}

/// Operation 11: a `SmallVec<[_; 20]>` of twenty of a read element, cloned;
/// report the clone's items, clone again and report the item at a read
/// index, its address, and that it gives up its buffer as an array.
pub open spec fn op_11(g: Seq<u8>, s: Seq<u8>) -> Outcome {
    if !fits(g, 1017, 8) {
        halted(Halt::InputExhausted)
    } else {
        match copy_of(g, s, usize_at(g, 1017)) {
            Err(h) => halted(h),
            Ok(c) => after(
                seq![Expect::Items(repeat(c, 20))],
                if !fits(g, 1025, 8) {
                    halted(Halt::InputExhausted)
                } else if usize_at(g, 1025) >= 20 {
                    halted(Halt::OutOfRange)
                } else {
                    done(seq![Expect::Item(c), Expect::MutPtr, Expect::Converted])
                },
            ),
        }
    }
}

/// What operation `op` is owed, what the outside crate leaves open being `c`.
#[verifier::opaque]
pub open spec fn op_step(g: Seq<u8>, s: Seq<u8>, op: u8, c: Choice) -> Outcome {
    if op == 0 {
        op_0(g, s, c.0)
    } else if op == 1 {
        op_1(g, s)
    } else if op == 2 {
        op_2(g, s)
    } else if op == 3 {
        op_3(g, s)
    } else if op == 4 {
        op_4(g)
    } else if op == 5 {
        op_5(g, s)
    } else if op == 6 {
        op_6(g)
    } else if op == 7 {
        op_7(g, s)
    } else if op == 8 {
        op_8(g, s)
    } else if op == 9 {
        op_9(g)
    } else if op == 10 {
        op_10(g, c)
    } else {
        op_11(g, s)
    }
}

/// What operations `k` up to `count` owe, in turn, stopping at the first
/// that halts; what is left open in operation `k` is `cs[0]`, in the next
/// `cs[1]`, and so on.
pub open spec fn ops_from(g: Seq<u8>, s: Seq<u8>, k: nat, count: nat, cs: Seq<Choice>) -> Outcome
    decreases count - k,
{
    if k >= count {
        (Seq::empty(), None)
    } else if !fits(g, 1 + k as int, 1) {
        halted(Halt::InputExhausted)
    } else {
        let st = op_step(g, s, g[1 + k as int] % 12, cs[0]);
        if st.1 is Some {
            st
        } else {
            let rest = ops_from(g, s, k + 1, count, cs.drop_first());
            (st.0 + rest.0, rest.1)
        }
    }
}

/// What a whole run is owed, what is left open being `cs`. Inputs shorter
/// than 1200 bytes are ignored.
pub open spec fn script_outcome(input_len: nat, g: Seq<u8>, s: Seq<u8>, cs: Seq<Choice>) -> Outcome {
    if input_len < 1200 {
        (Seq::empty(), None)
    } else if !fits(g, 0, 1) {
        halted(Halt::InputExhausted)
    } else {
        ops_from(g, s, 0, count_at(g, 0, 33), cs)
    }
}

/// `count` numbers read at `start`, `start + 8`, ..., or `None` when a read
/// runs past the end.
fn read_values(g: &[u8], start: usize, count: usize) -> (r: Option<Vec<usize>>)
    requires
        start + 8 * count + 8 <= usize::MAX,
    ensures
        r is Some <==> values_fit(g@, start as int, count as nat),
        r matches Some(v) ==> v@ == values_at(g@, start as int, count as nat),
{
    let mut v: Vec<usize> = Vec::new();
    let mut k: usize = 0;
    while k < count
        invariant
            k <= count,
            start + 8 * count + 8 <= usize::MAX,
            v@ == values_at(g@, start as int, k as nat),
            k > 0 ==> fits(g@, start + 8 * (k - 1), 8),
        decreases count - k,
    {
        match read_usize(g, start + 8 * k) {
            Some(x) => {
                v.push(x);
                k = k + 1;
                assert(v@ =~= values_at(g@, start as int, k as nat));
            },
            None => {
                return None;
            },
        }
    }
    Some(v)
}

/// `n` copies of element `e` as `vec![e; n]` makes them, `n` being more than
/// `inline`: `n - 1` clones, then `e` itself (see `elems`).
fn vec_of_copies(g: &[u8], s: &[u8], e: usize, n: usize, inline: Ghost<nat>) -> (r: Result<Vec<usize>, Halt>)
    requires
        n > inline@,
    ensures
        match r {
            Ok(v) => elems(g@, s@, e, n as nat, inline@) == Ok::<Seq<usize>, Halt>(v@),
            Err(h) => elems(g@, s@, e, n as nat, inline@) == Err::<Seq<usize>, Halt>(h),
        },
{
    let copy = match clone_number(g, s, 10, 18, e) {
        Ok(x) => x,
        Err(h) => return Err(h),
    };
    let mut made: Vec<usize> = Vec::new();
    let mut i: usize = 1;
    while i < n
        invariant
            1 <= i <= n,
            made@ == repeat(copy, (i - 1) as nat),
        decreases n - i,
    {
        made.push(copy);
        i = i + 1;
        assert(made@ =~= repeat(copy, (i - 1) as nat));
    }
    made.push(e);
    Ok(made)
}

/// The elements of a slice, as a vector of their own.
fn listed(items: &[usize]) -> (r: Vec<usize>)
    ensures
        r@ == items@,
{
    vstd::slice::slice_to_vec(items)
}

/// The vector of operation 0 (see `built_0`); where its capacity is left
/// open, the one it got.
fn build_0(g: &[u8], s: &[u8], choice: u8, items: &Vec<usize>) -> (r: Result<(n16::SmallVecNumbers16, Ghost<nat>), Halt>)
    requires
        choice < 8,
        items@.len() <= 32,
    ensures
        match r {
            Ok((v, c)) => v.wf() && built_0(g@, s@, choice as nat, items@, c@) == Ok::<(Seq<usize>, nat), Halt>(
                (n16::sv_n16_items(v), n16::sv_n16_cap(v)),
            ),
            Err(h) => built_0(g@, s@, choice as nat, items@, 0) == Err::<(Seq<usize>, nat), Halt>(h),
        },
{
    let z = core::mem::size_of::<usize>();
    proof {
        broadcast use vstd::layout::layout_of_primitives;
    }
    if choice == 0 {
        let v = n16::small_vec_n16_new();
        Ok((v, Ghost(0)))
    } else if choice == 1 {
        let n0 = match read_usize(g, 335) {
            Some(x) => x,
            None => return Err(Halt::InputExhausted),
        };
        if exact_growth_overflows_exec(0, 16, n0, z) {
            return Err(Halt::CapacityOverflow);
        }
        let v = n16::small_vec_n16_with_capacity(n0);
        Ok((v, Ghost(0)))
    } else if choice == 2 || choice == 4 {
        let copy = items.clone();
        assert(copy@ =~= items@);
        let v = n16::small_vec_n16_from_vec(copy);
        Ok((v, Ghost(n16::sv_n16_cap(v))))
    } else if choice == 3 {
        let e = match read_usize(g, 343) {
            Some(x) => x,
            None => return Err(Halt::InputExhausted),
        };
        let n = match read_usize(g, 351) {
            Some(x) => x,
            None => return Err(Halt::InputExhausted),
        };
        let lim = (isize::MAX as usize) / z;
        assert((n > lim) == (n * z > isize::MAX)) by (nonlinear_arith)
            requires
                z > 0,
                lim == isize::MAX as int / z as int,
        ;
        if n > 16 && n > lim {
            return Err(Halt::CapacityOverflow);
        }
        if n == 0 {
            let v = n16::small_vec_n16_from_elem(e, 0);
            assert(n16::sv_n16_items(v) =~= Seq::<usize>::empty());
            return Ok((v, Ghost(0)));
        }
        if n <= 16 {
            let copy = match clone_number(g, s, 10, 18, e) {
                Ok(x) => x,
                Err(h) => return Err(h),
            };
            let v = n16::small_vec_n16_from_elem(copy, n);
            Ok((v, Ghost(0)))
        } else {
            let made = match vec_of_copies(g, s, e, n, Ghost(16)) {
                Ok(m) => m,
                Err(h) => return Err(h),
            };
            let v = n16::small_vec_n16_from_vec(made);
            Ok((v, Ghost(n16::sv_n16_cap(v))))
        }
    } else if choice == 6 {
        if items.len() == 0 {
            let v = n16::small_vec_n16_new();
            assert(items@ =~= Seq::<usize>::empty());
            Ok((v, Ghost(0)))
        } else {
            let copy = items.clone();
            assert(copy@ =~= items@);
            proof {
                crate::small_vec::lemma_small_growth_sized(0, 16, items@.len(), z as nat);
            }
            let v = n16::small_vec_n16_from_iter(copy);
            Ok((v, Ghost(0)))
        }
    } else {
        let v = n16::small_vec_n16_from_slice(items.as_slice());
        Ok((v, Ghost(n16::sv_n16_cap(v))))
    }
}

/// Operation 0 (see `op_0`); the capacity that the constructor left open is
/// the choice.
#[verifier::loop_isolation(false)]
fn run_op_0(g: &[u8], s: &[u8]) -> (r: (Vec<Event>, Option<Halt>, Ghost<nat>))
    ensures
        events_match(r.0@, op_0(g@, s@, r.2@).0),
        r.1 == op_0(g@, s@, r.2@).1,
{
    let none = Ghost(0nat);
    let n = match read_u8(g, 35) {
        Some(x) => x % 33,
        None => return (Vec::new(), Some(Halt::InputExhausted), none),
    };
    let items = match read_values(g, 67, n as usize) {
        Some(v) => v,
        None => return (Vec::new(), Some(Halt::InputExhausted), none),
    };
    let choice = match read_u8(g, 334) {
        Some(x) => x % 8,
        None => return (Vec::new(), Some(Halt::InputExhausted), none),
    };
    let (v, Ghost(c)) = match build_0(g, s, choice, &items) {
        Ok(x) => x,
        Err(h) => return (Vec::new(), Some(h), none),
    };
    let mut events: Vec<Event> = Vec::new();
    let target = n16::small_vec_n16_from_slice(items.as_slice());
    events.push(Event::Items(listed(n16::small_vec_n16_as_slice(&target))));
    let len = n16::small_vec_n16_len(&v);
    if len > 0 {
        events.push(Event::Item(n16::small_vec_n16_index(&v, 0)));
    }
    events.push(Event::Items(listed(n16::small_vec_n16_as_slice(&v))));
    events.push(Event::Flag(n16::small_vec_n16_spilled(&v)));
    events.push(Event::Count(len));
    events.push(Event::Flag(n16::small_vec_n16_is_empty(&v)));
    proof {
        let e = op_0(g@, s@, c).0;
        assert(forall|i: int| 0 <= i < events@.len() ==> #[trigger] event_matches(events@[i], e[i]));
    }
    (events, None, Ghost(c))
}

/// Once the first `j` reads and clones of `read_cloned` stop, so do all `k`.
proof fn lemma_read_cloned_halt_extends(g: Seq<u8>, s: Seq<u8>, start: int, j: nat, k: nat, h: Halt)
    requires
        j <= k,
        read_cloned(g, s, start, j) == Err::<(Seq<usize>, Seq<usize>), Halt>(h),
    ensures
        read_cloned(g, s, start, k) == Err::<(Seq<usize>, Seq<usize>), Halt>(h),
    decreases k,
{
    if j < k {
        lemma_read_cloned_halt_extends(g, s, start, j, (k - 1) as nat, h);
    }
}

/// Operation 1 (see `op_1`).
#[verifier::loop_isolation(false)]
fn run_op_1(g: &[u8], s: &[u8]) -> (r: (Vec<Event>, Option<Halt>))
    ensures
        events_match(r.0@, op_1(g@, s@).0),
        r.1 == op_1(g@, s@).1,
{
    let z = core::mem::size_of::<usize>();
    proof {
        broadcast use vstd::layout::layout_of_primitives;
    }
    let mut v1 = n24::small_vec_n24_new();
    let mut v2 = n24::small_vec_n24_new();
    let k = match read_u8(g, 359) {
        Some(x) => x % 15,
        None => return (Vec::new(), Some(Halt::InputExhausted)),
    };
    let mut j: u8 = 0;
    assert(n24::sv_n24_items(v1) =~= Seq::<usize>::empty());
    while j < k
        invariant
            j <= k < 15,
            v1.wf(),
            v2.wf(),
            n24::sv_n24_cap(v1) == 24,
            n24::sv_n24_cap(v2) == 24,
            read_cloned(g@, s@, 360, j as nat) == Ok::<(Seq<usize>, Seq<usize>), Halt>(
                (n24::sv_n24_items(v1), n24::sv_n24_items(v2)),
            ),
            n24::sv_n24_items(v1).len() == j,
            n24::sv_n24_items(v2).len() == j,
        decreases k - j,
    {
        let x = match read_usize(g, 360 + 8 * j as usize) {
            Some(x) => x,
            None => {
                proof {
                    lemma_read_cloned_halt_extends(g@, s@, 360, (j + 1) as nat, k as nat, Halt::InputExhausted);
                }
                return (Vec::new(), Some(Halt::InputExhausted));
            },
        };
        let c = match clone_number(g, s, 10, 18, x) {
            Ok(c) => c,
            Err(h) => {
                proof {
                    lemma_read_cloned_halt_extends(g@, s@, 360, (j + 1) as nat, k as nat, h);
                }
                return (Vec::new(), Some(h));
            },
        };
        n24::small_vec_n24_push(&mut v1, c);
        n24::small_vec_n24_push(&mut v2, x);
        j = j + 1;
    }
    let ghost a = n24::sv_n24_items(v1);
    let ghost b = n24::sv_n24_items(v2);
    let mut events: Vec<Event> = Vec::new();
    events.push(Event::Count(n24::small_vec_n24_capacity(&v1)));
    let empty = n24::small_vec_n24_is_empty(&v1);
    events.push(Event::Flag(empty));
    events.push(Event::Count(n24::small_vec_n24_len(&v1)));
    if !empty {
        match n24::small_vec_n24_pop(&mut v1) {
            Some(x) => events.push(Event::Item(x)),
            None => {},
        }
    }
    let ghost shown = events@;
    let ghost a1 = n24::sv_n24_items(v1);
    proof {
        let e = op_1(g@, s@).0;
        assert(forall|i: int| 0 <= i < events@.len() ==> #[trigger] event_matches(events@[i], e[i]));
        assert(op_1(g@, s@) == after(
            if k > 0 { seq![Expect::Count(24), Expect::Flag(k == 0), Expect::Count(k as nat), Expect::Item(a.last())] }
            else { seq![Expect::Count(24), Expect::Flag(k == 0), Expect::Count(k as nat)] },
            rest_1(g@, a1, b),
        ));
    }
    let r = match read_usize(g, 480) {
        Some(x) => x,
        None => return (events, Some(Halt::InputExhausted)),
    };
    if growth_overflows_exec(n24::small_vec_n24_len(&v1), n24::small_vec_n24_capacity(&v1), r, z) {
        return (events, Some(Halt::CapacityOverflow));
    }
    n24::small_vec_n24_reserve(&mut v1, r);
    let t = match read_usize(g, 488) {
        Some(x) => x,
        None => return (events, Some(Halt::InputExhausted)),
    };
    n24::small_vec_n24_truncate(&mut v1, t);
    if growth_overflows_exec(n24::small_vec_n24_len(&v1), n24::small_vec_n24_capacity(&v1), n24::small_vec_n24_len(&v2), z) {
        return (events, Some(Halt::CapacityOverflow));
    }
    n24::small_vec_n24_append(&mut v1, &mut v2);
    events.push(Event::Items(listed(n24::small_vec_n24_deref(&v1))));
    let m = n24::small_vec_n24_as_mut_slice(&mut v1);
    events.push(Event::Items(listed(m)));
    events.push(Event::Items(listed(n24::small_vec_n24_as_ref(&v1))));
    proof {
        let e = op_1(g@, s@).0;
        assert(forall|i: int| 0 <= i < events@.len() ==> #[trigger] event_matches(events@[i], e[i]));
    }
    (events, None)
}

/// Operation 2 (see `op_2`).
#[verifier::loop_isolation(false)]
fn run_op_2(g: &[u8], s: &[u8]) -> (r: (Vec<Event>, Option<Halt>))
    ensures
        events_match(r.0@, op_2(g@, s@).0),
        r.1 == op_2(g@, s@).1,
{
    let z = core::mem::size_of::<usize>();
    proof {
        broadcast use vstd::layout::layout_of_primitives;
    }
    let e = match read_usize(g, 496) {
        Some(x) => x,
        None => return (Vec::new(), Some(Halt::InputExhausted)),
    };
    let copy = match clone_number(g, s, 10, 18, e) {
        Ok(x) => x,
        Err(h) => return (Vec::new(), Some(h)),
    };
    let mut v = n20::small_vec_n20_from_elem(copy, 1);
    assert(n20::sv_n20_items(v) =~= seq![copy]);
    let at = match read_usize(g, 504) {
        Some(x) => x,
        None => return (Vec::new(), Some(Halt::InputExhausted)),
    };
    let value = match read_usize(g, 512) {
        Some(x) => x,
        None => return (Vec::new(), Some(Halt::InputExhausted)),
    };
    if at > n20::small_vec_n20_len(&v) {
        return (Vec::new(), Some(Halt::OutOfRange));
    }
    n20::small_vec_n20_insert(&mut v, at, value);
    let mut events: Vec<Event> = Vec::new();
    if !n20::small_vec_n20_is_empty(&v) {
        let ri = match read_usize(g, 520) {
            Some(x) => x,
            None => return (events, Some(Halt::InputExhausted)),
        };
        if ri >= n20::small_vec_n20_len(&v) {
            return (events, Some(Halt::OutOfRange));
        }
        events.push(Event::Item(n20::small_vec_n20_remove(&mut v, ri)));
    }
    let gc = match read_usize(g, 528) {
        Some(x) => x,
        None => return (events, Some(Halt::InputExhausted)),
    };
    if gc < n20::small_vec_n20_len(&v) {
        return (events, Some(Halt::OutOfRange));
    }
    let lim = (isize::MAX as usize) / z;
    assert((gc > lim) == (gc * z > isize::MAX)) by (nonlinear_arith)
        requires
            z > 0,
            lim == isize::MAX as int / z as int,
    ;
    if gc > 20 && gc > lim {
        return (events, Some(Halt::CapacityOverflow));
    }
    n20::small_vec_n20_grow(&mut v, gc);
    n20::small_vec_n20_shrink_to_fit(&mut v);
    events.push(Event::Items(listed(n20::small_vec_n20_as_slice(&v))));
    if !n20::small_vec_n20_is_empty(&v) {
        let si = match read_usize(g, 536) {
            Some(x) => x,
            None => return (events, Some(Halt::InputExhausted)),
        };
        if si >= n20::small_vec_n20_len(&v) {
            return (events, Some(Halt::OutOfRange));
        }
        events.push(Event::Item(n20::small_vec_n20_swap_remove(&mut v, si)));
    }
    events.push(Event::Count(n20::small_vec_n20_inline_size(&v)));
    proof {
        let e = op_2(g@, s@).0;
        assert(forall|i: int| 0 <= i < events@.len() ==> #[trigger] event_matches(events@[i], e[i]));
    }
    (events, None)
}

/// Operation 3 (see `op_3`).
#[verifier::loop_isolation(false)]
fn run_op_3(g: &[u8], s: &[u8]) -> (r: (Vec<Event>, Option<Halt>))
    ensures
        events_match(r.0@, op_3(g@, s@).0),
        r.1 == op_3(g@, s@).1,
{
    let z = core::mem::size_of::<usize>();
    proof {
        broadcast use vstd::layout::layout_of_primitives;
    }
    let mut v = n12::small_vec_n12_new();
    let n = match read_u8(g, 536) {
        Some(x) => x % 20,
        None => return (Vec::new(), Some(Halt::InputExhausted)),
    };
    let ext = match read_values(g, 537, n as usize) {
        Some(e) => e,
        None => return (Vec::new(), Some(Halt::InputExhausted)),
    };
    proof {
        crate::small_vec::lemma_small_growth_sized(0, 12, n as nat, z as nat);
    }
    n12::small_vec_n12_extend_from_slice(&mut v, ext.as_slice());
    assert(n12::sv_n12_items(v) =~= ext@);
    let at = match read_usize(g, 697) {
        Some(x) => x,
        None => return (Vec::new(), Some(Halt::InputExhausted)),
    };
    if at > n12::small_vec_n12_len(&v) {
        return (Vec::new(), Some(Halt::OutOfRange));
    }
    proof {
        crate::small_vec::lemma_small_growth_sized(n as nat, n12::sv_n12_cap(v), n as nat, z as nat);
    }
    n12::small_vec_n12_insert_from_slice(&mut v, at, ext.as_slice());
    let same = n12::small_vec_n12_from_slice(n12::small_vec_n12_as_slice(&v));
    let mut events: Vec<Event> = Vec::new();
    events.push(Event::Items(listed(n12::small_vec_n12_as_slice(&same))));
    let cl = match clone_all(g, s, &ext) {
        Ok(c) => c,
        Err(h) => return (events, Some(h)),
    };
    proof {
        crate::small_vec::lemma_small_growth_sized(2 * n as nat, n12::sv_n12_cap(v), n as nat, z as nat);
    }
    n12::small_vec_n12_extend(&mut v, cl);
    let mi = match read_usize(g, 705) {
        Some(x) => x,
        None => return (events, Some(Halt::InputExhausted)),
    };
    let len = n12::small_vec_n12_len(&v);
    if mi > len {
        if mi > usize::MAX - n as usize {
            return (events, Some(Halt::ArithmeticOverflow));
        }
        return (events, Some(Halt::OutOfRange));
    }
    let again = ext.clone();
    assert(again@ =~= ext@);
    proof {
        crate::small_vec::lemma_small_growth_sized(3 * n as nat, n12::sv_n12_cap(v), n as nat, z as nat);
    }
    n12::small_vec_n12_insert_many(&mut v, mi, again);
    proof {
        let e = op_3(g@, s@).0;
        assert(forall|i: int| 0 <= i < events@.len() ==> #[trigger] event_matches(events@[i], e[i]));
    }
    (events, None)
}

/// Operation 4 (see `op_4`).
#[verifier::loop_isolation(false)]
fn run_op_4(g: &[u8], s: &[u8]) -> (r: (Vec<Event>, Option<Halt>))
    ensures
        events_match(r.0@, op_4(g@).0),
        r.1 == op_4(g@).1,
{
    let mut v = n18::small_vec_n18_new();
    let held = listed(n18::small_vec_n18_as_slice(&v));
    assert(held@ =~= Seq::<usize>::empty());
    let cl = match clone_all(g, s, &held) {
        Ok(c) => c,
        Err(h) => return (Vec::new(), Some(h)),
    };
    let twin = n18::small_vec_n18_from_iter(cl);
    let mut events: Vec<Event> = Vec::new();
    events.push(Event::Flag(n18::small_vec_n18_eq(&v, &twin)));
    events.push(Event::Compared(n18::small_vec_n18_compare(&v, &twin)));
    match n18::small_vec_n18_partial_compare(&v, &twin) {
        Some(o) => events.push(Event::Compared(o)),
        None => {},
    }
    n18::small_vec_n18_clear(&mut v);
    events.push(Event::Flag(n18::small_vec_n18_is_empty(&v)));
    proof {
        assert(usize_ints(Seq::<usize>::empty()) =~= Seq::<int>::empty());
        let e = op_4(g@).0;
        assert(forall|i: int| 0 <= i < events@.len() ==> #[trigger] event_matches(events@[i], e[i]));
    }
    let mut k: usize = 0;
    while k < 5
        invariant
            k <= 5,
            v.wf(),
            n18::sv_n18_cap(v) == 18,
            n18::sv_n18_items(v).len() == k,
            k > 0 ==> fits(g@, 721 + 8 * (k - 1), 8),
        decreases 5 - k,
    {
        let x = match read_usize(g, 721 + 8 * k) {
            Some(x) => x,
            None => return (events, Some(Halt::InputExhausted)),
        };
        n18::small_vec_n18_push(&mut v, x);
        k = k + 1;
    }
    n18::small_vec_n18_dedup(&mut v);
    n18::small_vec_n18_dedup_by_eq(&mut v);
    n18::small_vec_n18_dedup_by_key(&mut v, 2);
    (events, None)
}

/// Operation 5 (see `op_5`).
#[verifier::loop_isolation(false)]
fn run_op_5(g: &[u8], s: &[u8]) -> (r: (Vec<Event>, Option<Halt>))
    ensures
        events_match(r.0@, op_5(g@, s@).0),
        r.1 == op_5(g@, s@).1,
{
    let z = core::mem::size_of::<usize>();
    proof {
        broadcast use vstd::layout::layout_of_primitives;
    }
    let mut v = n32::small_vec_n32_new();
    let ds = match read_usize(g, 705) {
        Some(x) => x,
        None => return (Vec::new(), Some(Halt::InputExhausted)),
    };
    let de = match read_usize(g, 713) {
        Some(x) => x,
        None => return (Vec::new(), Some(Halt::InputExhausted)),
    };
    let mut k: usize = 0;
    while k < 10
        invariant
            k <= 10,
            v.wf(),
            n32::sv_n32_cap(v) == 32,
            n32::sv_n32_items(v) == values_at(g@, 721, k as nat),
            k > 0 ==> fits(g@, 721 + 8 * (k - 1), 8),
        decreases 10 - k,
    {
        let x = match read_usize(g, 721 + 8 * k) {
            Some(x) => x,
            None => return (Vec::new(), Some(Halt::InputExhausted)),
        };
        n32::small_vec_n32_push(&mut v, x);
        k = k + 1;
        assert(n32::sv_n32_items(v) =~= values_at(g@, 721, k as nat));
    }
    if ds > de || de > n32::small_vec_n32_len(&v) {
        return (Vec::new(), Some(Halt::OutOfRange));
    }
    let drained = n32::small_vec_n32_drain(&mut v, ds, de);
    let mut events: Vec<Event> = Vec::new();
    if drained.len() > 0 {
        events.push(Event::Item(drained[0]));
    }
    events.push(Event::Items(listed(n32::small_vec_n32_as_slice(&v))));
    let ghost left = n32::sv_n32_items(v);
    proof {
        let e = op_5(g@, s@).0;
        assert(forall|i: int| 0 <= i < events@.len() ==> #[trigger] event_matches(events@[i], e[i]));
    }
    n32::small_vec_n32_retain_even(&mut v);
    assert(n32::sv_n32_items(v) == evens(left));
    let rl = match read_usize(g, 801) {
        Some(x) => x,
        None => return (events, Some(Halt::InputExhausted)),
    };
    let rv = match read_usize(g, 809) {
        Some(x) => x,
        None => return (events, Some(Halt::InputExhausted)),
    };
    let len = n32::small_vec_n32_len(&v);
    if rl > len {
        if growth_overflows_exec(len, n32::small_vec_n32_capacity(&v), rl - len, z) {
            return (events, Some(Halt::CapacityOverflow));
        }
        let c = match clone_number(g, s, 10, 18, rv) {
            Ok(c) => c,
            Err(h) => return (events, Some(h)),
        };
        n32::small_vec_n32_resize(&mut v, rl, c);
    } else {
        n32::small_vec_n32_resize(&mut v, rl, rv);
    }
    let wl = match read_usize(g, 817) {
        Some(x) => x,
        None => return (events, Some(Halt::InputExhausted)),
    };
    let len3 = n32::small_vec_n32_len(&v);
    if wl > len3 {
        if growth_overflows_exec(len3, n32::small_vec_n32_capacity(&v), wl - len3, z) {
            return (events, Some(Halt::CapacityOverflow));
        }
        if read_usize(g, 825).is_none() {
            return (events, Some(Halt::InputExhausted));
        }
    }
    n32::small_vec_n32_resize_with_read(&mut v, wl, g, 825);
    (events, None)
}

/// Operation 6 (see `op_6`).
#[verifier::loop_isolation(false)]
fn run_op_6(g: &[u8]) -> (r: (Vec<Event>, Option<Halt>))
    ensures
        events_match(r.0@, op_6(g@).0),
        r.1 == op_6(g@).1,
{
    let mut v = n64::small_vec_n64_new();
    let mut k: usize = 0;
    while k < 5
        invariant
            k <= 5,
            v.wf(),
            n64::sv_n64_cap(v) == 64,
            n64::sv_n64_items(v) == values_at(g@, 801, k as nat),
            k > 0 ==> fits(g@, 801 + 8 * (k - 1), 8),
        decreases 5 - k,
    {
        let x = match read_usize(g, 801 + 8 * k) {
            Some(x) => x,
            None => return (Vec::new(), Some(Halt::InputExhausted)),
        };
        n64::small_vec_n64_push(&mut v, x);
        k = k + 1;
        assert(n64::sv_n64_items(v) =~= values_at(g@, 801, k as nat));
    }
    let items = n64::small_vec_n64_into_iter_collect(v);
    let ghost e = op_6(g@).0;
    let mut events: Vec<Event> = Vec::new();
    events.push(Event::Items(listed(items.as_slice())));
    let mut j: usize = 0;
    while j < items.len()
        invariant
            j <= items@.len() == 5,
            items@ == values_at(g@, 801, 5),
            e == op_6(g@).0,
            e.len() == 6,
            events@.len() == j + 1,
            forall|i: int| 0 <= i < events@.len() ==> #[trigger] event_matches(events@[i], e[i]),
        decreases items.len() - j,
    {
        events.push(Event::Item(items[j]));
        j = j + 1;
    }
    (events, None)
}

/// Operation 7 (see `op_7`).
#[verifier::loop_isolation(false)]
fn run_op_7(g: &[u8], s: &[u8]) -> (r: (Vec<Event>, Option<Halt>))
    ensures
        events_match(r.0@, op_7(g@, s@).0),
        r.1 == op_7(g@, s@).1,
{
    let z = core::mem::size_of::<usize>();
    proof {
        broadcast use vstd::layout::layout_of_primitives;
    }
    let e = match read_usize(g, 841) {
        Some(x) => x,
        None => return (Vec::new(), Some(Halt::InputExhausted)),
    };
    let n = match read_usize(g, 849) {
        Some(x) => x,
        None => return (Vec::new(), Some(Halt::InputExhausted)),
    };
    let lim = (isize::MAX as usize) / z;
    assert((n > lim) == (n * z > isize::MAX)) by (nonlinear_arith)
        requires
            z > 0,
            lim == isize::MAX as int / z as int,
    ;
    if n > 128 && n > lim {
        return (Vec::new(), Some(Halt::CapacityOverflow));
    }
    let v = if n == 0 {
        let v0 = n128::small_vec_n128_from_elem(e, 0);
        assert(n128::sv_n128_items(v0) =~= Seq::<usize>::empty());
        v0
    } else if n <= 128 {
        let copy = match clone_number(g, s, 10, 18, e) {
            Ok(x) => x,
            Err(h) => return (Vec::new(), Some(h)),
        };
        n128::small_vec_n128_from_elem(copy, n)
    } else {
        let made = match vec_of_copies(g, s, e, n, Ghost(128)) {
            Ok(m) => m,
            Err(h) => return (Vec::new(), Some(h)),
        };
        n128::small_vec_n128_from_vec(made)
    };
    let copied = n128::small_vec_n128_from_slice(n128::small_vec_n128_as_slice(&v));
    let mut events: Vec<Event> = Vec::new();
    events.push(Event::Items(listed(n128::small_vec_n128_as_slice(&copied))));
    events.push(Event::Items(n128::small_vec_n128_into_vec(v)));
    proof {
        let x = op_7(g@, s@).0;
        assert(forall|i: int| 0 <= i < events@.len() ==> #[trigger] event_matches(events@[i], x[i]));
    }
    (events, None)
}

/// Operation 8 (see `op_8`).
#[verifier::loop_isolation(false)]
fn run_op_8(g: &[u8], s: &[u8]) -> (r: (Vec<Event>, Option<Halt>))
    ensures
        events_match(r.0@, op_8(g@, s@).0),
        r.1 == op_8(g@, s@).1,
{
    let e = match read_usize(g, 857) {
        Some(x) => x,
        None => return (Vec::new(), Some(Halt::InputExhausted)),
    };
    let large = match vec_of_copies(g, s, e, 15, Ghost(0)) {
        Ok(m) => m,
        Err(h) => return (Vec::new(), Some(h)),
    };
    let v = n256::small_vec_n256_from_slice(large.as_slice());
    let mut events: Vec<Event> = Vec::new();
    events.push(Event::Items(listed(n256::small_vec_n256_deref(&v))));
    events.push(Event::Items(listed(n256::small_vec_n256_borrow(&v))));
    events.push(Event::Ptr(n256::small_vec_n256_as_ptr(&v)));
    let boxed = n256::small_vec_n256_into_boxed_slice(v);
    events.push(Event::Items(listed(&boxed)));
    proof {
        let x = op_8(g@, s@).0;
        assert(forall|i: int| 0 <= i < events@.len() ==> #[trigger] event_matches(events@[i], x[i]));
    }
    (events, None)
}

/// Operation 9 (see `op_9`).
#[verifier::loop_isolation(false)]
fn run_op_9(g: &[u8]) -> (r: (Vec<Event>, Option<Halt>))
    ensures
        events_match(r.0@, op_9(g@).0),
        r.1 == op_9(g@).1,
{
    let mut v = n32::small_vec_n32_new();
    let mut k: usize = 0;
    while k < 8
        invariant
            k <= 8,
            v.wf(),
            n32::sv_n32_cap(v) == 32,
            n32::sv_n32_items(v) == values_at(g@, 865, k as nat),
            k > 0 ==> fits(g@, 865 + 8 * (k - 1), 8),
        decreases 8 - k,
    {
        let x = match read_usize(g, 865 + 8 * k) {
            Some(x) => x,
            None => return (Vec::new(), Some(Halt::InputExhausted)),
        };
        n32::small_vec_n32_push(&mut v, x);
        k = k + 1;
        assert(n32::sv_n32_items(v) =~= values_at(g@, 865, k as nat));
    }
    let mut events: Vec<Event> = Vec::new();
    if !n32::small_vec_n32_is_empty(&v) {
        let idx = match read_usize(g, 929) {
            Some(x) => x,
            None => return (Vec::new(), Some(Halt::InputExhausted)),
        };
        if idx >= n32::small_vec_n32_len(&v) {
            return (Vec::new(), Some(Halt::OutOfRange));
        }
        events.push(Event::Item(n32::small_vec_n32_index(&v, idx)));
    }
    let dm = n32::small_vec_n32_deref_mut(&mut v);
    events.push(Event::Items(listed(dm)));
    let am = n32::small_vec_n32_as_mut(&mut v);
    events.push(Event::Items(listed(am)));
    let bm = n32::small_vec_n32_borrow_mut(&mut v);
    events.push(Event::Items(listed(bm)));
    proof {
        let x = op_9(g@).0;
        assert(forall|i: int| 0 <= i < events@.len() ==> #[trigger] event_matches(events@[i], x[i]));
    }
    (events, None)
}

/// Operation 10 (see `op_10`); whether each fallible reservation succeeded
/// is the choice.
#[verifier::loop_isolation(false)]
fn run_op_10(g: &[u8]) -> (r: (Vec<Event>, Option<Halt>, Ghost<Choice>))
    ensures
        events_match(r.0@, op_10(g@, r.2@).0),
        r.1 == op_10(g@, r.2@).1,
{
    let z = core::mem::size_of::<usize>();
    proof {
        broadcast use vstd::layout::layout_of_primitives;
    }
    let none = Ghost((0nat, false, false, false));
    let mut v1 = n16::small_vec_n16_new();
    let mut v2 = n16::small_vec_n16_new();
    let mut k: usize = 0;
    while k < 3
        invariant
            k <= 3,
            v1.wf(),
            v2.wf(),
            n16::sv_n16_cap(v1) == 16,
            n16::sv_n16_cap(v2) == 16,
            n16::sv_n16_items(v1) == values_at(g@, 937, k as nat),
            n16::sv_n16_items(v2) == values_at(g@, 961, k as nat),
            k > 0 ==> fits(g@, 961 + 8 * (k - 1), 8),
        decreases 3 - k,
    {
        let x = match read_usize(g, 937 + 8 * k) {
            Some(x) => x,
            None => return (Vec::new(), Some(Halt::InputExhausted), none),
        };
        n16::small_vec_n16_push(&mut v1, x);
        let y = match read_usize(g, 961 + 8 * k) {
            Some(y) => y,
            None => return (Vec::new(), Some(Halt::InputExhausted), none),
        };
        n16::small_vec_n16_push(&mut v2, y);
        k = k + 1;
        assert(n16::sv_n16_items(v1) =~= values_at(g@, 937, k as nat));
        assert(n16::sv_n16_items(v2) =~= values_at(g@, 961, k as nat));
    }
    let mut events: Vec<Event> = Vec::new();
    events.push(Event::Flag(n16::small_vec_n16_eq(&v1, &v2)));
    match n16::small_vec_n16_partial_compare(&v1, &v2) {
        Some(o) => events.push(Event::PartialCompared(o)),
        None => {},
    }
    proof {
        let x = op_10(g@, (0nat, false, false, false)).0;
        assert(forall|i: int| 0 <= i < events@.len() ==> #[trigger] event_matches(events@[i], x[i]));
    }
    let (mut more, halt, Ghost(c)) = run_rest_10(g, &mut v1);
    proof {
        lemma_events_match_append(events@, seq![
            Expect::Flag(values_at(g@, 937, 3) == values_at(g@, 961, 3)),
            Expect::PartialCompared(lex_order(usize_ints(values_at(g@, 937, 3)), usize_ints(values_at(g@, 961, 3)))),
        ], more@, rest_10(g@, c).0);
    }
    events.append(&mut more);
    (events, halt, Ghost(c))
}

/// The rest of operation 10 (see `rest_10`), on the first vector; whether
/// each fallible reservation succeeded is the choice.
#[verifier::loop_isolation(false)]
fn run_rest_10(g: &[u8], v1: &mut n16::SmallVecNumbers16) -> (r: (Vec<Event>, Option<Halt>, Ghost<Choice>))
    requires
        old(v1).wf(),
        n16::sv_n16_cap(*old(v1)) == 16,
        n16::sv_n16_items(*old(v1)).len() == 3,
    ensures
        events_match(r.0@, rest_10(g@, r.2@).0),
        r.1 == rest_10(g@, r.2@).1,
{
    let z = core::mem::size_of::<usize>();
    proof {
        broadcast use vstd::layout::layout_of_primitives;
    }
    let none = Ghost((0nat, false, false, false));
    let mut events: Vec<Event> = Vec::new();
    let r1 = match read_usize(g, 985) {
        Some(x) => x,
        None => return (events, Some(Halt::InputExhausted), none),
    };
    let ok1 = n16::small_vec_n16_try_reserve(v1, r1).is_ok();
    events.push(Event::Flag(ok1));
    let r2 = match read_usize(g, 993) {
        Some(x) => x,
        None => return (events, Some(Halt::InputExhausted), Ghost((0nat, ok1, false, false))),
    };
    let ok2 = n16::small_vec_n16_try_reserve_exact(v1, r2).is_ok();
    events.push(Event::Flag(ok2));
    let chosen = Ghost((0nat, ok1, ok2, false));
    let r3 = match read_usize(g, 1001) {
        Some(x) => x,
        None => return (events, Some(Halt::InputExhausted), chosen),
    };
    if exact_growth_overflows_exec(n16::small_vec_n16_len(v1), n16::small_vec_n16_capacity(v1), r3, z) {
        return (events, Some(Halt::CapacityOverflow), chosen);
    }
    n16::small_vec_n16_reserve_exact(v1, r3);
    let gc = match read_usize(g, 1009) {
        Some(x) => x,
        None => return (events, Some(Halt::InputExhausted), chosen),
    };
    if gc < n16::small_vec_n16_len(v1) {
        return (events, Some(Halt::OutOfRange), chosen);
    }
    let ok3 = n16::small_vec_n16_try_grow(v1, gc).is_ok();
    events.push(Event::Flag(ok3));
    proof {
        let x = rest_10(g@, (0nat, ok1, ok2, ok3)).0;
        assert(forall|i: int| 0 <= i < events@.len() ==> #[trigger] event_matches(events@[i], x[i]));
    }
    (events, None, Ghost((0nat, ok1, ok2, ok3)))
}

/// Clones of `n` copies of one element are `n` copies of its clone, or
/// stop as its clone does.
proof fn lemma_cloned_repeat(first: Seq<u8>, second: Seq<u8>, x: usize, n: nat)
    ensures
        cloned_all(first, second, repeat(x, n)) == match copy_of(first, second, x) {
            Err(h) => if n == 0 { Ok::<Seq<usize>, Halt>(Seq::empty()) } else { Err(h) },
            Ok(c) => Ok(repeat(c, n)),
        },
    decreases n,
{
    if n > 0 {
        assert(repeat(x, n).drop_last() =~= repeat(x, (n - 1) as nat));
        lemma_cloned_repeat(first, second, x, (n - 1) as nat);
        match copy_of(first, second, x) {
            Err(h) => {},
            Ok(c) => {
                assert(repeat(c, (n - 1) as nat).push(c) =~= repeat(c, n));
            },
        }
    } else {
        assert(repeat(x, 0) =~= Seq::<usize>::empty());
        match copy_of(first, second, x) {
            Err(h) => {},
            Ok(c) => {
                assert(repeat(c, 0) =~= Seq::<usize>::empty());
            },
        }
    }
}

/// Operation 11 (see `op_11`).
#[verifier::loop_isolation(false)]
fn run_op_11(g: &[u8], s: &[u8]) -> (r: (Vec<Event>, Option<Halt>))
    ensures
        events_match(r.0@, op_11(g@, s@).0),
        r.1 == op_11(g@, s@).1,
{
    let x = match read_usize(g, 1017) {
        Some(x) => x,
        None => return (Vec::new(), Some(Halt::InputExhausted)),
    };
    let buf: [usize; 20] = [x; 20];
    assert(buf@ =~= repeat(x, 20));
    let from_array = n20::small_vec_n20_from_buf(buf);
    proof {
        lemma_cloned_repeat(g@, s@, x, 20);
    }
    let held = listed(n20::small_vec_n20_as_slice(&from_array));
    let cl = match clone_all(g, s, &held) {
        Ok(c) => c,
        Err(h) => return (Vec::new(), Some(h)),
    };
    let clone_result = n20::small_vec_n20_from_iter(cl);
    let mut events: Vec<Event> = Vec::new();
    events.push(Event::Items(listed(n20::small_vec_n20_as_slice(&clone_result))));
    let held2 = listed(n20::small_vec_n20_as_slice(&from_array));
    let cl2 = match clone_all(g, s, &held2) {
        Ok(c) => c,
        Err(h) => return (events, Some(h)),
    };
    let mut mutable_vec = n20::small_vec_n20_from_iter(cl2);
    if !n20::small_vec_n20_is_empty(&mutable_vec) {
        let idx = match read_usize(g, 1025) {
            Some(i) => i,
            None => return (events, Some(Halt::InputExhausted)),
        };
        if idx >= n20::small_vec_n20_len(&mutable_vec) {
            return (events, Some(Halt::OutOfRange));
        }
        events.push(Event::Item(n20::small_vec_n20_index_mut(&mut mutable_vec, idx)));
    }
    events.push(Event::MutPtr(n20::small_vec_n20_as_mut_ptr(&mut mutable_vec)));
    match n20::small_vec_n20_into_inner(mutable_vec) {
        Ok(_) => events.push(Event::Converted),
        Err(w) => events.push(Event::NotConverted(n20::small_vec_n20_len(&w))),
    }
    proof {
        let e = op_11(g@, s@).0;
        assert(forall|i: int| 0 <= i < events@.len() ==> #[trigger] event_matches(events@[i], e[i]));
    }
    (events, None)
}

/// The operation `op` (see `op_step`); what the outside crate left open is
/// the choice.
fn run_op(g: &[u8], s: &[u8], op: u8) -> (r: (Vec<Event>, Option<Halt>, Ghost<Choice>))
    ensures
        events_match(r.0@, op_step(g@, s@, op, r.2@).0),
        r.1 == op_step(g@, s@, op, r.2@).1,
{
    reveal(op_step);
    let none = Ghost((0nat, false, false, false));
    if op == 0 {
        let (events, halt, Ghost(c)) = run_op_0(g, s);
        return (events, halt, Ghost((c, false, false, false)));
    }
    if op == 10 {
        return run_op_10(g);
    }
    let (events, halt) = if op == 1 {
        run_op_1(g, s)
    } else if op == 2 {
        run_op_2(g, s)
    } else if op == 3 {
        run_op_3(g, s)
    } else if op == 4 {
        run_op_4(g, s)
    } else if op == 5 {
        run_op_5(g, s)
    } else if op == 6 {
        run_op_6(g)
    } else if op == 7 {
        run_op_7(g, s)
    } else if op == 8 {
        run_op_8(g, s)
    } else if op == 9 {
        run_op_9(g)
    } else {
        run_op_11(g, s)
    };
    (events, halt, none)
}

/// Once operation `k` has run without halting, the run's outcome is what was
/// owed so far and its events, followed by what the later operations owe.
proof fn lemma_run_continues(
    input_len: nat,
    g: Seq<u8>,
    s: Seq<u8>,
    k: nat,
    count: nat,
    done_cs: Seq<Choice>,
    owed: Seq<Expect>,
    c: Choice,
)
    requires
        forall|rest: Seq<Choice>|
            #![trigger ops_from(g, s, k, count, rest)]
            script_outcome(input_len, g, s, done_cs + rest) == (
                owed + ops_from(g, s, k, count, rest).0,
                ops_from(g, s, k, count, rest).1,
            ),
        k < count,
        fits(g, 1 + k as int, 1),
        op_step(g, s, g[1 + k as int] % 12, c).1 is None,
    ensures
        ({
            let st = op_step(g, s, g[1 + k as int] % 12, c);
            forall|rest: Seq<Choice>|
                #![trigger ops_from(g, s, k + 1, count, rest)]
                script_outcome(input_len, g, s, done_cs.push(c) + rest) == (
                    (owed + st.0) + ops_from(g, s, k + 1, count, rest).0,
                    ops_from(g, s, k + 1, count, rest).1,
                )
        }),
{
    let st = op_step(g, s, g[1 + k as int] % 12, c);
    assert forall|rest: Seq<Choice>|
        #![trigger ops_from(g, s, k + 1, count, rest)]
        script_outcome(input_len, g, s, done_cs.push(c) + rest) == (
            (owed + st.0) + ops_from(g, s, k + 1, count, rest).0,
            ops_from(g, s, k + 1, count, rest).1,
        ) by {
        let full = seq![c] + rest;
        assert(done_cs.push(c) + rest =~= done_cs + full);
        assert(full.drop_first() =~= rest);
        let tail = ops_from(g, s, k + 1, count, rest);
        assert(ops_from(g, s, k, count, full) == (st.0 + tail.0, tail.1));
        assert(owed + (st.0 + tail.0) =~= (owed + st.0) + tail.0);
    }
}

/// Where operation `k` halts, the run's outcome is what was owed so far and
/// its events, and the halt.
proof fn lemma_run_halts(
    input_len: nat,
    g: Seq<u8>,
    s: Seq<u8>,
    k: nat,
    count: nat,
    done_cs: Seq<Choice>,
    owed: Seq<Expect>,
    c: Choice,
)
    requires
        forall|rest: Seq<Choice>|
            #![trigger ops_from(g, s, k, count, rest)]
            script_outcome(input_len, g, s, done_cs + rest) == (
                owed + ops_from(g, s, k, count, rest).0,
                ops_from(g, s, k, count, rest).1,
            ),
        k < count,
        fits(g, 1 + k as int, 1),
        op_step(g, s, g[1 + k as int] % 12, c).1 is Some,
    ensures
        script_outcome(input_len, g, s, done_cs.push(c)) == (
            owed + op_step(g, s, g[1 + k as int] % 12, c).0,
            op_step(g, s, g[1 + k as int] % 12, c).1,
        ),
{
    let full = seq![c];
    assert(done_cs.push(c) =~= done_cs + full);
    assert(full[0] == c);
    assert(ops_from(g, s, k, count, full) == op_step(g, s, g[1 + k as int] % 12, c));
}

/// The events of a run, and why it stopped early, if it did.
pub struct Run {
    pub events: Vec<Event>,
    pub halt: Option<Halt>,
}

/// Runs the script of an input of `input_len` bytes whose halves are `first`
/// and `second`. What it reports is owed for some outcomes of what the
/// outside crate and the allocator leave open.
pub fn run(input_len: usize, first: &[u8], second: &[u8]) -> (r: Run)
    ensures
        exists|cs: Seq<Choice>|
            #![trigger script_outcome(input_len as nat, first@, second@, cs)]
            events_match(r.events@, script_outcome(input_len as nat, first@, second@, cs).0) && r.halt
                == script_outcome(input_len as nat, first@, second@, cs).1,
{
    let mut events: Vec<Event> = Vec::new();
    let ghost none = Seq::<Choice>::empty();
    let ghost g = first@;
    let ghost s = second@;
    if input_len < 1200 {
        assert(script_outcome(input_len as nat, g, s, none).0 =~= Seq::<Expect>::empty());
        return Run { events, halt: None };
    }
    let count = match read_u8(first, 0) {
        Some(x) => x % 33,
        None => {
            assert(script_outcome(input_len as nat, g, s, none).0 =~= Seq::<Expect>::empty());
            return Run { events, halt: Some(Halt::InputExhausted) };
        },
    };
    let ghost n = count as nat;
    let ghost mut done_cs = Seq::<Choice>::empty();
    let ghost mut owed = Seq::<Expect>::empty();
    let ghost mut gk: nat = 0;
    assert forall|rest: Seq<Choice>|
        #![trigger ops_from(g, s, gk, n, rest)]
        script_outcome(input_len as nat, g, s, done_cs + rest) == (
            owed + ops_from(g, s, gk, n, rest).0,
            ops_from(g, s, gk, n, rest).1,
        ) by {
        assert(done_cs + rest =~= rest);
        assert(owed + ops_from(g, s, gk, n, rest).0 =~= ops_from(g, s, gk, n, rest).0);
    }
    let mut i: usize = 0;
    while i < count as usize
        invariant
            i <= count < 33,
            input_len >= 1200,
            g == first@,
            s == second@,
            fits(g, 0, 1),
            n == count as nat,
            n == count_at(g, 0, 33),
            gk == i as nat,
            none == Seq::<Choice>::empty(),
            events_match(events@, owed),
            forall|rest: Seq<Choice>|
                #![trigger ops_from(g, s, gk, n, rest)]
                script_outcome(input_len as nat, g, s, done_cs + rest) == (
                    owed + ops_from(g, s, gk, n, rest).0,
                    ops_from(g, s, gk, n, rest).1,
                ),
        decreases count as usize - i,
    {
        let op = match read_u8(first, 1 + i) {
            Some(x) => x % 12,
            None => {
                proof {
                    assert(ops_from(g, s, gk, n, none) == halted(Halt::InputExhausted));
                    assert(owed + Seq::<Expect>::empty() =~= owed);
                }
                return Run { events, halt: Some(Halt::InputExhausted) };
            },
        };
        let (evs, halt, Ghost(c)) = run_op(first, second, op);
        let ghost st = op_step(g, s, op, c);
        proof {
            lemma_events_match_append(events@, owed, evs@, st.0);
        }
        let mut evs = evs;
        events.append(&mut evs);
        if halt.is_some() {
            proof {
                lemma_run_halts(input_len as nat, g, s, gk, n, done_cs, owed, c);
            }
            return Run { events, halt };
        }
        proof {
            lemma_run_continues(input_len as nat, g, s, gk, n, done_cs, owed, c);
            done_cs = done_cs.push(c);
            owed = owed + st.0;
            gk = gk + 1;
        }
        i = i + 1;
    }
    proof {
        assert(ops_from(g, s, gk, n, none) == (Seq::<Expect>::empty(), None::<Halt>));
        assert(owed + Seq::<Expect>::empty() =~= owed);
        assert(done_cs + none =~= done_cs);
    }
    Run { events, halt: None }
}

/// Operation 5 reports, when the read range is not empty, the first element
/// drained: the one pushed at position `start`, read at `721 + 8 * start`;
/// then what is left, the pushed elements outside the range in order.
pub proof fn law_drain_reports_the_element_at_the_start(g: Seq<u8>, s: Seq<u8>)
    requires
        fits(g, 705, 8),
        fits(g, 713, 8),
        fits(g, 793, 8),
        usize_at(g, 705) < usize_at(g, 713) <= 10,
    ensures
        ({
            let ds = usize_at(g, 705) as int;
            let de = usize_at(g, 713) as int;
            let o = op_5(g, s);
            &&& o.0[0] == Expect::Item(usize_at(g, 721 + 8 * ds))
            &&& o.0[1] matches Expect::Items(left) && left.len() == 10 - (de - ds) && (forall|k: int|
                0 <= k < ds ==> left[k] == usize_at(g, 721 + 8 * k)) && (forall|k: int|
                ds <= k < left.len() ==> left[k] == usize_at(g, 721 + 8 * (k + de - ds)))
        }),
{
}

/// Operation 9 reports, at an index in range, the element pushed there: the
/// one read at `865 + 8 * index`.
pub proof fn law_index_reports_the_element_pushed_there(g: Seq<u8>)
    requires
        fits(g, 921, 8),
        fits(g, 929, 8),
        usize_at(g, 929) < 8,
    ensures
        op_9(g).1 is None,
        op_9(g).0[0] == Expect::Item(usize_at(g, 865 + 8 * usize_at(g, 929))),
{
}

/// Operation 2 removes and reports, at a read index in range, the element at
/// that index after the insertion: the inserted element (read at 512) at the
/// insertion index, the clone of the element read at 496 elsewhere.
pub proof fn law_removed_element_follows_the_insertion(g: Seq<u8>, s: Seq<u8>)
    requires
        fits(g, 496, 8),
        copy_of(g, s, usize_at(g, 496)) is Ok,
        fits(g, 504, 8),
        fits(g, 512, 8),
        usize_at(g, 504) <= 1,
        fits(g, 520, 8),
        usize_at(g, 520) < 2,
    ensures
        usize_at(g, 520) == usize_at(g, 504) ==> op_2(g, s).0[0] == Expect::Item(usize_at(g, 512)),
        usize_at(g, 520) != usize_at(g, 504) ==> op_2(g, s).0[0] == Expect::Item(copy_of(g, s, usize_at(g, 496))->Ok_0),
{
}

} // verus!

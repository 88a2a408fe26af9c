//! A script whose operations each build a fresh vector of number-carrying
//! elements, of one of nineteen inline sizes.
use vstd::prelude::*;
use crate::hooks::{clone_number, cloned_number};
use crate::script::{fits, read_u8, read_usize, usize_at, Halt};
use crate::small_vec::{
    dedup_seq, exact_growth_overflows, exact_growth_overflows_exec, grown, growth_overflows,
    growth_overflows_exec, lex_order, open_cap, repeat, Order,
};

pub mod n16;
pub mod n24;
pub mod n32;
pub mod n64;
pub mod n128;
pub mod n256;
pub mod n512;
pub mod n1024;
pub mod n96;
pub mod n2048;
pub mod n4096;
pub mod n8192;
pub mod n16384;
pub mod n32768;
pub mod n65536;
pub mod n131072;
pub mod n262144;
pub mod n524288;
pub mod n1048576;

verus! {

/// The numbers of `s` as integers.
pub open spec fn usize_ints(s: Seq<usize>) -> Seq<int> {
    s.map_values(|x: usize| x as int)
}

/// Whether two elements carry the same number: the test by which repeats are
/// removed.
pub fn same_usize(a: &mut usize, b: &mut usize) -> (r: bool)
    ensures
        r == (*old(a) == *old(b)),
        *final(a) == *old(a),
        *final(b) == *old(b),
{
    *a == *b
}

/// Whether `x` is even: the test by which elements are kept.
pub fn is_even_usize(x: usize) -> (r: bool)
    ensures
        r == (x % 2 == 0),
{
    x % 2 == 0
}

/// What the script reports, one value per printed line.
#[derive(Debug, PartialEq, Eq)]
pub enum Event {
    /// A length.
    Len(usize),
    /// A capacity.
    Capacity(usize),
    /// Whether the vector is empty.
    Empty(bool),
    /// Whether the vector spilled to the heap.
    Spilled(bool),
    /// An element, printed as `CustomType1(n)`.
    Item(usize),
    /// The number of an element taken out, printed bare.
    Number(usize),
    /// An address from `as_ptr`.
    Ptr(usize),
    /// An address from `as_mut_ptr`.
    MutPtr(usize),
    /// The order of two vectors.
    Compared(Order),
    /// Whether two vectors are equal.
    Equal(bool),
}

/// What the script is owed to report; an address may be any.
pub enum Expect {
    Len(nat),
    Capacity(nat),
    Empty(bool),
    Spilled(bool),
    Item(usize),
    Number(usize),
    Ptr,
    MutPtr,
    Compared(Order),
    Equal(bool),
}

/// Whether a reported event is the one that was owed.
pub open spec fn event_matches(e: Event, x: Expect) -> bool {
    match e {
        Event::Len(n) => x == Expect::Len(n as nat),
        Event::Capacity(n) => x == Expect::Capacity(n as nat),
        Event::Empty(b) => x == Expect::Empty(b),
        Event::Spilled(b) => x == Expect::Spilled(b),
        Event::Item(n) => x == Expect::Item(n),
        Event::Number(n) => x == Expect::Number(n),
        Event::Ptr(_) => x is Ptr,
        Event::MutPtr(_) => x is MutPtr,
        Event::Compared(o) => x == Expect::Compared(o),
        Event::Equal(b) => x == Expect::Equal(b),
    }
}

/// Whether the reported events are, one for one, those owed.
pub open spec fn events_match(a: Seq<Event>, x: Seq<Expect>) -> bool {
    &&& a.len() == x.len()
    &&& forall|i: int| 0 <= i < a.len() ==> #[trigger] event_matches(a[i], x[i])
}

/// Reported events, followed by more, match what was owed followed by more.
proof fn lemma_events_match_append(a: Seq<Event>, x: Seq<Expect>, b: Seq<Event>, y: Seq<Expect>)
    requires
        events_match(a, x),
        events_match(b, y),
    ensures
        events_match(a + b, x + y),
{
    assert forall|i: int| 0 <= i < (a + b).len() implies #[trigger] event_matches((a + b)[i], (x + y)[i]) by {
        if i < a.len() {
            assert(event_matches(a[i], x[i]));
        } else {
            assert(event_matches(b[i - a.len()], y[i - a.len()]));
        }
    }
}

/// What an operation is owed: its events, and why it halts, if it does.
pub type Outcome = (Seq<Expect>, Option<Halt>);

/// An operation that halts with `h` before reporting anything.
pub open spec fn halted(h: Halt) -> Outcome {
    (Seq::empty(), Some(h))
}

/// An operation that reports `events` and does not halt.
pub open spec fn done(events: Seq<Expect>) -> Outcome {
    (events, None)
}

/// `shown`, then what `rest` owes.
pub open spec fn after(shown: Seq<Expect>, rest: Outcome) -> Outcome {
    (shown + rest.0, rest.1)
}

/// The size in bytes of an element.
pub open spec fn number_size() -> nat {
    vstd::layout::size_of::<usize>()
}

/// The count read as the byte at `at`, modulo `m`.
pub open spec fn count_at(g: Seq<u8>, at: int, m: nat) -> nat {
    (g[at] as nat) % m
}

/// Whether `count` numbers read at `start`, `start + 1`, ... lie inside `g`.
pub open spec fn numbers_fit(g: Seq<u8>, start: int, count: nat) -> bool {
    count == 0 || fits(g, start + count - 1, 8)
}

/// The `count` numbers read at `start`, `start + 1`, ... (overlapping
/// eight-byte reads, one byte apart).
pub open spec fn numbers_at(g: Seq<u8>, start: int, count: nat) -> Seq<usize> {
    Seq::new(count, |k: int| usize_at(g, start + k))
}

/// Where the vector holds items: the one at the index read at `at`, modulo
/// the length. Nothing is read from an empty vector.
pub open spec fn pick(g: Seq<u8>, at: int, items: Seq<usize>) -> Outcome {
    if items.len() == 0 {
        done(Seq::empty())
    } else if !fits(g, at, 8) {
        halted(Halt::InputExhausted)
    } else {
        done(seq![Expect::Item(items[(usize_at(g, at) as nat % items.len()) as int])])
    }
}

/// The index is read at `at` first, whether or not the vector holds items.
pub open spec fn read_then_pick(g: Seq<u8>, at: int, items: Seq<usize>) -> Outcome {
    if !fits(g, at, 8) {
        halted(Halt::InputExhausted)
    } else {
        pick(g, at, items)
    }
}

/// A clone of the element numbered `e` (see `cloned_number`).
pub open spec fn copy_of(first: Seq<u8>, second: Seq<u8>, e: usize) -> Result<usize, Halt> {
    cloned_number(first, second, 10, 18, e as nat)
}

/// The items of `n` copies of element `e` (`from_elem`): `n` clones where they
/// fit inline, else `n - 1` clones followed by `e` itself. Every clone of one
/// element is the same.
pub open spec fn elems(first: Seq<u8>, second: Seq<u8>, e: usize, n: nat, inline: nat) -> Result<Seq<usize>, Halt> {
    if n == 0 {
        Ok(Seq::empty())
    } else {
        match copy_of(first, second, e) {
            Err(h) => Err(h),
            Ok(c) => Ok(if n <= inline { repeat(c, n) } else { repeat(c, (n - 1) as nat).push(e) }),
        }
    }
}

/// Clones of `items`, made in order, stopping at the first that halts.
pub open spec fn cloned_all(first: Seq<u8>, second: Seq<u8>, items: Seq<usize>) -> Result<Seq<usize>, Halt>
    decreases items.len(),
{
    if items.len() == 0 {
        Ok(Seq::empty())
    } else {
        match cloned_all(first, second, items.drop_last()) {
            Err(h) => Err(h),
            Ok(s) => match copy_of(first, second, items.last()) {
                Err(h) => Err(h),
                Ok(c) => Ok(s.push(c)),
            },
        }
    }
}

/// The vector that operation 0 builds by the constructor `choice`, and its
/// capacity, `c` standing for one the outside crate leaves open.
pub open spec fn built_0(g: Seq<u8>, s: Seq<u8>, o: int, choice: nat, items: Seq<usize>, c: nat) -> Result<
    (Seq<usize>, nat),
    Halt,
> {
    let z = number_size();
    if choice == 0 {
        Ok((Seq::empty(), 16))
    } else if choice == 1 {
        if !fits(g, o + 3, 8) {
            Err(Halt::InputExhausted)
        } else {
            let n0 = usize_at(g, o + 3) as nat;
            if exact_growth_overflows(0, 16, n0, z) {
                Err(Halt::CapacityOverflow)
            } else {
                Ok((Seq::empty(), if n0 <= 16 { 16 } else { n0 }))
            }
        }
    } else if choice == 2 {
        Ok((items, open_cap(c, items.len(), 16, z)))
    } else if choice == 3 {
        Ok((items, if items.len() <= 16 { 16 } else { open_cap(c, items.len(), 16, z) }))
    } else if !fits(g, o + 5, 8) || !fits(g, o + 6, 8) {
        Err(Halt::InputExhausted)
    } else {
        let n = usize_at(g, o + 6) as nat % 65;
        match elems(g, s, usize_at(g, o + 5), n, 16) {
            Err(h) => Err(h),
            Ok(v) => Ok((v, if n <= 16 { 16 } else { open_cap(c, n, 16, z) })),
        }
    }
}

/// Operation 0: a `SmallVec<[_; 16]>` made by one of five constructors;
/// report its length, capacity, emptiness and whether it spilled, then an
/// item.
pub open spec fn op_0(g: Seq<u8>, s: Seq<u8>, o: int, c: nat) -> Outcome {
    if !fits(g, o + 1, 1) {
        halted(Halt::InputExhausted)
    } else {
        let n = count_at(g, o + 1, 33);
        if !numbers_fit(g, o + 2, n) || !fits(g, o + 14, 1) {
            halted(Halt::InputExhausted)
        } else {
            match built_0(g, s, o, count_at(g, o + 14, 5), numbers_at(g, o + 2, n), c) {
                Err(h) => halted(h),
                Ok(b) => after(
                    seq![
                        Expect::Len(b.0.len()),
                        Expect::Capacity(b.1),
                        Expect::Empty(b.0.len() == 0),
                        Expect::Spilled(b.1 > 16),
                    ],
                    read_then_pick(g, o + 8, b.0),
                ),
            }
        }
    }
}

/// Operation 1: read items pushed to a `SmallVec<[_; 24]>` of a read
/// capacity; report the length twice, then an item.
pub open spec fn op_1(g: Seq<u8>, o: int) -> Outcome {
    if !fits(g, o + 1, 8) {
        halted(Halt::InputExhausted)
    } else if exact_growth_overflows(0, 24, usize_at(g, o + 1) as nat, number_size()) {
        halted(Halt::CapacityOverflow)
    } else if !fits(g, o + 9, 1) {
        halted(Halt::InputExhausted)
    } else {
        let n = count_at(g, o + 9, 20);
        if !numbers_fit(g, o + 10, n) {
            halted(Halt::InputExhausted)
        } else {
            after(seq![Expect::Len(n), Expect::Len(n)], read_then_pick(g, o + 5, numbers_at(g, o + 10, n)))
        }
    }
}

/// Operation 2: read items taken over from a `Vec` by a `SmallVec<[_; 32]>`
/// of open capacity `c`; reserve a read amount, truncate to a read length,
/// report the capacity, then an item.
pub open spec fn op_2(g: Seq<u8>, o: int, c: nat) -> Outcome {
    let z = number_size();
    if !fits(g, o + 1, 1) {
        halted(Halt::InputExhausted)
    } else {
        let n = count_at(g, o + 1, 40);
        if !numbers_fit(g, o + 2, n) || !fits(g, o + 8, 8) {
            halted(Halt::InputExhausted)
        } else {
            let cap0 = open_cap(c, n, 32, z);
            let r = usize_at(g, o + 8) as nat;
            if growth_overflows(n, cap0, r, z) {
                halted(Halt::CapacityOverflow)
            } else if !fits(g, o + 9, 8) {
                halted(Halt::InputExhausted)
            } else {
                let items = numbers_at(g, o + 2, n);
                let t = usize_at(g, o + 9) as nat % 65;
                let v = if t < n { items.take(t as int) } else { items };
                after(seq![Expect::Capacity(grown(n, cap0, r))], pick(g, o + 12, v))
            }
        }
    }
}

/// Operation 3: copies of a read element in a `SmallVec<[_; 64]>`; insert a
/// read element at a read index that is in range, grow to a read capacity,
/// report the length, then an item.
pub open spec fn op_3(g: Seq<u8>, s: Seq<u8>, o: int) -> Outcome {
    if !fits(g, o + 1, 1) || !fits(g, o + 2, 8) {
        halted(Halt::InputExhausted)
    } else {
        match elems(g, s, usize_at(g, o + 2), count_at(g, o + 1, 50), 64) {
            Err(h) => halted(h),
            Ok(v0) => if !fits(g, o + 10, 8) || !fits(g, o + 11, 8) {
                halted(Halt::InputExhausted)
            } else {
                let at = usize_at(g, o + 10) as nat;
                let v1 = if v0.len() > 0 && at < v0.len() {
                    v0.insert(at as int, usize_at(g, o + 11))
                } else {
                    v0
                };
                if !fits(g, o + 12, 8) {
                    halted(Halt::InputExhausted)
                } else {
                    let gc = usize_at(g, o + 12) as nat;
                    if gc < v1.len() {
                        halted(Halt::OutOfRange)
                    } else if gc > 64 && gc * number_size() > isize::MAX {
                        halted(Halt::CapacityOverflow)
                    } else {
                        after(seq![Expect::Len(v1.len())], pick(g, o + 13, v1))
                    }
                }
            },
        }
    }
}

/// Operation 4: read items pushed to a `SmallVec<[_; 128]>`; shrink when a
/// read byte is even, clear when another is a multiple of three, then an
/// item.
pub open spec fn op_4(g: Seq<u8>, o: int) -> Outcome {
    if !fits(g, o + 1, 1) {
        halted(Halt::InputExhausted)
    } else {
        let n = count_at(g, o + 1, 30);
        if !numbers_fit(g, o + 2, n) || !fits(g, o + 12, 1) || !fits(g, o + 13, 1) {
            halted(Halt::InputExhausted)
        } else {
            pick(g, o + 14, if g[o + 13] % 3 == 0 { Seq::empty() } else { numbers_at(g, o + 2, n) })
        }
    }
}

/// Operation 5: read items pushed to a `SmallVec<[_; 256]>` of a read
/// capacity; remove the one at a read index that is in range and report it,
/// then an item.
pub open spec fn op_5(g: Seq<u8>, o: int) -> Outcome {
    if !fits(g, o + 1, 8) {
        halted(Halt::InputExhausted)
    } else if exact_growth_overflows(0, 256, usize_at(g, o + 1) as nat, number_size()) {
        halted(Halt::CapacityOverflow)
    } else if !fits(g, o + 9, 1) {
        halted(Halt::InputExhausted)
    } else {
        let n = count_at(g, o + 9, 45);
        if !numbers_fit(g, o + 10, n) || !fits(g, o + 2, 8) {
            halted(Halt::InputExhausted)
        } else {
            let items = numbers_at(g, o + 10, n);
            let at = usize_at(g, o + 2) as nat;
            if at < n {
                after(seq![Expect::Number(items[at as int])], pick(g, o + 3, items.remove(at as int)))
            } else {
                pick(g, o + 3, items)
            }
        }
    }
}

/// The rest of operation 6 on items `v`: resize to a read length with
/// clones of a read element, then an item.
pub open spec fn resized_6(g: Seq<u8>, s: Seq<u8>, o: int, v: Seq<usize>) -> Outcome {
    if !fits(g, o + 9, 8) || !fits(g, o + 10, 8) {
        halted(Halt::InputExhausted)
    } else {
        let len = usize_at(g, o + 9) as nat % 65;
        if len > v.len() {
            match copy_of(g, s, usize_at(g, o + 10)) {
                Err(h) => halted(h),
                Ok(c) => pick(g, o + 11, v + repeat(c, (len - v.len()) as nat)),
            }
        } else {
            pick(g, o + 11, v.take(len as int))
        }
    }
}

/// Operation 6: read items taken over from a `Vec` by a
/// `SmallVec<[_; 512]>`; swap-remove the one at a read index that is in
/// range and report it, then resize (see `resized_6`).
pub open spec fn op_6(g: Seq<u8>, s: Seq<u8>, o: int) -> Outcome {
    if !fits(g, o + 1, 1) {
        halted(Halt::InputExhausted)
    } else {
        let n = count_at(g, o + 1, 35);
        if !numbers_fit(g, o + 2, n) || !fits(g, o + 8, 8) {
            halted(Halt::InputExhausted)
        } else {
            let items = numbers_at(g, o + 2, n);
            let at = usize_at(g, o + 8) as nat;
            if at < n {
                after(
                    seq![Expect::Number(items[at as int])],
                    resized_6(g, s, o, items.update(at as int, items.last()).drop_last()),
                )
            } else {
                resized_6(g, s, o, items)
            }
        }
    }
}

/// Operation 7: read items copied into a `SmallVec<[_; 1024]>`; drain the
/// read range clamped to the length and report how many items it held, then
/// an item.
pub open spec fn op_7(g: Seq<u8>, o: int) -> Outcome {
    if !fits(g, o + 1, 1) {
        halted(Halt::InputExhausted)
    } else {
        let n = count_at(g, o + 1, 25);
        if !numbers_fit(g, o + 2, n) || !fits(g, o + 10, 8) || !fits(g, o + 11, 8) {
            halted(Halt::InputExhausted)
        } else if n == 0 {
            done(Seq::empty())
        } else {
            let items = numbers_at(g, o + 2, n);
            let a = usize_at(g, o + 10) as nat;
            let b = usize_at(g, o + 11) as nat;
            let start = if a < n { a } else { n };
            let end0 = if b < n { b } else { n };
            let end = if end0 < start { start } else { end0 };
            after(
                seq![Expect::Len((end - start) as nat)],
                pick(g, o + 12, items.take(start as int) + items.skip(end as int)),
            )
        }
    }
}

/// Operation 8: two `SmallVec<[_; 96]>` of read items; append the second to
/// the first, report both lengths, then an item.
pub open spec fn op_8(g: Seq<u8>, o: int) -> Outcome {
    if !fits(g, o + 1, 1) {
        halted(Halt::InputExhausted)
    } else {
        let a = count_at(g, o + 1, 20);
        if !numbers_fit(g, o + 2, a) || !fits(g, o + 10, 1) {
            halted(Halt::InputExhausted)
        } else {
            let b = count_at(g, o + 10, 15);
            if !numbers_fit(g, o + 11, b) {
                halted(Halt::InputExhausted)
            } else {
                after(
                    seq![Expect::Len(a + b), Expect::Len(0)],
                    pick(g, o + 13, numbers_at(g, o + 2, a) + numbers_at(g, o + 11, b)),
                )
            }
        }
    }
}

/// Operation 9: copies of a read element in a `SmallVec<[_; 2048]>`; insert
/// read items at a read position that is in range, then an item.
pub open spec fn op_9(g: Seq<u8>, s: Seq<u8>, o: int) -> Outcome {
    if !fits(g, o + 1, 8) || !fits(g, o + 9, 1) {
        halted(Halt::InputExhausted)
    } else {
        match elems(g, s, usize_at(g, o + 1), count_at(g, o + 9, 40), 2048) {
            Err(h) => halted(h),
            Ok(v0) => if !fits(g, o + 10, 8) || !fits(g, o + 11, 1) {
                halted(Halt::InputExhausted)
            } else {
                let m = count_at(g, o + 11, 10);
                if !numbers_fit(g, o + 12, m) {
                    halted(Halt::InputExhausted)
                } else {
                    let at = usize_at(g, o + 10) as nat;
                    let v1 = if at <= v0.len() {
                        v0.take(at as int) + numbers_at(g, o + 12, m) + v0.skip(at as int)
                    } else {
                        v0
                    };
                    pick(g, o + 2, v1)
                }
            },
        }
    }
}

/// Operation 10: read items pushed to a `SmallVec<[_; 4096]>`, extended by
/// more; report the length and capacity, then an item.
pub open spec fn op_10(g: Seq<u8>, o: int) -> Outcome {
    if !fits(g, o + 1, 1) {
        halted(Halt::InputExhausted)
    } else {
        let a = count_at(g, o + 1, 30);
        if !numbers_fit(g, o + 2, a) || !fits(g, o + 9, 1) {
            halted(Halt::InputExhausted)
        } else {
            let b = count_at(g, o + 9, 15);
            if !numbers_fit(g, o + 10, b) {
                halted(Halt::InputExhausted)
            } else {
                after(
                    seq![Expect::Len(a + b), Expect::Capacity(4096)],
                    pick(g, o + 12, numbers_at(g, o + 2, a) + numbers_at(g, o + 10, b)),
                )
            }
        }
    }
}

/// Operation 11: read items pushed to a `SmallVec<[_; 8192]>` of a read
/// capacity; reserve exactly a read amount, pop and report the last item,
/// then an item.
pub open spec fn op_11(g: Seq<u8>, o: int) -> Outcome {
    let z = number_size();
    if !fits(g, o + 1, 8) {
        halted(Halt::InputExhausted)
    } else {
        let n0 = usize_at(g, o + 1) as nat;
        if exact_growth_overflows(0, 8192, n0, z) {
            halted(Halt::CapacityOverflow)
        } else if !fits(g, o + 9, 1) {
            halted(Halt::InputExhausted)
        } else {
            let n = count_at(g, o + 9, 25);
            if !numbers_fit(g, o + 10, n) || !fits(g, o + 2, 8) {
                halted(Halt::InputExhausted)
            } else if exact_growth_overflows(n, if n0 <= 8192 { 8192 } else { n0 }, usize_at(g, o + 2) as nat, z) {
                halted(Halt::CapacityOverflow)
            } else {
                let items = numbers_at(g, o + 10, n);
                if n > 0 {
                    after(seq![Expect::Number(items.last())], pick(g, o + 3, items.drop_last()))
                } else {
                    pick(g, o + 3, items)
                }
            }
        }
    }
}

/// The rest of operation 12 on items `v`: resize to a read length, each new
/// item read from the second half, then an item.
pub open spec fn resized_12(g: Seq<u8>, s: Seq<u8>, o: int, v: Seq<usize>) -> Outcome {
    if !fits(g, o + 10, 8) {
        halted(Halt::InputExhausted)
    } else {
        let len = usize_at(g, o + 10) as nat % 65;
        if len > v.len() {
            if !fits(s, o + 11, 8) {
                halted(Halt::InputExhausted)
            } else {
                pick(g, o + 12, v + repeat(usize_at(s, o + 11), (len - v.len()) as nat))
            }
        } else {
            pick(g, o + 12, v.take(len as int))
        }
    }
}

/// Operation 12: read items pushed to a `SmallVec<[_; 16384]>`; clone it and
/// report the clone's length, then resize (see `resized_12`).
pub open spec fn op_12(g: Seq<u8>, s: Seq<u8>, o: int) -> Outcome {
    if !fits(g, o + 1, 1) {
        halted(Halt::InputExhausted)
    } else {
        let n = count_at(g, o + 1, 50);
        if !numbers_fit(g, o + 2, n) {
            halted(Halt::InputExhausted)
        } else {
            let items = numbers_at(g, o + 2, n);
            match cloned_all(g, s, items) {
                Err(h) => halted(h),
                Ok(_) => after(seq![Expect::Len(n)], resized_12(g, s, o, items)),
            }
        }
    }
}

/// Operation 13: read items collected into a `SmallVec<[_; 32768]>`; report
/// its length, that it did not spill, and the length of the `Vec` it turns
/// into.
pub open spec fn op_13(g: Seq<u8>, o: int) -> Outcome {
    if !fits(g, o + 1, 1) {
        halted(Halt::InputExhausted)
    } else {
        let n = count_at(g, o + 1, 35);
        if !numbers_fit(g, o + 2, n) {
            halted(Halt::InputExhausted)
        } else {
            done(seq![Expect::Len(n), Expect::Spilled(false), Expect::Len(n)])
        }
    }
}

/// The numbers of `s`, modulo 5.
pub open spec fn fifths(s: Seq<usize>) -> Seq<usize> {
    s.map_values(|x: usize| x % 5)
}

/// Operation 14: read items modulo 5 pushed to a `SmallVec<[_; 65536]>`;
/// remove repeats, report the length before and after, then an item.
pub open spec fn op_14(g: Seq<u8>, o: int) -> Outcome {
    if !fits(g, o + 1, 1) {
        halted(Halt::InputExhausted)
    } else {
        let n = count_at(g, o + 1, 20);
        if !numbers_fit(g, o + 2, n) {
            halted(Halt::InputExhausted)
        } else {
            let v = dedup_seq(fifths(numbers_at(g, o + 2, n)));
            after(seq![Expect::Len(n), Expect::Len(v.len())], pick(g, o + 10, v))
        }
    }
}

/// The even numbers of `s`, in order.
pub open spec fn evens(s: Seq<usize>) -> Seq<usize> {
    s.filter(|x: usize| x % 2 == 0)
}

/// Operation 15: read items pushed to a `SmallVec<[_; 131072]>`; keep the
/// even ones, report the length before and after, then an item.
pub open spec fn op_15(g: Seq<u8>, o: int) -> Outcome {
    if !fits(g, o + 1, 1) {
        halted(Halt::InputExhausted)
    } else {
        let n = count_at(g, o + 1, 30);
        if !numbers_fit(g, o + 2, n) {
            halted(Halt::InputExhausted)
        } else {
            let v = evens(numbers_at(g, o + 2, n));
            after(seq![Expect::Len(n), Expect::Len(v.len())], pick(g, o + 10, v))
        }
    }
}

/// Operation 16: two `SmallVec<[_; 262144]>` of read items, the second read
/// one byte further on; report their order and equality, then an item of
/// the first.
pub open spec fn op_16(g: Seq<u8>, o: int) -> Outcome {
    if !fits(g, o + 1, 1) {
        halted(Halt::InputExhausted)
    } else {
        let n = count_at(g, o + 1, 15);
        if !numbers_fit(g, o + 3, n) {
            halted(Halt::InputExhausted)
        } else {
            let a = numbers_at(g, o + 2, n);
            let b = numbers_at(g, o + 3, n);
            after(
                seq![Expect::Compared(lex_order(usize_ints(a), usize_ints(b))), Expect::Equal(a == b)],
                pick(g, o + 12, a),
            )
        }
    }
}

/// Operation 17: read items inserted into an empty `SmallVec<[_; 524288]>`
/// at a read position, which is in range only when it is 0; report the
/// length, then an item.
pub open spec fn op_17(g: Seq<u8>, o: int) -> Outcome {
    if !fits(g, o + 1, 1) {
        halted(Halt::InputExhausted)
    } else {
        let n = count_at(g, o + 1, 20);
        if !numbers_fit(g, o + 2, n) || !fits(g, o + 10, 8) {
            halted(Halt::InputExhausted)
        } else {
            let v = if usize_at(g, o + 10) == 0 { numbers_at(g, o + 2, n) } else { Seq::empty() };
            after(seq![Expect::Len(v.len())], pick(g, o + 11, v))
        }
    }
}

/// Operation 18: read items pushed to a `SmallVec<[_; 1048576]>`; report its
/// addresses, then an item.
pub open spec fn op_18(g: Seq<u8>, o: int) -> Outcome {
    if !fits(g, o + 1, 1) {
        halted(Halt::InputExhausted)
    } else {
        let n = count_at(g, o + 1, 25);
        if !numbers_fit(g, o + 2, n) {
            halted(Halt::InputExhausted)
        } else {
            after(seq![Expect::Ptr, Expect::MutPtr], pick(g, o + 10, numbers_at(g, o + 2, n)))
        }
    }
}

/// Operation 19 (and any other number): read items pushed to a
/// `SmallVec<[_; 1024]>`, turned into a boxed slice whose length is
/// reported.
pub open spec fn op_19(g: Seq<u8>, o: int) -> Outcome {
    if !fits(g, o + 1, 1) {
        halted(Halt::InputExhausted)
    } else {
        let n = count_at(g, o + 1, 40);
        if !numbers_fit(g, o + 2, n) {
            halted(Halt::InputExhausted)
        } else {
            done(seq![Expect::Len(n)])
        }
    }
}

/// What operation `op`, at position `i` of the run (arguments from
/// `20 + 15 * i`), is owed, the open capacity of operations 0 and 2 being
/// `c`.
#[verifier::opaque]
pub open spec fn op_step(g: Seq<u8>, s: Seq<u8>, i: nat, op: u8, c: nat) -> Outcome {
    let o = 20 + 15 * i as int;
    if op == 0 {
        op_0(g, s, o, c)
    } else if op == 1 {
        op_1(g, o)
    } else if op == 2 {
        op_2(g, o, c)
    } else if op == 3 {
        op_3(g, s, o)
    } else if op == 4 {
        op_4(g, o)
    } else if op == 5 {
        op_5(g, o)
    } else if op == 6 {
        op_6(g, s, o)
    } else if op == 7 {
        op_7(g, o)
    } else if op == 8 {
        op_8(g, o)
    } else if op == 9 {
        op_9(g, s, o)
    } else if op == 10 {
        op_10(g, o)
    } else if op == 11 {
        op_11(g, o)
    } else if op == 12 {
        op_12(g, s, o)
    } else if op == 13 {
        op_13(g, o)
    } else if op == 14 {
        op_14(g, o)
    } else if op == 15 {
        op_15(g, o)
    } else if op == 16 {
        op_16(g, o)
    } else if op == 17 {
        op_17(g, o)
    } else if op == 18 {
        op_18(g, o)
    } else {
        op_19(g, o)
    }
}

/// What operations `k` up to `count` owe, in turn, stopping at the first
/// that halts; the open capacity of operation `k` is `cs[0]`, of the next
/// `cs[1]`, and so on.
pub open spec fn ops_from(g: Seq<u8>, s: Seq<u8>, k: nat, count: nat, cs: Seq<nat>) -> Outcome
    decreases count - k,
{
    if k >= count {
        (Seq::empty(), None)
    } else if !fits(g, 20 + 15 * k as int, 1) {
        halted(Halt::InputExhausted)
    } else {
        let st = op_step(g, s, k, g[20 + 15 * k as int] % 20, cs[0]);
        if st.1 is Some {
            st
        } else {
            let rest = ops_from(g, s, k + 1, count, cs.drop_first());
            (st.0 + rest.0, rest.1)
        }
    }
}

/// What a whole run is owed, the open capacities being `cs`. Inputs shorter
/// than 1500 bytes are ignored.
pub open spec fn script_outcome(input_len: nat, g: Seq<u8>, s: Seq<u8>, cs: Seq<nat>) -> Outcome {
    if input_len < 1500 {
        (Seq::empty(), None)
    } else if !fits(g, 0, 1) {
        halted(Halt::InputExhausted)
    } else {
        ops_from(g, s, 0, count_at(g, 0, 65), cs)
    }
}

/// `count` numbers read at `start`, `start + 1`, ..., or `None` when a read
/// runs past the end.
fn read_numbers(g: &[u8], start: usize, count: usize) -> (r: Option<Vec<usize>>)
    requires
        start + count + 8 <= usize::MAX,
    ensures
        r is Some <==> numbers_fit(g@, start as int, count as nat),
        r matches Some(v) ==> v@ == numbers_at(g@, start as int, count as nat),
{
    let mut v: Vec<usize> = Vec::new();
    let mut k: usize = 0;
    while k < count
        invariant
            k <= count,
            start + count + 8 <= usize::MAX,
            v@ == numbers_at(g@, start as int, k as nat),
            k > 0 ==> fits(g@, start + k - 1, 8),
        decreases count - k,
    {
        match read_usize(g, start + k) {
            Some(x) => {
                v.push(x);
                k = k + 1;
                assert(v@ =~= numbers_at(g@, start as int, k as nat));
            },
            None => {
                return None;
            },
        }
    }
    Some(v)
}

/// Where `len` items are held, the index read at `at`, modulo `len`; none is
/// read where there are no items.
fn pick_index(g: &[u8], at: usize, len: usize) -> (r: Result<Option<usize>, Halt>)
    ensures
        len == 0 ==> r == Ok::<Option<usize>, Halt>(None),
        len > 0 && !fits(g@, at as int, 8) ==> r == Err::<Option<usize>, Halt>(Halt::InputExhausted),
        len > 0 && fits(g@, at as int, 8) ==> r == Ok::<Option<usize>, Halt>(Some(usize_at(g@, at as int) % len)),
{
    if len == 0 {
        return Ok(None);
    }
    match read_usize(g, at) {
        Some(x) => Ok(Some(x % len)),
        None => Err(Halt::InputExhausted),
    }
}

/// The vector of operation 0 (see `built_0`); where its capacity is left
/// open, the one it got.
fn build_0(g: &[u8], s: &[u8], o: usize, choice: u8, items: Vec<usize>) -> (r: Result<(n16::SmallVecNumbers16, Ghost<nat>), Halt>)
    requires
        o <= 980,
        choice < 5,
    ensures
        match r {
            Ok((v, c)) => v.wf() && built_0(g@, s@, o as int, choice as nat, items@, c@) == Ok::<(Seq<usize>, nat), Halt>(
                (n16::sv_n16_items(v), n16::sv_n16_cap(v)),
            ),
            Err(h) => built_0(g@, s@, o as int, choice as nat, items@, 0) == Err::<(Seq<usize>, nat), Halt>(h),
        },
{
    if choice == 0 {
        let v = n16::small_vec_n16_new();
        Ok((v, Ghost(0)))
    } else if choice == 1 {
        let n0 = match read_usize(g, o + 3) {
            Some(x) => x,
            None => return Err(Halt::InputExhausted),
        };
        if exact_growth_overflows_exec(0, 16, n0, core::mem::size_of::<usize>()) {
            return Err(Halt::CapacityOverflow);
        }
        let v = n16::small_vec_n16_with_capacity(n0);
        Ok((v, Ghost(0)))
    } else if choice == 2 {
        let v = n16::small_vec_n16_from_vec(items);
        Ok((v, Ghost(n16::sv_n16_cap(v))))
    } else if choice == 3 {
        let v = n16::small_vec_n16_from_slice(items.as_slice());
        Ok((v, Ghost(n16::sv_n16_cap(v))))
    } else {
        let e = match read_usize(g, o + 5) {
            Some(x) => x,
            None => return Err(Halt::InputExhausted),
        };
        let n = match read_usize(g, o + 6) {
            Some(x) => x % 65,
            None => return Err(Halt::InputExhausted),
        };
        if n == 0 {
            let v = n16::small_vec_n16_from_elem(e, 0);
            assert(n16::sv_n16_items(v) =~= Seq::<usize>::empty());
            return Ok((v, Ghost(0)));
        }
        let copy = match clone_number(g, s, 10, 18, e) {
            Ok(x) => x,
            Err(h) => return Err(h),
        };
        if n <= 16 {
            let v = n16::small_vec_n16_from_elem(copy, n);
            Ok((v, Ghost(0)))
        } else {
            let mut made: Vec<usize> = Vec::new();
            let mut i: usize = 1;
            while i < n
                invariant
                    1 <= i <= n <= 64,
                    made@ == repeat(copy, (i - 1) as nat),
                decreases n - i,
            {
                made.push(copy);
                i = i + 1;
                assert(made@ =~= repeat(copy, (i - 1) as nat));
            }
            made.push(e);
            let v = n16::small_vec_n16_from_vec(made);
            Ok((v, Ghost(n16::sv_n16_cap(v))))
        }
    }
}

/// Operation 0 (see `op_0`); the capacity that the constructor left open is
/// the choice.
#[verifier::loop_isolation(false)]
#[inline(never)]
fn run_op_0(g: &[u8], s: &[u8], o: usize) -> (r: (Vec<Event>, Option<Halt>, Ghost<nat>))
    requires
        o <= 980,
    ensures
        events_match(r.0@, op_0(g@, s@, o as int, r.2@).0),
        r.1 == op_0(g@, s@, o as int, r.2@).1,
{
    let none = Ghost(0nat);
    let n = match read_u8(g, o + 1) {
        Some(x) => x % 33,
        None => return (Vec::new(), Some(Halt::InputExhausted), none),
    };
    let items = match read_numbers(g, o + 2, n as usize) {
        Some(v) => v,
        None => return (Vec::new(), Some(Halt::InputExhausted), none),
    };
    let choice = match read_u8(g, o + 14) {
        Some(x) => x % 5,
        None => return (Vec::new(), Some(Halt::InputExhausted), none),
    };
    let (mut v, Ghost(c)) = match build_0(g, s, o, choice, items) {
        Ok(x) => x,
        Err(h) => return (Vec::new(), Some(h), none),
    };
    let mut events: Vec<Event> = Vec::new();
    let len = n16::small_vec_n16_len(&v);
    events.push(Event::Len(len));
    events.push(Event::Capacity(n16::small_vec_n16_capacity(&v)));
    events.push(Event::Empty(n16::small_vec_n16_is_empty(&v)));
    events.push(Event::Spilled(n16::small_vec_n16_spilled(&v)));
    let x = match read_usize(g, o + 8) {
        Some(x) => x,
        None => {
            proof {
                let e = op_0(g@, s@, o as int, c).0;
                assert(forall|i: int| 0 <= i < events@.len() ==> #[trigger] event_matches(events@[i], e[i]));
            }
            return (events, Some(Halt::InputExhausted), Ghost(c));
        },
    };
    if len > 0 {
        events.push(Event::Item(n16::small_vec_n16_index_mut(&mut v, x % len)));
    }
    proof {
        let e = op_0(g@, s@, o as int, c).0;
        assert(forall|i: int| 0 <= i < events@.len() ==> #[trigger] event_matches(events@[i], e[i]));
    }
    (events, None, Ghost(c))
}

/// Operation 1 (see `op_1`).
#[verifier::loop_isolation(false)]
#[inline(never)]
fn run_op_1(g: &[u8], o: usize) -> (r: (Vec<Event>, Option<Halt>))
    requires
        o <= 980,
    ensures
        events_match(r.0@, op_1(g@, o as int).0),
        r.1 == op_1(g@, o as int).1,
{
    let n0 = match read_usize(g, o + 1) {
        Some(x) => x,
        None => return (Vec::new(), Some(Halt::InputExhausted)),
    };
    if exact_growth_overflows_exec(0, 24, n0, core::mem::size_of::<usize>()) {
        return (Vec::new(), Some(Halt::CapacityOverflow));
    }
    let mut v = n24::small_vec_n24_with_capacity(n0);
    let n = match read_u8(g, o + 9) {
        Some(x) => x % 20,
        None => return (Vec::new(), Some(Halt::InputExhausted)),
    };
    let items = match read_numbers(g, o + 10, n as usize) {
        Some(w) => w,
        None => return (Vec::new(), Some(Halt::InputExhausted)),
    };
    let ghost cap0 = n24::sv_n24_cap(v);
    let mut j: usize = 0;
    while j < items.len()
        invariant
            j <= items@.len() <= 19,
            cap0 >= 24,
            v.wf(),
            n24::sv_n24_items(v) == items@.take(j as int),
            n24::sv_n24_cap(v) == cap0,
        decreases items.len() - j,
    {
        n24::small_vec_n24_push(&mut v, items[j]);
        j = j + 1;
        assert(n24::sv_n24_items(v) =~= items@.take(j as int));
    }
    assert(items@.take(items@.len() as int) =~= items@);
    let mut events: Vec<Event> = Vec::new();
    events.push(Event::Len(n24::small_vec_n24_as_slice(&v).len()));
    let whole = n24::small_vec_n24_as_mut_slice(&mut v);
    events.push(Event::Len(whole.len()));
    let x = match read_usize(g, o + 5) {
        Some(x) => x,
        None => {
            proof {
                let e = op_1(g@, o as int).0;
                assert(forall|i: int| 0 <= i < events@.len() ==> #[trigger] event_matches(events@[i], e[i]));
            }
            return (events, Some(Halt::InputExhausted));
        },
    };
    let len = n24::small_vec_n24_len(&v);
    if len > 0 {
        events.push(Event::Item(n24::small_vec_n24_index_mut(&mut v, x % len)));
    }
    proof {
        let e = op_1(g@, o as int).0;
        assert(forall|i: int| 0 <= i < events@.len() ==> #[trigger] event_matches(events@[i], e[i]));
    }
    (events, None)
}

/// Operation 2 (see `op_2`); the capacity the vector took over is the
/// choice.
#[verifier::loop_isolation(false)]
#[inline(never)]
fn run_op_2(g: &[u8], o: usize) -> (r: (Vec<Event>, Option<Halt>, Ghost<nat>))
    requires
        o <= 980,
    ensures
        events_match(r.0@, op_2(g@, o as int, r.2@).0),
        r.1 == op_2(g@, o as int, r.2@).1,
{
    let none = Ghost(0nat);
    let n = match read_u8(g, o + 1) {
        Some(x) => x % 40,
        None => return (Vec::new(), Some(Halt::InputExhausted), none),
    };
    let items = match read_numbers(g, o + 2, n as usize) {
        Some(w) => w,
        None => return (Vec::new(), Some(Halt::InputExhausted), none),
    };
    let mut v = n32::small_vec_n32_from_vec(items);
    let ghost c = n32::sv_n32_cap(v);
    let r = match read_usize(g, o + 8) {
        Some(x) => x,
        None => return (Vec::new(), Some(Halt::InputExhausted), Ghost(c)),
    };
    let len = n32::small_vec_n32_len(&v);
    let cap = n32::small_vec_n32_capacity(&v);
    if growth_overflows_exec(len, cap, r, core::mem::size_of::<usize>()) {
        return (Vec::new(), Some(Halt::CapacityOverflow), Ghost(c));
    }
    n32::small_vec_n32_reserve(&mut v, r);
    let t = match read_usize(g, o + 9) {
        Some(x) => x % 65,
        None => return (Vec::new(), Some(Halt::InputExhausted), Ghost(c)),
    };
    n32::small_vec_n32_truncate(&mut v, t);
    let mut events: Vec<Event> = Vec::new();
    events.push(Event::Capacity(n32::small_vec_n32_capacity(&v)));
    match pick_index(g, o + 12, n32::small_vec_n32_len(&v)) {
        Err(h) => {
            proof {
                let e = op_2(g@, o as int, c).0;
                assert(forall|i: int| 0 <= i < events@.len() ==> #[trigger] event_matches(events@[i], e[i]));
            }
            return (events, Some(h), Ghost(c));
        },
        Ok(Some(k)) => events.push(Event::Item(n32::small_vec_n32_index_mut(&mut v, k))),
        Ok(None) => {},
    }
    proof {
        let e = op_2(g@, o as int, c).0;
        assert(forall|i: int| 0 <= i < events@.len() ==> #[trigger] event_matches(events@[i], e[i]));
    }
    (events, None, Ghost(c))
}

/// The items of `n` copies of element `e` where they fit in `inline` (see
/// `elems`), as a vector.
pub(crate) fn copies(g: &[u8], s: &[u8], e: usize, n: usize, inline: Ghost<nat>) -> (r: Result<Vec<usize>, Halt>)
    requires
        n <= inline@,
    ensures
        match r {
            Ok(v) => elems(g@, s@, e, n as nat, inline@) == Ok::<Seq<usize>, Halt>(v@),
            Err(h) => elems(g@, s@, e, n as nat, inline@) == Err::<Seq<usize>, Halt>(h),
        },
{
    let mut made: Vec<usize> = Vec::new();
    if n == 0 {
        assert(made@ =~= Seq::<usize>::empty());
        return Ok(made);
    }
    let copy = match clone_number(g, s, 10, 18, e) {
        Ok(x) => x,
        Err(h) => return Err(h),
    };
    let mut i: usize = 0;
    while i < n
        invariant
            i <= n,
            made@ == repeat(copy, i as nat),
        decreases n - i,
    {
        made.push(copy);
        i = i + 1;
        assert(made@ =~= repeat(copy, i as nat));
    }
    Ok(made)
}

/// Operation 3 (see `op_3`).
#[verifier::loop_isolation(false)]
#[inline(never)]
fn run_op_3(g: &[u8], s: &[u8], o: usize) -> (r: (Vec<Event>, Option<Halt>))
    requires
        o <= 980,
    ensures
        events_match(r.0@, op_3(g@, s@, o as int).0),
        r.1 == op_3(g@, s@, o as int).1,
{
    let n = match read_u8(g, o + 1) {
        Some(x) => x % 50,
        None => return (Vec::new(), Some(Halt::InputExhausted)),
    };
    let e = match read_usize(g, o + 2) {
        Some(x) => x,
        None => return (Vec::new(), Some(Halt::InputExhausted)),
    };
    let made = match copies(g, s, e, n as usize, Ghost(64)) {
        Ok(w) => w,
        Err(h) => return (Vec::new(), Some(h)),
    };
    let copy = if made.len() > 0 { made[0] } else { e };
    assert(made.len() > 0 ==> made@ == repeat(copy, made.len() as nat));
    let mut v = n64::small_vec_n64_from_elem(copy, made.len());
    assert(n64::sv_n64_items(v) =~= made@);
    let at = match read_usize(g, o + 10) {
        Some(x) => x,
        None => return (Vec::new(), Some(Halt::InputExhausted)),
    };
    let value = match read_usize(g, o + 11) {
        Some(x) => x,
        None => return (Vec::new(), Some(Halt::InputExhausted)),
    };
    let len = n64::small_vec_n64_len(&v);
    if len > 0 && at < len {
        n64::small_vec_n64_insert(&mut v, at, value);
    }
    let gc = match read_usize(g, o + 12) {
        Some(x) => x,
        None => return (Vec::new(), Some(Halt::InputExhausted)),
    };
    if gc < n64::small_vec_n64_len(&v) {
        return (Vec::new(), Some(Halt::OutOfRange));
    }
    let z = core::mem::size_of::<usize>();
    proof {
        broadcast use vstd::layout::layout_of_primitives;
    }
    let lim = (isize::MAX as usize) / z;
    assert((gc > lim) == (gc * z > isize::MAX)) by (nonlinear_arith)
        requires
            z > 0,
            lim == isize::MAX as int / z as int,
    ;
    if gc > 64 && gc > lim {
        return (Vec::new(), Some(Halt::CapacityOverflow));
    }
    n64::small_vec_n64_grow(&mut v, gc);
    let mut events: Vec<Event> = Vec::new();
    events.push(Event::Len(n64::small_vec_n64_len(&v)));
    match pick_index(g, o + 13, n64::small_vec_n64_len(&v)) {
        Err(h) => {
            proof {
                let x = op_3(g@, s@, o as int).0;
                assert(forall|i: int| 0 <= i < events@.len() ==> #[trigger] event_matches(events@[i], x[i]));
            }
            return (events, Some(h));
        },
        Ok(Some(k)) => events.push(Event::Item(n64::small_vec_n64_index_mut(&mut v, k))),
        Ok(None) => {},
    }
    proof {
        let x = op_3(g@, s@, o as int).0;
        assert(forall|i: int| 0 <= i < events@.len() ==> #[trigger] event_matches(events@[i], x[i]));
    }
    (events, None)
}

/// Operation 4 (see `op_4`).
#[verifier::loop_isolation(false)]
#[inline(never)]
fn run_op_4(g: &[u8], o: usize) -> (r: (Vec<Event>, Option<Halt>))
    requires
        o <= 980,
    ensures
        events_match(r.0@, op_4(g@, o as int).0),
        r.1 == op_4(g@, o as int).1,
{
    let mut v = n128::small_vec_n128_new();
    let n = match read_u8(g, o + 1) {
        Some(x) => x % 30,
        None => return (Vec::new(), Some(Halt::InputExhausted)),
    };
    let items = match read_numbers(g, o + 2, n as usize) {
        Some(w) => w,
        None => return (Vec::new(), Some(Halt::InputExhausted)),
    };
    let ghost cap0 = n128::sv_n128_cap(v);
    let mut j: usize = 0;
    while j < items.len()
        invariant
            j <= items@.len() <= 29,
            cap0 >= 128,
            v.wf(),
            n128::sv_n128_items(v) == items@.take(j as int),
            n128::sv_n128_cap(v) == cap0,
        decreases items.len() - j,
    {
        n128::small_vec_n128_push(&mut v, items[j]);
        j = j + 1;
        assert(n128::sv_n128_items(v) =~= items@.take(j as int));
    }
    assert(items@.take(items@.len() as int) =~= items@);
    let shrink = match read_u8(g, o + 12) {
        Some(x) => x,
        None => return (Vec::new(), Some(Halt::InputExhausted)),
    };
    if shrink % 2 == 0 {
        n128::small_vec_n128_shrink_to_fit(&mut v);
    }
    let clear = match read_u8(g, o + 13) {
        Some(x) => x,
        None => return (Vec::new(), Some(Halt::InputExhausted)),
    };
    if clear % 3 == 0 {
        n128::small_vec_n128_clear(&mut v);
    }
    let mut events: Vec<Event> = Vec::new();
    match pick_index(g, o + 14, n128::small_vec_n128_len(&v)) {
        Err(h) => return (events, Some(h)),
        Ok(Some(k)) => events.push(Event::Item(n128::small_vec_n128_index_mut(&mut v, k))),
        Ok(None) => {},
    }
    proof {
        let x = op_4(g@, o as int).0;
        assert(forall|i: int| 0 <= i < events@.len() ==> #[trigger] event_matches(events@[i], x[i]));
    }
    (events, None)
}

/// Operation 5 (see `op_5`).
#[verifier::loop_isolation(false)]
#[inline(never)]
fn run_op_5(g: &[u8], o: usize) -> (r: (Vec<Event>, Option<Halt>))
    requires
        o <= 980,
    ensures
        events_match(r.0@, op_5(g@, o as int).0),
        r.1 == op_5(g@, o as int).1,
{
    let n0 = match read_usize(g, o + 1) {
        Some(x) => x,
        None => return (Vec::new(), Some(Halt::InputExhausted)),
    };
    if exact_growth_overflows_exec(0, 256, n0, core::mem::size_of::<usize>()) {
        return (Vec::new(), Some(Halt::CapacityOverflow));
    }
    let mut v = n256::small_vec_n256_with_capacity(n0);
    let n = match read_u8(g, o + 9) {
        Some(x) => x % 45,
        None => return (Vec::new(), Some(Halt::InputExhausted)),
    };
    let items = match read_numbers(g, o + 10, n as usize) {
        Some(w) => w,
        None => return (Vec::new(), Some(Halt::InputExhausted)),
    };
    let ghost cap0 = n256::sv_n256_cap(v);
    let mut j: usize = 0;
    while j < items.len()
        invariant
            j <= items@.len() <= 44,
            cap0 >= 256,
            v.wf(),
            n256::sv_n256_items(v) == items@.take(j as int),
            n256::sv_n256_cap(v) == cap0,
        decreases items.len() - j,
    {
        n256::small_vec_n256_push(&mut v, items[j]);
        j = j + 1;
        assert(n256::sv_n256_items(v) =~= items@.take(j as int));
    }
    assert(items@.take(items@.len() as int) =~= items@);
    let at = match read_usize(g, o + 2) {
        Some(x) => x,
        None => return (Vec::new(), Some(Halt::InputExhausted)),
    };
    let mut events: Vec<Event> = Vec::new();
    let len = n256::small_vec_n256_len(&v);
    if len > 0 && at < len {
        events.push(Event::Number(n256::small_vec_n256_remove(&mut v, at)));
    }
    match pick_index(g, o + 3, n256::small_vec_n256_len(&v)) {
        Err(h) => {
            proof {
                let x = op_5(g@, o as int).0;
                assert(forall|i: int| 0 <= i < events@.len() ==> #[trigger] event_matches(events@[i], x[i]));
            }
            return (events, Some(h));
        },
        Ok(Some(k)) => events.push(Event::Item(n256::small_vec_n256_index_mut(&mut v, k))),
        Ok(None) => {},
    }
    proof {
        let x = op_5(g@, o as int).0;
        assert(forall|i: int| 0 <= i < events@.len() ==> #[trigger] event_matches(events@[i], x[i]));
    }
    (events, None)
}

/// Operation 6 (see `op_6`).
#[verifier::loop_isolation(false)]
#[inline(never)]
fn run_op_6(g: &[u8], s: &[u8], o: usize) -> (r: (Vec<Event>, Option<Halt>))
    requires
        o <= 980,
    ensures
        events_match(r.0@, op_6(g@, s@, o as int).0),
        r.1 == op_6(g@, s@, o as int).1,
{
    let n = match read_u8(g, o + 1) {
        Some(x) => x % 35,
        None => return (Vec::new(), Some(Halt::InputExhausted)),
    };
    let items = match read_numbers(g, o + 2, n as usize) {
        Some(w) => w,
        None => return (Vec::new(), Some(Halt::InputExhausted)),
    };
    let mut v = n512::small_vec_n512_from_vec(items);
    let at = match read_usize(g, o + 8) {
        Some(x) => x,
        None => return (Vec::new(), Some(Halt::InputExhausted)),
    };
    let mut events: Vec<Event> = Vec::new();
    let len = n512::small_vec_n512_len(&v);
    if len > 0 && at < len {
        events.push(Event::Number(n512::small_vec_n512_swap_remove(&mut v, at)));
    }
    let ghost shown = events@;
    let ghost v1 = n512::sv_n512_items(v);
    let new_len = match read_usize(g, o + 9) {
        Some(x) => x % 65,
        None => return (events, Some(Halt::InputExhausted)),
    };
    let value = match read_usize(g, o + 10) {
        Some(x) => x,
        None => return (events, Some(Halt::InputExhausted)),
    };
    let len = n512::small_vec_n512_len(&v);
    if new_len > len {
        let copy = match clone_number(g, s, 10, 18, value) {
            Ok(x) => x,
            Err(h) => return (events, Some(h)),
        };
        n512::small_vec_n512_resize(&mut v, new_len, copy);
    } else {
        n512::small_vec_n512_resize(&mut v, new_len, value);
    }
    match pick_index(g, o + 11, n512::small_vec_n512_len(&v)) {
        Err(h) => {
            proof {
                let x = op_6(g@, s@, o as int).0;
                assert(forall|i: int| 0 <= i < events@.len() ==> #[trigger] event_matches(events@[i], x[i]));
            }
            return (events, Some(h));
        },
        Ok(Some(k)) => events.push(Event::Item(n512::small_vec_n512_index_mut(&mut v, k))),
        Ok(None) => {},
    }
    proof {
        let x = op_6(g@, s@, o as int).0;
        assert(forall|i: int| 0 <= i < events@.len() ==> #[trigger] event_matches(events@[i], x[i]));
    }
    (events, None)
}

/// Operation 7 (see `op_7`).
#[verifier::loop_isolation(false)]
#[inline(never)]
fn run_op_7(g: &[u8], o: usize) -> (r: (Vec<Event>, Option<Halt>))
    requires
        o <= 980,
    ensures
        events_match(r.0@, op_7(g@, o as int).0),
        r.1 == op_7(g@, o as int).1,
{
    let n = match read_u8(g, o + 1) {
        Some(x) => x % 25,
        None => return (Vec::new(), Some(Halt::InputExhausted)),
    };
    let items = match read_numbers(g, o + 2, n as usize) {
        Some(w) => w,
        None => return (Vec::new(), Some(Halt::InputExhausted)),
    };
    let mut v = n1024::small_vec_n1024_from_slice(items.as_slice());
    let a = match read_usize(g, o + 10) {
        Some(x) => x,
        None => return (Vec::new(), Some(Halt::InputExhausted)),
    };
    let b = match read_usize(g, o + 11) {
        Some(x) => x,
        None => return (Vec::new(), Some(Halt::InputExhausted)),
    };
    let mut events: Vec<Event> = Vec::new();
    let len = n1024::small_vec_n1024_len(&v);
    if len > 0 {
        let start = if a < len { a } else { len };
        let end0 = if b < len { b } else { len };
        let end = if end0 < start { start } else { end0 };
        let drained = n1024::small_vec_n1024_drain(&mut v, start, end);
        events.push(Event::Len(drained.len()));
    }
    match pick_index(g, o + 12, n1024::small_vec_n1024_len(&v)) {
        Err(h) => {
            proof {
                let x = op_7(g@, o as int).0;
                assert(forall|i: int| 0 <= i < events@.len() ==> #[trigger] event_matches(events@[i], x[i]));
            }
            return (events, Some(h));
        },
        Ok(Some(k)) => events.push(Event::Item(n1024::small_vec_n1024_index_mut(&mut v, k))),
        Ok(None) => {},
    }
    proof {
        let x = op_7(g@, o as int).0;
        assert(forall|i: int| 0 <= i < events@.len() ==> #[trigger] event_matches(events@[i], x[i]));
    }
    (events, None)
}

/// Operation 8 (see `op_8`).
#[verifier::loop_isolation(false)]
#[inline(never)]
fn run_op_8(g: &[u8], o: usize) -> (r: (Vec<Event>, Option<Halt>))
    requires
        o <= 980,
    ensures
        events_match(r.0@, op_8(g@, o as int).0),
        r.1 == op_8(g@, o as int).1,
{
    let mut v = n96::small_vec_n96_new();
    let a = match read_u8(g, o + 1) {
        Some(x) => x % 20,
        None => return (Vec::new(), Some(Halt::InputExhausted)),
    };
    let items = match read_numbers(g, o + 2, a as usize) {
        Some(w) => w,
        None => return (Vec::new(), Some(Halt::InputExhausted)),
    };
    let ghost cap0 = n96::sv_n96_cap(v);
    let mut j: usize = 0;
    while j < items.len()
        invariant
            j <= items@.len() <= 19,
            cap0 >= 96,
            v.wf(),
            n96::sv_n96_items(v) == items@.take(j as int),
            n96::sv_n96_cap(v) == cap0,
        decreases items.len() - j,
    {
        n96::small_vec_n96_push(&mut v, items[j]);
        j = j + 1;
        assert(n96::sv_n96_items(v) =~= items@.take(j as int));
    }
    assert(items@.take(items@.len() as int) =~= items@);
    let mut w = n96::small_vec_n96_new();
    let b = match read_u8(g, o + 10) {
        Some(x) => x % 15,
        None => return (Vec::new(), Some(Halt::InputExhausted)),
    };
    let more = match read_numbers(g, o + 11, b as usize) {
        Some(w) => w,
        None => return (Vec::new(), Some(Halt::InputExhausted)),
    };
    let ghost cap0 = n96::sv_n96_cap(w);
    let mut j: usize = 0;
    while j < more.len()
        invariant
            j <= more@.len() <= 14,
            cap0 >= 96,
            w.wf(),
            n96::sv_n96_items(w) == more@.take(j as int),
            n96::sv_n96_cap(w) == cap0,
        decreases more.len() - j,
    {
        n96::small_vec_n96_push(&mut w, more[j]);
        j = j + 1;
        assert(n96::sv_n96_items(w) =~= more@.take(j as int));
    }
    assert(more@.take(more@.len() as int) =~= more@);
    n96::small_vec_n96_append(&mut v, &mut w);
    let mut events: Vec<Event> = Vec::new();
    events.push(Event::Len(n96::small_vec_n96_len(&v)));
    events.push(Event::Len(n96::small_vec_n96_len(&w)));
    match pick_index(g, o + 13, n96::small_vec_n96_len(&v)) {
        Err(h) => {
            proof {
                let x = op_8(g@, o as int).0;
                assert(forall|i: int| 0 <= i < events@.len() ==> #[trigger] event_matches(events@[i], x[i]));
            }
            return (events, Some(h));
        },
        Ok(Some(k)) => events.push(Event::Item(n96::small_vec_n96_index_mut(&mut v, k))),
        Ok(None) => {},
    }
    proof {
        let x = op_8(g@, o as int).0;
        assert(forall|i: int| 0 <= i < events@.len() ==> #[trigger] event_matches(events@[i], x[i]));
    }
    (events, None)
}

/// Operation 9 (see `op_9`).
#[verifier::loop_isolation(false)]
#[inline(never)]
fn run_op_9(g: &[u8], s: &[u8], o: usize) -> (r: (Vec<Event>, Option<Halt>))
    requires
        o <= 980,
    ensures
        events_match(r.0@, op_9(g@, s@, o as int).0),
        r.1 == op_9(g@, s@, o as int).1,
{
    let e = match read_usize(g, o + 1) {
        Some(x) => x,
        None => return (Vec::new(), Some(Halt::InputExhausted)),
    };
    let n = match read_u8(g, o + 9) {
        Some(x) => x % 40,
        None => return (Vec::new(), Some(Halt::InputExhausted)),
    };
    let made = match copies(g, s, e, n as usize, Ghost(2048)) {
        Ok(w) => w,
        Err(h) => return (Vec::new(), Some(h)),
    };
    let copy = if made.len() > 0 { made[0] } else { e };
    assert(made.len() > 0 ==> made@ == repeat(copy, made.len() as nat));
    let mut v = n2048::small_vec_n2048_from_elem(copy, made.len());
    assert(n2048::sv_n2048_items(v) =~= made@);
    let at = match read_usize(g, o + 10) {
        Some(x) => x,
        None => return (Vec::new(), Some(Halt::InputExhausted)),
    };
    let m = match read_u8(g, o + 11) {
        Some(x) => x % 10,
        None => return (Vec::new(), Some(Halt::InputExhausted)),
    };
    let data = match read_numbers(g, o + 12, m as usize) {
        Some(w) => w,
        None => return (Vec::new(), Some(Halt::InputExhausted)),
    };
    if at <= n2048::small_vec_n2048_len(&v) {
        n2048::small_vec_n2048_insert_from_slice(&mut v, at, data.as_slice());
    }
    let mut events: Vec<Event> = Vec::new();
    match pick_index(g, o + 2, n2048::small_vec_n2048_len(&v)) {
        Err(h) => return (events, Some(h)),
        Ok(Some(k)) => events.push(Event::Item(n2048::small_vec_n2048_index_mut(&mut v, k))),
        Ok(None) => {},
    }
    proof {
        let x = op_9(g@, s@, o as int).0;
        assert(forall|i: int| 0 <= i < events@.len() ==> #[trigger] event_matches(events@[i], x[i]));
    }
    (events, None)
}

/// Operation 10 (see `op_10`).
#[verifier::loop_isolation(false)]
#[inline(never)]
fn run_op_10(g: &[u8], o: usize) -> (r: (Vec<Event>, Option<Halt>))
    requires
        o <= 980,
    ensures
        events_match(r.0@, op_10(g@, o as int).0),
        r.1 == op_10(g@, o as int).1,
{
    let a = match read_u8(g, o + 1) {
        Some(x) => x % 30,
        None => return (Vec::new(), Some(Halt::InputExhausted)),
    };
    let mut v = n4096::small_vec_n4096_new();
    let items = match read_numbers(g, o + 2, a as usize) {
        Some(w) => w,
        None => return (Vec::new(), Some(Halt::InputExhausted)),
    };
    let ghost cap0 = n4096::sv_n4096_cap(v);
    let mut j: usize = 0;
    while j < items.len()
        invariant
            j <= items@.len() <= 29,
            cap0 >= 4096,
            v.wf(),
            n4096::sv_n4096_items(v) == items@.take(j as int),
            n4096::sv_n4096_cap(v) == cap0,
        decreases items.len() - j,
    {
        n4096::small_vec_n4096_push(&mut v, items[j]);
        j = j + 1;
        assert(n4096::sv_n4096_items(v) =~= items@.take(j as int));
    }
    assert(items@.take(items@.len() as int) =~= items@);
    let b = match read_u8(g, o + 9) {
        Some(x) => x % 15,
        None => return (Vec::new(), Some(Halt::InputExhausted)),
    };
    let more = match read_numbers(g, o + 10, b as usize) {
        Some(w) => w,
        None => return (Vec::new(), Some(Halt::InputExhausted)),
    };
    n4096::small_vec_n4096_extend_from_slice(&mut v, more.as_slice());
    let mut events: Vec<Event> = Vec::new();
    events.push(Event::Len(n4096::small_vec_n4096_len(&v)));
    events.push(Event::Capacity(n4096::small_vec_n4096_capacity(&v)));
    match pick_index(g, o + 12, n4096::small_vec_n4096_len(&v)) {
        Err(h) => {
            proof {
                let x = op_10(g@, o as int).0;
                assert(forall|i: int| 0 <= i < events@.len() ==> #[trigger] event_matches(events@[i], x[i]));
            }
            return (events, Some(h));
        },
        Ok(Some(k)) => events.push(Event::Item(n4096::small_vec_n4096_index_mut(&mut v, k))),
        Ok(None) => {},
    }
    proof {
        let x = op_10(g@, o as int).0;
        assert(forall|i: int| 0 <= i < events@.len() ==> #[trigger] event_matches(events@[i], x[i]));
    }
    (events, None)
}

/// Operation 11 (see `op_11`).
#[verifier::loop_isolation(false)]
#[inline(never)]
fn run_op_11(g: &[u8], o: usize) -> (r: (Vec<Event>, Option<Halt>))
    requires
        o <= 980,
    ensures
        events_match(r.0@, op_11(g@, o as int).0),
        r.1 == op_11(g@, o as int).1,
{
    let n0 = match read_usize(g, o + 1) {
        Some(x) => x,
        None => return (Vec::new(), Some(Halt::InputExhausted)),
    };
    if exact_growth_overflows_exec(0, 8192, n0, core::mem::size_of::<usize>()) {
        return (Vec::new(), Some(Halt::CapacityOverflow));
    }
    let mut v = n8192::small_vec_n8192_with_capacity(n0);
    let n = match read_u8(g, o + 9) {
        Some(x) => x % 25,
        None => return (Vec::new(), Some(Halt::InputExhausted)),
    };
    let items = match read_numbers(g, o + 10, n as usize) {
        Some(w) => w,
        None => return (Vec::new(), Some(Halt::InputExhausted)),
    };
    let ghost cap0 = n8192::sv_n8192_cap(v);
    let mut j: usize = 0;
    while j < items.len()
        invariant
            j <= items@.len() <= 24,
            cap0 >= 8192,
            v.wf(),
            n8192::sv_n8192_items(v) == items@.take(j as int),
            n8192::sv_n8192_cap(v) == cap0,
        decreases items.len() - j,
    {
        n8192::small_vec_n8192_push(&mut v, items[j]);
        j = j + 1;
        assert(n8192::sv_n8192_items(v) =~= items@.take(j as int));
    }
    assert(items@.take(items@.len() as int) =~= items@);
    let r = match read_usize(g, o + 2) {
        Some(x) => x,
        None => return (Vec::new(), Some(Halt::InputExhausted)),
    };
    let len = n8192::small_vec_n8192_len(&v);
    let cap = n8192::small_vec_n8192_capacity(&v);
    if exact_growth_overflows_exec(len, cap, r, core::mem::size_of::<usize>()) {
        return (Vec::new(), Some(Halt::CapacityOverflow));
    }
    n8192::small_vec_n8192_reserve_exact(&mut v, r);
    let mut events: Vec<Event> = Vec::new();
    if n8192::small_vec_n8192_len(&v) > 0 {
        if let Some(last) = n8192::small_vec_n8192_pop(&mut v) {
            events.push(Event::Number(last));
        }
    }
    match pick_index(g, o + 3, n8192::small_vec_n8192_len(&v)) {
        Err(h) => {
            proof {
                let x = op_11(g@, o as int).0;
                assert(forall|i: int| 0 <= i < events@.len() ==> #[trigger] event_matches(events@[i], x[i]));
            }
            return (events, Some(h));
        },
        Ok(Some(k)) => events.push(Event::Item(n8192::small_vec_n8192_index_mut(&mut v, k))),
        Ok(None) => {},
    }
    proof {
        let x = op_11(g@, o as int).0;
        assert(forall|i: int| 0 <= i < events@.len() ==> #[trigger] event_matches(events@[i], x[i]));
    }
    (events, None)
}

/// Where clones of a prefix of `items` stop, clones of all of them stop
/// there too.
proof fn lemma_cloned_halt_extends(first: Seq<u8>, second: Seq<u8>, items: Seq<usize>, k: nat, h: Halt)
    requires
        k <= items.len(),
        cloned_all(first, second, items.take(k as int)) == Err::<Seq<usize>, Halt>(h),
    ensures
        cloned_all(first, second, items) == Err::<Seq<usize>, Halt>(h),
    decreases items.len(),
{
    if items.len() == k {
        assert(items.take(k as int) =~= items);
    } else {
        assert(items.drop_last().take(k as int) =~= items.take(k as int));
        lemma_cloned_halt_extends(first, second, items.drop_last(), k, h);
    }
}

/// Clones of `items`, in order (see `cloned_all`).
pub(crate) fn clone_all(g: &[u8], s: &[u8], items: &Vec<usize>) -> (r: Result<Vec<usize>, Halt>)
    ensures
        match r {
            Ok(v) => cloned_all(g@, s@, items@) == Ok::<Seq<usize>, Halt>(v@) && v@.len() == items@.len(),
            Err(h) => cloned_all(g@, s@, items@) == Err::<Seq<usize>, Halt>(h),
        },
{
    let mut made: Vec<usize> = Vec::new();
    let mut j: usize = 0;
    assert(items@.take(0) =~= Seq::<usize>::empty());
    while j < items.len()
        invariant
            j <= items@.len(),
            made@.len() == j,
            cloned_all(g@, s@, items@.take(j as int)) == Ok::<Seq<usize>, Halt>(made@),
        decreases items.len() - j,
    {
        assert(items@.take(j + 1).drop_last() =~= items@.take(j as int));
        match clone_number(g, s, 10, 18, items[j]) {
            Ok(c) => {
                made.push(c);
            },
            Err(h) => {
                proof {
                    lemma_cloned_halt_extends(g@, s@, items@, (j + 1) as nat, h);
                }
                return Err(h);
            },
        }
        j = j + 1;
    }
    assert(items@.take(items@.len() as int) =~= items@);
    Ok(made)
}

/// Operation 12 (see `op_12`).
#[verifier::loop_isolation(false)]
#[inline(never)]
fn run_op_12(g: &[u8], s: &[u8], o: usize) -> (r: (Vec<Event>, Option<Halt>))
    requires
        o <= 980,
    ensures
        events_match(r.0@, op_12(g@, s@, o as int).0),
        r.1 == op_12(g@, s@, o as int).1,
{
    let n = match read_u8(g, o + 1) {
        Some(x) => x % 50,
        None => return (Vec::new(), Some(Halt::InputExhausted)),
    };
    let mut v = n16384::small_vec_n16384_new();
    let items = match read_numbers(g, o + 2, n as usize) {
        Some(w) => w,
        None => return (Vec::new(), Some(Halt::InputExhausted)),
    };
    let ghost cap0 = n16384::sv_n16384_cap(v);
    let mut j: usize = 0;
    while j < items.len()
        invariant
            j <= items@.len() <= 49,
            cap0 >= 16384,
            v.wf(),
            n16384::sv_n16384_items(v) == items@.take(j as int),
            n16384::sv_n16384_cap(v) == cap0,
        decreases items.len() - j,
    {
        n16384::small_vec_n16384_push(&mut v, items[j]);
        j = j + 1;
        assert(n16384::sv_n16384_items(v) =~= items@.take(j as int));
    }
    assert(items@.take(items@.len() as int) =~= items@);
    let made = match clone_all(g, s, &items) {
        Ok(w) => w,
        Err(h) => return (Vec::new(), Some(h)),
    };
    let twin = n16384::small_vec_n16384_from_iter(made);
    let mut events: Vec<Event> = Vec::new();
    events.push(Event::Len(n16384::small_vec_n16384_len(&twin)));
    let new_len = match read_usize(g, o + 10) {
        Some(x) => x % 65,
        None => {
            proof {
                let x = op_12(g@, s@, o as int).0;
                assert(forall|i: int| 0 <= i < events@.len() ==> #[trigger] event_matches(events@[i], x[i]));
            }
            return (events, Some(Halt::InputExhausted));
        },
    };
    if new_len > n16384::small_vec_n16384_len(&v) && !(o + 11 <= s.len() && s.len() - (o + 11) >= 8) {
        proof {
            let x = op_12(g@, s@, o as int).0;
            assert(forall|i: int| 0 <= i < events@.len() ==> #[trigger] event_matches(events@[i], x[i]));
        }
        return (events, Some(Halt::InputExhausted));
    }
    n16384::small_vec_n16384_resize_with_read(&mut v, new_len, s, o + 11);
    match pick_index(g, o + 12, n16384::small_vec_n16384_len(&v)) {
        Err(h) => {
            proof {
                let x = op_12(g@, s@, o as int).0;
                assert(forall|i: int| 0 <= i < events@.len() ==> #[trigger] event_matches(events@[i], x[i]));
            }
            return (events, Some(h));
        },
        Ok(Some(k)) => events.push(Event::Item(n16384::small_vec_n16384_index_mut(&mut v, k))),
        Ok(None) => {},
    }
    proof {
        let x = op_12(g@, s@, o as int).0;
        assert(forall|i: int| 0 <= i < events@.len() ==> #[trigger] event_matches(events@[i], x[i]));
    }
    (events, None)
}

/// Operation 13 (see `op_13`).
#[verifier::loop_isolation(false)]
#[inline(never)]
fn run_op_13(g: &[u8], o: usize) -> (r: (Vec<Event>, Option<Halt>))
    requires
        o <= 980,
    ensures
        events_match(r.0@, op_13(g@, o as int).0),
        r.1 == op_13(g@, o as int).1,
{
    let n = match read_u8(g, o + 1) {
        Some(x) => x % 35,
        None => return (Vec::new(), Some(Halt::InputExhausted)),
    };
    let items = match read_numbers(g, o + 2, n as usize) {
        Some(w) => w,
        None => return (Vec::new(), Some(Halt::InputExhausted)),
    };
    let v = n32768::small_vec_n32768_from_iter(items);
    let mut events: Vec<Event> = Vec::new();
    events.push(Event::Len(n32768::small_vec_n32768_len(&v)));
    events.push(Event::Spilled(n32768::small_vec_n32768_spilled(&v)));
    let whole = n32768::small_vec_n32768_into_vec(v);
    events.push(Event::Len(whole.len()));
    proof {
        let x = op_13(g@, o as int).0;
        assert(forall|i: int| 0 <= i < events@.len() ==> #[trigger] event_matches(events@[i], x[i]));
    }
    (events, None)
}

/// Operation 14 (see `op_14`).
#[verifier::loop_isolation(false)]
#[inline(never)]
fn run_op_14(g: &[u8], o: usize) -> (r: (Vec<Event>, Option<Halt>))
    requires
        o <= 980,
    ensures
        events_match(r.0@, op_14(g@, o as int).0),
        r.1 == op_14(g@, o as int).1,
{
    let n = match read_u8(g, o + 1) {
        Some(x) => x % 20,
        None => return (Vec::new(), Some(Halt::InputExhausted)),
    };
    let mut v = n65536::small_vec_n65536_new();
    let read = match read_numbers(g, o + 2, n as usize) {
        Some(w) => w,
        None => return (Vec::new(), Some(Halt::InputExhausted)),
    };
    let mut items: Vec<usize> = Vec::new();
    let mut k: usize = 0;
    while k < read.len()
        invariant
            k <= read@.len(),
            items@.len() == k,
            forall|i: int| 0 <= i < k ==> items@[i] == read@[i] % 5,
        decreases read.len() - k,
    {
        items.push(read[k] % 5);
        k = k + 1;
    }
    assert(items@ =~= fifths(read@));
    let ghost cap0 = n65536::sv_n65536_cap(v);
    let mut j: usize = 0;
    while j < items.len()
        invariant
            j <= items@.len() <= 19,
            cap0 >= 65536,
            v.wf(),
            n65536::sv_n65536_items(v) == items@.take(j as int),
            n65536::sv_n65536_cap(v) == cap0,
        decreases items.len() - j,
    {
        n65536::small_vec_n65536_push(&mut v, items[j]);
        j = j + 1;
        assert(n65536::sv_n65536_items(v) =~= items@.take(j as int));
    }
    assert(items@.take(items@.len() as int) =~= items@);
    let before = n65536::small_vec_n65536_len(&v);
    n65536::small_vec_n65536_dedup_by_eq(&mut v);
    let mut events: Vec<Event> = Vec::new();
    events.push(Event::Len(before));
    events.push(Event::Len(n65536::small_vec_n65536_len(&v)));
    match pick_index(g, o + 10, n65536::small_vec_n65536_len(&v)) {
        Err(h) => {
            proof {
                let x = op_14(g@, o as int).0;
                assert(forall|i: int| 0 <= i < events@.len() ==> #[trigger] event_matches(events@[i], x[i]));
            }
            return (events, Some(h));
        },
        Ok(Some(k)) => events.push(Event::Item(n65536::small_vec_n65536_index_mut(&mut v, k))),
        Ok(None) => {},
    }
    proof {
        let x = op_14(g@, o as int).0;
        assert(forall|i: int| 0 <= i < events@.len() ==> #[trigger] event_matches(events@[i], x[i]));
    }
    (events, None)
}

/// Operation 15 (see `op_15`).
#[verifier::loop_isolation(false)]
#[inline(never)]
fn run_op_15(g: &[u8], o: usize) -> (r: (Vec<Event>, Option<Halt>))
    requires
        o <= 980,
    ensures
        events_match(r.0@, op_15(g@, o as int).0),
        r.1 == op_15(g@, o as int).1,
{
    let n = match read_u8(g, o + 1) {
        Some(x) => x % 30,
        None => return (Vec::new(), Some(Halt::InputExhausted)),
    };
    let mut v = n131072::small_vec_n131072_new();
    let items = match read_numbers(g, o + 2, n as usize) {
        Some(w) => w,
        None => return (Vec::new(), Some(Halt::InputExhausted)),
    };
    let ghost cap0 = n131072::sv_n131072_cap(v);
    let mut j: usize = 0;
    while j < items.len()
        invariant
            j <= items@.len() <= 29,
            cap0 >= 131072,
            v.wf(),
            n131072::sv_n131072_items(v) == items@.take(j as int),
            n131072::sv_n131072_cap(v) == cap0,
        decreases items.len() - j,
    {
        n131072::small_vec_n131072_push(&mut v, items[j]);
        j = j + 1;
        assert(n131072::sv_n131072_items(v) =~= items@.take(j as int));
    }
    assert(items@.take(items@.len() as int) =~= items@);
    let before = n131072::small_vec_n131072_len(&v);
    n131072::small_vec_n131072_retain_even(&mut v);
    let mut events: Vec<Event> = Vec::new();
    events.push(Event::Len(before));
    events.push(Event::Len(n131072::small_vec_n131072_len(&v)));
    match pick_index(g, o + 10, n131072::small_vec_n131072_len(&v)) {
        Err(h) => {
            proof {
                let x = op_15(g@, o as int).0;
                assert(forall|i: int| 0 <= i < events@.len() ==> #[trigger] event_matches(events@[i], x[i]));
            }
            return (events, Some(h));
        },
        Ok(Some(k)) => events.push(Event::Item(n131072::small_vec_n131072_index_mut(&mut v, k))),
        Ok(None) => {},
    }
    proof {
        let x = op_15(g@, o as int).0;
        assert(forall|i: int| 0 <= i < events@.len() ==> #[trigger] event_matches(events@[i], x[i]));
    }
    (events, None)
}

/// Operation 16 (see `op_16`).
#[verifier::loop_isolation(false)]
#[inline(never)]
fn run_op_16(g: &[u8], o: usize) -> (r: (Vec<Event>, Option<Halt>))
    requires
        o <= 980,
    ensures
        events_match(r.0@, op_16(g@, o as int).0),
        r.1 == op_16(g@, o as int).1,
{
    let n = match read_u8(g, o + 1) {
        Some(x) => x % 15,
        None => return (Vec::new(), Some(Halt::InputExhausted)),
    };
    let mut v = n262144::small_vec_n262144_new();
    let mut w = n262144::small_vec_n262144_new();
    let items = match read_numbers(g, o + 2, n as usize) {
        Some(x) => x,
        None => return (Vec::new(), Some(Halt::InputExhausted)),
    };
    let more = match read_numbers(g, o + 3, n as usize) {
        Some(x) => x,
        None => return (Vec::new(), Some(Halt::InputExhausted)),
    };
    let ghost cap0 = n262144::sv_n262144_cap(v);
    let mut j: usize = 0;
    while j < items.len()
        invariant
            j <= items@.len() <= 14,
            cap0 >= 262144,
            v.wf(),
            n262144::sv_n262144_items(v) == items@.take(j as int),
            n262144::sv_n262144_cap(v) == cap0,
        decreases items.len() - j,
    {
        n262144::small_vec_n262144_push(&mut v, items[j]);
        j = j + 1;
        assert(n262144::sv_n262144_items(v) =~= items@.take(j as int));
    }
    assert(items@.take(items@.len() as int) =~= items@);
    let ghost cap0 = n262144::sv_n262144_cap(w);
    let mut j: usize = 0;
    while j < more.len()
        invariant
            j <= more@.len() <= 14,
            cap0 >= 262144,
            w.wf(),
            n262144::sv_n262144_items(w) == more@.take(j as int),
            n262144::sv_n262144_cap(w) == cap0,
        decreases more.len() - j,
    {
        n262144::small_vec_n262144_push(&mut w, more[j]);
        j = j + 1;
        assert(n262144::sv_n262144_items(w) =~= more@.take(j as int));
    }
    assert(more@.take(more@.len() as int) =~= more@);
    let mut events: Vec<Event> = Vec::new();
    events.push(Event::Compared(n262144::small_vec_n262144_compare(&v, &w)));
    events.push(Event::Equal(n262144::small_vec_n262144_eq(&v, &w)));
    match pick_index(g, o + 12, n262144::small_vec_n262144_len(&v)) {
        Err(h) => {
            proof {
                let x = op_16(g@, o as int).0;
                assert(forall|i: int| 0 <= i < events@.len() ==> #[trigger] event_matches(events@[i], x[i]));
            }
            return (events, Some(h));
        },
        Ok(Some(k)) => events.push(Event::Item(n262144::small_vec_n262144_index_mut(&mut v, k))),
        Ok(None) => {},
    }
    proof {
        let x = op_16(g@, o as int).0;
        assert(forall|i: int| 0 <= i < events@.len() ==> #[trigger] event_matches(events@[i], x[i]));
    }
    (events, None)
}

/// Operation 17 (see `op_17`).
#[verifier::loop_isolation(false)]
#[inline(never)]
fn run_op_17(g: &[u8], o: usize) -> (r: (Vec<Event>, Option<Halt>))
    requires
        o <= 980,
    ensures
        events_match(r.0@, op_17(g@, o as int).0),
        r.1 == op_17(g@, o as int).1,
{
    let n = match read_u8(g, o + 1) {
        Some(x) => x % 20,
        None => return (Vec::new(), Some(Halt::InputExhausted)),
    };
    let items = match read_numbers(g, o + 2, n as usize) {
        Some(x) => x,
        None => return (Vec::new(), Some(Halt::InputExhausted)),
    };
    let mut v = n524288::small_vec_n524288_new();
    let at = match read_usize(g, o + 10) {
        Some(x) => x,
        None => return (Vec::new(), Some(Halt::InputExhausted)),
    };
    if at <= n524288::small_vec_n524288_len(&v) {
        n524288::small_vec_n524288_insert_many(&mut v, at, items);
    }
    let mut events: Vec<Event> = Vec::new();
    events.push(Event::Len(n524288::small_vec_n524288_len(&v)));
    match pick_index(g, o + 11, n524288::small_vec_n524288_len(&v)) {
        Err(h) => {
            proof {
                let x = op_17(g@, o as int).0;
                assert(forall|i: int| 0 <= i < events@.len() ==> #[trigger] event_matches(events@[i], x[i]));
            }
            return (events, Some(h));
        },
        Ok(Some(k)) => events.push(Event::Item(n524288::small_vec_n524288_index_mut(&mut v, k))),
        Ok(None) => {},
    }
    proof {
        let x = op_17(g@, o as int).0;
        assert(forall|i: int| 0 <= i < events@.len() ==> #[trigger] event_matches(events@[i], x[i]));
    }
    (events, None)
}

/// Operation 18 (see `op_18`).
#[verifier::loop_isolation(false)]
#[inline(never)]
fn run_op_18(g: &[u8], o: usize) -> (r: (Vec<Event>, Option<Halt>))
    requires
        o <= 980,
    ensures
        events_match(r.0@, op_18(g@, o as int).0),
        r.1 == op_18(g@, o as int).1,
{
    let n = match read_u8(g, o + 1) {
        Some(x) => x % 25,
        None => return (Vec::new(), Some(Halt::InputExhausted)),
    };
    let mut v = n1048576::small_vec_n1048576_new();
    let items = match read_numbers(g, o + 2, n as usize) {
        Some(x) => x,
        None => return (Vec::new(), Some(Halt::InputExhausted)),
    };
    let ghost cap0 = n1048576::sv_n1048576_cap(v);
    let mut j: usize = 0;
    while j < items.len()
        invariant
            j <= items@.len() <= 24,
            cap0 >= 1048576,
            v.wf(),
            n1048576::sv_n1048576_items(v) == items@.take(j as int),
            n1048576::sv_n1048576_cap(v) == cap0,
        decreases items.len() - j,
    {
        n1048576::small_vec_n1048576_push(&mut v, items[j]);
        j = j + 1;
        assert(n1048576::sv_n1048576_items(v) =~= items@.take(j as int));
    }
    assert(items@.take(items@.len() as int) =~= items@);
    let mut events: Vec<Event> = Vec::new();
    events.push(Event::Ptr(n1048576::small_vec_n1048576_as_ptr(&v)));
    events.push(Event::MutPtr(n1048576::small_vec_n1048576_as_mut_ptr(&mut v)));
    match pick_index(g, o + 10, n1048576::small_vec_n1048576_len(&v)) {
        Err(h) => {
            proof {
                let x = op_18(g@, o as int).0;
                assert(forall|i: int| 0 <= i < events@.len() ==> #[trigger] event_matches(events@[i], x[i]));
            }
            return (events, Some(h));
        },
        Ok(Some(k)) => events.push(Event::Item(n1048576::small_vec_n1048576_index_mut(&mut v, k))),
        Ok(None) => {},
    }
    proof {
        let x = op_18(g@, o as int).0;
        assert(forall|i: int| 0 <= i < events@.len() ==> #[trigger] event_matches(events@[i], x[i]));
    }
    (events, None)
}

/// Operation 19 (see `op_19`).
#[verifier::loop_isolation(false)]
#[inline(never)]
fn run_op_19(g: &[u8], o: usize) -> (r: (Vec<Event>, Option<Halt>))
    requires
        o <= 980,
    ensures
        events_match(r.0@, op_19(g@, o as int).0),
        r.1 == op_19(g@, o as int).1,
{
    let n = match read_u8(g, o + 1) {
        Some(x) => x % 40,
        None => return (Vec::new(), Some(Halt::InputExhausted)),
    };
    let mut v = n1024::small_vec_n1024_new();
    let items = match read_numbers(g, o + 2, n as usize) {
        Some(x) => x,
        None => return (Vec::new(), Some(Halt::InputExhausted)),
    };
    let ghost cap0 = n1024::sv_n1024_cap(v);
    let mut j: usize = 0;
    while j < items.len()
        invariant
            j <= items@.len() <= 39,
            cap0 >= 1024,
            v.wf(),
            n1024::sv_n1024_items(v) == items@.take(j as int),
            n1024::sv_n1024_cap(v) == cap0,
        decreases items.len() - j,
    {
        n1024::small_vec_n1024_push(&mut v, items[j]);
        j = j + 1;
        assert(n1024::sv_n1024_items(v) =~= items@.take(j as int));
    }
    assert(items@.take(items@.len() as int) =~= items@);
    let boxed = n1024::small_vec_n1024_into_boxed_slice(v);
    let mut events: Vec<Event> = Vec::new();
    events.push(Event::Len(boxed.len()));
    proof {
        let x = op_19(g@, o as int).0;
        assert(forall|i: int| 0 <= i < events@.len() ==> #[trigger] event_matches(events@[i], x[i]));
    }
    (events, None)
}

/// The operation `op` at position `i` of the run (see `op_step`); the
/// capacity that operation 0 or 2 got is the choice.
fn run_op(g: &[u8], s: &[u8], i: usize, op: u8) -> (r: (Vec<Event>, Option<Halt>, Ghost<nat>))
    requires
        i < 65,
    ensures
        events_match(r.0@, op_step(g@, s@, i as nat, op, r.2@).0),
        r.1 == op_step(g@, s@, i as nat, op, r.2@).1,
{
    reveal(op_step);
    let o = 20 + 15 * i;
    let none = Ghost(0nat);
    if op == 0 {
        return run_op_0(g, s, o);
    }
    if op == 2 {
        return run_op_2(g, o);
    }
    let (events, halt) = if op == 1 {
        run_op_1(g, o)
    } else if op == 3 {
        run_op_3(g, s, o)
    } else if op == 4 {
        run_op_4(g, o)
    } else if op == 5 {
        run_op_5(g, o)
    } else if op == 6 {
        run_op_6(g, s, o)
    } else if op == 7 {
        run_op_7(g, o)
    } else if op == 8 {
        run_op_8(g, o)
    } else if op == 9 {
        run_op_9(g, s, o)
    } else if op == 10 {
        run_op_10(g, o)
    } else if op == 11 {
        run_op_11(g, o)
    } else if op == 12 {
        run_op_12(g, s, o)
    } else if op == 13 {
        run_op_13(g, o)
    } else if op == 14 {
        run_op_14(g, o)
    } else if op == 15 {
        run_op_15(g, o)
    } else if op == 16 {
        run_op_16(g, o)
    } else if op == 17 {
        run_op_17(g, o)
    } else if op == 18 {
        run_op_18(g, o)
    } else {
        run_op_19(g, o)
    };
    (events, halt, none)
}

/// Once operation `k` has run without halting, the run's outcome is what was
/// owed so far and its events, followed by what the later operations owe.
proof fn lemma_run_continues(
    input_len: nat,
    g: Seq<u8>,
    s: Seq<u8>,
    k: nat,
    count: nat,
    done_cs: Seq<nat>,
    owed: Seq<Expect>,
    c: nat,
)
    requires
        forall|rest: Seq<nat>|
            #![trigger ops_from(g, s, k, count, rest)]
            script_outcome(input_len, g, s, done_cs + rest) == (
                owed + ops_from(g, s, k, count, rest).0,
                ops_from(g, s, k, count, rest).1,
            ),
        k < count,
        fits(g, 20 + 15 * k as int, 1),
        op_step(g, s, k, g[20 + 15 * k as int] % 20, c).1 is None,
    ensures
        ({
            let st = op_step(g, s, k, g[20 + 15 * k as int] % 20, c);
            forall|rest: Seq<nat>|
                #![trigger ops_from(g, s, k + 1, count, rest)]
                script_outcome(input_len, g, s, done_cs.push(c) + rest) == (
                    (owed + st.0) + ops_from(g, s, k + 1, count, rest).0,
                    ops_from(g, s, k + 1, count, rest).1,
                )
        }),
{
    let st = op_step(g, s, k, g[20 + 15 * k as int] % 20, c);
    assert forall|rest: Seq<nat>|
        #![trigger ops_from(g, s, k + 1, count, rest)]
        script_outcome(input_len, g, s, done_cs.push(c) + rest) == (
            (owed + st.0) + ops_from(g, s, k + 1, count, rest).0,
            ops_from(g, s, k + 1, count, rest).1,
        ) by {
        let full = seq![c] + rest;
        assert(done_cs.push(c) + rest =~= done_cs + full);
        assert(full.drop_first() =~= rest);
        let tail = ops_from(g, s, k + 1, count, rest);
        assert(ops_from(g, s, k, count, full) == (st.0 + tail.0, tail.1));
        assert(owed + (st.0 + tail.0) =~= (owed + st.0) + tail.0);
    }
}

/// Where operation `k` halts, the run's outcome is what was owed so far and
/// its events, and the halt.
proof fn lemma_run_halts(
    input_len: nat,
    g: Seq<u8>,
    s: Seq<u8>,
    k: nat,
    count: nat,
    done_cs: Seq<nat>,
    owed: Seq<Expect>,
    c: nat,
)
    requires
        forall|rest: Seq<nat>|
            #![trigger ops_from(g, s, k, count, rest)]
            script_outcome(input_len, g, s, done_cs + rest) == (
                owed + ops_from(g, s, k, count, rest).0,
                ops_from(g, s, k, count, rest).1,
            ),
        k < count,
        fits(g, 20 + 15 * k as int, 1),
        op_step(g, s, k, g[20 + 15 * k as int] % 20, c).1 is Some,
    ensures
        script_outcome(input_len, g, s, done_cs.push(c)) == (
            owed + op_step(g, s, k, g[20 + 15 * k as int] % 20, c).0,
            op_step(g, s, k, g[20 + 15 * k as int] % 20, c).1,
        ),
{
    let full = seq![c];
    assert(done_cs.push(c) =~= done_cs + full);
    assert(full[0] == c);
    assert(ops_from(g, s, k, count, full) == op_step(g, s, k, g[20 + 15 * k as int] % 20, c));
}

/// The events of a run, and why it stopped early, if it did.
pub struct Run {
    pub events: Vec<Event>,
    pub halt: Option<Halt>,
}

/// Runs the script of an input of `input_len` bytes whose halves are `first`
/// and `second`. What it reports is owed for some capacities that the
/// outside crate leaves open.
pub fn run(input_len: usize, first: &[u8], second: &[u8]) -> (r: Run)
    ensures
        exists|cs: Seq<nat>|
            #![trigger script_outcome(input_len as nat, first@, second@, cs)]
            events_match(r.events@, script_outcome(input_len as nat, first@, second@, cs).0) && r.halt
                == script_outcome(input_len as nat, first@, second@, cs).1,
{
    let mut events: Vec<Event> = Vec::new();
    let ghost none = Seq::<nat>::empty();
    let ghost g = first@;
    let ghost s = second@;
    if input_len < 1500 {
        assert(script_outcome(input_len as nat, g, s, none).0 =~= Seq::<Expect>::empty());
        return Run { events, halt: None };
    }
    let count = match read_u8(first, 0) {
        Some(x) => x % 65,
        None => {
            assert(script_outcome(input_len as nat, g, s, none).0 =~= Seq::<Expect>::empty());
            return Run { events, halt: Some(Halt::InputExhausted) };
        },
    };
    let ghost n = count as nat;
    let ghost mut done_cs = Seq::<nat>::empty();
    let ghost mut owed = Seq::<Expect>::empty();
    let ghost mut gk: nat = 0;
    assert forall|rest: Seq<nat>|
        #![trigger ops_from(g, s, gk, n, rest)]
        script_outcome(input_len as nat, g, s, done_cs + rest) == (
            owed + ops_from(g, s, gk, n, rest).0,
            ops_from(g, s, gk, n, rest).1,
        ) by {
        assert(done_cs + rest =~= rest);
        assert(owed + ops_from(g, s, gk, n, rest).0 =~= ops_from(g, s, gk, n, rest).0);
    }
    let mut i: usize = 0;
    while i < count as usize
        invariant
            i <= count < 65,
            input_len >= 1500,
            g == first@,
            s == second@,
            fits(g, 0, 1),
            n == count as nat,
            n == count_at(g, 0, 65),
            gk == i as nat,
            none == Seq::<nat>::empty(),
            events_match(events@, owed),
            forall|rest: Seq<nat>|
                #![trigger ops_from(g, s, gk, n, rest)]
                script_outcome(input_len as nat, g, s, done_cs + rest) == (
                    owed + ops_from(g, s, gk, n, rest).0,
                    ops_from(g, s, gk, n, rest).1,
                ),
        decreases count as usize - i,
    {
        let op = match read_u8(first, 20 + 15 * i) {
            Some(x) => x % 20,
            None => {
                proof {
                    assert(ops_from(g, s, gk, n, none) == halted(Halt::InputExhausted));
                    assert(owed + Seq::<Expect>::empty() =~= owed);
                }
                return Run { events, halt: Some(Halt::InputExhausted) };
            },
        };
        let (evs, halt, Ghost(c)) = run_op(first, second, i, op);
        let ghost st = op_step(g, s, gk, op, c);
        proof {
            lemma_events_match_append(events@, owed, evs@, st.0);
        }
        let mut evs = evs;
        events.append(&mut evs);
        if halt.is_some() {
            proof {
                lemma_run_halts(input_len as nat, g, s, gk, n, done_cs, owed, c);
            }
            return Run { events, halt };
        }
        proof {
            lemma_run_continues(input_len as nat, g, s, gk, n, done_cs, owed, c);
            done_cs = done_cs.push(c);
            owed = owed + st.0;
            gk = gk + 1;
        }
        i = i + 1;
    }
    proof {
        assert(ops_from(g, s, gk, n, none) == (Seq::<Expect>::empty(), None::<Halt>));
        assert(owed + Seq::<Expect>::empty() =~= owed);
        assert(done_cs + none =~= done_cs);
    }
    Run { events, halt: None }
}

/// Where the vector holds items and the index read at `at` fits, the item
/// reported is the one at that index modulo the length.
pub proof fn law_pick_reports_the_item_at_the_read_index(g: Seq<u8>, at: int, items: Seq<usize>)
    requires
        items.len() > 0,
        fits(g, at, 8),
    ensures
        pick(g, at, items).1 is None,
        pick(g, at, items).0 == seq![Expect::Item(items[(usize_at(g, at) as nat % items.len()) as int])],
{
}

/// Operation 5 removes and reports, at a read index in range, the element
/// read there: the number at `o + 10 + at`.
pub proof fn law_removal_reports_the_element_read_at_the_index(g: Seq<u8>, o: int)
    requires
        fits(g, o + 1, 8),
        !exact_growth_overflows(0, 256, usize_at(g, o + 1) as nat, number_size()),
        fits(g, o + 9, 1),
        numbers_fit(g, o + 10, count_at(g, o + 9, 45)),
        fits(g, o + 2, 8),
        usize_at(g, o + 2) < count_at(g, o + 9, 45),
    ensures
        op_5(g, o).0[0] == Expect::Number(usize_at(g, o + 10 + usize_at(g, o + 2))),
{
}

/// Operation 6 swap-removes and reports, at a read index in range, the
/// element read there: the number at `o + 2 + at`.
pub proof fn law_swap_removal_reports_the_element_read_at_the_index(g: Seq<u8>, s: Seq<u8>, o: int)
    requires
        fits(g, o + 1, 1),
        numbers_fit(g, o + 2, count_at(g, o + 1, 35)),
        fits(g, o + 8, 8),
        usize_at(g, o + 8) < count_at(g, o + 1, 35),
    ensures
        op_6(g, s, o).0[0] == Expect::Number(usize_at(g, o + 2 + usize_at(g, o + 8))),
{
}

} // verus!

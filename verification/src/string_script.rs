//! A script of operations on one persistent `SmallVec<[String; 15]>`.
//!
//! The input's first half sets up the vector and then drives five to 24
//! operations, twelve bytes apart from byte 50, each reading texts and
//! numbers from its bytes; the second half chooses an item to take out at the
//! end. A run halts where a read runs past the input, an index or range is
//! out of bounds for the vector or a size computation overflows, and stops
//! quietly where a text is not valid UTF-8.
use vstd::prelude::*;
use crate::script::{fits, read_text, read_u8, read_usize, text_of, usize_at, Halt};
use crate::small_vec::{
    exact_growth_overflows, exact_growth_overflows_exec, growth_overflows, growth_overflows_exec,
    grown, repeat,
};
use crate::sv_string::{
    small_vec_string12_new, small_vec_string15_append, small_vec_string15_as_slice,
    small_vec_string15_capacity, small_vec_string15_clear, small_vec_string15_clone,
    small_vec_string15_drain, small_vec_string15_from_elem, small_vec_string15_from_vec,
    small_vec_string15_insert, small_vec_string15_into_vec, small_vec_string15_len,
    small_vec_string15_new, small_vec_string15_pop, small_vec_string15_push,
    small_vec_string15_remove, small_vec_string15_reserve, small_vec_string15_shrink_to_fit,
    small_vec_string15_swap_remove, small_vec_string15_truncate, small_vec_string15_with_capacity,
    string_size, sv_str12_cap, sv_str12_items, sv_str15_cap, sv_str15_items, texts,
    SmallVecString12, SmallVecString15,
};

verus! {

/// What the script reports, one value per printed line.
#[derive(Debug, PartialEq, Eq)]
pub enum Event {
    /// An item taken out by `swap_remove` or `remove`.
    Removed(String),
    /// The item `pop` returned.
    Popped(String),
    /// The first item.
    First(String),
    /// The length of a clone.
    ClonedLen(usize),
    /// The first item taken out by `drain`.
    Drained(String),
    /// The length of the `Vec` that a clone converts to.
    IntoVecLen(usize),
    /// The capacity.
    Capacity(usize),
}

/// What the script is owed to report (texts as characters).
pub enum Expect {
    Removed(Seq<char>),
    Popped(Seq<char>),
    First(Seq<char>),
    ClonedLen(nat),
    Drained(Seq<char>),
    IntoVecLen(nat),
    Capacity(nat),
}

/// Whether a reported event is the one that was owed.
pub open spec fn event_matches(e: Event, x: Expect) -> bool {
    match e {
        Event::Removed(s) => x == Expect::Removed(s@),
        Event::Popped(s) => x == Expect::Popped(s@),
        Event::First(s) => x == Expect::First(s@),
        Event::ClonedLen(n) => x == Expect::ClonedLen(n as nat),
        Event::Drained(s) => x == Expect::Drained(s@),
        Event::IntoVecLen(n) => x == Expect::IntoVecLen(n as nat),
        Event::Capacity(c) => x == Expect::Capacity(c as nat),
    }
}

/// Whether the reported events are, one for one, those owed.
pub open spec fn events_match(a: Seq<Event>, x: Seq<Expect>) -> bool {
    &&& a.len() == x.len()
    &&& forall|i: int| 0 <= i < a.len() ==> #[trigger] event_matches(a[i], x[i])
}

/// Reported events, followed by more, match what was owed followed by more.
proof fn lemma_events_match_append(a: Seq<Event>, x: Seq<Expect>, b: Seq<Event>, y: Seq<Expect>)
    requires
        events_match(a, x),
        events_match(b, y),
    ensures
        events_match(a + b, x + y),
{
    assert forall|i: int| 0 <= i < (a + b).len() implies #[trigger] event_matches((a + b)[i], (x + y)[i]) by {
        if i < a.len() {
            assert(event_matches(a[i], x[i]));
        } else {
            assert(event_matches(b[i - a.len()], y[i - a.len()]));
        }
    }
}

/// The vector as the script sees it: the texts it holds and its capacity.
pub struct Model {
    pub items: Seq<Seq<char>>,
    pub cap: nat,
}

/// The model of a vector.
pub open spec fn model_of(v: SmallVecString15) -> Model {
    Model { items: sv_str15_items(v), cap: sv_str15_cap(v) }
}

/// The texts read for constructor 1: `n` texts, text `i` of (byte `29 + i`
/// modulo 8) bytes at `41 + 8 * i`, from `i` on.
pub open spec fn strings_from(first: Seq<u8>, i: nat, n: nat) -> Result<Seq<Seq<char>>, Halt>
    decreases n - i,
{
    if i >= n {
        Ok(Seq::empty())
    } else if !fits(first, 29 + i as int, 1) {
        Err(Halt::InputExhausted)
    } else {
        match text_of(first, 41 + 8 * i as int, (first[29 + i as int] % 8) as nat) {
            Err(h) => Err(h),
            Ok(t) => match strings_from(first, i + 1, n) {
                Err(h) => Err(h),
                Ok(rest) => Ok(seq![t] + rest),
            },
        }
    }
}

/// The items the vector starts with, by the constructor that byte 20
/// chooses, or why building it stops.
pub open spec fn initial_items(first: Seq<u8>) -> Result<Seq<Seq<char>>, Halt> {
    if !fits(first, 20, 1) {
        Err(Halt::InputExhausted)
    } else {
        let choice = first[20] % 4;
        if choice == 0 {
            if !fits(first, 21, 8) {
                Err(Halt::InputExhausted)
            } else if exact_growth_overflows(0, 15, usize_at(first, 21) as nat, string_size()) {
                Err(Halt::CapacityOverflow)
            } else {
                Ok(Seq::empty())
            }
        } else if choice == 1 {
            if !fits(first, 21, 1) {
                Err(Halt::InputExhausted)
            } else {
                strings_from(first, 0, (first[21] % 12) as nat)
            }
        } else if choice == 2 {
            if !fits(first, 21, 1) {
                Err(Halt::InputExhausted)
            } else {
                match text_of(first, 22, (first[21] % 8) as nat) {
                    Err(h) => Err(h),
                    Ok(t) => if !fits(first, 30, 8) {
                        Err(Halt::InputExhausted)
                    } else {
                        let count = usize_at(first, 30) as nat;
                        if count > 15 && count * string_size() > isize::MAX {
                            Err(Halt::CapacityOverflow)
                        } else {
                            Ok(repeat(t, count))
                        }
                    },
                }
            }
        } else {
            Ok(Seq::empty())
        }
    }
}

/// The capacity the vector starts with. Where the outside crate does not fix
/// it (a vector taken over from a `Vec`, or more than 15 copies), it is
/// `open_cap`.
pub open spec fn initial_cap(first: Seq<u8>, open_cap: nat) -> nat {
    let choice = first[20] % 4;
    if choice == 0 {
        let n = usize_at(first, 21) as nat;
        if n <= 15 { 15 } else { n }
    } else if choice == 1 {
        open_cap
    } else if choice == 2 {
        if usize_at(first, 30) <= 15 { 15 } else { open_cap }
    } else {
        15
    }
}

/// Whether `open_cap` is a capacity that the starting vector can have.
pub open spec fn admissible(first: Seq<u8>, open_cap: nat) -> bool {
    &&& open_cap >= 15
    &&& open_cap == 15 || open_cap * string_size() <= isize::MAX
    &&& initial_items(first) matches Ok(items) ==> open_cap >= items.len()
}

/// What one operation, at `base`, does to the vector `m`: its events, why it
/// halts, if it does, and the vector after it.
pub open spec fn op_step(first: Seq<u8>, base: int, m: Model) -> (Seq<Expect>, Option<Halt>, Model) {
    let n = m.items.len();
    let none = Seq::<Expect>::empty();
    if !fits(first, base, 1) {
        (none, Some(Halt::InputExhausted), m)
    } else {
        let op = first[base] % 15;
        if op == 0 || op == 8 {
            if !fits(first, base + 1, 8) {
                (none, Some(Halt::InputExhausted), m)
            } else if n == 0 {
                (none, None, m)
            } else {
                let idx = usize_at(first, base + 1) as int;
                if idx >= n {
                    (none, Some(Halt::OutOfRange), m)
                } else if op == 0 {
                    (
                        seq![Expect::Removed(m.items[idx])],
                        None,
                        Model { items: m.items.update(idx, m.items.last()).drop_last(), cap: m.cap },
                    )
                } else {
                    (seq![Expect::Removed(m.items[idx])], None, Model { items: m.items.remove(idx), cap: m.cap })
                }
            }
        } else if op == 1 {
            if !fits(first, base + 1, 1) {
                (none, Some(Halt::InputExhausted), m)
            } else {
                match text_of(first, base + 2, (first[base + 1] % 10) as nat) {
                    Err(h) => (none, Some(h), m),
                    Ok(t) => if growth_overflows(n, m.cap, 1, string_size()) {
                        (none, Some(Halt::CapacityOverflow), m)
                    } else {
                        (none, None, Model { items: m.items.push(t), cap: grown(n, m.cap, 1) })
                    },
                }
            }
        } else if op == 2 {
            if n > 0 {
                (seq![Expect::Popped(m.items.last())], None, Model { items: m.items.drop_last(), cap: m.cap })
            } else {
                (none, None, m)
            }
        } else if op == 3 {
            if !fits(first, base + 1, 8) || !fits(first, base + 9, 1) {
                (none, Some(Halt::InputExhausted), m)
            } else {
                match text_of(first, base + 10, (first[base + 9] % 8) as nat) {
                    Err(h) => (none, Some(h), m),
                    Ok(t) => if growth_overflows(n, m.cap, 1, string_size()) {
                        (none, Some(Halt::CapacityOverflow), m)
                    } else if usize_at(first, base + 1) > n {
                        (none, Some(Halt::OutOfRange), m)
                    } else {
                        (none, None, Model {
                            items: m.items.insert(usize_at(first, base + 1) as int, t),
                            cap: grown(n, m.cap, 1),
                        })
                    },
                }
            }
        } else if op == 4 || op == 5 {
            if !fits(first, base + 1, 8) {
                (none, Some(Halt::InputExhausted), m)
            } else {
                let x = usize_at(first, base + 1) as nat;
                if op == 4 {
                    (none, None, Model { items: if x < n { m.items.take(x as int) } else { m.items }, cap: m.cap })
                } else if growth_overflows(n, m.cap, x, string_size()) {
                    (none, Some(Halt::CapacityOverflow), m)
                } else {
                    (none, None, Model { items: m.items, cap: grown(n, m.cap, x) })
                }
            }
        } else if op == 6 {
            (none, None, Model { items: Seq::empty(), cap: m.cap })
        } else if op == 7 {
            (if n > 0 { seq![Expect::First(m.items[0])] } else { none }, None, m)
        } else if op == 9 {
            (none, None, m)
        } else if op == 10 || op == 13 {
            if growth_overflows(0, 15, n, string_size()) {
                (none, Some(Halt::CapacityOverflow), m)
            } else if op == 10 {
                (seq![Expect::ClonedLen(n)], None, m)
            } else {
                (seq![Expect::IntoVecLen(n)], None, m)
            }
        } else if op == 11 {
            if !fits(first, base + 1, 8) || !fits(first, base + 9, 8) {
                (none, Some(Halt::InputExhausted), m)
            } else {
                let start = usize_at(first, base + 1) as int;
                let end = usize_at(first, base + 9) as int;
                if !(start <= end <= n) {
                    (none, Some(Halt::OutOfRange), m)
                } else {
                    (
                        if start < end { seq![Expect::Drained(m.items[start])] } else { none },
                        None,
                        Model { items: m.items.take(start) + m.items.skip(end), cap: m.cap },
                    )
                }
            }
        } else if op == 12 {
            (none, None, Model { items: m.items, cap: if m.cap == 15 || n <= 15 { 15 } else { n } })
        } else {
            (seq![Expect::Capacity(m.cap)], None, m)
        }
    }
}

/// What operations `k` up to `count` do to `m`, in turn, stopping at the
/// first that halts.
pub open spec fn ops_from(first: Seq<u8>, k: nat, count: nat, m: Model) -> (Seq<Expect>, Option<Halt>, Model)
    decreases count - k,
{
    if k >= count {
        (Seq::empty(), None, m)
    } else {
        let s = op_step(first, 50 + 12 * k as int, m);
        if s.1 is Some {
            s
        } else {
            let rest = ops_from(first, k + 1, count, s.2);
            (s.0 + rest.0, rest.1, rest.2)
        }
    }
}

/// The end of a run after its operations `s`: unless one halted, the item
/// that the second half's first `usize` chooses is taken out by
/// `swap_remove`, where any are left.
pub open spec fn finish(second: Seq<u8>, s: (Seq<Expect>, Option<Halt>, Model)) -> (Seq<Expect>, Option<Halt>) {
    if s.1 is Some {
        (s.0, s.1)
    } else {
        let n = s.2.items.len();
        if n == 0 {
            (s.0, None)
        } else if !fits(second, 0, 8) {
            (s.0, Some(Halt::InputExhausted))
        } else if usize_at(second, 0) >= n {
            (s.0, Some(Halt::OutOfRange))
        } else {
            (s.0.push(Expect::Removed(s.2.items[usize_at(second, 0) as int])), None)
        }
    }
}

/// What a whole run is owed, the starting capacity being `open_cap` where
/// the outside crate leaves it open. Inputs shorter than 280 bytes are
/// ignored.
pub open spec fn script_outcome(input_len: nat, first: Seq<u8>, second: Seq<u8>, open_cap: nat) -> (
    Seq<Expect>,
    Option<Halt>,
) {
    if input_len < 280 {
        (Seq::empty(), None)
    } else if !fits(first, 0, 2) {
        (Seq::empty(), Some(Halt::InputExhausted))
    } else {
        match text_of(first, 2, (first[1] % 17) as nat) {
            Err(h) => (Seq::empty(), Some(h)),
            Ok(_) => match initial_items(first) {
                Err(h) => (Seq::empty(), Some(h)),
                Ok(items) => finish(
                    second,
                    ops_from(first, 0, (first[0] % 20 + 5) as nat, Model { items, cap: initial_cap(first, open_cap) }),
                ),
            },
        }
    }
}

/// Runs the operation at `base` on `v`; `spare` is the empty 12-slot vector
/// that `append` moves from.
fn run_op(first: &[u8], base: usize, v: &mut SmallVecString15, spare: &mut SmallVecString12) -> (r: (
    Vec<Event>,
    Option<Halt>,
))
    requires
        old(v).wf(),
        sv_str12_items(*old(spare)) == Seq::<Seq<char>>::empty(),
        base <= 1024,
    ensures
        final(v).wf(),
        sv_str12_items(*final(spare)) == Seq::<Seq<char>>::empty(),
        events_match(r.0@, op_step(first@, base as int, model_of(*old(v))).0),
        r.1 == op_step(first@, base as int, model_of(*old(v))).1,
        model_of(*final(v)) == op_step(first@, base as int, model_of(*old(v))).2,
{
    let ghost m = model_of(*v);
    let mut events: Vec<Event> = Vec::new();
    let n = small_vec_string15_len(v);
    let cap = small_vec_string15_capacity(v);
    let size = core::mem::size_of::<String>();
    let op = match read_u8(first, base) {
        Some(b) => b % 15,
        None => return (events, Some(Halt::InputExhausted)),
    };
    if op == 0 || op == 8 {
        let index = match read_usize(first, base + 1) {
            Some(x) => x,
            None => return (events, Some(Halt::InputExhausted)),
        };
        if n == 0 {
            return (events, None);
        }
        if index >= n {
            return (events, Some(Halt::OutOfRange));
        }
        let removed = if op == 0 {
            small_vec_string15_swap_remove(v, index)
        } else {
            small_vec_string15_remove(v, index)
        };
        events.push(Event::Removed(removed));
        (events, None)
    } else if op == 1 {
        let len = match read_u8(first, base + 1) {
            Some(b) => b % 10,
            None => return (events, Some(Halt::InputExhausted)),
        };
        let text = match read_text(first, base + 2, len as usize) {
            Ok(t) => t,
            Err(h) => return (events, Some(h)),
        };
        if growth_overflows_exec(n, cap, 1, size) {
            return (events, Some(Halt::CapacityOverflow));
        }
        small_vec_string15_push(v, text);
        (events, None)
    } else if op == 2 {
        if let Some(popped) = small_vec_string15_pop(v) {
            events.push(Event::Popped(popped));
        }
        (events, None)
    } else if op == 3 {
        let index = match read_usize(first, base + 1) {
            Some(x) => x,
            None => return (events, Some(Halt::InputExhausted)),
        };
        let len = match read_u8(first, base + 9) {
            Some(b) => b % 8,
            None => return (events, Some(Halt::InputExhausted)),
        };
        let text = match read_text(first, base + 10, len as usize) {
            Ok(t) => t,
            Err(h) => return (events, Some(h)),
        };
        if growth_overflows_exec(n, cap, 1, size) {
            return (events, Some(Halt::CapacityOverflow));
        }
        if index > n {
            return (events, Some(Halt::OutOfRange));
        }
        small_vec_string15_insert(v, index, text);
        (events, None)
    } else if op == 4 || op == 5 {
        let x = match read_usize(first, base + 1) {
            Some(x) => x,
            None => return (events, Some(Halt::InputExhausted)),
        };
        if op == 4 {
            small_vec_string15_truncate(v, x);
        } else {
            if growth_overflows_exec(n, cap, x, size) {
                return (events, Some(Halt::CapacityOverflow));
            }
            small_vec_string15_reserve(v, x);
        }
        (events, None)
    } else if op == 6 {
        small_vec_string15_clear(v);
        proof {
            assert(m.items.take(0) =~= Seq::<Seq<char>>::empty());
        }
        (events, None)
    } else if op == 7 {
        let slice = small_vec_string15_as_slice(v);
        if slice.len() > 0 {
            events.push(Event::First(slice[0].clone()));
        }
        (events, None)
    } else if op == 9 {
        small_vec_string15_append(v, spare);
        proof {
            assert(m.items + Seq::<Seq<char>>::empty() =~= m.items);
        }
        (events, None)
    } else if op == 10 || op == 13 {
        if growth_overflows_exec(0, 15, n, size) {
            return (events, Some(Halt::CapacityOverflow));
        }
        let copy = small_vec_string15_clone(v);
        if op == 10 {
            events.push(Event::ClonedLen(small_vec_string15_len(&copy)));
        } else {
            let as_vec = small_vec_string15_into_vec(copy);
            events.push(Event::IntoVecLen(as_vec.len()));
        }
        (events, None)
    } else if op == 11 {
        let start = match read_usize(first, base + 1) {
            Some(x) => x,
            None => return (events, Some(Halt::InputExhausted)),
        };
        let end = match read_usize(first, base + 9) {
            Some(x) => x,
            None => return (events, Some(Halt::InputExhausted)),
        };
        if !(start <= end && end <= n) {
            return (events, Some(Halt::OutOfRange));
        }
        let mut drained = small_vec_string15_drain(v, start, end);
        assert(texts(drained@).len() == drained@.len());
        if drained.len() > 0 {
            proof {
                assert(texts(drained@)[0] == drained@[0]@);
            }
            let item = drained.remove(0);
            events.push(Event::Drained(item));
        }
        (events, None)
    } else if op == 12 {
        small_vec_string15_shrink_to_fit(v);
        (events, None)
    } else {
        events.push(Event::Capacity(small_vec_string15_capacity(v)));
        (events, None)
    }
}

/// The texts of constructor 1 have one item per text read.
proof fn lemma_strings_len(first: Seq<u8>, i: nat, n: nat)
    ensures
        strings_from(first, i, n) matches Ok(t) ==> t.len() == if i >= n { 0 } else { n - i },
    decreases n - i,
{
    if i < n {
        lemma_strings_len(first, i + 1, n);
    }
}

/// A starting capacity that every input admits.
pub open spec fn some_admissible_cap(first: Seq<u8>) -> nat {
    match initial_items(first) {
        Ok(items) => if items.len() > 15 { items.len() } else { 15 },
        Err(_) => 15,
    }
}

/// Every input admits some starting capacity.
proof fn lemma_some_admissible_cap(first: Seq<u8>)
    ensures
        admissible(first, some_admissible_cap(first)),
{
    if fits(first, 21, 1) {
        lemma_strings_len(first, 0, (first[21] % 12) as nat);
    }
}

/// The end of a run after operations whose events follow `a` is the end
/// after those operations alone, with `a` in front.
proof fn lemma_finish_prefix(second: Seq<u8>, a: Seq<Expect>, x: (Seq<Expect>, Option<Halt>, Model))
    ensures
        finish(second, (a + x.0, x.1, x.2)) == (a + finish(second, x).0, finish(second, x).1),
{
    let f = finish(second, x);
    if x.1 is None && x.2.items.len() > 0 && fits(second, 0, 8) && usize_at(second, 0) < x.2.items.len() {
        let e = Expect::Removed(x.2.items[usize_at(second, 0) as int]);
        assert((a + x.0).push(e) =~= a + x.0.push(e));
    }
}

/// The texts of constructor 1, `n` of them, read into a `Vec`.
fn read_strings(first: &[u8], n: u8) -> (r: Result<Vec<String>, Halt>)
    requires
        n < 12,
    ensures
        match r {
            Ok(v) => strings_from(first@, 0, n as nat) == Ok::<Seq<Seq<char>>, Halt>(texts(v@)),
            Err(h) => strings_from(first@, 0, n as nat) == Err::<Seq<Seq<char>>, Halt>(h),
        },
{
    let mut v: Vec<String> = Vec::new();
    let mut i: u8 = 0;
    while i < n
        invariant
            i <= n < 12,
            strings_from(first@, 0, n as nat) == match strings_from(first@, i as nat, n as nat) {
                Ok(rest) => Ok::<Seq<Seq<char>>, Halt>(texts(v@) + rest),
                Err(h) => Err::<Seq<Seq<char>>, Halt>(h),
            },
        decreases n - i,
    {
        let len = match read_u8(first, 29 + i as usize) {
            Some(b) => b % 8,
            None => return Err(Halt::InputExhausted),
        };
        let text = match read_text(first, 41 + 8 * i as usize, len as usize) {
            Ok(t) => t,
            Err(h) => return Err(h),
        };
        let ghost before = texts(v@);
        let ghost t = text@;
        v.push(text);
        proof {
            assert(texts(v@) =~= before.push(t));
            if let Ok(rest) = strings_from(first@, (i + 1) as nat, n as nat) {
                assert(before + (seq![t] + rest) =~= texts(v@) + rest);
            }
        }
        i = i + 1;
    }
    assert(texts(v@) + Seq::<Seq<char>>::empty() =~= texts(v@));
    Ok(v)
}

/// The vector the script starts from, by the constructor that byte 20
/// chooses.
fn build_initial(first: &[u8]) -> (r: Result<SmallVecString15, Halt>)
    ensures
        match r {
            Ok(v) => v.wf() && initial_items(first@) == Ok::<Seq<Seq<char>>, Halt>(sv_str15_items(v))
                && initial_cap(first@, sv_str15_cap(v)) == sv_str15_cap(v),
            Err(h) => initial_items(first@) == Err::<Seq<Seq<char>>, Halt>(h),
        },
{
    let choice = match read_u8(first, 20) {
        Some(b) => b % 4,
        None => return Err(Halt::InputExhausted),
    };
    let size = core::mem::size_of::<String>();
    if choice == 0 {
        let capacity = match read_usize(first, 21) {
            Some(x) => x,
            None => return Err(Halt::InputExhausted),
        };
        if exact_growth_overflows_exec(0, 15, capacity, size) {
            return Err(Halt::CapacityOverflow);
        }
        Ok(small_vec_string15_with_capacity(capacity))
    } else if choice == 1 {
        let n = match read_u8(first, 21) {
            Some(b) => b % 12,
            None => return Err(Halt::InputExhausted),
        };
        match read_strings(first, n) {
            Ok(vec) => Ok(small_vec_string15_from_vec(vec)),
            Err(h) => Err(h),
        }
    } else if choice == 2 {
        let len = match read_u8(first, 21) {
            Some(b) => b % 8,
            None => return Err(Halt::InputExhausted),
        };
        let elem = match read_text(first, 22, len as usize) {
            Ok(t) => t,
            Err(h) => return Err(h),
        };
        let count = match read_usize(first, 30) {
            Some(x) => x,
            None => return Err(Halt::InputExhausted),
        };
        if exact_growth_overflows_exec(0, 15, count, size) {
            return Err(Halt::CapacityOverflow);
        }
        Ok(small_vec_string15_from_elem(elem, count))
    } else {
        Ok(small_vec_string15_new())
    }
}

/// The events of a run, and why it stopped early, if it did.
pub struct Run {
    pub events: Vec<Event>,
    pub halt: Option<Halt>,
}

/// Runs the script of an input of `input_len` bytes whose halves are `first`
/// and `second`. What it reports is owed for some starting capacity that the
/// input admits: the outside crate fixes that capacity only where it builds
/// the vector itself.
pub fn run(input_len: usize, first: &[u8], second: &[u8]) -> (r: Run)
    ensures
        exists|open_cap: nat|
            #![trigger script_outcome(input_len as nat, first@, second@, open_cap)]
            admissible(first@, open_cap) && events_match(
                r.events@,
                script_outcome(input_len as nat, first@, second@, open_cap).0,
            ) && r.halt == script_outcome(input_len as nat, first@, second@, open_cap).1,
{
    let ghost any_cap = some_admissible_cap(first@);
    proof {
        lemma_some_admissible_cap(first@);
    }
    let mut events: Vec<Event> = Vec::new();
    if input_len < 280 {
        assert(script_outcome(input_len as nat, first@, second@, any_cap).0 =~= Seq::<Expect>::empty());
        return Run { events, halt: None };
    }
    let operations_count = match read_u8(first, 0) {
        Some(b) => b % 20 + 5,
        None => {
            assert(script_outcome(input_len as nat, first@, second@, any_cap).0 =~= Seq::<Expect>::empty());
            return Run { events, halt: Some(Halt::InputExhausted) };
        },
    };
    let name_len = match read_u8(first, 1) {
        Some(b) => b % 17,
        None => {
            assert(script_outcome(input_len as nat, first@, second@, any_cap).0 =~= Seq::<Expect>::empty());
            return Run { events, halt: Some(Halt::InputExhausted) };
        },
    };
    if let Err(h) = read_text(first, 2, name_len as usize) {
        assert(script_outcome(input_len as nat, first@, second@, any_cap).0 =~= Seq::<Expect>::empty());
        return Run { events, halt: Some(h) };
    }
    let mut v = match build_initial(first) {
        Ok(v) => v,
        Err(h) => {
            assert(script_outcome(input_len as nat, first@, second@, any_cap).0 =~= Seq::<Expect>::empty());
            return Run { events, halt: Some(h) };
        },
    };
    let ghost cap = sv_str15_cap(v);
    let ghost count = operations_count as nat;
    let ghost mut owed: Seq<Expect> = Seq::empty();
    let mut spare = small_vec_string12_new();
    assert(admissible(first@, cap));
    assert(owed + finish(second@, ops_from(first@, 0, count, model_of(v))).0 =~= finish(
        second@,
        ops_from(first@, 0, count, model_of(v)),
    ).0);
    let mut op_idx: u8 = 0;
    while op_idx < operations_count
        invariant
            v.wf(),
            sv_str12_items(spare) == Seq::<Seq<char>>::empty(),
            admissible(first@, cap),
            op_idx <= operations_count <= 24,
            count == operations_count as nat,
            events_match(events@, owed),
            script_outcome(input_len as nat, first@, second@, cap) == (
                owed + finish(second@, ops_from(first@, op_idx as nat, count, model_of(v))).0,
                finish(second@, ops_from(first@, op_idx as nat, count, model_of(v))).1,
            ),
        decreases operations_count - op_idx,
    {
        let base = 50 + op_idx as usize * 12;
        let ghost m = model_of(v);
        let (evs, halt) = run_op(first, base, &mut v, &mut spare);
        let ghost o = op_step(first@, base as int, m);
        proof {
            lemma_events_match_append(events@, owed, evs@, o.0);
        }
        let mut evs = evs;
        events.append(&mut evs);
        if halt.is_some() {
            return Run { events, halt };
        }
        proof {
            let rest = ops_from(first@, (op_idx + 1) as nat, count, o.2);
            lemma_finish_prefix(second@, o.0, rest);
            assert(owed + (o.0 + finish(second@, rest).0) =~= (owed + o.0) + finish(second@, rest).0);
            owed = owed + o.0;
        }
        op_idx = op_idx + 1;
    }
    let n = small_vec_string15_len(&v);
    if n == 0 {
        assert(owed + Seq::<Expect>::empty() =~= owed);
        return Run { events, halt: None };
    }
    let index = match read_usize(second, 0) {
        Some(x) => x,
        None => {
            assert(owed + Seq::<Expect>::empty() =~= owed);
            return Run { events, halt: Some(Halt::InputExhausted) };
        },
    };
    if index >= n {
        assert(owed + Seq::<Expect>::empty() =~= owed);
        return Run { events, halt: Some(Halt::OutOfRange) };
    }
    let ghost items = sv_str15_items(v);
    let removed = small_vec_string15_swap_remove(&mut v, index);
    let ghost e = Expect::Removed(items[index as int]);
    proof {
        lemma_events_match_append(events@, owed, seq![Event::Removed(removed)], seq![e]);
        assert(owed + Seq::<Expect>::empty().push(e) =~= owed + seq![e]);
    }
    let mut last = vec![Event::Removed(removed)];
    events.append(&mut last);
    Run { events, halt: None }
}

/// Draining a non-empty read range `start..end` reports the first item that
/// the drain gives, the one at `start` in the vector before it, and leaves
/// the items outside the range, in order.
pub proof fn law_drain_reports_the_item_at_the_start(first: Seq<u8>, base: int, m: Model)
    requires
        fits(first, base, 1),
        first[base] % 15 == 11,
        fits(first, base + 1, 8),
        fits(first, base + 9, 8),
        usize_at(first, base + 1) < usize_at(first, base + 9),
        usize_at(first, base + 9) <= m.items.len(),
    ensures
        op_step(first, base, m).1 is None,
        op_step(first, base, m).0 == seq![Expect::Drained(m.items[usize_at(first, base + 1) as int])],
        op_step(first, base, m).2.items.len() == m.items.len() - (usize_at(first, base + 9) - usize_at(first, base + 1)),
        forall|k: int| 0 <= k < usize_at(first, base + 1) ==> op_step(first, base, m).2.items[k] == m.items[k],
{
}

/// Swap-removing (operation 0) or removing (operation 8) at an index in range
/// reports the item at that index; swap-removal moves the last item there,
/// removal shifts the later items down; either way one item fewer is left.
pub proof fn law_removal_reports_the_item_at_its_index(first: Seq<u8>, base: int, m: Model)
    requires
        fits(first, base, 1),
        first[base] % 15 == 0 || first[base] % 15 == 8,
        fits(first, base + 1, 8),
        usize_at(first, base + 1) < m.items.len(),
    ensures
        ({
            let idx = usize_at(first, base + 1) as int;
            let o = op_step(first, base, m);
            &&& o.1 is None
            &&& o.0 == seq![Expect::Removed(m.items[idx])]
            &&& o.2.items.len() == m.items.len() - 1
            &&& forall|k: int| 0 <= k < idx ==> o.2.items[k] == m.items[k]
            &&& first[base] % 15 == 0 && idx < m.items.len() - 1 ==> o.2.items[idx] == m.items.last()
            &&& first[base] % 15 == 8 ==> forall|k: int| idx <= k < m.items.len() - 1 ==> o.2.items[k] == m.items[k + 1]
        }),
{
}

/// Popping (operation 2) a non-empty vector reports its last item and leaves
/// the others.
pub proof fn law_pop_reports_the_last_item(first: Seq<u8>, base: int, m: Model)
    requires
        fits(first, base, 1),
        first[base] % 15 == 2,
        m.items.len() > 0,
    ensures
        op_step(first, base, m).1 is None,
        op_step(first, base, m).0 == seq![Expect::Popped(m.items[m.items.len() - 1])],
        op_step(first, base, m).2.items =~= m.items.take(m.items.len() - 1),
{
}

} // verus!

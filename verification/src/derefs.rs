//! A script of twenty kinds of operation on small vectors of `u32` of ten
//! inline sizes, each of which reports what the vector dereferences to.
//!
//! The first eight bytes choose how many operations run (0 to 64); the byte
//! at `8 + 8 * k` chooses what operation `k` does, and the operation reads
//! its arguments at fixed places past `8 * k`. A run halts where a read runs
//! past the input, an argument is out of range for the vector, or a size
//! computation overflows.
use vstd::prelude::*;
use crate::fixed::u32n32;
use crate::script::{fits, read_u32, read_u32s, read_u8, read_usize, reads_fit, u32_at, u32s_at, usize_at, Halt};
use crate::small_vec::{exact_growth_overflows, exact_growth_overflows_exec, growth_overflows, growth_overflows_exec, repeat};
use crate::sv_u32;

pub mod u32n12;
pub mod u32n128;
pub mod u32n24;
pub mod u32n256;
pub mod u32n512;
pub mod u32n64;
pub mod u32n8;
pub mod u32n96;

verus! {

/// What the script reports, one value per printed line.
#[derive(Debug, PartialEq, Eq)]
pub enum Event {
    /// The items a vector dereferences to, printed as `[a, b, ...]`.
    U32s(Vec<u32>),
    /// One item.
    U32(u32),
}

/// What the script is owed to report.
pub enum Expect {
    U32s(Seq<u32>),
    U32(u32),
}

/// Whether a reported event is the one that was owed.
pub open spec fn event_matches(e: Event, x: Expect) -> bool {
    match e {
        Event::U32s(v) => x == Expect::U32s(v@),
        Event::U32(n) => x == Expect::U32(n),
    }
}

/// Whether the reported events are, one for one, those owed.
pub open spec fn events_match(a: Seq<Event>, x: Seq<Expect>) -> bool {
    &&& a.len() == x.len()
    &&& forall|i: int| 0 <= i < a.len() ==> #[trigger] event_matches(a[i], x[i])
}

/// Reported events, followed by more, match what was owed followed by more.
proof fn lemma_events_match_append(a: Seq<Event>, x: Seq<Expect>, b: Seq<Event>, y: Seq<Expect>)
    requires
        events_match(a, x),
        events_match(b, y),
    ensures
        events_match(a + b, x + y),
{
    assert forall|i: int| 0 <= i < (a + b).len() implies #[trigger] event_matches((a + b)[i], (x + y)[i]) by {
        if i < a.len() {
            assert(event_matches(a[i], x[i]));
        } else {
            assert(event_matches(b[i - a.len()], y[i - a.len()]));
        }
    }
}

/// What an operation is owed: its events, and why it halts, if it does.
pub type Outcome = (Seq<Expect>, Option<Halt>);

/// An operation that halts with `h` before reporting anything.
pub open spec fn halted(h: Halt) -> Outcome {
    (Seq::empty(), Some(h))
}

/// An operation that reports the items `items` and does not halt.
pub open spec fn shows(items: Seq<u32>) -> Outcome {
    (seq![Expect::U32s(items)], None)
}

/// The size in bytes of an item.
pub open spec fn item_size() -> nat {
    vstd::layout::size_of::<u32>()
}

/// The count read as the `usize` at `at`, modulo 65.
pub open spec fn count_at(g: Seq<u8>, at: int) -> nat {
    (usize_at(g, at) as nat) % 65
}

/// A vector of the items read as a count at `at` and that many `u32` values
/// from `start`, four bytes apart: it reports them.
pub open spec fn read_items(g: Seq<u8>, at: int, start: int) -> Outcome {
    if !fits(g, at, 8) || !reads_fit(g, start, 4, count_at(g, at)) {
        halted(Halt::InputExhausted)
    } else {
        shows(u32s_at(g, start, 4, count_at(g, at)))
    }
}

/// The numbers `0, 1, ...` below `n`.
pub open spec fn first_numbers(n: nat) -> Seq<u32> {
    Seq::new(n, |i: int| i as u32)
}

/// What operation `op` (taken modulo 20) at offset `o` is owed.
pub open spec fn op_step(g: Seq<u8>, o: int, op: u8) -> Outcome {
    if op == 0 {
        // a `SmallVec<[_; 32]>` with a read capacity
        if !fits(g, 16 + o, 8) {
            halted(Halt::InputExhausted)
        } else if exact_growth_overflows(0, 32, usize_at(g, 16 + o) as nat, item_size()) {
            halted(Halt::CapacityOverflow)
        } else {
            shows(Seq::empty())
        }
    } else if op == 1 {
        read_items(g, 24 + o, 32 + o)
    } else if op == 2 {
        // copies of a read item, as many as read; the first of them
        if !fits(g, 40 + o, 4) || !fits(g, 48 + o, 8) {
            halted(Halt::InputExhausted)
        } else if count_at(g, 48 + o) == 0 {
            halted(Halt::OutOfRange)
        } else {
            (seq![Expect::U32(u32_at(g, 40 + o))], None)
        }
    } else if op == 3 {
        if !fits(g, 56 + o, 4) {
            halted(Halt::InputExhausted)
        } else {
            shows(repeat(u32_at(g, 56 + o), 24))
        }
    } else if op == 4 {
        // the first items, as many as read, of an array of twelve copies
        if !fits(g, 64 + o, 4) || !fits(g, 72 + o, 8) {
            halted(Halt::InputExhausted)
        } else if usize_at(g, 72 + o) > 12 {
            halted(Halt::OutOfRange)
        } else {
            shows(repeat(u32_at(g, 64 + o), usize_at(g, 72 + o) as nat))
        }
    } else if op == 5 {
        read_items(g, 80 + o, 88 + o)
    } else if op == 6 {
        read_items(g, 96 + o, 104 + o)
    } else if op == 7 {
        read_items(g, 112 + o, 120 + o)
    } else if op == 8 {
        if !fits(g, 128 + o, 4) {
            halted(Halt::InputExhausted)
        } else {
            (seq![Expect::U32(u32_at(g, 128 + o))], None)
        }
    } else if op == 9 {
        read_items(g, 136 + o, 144 + o)
    } else if op == 10 {
        // a read item inserted before a zero when the read index is zero
        if !fits(g, 152 + o, 8) || !fits(g, 160 + o, 4) {
            halted(Halt::InputExhausted)
        } else if usize_at(g, 152 + o) == 0 {
            shows(seq![u32_at(g, 160 + o), 0u32])
        } else {
            shows(seq![0u32])
        }
    } else if op == 11 {
        read_items(g, 168 + o, 176 + o)
    } else if op == 12 {
        shows(Seq::empty())
    } else if op == 13 {
        // an empty `SmallVec<[_; 512]>` with room reserved for a read count
        if !fits(g, 184 + o, 8) {
            halted(Halt::InputExhausted)
        } else if growth_overflows(0, 512, usize_at(g, 184 + o) as nat, item_size()) {
            halted(Halt::CapacityOverflow)
        } else {
            shows(Seq::empty())
        }
    } else if op == 14 {
        // an empty `SmallVec<[_; 128]>` grown to a read capacity
        if !fits(g, 192 + o, 8) {
            halted(Halt::InputExhausted)
        } else if usize_at(g, 192 + o) > 128 && usize_at(g, 192 + o) * item_size() > isize::MAX {
            halted(Halt::CapacityOverflow)
        } else {
            shows(Seq::empty())
        }
    } else if op == 15 {
        // the numbers below ten, truncated to a read length
        if !fits(g, 200 + o, 8) {
            halted(Halt::InputExhausted)
        } else if usize_at(g, 200 + o) < 10 {
            shows(first_numbers(usize_at(g, 200 + o) as nat))
        } else {
            shows(first_numbers(10))
        }
    } else if op == 16 {
        // resized to a read length with a read item
        if !fits(g, 208 + o, 8) || !fits(g, 216 + o, 4) {
            halted(Halt::InputExhausted)
        } else {
            shows(repeat(u32_at(g, 216 + o), count_at(g, 208 + o)))
        }
    } else if op == 17 {
        read_items(g, 224 + o, 232 + o)
    } else if op == 18 {
        shows(Seq::empty())
    } else {
        if !fits(g, 240 + o, 4) {
            halted(Halt::InputExhausted)
        } else {
            shows(seq![u32_at(g, 240 + o)])
        }
    }
}

/// What operations `k` up to `count` owe, in turn, stopping at the first
/// that halts.
pub open spec fn ops_from(g: Seq<u8>, k: nat, count: nat) -> Outcome
    decreases count - k,
{
    if k >= count {
        (Seq::empty(), None)
    } else if !fits(g, 8 + 8 * k as int, 1) {
        halted(Halt::InputExhausted)
    } else {
        let st = op_step(g, 8 * k as int, g[8 + 8 * k as int] % 20);
        if st.1 is Some {
            st
        } else {
            let rest = ops_from(g, k + 1, count);
            (st.0 + rest.0, rest.1)
        }
    }
}

/// What a whole run is owed. Inputs shorter than 128 bytes are ignored.
pub open spec fn script_outcome(input_len: nat, g: Seq<u8>) -> Outcome {
    if input_len < 128 {
        (Seq::empty(), None)
    } else if !fits(g, 0, 8) {
        halted(Halt::InputExhausted)
    } else {
        ops_from(g, 0, count_at(g, 0))
    }
}

/// A vector that dereferences to `items` reports them.
fn show(items: &[u32]) -> (r: (Vec<Event>, Option<Halt>))
    ensures
        events_match(r.0@, shows(items@).0),
        r.1 == shows(items@).1,
{
    let mut events: Vec<Event> = Vec::new();
    events.push(Event::U32s(vstd::slice::slice_to_vec(items)));
    proof {
        assert(event_matches(events@[0], shows(items@).0[0]));
    }
    (events, None)
}

/// The items read as in `read_items`, or why the reads stop.
fn read_list(g: &[u8], at: usize, start: usize) -> (r: Result<Vec<u32>, Halt>)
    requires
        at <= 1024,
        start <= 1024,
    ensures
        match r {
            Ok(v) => fits(g@, at as int, 8) && reads_fit(g@, start as int, 4, count_at(g@, at as int))
                && v@ == u32s_at(g@, start as int, 4, count_at(g@, at as int)),
            Err(h) => h == Halt::InputExhausted && !(fits(g@, at as int, 8) && reads_fit(
                g@,
                start as int,
                4,
                count_at(g@, at as int),
            )),
        },
{
    let n = match read_usize(g, at) {
        Some(x) => x % 65,
        None => return Err(Halt::InputExhausted),
    };
    match read_u32s(g, start, 4, n) {
        Some(v) => Ok(v),
        None => Err(Halt::InputExhausted),
    }
}

/// A read list of items reported through a vector (operations 1, 5, 6, 7,
/// 9, 11 and 17 differ only in how the vector is made).
fn run_listed(g: &[u8], o: usize, op: u8) -> (r: (Vec<Event>, Option<Halt>))
    requires
        o <= 512,
        op == 1 || op == 5 || op == 6 || op == 7 || op == 9 || op == 11 || op == 17,
    ensures
        events_match(r.0@, op_step(g@, o as int, op).0),
        r.1 == op_step(g@, o as int, op).1,
{
    let z = core::mem::size_of::<u32>();
    proof {
        broadcast use vstd::layout::layout_of_primitives;
    }
    let (at, start) = if op == 1 {
        (24 + o, 32 + o)
    } else if op == 5 {
        (80 + o, 88 + o)
    } else if op == 6 {
        (96 + o, 104 + o)
    } else if op == 7 {
        (112 + o, 120 + o)
    } else if op == 9 {
        (136 + o, 144 + o)
    } else if op == 11 {
        (168 + o, 176 + o)
    } else {
        (224 + o, 232 + o)
    };
    let items = match read_list(g, at, start) {
        Ok(v) => v,
        Err(h) => return (Vec::new(), Some(h)),
    };
    if op == 1 {
        let v = sv_u32::small_vec_u32_from_vec(items);
        show(sv_u32::small_vec_u32_deref(&v))
    } else if op == 5 {
        let v = u32n128::small_vec_u32n128_from_slice(items.as_slice());
        show(u32n128::small_vec_u32n128_deref(&v))
    } else if op == 6 {
        let v = u32n256::small_vec_u32n256_from_iter(items);
        show(u32n256::small_vec_u32n256_deref(&v))
    } else if op == 7 {
        let mut v = u32n64::small_vec_u32n64_new();
        let mut k: usize = 0;
        while k < items.len()
            invariant
                k <= items@.len() <= 64,
                v.wf(),
                u32n64::sv_u32n64_cap(v) == 64,
                u32n64::sv_u32n64_items(v) == items@.take(k as int),
            decreases items.len() - k,
        {
            u32n64::small_vec_u32n64_push(&mut v, items[k]);
            k = k + 1;
            assert(u32n64::sv_u32n64_items(v) =~= items@.take(k as int));
        }
        assert(items@.take(items@.len() as int) =~= items@);
        show(u32n64::small_vec_u32n64_deref(&v))
    } else if op == 9 {
        let mut v = sv_u32::small_vec_u32_new();
        proof {
            crate::small_vec::lemma_small_growth_sized(0, 16, items@.len(), 4);
        }
        sv_u32::small_vec_u32_extend(&mut v, items);
        show(sv_u32::small_vec_u32_deref(&v))
    } else if op == 11 {
        let mut v = u32n8::small_vec_u32n8_new();
        let mut k: usize = 0;
        while k < items.len()
            invariant
                k <= items@.len() <= 64,
                v.wf(),
                z == 4,
                u32n8::sv_u32n8_items(v) == items@.take(k as int),
            decreases items.len() - k,
        {
            proof {
                crate::small_vec::lemma_small_push(k as nat, u32n8::sv_u32n8_cap(v), z as nat);
            }
            u32n8::small_vec_u32n8_push(&mut v, items[k]);
            k = k + 1;
            assert(u32n8::sv_u32n8_items(v) =~= items@.take(k as int));
        }
        assert(items@.take(items@.len() as int) =~= items@);
        proof {
            crate::small_vec::lemma_small_growth_sized(0, 8, items@.len(), z as nat);
        }
        let c = u32n8::small_vec_u32n8_clone(&v);
        show(u32n8::small_vec_u32n8_deref(&c))
    } else {
        let mut v = u32n32::small_vec_u32n32_new();
        proof {
            crate::small_vec::lemma_small_growth_sized(0, 32, items@.len(), z as nat);
        }
        u32n32::small_vec_u32n32_extend_from_slice(&mut v, items.as_slice());
        show(u32n32::small_vec_u32n32_deref(&v))
    }
}

/// Operations other than those of `run_listed`.
#[verifier::rlimit(30)]
fn run_other(g: &[u8], o: usize, op: u8) -> (r: (Vec<Event>, Option<Halt>))
    requires
        o <= 512,
        op < 20,
        !(op == 1 || op == 5 || op == 6 || op == 7 || op == 9 || op == 11 || op == 17),
    ensures
        events_match(r.0@, op_step(g@, o as int, op).0),
        r.1 == op_step(g@, o as int, op).1,
{
    let z = core::mem::size_of::<u32>();
    proof {
        broadcast use vstd::layout::layout_of_primitives;
    }
    if op == 0 {
        let cap = match read_usize(g, 16 + o) {
            Some(x) => x,
            None => return (Vec::new(), Some(Halt::InputExhausted)),
        };
        if exact_growth_overflows_exec(0, 32, cap, z) {
            return (Vec::new(), Some(Halt::CapacityOverflow));
        }
        let v = u32n32::small_vec_u32n32_with_capacity(cap);
        show(u32n32::small_vec_u32n32_deref(&v))
    } else if op == 2 {
        let elem = match read_u32(g, 40 + o) {
            Some(x) => x,
            None => return (Vec::new(), Some(Halt::InputExhausted)),
        };
        let count = match read_usize(g, 48 + o) {
            Some(x) => x % 65,
            None => return (Vec::new(), Some(Halt::InputExhausted)),
        };
        let v = u32n64::small_vec_u32n64_from_elem(elem, count);
        let d = u32n64::small_vec_u32n64_deref(&v);
        if d.len() == 0 {
            return (Vec::new(), Some(Halt::OutOfRange));
        }
        let mut events: Vec<Event> = Vec::new();
        events.push(Event::U32(d[0]));
        proof {
            assert(event_matches(events@[0], op_step(g@, o as int, op).0[0]));
        }
        (events, None)
    } else if op == 3 {
        let x = match read_u32(g, 56 + o) {
            Some(x) => x,
            None => return (Vec::new(), Some(Halt::InputExhausted)),
        };
        let arr: [u32; 24] = [x; 24];
        assert(arr@ =~= repeat(x, 24));
        let v = u32n24::small_vec_u32n24_from_buf(arr);
        show(u32n24::small_vec_u32n24_deref(&v))
    } else if op == 4 {
        let x = match read_u32(g, 64 + o) {
            Some(x) => x,
            None => return (Vec::new(), Some(Halt::InputExhausted)),
        };
        let len = match read_usize(g, 72 + o) {
            Some(n) => n,
            None => return (Vec::new(), Some(Halt::InputExhausted)),
        };
        let arr: [u32; 12] = [x; 12];
        if len > 12 {
            return (Vec::new(), Some(Halt::OutOfRange));
        }
        let v = u32n12::small_vec_u32n12_from_buf_and_len(arr, len);
        assert(arr@.take(len as int) =~= repeat(x, len as nat));
        show(u32n12::small_vec_u32n12_deref(&v))
    } else if op == 8 {
        let mut v = u32n32::small_vec_u32n32_new();
        let elem = match read_u32(g, 128 + o) {
            Some(x) => x,
            None => return (Vec::new(), Some(Halt::InputExhausted)),
        };
        u32n32::small_vec_u32n32_push(&mut v, elem);
        let d = u32n32::small_vec_u32n32_deref(&v);
        let mut events: Vec<Event> = Vec::new();
        events.push(Event::U32(d[0]));
        proof {
            assert(event_matches(events@[0], op_step(g@, o as int, op).0[0]));
        }
        (events, None)
    } else if op == 10 {
        let mut v = u32n24::small_vec_u32n24_new();
        let idx = match read_usize(g, 152 + o) {
            Some(x) => x,
            None => return (Vec::new(), Some(Halt::InputExhausted)),
        };
        let val = match read_u32(g, 160 + o) {
            Some(x) => x,
            None => return (Vec::new(), Some(Halt::InputExhausted)),
        };
        u32n24::small_vec_u32n24_push(&mut v, 0);
        if idx < u32n24::small_vec_u32n24_len(&v) {
            u32n24::small_vec_u32n24_insert(&mut v, idx, val);
        }
        assert(u32n24::sv_u32n24_items(v) =~= (if idx == 0 { seq![val, 0u32] } else { seq![0u32] }));
        show(u32n24::small_vec_u32n24_deref(&v))
    } else if op == 12 {
        let v = u32n96::small_vec_u32n96_new();
        let _whole = u32n96::small_vec_u32n96_as_slice(&v);
        show(u32n96::small_vec_u32n96_deref(&v))
    } else if op == 13 {
        let mut v = u32n512::small_vec_u32n512_new();
        let r = match read_usize(g, 184 + o) {
            Some(x) => x,
            None => return (Vec::new(), Some(Halt::InputExhausted)),
        };
        if growth_overflows_exec(0, 512, r, z) {
            return (Vec::new(), Some(Halt::CapacityOverflow));
        }
        u32n512::small_vec_u32n512_reserve(&mut v, r);
        show(u32n512::small_vec_u32n512_deref(&v))
    } else if op == 14 {
        let mut v = u32n128::small_vec_u32n128_new();
        let n = match read_usize(g, 192 + o) {
            Some(x) => x,
            None => return (Vec::new(), Some(Halt::InputExhausted)),
        };
        let lim = (isize::MAX as usize) / z;
        assert((n > lim) == (n * z > isize::MAX)) by (nonlinear_arith)
            requires
                z > 0,
                lim == isize::MAX as int / z as int,
        ;
        if n > 128 && n > lim {
            return (Vec::new(), Some(Halt::CapacityOverflow));
        }
        u32n128::small_vec_u32n128_grow(&mut v, n);
        show(u32n128::small_vec_u32n128_deref(&v))
    } else if op == 15 {
        let mut v = u32n256::small_vec_u32n256_new();
        let t = match read_usize(g, 200 + o) {
            Some(x) => x,
            None => return (Vec::new(), Some(Halt::InputExhausted)),
        };
        let mut k: u32 = 0;
        while k < 10
            invariant
                k <= 10,
                v.wf(),
                u32n256::sv_u32n256_cap(v) == 256,
                u32n256::sv_u32n256_items(v) == first_numbers(k as nat),
            decreases 10 - k,
        {
            u32n256::small_vec_u32n256_push(&mut v, k);
            k = k + 1;
            assert(u32n256::sv_u32n256_items(v) =~= first_numbers(k as nat));
        }
        u32n256::small_vec_u32n256_truncate(&mut v, t);
        assert(t < 10 ==> first_numbers(10).take(t as int) =~= first_numbers(t as nat));
        show(u32n256::small_vec_u32n256_deref(&v))
    } else if op == 16 {
        let mut v = u32n64::small_vec_u32n64_new();
        let n = match read_usize(g, 208 + o) {
            Some(x) => x % 65,
            None => return (Vec::new(), Some(Halt::InputExhausted)),
        };
        let val = match read_u32(g, 216 + o) {
            Some(x) => x,
            None => return (Vec::new(), Some(Halt::InputExhausted)),
        };
        u32n64::small_vec_u32n64_resize(&mut v, n, val);
        assert(Seq::<u32>::empty() + repeat(val, n as nat) =~= repeat(val, n as nat));
        assert(n == 0 ==> Seq::<u32>::empty().take(0) =~= repeat(val, 0));
        show(u32n64::small_vec_u32n64_deref(&v))
    } else if op == 18 {
        let a = sv_u32::small_vec_u32_new();
        let b = sv_u32::small_vec_u32_new();
        let _order = sv_u32::small_vec_u32_compare(&a, &b);
        show(sv_u32::small_vec_u32_deref(&a))
    } else {
        let mut v = u32n8::small_vec_u32n8_new();
        let x = match read_u32(g, 240 + o) {
            Some(x) => x,
            None => return (Vec::new(), Some(Halt::InputExhausted)),
        };
        u32n8::small_vec_u32n8_push(&mut v, x);
        assert(u32n8::sv_u32n8_items(v) =~= seq![x]);
        show(u32n8::small_vec_u32n8_deref(&v))
    }
}

/// Where operation `k` runs without halting, the run owes its events
/// followed by what the later operations owe.
proof fn lemma_ops_continue(g: Seq<u8>, k: nat, count: nat)
    requires
        k < count,
        fits(g, 8 + 8 * k as int, 1),
        op_step(g, 8 * k as int, g[8 + 8 * k as int] % 20).1 is None,
    ensures
        ops_from(g, k, count) == (
            op_step(g, 8 * k as int, g[8 + 8 * k as int] % 20).0 + ops_from(g, k + 1, count).0,
            ops_from(g, k + 1, count).1,
        ),
{
}

/// The events of a run, and why it stopped early, if it did.
pub struct Run {
    pub events: Vec<Event>,
    pub halt: Option<Halt>,
}

/// Runs the script of an input of `input_len` bytes whose first half is
/// `first`.
pub fn run(input_len: usize, first: &[u8]) -> (r: Run)
    ensures
        events_match(r.events@, script_outcome(input_len as nat, first@).0),
        r.halt == script_outcome(input_len as nat, first@).1,
{
    let mut events: Vec<Event> = Vec::new();
    let ghost g = first@;
    if input_len < 128 {
        assert(script_outcome(input_len as nat, g).0 =~= Seq::<Expect>::empty());
        return Run { events, halt: None };
    }
    let count = match read_usize(first, 0) {
        Some(x) => x % 65,
        None => {
            assert(script_outcome(input_len as nat, g).0 =~= Seq::<Expect>::empty());
            return Run { events, halt: Some(Halt::InputExhausted) };
        },
    };
    let ghost n = count as nat;
    let ghost mut owed = Seq::<Expect>::empty();
    assert(owed + ops_from(g, 0, n).0 =~= ops_from(g, 0, n).0);
    let mut i: usize = 0;
    while i < count
        invariant
            i <= count < 65,
            input_len >= 128,
            g == first@,
            fits(g, 0, 8),
            n == count as nat,
            n == count_at(g, 0),
            events_match(events@, owed),
            script_outcome(input_len as nat, g) == (owed + ops_from(g, i as nat, n).0, ops_from(g, i as nat, n).1),
        decreases count - i,
    {
        let op = match read_u8(first, 8 + 8 * i) {
            Some(x) => x % 20,
            None => {
                proof {
                    assert(owed + Seq::<Expect>::empty() =~= owed);
                }
                return Run { events, halt: Some(Halt::InputExhausted) };
            },
        };
        let (evs, halt) = if op == 1 || op == 5 || op == 6 || op == 7 || op == 9 || op == 11 || op == 17 {
            run_listed(first, 8 * i, op)
        } else {
            run_other(first, 8 * i, op)
        };
        let ghost st = op_step(g, 8 * i as int, op);
        proof {
            lemma_events_match_append(events@, owed, evs@, st.0);
        }
        let mut evs = evs;
        events.append(&mut evs);
        if halt.is_some() {
            return Run { events, halt };
        }
        proof {
            lemma_ops_continue(g, i as nat, n);
            assert(owed + (st.0 + ops_from(g, (i + 1) as nat, n).0) =~= (owed + st.0) + ops_from(g, (i + 1) as nat, n).0);
            owed = owed + st.0;
        }
        i = i + 1;
    }
    proof {
        assert(owed + Seq::<Expect>::empty() =~= owed);
    }
    Run { events, halt: None }
}

/// Operation 2 reports, when at least one copy is made, the first copy: the
/// item read at `40 + o`; with none there is no first item.
pub proof fn law_first_copy_is_the_read_item(g: Seq<u8>, o: int)
    requires
        fits(g, 40 + o, 4),
        fits(g, 48 + o, 8),
    ensures
        count_at(g, 48 + o) > 0 ==> op_step(g, o, 2) == (seq![Expect::U32(u32_at(g, 40 + o))], None::<Halt>),
        count_at(g, 48 + o) == 0 ==> op_step(g, o, 2) == halted(Halt::OutOfRange),
{
}

/// Operation 10 inserts the read item before the zero exactly when the read
/// index is zero; otherwise the vector holds the zero alone.
pub proof fn law_insert_before_the_zero_only_at_index_zero(g: Seq<u8>, o: int)
    requires
        fits(g, 152 + o, 8),
        fits(g, 160 + o, 4),
    ensures
        usize_at(g, 152 + o) == 0 ==> op_step(g, o, 10) == shows(seq![u32_at(g, 160 + o), 0u32]),
        usize_at(g, 152 + o) != 0 ==> op_step(g, o, 10) == shows(seq![0u32]),
{
}

/// Operation 15 reports the numbers below ten, in order, up to the read
/// length.
pub proof fn law_truncation_keeps_the_first_numbers(g: Seq<u8>, o: int)
    requires
        fits(g, 200 + o, 8),
    ensures
        op_step(g, o, 15).1 is None,
        op_step(g, o, 15).0[0] matches Expect::U32s(v) && v.len() == (if usize_at(g, 200 + o) < 10 {
            usize_at(g, 200 + o) as int
        } else {
            10
        }) && forall|j: int| 0 <= j < v.len() ==> v[j] == j,
{
}

} // verus!

//! A script of six kinds of operation on slabs of the outside crate
//! `simple_slab`, the `k`th operation reading its arguments from byte
//! `8 * k` on: items are inserted, then listed, and some are looked up or
//! removed.
use vstd::prelude::*;
use crate::cursor::{bools_at, i64s_at};
use crate::medley::reads_ok;
use crate::script::{
    char_halt, fits, i32s_at, read_bool, read_char, read_i32, read_i64, read_u8, read_usize, usize_at, Halt,
};
use crate::survey::bytes_at;
use crate::bytes::be_u32;
use crate::slabs::{
    slab_bytes_cap, slab_bytes_contents, slab_bytes_get, slab_bytes_insert, slab_bytes_items, slab_bytes_len,
    slab_bytes_new, slab_bytes_wf, slab_flags_contents, slab_flags_insert, slab_flags_items, slab_flags_len,
    slab_flags_wf, slab_flags_with_capacity, slab_grown, slab_i32s_contents, slab_i32s_insert, slab_i32s_items,
    slab_i32s_len, slab_i32s_remove, slab_i32s_wf, slab_i32s_with_capacity, slab_i64s_contents, slab_i64s_insert,
    slab_i64s_items, slab_i64s_len, slab_i64s_new, slab_i64s_wf, slab_texts_cap, slab_texts_contents,
    slab_texts_insert, slab_texts_items, slab_texts_len, slab_texts_new, slab_texts_wf, slab_texts_with_capacity,
};

verus! {

/// What the script reports, one value per printed line.
#[derive(Debug, PartialEq, Eq)]
pub enum Event {
    /// An item of the slab of labels, printed as `CustomType0(..)`.
    Label(String),
    /// An item of the slab of numbers, printed as `CustomType1(..)`.
    Number(i32),
    /// An item of the slab of byte vectors, printed as `CustomType2(..)`.
    Bytes(Vec<u8>),
    /// A text of one character, printed with `{:?}`.
    CharText(String),
    I64(i64),
    /// The operation on floating-point items whose arguments start at the
    /// given position, left to the caller.
    FloatOp(usize),
    Bool(bool),
}

/// What the script is owed to report; a one-character text is owed by the
/// code of its character.
pub enum Expect {
    Label(Seq<char>),
    Number(i32),
    Bytes(Seq<u8>),
    CharText(u32),
    I64(i64),
    FloatOp(nat),
    Bool(bool),
}

/// Whether a reported event is the one that was owed.
pub open spec fn event_matches(e: Event, x: Expect) -> bool {
    match e {
        Event::Label(s) => x == Expect::Label(s@),
        Event::Number(v) => x == Expect::Number(v),
        Event::Bytes(v) => x == Expect::Bytes(v@),
        Event::CharText(s) => s@.len() == 1 && x == Expect::CharText(s@[0] as u32),
        Event::I64(v) => x == Expect::I64(v),
        Event::FloatOp(b) => x == Expect::FloatOp(b as nat),
        Event::Bool(b) => x == Expect::Bool(b),
    }
}

/// Whether the reported events are, one for one, those owed.
pub open spec fn events_match(a: Seq<Event>, x: Seq<Expect>) -> bool {
    &&& a.len() == x.len()
    &&& forall|i: int| 0 <= i < a.len() ==> #[trigger] event_matches(a[i], x[i])
}

/// Reported events, followed by more, match what was owed followed by more.
proof fn lemma_events_match_append(a: Seq<Event>, x: Seq<Expect>, b: Seq<Event>, y: Seq<Expect>)
    requires
        events_match(a, x),
        events_match(b, y),
    ensures
        events_match(a + b, x + y),
{
    assert forall|i: int| 0 <= i < (a + b).len() implies #[trigger] event_matches((a + b)[i], (x + y)[i]) by {
        if i < a.len() {
            assert(event_matches(a[i], x[i]));
        } else {
            assert(event_matches(b[i - a.len()], y[i - a.len()]));
        }
    }
}

/// What an operation is owed: its events, and why it halts, if it does.
pub type Outcome = (Seq<Expect>, Option<Halt>);

/// An operation that halts with `h` before reporting anything.
pub open spec fn halted(h: Halt) -> Outcome {
    (Seq::empty(), Some(h))
}

/// An operation that reports `events` and does not halt.
pub open spec fn done(events: Seq<Expect>) -> Outcome {
    (events, None)
}

/// The character of the decimal digit `d`.
pub open spec fn digit_char(d: nat) -> char {
    (48 + d) as char
}

/// The decimal digits of `n`.
pub open spec fn decimal(n: nat) -> Seq<char>
    decreases n,
{
    if n < 10 {
        seq![digit_char(n)]
    } else {
        decimal(n / 10).push(digit_char(n % 10))
    }
}

/// The label of the `i`th item of operation 0.
pub open spec fn label(i: nat) -> Seq<char> {
    "item_"@ + decimal(i)
}

/// Why asking for a buffer of `cap` items of `size` bytes stops the run: the
/// size computation overflows, or the request exceeds `isize::MAX` bytes.
pub open spec fn alloc_halt(cap: nat, size: nat) -> Option<Halt> {
    if cap * size > usize::MAX {
        Some(Halt::ArithmeticOverflow)
    } else if cap * size > isize::MAX {
        Some(Halt::AllocationRefused)
    } else {
        None
    }
}

/// Whether inserting onto `len` items in capacity `cap` asks for a buffer
/// beyond `isize::MAX` bytes.
pub open spec fn insert_refused(len: nat, cap: nat, size: nat) -> bool {
    slab_grown(len, cap) * size > isize::MAX
}

/// The capacity after `n` insertions onto `len` items in capacity `cap`, or
/// `None` where one of them is refused.
pub open spec fn grown_by(len: nat, cap: nat, size: nat, n: nat) -> Option<nat>
    decreases n,
{
    if n == 0 {
        Some(cap)
    } else {
        match grown_by(len, cap, size, (n - 1) as nat) {
            None => None,
            Some(c) => if insert_refused((len + n - 1) as nat, c, size) {
                None
            } else {
                Some(slab_grown((len + n - 1) as nat, c))
            },
        }
    }
}

/// Operation 0: a slab of labelled items made empty or with a read
/// capacity, as a read flag says; a read number of labels inserted, then
/// listed.
pub open spec fn op_0(g: Seq<u8>, b: int) -> Outcome {
    let size = vstd::layout::size_of::<String>();
    if !fits(g, b + 1, 8) || !fits(g, b + 9, 1) {
        halted(Halt::InputExhausted)
    } else {
        let fresh = g[b + 9] % 2 == 0;
        let cap: nat = if fresh { 1 } else { usize_at(g, b + 1) as nat };
        if !fresh && alloc_halt(cap, size) is Some {
            halted(alloc_halt(cap, size).unwrap())
        } else if !fits(g, b + 10, 8) {
            halted(Halt::InputExhausted)
        } else {
            let n = usize_at(g, b + 10) as nat % 32;
            if grown_by(0, cap, size, n) is None {
                halted(Halt::AllocationRefused)
            } else {
                done(Seq::new(n, |i: int| Expect::Label(label(i as nat))))
            }
        }
    }
}

/// Operation 1: a slab of numbers with a read capacity, read numbers
/// inserted and listed; where there are any, the one at a read offset is
/// removed and reported, if the offset is in range.
pub open spec fn op_1(g: Seq<u8>, b: int) -> Outcome {
    if !fits(g, b + 1, 8) {
        halted(Halt::InputExhausted)
    } else if alloc_halt(usize_at(g, b + 1) as nat, 4) is Some {
        halted(alloc_halt(usize_at(g, b + 1) as nat, 4).unwrap())
    } else if !fits(g, b + 9, 8) {
        halted(Halt::InputExhausted)
    } else {
        let n = usize_at(g, b + 9) as nat % 45;
        if !reads_ok(g, b + 10, 4, 4, n) {
            halted(Halt::InputExhausted)
        } else {
            let items = i32s_at(g, b + 10, 4, n);
            let shown = items.map_values(|x: i32| Expect::Number(x));
            if n == 0 {
                done(shown)
            } else if !fits(g, b + 200, 8) {
                (shown, Some(Halt::InputExhausted))
            } else {
                let r = usize_at(g, b + 200) as nat;
                done(if r < n { shown.push(Expect::Number(items[r as int])) } else { shown })
            }
        }
    }
}

/// The byte vectors that the first `k` rounds of operation 2 insert into a
/// new slab, and its capacity then: round `i` reads a length below 15 at
/// `b + 9 + i` and that many bytes at `b + 50`.
pub open spec fn vecs_2(g: Seq<u8>, b: int, k: nat) -> Result<(Seq<Seq<u8>>, nat), Halt>
    decreases k,
{
    if k == 0 {
        Ok((Seq::empty(), 1))
    } else {
        match vecs_2(g, b, (k - 1) as nat) {
            Err(h) => Err(h),
            Ok(t) => {
                let i = k - 1;
                if !fits(g, b + 9 + i, 8) {
                    Err(Halt::InputExhausted)
                } else {
                    let m = usize_at(g, b + 9 + i) as nat % 15;
                    if !reads_ok(g, b + 50, 1, 1, m) {
                        Err(Halt::InputExhausted)
                    } else if insert_refused(i as nat, t.1, vstd::layout::size_of::<Vec<u8>>()) {
                        Err(Halt::AllocationRefused)
                    } else {
                        Ok((t.0.push(bytes_at(g, b + 50, m)), slab_grown(i as nat, t.1)))
                    }
                }
            },
        }
    }
}

/// Operation 2: a new slab of byte vectors, a read number of them inserted;
/// the one at a read index if it is in range, then all of them.
pub open spec fn op_2(g: Seq<u8>, b: int) -> Outcome {
    if !fits(g, b + 1, 8) {
        halted(Halt::InputExhausted)
    } else {
        let n = usize_at(g, b + 1) as nat % 20;
        match vecs_2(g, b, n) {
            Err(h) => halted(h),
            Ok(t) => {
                let all = t.0.map_values(|v: Seq<u8>| Expect::Bytes(v));
                if n == 0 {
                    done(all)
                } else if !fits(g, b + 100, 8) {
                    halted(Halt::InputExhausted)
                } else {
                    let at = usize_at(g, b + 100) as nat;
                    done(if at < n { seq![Expect::Bytes(t.0[at as int])] + all } else { all })
                }
            },
        }
    }
}

/// Where the first `k` rounds of operation 3 stop the run, if they do:
/// round `i` reads a character at `b + 20 + 4 * i` and inserts its text into
/// a slab of capacity `cap` at first.
pub open spec fn chars_3(g: Seq<u8>, b: int, cap: nat, k: nat) -> Result<nat, Halt>
    decreases k,
{
    if k == 0 {
        Ok(cap)
    } else {
        match chars_3(g, b, cap, (k - 1) as nat) {
            Err(h) => Err(h),
            Ok(c) => {
                let i = k - 1;
                match char_halt(g, b + 20 + 4 * i) {
                    Some(h) => Err(h),
                    None => if insert_refused(i as nat, c, vstd::layout::size_of::<String>()) {
                        Err(Halt::AllocationRefused)
                    } else {
                        Ok(slab_grown(i as nat, c))
                    },
                }
            },
        }
    }
}

/// Operation 3: a slab of texts with a read capacity, one-character texts
/// of read characters inserted, and a new slab of read `i64` values; the
/// texts, then the values.
pub open spec fn op_3(g: Seq<u8>, b: int) -> Outcome {
    let size = vstd::layout::size_of::<String>();
    if !fits(g, b + 1, 8) {
        halted(Halt::InputExhausted)
    } else if alloc_halt(usize_at(g, b + 1) as nat, size) is Some {
        halted(alloc_halt(usize_at(g, b + 1) as nat, size).unwrap())
    } else if !fits(g, b + 9, 8) {
        halted(Halt::InputExhausted)
    } else {
        let n = usize_at(g, b + 9) as nat % 20;
        match chars_3(g, b, usize_at(g, b + 1) as nat, n) {
            Err(h) => halted(h),
            Ok(_) => if !fits(g, b + 100, 8) {
                halted(Halt::InputExhausted)
            } else {
                let m = usize_at(g, b + 100) as nat % 30;
                if !reads_ok(g, b + 120, 8, 8, m) {
                    halted(Halt::InputExhausted)
                } else {
                    done(
                        Seq::new(n, |i: int| Expect::CharText(be_u32(g, b + 20 + 4 * i) as u32)) + i64s_at(
                            g,
                            b + 120,
                            m,
                        ).map_values(|x: i64| Expect::I64(x)),
                    )
                }
            },
        }
    }
}

/// Operation 5 (and any other number): a slab of flags with a read
/// capacity, read flags inserted and listed.
pub open spec fn op_5(g: Seq<u8>, b: int) -> Outcome {
    if !fits(g, b + 1, 8) {
        halted(Halt::InputExhausted)
    } else if alloc_halt(usize_at(g, b + 1) as nat, 1) is Some {
        halted(alloc_halt(usize_at(g, b + 1) as nat, 1).unwrap())
    } else if !fits(g, b + 9, 8) {
        halted(Halt::InputExhausted)
    } else {
        let n = usize_at(g, b + 9) as nat % 40;
        if !reads_ok(g, b + 20, 1, 1, n) {
            halted(Halt::InputExhausted)
        } else {
            done(bools_at(g, b + 20, n).map_values(|x: bool| Expect::Bool(x)))
        }
    }
}

/// What operation `op` at `b` is owed.
#[verifier::opaque]
pub open spec fn op_step(g: Seq<u8>, op: u8, b: int) -> Outcome {
    if op == 0 {
        op_0(g, b)
    } else if op == 1 {
        op_1(g, b)
    } else if op == 2 {
        op_2(g, b)
    } else if op == 3 {
        op_3(g, b)
    } else if op == 4 {
        done(seq![Expect::FloatOp(b as nat)])
    } else {
        op_5(g, b)
    }
}

/// What operations `k` up to `count` owe, in turn, stopping at the first
/// that halts.
pub open spec fn ops_from(g: Seq<u8>, k: nat, count: nat) -> Outcome
    decreases count - k,
{
    if k >= count {
        (Seq::empty(), None)
    } else if !fits(g, 8 * k as int, 1) {
        halted(Halt::InputExhausted)
    } else {
        let st = op_step(g, g[8 * k as int] % 6, 8 * k as int);
        if st.1 is Some {
            st
        } else {
            let rest = ops_from(g, k + 1, count);
            (st.0 + rest.0, rest.1)
        }
    }
}

/// What a whole run is owed. Inputs shorter than 256 bytes are ignored.
pub open spec fn script_outcome(input_len: nat, g: Seq<u8>) -> Outcome {
    if input_len < 256 {
        (Seq::empty(), None)
    } else if !fits(g, 0, 8) {
        halted(Halt::InputExhausted)
    } else {
        ops_from(g, 0, usize_at(g, 0) as nat % 65)
    }
}


/// `format!("item_{}", i)`: the label of the `i`th item.
#[verifier::external_body]
fn item_label(i: usize) -> (r: String)
    ensures
        r@ == label(i as nat),
{
    format!("item_{}", i)
}

/// `ToString::to_string` on a character: the text of that one character.
#[verifier::external_body]
fn char_text(c: char) -> (r: String)
    ensures
        r@ == seq![c],
{
    c.to_string()
}

/// Why asking for a buffer of `cap` items of `size` bytes stops the run, if
/// it does (see `alloc_halt`).
fn alloc_check(cap: usize, size: usize) -> (r: Option<Halt>)
    ensures
        r == alloc_halt(cap as nat, size as nat),
{
    if size == 0 {
        assert(cap * size == 0);
        return None;
    }
    let most = usize::MAX / size;
    if cap > most {
        assert(cap * size > usize::MAX) by (nonlinear_arith)
            requires
                cap > most,
                most == usize::MAX / size,
                size > 0,
        ;
        return Some(Halt::ArithmeticOverflow);
    }
    assert(cap * size <= usize::MAX) by (nonlinear_arith)
        requires
            cap <= most,
            most == usize::MAX / size,
            size > 0,
    ;
    let bytes = cap * size;
    if bytes > isize::MAX as usize {
        Some(Halt::AllocationRefused)
    } else {
        None
    }
}

/// Whether inserting onto `len` items in capacity `cap` asks for a buffer
/// beyond `isize::MAX` bytes (see `insert_refused`).
fn refused(len: usize, cap: usize, size: usize) -> (r: bool)
    requires
        len <= cap,
        cap * size <= isize::MAX,
    ensures
        r == insert_refused(len as nat, cap as nat, size as nat),
{
    if len != cap {
        assert(slab_grown(len as nat, cap as nat) == cap);
        false
    } else if cap == 0 {
        assert(slab_grown(len as nat, cap as nat) == 1);
        assert(slab_grown(len as nat, cap as nat) * size == size) by (nonlinear_arith)
            requires
                slab_grown(len as nat, cap as nat) == 1,
        ;
        size > isize::MAX as usize
    } else {
        let bytes = cap * size;
        assert(slab_grown(len as nat, cap as nat) * size == 2 * bytes) by (nonlinear_arith)
            requires
                bytes == cap * size,
                slab_grown(len as nat, cap as nat) == 2 * cap,
        ;
        bytes > isize::MAX as usize - bytes
    }
}

/// Where some of the first `k` insertions are refused, so are some of the
/// first `n`.
proof fn lemma_refusal_extends(len: nat, cap: nat, size: nat, k: nat, n: nat)
    requires
        k <= n,
        grown_by(len, cap, size, k) is None,
    ensures
        grown_by(len, cap, size, n) is None,
    decreases n,
{
    if n > k {
        lemma_refusal_extends(len, cap, size, k, (n - 1) as nat);
    }
}

/// The capacity after one insertion (see `slab_grown`).
fn grow(len: usize, cap: usize) -> (r: usize)
    requires
        len <= cap,
        len == cap ==> cap < 1024,
    ensures
        r == slab_grown(len as nat, cap as nat),
{
    if len == cap {
        if cap == 0 {
            1
        } else {
            2 * cap
        }
    } else {
        cap
    }
}

/// Operation 0 (see `op_0`).
#[verifier::loop_isolation(false)]
fn run_op_0(g: &[u8], b: usize) -> (r: (Vec<Event>, Option<Halt>))
    requires
        b <= 1000,
    ensures
        events_match(r.0@, op_0(g@, b as int).0),
        r.1 == op_0(g@, b as int).1,
{
    let size = core::mem::size_of::<String>();
    let wanted = match read_usize(g, b + 1) {
        Some(x) => x,
        None => return (Vec::new(), Some(Halt::InputExhausted)),
    };
    let fresh = match read_bool(g, b + 9) {
        Some(x) => x,
        None => return (Vec::new(), Some(Halt::InputExhausted)),
    };
    let mut cap: usize = 1;
    let mut s = if fresh {
        slab_texts_new()
    } else {
        match alloc_check(wanted, size) {
            Some(h) => return (Vec::new(), Some(h)),
            None => {},
        }
        cap = wanted;
        slab_texts_with_capacity(wanted)
    };
    let ghost cap0 = cap as nat;
    let n = match read_usize(g, b + 10) {
        Some(x) => x % 32,
        None => return (Vec::new(), Some(Halt::InputExhausted)),
    };
    let mut i: usize = 0;
    while i < n
        invariant
            i <= n < 32,
            slab_texts_wf(s),
            slab_texts_cap(s) == cap,
            slab_texts_items(s) == Seq::new(i as nat, |k: int| label(k as nat)),
            grown_by(0, cap0, size as nat, i as nat) == Some(cap as nat),
        decreases n - i,
    {
        if refused(i, cap, size) {
            proof {
                lemma_refusal_extends(0, cap0, size as nat, (i + 1) as nat, n as nat);
            }
            return (Vec::new(), Some(Halt::AllocationRefused));
        }
        slab_texts_insert(&mut s, item_label(i));
        cap = grow(i, cap);
        i = i + 1;
        assert(slab_texts_items(s) =~= Seq::new(i as nat, |k: int| label(k as nat)));
    }
    let mut events: Vec<Event> = Vec::new();
    let ghost owed = Seq::new(n as nat, |i: int| Expect::Label(label(i as nat)));
    if slab_texts_len(&s) > 0 {
        let items = slab_texts_contents(&mut s);
        let mut k: usize = 0;
        while k < items.len()
            invariant
                k <= items@.len() == n,
                items@.map_values(|x: String| x@) == Seq::new(n as nat, |i: int| label(i as nat)),
                events@.len() == k,
                forall|i: int| 0 <= i < k ==> #[trigger] event_matches(events@[i], owed[i]),
            decreases items.len() - k,
        {
            assert(items@.map_values(|x: String| x@)[k as int] == label(k as nat));
            events.push(Event::Label(items[k].clone()));
            k = k + 1;
        }
    }
    (events, None)
}

/// Operation 1 (see `op_1`).
#[verifier::loop_isolation(false)]
fn run_op_1(g: &[u8], b: usize) -> (r: (Vec<Event>, Option<Halt>))
    requires
        b <= 1000,
    ensures
        events_match(r.0@, op_1(g@, b as int).0),
        r.1 == op_1(g@, b as int).1,
{
    proof {
        broadcast use vstd::layout::layout_of_primitives;
    }
    let wanted = match read_usize(g, b + 1) {
        Some(x) => x,
        None => return (Vec::new(), Some(Halt::InputExhausted)),
    };
    match alloc_check(wanted, 4) {
        Some(h) => return (Vec::new(), Some(h)),
        None => {},
    }
    let mut s = slab_i32s_with_capacity(wanted);
    let n = match read_usize(g, b + 9) {
        Some(x) => x % 45,
        None => return (Vec::new(), Some(Halt::InputExhausted)),
    };
    let mut i: usize = 0;
    while i < n
        invariant
            i <= n < 45,
            slab_i32s_wf(s),
            slab_i32s_items(s) == i32s_at(g@, b + 10, 4, i as nat),
            i > 0 ==> fits(g@, b + 10 + 4 * (i - 1), 4),
        decreases n - i,
    {
        let x = match read_i32(g, b + 10 + 4 * i) {
            Some(x) => x,
            None => return (Vec::new(), Some(Halt::InputExhausted)),
        };
        slab_i32s_insert(&mut s, x);
        i = i + 1;
        assert(slab_i32s_items(s) =~= i32s_at(g@, b + 10, 4, i as nat));
    }
    let ghost items = i32s_at(g@, b + 10, 4, n as nat);
    let ghost shown = items.map_values(|x: i32| Expect::Number(x));
    let mut events: Vec<Event> = Vec::new();
    if slab_i32s_len(&s) > 0 {
        let all = slab_i32s_contents(&mut s);
        let mut k: usize = 0;
        while k < all.len()
            invariant
                k <= all@.len(),
                all@ == items,
                events@.len() == k,
                forall|i: int| 0 <= i < k ==> #[trigger] event_matches(events@[i], shown[i]),
            decreases all.len() - k,
        {
            events.push(Event::Number(all[k]));
            k = k + 1;
        }
    }
    assert(events_match(events@, shown));
    let len = slab_i32s_len(&s);
    if len > 0 {
        let r = match read_usize(g, b + 200) {
            Some(x) => x,
            None => return (events, Some(Halt::InputExhausted)),
        };
        if r < len {
            let x = slab_i32s_remove(&mut s, r);
            events.push(Event::Number(x));
            assert(forall|i: int| 0 <= i < events@.len() ==> #[trigger] event_matches(events@[i], shown.push(Expect::Number(items[r as int]))[i]));
        }
    }
    (events, None)
}

/// `n` bytes read at `start`, or `None` when a read runs past the end.
fn read_bytes(g: &[u8], start: usize, n: usize) -> (r: Option<Vec<u8>>)
    requires
        start <= 4096,
        n <= 64,
    ensures
        r is Some <==> reads_ok(g@, start as int, 1, 1, n as nat),
        r matches Some(v) ==> v@ == bytes_at(g@, start as int, n as nat),
{
    let mut v: Vec<u8> = Vec::new();
    let mut k: usize = 0;
    while k < n
        invariant
            k <= n <= 64,
            start <= 4096,
            v@ == bytes_at(g@, start as int, k as nat),
            k > 0 ==> fits(g@, start + (k - 1), 1),
        decreases n - k,
    {
        match read_u8(g, start + k) {
            Some(x) => v.push(x),
            None => return None,
        }
        k = k + 1;
        assert(v@ =~= bytes_at(g@, start as int, k as nat));
    }
    Some(v)
}

/// Where the first `k` rounds of operation 2 stop the run, all `n` do.
proof fn lemma_vecs_halt_extends(g: Seq<u8>, b: int, k: nat, n: nat, h: Halt)
    requires
        k <= n,
        vecs_2(g, b, k) == Err::<(Seq<Seq<u8>>, nat), Halt>(h),
    ensures
        vecs_2(g, b, n) == Err::<(Seq<Seq<u8>>, nat), Halt>(h),
    decreases n,
{
    if n > k {
        lemma_vecs_halt_extends(g, b, k, (n - 1) as nat, h);
    }
}

/// Operation 2 (see `op_2`).
#[verifier::loop_isolation(false)]
fn run_op_2(g: &[u8], b: usize) -> (r: (Vec<Event>, Option<Halt>))
    requires
        b <= 1000,
    ensures
        events_match(r.0@, op_2(g@, b as int).0),
        r.1 == op_2(g@, b as int).1,
{
    let size = core::mem::size_of::<Vec<u8>>();
    let mut s = slab_bytes_new();
    let mut cap: usize = 1;
    let n = match read_usize(g, b + 1) {
        Some(x) => x % 20,
        None => return (Vec::new(), Some(Halt::InputExhausted)),
    };
    let ghost mut items = Seq::<Seq<u8>>::empty();
    let mut i: usize = 0;
    while i < n
        invariant
            i <= n < 20,
            b <= 1000,
            slab_bytes_wf(s),
            slab_bytes_cap(s) == cap,
            slab_bytes_items(s) == items,
            items.len() == i,
            vecs_2(g@, b as int, i as nat) == Ok::<(Seq<Seq<u8>>, nat), Halt>((items, cap as nat)),
        decreases n - i,
    {
        let m = match read_usize(g, b + 9 + i) {
            Some(x) => x % 15,
            None => {
                proof {
                    lemma_vecs_halt_extends(g@, b as int, (i + 1) as nat, n as nat, Halt::InputExhausted);
                }
                return (Vec::new(), Some(Halt::InputExhausted));
            },
        };
        let bytes = match read_bytes(g, b + 50, m) {
            Some(v) => v,
            None => {
                proof {
                    lemma_vecs_halt_extends(g@, b as int, (i + 1) as nat, n as nat, Halt::InputExhausted);
                }
                return (Vec::new(), Some(Halt::InputExhausted));
            },
        };
        if refused(i, cap, size) {
            proof {
                lemma_vecs_halt_extends(g@, b as int, (i + 1) as nat, n as nat, Halt::AllocationRefused);
            }
            return (Vec::new(), Some(Halt::AllocationRefused));
        }
        proof {
            items = items.push(bytes@);
        }
        slab_bytes_insert(&mut s, bytes);
        cap = grow(i, cap);
        i = i + 1;
    }
    let ghost all = items.map_values(|v: Seq<u8>| Expect::Bytes(v));
    let mut events: Vec<Event> = Vec::new();
    let ghost mut shown = Seq::<Expect>::empty();
    if slab_bytes_len(&s) > 0 {
        let at = match read_usize(g, b + 100) {
            Some(x) => x,
            None => return (Vec::new(), Some(Halt::InputExhausted)),
        };
        if at < slab_bytes_len(&s) {
            events.push(Event::Bytes(slab_bytes_get(&s, at)));
            proof {
                shown = seq![Expect::Bytes(items[at as int])];
            }
        }
    }
    assert(events_match(events@, shown));
    let contents = slab_bytes_contents(&mut s);
    let mut k: usize = 0;
    while k < contents.len()
        invariant
            k <= contents@.len(),
            contents@.map_values(|x: Vec<u8>| x@) == items,
            events@.len() == shown.len() + k,
            forall|i: int| 0 <= i < events@.len() ==> #[trigger] event_matches(events@[i], (shown + all)[i]),
        decreases contents.len() - k,
    {
        assert(contents@.map_values(|x: Vec<u8>| x@)[k as int] == items[k as int]);
        events.push(Event::Bytes(contents[k].clone()));
        k = k + 1;
    }
    assert(op_2(g@, b as int).0 =~= shown + all);
    (events, None)
}

/// Where the first `k` rounds of operation 3 stop the run, all `n` do.
proof fn lemma_chars_halt_extends(g: Seq<u8>, b: int, cap: nat, k: nat, n: nat, h: Halt)
    requires
        k <= n,
        chars_3(g, b, cap, k) == Err::<nat, Halt>(h),
    ensures
        chars_3(g, b, cap, n) == Err::<nat, Halt>(h),
    decreases n,
{
    if n > k {
        lemma_chars_halt_extends(g, b, cap, k, (n - 1) as nat, h);
    }
}

/// Operation 3 (see `op_3`).
#[verifier::loop_isolation(false)]
fn run_op_3(g: &[u8], b: usize) -> (r: (Vec<Event>, Option<Halt>))
    requires
        b <= 1000,
    ensures
        events_match(r.0@, op_3(g@, b as int).0),
        r.1 == op_3(g@, b as int).1,
{
    proof {
        broadcast use vstd::layout::layout_of_primitives;
    }
    let size = core::mem::size_of::<String>();
    let wanted = match read_usize(g, b + 1) {
        Some(x) => x,
        None => return (Vec::new(), Some(Halt::InputExhausted)),
    };
    match alloc_check(wanted, size) {
        Some(h) => return (Vec::new(), Some(h)),
        None => {},
    }
    let mut texts = slab_texts_with_capacity(wanted);
    let mut numbers = slab_i64s_new();
    let n = match read_usize(g, b + 9) {
        Some(x) => x % 20,
        None => return (Vec::new(), Some(Halt::InputExhausted)),
    };
    let mut cap = wanted;
    let mut i: usize = 0;
    while i < n
        invariant
            i <= n < 20,
            b <= 1000,
            slab_texts_wf(texts),
            slab_texts_cap(texts) == cap,
            slab_texts_items(texts).len() == i,
            forall|k: int|
                0 <= k < i ==> (#[trigger] slab_texts_items(texts)[k]).len() == 1 && slab_texts_items(texts)[k][0] as u32
                    == be_u32(g@, b + 20 + 4 * k),
            chars_3(g@, b as int, wanted as nat, i as nat) == Ok::<nat, Halt>(cap as nat),
        decreases n - i,
    {
        let c = match read_char(g, b + 20 + 4 * i) {
            Ok(c) => c,
            Err(h) => {
                proof {
                    lemma_chars_halt_extends(g@, b as int, wanted as nat, (i + 1) as nat, n as nat, h);
                }
                return (Vec::new(), Some(h));
            },
        };
        if refused(i, cap, size) {
            proof {
                lemma_chars_halt_extends(g@, b as int, wanted as nat, (i + 1) as nat, n as nat, Halt::AllocationRefused);
            }
            return (Vec::new(), Some(Halt::AllocationRefused));
        }
        slab_texts_insert(&mut texts, char_text(c));
        cap = grow(i, cap);
        i = i + 1;
    }
    let m = match read_usize(g, b + 100) {
        Some(x) => x % 30,
        None => return (Vec::new(), Some(Halt::InputExhausted)),
    };
    let mut j: usize = 0;
    while j < m
        invariant
            j <= m < 30,
            b <= 1000,
            slab_i64s_wf(numbers),
            slab_i64s_items(numbers) == i64s_at(g@, b + 120, j as nat),
            j > 0 ==> fits(g@, b + 120 + 8 * (j - 1), 8),
        decreases m - j,
    {
        let x = match read_i64(g, b + 120 + 8 * j) {
            Some(x) => x,
            None => return (Vec::new(), Some(Halt::InputExhausted)),
        };
        slab_i64s_insert(&mut numbers, x);
        j = j + 1;
        assert(slab_i64s_items(numbers) =~= i64s_at(g@, b + 120, j as nat));
    }
    let ghost chars_owed = Seq::new(n as nat, |i: int| Expect::CharText(be_u32(g@, b + 20 + 4 * i) as u32));
    let ghost nums = i64s_at(g@, b + 120, m as nat);
    let ghost owed = chars_owed + nums.map_values(|x: i64| Expect::I64(x));
    let mut events: Vec<Event> = Vec::new();
    if slab_texts_len(&texts) > 0 {
        let ghost items = slab_texts_items(texts);
        let all = slab_texts_contents(&mut texts);
        let mut k: usize = 0;
        while k < all.len()
            invariant
                k <= all@.len() == n,
                all@.map_values(|x: String| x@) == items,
                items.len() == n,
                forall|q: int| 0 <= q < n ==> (#[trigger] items[q]).len() == 1 && items[q][0] as u32 == be_u32(g@, b + 20 + 4 * q),
                events@.len() == k,
                forall|i: int| 0 <= i < k ==> #[trigger] event_matches(events@[i], owed[i]),
            decreases all.len() - k,
        {
            assert(all@.map_values(|x: String| x@)[k as int] == items[k as int]);
            events.push(Event::CharText(all[k].clone()));
            k = k + 1;
        }
    }
    let ghost before = events@.len();
    assert(before == n);
    if slab_i64s_len(&numbers) > 0 {
        let all = slab_i64s_contents(&mut numbers);
        let mut k: usize = 0;
        while k < all.len()
            invariant
                k <= all@.len(),
                all@ == nums,
                events@.len() == n + k,
                forall|i: int| 0 <= i < events@.len() ==> #[trigger] event_matches(events@[i], owed[i]),
            decreases all.len() - k,
        {
            events.push(Event::I64(all[k]));
            k = k + 1;
        }
    }
    (events, None)
}

/// Operation 5 (see `op_5`).
#[verifier::loop_isolation(false)]
fn run_op_5(g: &[u8], b: usize) -> (r: (Vec<Event>, Option<Halt>))
    requires
        b <= 1000,
    ensures
        events_match(r.0@, op_5(g@, b as int).0),
        r.1 == op_5(g@, b as int).1,
{
    proof {
        broadcast use vstd::layout::layout_of_primitives;
    }
    let wanted = match read_usize(g, b + 1) {
        Some(x) => x,
        None => return (Vec::new(), Some(Halt::InputExhausted)),
    };
    match alloc_check(wanted, 1) {
        Some(h) => return (Vec::new(), Some(h)),
        None => {},
    }
    let mut s = slab_flags_with_capacity(wanted);
    let n = match read_usize(g, b + 9) {
        Some(x) => x % 40,
        None => return (Vec::new(), Some(Halt::InputExhausted)),
    };
    let mut i: usize = 0;
    while i < n
        invariant
            i <= n < 40,
            slab_flags_wf(s),
            slab_flags_items(s) == bools_at(g@, b + 20, i as nat),
            i > 0 ==> fits(g@, b + 20 + (i - 1), 1),
        decreases n - i,
    {
        let x = match read_bool(g, b + 20 + i) {
            Some(x) => x,
            None => return (Vec::new(), Some(Halt::InputExhausted)),
        };
        slab_flags_insert(&mut s, x);
        i = i + 1;
        assert(slab_flags_items(s) =~= bools_at(g@, b + 20, i as nat));
    }
    let ghost owed = bools_at(g@, b + 20, n as nat).map_values(|x: bool| Expect::Bool(x));
    let mut events: Vec<Event> = Vec::new();
    if slab_flags_len(&s) > 0 {
        let all = slab_flags_contents(&mut s);
        let mut k: usize = 0;
        while k < all.len()
            invariant
                k <= all@.len(),
                all@ == bools_at(g@, b + 20, n as nat),
                events@.len() == k,
                forall|i: int| 0 <= i < k ==> #[trigger] event_matches(events@[i], owed[i]),
            decreases all.len() - k,
        {
            events.push(Event::Bool(all[k]));
            k = k + 1;
        }
    }
    (events, None)
}

/// Runs operation `op` at `b` (see `op_step`).
fn run_op(g: &[u8], op: u8, b: usize) -> (r: (Vec<Event>, Option<Halt>))
    requires
        op < 6,
        b <= 1000,
    ensures
        events_match(r.0@, op_step(g@, op, b as int).0),
        r.1 == op_step(g@, op, b as int).1,
{
    reveal(op_step);
    if op == 0 {
        run_op_0(g, b)
    } else if op == 1 {
        run_op_1(g, b)
    } else if op == 2 {
        run_op_2(g, b)
    } else if op == 3 {
        run_op_3(g, b)
    } else if op == 4 {
        let mut events: Vec<Event> = Vec::new();
        events.push(Event::FloatOp(b));
        assert(events_match(events@, seq![Expect::FloatOp(b as nat)]));
        (events, None)
    } else {
        run_op_5(g, b)
    }
}

/// The events of a run, and why it stopped early, if it did.
pub struct Run {
    pub events: Vec<Event>,
    pub halt: Option<Halt>,
}

/// Runs the script of an input of `input_len` bytes whose first half is `g`;
/// what it reports is what the script is owed. The operation on
/// floating-point items is left to the caller, reported as `FloatOp` in its
/// place.
pub fn run(input_len: usize, g: &[u8]) -> (r: Run)
    ensures
        events_match(r.events@, script_outcome(input_len as nat, g@).0),
        r.halt == script_outcome(input_len as nat, g@).1,
{
    let mut events: Vec<Event> = Vec::new();
    if input_len < 256 {
        return Run { events, halt: None };
    }
    let count = match read_usize(g, 0) {
        Some(x) => x % 65,
        None => return Run { events, halt: Some(Halt::InputExhausted) },
    };
    let ghost n = count as nat;
    let ghost mut owed = Seq::<Expect>::empty();
    assert(owed + ops_from(g@, 0, n).0 =~= ops_from(g@, 0, n).0);
    let mut k: usize = 0;
    while k < count
        invariant
            k <= count < 65,
            input_len >= 256,
            fits(g@, 0, 8),
            n == count as nat,
            n == usize_at(g@, 0) as nat % 65,
            events_match(events@, owed),
            script_outcome(input_len as nat, g@) == (owed + ops_from(g@, k as nat, n).0, ops_from(g@, k as nat, n).1),
        decreases count - k,
    {
        let b = 8 * k;
        let op = match read_u8(g, b) {
            Some(x) => x % 6,
            None => {
                assert(owed + Seq::<Expect>::empty() =~= owed);
                return Run { events, halt: Some(Halt::InputExhausted) };
            },
        };
        let (evs, halt) = run_op(g, op, b);
        let ghost st = op_step(g@, op, b as int);
        proof {
            lemma_events_match_append(events@, owed, evs@, st.0);
        }
        let mut evs = evs;
        events.append(&mut evs);
        if halt.is_some() {
            return Run { events, halt };
        }
        proof {
            let rest = ops_from(g@, (k + 1) as nat, n);
            assert(ops_from(g@, k as nat, n) == (st.0 + rest.0, rest.1));
            assert(owed + (st.0 + rest.0) =~= (owed + st.0) + rest.0);
            owed = owed + st.0;
        }
        k = k + 1;
    }
    assert(owed + Seq::<Expect>::empty() =~= owed);
    Run { events, halt: None }
}

/// Operation 1 lists the numbers in the order they were inserted (the `i32`
/// read at `b + 10 + 4 * k` as the `k`-th), and, where the read offset `r`
/// is below their count, then reports the `r`-th number inserted: the one
/// that `remove(r)` takes out.
pub proof fn law_removed_number_is_the_one_inserted_at_the_offset(g: Seq<u8>, b: int)
    requires
        fits(g, b + 1, 8),
        alloc_halt(usize_at(g, b + 1) as nat, 4) is None,
        fits(g, b + 9, 8),
        usize_at(g, b + 9) as nat % 45 > 0,
        reads_ok(g, b + 10, 4, 4, usize_at(g, b + 9) as nat % 45),
        fits(g, b + 200, 8),
        usize_at(g, b + 200) < usize_at(g, b + 9) as nat % 45,
    ensures
        ({
            let o = op_step(g, 1, b);
            let n = usize_at(g, b + 9) as nat % 45;
            &&& o.1 is None
            &&& o.0.len() == n + 1
            &&& forall|k: int| 0 <= k < n ==> o.0[k] == Expect::Number(crate::script::i32_at(g, b + 10 + 4 * k))
            &&& o.0[n as int] == Expect::Number(crate::script::i32_at(g, b + 10 + 4 * usize_at(g, b + 200)))
        }),
{
    reveal(op_step);
}

/// Operation 2, at a read index in range, first reports the byte vector that
/// the listing after it holds at that index.
pub proof fn law_indexed_bytes_are_the_ones_listed_there(g: Seq<u8>, b: int)
    requires
        fits(g, b + 1, 8),
        usize_at(g, b + 1) as nat % 20 > 0,
        vecs_2(g, b, usize_at(g, b + 1) as nat % 20) is Ok,
        fits(g, b + 100, 8),
        usize_at(g, b + 100) < usize_at(g, b + 1) as nat % 20,
    ensures
        ({
            let n = usize_at(g, b + 1) as nat % 20;
            let at = usize_at(g, b + 100) as int;
            let o = op_2(g, b);
            &&& o.1 is None
            &&& o.0.len() == n + 1
            &&& o.0[0] == o.0[1 + at]
        }),
{
    lemma_vecs_2_len(g, b, usize_at(g, b + 1) as nat % 20);
}

/// The byte vectors of `vecs_2`, where none fails, are as many as asked for.
proof fn lemma_vecs_2_len(g: Seq<u8>, b: int, k: nat)
    ensures
        vecs_2(g, b, k) matches Ok(t) ==> t.0.len() == k,
    decreases k,
{
    if k > 0 {
        lemma_vecs_2_len(g, b, (k - 1) as nat);
    }
}

} // verus!

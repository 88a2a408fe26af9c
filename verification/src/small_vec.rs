//! The allocation error of the outside small-vector crate, as Verus sees it,
//! and the arithmetic of that crate's growth policy.
use vstd::prelude::*;

verus! {

#[verifier::external_type_specification]
#[verifier::external_body]
pub struct ExCollectionAllocErr(smallvec::CollectionAllocErr);

/// Number of items that the vectors of this library hold without a heap buffer.
pub const INLINE: usize = 16;

/// The smallest power of two that is at least `n` (1 for 0 and 1).
pub open spec fn next_pow2(n: nat) -> nat
    decreases n,
{
    if n <= 1 {
        1
    } else {
        2 * next_pow2(((n + 1) / 2) as nat)
    }
}

/// Capacity after making room for `add` more items with amortised growth:
/// unchanged when there is room already, else the next power of two.
pub open spec fn grown(len: nat, cap: nat, add: nat) -> nat {
    if cap - len >= add {
        cap
    } else {
        next_pow2(len + add)
    }
}

/// Capacity after making room for exactly `add` more items: unchanged when
/// there is room already, else `len + add`.
pub open spec fn exact_grown(len: nat, cap: nat, add: nat) -> nat {
    if cap - len >= add {
        cap
    } else {
        len + add
    }
}

/// Whether amortised growth by `add` items of `size` bytes fails its size
/// computation (the outside crate then panics with "capacity overflow").
pub open spec fn growth_overflows(len: nat, cap: nat, add: nat, size: nat) -> bool {
    cap - len < add && (len + add > usize::MAX || next_pow2(len + add) * size > isize::MAX)
}

/// Whether exact growth to `len + add` items of `size` bytes fails its size
/// computation.
pub open spec fn exact_growth_overflows(len: nat, cap: nat, add: nat, size: nat) -> bool {
    cap - len < add && (len + add > usize::MAX || (len + add) * size > isize::MAX)
}

/// The capacity of a vector of `len` items taken over from a `Vec`: `c` where
/// it is one that such a vector can have, else the smallest one.
pub open spec fn open_cap(c: nat, len: nat, inline: nat, size: nat) -> nat {
    if c >= inline && c >= len && (c == inline || c * size <= isize::MAX) {
        c
    } else if len <= inline {
        inline
    } else {
        len
    }
}

/// A sequence is in order `Equal` with itself.
pub proof fn law_lex_order_reflexive(a: Seq<int>)
    ensures
        lex_order(a, a) == Order::Equal,
    decreases a.len(),
{
    if a.len() > 0 {
        law_lex_order_reflexive(a.drop_first());
    }
}

/// Ordering of two values, as this library reports comparisons.
#[derive(Clone, Copy, Debug, PartialEq, Eq, Structural)]
pub enum Order {
    Less,
    Equal,
    Greater,
}

/// Lexicographic order of two sequences of integers (the order of slices).
pub open spec fn lex_order(a: Seq<int>, b: Seq<int>) -> Order
    decreases a.len(),
{
    if a.len() == 0 {
        if b.len() == 0 {
            Order::Equal
        } else {
            Order::Less
        }
    } else if b.len() == 0 {
        Order::Greater
    } else if a[0] < b[0] {
        Order::Less
    } else if a[0] > b[0] {
        Order::Greater
    } else {
        lex_order(a.drop_first(), b.drop_first())
    }
}

/// The items of `s` as integers.
pub open spec fn u32_ints(s: Seq<u32>) -> Seq<int> {
    s.map_values(|x: u32| x as int)
}

/// The items of `s` as integers.
pub open spec fn i32_ints(s: Seq<i32>) -> Seq<int> {
    s.map_values(|x: i32| x as int)
}

/// The items, as integers.
pub open spec fn i16_ints(s: Seq<i16>) -> Seq<int> {
    s.map_values(|x: i16| x as int)
}

/// The items, as integers.
pub open spec fn i64_ints(s: Seq<i64>) -> Seq<int> {
    s.map_values(|x: i64| x as int)
}

/// `s` with every item that equals the one before it removed.
pub open spec fn dedup_seq<T>(s: Seq<T>) -> Seq<T>
    decreases s.len(),
{
    if s.len() <= 1 {
        s
    } else if s.last() == s[s.len() - 2] {
        dedup_seq(s.drop_last())
    } else {
        dedup_seq(s.drop_last()).push(s.last())
    }
}

/// `n` copies of `x`.
pub open spec fn repeat<T>(x: T, n: nat) -> Seq<T> {
    Seq::new(n, |_i: int| x)
}

/// A power of two bounds the next power of two of every number up to it.
pub proof fn lemma_next_pow2_le(n: nat, k: nat)
    requires
        n <= vstd::arithmetic::power2::pow2(k),
    ensures
        next_pow2(n) <= vstd::arithmetic::power2::pow2(k),
    decreases n,
{
    vstd::arithmetic::power2::lemma_pow2_pos(k);
    if n > 1 {
        assert(k > 0) by {
            if k == 0 {
                vstd::arithmetic::power2::lemma2_to64();
            }
        }
        vstd::arithmetic::power2::lemma_pow2_unfold(k);
        lemma_next_pow2_le(((n + 1) / 2) as nat, (k - 1) as nat);
    }
}


/// Growth by a few items from a short length never overflows, and leaves a
/// capacity of at most the larger of the old one and 1024.
pub proof fn lemma_small_growth(len: nat, cap: nat, add: nat)
    requires
        len + add <= 1024,
    ensures
        !growth_overflows(len, cap, add, 4),
        grown(len, cap, add) <= if cap > 1024 { cap } else { 1024 },
{
    vstd::arithmetic::power2::lemma2_to64();
    lemma_next_pow2_le(len + add, 10);
}

/// Growth by a few items, of at most 64 bytes each, from a short length never
/// overflows the size computation.
pub proof fn lemma_small_growth_sized(len: nat, cap: nat, add: nat, size: nat)
    requires
        len + add <= 1024,
        size <= 64,
    ensures
        !growth_overflows(len, cap, add, size),
{
    vstd::arithmetic::power2::lemma2_to64();
    lemma_next_pow2_le(len + add, 10);
    assert(next_pow2(len + add) * size <= 1024 * 64) by (nonlinear_arith)
        requires
            next_pow2(len + add) <= 1024,
            size <= 64,
    ;
}

/// One more item pushed onto at most 64, of at most 64 bytes each, never
/// overflows the size computation.
pub proof fn lemma_small_push(len: nat, cap: nat, size: nat)
    requires
        len <= 64,
        size <= 64,
    ensures
        !growth_overflows(len, cap, 1, size),
{
    vstd::arithmetic::power2::lemma2_to64();
    lemma_next_pow2_le(len + 1, 7);
    assert(next_pow2(len + 1) * size <= 128 * 64) by (nonlinear_arith)
        requires
            next_pow2(len + 1) <= 128,
            size <= 64,
    ;
}

/// After room is made for `add` more items there is room for them, and the
/// capacity never shrinks.
pub proof fn law_growth_makes_room(len: nat, cap: nat, add: nat)
    requires
        len <= cap,
    ensures
        grown(len, cap, add) >= len + add,
        grown(len, cap, add) >= cap,
{
    lemma_next_pow2_ge(len + add);
}

/// Asking for more room never turns an overflowing growth into one that
/// fits.
pub proof fn law_growth_overflow_is_monotone(len: nat, cap: nat, a: nat, b: nat, size: nat)
    requires
        a <= b,
        growth_overflows(len, cap, a, size),
    ensures
        growth_overflows(len, cap, b, size),
{
    if len + b <= usize::MAX {
        lemma_next_pow2_monotone(len + a, len + b);
        assert(next_pow2(len + a) * size <= next_pow2(len + b) * size) by (nonlinear_arith)
            requires
                next_pow2(len + a) <= next_pow2(len + b),
        ;
    }
}

/// The next power of two grows with its argument.
pub proof fn lemma_next_pow2_monotone(m: nat, n: nat)
    requires
        m <= n,
    ensures
        next_pow2(m) <= next_pow2(n),
    decreases n,
{
    if m > 1 {
        lemma_next_pow2_monotone(((m + 1) / 2) as nat, ((n + 1) / 2) as nat);
    } else {
        lemma_next_pow2_pos(n);
    }
}

/// The next power of two is at least 1.
pub proof fn lemma_next_pow2_pos(n: nat)
    ensures
        next_pow2(n) >= 1,
    decreases n,
{
    if n > 1 {
        lemma_next_pow2_pos(((n + 1) / 2) as nat);
    }
}

/// Whether `p` is a power of two.
pub open spec fn is_pow2(p: nat) -> bool
    decreases p,
{
    if p <= 1 {
        p == 1
    } else {
        p % 2 == 0 && is_pow2(p / 2)
    }
}

/// The next power of two of a number above half a power of two and at most
/// that power is that power.
pub proof fn lemma_next_pow2_exact(n: nat, p: nat)
    requires
        is_pow2(p),
        p / 2 < n <= p,
    ensures
        next_pow2(n) == p,
    decreases p,
{
    if p > 1 && n > 1 {
        let q = p / 2;
        lemma_next_pow2_exact(((n + 1) / 2) as nat, q);
    }
}

/// The next power of two of `n` is at least `n`.
pub proof fn lemma_next_pow2_ge(n: nat)
    ensures
        next_pow2(n) >= n,
    decreases n,
{
    if n > 1 {
        lemma_next_pow2_ge(((n + 1) / 2) as nat);
    }
}

/// Whether the next power of two of `n` exceeds `limit`.
pub fn next_pow2_exceeds(n: usize, limit: usize) -> (r: bool)
    requires
        limit <= usize::MAX / 2,
    ensures
        r == (next_pow2(n as nat) > limit),
{
    let mut p: usize = 1;
    while p < n
        invariant
            is_pow2(p as nat),
            p / 2 < n || p == 1,
            p <= 2 * limit + 1,
            limit <= usize::MAX / 2,
        decreases 2 * limit + 2 - p,
    {
        if p > limit {
            proof {
                lemma_next_pow2_ge(n as nat);
            }
            return true;
        }
        assert((2 * p) as nat / 2 == p);
        p = p * 2;
    }
    proof {
        if n == 0 {
            assert(next_pow2(0) == 1);
        } else {
            lemma_next_pow2_exact(n as nat, p as nat);
        }
    }
    p > limit
}

/// Whether amortised growth by `add` items of `size` bytes overflows, as
/// `growth_overflows` states it.
pub fn growth_overflows_exec(len: usize, cap: usize, add: usize, size: usize) -> (r: bool)
    ensures
        r == growth_overflows(len as nat, cap as nat, add as nat, size as nat),
{
    if cap >= len && cap - len >= add {
        return false;
    }
    if len > usize::MAX - add {
        return true;
    }
    if size == 0 {
        assert(next_pow2((len + add) as nat) * size == 0);
        return false;
    }
    let limit = (isize::MAX as usize) / size;
    assert(limit <= usize::MAX / 2) by (nonlinear_arith)
        requires
            limit == (isize::MAX as usize) / size,
            size >= 1,
            isize::MAX == usize::MAX / 2,
    ;
    let r = next_pow2_exceeds(len + add, limit);
    assert(r == (next_pow2((len + add) as nat) * size > isize::MAX)) by (nonlinear_arith)
        requires
            r == (next_pow2((len + add) as nat) > limit),
            limit == (isize::MAX as usize) / size,
            size >= 1,
    ;
    r
}

/// Whether exact growth by `add` items of `size` bytes overflows, as
/// `exact_growth_overflows` states it.
pub fn exact_growth_overflows_exec(len: usize, cap: usize, add: usize, size: usize) -> (r: bool)
    ensures
        r == exact_growth_overflows(len as nat, cap as nat, add as nat, size as nat),
{
    if cap >= len && cap - len >= add {
        return false;
    }
    if len > usize::MAX - add {
        return true;
    }
    if size == 0 {
        assert((len + add) * size == 0);
        return false;
    }
    let limit = (isize::MAX as usize) / size;
    let t = len + add;
    assert((t > limit) == (t * size > isize::MAX)) by (nonlinear_arith)
        requires
            limit == (isize::MAX as usize) / size,
            size >= 1,
    ;
    t > limit
}

} // verus!

//! What every byte-driven script shares: why a run stops early, and reads of
//! the input that report a read past its end instead of failing.
use vstd::prelude::*;
use vstd::utf8::{decode_utf8, encode_utf8_decode_utf8, valid_utf8};
use vstd::string::StringSliceAdditionalSpecFns;
use crate::bytes::{
    _to_bool, _to_char, _to_i128, _to_i16, _to_i32, _to_i64, _to_i8, _to_isize, _to_str, _to_u16, _to_u32,
    _to_u64, _to_u8, _to_usize, be_u16, be_u32, be_u64, i8_of, is_scalar_value, mixed_i128, mixed_i16,
    mixed_i32, mixed_i64,
};

verus! {

/// Why a run stopped before its last operation (where the program, as it
/// stands, panics).
#[derive(Clone, Copy, Debug, PartialEq, Eq, Structural)]
pub enum Halt {
    /// A read of the input past its end.
    InputExhausted,
    /// A size computation of the vector overflowed ("capacity overflow").
    CapacityOverflow,
    /// A length, index or range out of bounds for the vector.
    OutOfRange,
    /// A deliberate panic that the input asked for.
    Intentional,
    /// An integer addition or multiplication that overflowed.
    ArithmeticOverflow,
    /// A request for more than `isize::MAX` bytes, which the C allocator
    /// refuses ("Unable to allocate requested capacity", "Out of Memory").
    AllocationRefused,
    /// The input holds no valid value where one was needed: the program
    /// exits quietly there.
    Exit,
}

/// Whether `n` bytes starting at `i` lie inside `s`.
pub open spec fn fits(s: Seq<u8>, i: int, n: int) -> bool {
    0 <= i && i + n <= s.len()
}

/// The big-endian `u32` at `i`.
pub open spec fn u32_at(s: Seq<u8>, i: int) -> u32 {
    be_u32(s, i) as u32
}

/// The big-endian `u64` at `i`, cut to `usize`.
pub open spec fn usize_at(s: Seq<u8>, i: int) -> usize {
    be_u64(s, i) as usize
}

/// `count` big-endian `u32` values read at `start`, `start + stride`, ...
pub open spec fn u32s_at(s: Seq<u8>, start: int, stride: int, count: nat) -> Seq<u32> {
    Seq::new(count, |k: int| u32_at(s, start + stride * k))
}

/// Whether all `count` reads of four bytes at `start + stride * k` lie inside `s`.
pub open spec fn reads_fit(s: Seq<u8>, start: int, stride: int, count: nat) -> bool {
    count == 0 || fits(s, start + stride * (count - 1), 4)
}

/// The byte at `i`, or `None` past the end.
pub fn read_u8(s: &[u8], i: usize) -> (r: Option<u8>)
    ensures
        r == if i < s@.len() { Some(s@[i as int]) } else { None::<u8> },
{
    if i < s.len() {
        Some(_to_u8(s, i))
    } else {
        None
    }
}

/// The big-endian `u32` at `i`, or `None` when it does not fit.
pub fn read_u32(s: &[u8], i: usize) -> (r: Option<u32>)
    ensures
        r == if fits(s@, i as int, 4) { Some(u32_at(s@, i as int)) } else { None::<u32> },
{
    if i <= s.len() && s.len() - i >= 4 {
        Some(_to_u32(s, i))
    } else {
        None
    }
}

/// The big-endian `u64` at `i`, or `None` when it does not fit.
pub fn read_u64(s: &[u8], i: usize) -> (r: Option<u64>)
    ensures
        r == if fits(s@, i as int, 8) { Some(be_u64(s@, i as int) as u64) } else { None::<u64> },
{
    if i <= s.len() && s.len() - i >= 8 {
        Some(_to_u64(s, i))
    } else {
        None
    }
}

/// The big-endian `u64` at `i` cut to `usize`, or `None` when it does not fit.
pub fn read_usize(s: &[u8], i: usize) -> (r: Option<usize>)
    ensures
        r == if fits(s@, i as int, 8) { Some(usize_at(s@, i as int)) } else { None::<usize> },
{
    if i <= s.len() && s.len() - i >= 8 {
        Some(_to_usize(s, i))
    } else {
        None
    }
}

/// `count` big-endian `u32` values at `start + stride * k`, or `None` when a
/// read runs past the end.
pub fn read_u32s(s: &[u8], start: usize, stride: usize, count: usize) -> (r: Option<Vec<u32>>)
    requires
        start + stride * count + 4 <= usize::MAX,
    ensures
        r is Some <==> reads_fit(s@, start as int, stride as int, count as nat),
        r matches Some(v) ==> v@ == u32s_at(s@, start as int, stride as int, count as nat),
{
    let mut v: Vec<u32> = Vec::new();
    let mut k: usize = 0;
    while k < count
        invariant
            k <= count,
            start + stride * count + 4 <= usize::MAX,
            v@ == u32s_at(s@, start as int, stride as int, k as nat),
            k > 0 ==> fits(s@, start + stride * (k - 1), 4),
        decreases count - k,
    {
        assert(stride * k <= stride * count) by (nonlinear_arith)
            requires
                k <= count,
        ;
        match read_u32(s, start + stride * k) {
            Some(x) => {
                v.push(x);
                k = k + 1;
                assert(v@ =~= u32s_at(s@, start as int, stride as int, k as nat));
            },
            None => {
                assert(!reads_fit(s@, start as int, stride as int, count as nat)) by {
                    assert(stride * k <= stride * (count - 1)) by (nonlinear_arith)
                        requires
                            k <= count - 1,
                    ;
                }
                return None;
            },
        }
    }
    assert(count > 0 ==> reads_fit(s@, start as int, stride as int, count as nat));
    Some(v)
}


/// The `i32` at `i`, joined from two `i16` halves.
pub open spec fn i32_at(s: Seq<u8>, i: int) -> i32 {
    mixed_i32(s, i) as i32
}

/// `count` `i32` values read at `start`, `start + stride`, ...
pub open spec fn i32s_at(s: Seq<u8>, start: int, stride: int, count: nat) -> Seq<i32> {
    Seq::new(count, |k: int| i32_at(s, start + stride * k))
}

/// The `i32` at `i`, or `None` when it does not fit.
pub fn read_i32(s: &[u8], i: usize) -> (r: Option<i32>)
    ensures
        r == if fits(s@, i as int, 4) { Some(i32_at(s@, i as int)) } else { None::<i32> },
{
    if i <= s.len() && s.len() - i >= 4 {
        Some(_to_i32(s, i))
    } else {
        None
    }
}

/// `count` `i32` values at `start + stride * k`, or `None` when a read runs
/// past the end.
pub fn read_i32s(s: &[u8], start: usize, stride: usize, count: usize) -> (r: Option<Vec<i32>>)
    requires
        start + stride * count + 4 <= usize::MAX,
    ensures
        r is Some <==> reads_fit(s@, start as int, stride as int, count as nat),
        r matches Some(v) ==> v@ == i32s_at(s@, start as int, stride as int, count as nat),
{
    let mut v: Vec<i32> = Vec::new();
    let mut k: usize = 0;
    while k < count
        invariant
            k <= count,
            start + stride * count + 4 <= usize::MAX,
            v@ == i32s_at(s@, start as int, stride as int, k as nat),
            k > 0 ==> fits(s@, start + stride * (k - 1), 4),
        decreases count - k,
    {
        assert(stride * k <= stride * count) by (nonlinear_arith)
            requires
                k <= count,
        ;
        match read_i32(s, start + stride * k) {
            Some(x) => {
                v.push(x);
                k = k + 1;
                assert(v@ =~= i32s_at(s@, start as int, stride as int, k as nat));
            },
            None => {
                assert(!reads_fit(s@, start as int, stride as int, count as nat)) by {
                    assert(stride * k <= stride * (count - 1)) by (nonlinear_arith)
                        requires
                            k <= count - 1,
                    ;
                }
                return None;
            },
        }
    }
    assert(count > 0 ==> reads_fit(s@, start as int, stride as int, count as nat));
    Some(v)
}

/// The text of `len` bytes at `start`: the program stops quietly where they
/// are not UTF-8.
pub open spec fn text_of(bytes: Seq<u8>, start: int, len: nat) -> Result<Seq<char>, Halt> {
    if !fits(bytes, start, len as int) {
        Err(Halt::InputExhausted)
    } else if !valid_utf8(bytes.subrange(start, start + len)) {
        Err(Halt::Exit)
    } else {
        Ok(decode_utf8(bytes.subrange(start, start + len)))
    }
}

/// The text of `text_of`, as an owned string.
pub fn read_text(bytes: &[u8], start: usize, len: usize) -> (r: Result<String, Halt>)
    ensures
        match r {
            Ok(s) => text_of(bytes@, start as int, len as nat) == Ok::<Seq<char>, Halt>(s@),
            Err(h) => text_of(bytes@, start as int, len as nat) == Err::<Seq<char>, Halt>(h),
        },
{
    if start > bytes.len() || len > bytes.len() - start {
        return Err(Halt::InputExhausted);
    }
    match _to_str(bytes, start, start + len) {
        Some(s) => {
            let owned = s.to_string();
            proof {
                vstd::string::to_string_from_display_ensures_for_str(s, owned);
                encode_utf8_decode_utf8(s@);
            }
            Ok(owned)
        },
        None => Err(Halt::Exit),
    }
}

/// The big-endian `u16` at `i`, or `None` when it does not fit.
pub fn read_u16(s: &[u8], i: usize) -> (r: Option<u16>)
    ensures
        r == if fits(s@, i as int, 2) { Some(be_u16(s@, i as int) as u16) } else { None::<u16> },
{
    if i <= s.len() && s.len() - i >= 2 {
        Some(_to_u16(s, i))
    } else {
        None
    }
}

/// The byte at `i` as an `i8`, or `None` past the end.
pub fn read_i8(s: &[u8], i: usize) -> (r: Option<i8>)
    ensures
        r == if fits(s@, i as int, 1) { Some(i8_of(s@[i as int]) as i8) } else { None::<i8> },
{
    if i < s.len() {
        Some(_to_i8(s, i))
    } else {
        None
    }
}

/// The `i16` at `i`, or `None` when it does not fit.
pub fn read_i16(s: &[u8], i: usize) -> (r: Option<i16>)
    ensures
        r == if fits(s@, i as int, 2) { Some(mixed_i16(s@, i as int) as i16) } else { None::<i16> },
{
    if i <= s.len() && s.len() - i >= 2 {
        Some(_to_i16(s, i))
    } else {
        None
    }
}

/// The `i64` at `i`, or `None` when it does not fit.
pub fn read_i64(s: &[u8], i: usize) -> (r: Option<i64>)
    ensures
        r == if fits(s@, i as int, 8) { Some(mixed_i64(s@, i as int) as i64) } else { None::<i64> },
{
    if i <= s.len() && s.len() - i >= 8 {
        Some(_to_i64(s, i))
    } else {
        None
    }
}

/// The `i64` at `i` cut to `isize`, or `None` when it does not fit.
pub fn read_isize(s: &[u8], i: usize) -> (r: Option<isize>)
    ensures
        r == if fits(s@, i as int, 8) { Some(mixed_i64(s@, i as int) as isize) } else { None::<isize> },
{
    if i <= s.len() && s.len() - i >= 8 {
        Some(_to_isize(s, i))
    } else {
        None
    }
}

/// The `i128` at `i`, or `None` when it does not fit.
pub fn read_i128(s: &[u8], i: usize) -> (r: Option<i128>)
    ensures
        r == if fits(s@, i as int, 16) { Some(mixed_i128(s@, i as int) as i128) } else { None::<i128> },
{
    if i <= s.len() && s.len() - i >= 16 {
        Some(_to_i128(s, i))
    } else {
        None
    }
}

/// Whether the byte at `i` is even, or `None` past the end.
pub fn read_bool(s: &[u8], i: usize) -> (r: Option<bool>)
    ensures
        r == if fits(s@, i as int, 1) { Some(s@[i as int] % 2 == 0) } else { None::<bool> },
{
    if i < s.len() {
        Some(_to_bool(s, i))
    } else {
        None
    }
}

/// Why a read of a character at `i` stops the run, if it does: it runs past
/// the end, or its code is no Unicode scalar value.
pub open spec fn char_halt(s: Seq<u8>, i: int) -> Option<Halt> {
    if !fits(s, i, 4) {
        Some(Halt::InputExhausted)
    } else if !is_scalar_value(be_u32(s, i) as u32) {
        Some(Halt::Exit)
    } else {
        None
    }
}

/// The character whose code is the big-endian `u32` at `i`, or why reading
/// it stops the run.
pub fn read_char(s: &[u8], i: usize) -> (r: Result<char, Halt>)
    ensures
        match r {
            Ok(c) => char_halt(s@, i as int) is None && c as u32 == be_u32(s@, i as int),
            Err(h) => char_halt(s@, i as int) == Some(h),
        },
{
    if i > s.len() || s.len() - i < 4 {
        return Err(Halt::InputExhausted);
    }
    match _to_char(s, i) {
        Some(c) => Ok(c),
        None => Err(Halt::Exit),
    }
}

} // verus!

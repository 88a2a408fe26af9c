//! Decoding of fixed-width values out of a raw input byte string.
//!
//! Multi-byte integers are read big-endian; each wider value is assembled from
//! two halves of the next smaller width, exactly as `(hi << w) | lo`.
use vstd::prelude::*;
use vstd::utf8::valid_utf8;
use vstd::string::StringSliceAdditionalSpecFns;

verus! {

/// The byte at `i`, read as a two's-complement `i8`.
pub open spec fn i8_of(b: u8) -> int {
    if b < 128 { b as int } else { b as int - 256 }
}

/// Big-endian value of the two bytes at `i`.
pub open spec fn be_u16(s: Seq<u8>, i: int) -> int {
    s[i] * 256 + s[i + 1]
}

/// Big-endian value of the four bytes at `i`.
pub open spec fn be_u32(s: Seq<u8>, i: int) -> int {
    be_u16(s, i) * 0x1_0000 + be_u16(s, i + 2)
}

/// Big-endian value of the eight bytes at `i`.
pub open spec fn be_u64(s: Seq<u8>, i: int) -> int {
    be_u32(s, i) * 0x1_0000_0000 + be_u32(s, i + 4)
}

/// Big-endian value of the sixteen bytes at `i`.
pub open spec fn be_u128(s: Seq<u8>, i: int) -> int {
    be_u64(s, i) * 0x1_0000_0000_0000_0000 + be_u64(s, i + 8)
}

/// Signed combination of two halves: a negative low half, sign-extended,
/// covers every bit of the high half; otherwise the halves concatenate.
pub open spec fn join_signed(hi: int, lo: int, width: int) -> int {
    if lo < 0 { lo } else { hi * width + lo }
}

pub open spec fn mixed_i16(s: Seq<u8>, i: int) -> int {
    join_signed(i8_of(s[i]), i8_of(s[i + 1]), 0x100)
}

pub open spec fn mixed_i32(s: Seq<u8>, i: int) -> int {
    join_signed(mixed_i16(s, i), mixed_i16(s, i + 2), 0x1_0000)
}

pub open spec fn mixed_i64(s: Seq<u8>, i: int) -> int {
    join_signed(mixed_i32(s, i), mixed_i32(s, i + 4), 0x1_0000_0000)
}

pub open spec fn mixed_i128(s: Seq<u8>, i: int) -> int {
    join_signed(mixed_i64(s, i), mixed_i64(s, i + 8), 0x1_0000_0000_0000_0000)
}

/// A `u32` is read big-endian: the first byte is the most significant.
pub proof fn law_u32_big_endian(s: Seq<u8>, i: int)
    ensures
        be_u32(s, i) == s[i] * 0x100_0000 + s[i + 1] * 0x1_0000 + s[i + 2] * 0x100 + s[i + 3],
{
}

/// A `u64` is read big-endian: the first byte is the most significant.
pub proof fn law_u64_big_endian(s: Seq<u8>, i: int)
    ensures
        be_u64(s, i) == s[i] * 0x100_0000_0000_0000 + s[i + 1] * 0x1_0000_0000_0000 + s[i + 2]
            * 0x100_0000_0000 + s[i + 3] * 0x1_0000_0000 + s[i + 4] * 0x100_0000 + s[i + 5]
            * 0x1_0000 + s[i + 6] * 0x100 + s[i + 7],
{
}

/// Decoding looks only at the bytes it reads: inputs that agree on the eight
/// bytes from `i` give the same `u64` and the same mixed-sign `i64` there.
pub proof fn law_decoding_is_local(s1: Seq<u8>, s2: Seq<u8>, i: int)
    requires
        0 <= i,
        i + 8 <= s1.len(),
        i + 8 <= s2.len(),
        s1.subrange(i, i + 8) == s2.subrange(i, i + 8),
    ensures
        be_u64(s1, i) == be_u64(s2, i),
        mixed_i64(s1, i) == mixed_i64(s2, i),
        be_u32(s1, i) == be_u32(s2, i),
        mixed_i32(s1, i) == mixed_i32(s2, i),
{
    let w1 = s1.subrange(i, i + 8);
    let w2 = s2.subrange(i, i + 8);
    assert(w1[0] == s1[i] && w2[0] == s2[i]);
    assert(w1[1] == s1[i + 1] && w2[1] == s2[i + 1]);
    assert(w1[2] == s1[i + 2] && w2[2] == s2[i + 2]);
    assert(w1[3] == s1[i + 3] && w2[3] == s2[i + 3]);
    assert(w1[4] == s1[i + 4] && w2[4] == s2[i + 4]);
    assert(w1[5] == s1[i + 5] && w2[5] == s2[i + 5]);
    assert(w1[6] == s1[i + 6] && w2[6] == s2[i + 6]);
    assert(w1[7] == s1[i + 7] && w2[7] == s2[i + 7]);
}

/// The signed reading of a byte has the same bits as the byte.
pub proof fn law_i8_same_bits(b: u8)
    ensures
        i8_of(b) % 256 == b,
        -128 <= i8_of(b) < 128,
{
}

/// Where the low byte is below 128, the signed `i16` reading has the bits of
/// the unsigned one; where it is 128 or more, the signed reading is that low
/// byte alone, negative.
pub proof fn law_i16_against_u16(s: Seq<u8>, i: int)
    ensures
        s[i + 1] < 128 ==> mixed_i16(s, i) % 0x1_0000 == be_u16(s, i),
        s[i + 1] >= 128 ==> mixed_i16(s, i) == s[i + 1] - 256,
{
    if s[i + 1] < 128 {
        assert(mixed_i16(s, i) == i8_of(s[i]) * 256 + s[i + 1]);
        if s[i] >= 128 {
            assert(mixed_i16(s, i) + 0x1_0000 == be_u16(s, i));
        }
    }
}

/// The byte at `index`.
pub fn _to_u8(data: &[u8], index: usize) -> (r: u8)
    requires
        index < data.len(),
    ensures
        r == data@[index as int],
{
    data[index]
}

/// Big-endian `u16` at `index`.
pub fn _to_u16(data: &[u8], index: usize) -> (r: u16)
    requires
        index + 2 <= data.len(),
    ensures
        r == be_u16(data@, index as int),
{
    let data0 = _to_u8(data, index) as u16;
    let data1 = _to_u8(data, index + 1) as u16;
    assert(data0 << 8u16 | data1 == data0 * 256 + data1) by (bit_vector)
        requires
            data0 < 256,
            data1 < 256,
    ;
    data0 << 8 | data1
}

/// Big-endian `u32` at `index`.
pub fn _to_u32(data: &[u8], index: usize) -> (r: u32)
    requires
        index + 4 <= data.len(),
    ensures
        r == be_u32(data@, index as int),
{
    let data0 = _to_u16(data, index) as u32;
    let data1 = _to_u16(data, index + 2) as u32;
    assert(data0 << 16u32 | data1 == data0 * 0x1_0000 + data1) by (bit_vector)
        requires
            data0 < 0x1_0000,
            data1 < 0x1_0000,
    ;
    data0 << 16 | data1
}

/// Big-endian `u64` at `index`.
pub fn _to_u64(data: &[u8], index: usize) -> (r: u64)
    requires
        index + 8 <= data.len(),
    ensures
        r == be_u64(data@, index as int),
{
    let data0 = _to_u32(data, index) as u64;
    let data1 = _to_u32(data, index + 4) as u64;
    assert(data0 << 32u64 | data1 == data0 * 0x1_0000_0000 + data1) by (bit_vector)
        requires
            data0 < 0x1_0000_0000,
            data1 < 0x1_0000_0000,
    ;
    data0 << 32 | data1
}

/// Big-endian `u128` at `index`.
pub fn _to_u128(data: &[u8], index: usize) -> (r: u128)
    requires
        index + 16 <= data.len(),
    ensures
        r == be_u128(data@, index as int),
{
    let data0 = _to_u64(data, index) as u128;
    let data1 = _to_u64(data, index + 8) as u128;
    assert(data0 << 64u128 | data1 == data0 * 0x1_0000_0000_0000_0000 + data1) by (bit_vector)
        requires
            data0 < 0x1_0000_0000_0000_0000,
            data1 < 0x1_0000_0000_0000_0000,
    ;
    data0 << 64 | data1
}

/// The big-endian `u64` at `index`, cut to the width of `usize`.
pub fn _to_usize(data: &[u8], index: usize) -> (r: usize)
    requires
        index + 8 <= data.len(),
    ensures
        r == be_u64(data@, index as int) as usize,
{
    _to_u64(data, index) as usize
}

/// The byte at `index` as a two's-complement `i8`.
pub fn _to_i8(data: &[u8], index: usize) -> (r: i8)
    requires
        index < data.len(),
    ensures
        r == i8_of(data@[index as int]),
{
    let b = data[index];
    assert(b as i8 == if b < 128 { b as int } else { b as int - 256 }) by (bit_vector);
    b as i8
}


/// Two `i8` halves at `index`, joined as `(hi << 8) | lo` in `i16`.
pub fn _to_i16(data: &[u8], index: usize) -> (r: i16)
    requires
        index + 2 <= data.len(),
    ensures
        r == mixed_i16(data@, index as int),
{
    let data0 = _to_i8(data, index) as i16;
    let data1 = _to_i8(data, index + 1) as i16;
    assert(data0 << 8i16 | data1 == if data1 < 0 { data1 as int } else { data0 * 256 + data1 })
        by (bit_vector)
        requires
            -128 <= data0 < 128,
            -128 <= data1 < 128,
    ;
    data0 << 8 | data1
}

/// Two `i16` halves at `index`, joined as `(hi << 16) | lo` in `i32`.
pub fn _to_i32(data: &[u8], index: usize) -> (r: i32)
    requires
        index + 4 <= data.len(),
    ensures
        r == mixed_i32(data@, index as int),
{
    let data0 = _to_i16(data, index) as i32;
    let data1 = _to_i16(data, index + 2) as i32;
    assert(data0 << 16i32 | data1 == if data1 < 0 { data1 as int } else { data0 * 0x1_0000 + data1 })
        by (bit_vector)
        requires
            -0x8000 <= data0 < 0x8000,
            -0x8000 <= data1 < 0x8000,
    ;
    data0 << 16 | data1
}

/// Two `i32` halves at `index`, joined as `(hi << 32) | lo` in `i64`.
pub fn _to_i64(data: &[u8], index: usize) -> (r: i64)
    requires
        index + 8 <= data.len(),
    ensures
        r == mixed_i64(data@, index as int),
{
    let data0 = _to_i32(data, index) as i64;
    let data1 = _to_i32(data, index + 4) as i64;
    assert(data0 << 32i64 | data1 == if data1 < 0 { data1 as int } else { data0 * 0x1_0000_0000 + data1 })
        by (bit_vector)
        requires
            -0x8000_0000 <= data0 < 0x8000_0000,
            -0x8000_0000 <= data1 < 0x8000_0000,
    ;
    data0 << 32 | data1
}

/// Two `i64` halves at `index`, joined as `(hi << 64) | lo` in `i128`.
pub fn _to_i128(data: &[u8], index: usize) -> (r: i128)
    requires
        index + 16 <= data.len(),
    ensures
        r == mixed_i128(data@, index as int),
{
    let data0 = _to_i64(data, index) as i128;
    let data1 = _to_i64(data, index + 8) as i128;
    assert(data0 << 64i128 | data1 == if data1 < 0 {
        data1 as int
    } else {
        data0 * 0x1_0000_0000_0000_0000 + data1
    }) by (bit_vector)
        requires
            -0x8000_0000_0000_0000 <= data0 < 0x8000_0000_0000_0000,
            -0x8000_0000_0000_0000 <= data1 < 0x8000_0000_0000_0000,
    ;
    data0 << 64 | data1
}

/// The mixed-sign `i64` at `index`, cut to the width of `isize`.
pub fn _to_isize(data: &[u8], index: usize) -> (r: isize)
    requires
        index + 8 <= data.len(),
    ensures
        r == mixed_i64(data@, index as int) as isize,
{
    _to_i64(data, index) as isize
}

/// `true` exactly when the byte at `index` is even.
pub fn _to_bool(data: &[u8], index: usize) -> (r: bool)
    requires
        index < data.len(),
    ensures
        r == (data@[index as int] % 2 == 0),
{
    let bool_value = _to_u8(data, index);
    if bool_value % 2 == 0 {
        true
    } else {
        false
    }
}


/// Whether `v` is a Unicode scalar value: at most `0x10FFFF` and outside the
/// surrogate range `0xD800..=0xDFFF`.
pub open spec fn is_scalar_value(v: u32) -> bool {
    v <= 0x10FFFF && !(0xD800 <= v && v <= 0xDFFF)
}

/// `char::from_u32`: `Some` exactly for Unicode scalar values, holding the
/// character with that code.
#[verifier::external_body]
fn char_from_u32(v: u32) -> (r: Option<char>)
    ensures
        r is Some <==> is_scalar_value(v),
        r matches Some(c) ==> c as u32 == v,
{
    char::from_u32(v)
}

/// `std::str::from_utf8`: a string over exactly these bytes when they are
/// valid UTF-8, and `None` (the library's stand-in for the `Utf8Error`)
/// otherwise.
#[verifier::external_body]
fn str_from_utf8(v: &[u8]) -> (r: Option<&str>)
    ensures
        r is Some <==> valid_utf8(v@),
        r matches Some(s) ==> s.spec_bytes() == v@,
{
    match std::str::from_utf8(v) {
        Ok(s) => Some(s),
        Err(_) => None,
    }
}

/// The character whose code is the big-endian `u32` at `index`, or `None`
/// where that code is no Unicode scalar value (the point at which the
/// program gives up on the input).
pub fn _to_char(data: &[u8], index: usize) -> (r: Option<char>)
    requires
        index + 4 <= data.len(),
    ensures
        r is Some <==> is_scalar_value(be_u32(data@, index as int) as u32),
        r matches Some(c) ==> c as u32 == be_u32(data@, index as int),
{
    let char_value = _to_u32(data, index);
    char_from_u32(char_value)
}

/// The bytes `start_index..end_index` as text, or `None` where they are not
/// valid UTF-8 (the point at which the program gives up on the input).
pub fn _to_str(data: &[u8], start_index: usize, end_index: usize) -> (r: Option<&str>)
    requires
        start_index <= end_index <= data.len(),
    ensures
        r is Some <==> valid_utf8(data@.subrange(start_index as int, end_index as int)),
        r matches Some(s) ==> s.spec_bytes() == data@.subrange(start_index as int, end_index as int),
{
    let data_slice = slice_range(data, start_index, end_index);
    str_from_utf8(data_slice)
}

/// The sub-slice `start..end` of `data`.
fn slice_range(data: &[u8], start: usize, end: usize) -> (r: &[u8])
    requires
        start <= end <= data.len(),
    ensures
        r@ == data@.subrange(start as int, end as int),
{
    &data[start..end]
}

/// The value inside a `Some`.
pub fn _unwrap_option<T>(opt: Option<T>) -> (r: T)
    requires
        opt is Some,
    ensures
        opt == Some(r),
{
    match opt {
        Some(t) => t,
        None => vstd::pervasive::unreached(),
    }
}

/// The value inside an `Ok`.
pub fn _unwrap_result<T, E>(res: Result<T, E>) -> (r: T)
    requires
        res is Ok,
    ensures
        res == Ok::<T, E>(r),
{
    match res {
        Ok(t) => t,
        Err(_) => vstd::pervasive::unreached(),
    }
}

} // verus!

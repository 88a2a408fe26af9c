use vec_fuzz::bytes::{
    _to_bool, _to_char, _to_i128, _to_i16, _to_i32, _to_i64, _to_i8, _to_isize, _to_str, _to_u128,
    _to_u16, _to_u32, _to_u64, _to_u8, _to_usize, _unwrap_option, _unwrap_result,
};

const DATA: [u8; 20] = [
    0x12, 0x34, 0x56, 0x78, 0x9a, 0xbc, 0xde, 0xf0, 0x01, 0x02, 0x03, 0x04, 0x05, 0x06, 0x07,
    0x08, 0xff, 0x80, 0x7f, 0x00,
];

#[test]
fn unsigned_values_are_big_endian() {
    assert_eq!(_to_u8(&DATA, 0), 0x12);
    assert_eq!(_to_u16(&DATA, 0), 0x1234);
    assert_eq!(_to_u32(&DATA, 0), 0x1234_5678);
    assert_eq!(_to_u64(&DATA, 0), 0x1234_5678_9abc_def0);
    assert_eq!(_to_u128(&DATA, 0), 0x1234_5678_9abc_def0_0102_0304_0506_0708);
    assert_eq!(_to_u16(&DATA, 16), 0xff80);
}

#[test]
fn usize_is_the_u64_cut_to_width() {
    assert_eq!(_to_usize(&DATA, 8) as u64, 0x0102_0304_0506_0708u64 as usize as u64);
    assert_eq!(_to_usize(&DATA, 0), 0x1234_5678_9abc_def0u64 as usize);
}

#[test]
fn i8_is_twos_complement() {
    assert_eq!(_to_i8(&DATA, 16), -1);
    assert_eq!(_to_i8(&DATA, 17), -128);
    assert_eq!(_to_i8(&DATA, 18), 127);
}

#[test]
fn signed_halves_concatenate_when_the_low_half_is_not_negative() {
    // 0x12, 0x34: both halves non-negative.
    assert_eq!(_to_i16(&DATA, 0), 0x1234);
    // 0x80, 0x7f: high half -128, low half 127.
    assert_eq!(_to_i16(&DATA, 17), -128 * 256 + 127);
    // 0x01020304 and 0x05060708 as i32 halves.
    assert_eq!(_to_i64(&DATA, 8), 0x0102_0304_0506_0708);
}

#[test]
fn a_negative_low_half_covers_the_high_half() {
    // 0x7f, 0xff -> low half -1 sign-extended: the result is -1.
    let data = [0x7f, 0xff, 0x12, 0x80];
    assert_eq!(_to_i16(&data, 0), -1);
    // 0x12, 0x80 -> low half -128.
    assert_eq!(_to_i16(&data, 2), -128);
    // i32 from 0x7fff (-1 as i16) and 0x1280 (-128 as i16): low half -128.
    assert_eq!(_to_i32(&data, 0), -128);
    // 0x9abc: low byte 0xbc is negative.
    assert_eq!(_to_i16(&DATA, 4), 0xbcu8 as i8 as i16);
}

#[test]
fn wide_signed_values() {
    // 0x1234_5678 as i32: both i16 halves non-negative.
    assert_eq!(_to_i32(&DATA, 0), 0x1234_5678);
    // i64 at 0: low i32 half at 4 is 0x9abc_def0, whose low i16 half
    // 0xdef0 has a negative low byte 0xf0 -> -16.
    assert_eq!(_to_i64(&DATA, 0), -16);
    assert_eq!(_to_isize(&DATA, 0), -16);
    // i128 at 0: low half is the i64 at 8 = 0x0102_0304_0506_0708.
    assert_eq!(_to_i128(&DATA, 0), (-16i128) * (1i128 << 64) + 0x0102_0304_0506_0708);
}

#[test]
fn bool_is_even_byte() {
    assert!(_to_bool(&DATA, 0));
    assert!(!_to_bool(&DATA, 16));
    assert!(_to_bool(&DATA, 19));
}

#[test]
fn char_of_scalar_values_only() {
    let a = [0x00, 0x00, 0x00, 0x41];
    assert_eq!(_to_char(&a, 0), Some('A'));
    let surrogate = [0x00, 0x00, 0xd8, 0x00];
    assert_eq!(_to_char(&surrogate, 0), None);
    let too_big = [0x00, 0x11, 0x00, 0x00];
    assert_eq!(_to_char(&too_big, 0), None);
    let max = [0x00, 0x10, 0xff, 0xff];
    assert_eq!(_to_char(&max, 0), Some('\u{10ffff}'));
}

#[test]
fn str_of_valid_utf8_only() {
    let bytes = b"xhello\xffz";
    assert_eq!(_to_str(bytes, 1, 6), Some("hello"));
    assert_eq!(_to_str(bytes, 1, 7), None);
    assert_eq!(_to_str(bytes, 3, 3), Some(""));
}

#[test]
fn unwrapping() {
    assert_eq!(_unwrap_option(Some(5u8)), 5);
    let r: Result<&str, u8> = Ok("ok");
    assert_eq!(_unwrap_result(r), "ok");
}

#[test]
fn i16_agrees_with_u16_when_the_low_byte_is_small() {
    let data = [0xff, 0x10, 0x12, 0xf0];
    assert_eq!(_to_i16(&data, 0) as u16, _to_u16(&data, 0));
    assert_eq!(_to_i16(&data, 2), 0xf0 - 256);
}

#[test]
fn decoding_reads_only_its_window() {
    let a = [9, 1, 2, 3, 4, 5, 6, 7, 8, 9];
    let b = [0, 1, 2, 3, 4, 5, 6, 7, 8, 0];
    assert_eq!(_to_u64(&a, 1), _to_u64(&b, 1));
    assert_eq!(_to_i64(&a, 1), _to_i64(&b, 1));
}

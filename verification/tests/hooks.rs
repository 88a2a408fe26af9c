use vec_fuzz::hooks::{
    clone_number, clone_text, guard, guarded_bool, guarded_text, guarded_true, hash_number,
    read_text, select_half, text_eq, Half,
};
use vec_fuzz::script::Halt;

fn halves() -> (Vec<u8>, Vec<u8>) {
    let mut first = vec![0u8; 64];
    let mut second = vec![0u8; 64];
    first[0..8].copy_from_slice(&1u64.to_be_bytes());
    first[8..16].copy_from_slice(&5u64.to_be_bytes());
    second[8..16].copy_from_slice(&9u64.to_be_bytes());
    (first, second)
}

#[test]
fn selector_picks_by_sum_modulo_three() {
    let (first, _) = halves();
    assert_eq!(select_half(&first, 0, 0), Ok(Half::First));
    assert_eq!(select_half(&first, 0, 1), Ok(Half::Second));
    assert_eq!(select_half(&first, 0, 2), Err(Halt::Intentional));
    // every three instances the choice repeats
    assert_eq!(select_half(&first, 0, 3), select_half(&first, 0, 0));
    assert_eq!(select_half(&first, 0, 4), select_half(&first, 0, 1));
}

#[test]
fn selector_overflow_and_short_input() {
    let mut first = vec![0xffu8; 8];
    assert_eq!(select_half(&first, 0, 1), Err(Halt::ArithmeticOverflow));
    first.truncate(7);
    assert_eq!(select_half(&first, 0, 0), Err(Halt::InputExhausted));
}

#[test]
fn number_clone_reads_the_selected_half() {
    let (first, second) = halves();
    assert_eq!(clone_number(&first, &second, 0, 8, 0), Ok(5));
    assert_eq!(clone_number(&first, &second, 0, 8, 1), Ok(9));
    assert_eq!(clone_number(&first, &second, 0, 8, 2), Err(Halt::Intentional));
    assert_eq!(clone_number(&first, &second, 0, 60, 0), Err(Halt::InputExhausted));
}

#[test]
fn number_hash_only_stops() {
    let (first, _) = halves();
    assert_eq!(hash_number(&first, 0, 0), Ok(()));
    assert_eq!(hash_number(&first, 0, 2), Err(Halt::Intentional));
}

#[test]
fn text_equality_is_a_parity() {
    let (mut first, mut second) = halves();
    first[20] = 4;
    second[20] = 3;
    // the selector is keyed by the text length: 1 + 0 -> first, 1 + 1 -> second
    assert_eq!(text_eq(&first, &second, 0, 20, ""), Ok(true));
    assert_eq!(text_eq(&first, &second, 0, 20, "a"), Ok(false));
    assert_eq!(text_eq(&first, &second, 0, 20, "ab"), Err(Halt::Intentional));
}

#[test]
fn text_reading() {
    let mut bytes = vec![0u8; 40];
    bytes[10] = 3;
    bytes[11..14].copy_from_slice(b"abc");
    assert_eq!(read_text(&bytes, 10, 17), Ok("abc".to_string()));
    // the length is taken modulo 2: 3 % 2 = 1
    assert_eq!(read_text(&bytes, 10, 2), Ok("a".to_string()));
    bytes[11] = 0xff;
    assert_eq!(read_text(&bytes, 10, 17), Err(Halt::Exit));
    bytes[30] = 16;
    assert_eq!(read_text(&bytes, 30, 17), Err(Halt::InputExhausted));
}

#[test]
fn text_clone_reads_the_selected_half() {
    let (mut first, mut second) = halves();
    first[20] = 2;
    first[21..23].copy_from_slice(b"hi");
    second[20] = 1;
    second[21] = b'z';
    assert_eq!(clone_text(&first, &second, 0, 20, ""), Ok("hi".to_string()));
    assert_eq!(clone_text(&first, &second, 0, 20, "x"), Ok("z".to_string()));
    assert_eq!(clone_text(&first, &second, 0, 20, "xy"), Err(Halt::Intentional));
}

#[test]
fn guarded_callbacks() {
    let mut bytes = vec![0u8; 16];
    bytes[0] = 3;
    bytes[1] = 7;
    assert_eq!(guard(&bytes, 0, 2), Ok(()));
    assert_eq!(guard(&bytes, 0, 3), Err(Halt::Intentional));
    assert_eq!(guarded_bool(&bytes, 0, 2, 1), Ok(false));
    assert_eq!(guarded_bool(&bytes, 0, 2, 2), Ok(true));
    assert_eq!(guarded_bool(&bytes, 0, 3, 1), Err(Halt::Intentional));
    assert_eq!(guarded_true(&bytes, 0, 4), Ok(true));
    assert_eq!(guarded_true(&bytes, 2, 4), Err(Halt::Intentional));
    assert_eq!(guarded_true(&bytes, 20, 4), Err(Halt::InputExhausted));
    bytes[4] = 2;
    bytes[5..7].copy_from_slice(b"ok");
    assert_eq!(guarded_text(&bytes, 0, 2, 4, 17), Ok("ok".to_string()));
    assert_eq!(guarded_text(&bytes, 0, 3, 4, 17), Err(Halt::Intentional));
}

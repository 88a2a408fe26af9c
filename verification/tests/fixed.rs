use vec_fuzz::fixed::{run, Event};
use vec_fuzz::script::Halt;
use vec_fuzz::small_vec::Order;

fn w(x: u64) -> [u8; 8] {
    x.to_be_bytes()
}

/// A first half of 2500 bytes running the operations `ops`, in turn.
fn first(ops: &[u8]) -> Vec<u8> {
    let mut g = vec![0u8; 2500];
    g[10] = ops.len() as u8;
    for (k, op) in ops.iter().enumerate() {
        g[11 + k] = *op;
    }
    g
}

fn put(g: &mut [u8], at: usize, bytes: &[u8]) {
    g[at..at + bytes.len()].copy_from_slice(bytes);
}

fn second() -> Vec<u8> {
    vec![0u8; 2500]
}

#[test]
fn fixed_inputs_below_2800_bytes_are_ignored() {
    let g = first(&[3]);
    let r = run(2799, &g, &second());
    assert!(r.events.is_empty());
    assert_eq!(r.halt, None);
}

#[test]
fn fixed_operation_count_wraps_at_64() {
    let mut g = first(&[3]);
    g[10] = 64;
    let r = run(5000, &g, &second());
    assert!(r.events.is_empty());
    assert_eq!(r.halt, None);
}

#[test]
fn fixed_float_operation_is_left_to_the_caller() {
    let g = first(&[3, 15]);
    let r = run(5000, &g, &second());
    assert_eq!(r.events, vec![Event::FloatOp, Event::FloatOp]);
    assert_eq!(r.halt, None);
}

#[test]
fn fixed_bytes_drained_from_a_read_range() {
    let mut g = first(&[1]);
    g[500] = 3;
    put(&mut g, 501, &[7, 8, 9]);
    put(&mut g, 600, &w(1));
    put(&mut g, 608, &w(2));
    let r = run(5000, &g, &second());
    assert_eq!(r.events, vec![Event::Count(32), Event::Count(0), Event::U8(8)]);
    assert_eq!(r.halt, None);
}

#[test]
fn fixed_an_empty_range_drains_everything() {
    let mut g = first(&[1]);
    g[500] = 3;
    put(&mut g, 501, &[7, 8, 9]);
    put(&mut g, 600, &w(5));
    put(&mut g, 608, &w(1));
    let r = run(5000, &g, &second());
    assert_eq!(r.events, vec![Event::Count(32), Event::Count(0), Event::U8(7)]);
}

#[test]
fn fixed_nothing_to_drain_from_an_empty_vector() {
    let g = first(&[1, 3]);
    let r = run(5000, &g, &second());
    assert_eq!(r.events, vec![Event::Count(32), Event::Count(0), Event::FloatOp]);
    assert_eq!(r.halt, None);
}

#[test]
fn fixed_two_vectors_compared_then_appended() {
    let mut g = first(&[2]);
    g[700] = 2;
    put(&mut g, 701, &[0, 0, 0, 1, 0, 0, 0, 2]);
    g[800] = 2;
    put(&mut g, 801, &[0, 0, 0, 1, 0, 0, 0, 3]);
    let r = run(5000, &g, &second());
    assert_eq!(
        r.events,
        vec![Event::Flag(false), Event::Compared(Order::Less), Event::Compared(Order::Less), Event::Count(16)]
    );
    assert_eq!(r.halt, None);
}

#[test]
fn fixed_equal_vectors_are_equal() {
    let mut g = first(&[2]);
    g[700] = 1;
    put(&mut g, 701, &[0, 0, 0, 4]);
    g[800] = 1;
    put(&mut g, 801, &[0, 0, 0, 4]);
    let r = run(5000, &g, &second());
    assert_eq!(
        r.events,
        vec![Event::Flag(true), Event::Compared(Order::Equal), Event::Compared(Order::Equal), Event::Count(16)]
    );
}

#[test]
fn fixed_truncated_numbers_then_addresses() {
    let mut g = first(&[4]);
    put(&mut g, 1100, &w(3));
    let r = run(5000, &g, &second());
    assert_eq!(r.events.len(), 4);
    assert_eq!(r.events[..2], [Event::Count(3), Event::U64(1)]);
    assert!(matches!(r.events[2], Event::Ptr(_)));
    assert!(matches!(r.events[3], Event::MutPtr(_)));
    assert_eq!(r.halt, None);
}

#[test]
fn fixed_truncated_to_nothing_shows_no_number() {
    let mut g = first(&[4]);
    put(&mut g, 1100, &w(20));
    let r = run(5000, &g, &second());
    assert_eq!(r.events.len(), 3);
    assert_eq!(r.events[..1], [Event::Count(0)]);
}

#[test]
fn fixed_resized_deduplicated_and_filtered() {
    let mut g = first(&[5]);
    put(&mut g, 1300, &w(14));
    put(&mut g, 1308, &[0, 3]);
    put(&mut g, 1350, &w(15));
    put(&mut g, 1400, &[0, 4]);
    let r = run(5000, &g, &second());
    assert_eq!(r.events, vec![Event::Count(2), Event::Count(2)]);
    assert_eq!(r.halt, None);
}

#[test]
fn fixed_resized_down_keeps_a_single_value() {
    let mut g = first(&[5]);
    put(&mut g, 1300, &w(5));
    put(&mut g, 1350, &w(3));
    let r = run(5000, &g, &second());
    assert_eq!(r.events, vec![Event::Count(1), Event::Count(1)]);
}

#[test]
fn fixed_first_characters_are_shown() {
    let mut g = first(&[6]);
    g[1500] = 2;
    put(&mut g, 1501, &[0, 0, 0, 65, 0, 0, 0, 66]);
    let r = run(5000, &g, &second());
    assert_eq!(r.events, vec![Event::Char('A'), Event::Char('B')]);
    assert_eq!(r.halt, None);
}

#[test]
fn fixed_only_five_characters_are_shown() {
    let mut g = first(&[6]);
    g[1500] = 7;
    for k in 0..7 {
        put(&mut g, 1501 + 4 * k, &[0, 0, 0, 97 + k as u8]);
    }
    let r = run(5000, &g, &second());
    assert_eq!(
        r.events,
        vec![Event::Char('a'), Event::Char('b'), Event::Char('c'), Event::Char('d'), Event::Char('e')]
    );
}

#[test]
fn fixed_a_surrogate_ends_the_run_quietly() {
    let mut g = first(&[6, 3]);
    g[1500] = 1;
    put(&mut g, 1501, &[0, 0, 0xD8, 0]);
    let r = run(5000, &g, &second());
    assert!(r.events.is_empty());
    assert_eq!(r.halt, Some(Halt::Exit));
}

#[test]
fn fixed_texts_and_a_clone_of_two() {
    let mut g = first(&[7]);
    g[1700] = 2;
    let r = run(5000, &g, &second());
    assert_eq!(
        r.events,
        vec![Event::Count(1), Event::Count(18), Event::Flag(false), Event::Flag(false), Event::Count(2)]
    );
    assert_eq!(r.halt, None);
}

#[test]
fn fixed_a_clone_of_repeated_texts() {
    let mut g = first(&[7]);
    g[1700] = 3;
    put(&mut g, 1720, &w(17));
    let r = run(5000, &g, &second());
    assert_eq!(r.events[4], Event::Count(7));
}

#[test]
fn fixed_a_huge_text_capacity_overflows() {
    let mut g = first(&[7]);
    g[1700] = 1;
    put(&mut g, 1705, &w(u64::MAX));
    let r = run(5000, &g, &second());
    assert!(r.events.is_empty());
    assert_eq!(r.halt, Some(Halt::CapacityOverflow));
}

#[test]
fn fixed_flags_drained_grown_and_read() {
    let mut g = first(&[8]);
    g[1800] = 3;
    put(&mut g, 1801, &[0, 1, 0]);
    put(&mut g, 1860, &w(1));
    put(&mut g, 1920, &w(2));
    put(&mut g, 1950, &w(1));
    let r = run(5000, &g, &second());
    assert_eq!(r.events, vec![Event::Bool(true), Event::Bool(true)]);
    assert_eq!(r.halt, None);
}

#[test]
fn fixed_growing_below_the_length_is_refused() {
    let mut g = first(&[8]);
    g[1800] = 3;
    put(&mut g, 1801, &[0, 1, 0]);
    put(&mut g, 1860, &w(1));
    put(&mut g, 1920, &w(1));
    let r = run(5000, &g, &second());
    assert_eq!(r.events, vec![Event::Bool(true)]);
    assert_eq!(r.halt, Some(Halt::OutOfRange));
}

#[test]
fn fixed_a_huge_exact_reservation_overflows() {
    let mut g = first(&[8]);
    put(&mut g, 1900, &w(u64::MAX));
    let r = run(5000, &g, &second());
    assert!(r.events.is_empty());
    assert_eq!(r.halt, Some(Halt::CapacityOverflow));
}

#[test]
fn fixed_extended_inserted_and_reserved() {
    let mut g = first(&[9]);
    put(&mut g, 2100, &[0, 0, 0, 5]);
    put(&mut g, 2110, &[0, 0, 0, 6]);
    put(&mut g, 2120, &[0, 0, 0, 7]);
    put(&mut g, 2160, &[0, 0, 0, 8]);
    put(&mut g, 2170, &[0, 0, 0, 9]);
    let r = run(5000, &g, &second());
    assert_eq!(r.events, vec![Event::ReserveOk, Event::ReserveExactOk, Event::U32(8)]);
    assert_eq!(r.halt, None);
}

#[test]
fn fixed_an_overflowing_reservation_fails_quietly() {
    let mut g = first(&[9]);
    g[2000] = 2;
    put(&mut g, 2020, &[0, 0, 0, 4]);
    put(&mut g, 2030, &w(2));
    put(&mut g, 2150, &w(9));
    put(&mut g, 2200, &w(u64::MAX));
    put(&mut g, 2220, &w(u64::MAX));
    let r = run(5000, &g, &second());
    assert_eq!(r.events, vec![Event::U32(4)]);
    assert_eq!(r.halt, None);
}

#[test]
fn fixed_numbers_deduplicated_by_last_digit() {
    let mut g = first(&[10]);
    g[2300] = 3;
    put(&mut g, 2301, &w(15));
    put(&mut g, 2309, &w(25));
    put(&mut g, 2317, &w(31));
    put(&mut g, 2450, &w(2));
    let r = run(5000, &g, &second());
    assert_eq!(r.events, vec![Event::GrowOk, Event::Usize(15), Event::IntoInnerFailed(2)]);
    assert_eq!(r.halt, None);
}

#[test]
fn fixed_a_full_inline_vector_gives_its_array() {
    let mut g = first(&[10]);
    g[2300] = 16;
    for k in 0..16u64 {
        put(&mut g, 2301 + 8 * k as usize, &w(k + 1));
    }
    g[2400] = 2;
    put(&mut g, 2450, &w(16));
    let r = run(5000, &g, &second());
    assert_eq!(r.events, vec![Event::GrowOk, Event::Usize(1), Event::IntoInnerOk(16)]);
}

#[test]
fn fixed_growing_numbers_below_their_length_is_refused() {
    let mut g = first(&[10]);
    g[2300] = 2;
    put(&mut g, 2301, &w(1));
    put(&mut g, 2309, &w(2));
    g[2400] = 2;
    put(&mut g, 2450, &w(1));
    let r = run(5000, &g, &second());
    assert!(r.events.is_empty());
    assert_eq!(r.halt, Some(Halt::OutOfRange));
}

#[test]
fn fixed_hashed_elements_and_their_clone() {
    let mut g = first(&[11]);
    g[1600] = 2;
    put(&mut g, 1601, &w(1));
    put(&mut g, 1609, &w(4));
    let r = run(5000, &g, &second());
    assert_eq!(r.events, vec![Event::Count(2), Event::Count(2), Event::Count(2)]);
    assert_eq!(r.halt, None);
}

#[test]
fn fixed_no_elements_no_clone() {
    let g = first(&[11]);
    let r = run(5000, &g, &second());
    assert_eq!(r.events, vec![Event::Count(0), Event::Count(0)]);
}

#[test]
fn fixed_hashing_a_multiple_of_three_panics() {
    let mut g = first(&[11]);
    g[1600] = 1;
    put(&mut g, 1601, &w(3));
    let r = run(5000, &g, &second());
    assert!(r.events.is_empty());
    assert_eq!(r.halt, Some(Halt::Intentional));
}

#[test]
fn fixed_a_clone_can_panic_after_the_length() {
    let mut g = first(&[11]);
    put(&mut g, 42, &w(2));
    g[1600] = 1;
    put(&mut g, 1601, &w(1));
    let r = run(5000, &g, &second());
    assert_eq!(r.events, vec![Event::Count(1)]);
    assert_eq!(r.halt, Some(Halt::Intentional));
}

/// Operation 0 over 32 numbers: the first is 7, the rest 1 but the last,
/// which carries the constructor byte at 300 and is no multiple of 3.
fn numbers(choice: u8) -> Vec<u8> {
    let mut g = first(&[0]);
    put(&mut g, 50, &w(7));
    for k in 1..31 {
        put(&mut g, 50 + 8 * k, &w(1));
    }
    g[300] = choice;
    if choice % 3 == 0 {
        g[305] = 1;
    }
    g
}

#[test]
fn fixed_hashing_stops_at_a_multiple_of_three() {
    let mut g = numbers(3);
    g[305] = 0;
    let r = run(5000, &g, &second());
    assert!(r.events.is_empty());
    assert_eq!(r.halt, Some(Halt::Intentional));
}

#[test]
fn fixed_numbers_taken_over_from_a_vec() {
    let g = numbers(2);
    let r = run(5000, &g, &second());
    assert_eq!(r.events, vec![Event::Number(7), Event::Number(7)]);
    assert_eq!(r.halt, None);
}

#[test]
fn fixed_numbers_copied_from_a_slice() {
    let g = numbers(3);
    let r = run(5000, &g, &second());
    assert_eq!(r.events, vec![Event::Number(7), Event::Number(7)]);
}

#[test]
fn fixed_an_empty_vector_shows_nothing() {
    let g = numbers(0);
    let r = run(5000, &g, &second());
    assert!(r.events.is_empty());
    assert_eq!(r.halt, None);
}

#[test]
fn fixed_copies_of_one_element_are_clones() {
    let mut g = numbers(4);
    put(&mut g, 450, &w(5));
    put(&mut g, 458, &w(3));
    let mut s = second();
    put(&mut s, 50, &w(11));
    let r = run(5000, &g, &s);
    assert_eq!(r.events, vec![Event::Number(11), Event::Number(11)]);
}

#[test]
fn fixed_a_short_first_half_is_exhausted() {
    let g = first(&[6]);
    let r = run(2800, &g[..1400], &second());
    assert!(r.events.is_empty());
    assert_eq!(r.halt, Some(Halt::InputExhausted));
}

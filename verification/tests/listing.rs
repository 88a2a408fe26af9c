use vec_fuzz::listing::{run, Event};
use vec_fuzz::script::Halt;
use vec_fuzz::small_vec::Order;

fn w(x: u64) -> [u8; 8] {
    x.to_be_bytes()
}

fn put(g: &mut [u8], at: usize, bytes: &[u8]) {
    g[at..at + bytes.len()].copy_from_slice(bytes);
}

/// A first half of 400 bytes running the one operation `op`, whose block
/// starts at byte 10.
fn first(op: u8) -> Vec<u8> {
    let mut g = vec![0u8; 400];
    g[0] = 1;
    g[10] = op;
    g
}

const B: usize = 10;

#[test]
fn listing_inputs_below_200_bytes_are_ignored() {
    let g = first(4);
    let r = run(199, &g);
    assert!(r.events.is_empty());
    assert_eq!(r.halt, None);
}

#[test]
fn listing_operation_count_wraps_at_65() {
    let mut g = first(4);
    g[0] = 65;
    let r = run(800, &g);
    assert!(r.events.is_empty());
}

#[test]
fn listing_stops_where_a_block_runs_past_the_half() {
    let mut g = vec![4u8; 50];
    g[0] = 5;
    let r = run(800, &g);
    assert_eq!(r.events, vec![Event::FloatOp(10), Event::FloatOp(30)]);
    assert_eq!(r.halt, None);
}

#[test]
fn listing_an_empty_vector_has_length_zero() {
    let g = first(0);
    let r = run(800, &g);
    assert_eq!(r.events, vec![Event::Count(0)]);
}

#[test]
fn listing_values_taken_over_from_a_vec() {
    let mut g = first(0);
    g[B + 1] = 2;
    g[B + 10] = 2;
    put(&mut g, B + 11, &[0, 0, 0, 3, 0, 0, 0, 4]);
    let r = run(800, &g);
    assert_eq!(r.events, vec![Event::Count(2), Event::I32(3), Event::I32(4)]);
}

#[test]
fn listing_copies_of_one_value() {
    let mut g = first(0);
    g[B + 1] = 4;
    put(&mut g, B + 2, &[0, 0, 0, 7]);
    put(&mut g, B + 6, &w(3));
    let r = run(800, &g);
    assert_eq!(r.events, vec![Event::Count(3), Event::I32(7), Event::I32(7), Event::I32(7)]);
}

#[test]
fn listing_too_many_copies_overflow() {
    let mut g = first(0);
    g[B + 1] = 4;
    put(&mut g, B + 6, &w(u64::MAX));
    let r = run(800, &g);
    assert!(r.events.is_empty());
    assert_eq!(r.halt, Some(Halt::CapacityOverflow));
}

#[test]
fn listing_an_array_of_three_and_a_fourth() {
    let mut g = first(1);
    put(&mut g, B + 1, &[0, 0, 0, 1, 0, 0, 0, 2, 0, 0, 0, 3, 0, 0, 0, 4]);
    let r = run(800, &g);
    assert_eq!(r.events, vec![Event::I32(1), Event::I32(2), Event::I32(3), Event::I32(4)]);
}

#[test]
fn listing_a_prefix_of_an_array_of_i64() {
    let mut g = first(2);
    g[B + 1] = 2;
    put(&mut g, B + 2, &w(5));
    put(&mut g, B + 10, &w(3));
    let r = run(800, &g);
    assert_eq!(r.events, vec![Event::I64(5), Event::I64(3), Event::I64(0)]);
}

#[test]
fn listing_a_length_past_the_array_is_refused() {
    let mut g = first(2);
    put(&mut g, B + 10, &w(33));
    let r = run(800, &g);
    assert!(r.events.is_empty());
    assert_eq!(r.halt, Some(Halt::OutOfRange));
}

#[test]
fn listing_bytes_with_capacity_and_length() {
    let mut g = first(3);
    g[B + 1] = 3;
    put(&mut g, B + 2, &[7, 8, 9]);
    let r = run(800, &g);
    assert_eq!(
        r.events,
        vec![
            Event::Count(24),
            Event::Count(3),
            Event::Flag(false),
            Event::U8(7),
            Event::U8(8),
            Event::U8(9),
            Event::U8(7),
            Event::U8(8),
            Event::U8(9)
        ]
    );
}

#[test]
fn listing_the_float_operation_is_left_to_the_caller() {
    let g = first(4);
    let r = run(800, &g);
    assert_eq!(r.events, vec![Event::FloatOp(10)]);
}

#[test]
fn listing_a_text_twice() {
    let mut g = first(5);
    g[B + 1] = 1;
    g[B + 2] = 3;
    put(&mut g, B + 3, b"abc");
    let r = run(800, &g);
    assert_eq!(r.events, vec![Event::Text("abc".to_string()), Event::Text("abc".to_string())]);
}

#[test]
fn listing_a_text_that_is_not_utf8_ends_the_run() {
    let mut g = first(5);
    g[B + 1] = 1;
    g[B + 2] = 1;
    g[B + 3] = 0xff;
    let r = run(800, &g);
    assert!(r.events.is_empty());
    assert_eq!(r.halt, Some(Halt::Exit));
}

#[test]
fn listing_a_text_starting_past_the_half_is_refused() {
    let mut g = first(5);
    g[B + 1] = 40;
    let r = run(800, &g);
    assert!(r.events.is_empty());
    assert_eq!(r.halt, Some(Halt::OutOfRange));
}

#[test]
fn listing_collected_u16_values() {
    let mut g = first(6);
    g[B + 1] = 2;
    put(&mut g, B + 2, &[0, 1, 0, 2]);
    let r = run(800, &g);
    assert_eq!(r.events, vec![Event::U16(1), Event::U16(2), Event::U16(1), Event::U16(2)]);
}

#[test]
fn listing_equal_vectors_of_i16() {
    let mut g = first(7);
    g[B + 1] = 1;
    put(&mut g, B + 2, &[0, 5]);
    g[B + 10] = 1;
    put(&mut g, B + 11, &[0, 5]);
    let r = run(800, &g);
    assert_eq!(
        r.events,
        vec![Event::Flag(true), Event::PartialCompared(Order::Equal), Event::Compared(Order::Equal), Event::I16(5)]
    );
}

#[test]
fn listing_a_character_at_an_index() {
    let mut g = first(8);
    g[B + 1] = 2;
    put(&mut g, B + 2, &[0, 0, 0, b'a', 0, 0, 0, b'b']);
    put(&mut g, B + 10, &w(1));
    let r = run(800, &g);
    assert_eq!(r.events.len(), 4);
    assert_eq!(r.events[0], Event::Char('b'));
    assert!(matches!(r.events[1], Event::Ptr(_)));
    assert_eq!(r.events[2..], [Event::Char('a'), Event::Char('b')]);
}

#[test]
fn listing_an_index_out_of_range_shows_no_character() {
    let mut g = first(8);
    g[B + 1] = 2;
    put(&mut g, B + 2, &[0, 0, 0, b'a', 0, 0, 0, b'b']);
    put(&mut g, B + 10, &w(5));
    let r = run(800, &g);
    assert_eq!(r.events.len(), 3);
    assert!(matches!(r.events[0], Event::Ptr(_)));
}

#[test]
fn listing_truncating_to_nothing_removes_nothing() {
    let mut g = first(9);
    g[B + 1] = 3;
    put(&mut g, B + 14, &w(1));
    let r = run(800, &g);
    assert!(r.events.is_empty());
    assert_eq!(r.halt, None);
}

#[test]
fn listing_a_flag_removed() {
    let mut g = first(9);
    g[B + 1] = 3;
    put(&mut g, B + 2, &[0, 1, 0]);
    g[B + 10] = 1;
    g[B + 21] = 1;
    let r = run(800, &g);
    assert_eq!(r.events, vec![Event::Bool(false), Event::Bool(true), Event::Bool(true)]);
}

#[test]
fn listing_a_value_inserted_at_the_front() {
    let mut g = first(10);
    g[B + 1] = 1;
    put(&mut g, B + 2, &w(7));
    g[B + 21] = 9;
    let r = run(800, &g);
    assert_eq!(r.events, vec![Event::U64(9), Event::U64(7)]);
}

#[test]
fn listing_a_clone_then_the_original() {
    let mut g = first(11);
    g[B + 1] = 2;
    put(&mut g, B + 2, &[1, 2]);
    g[B + 10] = 2;
    put(&mut g, B + 11, &[0xff, 5]);
    let r = run(800, &g);
    assert_eq!(r.events, vec![Event::I8(-1), Event::I8(5), Event::I8(-1), Event::I8(5)]);
}

#[test]
fn listing_resized_and_drained() {
    let mut g = first(12);
    put(&mut g, B + 1, &w(3));
    put(&mut g, B + 9, &[0, 0, 0, 4]);
    g[B + 24] = 2;
    let r = run(800, &g);
    assert_eq!(r.events, vec![Event::U32(4), Event::U32(4), Event::U32(4)]);
}

#[test]
fn listing_a_drain_past_the_end_is_refused() {
    let mut g = first(12);
    put(&mut g, B + 1, &w(3));
    g[B + 24] = 5;
    let r = run(800, &g);
    assert!(r.events.is_empty());
    assert_eq!(r.halt, Some(Halt::OutOfRange));
}

#[test]
fn listing_a_huge_resize_overflows() {
    let mut g = first(12);
    put(&mut g, B + 1, &w(u64::MAX));
    let r = run(800, &g);
    assert!(r.events.is_empty());
    assert_eq!(r.halt, Some(Halt::CapacityOverflow));
}

#[test]
fn listing_the_last_number_is_popped() {
    let mut g = first(13);
    g[B + 1] = 1;
    put(&mut g, B + 2, &w(4));
    g[B + 10] = 1;
    put(&mut g, B + 11, &w(6));
    let r = run(800, &g);
    assert_eq!(r.events, vec![Event::Popped(Some(6)), Event::Usize(4)]);
}

#[test]
fn listing_nothing_to_pop() {
    let g = first(13);
    let r = run(800, &g);
    assert_eq!(r.events, vec![Event::Popped(None)]);
}

#[test]
fn listing_grown_then_consumed() {
    let mut g = first(14);
    g[B + 1] = 2;
    put(&mut g, B + 2, &w(1));
    put(&mut g, B + 10, &w(3));
    let r = run(800, &g);
    assert_eq!(r.events, vec![Event::Isize(1), Event::Isize(3), Event::Isize(1), Event::Isize(3)]);
}

#[test]
fn listing_growing_below_the_length_is_refused() {
    let mut g = first(14);
    g[B + 1] = 2;
    put(&mut g, B + 2, &w(1));
    put(&mut g, B + 10, &w(1));
    let r = run(800, &g);
    assert!(r.events.is_empty());
    assert_eq!(r.halt, Some(Halt::OutOfRange));
}

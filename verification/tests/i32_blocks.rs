use vec_fuzz::i32_blocks::{run, Event};
use vec_fuzz::script::Halt;
use vec_fuzz::small_vec::Order;

fn put_i32(gd: &mut [u8], at: usize, v: i32) {
    gd[at..at + 4].copy_from_slice(&v.to_be_bytes());
}

fn put_u64(gd: &mut [u8], at: usize, v: u64) {
    gd[at..at + 8].copy_from_slice(&v.to_be_bytes());
}

#[test]
fn inputs_below_2000_bytes_are_ignored() {
    let gd = [0u8; 80];
    let r = run(1999, &gd);
    assert!(r.events.is_empty());
    assert_eq!(r.halt, None);
}

#[test]
fn blocks_that_do_not_fit_end_the_run() {
    let gd = [0u8; 79];
    let r = run(2000, &gd);
    assert!(r.events.is_empty());
    assert_eq!(r.halt, None);
}

#[test]
fn new_vector_report() {
    let gd = [0u8; 80];
    let r = run(2000, &gd);
    assert_eq!(r.halt, None);
    assert_eq!(r.events.len(), 3);
    assert!(matches!(r.events[0], Event::Len(0)));
    assert!(matches!(r.events[1], Event::Capacity(16)));
    assert!(matches!(r.events[2], Event::Shrunk(16)));
}

#[test]
fn collected_vector_report() {
    let mut gd = [0u8; 80];
    gd[1] = 5;
    gd[2] = 3;
    put_i32(&mut gd, 3, -7);
    put_i32(&mut gd, 7, 8);
    put_i32(&mut gd, 11, 9);
    let r = run(2000, &gd);
    assert_eq!(r.halt, None);
    assert_eq!(r.events.len(), 5);
    assert!(matches!(r.events[0], Event::Len(3)));
    assert!(matches!(r.events[1], Event::First(-7)));
    assert!(matches!(r.events[2], Event::MutFirst(-7)));
    assert!(matches!(r.events[3], Event::Capacity(16)));
    assert!(matches!(r.events[4], Event::Shrunk(16)));
}

#[test]
fn from_elem_spills_and_shrinks_to_length() {
    let mut gd = [0u8; 80];
    gd[1] = 2;
    put_i32(&mut gd, 2, 4);
    put_u64(&mut gd, 10, 20);
    let r = run(2000, &gd);
    assert_eq!(r.halt, None);
    assert!(matches!(r.events[0], Event::Len(20)));
    assert!(matches!(r.events[1], Event::First(4)));
    assert!(matches!(r.events[3], Event::Capacity(c) if c >= 20));
    assert!(matches!(r.events[4], Event::Shrunk(20)));
}

#[test]
fn with_capacity_overflow_halts() {
    let mut gd = [0u8; 80];
    gd[1] = 1;
    put_u64(&mut gd, 2, u64::MAX);
    let r = run(2000, &gd);
    assert!(r.events.is_empty());
    assert_eq!(r.halt, Some(Halt::CapacityOverflow));
}

#[test]
fn from_vec_and_back() {
    let mut gd = [0u8; 80];
    gd[0] = 1;
    gd[1] = 5;
    let r = run(2000, &gd);
    assert_eq!(r.halt, None);
    assert!(matches!(r.events[0], Event::Capacity(c) if c >= 16));
    assert!(matches!(r.events[1], Event::IntoVecLen(5)));
}

#[test]
fn reading_past_the_input_halts() {
    let mut gd = [0u8; 80];
    gd[0] = 1;
    gd[1] = 30; // thirty values from 2 need 122 bytes
    let r = run(2000, &gd);
    assert!(r.events.is_empty());
    assert_eq!(r.halt, Some(Halt::InputExhausted));
}

#[test]
fn compare_equal_then_append() {
    let mut gd = [0u8; 80];
    gd[0] = 2;
    // elem1 = bytes 1..5, elem2 = bytes 5..9
    put_i32(&mut gd, 1, 0);
    put_i32(&mut gd, 5, 0);
    let r = run(2000, &gd);
    assert_eq!(r.halt, None);
    assert!(matches!(r.events[0], Event::Compared(Order::Equal)));
    assert!(matches!(r.events[1], Event::Compared(Order::Equal)));
    assert!(matches!(r.events[2], Event::Equal(true)));
    assert!(matches!(r.events[3], Event::Len(2)));
}

#[test]
fn sub_operations_push_push_pop_then_index() {
    let mut gd = [0u8; 82];
    gd[0] = 4;
    gd[1] = 3;
    gd[2] = 0; // push the value at 18
    gd[3] = 0; // push the value at 22
    gd[4] = 1; // pop
    put_i32(&mut gd, 18, 11);
    put_i32(&mut gd, 22, 22);
    let r = run(2000, &gd);
    assert_eq!(r.halt, None);
    assert_eq!(r.events.len(), 2);
    assert!(matches!(r.events[0], Event::Popped(22)));
    assert!(matches!(r.events[1], Event::Indexed(11)));
}

#[test]
fn sub_operations_insert_and_swap_remove() {
    let mut gd = [0u8; 82];
    gd[0] = 4;
    gd[1] = 3;
    gd[2] = 0; // push the value at 18
    gd[3] = 4; // insert the value at 22 at the index at 52
    gd[4] = 5; // swap-remove at the index at 54
    put_i32(&mut gd, 18, 1);
    put_i32(&mut gd, 22, 2);
    // index at 52 (8 bytes) = 0; index at 54 (8 bytes) = 0 as well.
    let r = run(2000, &gd);
    assert_eq!(r.halt, None);
    // [1] -> insert 2 at 0 -> [2, 1] -> swap-remove 0 -> 2, [1]
    assert!(matches!(r.events[0], Event::Swapped(2)));
    assert!(matches!(r.events[1], Event::Indexed(1)));
}

#[test]
fn copies_report_lengths() {
    let mut gd = [0u8; 80];
    gd[0] = 5;
    gd[1] = 2;
    put_i32(&mut gd, 2, 33);
    let r = run(2000, &gd);
    assert_eq!(r.halt, None);
    assert!(matches!(r.events[0], Event::ToSmallVecLen(2)));
    assert!(matches!(r.events[1], Event::First(33)));
    assert!(matches!(r.events[2], Event::ClonedLen(2)));
    assert!(matches!(r.events[3], Event::SliceLen(2)));
}

#[test]
fn iterate_reports_first_and_rest() {
    let mut gd = [0u8; 80];
    gd[0] = 6;
    gd[1] = 3;
    put_i32(&mut gd, 2, 5);
    put_i32(&mut gd, 6, 6);
    put_i32(&mut gd, 10, 7);
    let r = run(2000, &gd);
    assert_eq!(r.halt, None);
    assert!(matches!(r.events[0], Event::IterFirst(5)));
    assert!(matches!(r.events[1], Event::RestFirst(6)));
    assert!(matches!(r.events[2], Event::RestMutFirst(6)));
}

#[test]
fn reserve_shrink_then_run_out() {
    let mut gd = [0u8; 80];
    gd[0] = 7;
    gd[1] = 2;
    put_i32(&mut gd, 2, 40);
    put_i32(&mut gd, 6, 50);
    put_u64(&mut gd, 66, 30); // reserve 30 more: capacity 32
    // The index at 74 needs bytes up to 82, past the input.
    let r = run(2000, &gd);
    assert_eq!(r.events.len(), 2);
    assert!(matches!(r.events[0], Event::Capacity(32)));
    assert!(matches!(r.events[1], Event::Shrunk(16)));
    assert_eq!(r.halt, Some(Halt::InputExhausted));
}

#[test]
fn resize_after_clear_when_empty() {
    let mut gd = [0u8; 82];
    gd[0] = 7;
    gd[1] = 0;
    gd[70..78].copy_from_slice(&3u64.to_be_bytes());
    // value at 74 = bytes 74..78 = 3; the extra at 72 = bytes 72..76.
    let r = run(2000, &gd);
    assert_eq!(r.halt, None);
    assert!(matches!(r.events[0], Event::Capacity(16)));
    assert!(matches!(r.events[1], Event::Shrunk(16)));
    assert!(matches!(r.events[2], Event::Len(0)));
    assert!(matches!(r.events[3], Event::Len(3)));
    assert!(matches!(r.events[4], Event::Len(4)));
}

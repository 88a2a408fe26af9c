use vec_fuzz::derefs::{run, Event};
use vec_fuzz::script::Halt;

/// A first half of 1100 bytes running the operations `ops` in turn.
fn half(ops: &[u8]) -> Vec<u8> {
    let mut g = vec![0u8; 1100];
    put_u64(&mut g, 0, ops.len() as u64);
    for (k, op) in ops.iter().enumerate() {
        g[8 + 8 * k] = *op;
    }
    g
}

fn put_u64(b: &mut [u8], at: usize, v: u64) {
    b[at..at + 8].copy_from_slice(&v.to_be_bytes());
}

fn put_u32(b: &mut [u8], at: usize, v: u32) {
    b[at..at + 4].copy_from_slice(&v.to_be_bytes());
}

#[test]
fn derefs_inputs_below_128_bytes_are_ignored() {
    let g = half(&[12]);
    let r = run(127, &g);
    assert!(r.events.is_empty());
    assert_eq!(r.halt, None);
}

#[test]
fn an_empty_vector_dereferences_to_nothing() {
    let g = half(&[12, 18, 0]);
    let r = run(2200, &g);
    assert_eq!(r.events, vec![Event::U32s(vec![]), Event::U32s(vec![]), Event::U32s(vec![])]);
    assert_eq!(r.halt, None);
}

#[test]
fn a_capacity_that_overflows_halts() {
    let mut g = half(&[0]);
    put_u64(&mut g, 16, u64::MAX);
    let r = run(2200, &g);
    assert!(r.events.is_empty());
    assert_eq!(r.halt, Some(Halt::CapacityOverflow));
}

#[test]
fn a_vector_taken_from_read_items() {
    let mut g = half(&[1]);
    put_u64(&mut g, 24, 3);
    put_u32(&mut g, 32, 7);
    put_u32(&mut g, 36, 8);
    put_u32(&mut g, 40, 9);
    let r = run(2200, &g);
    assert_eq!(r.events, vec![Event::U32s(vec![7, 8, 9])]);
    assert_eq!(r.halt, None);
}

#[test]
fn the_count_is_taken_modulo_65() {
    let mut g = half(&[9]);
    put_u64(&mut g, 136, 66);
    put_u32(&mut g, 144, 4);
    let r = run(2200, &g);
    assert_eq!(r.events, vec![Event::U32s(vec![4])]);
    assert_eq!(r.halt, None);
}

#[test]
fn the_first_of_no_copies_is_out_of_range() {
    let mut g = half(&[2]);
    put_u32(&mut g, 40, 5);
    let r = run(2200, &g);
    assert!(r.events.is_empty());
    assert_eq!(r.halt, Some(Halt::OutOfRange));
}

#[test]
fn the_first_of_some_copies() {
    let mut g = half(&[2]);
    put_u32(&mut g, 40, 5);
    put_u64(&mut g, 48, 3);
    let r = run(2200, &g);
    assert_eq!(r.events, vec![Event::U32(5)]);
    assert_eq!(r.halt, None);
}

#[test]
fn an_array_of_copies() {
    let mut g = half(&[3]);
    put_u32(&mut g, 56, 6);
    let r = run(2200, &g);
    assert_eq!(r.events, vec![Event::U32s(vec![6; 24])]);
}

#[test]
fn part_of_an_array() {
    let mut g = half(&[4]);
    put_u32(&mut g, 64, 2);
    put_u64(&mut g, 72, 5);
    let r = run(2200, &g);
    assert_eq!(r.events, vec![Event::U32s(vec![2; 5])]);
    let mut g = half(&[4]);
    put_u64(&mut g, 72, 13);
    let r = run(2200, &g);
    assert!(r.events.is_empty());
    assert_eq!(r.halt, Some(Halt::OutOfRange));
}

#[test]
fn a_pushed_item_is_the_first() {
    let mut g = half(&[8]);
    put_u32(&mut g, 128, 42);
    let r = run(2200, &g);
    assert_eq!(r.events, vec![Event::U32(42)]);
}

#[test]
fn an_insert_at_the_front_only() {
    let mut g = half(&[10]);
    put_u32(&mut g, 160, 3);
    let r = run(2200, &g);
    assert_eq!(r.events, vec![Event::U32s(vec![3, 0])]);
    let mut g = half(&[10]);
    put_u64(&mut g, 152, 1);
    put_u32(&mut g, 160, 3);
    let r = run(2200, &g);
    assert_eq!(r.events, vec![Event::U32s(vec![0])]);
}

#[test]
fn pushed_items_and_their_clone() {
    let mut g = half(&[11]);
    put_u64(&mut g, 168, 20);
    for i in 0..20 {
        put_u32(&mut g, 176 + 4 * i, i as u32 + 1);
    }
    let r = run(2200, &g);
    assert_eq!(r.events, vec![Event::U32s((1..=20).collect())]);
}

#[test]
fn a_reservation_that_overflows_halts() {
    let mut g = half(&[13]);
    put_u64(&mut g, 184, u64::MAX);
    let r = run(2200, &g);
    assert_eq!(r.halt, Some(Halt::CapacityOverflow));
    let mut g = half(&[13]);
    put_u64(&mut g, 184, 1000);
    let r = run(2200, &g);
    assert_eq!(r.events, vec![Event::U32s(vec![])]);
    assert_eq!(r.halt, None);
}

#[test]
fn growing_past_the_largest_size_halts() {
    let mut g = half(&[14]);
    put_u64(&mut g, 192, u64::MAX);
    let r = run(2200, &g);
    assert_eq!(r.halt, Some(Halt::CapacityOverflow));
    let mut g = half(&[14]);
    put_u64(&mut g, 192, 300);
    let r = run(2200, &g);
    assert_eq!(r.events, vec![Event::U32s(vec![])]);
}

#[test]
fn the_first_ten_numbers_truncated() {
    let mut g = half(&[15]);
    put_u64(&mut g, 200, 4);
    let r = run(2200, &g);
    assert_eq!(r.events, vec![Event::U32s(vec![0, 1, 2, 3])]);
    let mut g = half(&[15]);
    put_u64(&mut g, 200, 100);
    let r = run(2200, &g);
    assert_eq!(r.events, vec![Event::U32s((0..10).collect())]);
}

#[test]
fn resized_with_a_read_item() {
    let mut g = half(&[16]);
    put_u64(&mut g, 208, 3);
    put_u32(&mut g, 216, 9);
    let r = run(2200, &g);
    assert_eq!(r.events, vec![Event::U32s(vec![9, 9, 9])]);
}

#[test]
fn extended_from_a_slice_and_others() {
    let mut g = half(&[17, 5, 6, 7, 19]);
    put_u64(&mut g, 224 + 0, 2);
    put_u32(&mut g, 232, 1);
    put_u32(&mut g, 236, 2);
    put_u32(&mut g, 240 + 32, 5);
    let r = run(2200, &g);
    assert_eq!(r.events.len(), 5);
    assert_eq!(r.events[0], Event::U32s(vec![1, 2]));
    assert_eq!(r.events[4], Event::U32s(vec![5]));
    assert_eq!(r.halt, None);
}

#[test]
fn a_short_input_stops_at_the_read() {
    let g = half(&[1]);
    let r = run(2200, &g[..30]);
    assert!(r.events.is_empty());
    assert_eq!(r.halt, Some(Halt::InputExhausted));
}

use vec_fuzz::reserves::{run, Event};
use vec_fuzz::script::Halt;
use vec_fuzz::small_vec::Order;

/// A first half of 900 bytes running the operations `ops` in turn.
fn half(ops: &[u8]) -> Vec<u8> {
    let mut g = vec![0u8; 900];
    g[0] = ops.len() as u8;
    for (k, op) in ops.iter().enumerate() {
        g[1 + k] = *op;
    }
    g
}

fn put_u64(b: &mut [u8], at: usize, v: u64) {
    b[at..at + 8].copy_from_slice(&v.to_be_bytes());
}

fn put_u32(b: &mut [u8], at: usize, v: u32) {
    b[at..at + 4].copy_from_slice(&v.to_be_bytes());
}

#[test]
fn reserves_inputs_below_500_bytes_are_ignored() {
    let g = half(&[0]);
    let r = run(499, &g);
    assert!(r.events.is_empty());
    assert_eq!(r.halt, None);
}

#[test]
fn a_new_vector_keeps_its_inline_capacity() {
    let mut g = half(&[0]);
    g[66] = 5;
    let r = run(1800, &g);
    assert_eq!(r.events, vec![Event::Count(16), Event::Count(0)]);
    assert_eq!(r.halt, None);
}

#[test]
fn a_capacity_asked_for_is_kept() {
    let mut g = half(&[0]);
    put_u64(&mut g, 132, 20);
    let r = run(1800, &g);
    assert_eq!(r.events, vec![Event::Count(20), Event::Count(0)]);
}

#[test]
fn a_capacity_too_large_overflows_at_once() {
    let mut g = half(&[0]);
    put_u64(&mut g, 132, u64::MAX);
    let r = run(1800, &g);
    assert!(r.events.is_empty());
    assert_eq!(r.halt, Some(Halt::CapacityOverflow));
}

#[test]
fn part_of_a_read_array() {
    let mut g = half(&[0]);
    g[66] = 2;
    put_u32(&mut g, 200, 0);
    put_u32(&mut g, 204, 5);
    put_u32(&mut g, 208, 6);
    put_u64(&mut g, 264, 3);
    let r = run(1800, &g);
    assert_eq!(r.events, vec![Event::Count(16), Event::U32(0), Event::Count(3)]);
    let mut g = half(&[0]);
    g[66] = 2;
    put_u64(&mut g, 264, 17);
    let r = run(1800, &g);
    assert_eq!(r.halt, Some(Halt::OutOfRange));
}

#[test]
fn copies_of_a_read_item_with_more_room() {
    let mut g = half(&[0]);
    g[66] = 4;
    put_u32(&mut g, 132, 7);
    put_u64(&mut g, 136, 3);
    put_u64(&mut g, 200, 20);
    let r = run(1800, &g);
    assert_eq!(r.events, vec![Event::Count(23), Event::U32(7), Event::Count(3)]);
}

#[test]
fn popped_and_first_items() {
    let mut g = half(&[1]);
    g[132] = 3;
    put_u32(&mut g, 150, 1);
    put_u32(&mut g, 154, 2);
    put_u32(&mut g, 158, 3);
    let r = run(1800, &g);
    assert_eq!(r.events, vec![Event::U32(3), Event::U32(1)]);
}

#[test]
fn an_appended_vector_is_emptied() {
    let mut g = half(&[2]);
    g[132] = 2;
    put_u32(&mut g, 150, 1);
    put_u32(&mut g, 154, 2);
    let r = run(1800, &g);
    assert_eq!(r.events, vec![Event::Compared(Order::Greater)]);
    let g = half(&[2]);
    let r = run(1800, &g);
    assert_eq!(r.events, vec![Event::Compared(Order::Equal)]);
}

#[test]
fn an_insert_past_the_end_halts() {
    let mut g = half(&[3]);
    g[200] = 2;
    put_u64(&mut g, 260, 5);
    let r = run(1800, &g);
    assert!(r.events.is_empty());
    assert_eq!(r.halt, Some(Halt::OutOfRange));
    let g = half(&[3, 4, 5, 6, 12]);
    let r = run(1800, &g);
    assert!(r.events.is_empty());
    assert_eq!(r.halt, None);
}

#[test]
fn drained_items_are_reported() {
    let mut g = half(&[7]);
    put_u32(&mut g, 132, 4);
    put_u32(&mut g, 136, 5);
    put_u32(&mut g, 140, 6);
    put_u64(&mut g, 250, 1);
    put_u64(&mut g, 258, 3);
    let r = run(1800, &g);
    assert_eq!(r.events, vec![Event::U32(5), Event::U32(6)]);
    put_u64(&mut g, 258, 4);
    let r = run(1800, &g);
    assert!(r.events.is_empty());
    assert_eq!(r.halt, Some(Halt::OutOfRange));
}

#[test]
fn growing_below_the_length_of_the_zeros_halts() {
    let mut g = half(&[8]);
    g[200] = 1;
    put_u64(&mut g, 250, 10);
    let r = run(1800, &g);
    assert_eq!(r.halt, Some(Halt::OutOfRange));
    g[200] = 2;
    let r = run(1800, &g);
    assert_eq!(r.halt, None);
}

#[test]
fn addresses_are_reported() {
    let g = half(&[9]);
    let r = run(1800, &g);
    assert_eq!(r.events.len(), 2);
    assert!(matches!(r.events[0], Event::Ptr(_)));
    assert!(matches!(r.events[1], Event::MutPtr(_)));
}

#[test]
fn a_removed_copy() {
    let mut g = half(&[10]);
    put_u32(&mut g, 132, 9);
    put_u64(&mut g, 250, 2);
    let r = run(1800, &g);
    assert_eq!(r.events, vec![Event::U32(9)]);
    put_u64(&mut g, 250, 15);
    let r = run(1800, &g);
    assert_eq!(r.halt, Some(Halt::OutOfRange));
}

#[test]
fn a_swap_removed_copy() {
    let mut g = half(&[11]);
    put_u32(&mut g, 132, 3);
    put_u64(&mut g, 136, 2);
    put_u64(&mut g, 250, 1);
    let r = run(1800, &g);
    assert_eq!(r.events, vec![Event::U32(3)]);
    let mut g = half(&[11]);
    put_u64(&mut g, 136, u64::MAX);
    let r = run(1800, &g);
    assert_eq!(r.halt, Some(Halt::CapacityOverflow));
}

#[test]
fn collected_items_as_a_vec() {
    let mut g = half(&[13]);
    put_u32(&mut g, 132, 1);
    put_u32(&mut g, 136, 2);
    let r = run(1800, &g);
    assert_eq!(r.events, vec![Event::U32s(vec![1, 2])]);
}

#[test]
fn exact_room_beyond_the_inline_size_spills() {
    let mut g = half(&[14]);
    put_u64(&mut g, 132, 100);
    let r = run(1800, &g);
    assert_eq!(r.events, vec![Event::Flag(true)]);
    let g = half(&[14]);
    let r = run(1800, &g);
    assert_eq!(r.events, vec![Event::Flag(false)]);
}

#[test]
fn resizing_too_far_overflows() {
    let mut g = half(&[6]);
    put_u64(&mut g, 132, u64::MAX);
    let r = run(1800, &g);
    assert_eq!(r.halt, Some(Halt::CapacityOverflow));
}

#[test]
fn a_short_half_stops_the_reads() {
    let g = half(&[13]);
    let r = run(1800, &g[..134]);
    assert!(r.events.is_empty());
    assert_eq!(r.halt, Some(Halt::InputExhausted));
}

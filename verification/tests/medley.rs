use vec_fuzz::medley::{run, Event};
use vec_fuzz::script::Halt;
use vec_fuzz::small_vec::Order;

fn put_u64(b: &mut [u8], at: usize, v: u64) {
    b[at..at + 8].copy_from_slice(&v.to_be_bytes());
}

fn put_u32(b: &mut [u8], at: usize, v: u32) {
    b[at..at + 4].copy_from_slice(&v.to_be_bytes());
}

fn put_u16(b: &mut [u8], at: usize, v: u16) {
    b[at..at + 2].copy_from_slice(&v.to_be_bytes());
}

/// A first half of 512 bytes running the single operation `op`, whose
/// arguments start at byte 16.
fn single(op: u8) -> Vec<u8> {
    let mut g = vec![0u8; 512];
    put_u64(&mut g, 0, 1);
    g[8] = op;
    g
}

#[test]
fn inputs_below_500_bytes_are_ignored() {
    let g = single(0);
    let r = run(499, &g);
    assert!(r.events.is_empty());
    assert_eq!(r.halt, None);
}

#[test]
fn pushed_i32_values_are_reported() {
    let mut g = single(0);
    put_u64(&mut g, 24, 3);
    put_u32(&mut g, 32, 1);
    put_u32(&mut g, 36, 2);
    put_u32(&mut g, 40, 3);
    let r = run(512, &g);
    assert_eq!(r.events, vec![Event::Ints(vec![1, 2, 3]), Event::Spilled(false), Event::Len(0)]);
    assert_eq!(r.halt, None);
}

#[test]
fn twenty_i32_values_spill() {
    let mut g = single(30); // 30 % 30 = 0
    put_u64(&mut g, 24, 20);
    let r = run(512, &g);
    assert_eq!(r.events, vec![Event::Ints(vec![0; 20]), Event::Spilled(true), Event::Len(0)]);
    assert_eq!(r.halt, None);
}

#[test]
fn capacity_around_shrink_to_fit() {
    let mut g = single(2);
    put_u64(&mut g, 16, 5);
    put_u64(&mut g, 24, 3);
    let r = run(512, &g);
    assert_eq!(r.events, vec![Event::CapacityChange(12, 12)]);
    assert_eq!(r.halt, None);
}

#[test]
fn first_drained_flag() {
    let mut g = single(3);
    put_u64(&mut g, 16, 3);
    g[24] = 0;
    g[25] = 1;
    g[26] = 2;
    put_u64(&mut g, 32, 1);
    put_u64(&mut g, 40, 3);
    let r = run(512, &g);
    assert_eq!(r.events, vec![Event::Flag(false)]);
    assert_eq!(r.halt, None);
}

#[test]
fn reversed_drain_is_out_of_range() {
    let mut g = single(3);
    put_u64(&mut g, 16, 3);
    put_u64(&mut g, 32, 2);
    put_u64(&mut g, 40, 1);
    let r = run(512, &g);
    assert!(r.events.is_empty());
    assert_eq!(r.halt, Some(Halt::OutOfRange));
}

#[test]
fn characters_then_addresses() {
    let mut g = single(4);
    put_u64(&mut g, 16, 2);
    put_u32(&mut g, 24, 'a' as u32);
    put_u32(&mut g, 28, 'b' as u32);
    let r = run(512, &g);
    assert_eq!(r.events.len(), 3);
    assert!(matches!(r.events[0], Event::Ptr(_)));
    assert!(matches!(r.events[1], Event::MutPtr(_)));
    assert_eq!(r.events[2], Event::Empty(true));
    assert_eq!(r.halt, None);
}

#[test]
fn a_surrogate_code_stops_quietly() {
    let mut g = single(4);
    put_u64(&mut g, 16, 1);
    put_u32(&mut g, 24, 0xD800);
    let r = run(512, &g);
    assert!(r.events.is_empty());
    assert_eq!(r.halt, Some(Halt::Exit));
}

#[test]
fn texts_pushed_then_cleared() {
    let mut g = single(5);
    put_u64(&mut g, 24, 1);
    put_u64(&mut g, 32, 3);
    g[40..43].copy_from_slice(b"abc");
    let r = run(512, &g);
    assert_eq!(r.events, vec![Event::SpilledNote(false), Event::LengthAfterClear(0)]);
    assert_eq!(r.halt, None);
}

#[test]
fn collected_bytes_then_reserve() {
    let mut g = single(6);
    put_u64(&mut g, 16, 3);
    g[24] = 1;
    g[25] = 2;
    g[26] = 3;
    let r = run(512, &g);
    assert_eq!(r.events, vec![Event::Bytes(vec![1, 2, 3])]);
    assert_eq!(r.halt, None);
}

#[test]
fn bytes_are_reported_before_an_overflowing_reserve() {
    let mut g = single(6);
    put_u64(&mut g, 16, 1);
    g[24] = 9;
    put_u64(&mut g, 32, u64::MAX);
    let r = run(512, &g);
    assert_eq!(r.events, vec![Event::Bytes(vec![9])]);
    assert_eq!(r.halt, Some(Halt::CapacityOverflow));
}

#[test]
fn sixteen_shorts_and_their_order() {
    let mut g = single(7);
    for j in 0..16 {
        put_u16(&mut g, 16 + 2 * j, j as u16);
    }
    let r = run(512, &g);
    let shorts: Vec<i16> = (0..16).collect();
    assert_eq!(r.events, vec![Event::Shorts(shorts), Event::Compared(Order::Equal)]);
    assert_eq!(r.halt, None);
}

#[test]
fn capacity_after_reserve_and_resize() {
    let mut g = single(9);
    put_u64(&mut g, 16, 1);
    put_u64(&mut g, 24, 5);
    put_u64(&mut g, 32, 20);
    put_u64(&mut g, 40, 3);
    put_u64(&mut g, 48, 7);
    let r = run(512, &g);
    assert_eq!(r.events, vec![Event::CapacityAfterClear(32)]);
    assert_eq!(r.halt, None);
}

#[test]
fn pop_then_swap_remove() {
    let mut g = single(10);
    put_u64(&mut g, 16, 3);
    put_u32(&mut g, 24, 10);
    put_u32(&mut g, 28, 20);
    put_u32(&mut g, 32, 30);
    let r = run(512, &g);
    assert_eq!(r.events, vec![Event::Popped(30), Event::Removed(10)]);
    assert_eq!(r.halt, None);
}

#[test]
fn appended_vector_equals_the_emptied_one_only_when_both_were_empty() {
    let mut g = single(12);
    let r = run(512, &g);
    assert_eq!(r.events, vec![Event::Equal(true)]);
    put_u64(&mut g, 16, 1);
    let r = run(512, &g);
    assert_eq!(r.events, vec![Event::Equal(false)]);
}

#[test]
fn insert_then_vec_length() {
    let mut g = single(13);
    put_u64(&mut g, 32, 2);
    let r = run(512, &g);
    assert_eq!(r.events, vec![Event::VecLength(3)]);
    put_u64(&mut g, 16, 5);
    let r = run(512, &g);
    assert_eq!(r.events, vec![Event::VecLength(2)]);
}

#[test]
fn boxed_texts() {
    let mut g = single(16);
    put_u64(&mut g, 24, 1);
    put_u64(&mut g, 32, 2);
    g[40..42].copy_from_slice(b"hi");
    let r = run(512, &g);
    assert_eq!(r.events, vec![Event::BoxedLen(1)]);
    assert_eq!(r.halt, None);
}

#[test]
fn removed_byte() {
    let mut g = single(17);
    put_u64(&mut g, 16, 3);
    g[24] = 5;
    g[25] = 6;
    g[26] = 7;
    put_u64(&mut g, 32, 4);
    let r = run(512, &g);
    assert_eq!(r.events, vec![Event::RemovedElement(6)]);
    assert_eq!(r.halt, None);
}

#[test]
fn collected_twenty() {
    let g = single(23);
    let r = run(512, &g);
    assert_eq!(r.events, vec![Event::CollectedLen(20)]);
}

#[test]
fn first_five_words() {
    let mut g = single(27);
    for j in 0..20 {
        put_u32(&mut g, 16 + 4 * j, j as u32 + 1);
    }
    let r = run(512, &g);
    assert_eq!(r.events, vec![Event::Words(vec![1, 2, 3, 4, 5])]);
}

#[test]
fn characters_counted_through_as_mut() {
    let mut g = single(28);
    put_u64(&mut g, 16, 2);
    put_u32(&mut g, 24, 'x' as u32);
    put_u32(&mut g, 28, 'y' as u32);
    let r = run(512, &g);
    assert_eq!(r.events, vec![Event::Len(2)]);
}

#[test]
fn a_full_inline_vector_gives_up_its_array() {
    let mut g = single(29);
    put_u64(&mut g, 24, 30);
    let r = run(512, &g);
    assert_eq!(r.events, vec![Event::ArraySize(30)]);
    put_u64(&mut g, 16, 40); // reserve_exact(40) spills it
    let r = run(512, &g);
    assert!(r.events.is_empty());
}

#[test]
fn reserve_exact_too_much_overflows() {
    let mut g = single(26);
    put_u64(&mut g, 16, u64::MAX);
    let r = run(512, &g);
    assert!(r.events.is_empty());
    assert_eq!(r.halt, Some(Halt::CapacityOverflow));
}

#[test]
fn floating_point_operations_are_left_to_the_caller() {
    let mut g = single(1);
    put_u64(&mut g, 0, 2);
    g[9] = 11;
    let r = run(512, &g);
    assert_eq!(r.events, vec![Event::FloatOp(1, 0)]);
    assert_eq!(r.halt, None);
}

#[test]
fn reading_the_operation_past_the_end_halts() {
    let mut g = vec![0u8; 9];
    put_u64(&mut g, 0, 3);
    g[8] = 11;
    let r = run(512, &g);
    assert!(r.events.is_empty());
    assert_eq!(r.halt, Some(Halt::InputExhausted));
}

use vec_fuzz::i32_script::{run, Event};
use vec_fuzz::script::Halt;
use vec_fuzz::small_vec::Order;

fn put_i32(gd: &mut [u8], at: usize, v: i32) {
    gd[at..at + 4].copy_from_slice(&v.to_be_bytes());
}

fn put_u64(gd: &mut [u8], at: usize, v: u64) {
    gd[at..at + 8].copy_from_slice(&v.to_be_bytes());
}

#[test]
fn inputs_below_120_bytes_are_ignored() {
    let gd = [3u8; 60];
    let r = run(119, &gd);
    assert!(r.events.is_empty());
    assert_eq!(r.halt, None);
}

#[test]
fn zero_operations() {
    let mut gd = [0u8; 200];
    gd[0] = 65;
    let r = run(400, &gd);
    assert!(r.events.is_empty());
    assert_eq!(r.halt, None);
}

#[test]
fn fill_with_copies() {
    // 72 % 65 = 7 operations; 72 % 8 = 0 chooses the fill at 0.
    let mut gd = [0u8; 33];
    gd[0] = 72;
    gd[4] = 6; // the next operation needs more bytes than there are
    put_u64(&mut gd, 8, 0); // capacity
    put_i32(&mut gd, 16, -5); // element
    put_u64(&mut gd, 24, 3); // count
    let r = run(400, &gd);
    assert_eq!(r.events.len(), 1);
    match &r.events[0] {
        Event::Items(v) => assert_eq!(v, &vec![-5, -5, -5]),
        _ => panic!("items expected"),
    }
    assert_eq!(r.halt, Some(Halt::InputExhausted));
}

#[test]
fn fill_overflowing_capacity_halts() {
    let mut gd = [0u8; 200];
    gd[0] = 72;
    put_u64(&mut gd, 8, u64::MAX);
    let r = run(400, &gd);
    assert!(r.events.is_empty());
    assert_eq!(r.halt, Some(Halt::CapacityOverflow));
}

#[test]
fn insert_beyond_length_halts() {
    let mut gd = [0u8; 200];
    // 67 % 65 = 2 operations; 67 % 8 = 3.
    gd[0] = 67;
    // slice size at 3: the byte is gd[3] = 0 -> empty slice; index at 12.
    put_u64(&mut gd, 12, 1);
    let r = run(400, &gd);
    assert!(r.events.is_empty());
    assert_eq!(r.halt, Some(Halt::OutOfRange));
}

#[test]
fn insert_then_remove_gives_the_value_back() {
    let mut gd = [0u8; 200];
    gd[0] = 67;
    gd[3] = 5; // five values from 60
    // The index (eight bytes at 12) ends in the value (four bytes at 16).
    put_i32(&mut gd, 16, 3);
    let r = run(400, &gd);
    assert!(matches!(r.events[0], Event::Removed(3)));
}

#[test]
fn compare_reports_the_order_twice() {
    let mut gd = [0u8; 200];
    gd[0] = 5;
    put_i32(&mut gd, 8, 9);
    put_i32(&mut gd, 12, -9);
    let r = run(400, &gd);
    assert!(matches!(r.events[0], Event::Compared(Order::Greater)));
    assert!(matches!(r.events[1], Event::Compared(Order::Greater)));
}

#[test]
fn drain_past_the_length_halts() {
    let mut gd = [0u8; 200];
    gd[0] = 6;
    for p in 0..10 {
        put_i32(&mut gd, 16 + 4 * p, p as i32 + 100);
    }
    put_u64(&mut gd, 8, 0);
    // end at 12 overlaps the start's low bytes; write it last.
    gd[12..16].copy_from_slice(&[0, 0, 0, 0]);
    gd[16..20].copy_from_slice(&100i32.to_be_bytes());
    let r = run(400, &gd);
    // end = usize at 12 = 0x0000_0000_0000_0064 = 100 > 10: out of range.
    assert!(r.events.is_empty());
    assert_eq!(r.halt, Some(Halt::OutOfRange));
}

#[test]
fn drain_a_prefix() {
    let mut gd = [0u8; 60];
    gd[0] = 6;
    gd[4] = 6; // the next operation is a drain too
    for p in 0..10 {
        put_i32(&mut gd, 16 + 4 * p, p as i32 + 100);
    }
    // start: the usize at 8 is 0; end: the usize at 12 ends in the first value.
    put_i32(&mut gd, 16, 3);
    let r = run(400, &gd);
    assert_eq!(r.events.len(), 4);
    assert!(matches!(r.events[0], Event::Drained(3)));
    assert!(matches!(r.events[1], Event::Drained(101)));
    assert!(matches!(r.events[2], Event::Drained(102)));
    assert!(matches!(r.events[3], Event::Empty(false)));
    // The next operation drains a range whose end runs past its ten items.
    assert_eq!(r.halt, Some(Halt::OutOfRange));
}

#[test]
fn pop_and_swap_remove() {
    let mut gd = [0u8; 29];
    gd[0] = 7;
    // The high byte 6 of the first value makes the next operation a drain,
    // which runs out of input.
    put_i32(&mut gd, 4, 0x0600_0001);
    put_i32(&mut gd, 8, 2);
    put_i32(&mut gd, 12, 3);
    put_u64(&mut gd, 16, 1);
    let r = run(400, &gd);
    assert!(matches!(r.events[0], Event::Popped(Some(3))));
    assert!(matches!(r.events[1], Event::SwapRemoved(2)));
    assert_eq!(r.halt, Some(Halt::InputExhausted));
}

#[test]
fn buffer_append_spills() {
    let mut gd = [0u8; 17];
    gd[0] = 2;
    // array size byte gd[2] = 0; length at 8 = 4.
    put_u64(&mut gd, 8, 4);
    let r = run(400, &gd);
    assert!(matches!(r.events[0], Event::Capacity(32)));
    assert_eq!(r.halt, Some(Halt::InputExhausted));
}

#[test]
fn reserve_then_grow_below_length_halts() {
    let mut gd = [0u8; 300];
    gd[0] = 4;
    gd[4] = 5; // five values collected (op code byte of operation 1 too)
    put_u64(&mut gd, 20, 0);
    put_u64(&mut gd, 24, 2);
    let r = run(600, &gd);
    assert!(r.events.is_empty());
    assert_eq!(r.halt, Some(Halt::OutOfRange));
}

use vec_fuzz::script::Halt;
use vec_fuzz::small_vec::Order;
use vec_fuzz::u32_script::{run, Event};

fn put_u32(gd: &mut [u8], at: usize, v: u32) {
    gd[at..at + 4].copy_from_slice(&v.to_be_bytes());
}

fn put_u64(gd: &mut [u8], at: usize, v: u64) {
    gd[at..at + 8].copy_from_slice(&v.to_be_bytes());
}

#[test]
fn short_inputs_are_ignored() {
    let gd = [1u8; 100];
    let r = run(199, &gd);
    assert!(r.events.is_empty());
    assert_eq!(r.halt, None);
}

#[test]
fn empty_half_runs_out_of_input() {
    let r = run(200, &[]);
    assert!(r.events.is_empty());
    assert_eq!(r.halt, Some(Halt::InputExhausted));
}

#[test]
fn push_then_pop() {
    let mut gd = [0u8; 100];
    gd[1] = 1;
    gd[2] = 3;
    put_u32(&mut gd, 3, 5);
    put_u32(&mut gd, 7, 6);
    put_u32(&mut gd, 11, 7);
    let r = run(200, &gd);
    assert_eq!(r.halt, None);
    assert_eq!(r.events.len(), 3);
    assert!(matches!(r.events[0], Event::Ptr(_)));
    match &r.events[1] {
        Event::Items(v) => assert_eq!(v, &vec![5, 6, 7]),
        _ => panic!("items expected"),
    }
    assert!(matches!(r.events[2], Event::Popped(7)));
}

#[test]
fn reserve_overflow_halts() {
    let mut gd = [0u8; 100];
    gd[1] = 3;
    put_u64(&mut gd, 2, u64::MAX);
    let r = run(200, &gd);
    assert!(r.events.is_empty());
    assert_eq!(r.halt, Some(Halt::CapacityOverflow));
}

#[test]
fn reserve_rounds_up_to_a_power_of_two_and_shrinks_back() {
    let mut gd = [0u8; 100];
    gd[1] = 3;
    put_u64(&mut gd, 2, 20);
    let r = run(200, &gd);
    assert_eq!(r.halt, None);
    assert_eq!(r.events.len(), 3);
    assert!(matches!(r.events[1], Event::ReservedCapacity(32)));
    assert!(matches!(r.events[2], Event::ShrunkCapacity(16)));
}

#[test]
fn compare_one_item_vectors() {
    let mut gd = [0u8; 100];
    gd[1] = 2;
    put_u32(&mut gd, 2, 1);
    put_u32(&mut gd, 6, 2);
    let r = run(200, &gd);
    assert_eq!(r.halt, None);
    match &r.events[1] {
        Event::Comparison { total, partial, equal } => {
            assert_eq!(*total, Order::Less);
            assert_eq!(*partial, Some(Order::Less));
            assert!(!*equal);
        },
        _ => panic!("comparison expected"),
    }
}

#[test]
fn buffer_length_above_inline_size_halts() {
    let mut gd = [0u8; 100];
    gd[1] = 0;
    gd[2] = 3;
    put_u64(&mut gd, 9, 17);
    let r = run(200, &gd);
    assert!(r.events.is_empty());
    assert_eq!(r.halt, Some(Halt::OutOfRange));
}

#[test]
fn buffer_and_length_builds_a_prefix() {
    let mut gd = [0u8; 100];
    gd[1] = 0;
    gd[2] = 3;
    // The array cycles the values at 3, 7 and 11; the length at 9 overlaps them.
    put_u64(&mut gd, 9, 4);
    let a = u32::from_be_bytes([gd[3], gd[4], gd[5], gd[6]]);
    let b = u32::from_be_bytes([gd[7], gd[8], gd[9], gd[10]]);
    let c = u32::from_be_bytes([gd[11], gd[12], gd[13], gd[14]]);
    let r = run(200, &gd);
    assert_eq!(r.halt, None);
    match &r.events[1] {
        Event::Items(v) => assert_eq!(v, &vec![a, b, c, a]),
        _ => panic!("items expected"),
    }
    assert!(matches!(r.events[2], Event::Stats { len: 4, capacity: 16, empty: false, spilled: false }));
    assert!(matches!(r.events[3], Event::First(x) if x == a));
}

#[test]
fn with_capacity_spills_above_sixteen() {
    let mut gd = [0u8; 100];
    gd[2] = 1;
    put_u64(&mut gd, 3, 40);
    let r = run(200, &gd);
    assert_eq!(r.halt, None);
    assert_eq!(r.events.len(), 3);
    assert!(matches!(r.events[2], Event::Stats { len: 0, capacity: 40, empty: true, spilled: true }));
}

#[test]
fn overwrite_reports_before_running_out() {
    let mut gd = [0u8; 13];
    gd[1] = 5;
    let r = run(200, &gd);
    assert_eq!(r.events.len(), 2);
    assert!(matches!(r.events[1], Event::SliceLen(2)));
    assert_eq!(r.halt, Some(Halt::InputExhausted));
}

#[test]
fn overwrite_with_room() {
    let mut gd = [0u8; 100];
    gd[1] = 5;
    put_u32(&mut gd, 10, 99);
    let r = run(200, &gd);
    assert_eq!(r.halt, None);
    assert!(matches!(r.events[2], Event::ModifiedFirst(99)));
}

#[test]
fn two_operations_in_turn() {
    let mut gd = [0u8; 100];
    gd[0] = 1;
    gd[1] = 14;
    gd[13] = 14;
    let r = run(200, &gd);
    assert_eq!(r.halt, None);
    assert_eq!(r.events.len(), 10);
    assert!(matches!(r.events[4], Event::ToSmallVecLen(3)));
    assert!(matches!(r.events[9], Event::ToSmallVecLen(3)));
}

#[test]
fn operations_stop_where_their_bytes_end() {
    let mut gd = [0u8; 20];
    gd[0] = 14;
    gd[1] = 14;
    let r = run(200, &gd);
    assert_eq!(r.halt, None);
    assert_eq!(r.events.len(), 5);
}

#[test]
fn drain_takes_the_clamped_range() {
    let mut gd = [0u8; 100];
    gd[1] = 6;
    // values at 2, 4, 6, 8, 10 (overlapping); start = usize at 2 % 3,
    // end = start + usize at 6 % 3 + 1.
    let r = run(200, &gd);
    assert_eq!(r.halt, None);
    // All bytes zero but the op code: start 0, end 1, one item 0 drained.
    assert_eq!(r.events.len(), 2);
    assert!(matches!(r.events[0], Event::Drained(0)));
    assert!(matches!(r.events[1], Event::DrainPtrs(_, _)));
}

#[test]
fn insert_within_range() {
    let mut gd = [0u8; 100];
    gd[1] = 4;
    put_u32(&mut gd, 2, 10);
    put_u32(&mut gd, 6, 20);
    put_u64(&mut gd, 10, 1);
    let r = run(200, &gd);
    assert_eq!(r.halt, None);
    // value inserted is the u32 at 3 (overlapping the first value).
    let value = u32::from_be_bytes([gd[3], gd[4], gd[5], gd[6]]);
    let got: Vec<u32> = r.events[1..]
        .iter()
        .map(|e| match e {
            Event::Elem(_, x) => *x,
            _ => panic!("elem expected"),
        })
        .collect();
    assert_eq!(got, vec![10, value, 20]);
}

#[test]
fn retain_even_then_dedup() {
    let mut gd = [0u8; 100];
    gd[1] = 13;
    gd[2] = 0;
    // six values at 2, 4, 6, 8, 10, 12 (four bytes each, overlapping)
    let r = run(200, &gd);
    assert_eq!(r.halt, None);
    // all zero values except the op code byte 13 at 1, which is not read
    // as a value start; the value at 2 is 0x0000_0000.
    assert!(matches!(r.events[0], Event::Retained(6)));
    assert!(matches!(r.events[1], Event::Deduped(1)));
    assert!(matches!(r.events[2], Event::MutPtr(_)));
}

#[test]
fn try_reserve_small_succeeds() {
    let mut gd = [0u8; 100];
    gd[1] = 12;
    put_u64(&mut gd, 10, 3);
    let r = run(200, &gd);
    assert_eq!(r.halt, None);
    assert!(matches!(r.events[0], Event::TryReserve(true)));
    assert!(matches!(r.events[1], Event::BoxedLen(2)));
    assert!(matches!(r.events[2], Event::IntoInner(false)));
}

#[test]
fn try_reserve_overflow_fails() {
    let mut gd = [0u8; 100];
    gd[1] = 12;
    put_u64(&mut gd, 10, u64::MAX);
    let r = run(200, &gd);
    assert!(matches!(r.events[0], Event::TryReserve(false)));
}

use vec_fuzz::script::Halt;
use vec_fuzz::small_vec::Order;
use vec_fuzz::stream_script::{run, Event};

fn put_u64(b: &mut [u8], at: usize, v: u64) {
    b[at..at + 8].copy_from_slice(&v.to_be_bytes());
}

fn put_i32(b: &mut [u8], at: usize, v: i32) {
    b[at..at + 4].copy_from_slice(&v.to_be_bytes());
}

/// A first half of 256 bytes that runs one operation, chosen by `op`.
fn one_op(op: u8) -> Vec<u8> {
    let mut g = vec![0u8; 256];
    g[0] = 1;
    g[1] = op;
    g
}

#[test]
fn inputs_below_512_bytes_are_ignored() {
    let g = one_op(0);
    let r = run(511, &g);
    assert!(r.events.is_empty());
    assert_eq!(r.halt, None);
}

#[test]
fn no_operations() {
    let mut g = one_op(0);
    g[0] = 65;
    let r = run(512, &g);
    assert!(r.events.is_empty());
    assert_eq!(r.halt, None);
}

#[test]
fn push_onto_a_new_vector() {
    let mut g = one_op(0);
    g[2] = 3; // `SmallVec::new`
    put_u64(&mut g, 3, 0); // try_reserve(0)
    put_i32(&mut g, 11, 7);
    let r = run(512, &g);
    assert_eq!(
        r.events,
        vec![Event::Length(1), Event::FirstElement(7), Event::Capacity(15), Event::Spilled(false)]
    );
    assert_eq!(r.halt, None);
}

#[test]
fn try_reserve_grows_to_a_power_of_two() {
    let mut g = one_op(6); // 6 % 6 = 0
    g[2] = 7; // 7 % 4 = 3: `SmallVec::new`
    put_u64(&mut g, 3, 20);
    put_i32(&mut g, 11, -3);
    let r = run(512, &g);
    assert_eq!(
        r.events,
        vec![Event::Length(1), Event::FirstElement(-3), Event::Capacity(32), Event::Spilled(true)]
    );
    assert_eq!(r.halt, None);
}

#[test]
fn copies_of_one_value() {
    let mut g = one_op(0);
    g[2] = 1; // `from_elem`
    put_i32(&mut g, 3, 9);
    put_u64(&mut g, 7, 4);
    put_u64(&mut g, 15, 0);
    put_i32(&mut g, 23, 1);
    let r = run(512, &g);
    assert_eq!(
        r.events,
        vec![Event::Length(5), Event::FirstElement(9), Event::Capacity(15), Event::Spilled(false)]
    );
    assert_eq!(r.halt, None);
}

#[test]
fn fresh_with_capacity_too_large_overflows() {
    let mut g = one_op(0);
    g[2] = 0; // `with_capacity`
    put_u64(&mut g, 3, u64::MAX);
    let r = run(512, &g);
    assert!(r.events.is_empty());
    assert_eq!(r.halt, Some(Halt::CapacityOverflow));
}

#[test]
fn bytes_extended_then_one_removed() {
    let mut g = one_op(1);
    g[2] = 2; // `from_vec`
    g[3] = 3;
    g[4] = 10;
    g[5] = 11;
    g[6] = 12;
    g[7] = 2; // two more bytes
    g[8] = 20;
    g[9] = 21;
    put_u64(&mut g, 10, 0); // try_reserve(0)
    put_u64(&mut g, 18, 1); // remove at 1
    let r = run(512, &g);
    assert_eq!(r.events, vec![Event::FirstMutable(10)]);
    assert_eq!(r.halt, None);
}

#[test]
fn reading_past_the_end_halts() {
    let mut g = vec![0u8; 110];
    g[0] = 1;
    g[1] = 1;
    g[2] = 2; // `from_vec` of 64 bytes
    g[3] = 64;
    g[68] = 64; // 64 more bytes, of which 41 are there
    let r = run(512, &g);
    assert!(r.events.is_empty());
    assert_eq!(r.halt, Some(Halt::InputExhausted));
}

#[test]
fn a_text_pushed_to_both_vectors_then_compared() {
    let mut g = one_op(2);
    g[2] = 0; // `SmallVec::new`
    g[3] = 2; // a text of 2 % 10 + 1 = 3 bytes
    g[4..7].copy_from_slice(b"abc");
    put_u64(&mut g, 7, 0);
    let r = run(512, &g);
    assert_eq!(
        r.events,
        vec![
            Event::Equal(true),
            Event::Compared(Order::Equal),
            Event::PartialCompared(Some(Order::Equal)),
            Event::DerefLen(2),
        ]
    );
    assert_eq!(r.halt, None);
}

#[test]
fn a_text_that_is_not_utf8_stops_quietly() {
    let mut g = one_op(2);
    g[2] = 2; // `from_vec` of five-byte texts
    g[3] = 1;
    g[4] = 0xff;
    let r = run(512, &g);
    assert!(r.events.is_empty());
    assert_eq!(r.halt, Some(Halt::Exit));
}

#[test]
fn insert_truncate_and_drain() {
    let mut g = one_op(3);
    g[2] = 2; // `from_iter`
    g[3] = 2;
    put_i32(&mut g, 4, 5);
    put_i32(&mut g, 8, 6);
    g[12] = 1; // extend by one value
    put_i32(&mut g, 13, 9);
    put_u64(&mut g, 17, 0); // try_reserve(0)
    put_u64(&mut g, 25, 1); // insert at 1
    put_i32(&mut g, 33, 4);
    put_u64(&mut g, 37, 3); // truncate to 3
    put_u64(&mut g, 45, 1); // drain 1..2
    put_u64(&mut g, 53, 2);
    let r = run(512, &g);
    assert_eq!(r.events, vec![Event::Drained(4), Event::AsRefLen(2)]);
    assert_eq!(r.halt, None);
}

#[test]
fn resized_bytes_hashed_and_consumed() {
    let mut g = one_op(4);
    put_u64(&mut g, 2, 0); // with_capacity(0)
    g[10] = 6;
    put_u64(&mut g, 11, 3); // resize to 3 copies of 6
    put_u64(&mut g, 19, 0);
    let r = run(512, &g);
    assert_eq!(r.events.len(), 4);
    assert!(matches!(r.events[0], Event::Hash(_)));
    assert!(matches!(r.events[1], Event::Ptr(_)));
    assert!(matches!(r.events[2], Event::MutPtr(_)));
    assert_eq!(r.events[3], Event::Consumed(6));
    assert_eq!(r.halt, None);
}

#[test]
fn odd_bytes_are_all_dropped() {
    let mut g = one_op(4);
    put_u64(&mut g, 2, 0);
    g[10] = 7;
    put_u64(&mut g, 11, 3);
    put_u64(&mut g, 19, 0);
    let r = run(512, &g);
    assert_eq!(r.events.len(), 3);
    assert_eq!(r.halt, None);
}

#[test]
fn resize_too_large_overflows() {
    let mut g = one_op(4);
    put_u64(&mut g, 2, 0);
    g[10] = 6;
    put_u64(&mut g, 11, u64::MAX);
    let r = run(512, &g);
    assert!(r.events.is_empty());
    assert_eq!(r.halt, Some(Halt::CapacityOverflow));
}

#[test]
fn pushes_reserves_and_a_swap_remove() {
    let mut g = one_op(5);
    put_u64(&mut g, 2, 0); // with_capacity(0)
    g[10] = 2;
    put_i32(&mut g, 11, 1);
    put_i32(&mut g, 15, 2);
    // reserve, try_reserve, reserve_exact, try_reserve_exact: all 0
    put_u64(&mut g, 51, 0); // swap_remove at 0
    let r = run(512, &g);
    assert_eq!(r.events, vec![Event::BoxedLen(1), Event::BorrowedFirst(2)]);
    assert_eq!(r.halt, None);
}

#[test]
fn reserve_of_a_fresh_vector_too_much_overflows() {
    let mut g = one_op(5);
    put_u64(&mut g, 2, 0);
    g[10] = 0;
    put_u64(&mut g, 11, u64::MAX);
    let r = run(512, &g);
    assert!(r.events.is_empty());
    assert_eq!(r.halt, Some(Halt::CapacityOverflow));
}

#[test]
fn stops_once_few_bytes_are_left() {
    let mut g = vec![0u8; 120];
    g[0] = 2; // two operations
    g[1] = 4;
    put_u64(&mut g, 2, 0);
    g[10] = 2;
    put_u64(&mut g, 11, 1);
    put_u64(&mut g, 19, 0);
    g[27] = 0; // the second one would start at 27: 27 + 100 >= 120
    let r = run(512, &g);
    assert_eq!(r.events.len(), 4);
    assert_eq!(r.events[3], Event::Consumed(2));
    assert_eq!(r.halt, None);
}

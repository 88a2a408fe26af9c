use vec_fuzz::script::Halt;
use vec_fuzz::small_vec::Order;
use vec_fuzz::triple_script::{run, Event};

fn put_u64(b: &mut [u8], at: usize, v: u64) {
    b[at..at + 8].copy_from_slice(&v.to_be_bytes());
}

fn put_i32(b: &mut [u8], at: usize, v: i32) {
    b[at..at + 4].copy_from_slice(&v.to_be_bytes());
}

/// A first half of 512 bytes: one block at 72, all three vectors new.
fn one_block(op: u8, selector: u8) -> Vec<u8> {
    let mut g = vec![0u8; 512];
    g[72] = op;
    g[73] = selector;
    g
}

#[test]
fn inputs_below_3072_bytes_are_ignored() {
    let g = one_block(5, 0);
    let r = run(3071, &g, &g);
    assert!(r.events.is_empty());
    assert_eq!(r.halt, None);
}

#[test]
fn push_onto_the_i32_vector() {
    let mut g = one_block(5, 0);
    put_i32(&mut g, 74, 7);
    let r = run(3072, &g, &g);
    assert_eq!(r.events.len(), 2);
    assert_eq!(r.events[0], Event::Ints(vec![7]));
    assert!(matches!(r.events[1], Event::Ptr(_)));
    assert_eq!(r.halt, None);
}

#[test]
fn compare_with_a_clone() {
    let g = one_block(10, 0);
    let r = run(3072, &g, &g);
    assert_eq!(
        r.events,
        vec![Event::Compared(Order::Equal), Event::Equal(true), Event::PartialCompared(Some(Order::Equal))]
    );
    assert_eq!(r.halt, None);
}

#[test]
fn compare_only_when_both_selectors_choose_the_i32_vector() {
    let mut g = one_block(10, 0);
    g[74] = 1;
    let r = run(3072, &g, &g);
    assert!(r.events.is_empty());
    assert_eq!(r.halt, None);
}

#[test]
fn copies_of_an_i32_then_pop() {
    let mut g = one_block(4, 0);
    g[8] = 2; // `from_elem`
    put_i32(&mut g, 19, 5);
    put_u64(&mut g, 23, 3);
    let r = run(3072, &g, &g);
    assert_eq!(r.events, vec![Event::Int(5), Event::Len(2)]);
    assert_eq!(r.halt, None);
}

#[test]
fn copies_of_a_byte_then_extend() {
    let mut g = one_block(0, 1);
    g[9] = 2; // `from_elem`
    g[39] = 9;
    put_u64(&mut g, 40, 2);
    g[74] = 2; // two bytes
    g[75] = 1;
    g[76] = 2;
    let r = run(3072, &g, &g);
    assert_eq!(r.events, vec![Event::Bytes(vec![9, 9, 1, 2]), Event::Len(4)]);
    assert_eq!(r.halt, None);
}

#[test]
fn clones_of_a_numbered_element() {
    let mut g = one_block(4, 2);
    g[10] = 2; // `from_elem` of clones
    put_u64(&mut g, 35, 0); // (0 + 4) % 3 = 1: the first half
    put_u64(&mut g, 43, 77);
    put_u64(&mut g, 56, 4);
    put_u64(&mut g, 64, 2);
    let r = run(3072, &g, &g);
    assert_eq!(r.events, vec![Event::Number(77), Event::Len(1)]);
    assert_eq!(r.halt, None);
}

#[test]
fn clones_read_from_the_second_half() {
    let mut g = one_block(4, 2);
    g[10] = 2;
    put_u64(&mut g, 35, 1); // (1 + 4) % 3 = 2: the second half
    put_u64(&mut g, 56, 4);
    put_u64(&mut g, 64, 2);
    let mut second = vec![0u8; 512];
    put_u64(&mut second, 43, 99);
    let r = run(3072, &g, &second);
    assert_eq!(r.events, vec![Event::Number(99), Event::Len(1)]);
    assert_eq!(r.halt, None);
}

#[test]
fn many_clones_keep_the_element_last() {
    let mut g = one_block(4, 2);
    g[10] = 2;
    put_u64(&mut g, 35, 0);
    put_u64(&mut g, 43, 77);
    put_u64(&mut g, 56, 4);
    put_u64(&mut g, 64, 14);
    let r = run(3072, &g, &g);
    assert_eq!(r.events, vec![Event::Number(4), Event::Len(13)]);
    assert_eq!(r.halt, None);
}

#[test]
fn a_clone_that_panics() {
    let mut g = one_block(4, 2);
    g[10] = 2;
    put_u64(&mut g, 35, 2); // (2 + 4) % 3 = 0
    put_u64(&mut g, 56, 4);
    put_u64(&mut g, 64, 2);
    let r = run(3072, &g, &g);
    assert!(r.events.is_empty());
    assert_eq!(r.halt, Some(Halt::Intentional));
}

#[test]
fn grow_below_the_length_is_out_of_range() {
    let mut g = one_block(13, 0);
    g[8] = 2;
    put_i32(&mut g, 19, 5);
    put_u64(&mut g, 23, 3);
    put_u64(&mut g, 74, 1);
    let r = run(3072, &g, &g);
    assert!(r.events.is_empty());
    assert_eq!(r.halt, Some(Halt::OutOfRange));
}

#[test]
fn grow_sets_the_capacity() {
    let mut g = one_block(13, 1);
    put_u64(&mut g, 74, 40);
    let r = run(3072, &g, &g);
    assert_eq!(r.events, vec![Event::Capacity(40)]);
    assert_eq!(r.halt, None);
}

#[test]
fn reserve_then_spilled() {
    let mut g = one_block(1, 0);
    put_u64(&mut g, 74, 20);
    let r = run(3072, &g, &g);
    assert_eq!(r.events, vec![Event::Capacity(32), Event::Spilled(true)]);
    assert_eq!(r.halt, None);
}

#[test]
fn reserve_exact_gives_the_exact_capacity() {
    let mut g = one_block(12, 0);
    put_u64(&mut g, 74, 20);
    let r = run(3072, &g, &g);
    assert_eq!(r.events, vec![Event::Capacity(20)]);
    assert_eq!(r.halt, None);
}

#[test]
fn reserve_too_much_for_the_byte_vector_overflows() {
    let mut g = one_block(1, 1);
    put_u64(&mut g, 74, u64::MAX);
    let r = run(3072, &g, &g);
    assert!(r.events.is_empty());
    assert_eq!(r.halt, Some(Halt::CapacityOverflow));
}

#[test]
fn insert_many_then_drain() {
    let mut g = one_block(14, 0);
    put_u64(&mut g, 0, 1); // two blocks
    put_u64(&mut g, 74, 0);
    put_u64(&mut g, 82, 3);
    put_i32(&mut g, 90, 1);
    put_i32(&mut g, 94, 2);
    put_i32(&mut g, 98, 3);
    g[104] = 11; // drain
    g[105] = 0;
    put_u64(&mut g, 106, 1);
    put_u64(&mut g, 114, 5); // 5 % 2 + 1 + 1 = 3
    let r = run(3072, &g, &g);
    assert_eq!(r.events, vec![Event::Ints(vec![1, 2, 3]), Event::Int(2), Event::Int(3)]);
    assert_eq!(r.halt, None);
}

#[test]
fn insert_remove_and_swap_remove_on_numbers() {
    let mut g = one_block(5, 2);
    put_u64(&mut g, 0, 3); // four blocks
    put_u64(&mut g, 74, 10); // push 10
    g[104] = 2; // insert 20 at 0 % 1
    g[105] = 2;
    put_u64(&mut g, 106, 0);
    put_u64(&mut g, 114, 20);
    g[136] = 9; // swap-remove at 0
    g[137] = 2;
    g[168] = 8; // remove at 0
    g[169] = 2;
    let r = run(3072, &g, &g);
    assert_eq!(r.events.len(), 8);
    assert_eq!(r.events[0], Event::Len(1));
    assert_eq!(r.events[2], Event::Len(2));
    assert_eq!(r.events[3], Event::InlineSize(12));
    assert_eq!(r.events[4], Event::Number(20));
    assert_eq!(r.events[5], Event::Len(1));
    assert_eq!(r.events[6], Event::Number(10));
    assert!(matches!(r.events[7], Event::Ptr(_)));
    assert_eq!(r.halt, None);
}

#[test]
fn truncate_clear_and_shrink_the_byte_vector() {
    let mut g = one_block(3, 1);
    put_u64(&mut g, 0, 2); // three blocks
    g[9] = 2;
    g[39] = 4;
    put_u64(&mut g, 40, 40); // 40 copies: on the heap
    put_u64(&mut g, 74, 35); // truncate to 35
    g[104] = 7; // shrink to fit
    g[105] = 1;
    g[136] = 6; // clear
    g[137] = 1;
    let r = run(3072, &g, &g);
    assert_eq!(r.events.len(), 6);
    assert_eq!(r.events[0], Event::Bytes(vec![4; 35]));
    assert_eq!(r.events[1], Event::Empty(false));
    assert_eq!(r.events[2], Event::Capacity(35));
    assert_eq!(r.events[3], Event::Bytes(vec![4; 35]));
    assert_eq!(r.events[4], Event::Empty(true));
    assert_eq!(r.events[5], Event::Bytes(vec![]));
    assert_eq!(r.halt, None);
}

#[test]
fn blocks_stop_before_the_end() {
    let mut g = vec![0u8; 100];
    g[72] = 5;
    let r = run(3072, &g, &g);
    assert!(r.events.is_empty());
    assert_eq!(r.halt, None);
}

use vec_fuzz::cursor::{run, Event};
use vec_fuzz::script::Halt;
use vec_fuzz::small_vec::Order;

fn w(x: u64) -> Vec<u8> {
    x.to_be_bytes().to_vec()
}

/// A first half of at least 300 bytes running the operations `ops` (each
/// its kind byte and its arguments) in turn.
fn script(ops: &[Vec<u8>]) -> Vec<u8> {
    let mut g = w(ops.len() as u64);
    for op in ops {
        g.extend_from_slice(op);
    }
    if g.len() < 300 {
        g.resize(300, 0);
    }
    g
}

fn op(kind: u8, parts: &[Vec<u8>]) -> Vec<u8> {
    let mut v = vec![kind];
    for p in parts {
        v.extend_from_slice(p);
    }
    v
}

#[test]
fn cursor_inputs_below_250_bytes_are_ignored() {
    let g = script(&[op(2, &[w(3), w(4), w(0), w(0)])]);
    let r = run(249, &g);
    assert!(r.events.is_empty());
    assert_eq!(r.halt, None);
}

#[test]
fn pushed_words_and_the_one_at_an_index() {
    let g = script(&[op(0, &[w(0), w(0), w(2), vec![0, 0, 0, 5, 0, 0, 0, 9], w(1)])]);
    let r = run(600, &g);
    assert_eq!(r.events, vec![Event::U32s(vec![5, 9]), Event::U32(9)]);
    assert_eq!(r.halt, None);
}

#[test]
fn a_huge_capacity_overflows() {
    let g = script(&[op(0, &[w(u64::MAX)])]);
    let r = run(600, &g);
    assert!(r.events.is_empty());
    assert_eq!(r.halt, Some(Halt::CapacityOverflow));
}

#[test]
fn bytes_then_their_extension() {
    let g = script(&[op(1, &[w(2), vec![7, 8], w(0), w(1), vec![9]])]);
    let r = run(600, &g);
    assert_eq!(r.events, vec![Event::U8(7), Event::U8(8), Event::U8(9)]);
    assert_eq!(r.halt, None);
}

#[test]
fn length_and_capacity_after_reserve() {
    let g = script(&[op(2, &[w(3), w(4), w(10), w(0)])]);
    let r = run(600, &g);
    assert_eq!(r.events, vec![Event::Length(3), Event::Capacity(16)]);
    assert_eq!(r.halt, None);
}

#[test]
fn the_last_value_is_popped() {
    let g = script(&[op(3, &[w(2), vec![0, 0, 0, 5, 0, 0, 0, 6], w(0), w(0), vec![0, 0, 0, 7]])]);
    let r = run(600, &g);
    assert_eq!(r.events, vec![Event::Popped(6)]);
    assert_eq!(r.halt, None);
}

#[test]
fn cursor_float_operations_are_left_to_the_caller() {
    let g = script(&[op(4, &[w(0), w(0), w(0), w(0)]), op(10, &[w(0), w(0)])]);
    let r = run(600, &g);
    assert_eq!(r.events, vec![Event::FloatOp(4, 9), Event::FloatOp(10, 42)]);
    assert_eq!(r.halt, None);
}

#[test]
fn flags_then_an_address() {
    let g = script(&[op(5, &[vec![0], w(0), w(2), vec![0, 1]])]);
    let r = run(600, &g);
    assert_eq!(r.events.len(), 1);
    assert!(matches!(r.events[0], Event::Ptr(_)));
    assert_eq!(r.halt, None);
}

#[test]
fn appended_vectors_are_unequal_to_the_emptied_one() {
    let g = script(&[op(6, &[w(1), vec![0, 3], w(1), vec![0, 4], w(0)])]);
    let r = run(600, &g);
    assert_eq!(r.events, vec![Event::Equal(false), Event::Compared(Order::Equal)]);
    assert_eq!(r.halt, None);
}

#[test]
fn two_empty_vectors_are_equal() {
    let g = script(&[op(6, &[w(0), w(0), w(0)])]);
    let r = run(600, &g);
    assert_eq!(r.events, vec![Event::Equal(true), Event::Compared(Order::Equal)]);
    assert_eq!(r.halt, None);
}

#[test]
fn a_character_is_removed_then_all_cleared() {
    let g = script(&[op(7, &[w(2), vec![0, 0, 0, b'a', 0, 0, 0, b'b'], w(0), w(1)])]);
    let r = run(600, &g);
    assert_eq!(r.events, vec![Event::Removed('b'), Event::IsEmpty(true)]);
    assert_eq!(r.halt, None);
}

#[test]
fn a_surrogate_code_ends_the_run_quietly() {
    let g = script(&[op(7, &[w(1), vec![0, 0, 0xd8, 0]])]);
    let r = run(600, &g);
    assert!(r.events.is_empty());
    assert_eq!(r.halt, Some(Halt::Exit));
}

#[test]
fn resized_then_turned_into_a_vec() {
    let g = script(&[op(8, &[w(1), w(3), w(0), w(5), w(9)])]);
    let r = run(600, &g);
    assert_eq!(r.events, vec![Event::VecLen(5)]);
    assert_eq!(r.halt, None);
}

#[test]
fn a_copy_then_a_swapped_out_byte() {
    let g = script(&[op(9, &[w(3), vec![1, 2, 3], w(0), w(1)])]);
    let r = run(600, &g);
    assert_eq!(r.events, vec![Event::ToSmallVecLen(3), Event::Swapped(2)]);
    assert_eq!(r.halt, None);
}

#[test]
fn try_reserve_of_nothing_succeeds() {
    let g = script(&[op(11, &[w(1), w(4), w(0), w(0), w(0)])]);
    let r = run(600, &g);
    assert_eq!(r.events, vec![Event::TryReserve(true), Event::DerefLen(1)]);
    assert_eq!(r.halt, None);
}

#[test]
fn try_reserve_of_too_much_fails() {
    let g = script(&[op(11, &[w(1), w(4), w(0), w(u64::MAX), w(0)])]);
    let r = run(600, &g);
    assert_eq!(r.events, vec![Event::TryReserve(false), Event::DerefLen(1)]);
    assert_eq!(r.halt, None);
}

#[test]
fn wide_values_inserted_among_others() {
    let mut one = vec![0u8; 16];
    one[15] = 1;
    let g = script(&[op(12, &[w(1), one.clone(), w(0), w(0), w(2), one.clone(), one])]);
    let r = run(600, &g);
    assert_eq!(r.events, vec![Event::AsRefLen(3)]);
    assert_eq!(r.halt, None);
}

#[test]
fn shorts_inserted_from_a_slice() {
    let g = script(&[op(13, &[w(2), vec![0, 1, 0, 2], w(0), w(1), w(1), vec![0, 3]])]);
    let r = run(600, &g);
    assert_eq!(r.events, vec![Event::BorrowLen(3), Event::MutBorrowLen(3)]);
    assert_eq!(r.halt, None);
}

#[test]
fn signed_bytes_are_consumed_in_order() {
    let g = script(&[op(14, &[w(3), vec![1, 2, 0xff], w(0)])]);
    let r = run(600, &g);
    assert_eq!(r.events, vec![Event::IterVal(1), Event::IterVal(2), Event::IterVal(-1)]);
    assert_eq!(r.halt, None);
}

#[test]
fn operations_follow_one_another() {
    let g = script(&[op(2, &[w(3), w(4), w(0), w(0)]), op(14, &[w(1), vec![5], w(0)])]);
    let r = run(600, &g);
    assert_eq!(r.events, vec![Event::Length(3), Event::Capacity(8), Event::IterVal(5)]);
    assert_eq!(r.halt, None);
}

#[test]
fn a_missing_kind_byte_halts() {
    let g = w(1);
    let r = run(600, &g);
    assert!(r.events.is_empty());
    assert_eq!(r.halt, Some(Halt::InputExhausted));
}

use vec_fuzz::script::Halt;
use vec_fuzz::slab_script::{run, Event};

fn w(x: u64) -> [u8; 8] {
    x.to_be_bytes()
}

fn put(g: &mut [u8], at: usize, bytes: &[u8]) {
    g[at..at + bytes.len()].copy_from_slice(bytes);
}

/// A first half of 600 bytes running two operations: the one on
/// floating-point items at byte 0 (whose first eight bytes also give the
/// count of two), then `op` at byte 8.
fn first(op: u8) -> Vec<u8> {
    let mut g = vec![0u8; 600];
    g[0] = 4;
    g[7] = 18;
    g[8] = op;
    g
}

fn label(i: usize) -> Event {
    Event::Label(format!("item_{}", i))
}

#[test]
fn slab_inputs_below_256_bytes_are_ignored() {
    let g = first(4);
    let r = run(255, &g);
    assert!(r.events.is_empty());
    assert_eq!(r.halt, None);
}

#[test]
fn slab_float_operations_are_left_to_the_caller() {
    let g = first(4);
    let r = run(1200, &g);
    assert_eq!(r.events, vec![Event::FloatOp(0), Event::FloatOp(8)]);
    assert_eq!(r.halt, None);
}

#[test]
fn slab_labels_in_a_new_slab() {
    let mut g = first(0);
    g[25] = 3;
    let r = run(1200, &g);
    assert_eq!(r.events, vec![Event::FloatOp(0), label(0), label(1), label(2)]);
    assert_eq!(r.halt, None);
}

#[test]
fn slab_labels_beyond_a_small_capacity() {
    let mut g = first(0);
    put(&mut g, 9, &w(2));
    g[17] = 1;
    g[25] = 5;
    let r = run(1200, &g);
    assert_eq!(r.events, vec![Event::FloatOp(0), label(0), label(1), label(2), label(3), label(4)]);
}

#[test]
fn slab_an_overflowing_capacity_is_an_arithmetic_overflow() {
    let mut g = first(0);
    put(&mut g, 9, &w(u64::MAX));
    g[17] = 1;
    let r = run(1200, &g);
    assert_eq!(r.events, vec![Event::FloatOp(0)]);
    assert_eq!(r.halt, Some(Halt::ArithmeticOverflow));
}

#[test]
fn slab_a_capacity_beyond_isize_max_bytes_is_refused() {
    let mut g = first(0);
    put(&mut g, 9, &w(1 << 59));
    g[17] = 1;
    let r = run(1200, &g);
    assert_eq!(r.events, vec![Event::FloatOp(0)]);
    assert_eq!(r.halt, Some(Halt::AllocationRefused));
}

#[test]
fn slab_numbers_listed_and_one_removed() {
    let mut g = first(1);
    put(&mut g, 9, &w(2));
    g[24] = 3;
    put(&mut g, 26, &[0, 0, 0, 9]);
    put(&mut g, 208, &w(1));
    let r = run(1200, &g);
    assert_eq!(
        r.events,
        vec![Event::FloatOp(0), Event::Number(0), Event::Number(768), Event::Number(9), Event::Number(768)]
    );
}

#[test]
fn slab_an_offset_out_of_range_removes_nothing() {
    let mut g = first(1);
    put(&mut g, 9, &w(2));
    g[24] = 3;
    put(&mut g, 208, &w(3));
    let r = run(1200, &g);
    assert_eq!(r.events.len(), 4);
}

#[test]
fn slab_byte_vectors_one_looked_up() {
    let mut g = first(2);
    g[16] = 2;
    g[24] = 3;
    put(&mut g, 58, &[1, 2, 3]);
    g[115] = 1;
    let r = run(1200, &g);
    let v = vec![1u8, 2, 3];
    assert_eq!(
        r.events,
        vec![Event::FloatOp(0), Event::Bytes(v.clone()), Event::Bytes(v.clone()), Event::Bytes(v)]
    );
}

#[test]
fn slab_one_character_texts_then_numbers() {
    let mut g = first(3);
    put(&mut g, 9, &w(1));
    g[24] = 2;
    put(&mut g, 28, &[0, 0, 0, b'a', 0, 0, 0, b'b']);
    g[115] = 1;
    put(&mut g, 128, &w(5));
    let r = run(1200, &g);
    assert_eq!(
        r.events,
        vec![
            Event::FloatOp(0),
            Event::CharText("a".to_string()),
            Event::CharText("b".to_string()),
            Event::I64(5)
        ]
    );
}

#[test]
fn slab_a_surrogate_ends_the_run_quietly() {
    let mut g = first(3);
    put(&mut g, 9, &w(1));
    g[24] = 1;
    put(&mut g, 28, &[0, 0, 0xD8, 0]);
    let r = run(1200, &g);
    assert_eq!(r.events, vec![Event::FloatOp(0)]);
    assert_eq!(r.halt, Some(Halt::Exit));
}

#[test]
fn slab_flags_listed() {
    let mut g = first(5);
    g[24] = 3;
    put(&mut g, 28, &[0, 1, 2]);
    let r = run(1200, &g);
    assert_eq!(r.events, vec![Event::FloatOp(0), Event::Bool(true), Event::Bool(false), Event::Bool(true)]);
}

#[test]
fn slab_a_short_first_half_is_exhausted() {
    let mut g = first(5);
    g[24] = 3;
    let r = run(1200, &g[..20]);
    assert_eq!(r.events, vec![Event::FloatOp(0)]);
    assert_eq!(r.halt, Some(Halt::InputExhausted));
}

use vec_fuzz::borrowed::{run, Event};
use vec_fuzz::script::Halt;
use vec_fuzz::small_vec::Order;

fn w(x: u64) -> [u8; 8] {
    x.to_be_bytes()
}

fn put(g: &mut [u8], at: usize, bytes: &[u8]) {
    g[at..at + bytes.len()].copy_from_slice(bytes);
}

/// A first half of 2000 bytes whose first operation is `op` and whose four
/// others are operations on floating-point items.
fn first(op: u8) -> Vec<u8> {
    let mut g = vec![0u8; 2000];
    g[1] = op;
    for k in 1..5 {
        g[80 * k + 1] = 2;
    }
    g
}

/// The events of the four trailing operations on floating-point items.
fn floats() -> Vec<Event> {
    (1..5).map(|k| Event::FloatOp(2, 80 * k)).collect()
}

fn with_floats(mut events: Vec<Event>) -> Vec<Event> {
    events.extend(floats());
    events
}

#[test]
fn borrowed_inputs_below_2000_bytes_are_ignored() {
    let g = first(2);
    let r = run(1999, &g);
    assert!(r.events.is_empty());
    assert_eq!(r.halt, None);
}

#[test]
fn borrowed_the_first_byte_adds_operations() {
    let mut g = first(8);
    g[0] = 21;
    g[401] = 2;
    let r = run(4000, &g);
    let mut expected = vec![Event::FloatOp(8, 0)];
    expected.extend(floats());
    expected.push(Event::FloatOp(2, 400));
    assert_eq!(r.events, expected);
    assert_eq!(r.halt, None);
}

#[test]
fn borrowed_pushed_value_popped_from_an_empty_vector() {
    let mut g = first(0);
    g[2] = 4;
    put(&mut g, 51, &[0, 0, 0, 9]);
    let r = run(4000, &g);
    assert_eq!(
        r.events,
        with_floats(vec![Event::I32(9), Event::I32s(vec![]), Event::I32s(vec![]), Event::I32s(vec![])])
    );
    assert_eq!(r.halt, None);
}

#[test]
fn borrowed_an_array_of_twelve_values() {
    let mut g = first(0);
    g[2] = 3;
    for k in 0..12 {
        put(&mut g, 3 + 4 * k, &[0, 0, 0, k as u8 + 1]);
    }
    put(&mut g, 51, &[0, 0, 0, 7]);
    let r = run(4000, &g);
    let items: Vec<i32> = (1..13).collect();
    assert_eq!(
        r.events,
        with_floats(vec![
            Event::I32(7),
            Event::I32s(items.clone()),
            Event::I32s(items.clone()),
            Event::I32s(items)
        ])
    );
}

#[test]
fn borrowed_copies_of_one_value() {
    let mut g = first(0);
    g[2] = 2;
    put(&mut g, 3, &[0, 0, 0, 5]);
    put(&mut g, 7, &w(3));
    let r = run(4000, &g);
    assert_eq!(r.events[..2], [Event::I32(0), Event::I32s(vec![5, 5, 5])]);
}

#[test]
fn borrowed_too_many_copies_overflow() {
    let mut g = first(0);
    g[2] = 2;
    put(&mut g, 7, &w(u64::MAX));
    let r = run(4000, &g);
    assert!(r.events.is_empty());
    assert_eq!(r.halt, Some(Halt::CapacityOverflow));
}

#[test]
fn borrowed_values_taken_over_from_a_vec() {
    let mut g = first(0);
    g[2] = 1;
    g[11] = 2;
    put(&mut g, 15, &[0, 0, 0, 4, 0, 0, 0, 6]);
    let r = run(4000, &g);
    assert_eq!(r.events[..2], [Event::I32(0), Event::I32s(vec![4, 6])]);
}

#[test]
fn borrowed_a_huge_capacity_overflows() {
    let mut g = first(0);
    put(&mut g, 3, &w(u64::MAX));
    let r = run(4000, &g);
    assert!(r.events.is_empty());
    assert_eq!(r.halt, Some(Halt::CapacityOverflow));
}

#[test]
fn borrowed_bytes_after_a_slice() {
    let mut g = first(1);
    g[2] = 2;
    put(&mut g, 3, &[1, 2, 3]);
    g[7] = 2;
    put(&mut g, 8, &[4, 5]);
    let r = run(4000, &g);
    let items = vec![1u8, 2, 3, 4, 5];
    assert_eq!(
        r.events,
        with_floats(vec![
            Event::U8s(items.clone()),
            Event::U8s(items),
            Event::Count(15),
            Event::Count(5),
            Event::Flag(false)
        ])
    );
}

#[test]
fn borrowed_twenty_bytes_spill() {
    let mut g = first(1);
    g[7] = 20;
    for k in 0..20 {
        g[8 + k] = k as u8;
    }
    let r = run(4000, &g);
    let items: Vec<u8> = (0..20).collect();
    assert_eq!(
        r.events[..5],
        [Event::U8s(items.clone()), Event::U8s(items), Event::Count(32), Event::Count(20), Event::Flag(true)]
    );
}

#[test]
fn borrowed_two_vectors_of_i64_compared() {
    let mut g = first(3);
    g[2] = 1;
    put(&mut g, 4, &w(3));
    put(&mut g, 12, &w(2));
    g[36] = 1;
    g[37] = 2;
    put(&mut g, 38, &w(1));
    put(&mut g, 54, &w(3));
    put(&mut g, 62, &w(4));
    let r = run(4000, &g);
    assert_eq!(
        r.events,
        with_floats(vec![
            Event::I64s(vec![3, 3, 1]),
            Event::I64s(vec![3, 4]),
            Event::Compared(Order::Less),
            Event::PartialCompared(Order::Less),
            Event::Count(0)
        ])
    );
}

#[test]
fn borrowed_texts_with_one_inserted() {
    let mut g = first(4);
    g[2] = 2;
    g[11] = 1;
    g[12] = 2;
    put(&mut g, 20, b"abc");
    put(&mut g, 70, &w(1));
    let r = run(4000, &g);
    let s = |t: &str| t.to_string();
    assert_eq!(
        r.events,
        with_floats(vec![
            Event::Texts(vec![s("test1"), s("test2"), s("abc")]),
            Event::Text(s("test1")),
            Event::Text(s("inserted")),
            Event::Text(s("test2")),
            Event::Text(s("abc"))
        ])
    );
}

#[test]
fn borrowed_no_texts_nothing_inserted() {
    let g = first(4);
    let r = run(4000, &g);
    assert_eq!(r.events, with_floats(vec![Event::Texts(vec![])]));
}

#[test]
fn borrowed_a_text_that_is_not_utf8_ends_the_run() {
    let mut g = first(4);
    g[11] = 1;
    g[20] = 0xff;
    let r = run(4000, &g);
    assert!(r.events.is_empty());
    assert_eq!(r.halt, Some(Halt::Exit));
}

#[test]
fn borrowed_flags_truncated_and_drained() {
    let mut g = first(5);
    g[11] = 3;
    put(&mut g, 12, &[0, 1, 0]);
    put(&mut g, 32, &w(5));
    put(&mut g, 40, &w(1));
    put(&mut g, 48, &w(2));
    let r = run(4000, &g);
    assert_eq!(
        r.events,
        with_floats(vec![Event::Bools(vec![true, false, true]), Event::Bool(false)])
    );
}

#[test]
fn borrowed_an_empty_range_drains_nothing() {
    let mut g = first(5);
    g[11] = 3;
    put(&mut g, 40, &w(2));
    put(&mut g, 48, &w(1));
    let r = run(4000, &g);
    assert_eq!(r.events, with_floats(vec![Event::Bools(vec![true, true, true])]));
}

#[test]
fn borrowed_three_characters_and_one_of_them() {
    let mut g = first(6);
    put(&mut g, 3, &[0, 0, 0, b'x', 0, 0, 0, b'y', 0, 0, 0, b'z']);
    put(&mut g, 19, &w(4));
    let r = run(4000, &g);
    assert_eq!(
        r.events,
        with_floats(vec![Event::Chars(vec!['x', 'y', 'z']), Event::Char('y'), Event::Count(3)])
    );
}

#[test]
fn borrowed_an_array_of_sixteen_characters() {
    let mut g = first(6);
    g[2] = 1;
    for k in 0..16 {
        put(&mut g, 3 + 4 * k, &[0, 0, 0, b'a']);
    }
    let r = run(4000, &g);
    assert_eq!(r.events[..3], [Event::Chars(vec!['a'; 16]), Event::Char('a'), Event::Count(16)]);
}

#[test]
fn borrowed_a_single_character() {
    let mut g = first(6);
    g[2] = 2;
    put(&mut g, 3, &[0, 0, 0, b'q']);
    let r = run(4000, &g);
    assert_eq!(r.events[..3], [Event::Chars(vec!['q']), Event::Char('q'), Event::Count(1)]);
}

#[test]
fn borrowed_four_u16_values_copied() {
    let mut g = first(7);
    put(&mut g, 2, &[0, 1, 0, 2, 0, 3, 0, 4]);
    let r = run(4000, &g);
    assert_eq!(r.events.len(), 8);
    assert_eq!(r.events[0], Event::U16s(vec![1, 2, 3, 4]));
    assert!(matches!(r.events[1], Event::Ptr(_)));
    assert_eq!(r.events[2..4], [Event::Flag(false), Event::Count(4)]);
}

#[test]
fn borrowed_resized_then_extended() {
    let mut g = first(9);
    put(&mut g, 11, &w(3));
    put(&mut g, 19, &[0, 5, 0, 5, 0, 6]);
    let r = run(4000, &g);
    assert_eq!(r.events, with_floats(vec![Event::I16s(vec![5, 5, 5, 5, 6]), Event::Count(2)]));
}

#[test]
fn borrowed_a_huge_resize_overflows() {
    let mut g = first(9);
    put(&mut g, 11, &w(u64::MAX));
    let r = run(4000, &g);
    assert!(r.events.is_empty());
    assert_eq!(r.halt, Some(Halt::CapacityOverflow));
}

#[test]
fn borrowed_a_short_first_half_is_exhausted() {
    let mut g = first(7);
    put(&mut g, 2, &[0, 1, 0, 2, 0, 3, 0, 4]);
    let r = run(2000, &g[..50]);
    assert_eq!(r.events.len(), 4);
    assert_eq!(r.halt, Some(Halt::InputExhausted));
}

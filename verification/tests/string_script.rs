use vec_fuzz::script::Halt;
use vec_fuzz::string_script::{run, Event};

fn put_u64(b: &mut [u8], at: usize, v: u64) {
    b[at..at + 8].copy_from_slice(&v.to_be_bytes());
}

fn put_text(b: &mut [u8], at: usize, t: &str) {
    b[at..at + t.len()].copy_from_slice(t.as_bytes());
}

fn text(t: &str) -> String {
    t.to_string()
}

/// A first half that runs five operations on an empty inline vector.
fn five_ops_on_new() -> Vec<u8> {
    let mut first = vec![0u8; 140];
    first[0] = 0; // 0 % 20 + 5 = 5 operations
    first[1] = 0; // an empty name
    first[20] = 3; // `SmallVec::new`
    first
}

#[test]
fn inputs_below_280_bytes_are_ignored() {
    let first = vec![0xffu8; 139];
    let r = run(279, &first, &first);
    assert!(r.events.is_empty());
    assert_eq!(r.halt, None);
}

#[test]
fn push_first_capacity_pop_and_final_swap_remove() {
    let mut first = five_ops_on_new();
    first[50] = 1; // push
    first[51] = 3;
    put_text(&mut first, 52, "abc");
    first[62] = 16; // 16 % 15 = 1: push
    first[63] = 12; // 12 % 10 = 2
    put_text(&mut first, 64, "xy");
    first[74] = 7; // first item
    first[86] = 14; // capacity
    first[98] = 2; // pop
    let second = vec![0u8; 140];
    let r = run(280, &first, &second);
    assert_eq!(
        r.events,
        vec![
            Event::First(text("abc")),
            Event::Capacity(15),
            Event::Popped(text("xy")),
            Event::Removed(text("abc")),
        ]
    );
    assert_eq!(r.halt, None);
}

#[test]
fn a_name_that_is_not_utf8_stops_quietly() {
    let mut first = five_ops_on_new();
    first[1] = 2;
    first[2] = 0xff;
    first[3] = 0xfe;
    let r = run(280, &first, &first);
    assert!(r.events.is_empty());
    assert_eq!(r.halt, Some(Halt::Exit));
}

#[test]
fn final_index_out_of_range() {
    let mut first = five_ops_on_new();
    first[50] = 1;
    first[51] = 1;
    put_text(&mut first, 52, "q");
    for base in [62, 74, 86, 98] {
        first[base] = 9; // append of the empty spare vector
    }
    let mut second = vec![0u8; 140];
    put_u64(&mut second, 0, 1);
    let r = run(280, &first, &second);
    assert!(r.events.is_empty());
    assert_eq!(r.halt, Some(Halt::OutOfRange));
}

#[test]
fn final_index_past_a_short_second_half() {
    let mut first = five_ops_on_new();
    first[50] = 1;
    first[51] = 1;
    put_text(&mut first, 52, "q");
    for base in [62, 74, 86, 98] {
        first[base] = 9;
    }
    let second = vec![0u8; 7];
    let r = run(280, &first, &second);
    assert!(r.events.is_empty());
    assert_eq!(r.halt, Some(Halt::InputExhausted));
}

#[test]
fn swap_remove_on_an_empty_vector_does_nothing() {
    let mut first = five_ops_on_new();
    put_u64(&mut first, 51, u64::MAX);
    let r = run(280, &first, &first);
    assert!(r.events.is_empty());
    assert_eq!(r.halt, None);
}

#[test]
fn with_capacity_too_large_overflows() {
    let mut first = five_ops_on_new();
    first[20] = 0; // `with_capacity`
    put_u64(&mut first, 21, u64::MAX);
    let r = run(280, &first, &first);
    assert!(r.events.is_empty());
    assert_eq!(r.halt, Some(Halt::CapacityOverflow));
}

#[test]
fn with_capacity_reports_the_requested_capacity() {
    let mut first = five_ops_on_new();
    first[20] = 4; // 4 % 4 = 0: `with_capacity`
    put_u64(&mut first, 21, 40);
    first[50] = 14; // capacity
    first[62] = 1; // push "ab"
    first[63] = 2;
    put_text(&mut first, 64, "ab");
    first[74] = 12; // shrink to fit: back inline
    first[86] = 14; // capacity
    first[98] = 13; // length of the `Vec` of a clone
    let second = vec![0u8; 140];
    let r = run(280, &first, &second);
    assert_eq!(
        r.events,
        vec![
            Event::Capacity(40),
            Event::Capacity(15),
            Event::IntoVecLen(1),
            Event::Removed(text("ab")),
        ]
    );
    assert_eq!(r.halt, None);
}

#[test]
fn copies_of_one_text_then_clone_remove_and_drain() {
    let mut first = five_ops_on_new();
    first[20] = 2; // `from_elem`
    first[21] = 2;
    put_text(&mut first, 22, "hi");
    put_u64(&mut first, 30, 3);
    first[50] = 10; // length of a clone
    first[62] = 13; // length of the `Vec` of a clone
    first[74] = 8; // remove at 1
    put_u64(&mut first, 75, 1);
    first[86] = 14; // capacity
    first[98] = 11; // drain 1..2
    put_u64(&mut first, 99, 1);
    put_u64(&mut first, 107, 2);
    let second = vec![0u8; 140];
    let r = run(280, &first, &second);
    assert_eq!(
        r.events,
        vec![
            Event::ClonedLen(3),
            Event::IntoVecLen(3),
            Event::Removed(text("hi")),
            Event::Capacity(15),
            Event::Drained(text("hi")),
            Event::Removed(text("hi")),
        ]
    );
    assert_eq!(r.halt, None);
}

#[test]
fn texts_from_a_vec_then_insert_and_truncate() {
    let mut first = five_ops_on_new();
    first[20] = 1; // `from_vec`
    first[21] = 2; // two texts
    first[29] = 1; // of one byte at 41
    first[30] = 1; // of one byte at 49
    put_text(&mut first, 41, "a");
    put_text(&mut first, 49, "b");
    first[50] = 3; // insert "z" at 1
    put_u64(&mut first, 51, 1);
    first[59] = 1;
    put_text(&mut first, 60, "z");
    first[62] = 7; // first item
    first[74] = 4; // truncate to 2
    put_u64(&mut first, 75, 2);
    first[86] = 2; // pop
    first[98] = 6; // clear
    let r = run(280, &first, &first);
    assert_eq!(r.events, vec![Event::First(text("a")), Event::Popped(text("z"))]);
    assert_eq!(r.halt, None);
}

#[test]
fn insert_past_the_end_is_out_of_range() {
    let mut first = five_ops_on_new();
    first[50] = 3;
    put_u64(&mut first, 51, 1);
    first[59] = 0;
    let r = run(280, &first, &first);
    assert!(r.events.is_empty());
    assert_eq!(r.halt, Some(Halt::OutOfRange));
}

#[test]
fn reserve_too_much_overflows() {
    let mut first = five_ops_on_new();
    first[50] = 5;
    put_u64(&mut first, 51, u64::MAX);
    let r = run(280, &first, &first);
    assert!(r.events.is_empty());
    assert_eq!(r.halt, Some(Halt::CapacityOverflow));
}

#[test]
fn reserve_grows_to_a_power_of_two() {
    let mut first = five_ops_on_new();
    first[50] = 5;
    put_u64(&mut first, 51, 20);
    first[62] = 14;
    first[74] = 6;
    first[86] = 12; // shrink to fit an empty vector: inline again
    first[98] = 14;
    let r = run(280, &first, &first);
    assert_eq!(r.events, vec![Event::Capacity(32), Event::Capacity(15)]);
    assert_eq!(r.halt, None);
}

#[test]
fn drain_with_a_reversed_range_is_out_of_range() {
    let mut first = five_ops_on_new();
    first[50] = 11;
    put_u64(&mut first, 51, 1);
    put_u64(&mut first, 59, 0);
    let r = run(280, &first, &first);
    assert!(r.events.is_empty());
    assert_eq!(r.halt, Some(Halt::OutOfRange));
}

#[test]
fn operations_past_the_first_half_run_out_of_input() {
    let mut first = five_ops_on_new();
    first[0] = 19; // 24 operations, the later ones past 140 bytes
    for k in 0..7 {
        first[50 + 12 * k] = 9;
    }
    let r = run(280, &first, &first);
    assert!(r.events.is_empty());
    assert_eq!(r.halt, Some(Halt::InputExhausted));
}

use vec_fuzz::hooked::{run, Event};
use vec_fuzz::script::Halt;
use vec_fuzz::small_vec::Order;

/// The number that a clone of an element numbered 2 mod 3 carries, with the
/// selector key left at zero: it is read from the second half.
const CLONED: u64 = 77;

/// Halves of 1100 bytes running the operations `ops` in turn.
fn halves(ops: &[u8]) -> (Vec<u8>, Vec<u8>) {
    let mut g = vec![0u8; 1100];
    let mut s = vec![0u8; 1100];
    g[0] = ops.len() as u8;
    for (k, op) in ops.iter().enumerate() {
        g[1 + k] = *op;
    }
    put_u64(&mut s, 18, CLONED);
    (g, s)
}

fn put_u64(b: &mut [u8], at: usize, v: u64) {
    b[at..at + 8].copy_from_slice(&v.to_be_bytes());
}

#[test]
fn hooked_inputs_below_1200_bytes_are_ignored() {
    let (g, s) = halves(&[4]);
    let r = run(1199, &g, &s);
    assert!(r.events.is_empty());
    assert_eq!(r.halt, None);
}

#[test]
fn an_empty_vector_equals_its_clone() {
    let (g, s) = halves(&[4]);
    let r = run(2200, &g, &s);
    assert_eq!(
        r.events,
        vec![Event::Flag(true), Event::Compared(Order::Equal), Event::Compared(Order::Equal), Event::Flag(true)]
    );
    assert_eq!(r.halt, None);
}

#[test]
fn a_short_first_half_stops_the_pushes() {
    let (g, s) = halves(&[4]);
    let r = run(2200, &g[..750], &s);
    assert_eq!(r.events.len(), 4);
    assert_eq!(r.halt, Some(Halt::InputExhausted));
}

#[test]
fn an_iterator_gives_its_elements_in_order() {
    let (mut g, s) = halves(&[6]);
    for p in 0..5 {
        put_u64(&mut g, 801 + 8 * p, 10 + p as u64);
    }
    let r = run(2200, &g, &s);
    let mut want = vec![Event::Items(vec![10, 11, 12, 13, 14])];
    for p in 0..5 {
        want.push(Event::Item(10 + p));
    }
    assert_eq!(r.events, want);
    assert_eq!(r.halt, None);
}

#[test]
fn an_index_in_range_reports_its_item() {
    let (mut g, s) = halves(&[9]);
    for q in 0..8 {
        put_u64(&mut g, 865 + 8 * q, 100 + q as u64);
    }
    put_u64(&mut g, 929, 3);
    let r = run(2200, &g, &s);
    let v: Vec<usize> = (100..108).collect();
    assert_eq!(r.events, vec![Event::Item(103), Event::Items(v.clone()), Event::Items(v.clone()), Event::Items(v)]);
    assert_eq!(r.halt, None);
}

#[test]
fn an_index_out_of_range_halts() {
    let (mut g, s) = halves(&[9]);
    put_u64(&mut g, 929, 8);
    let r = run(2200, &g, &s);
    assert!(r.events.is_empty());
    assert_eq!(r.halt, Some(Halt::OutOfRange));
}

#[test]
fn twenty_clones_convert_back_to_an_array() {
    let (mut g, s) = halves(&[11]);
    put_u64(&mut g, 1017, 2);
    put_u64(&mut g, 1025, 19);
    let r = run(2200, &g, &s);
    assert_eq!(r.events.len(), 4);
    assert_eq!(r.events[0], Event::Items(vec![CLONED as usize; 20]));
    assert_eq!(r.events[1], Event::Item(CLONED as usize));
    assert!(matches!(r.events[2], Event::MutPtr(_)));
    assert_eq!(r.events[3], Event::Converted);
    assert_eq!(r.halt, None);
}

#[test]
fn a_clone_that_panics_halts_the_run() {
    let (mut g, s) = halves(&[11, 4]);
    put_u64(&mut g, 1017, 3);
    let r = run(2200, &g, &s);
    assert!(r.events.is_empty());
    assert_eq!(r.halt, Some(Halt::Intentional));
}

#[test]
fn a_clone_whose_selector_overflows_halts() {
    let (mut g, s) = halves(&[11]);
    put_u64(&mut g, 10, u64::MAX);
    put_u64(&mut g, 1017, 2);
    let r = run(2200, &g, &s);
    assert!(r.events.is_empty());
    assert_eq!(r.halt, Some(Halt::ArithmeticOverflow));
}

#[test]
fn insert_remove_grow_and_swap_remove() {
    let (mut g, s) = halves(&[2]);
    put_u64(&mut g, 496, 2);
    put_u64(&mut g, 504, 0);
    put_u64(&mut g, 512, 7);
    put_u64(&mut g, 520, 1);
    put_u64(&mut g, 528, 40);
    put_u64(&mut g, 536, 0);
    let r = run(2200, &g, &s);
    assert_eq!(
        r.events,
        vec![Event::Item(CLONED as usize), Event::Items(vec![7]), Event::Item(7), Event::Count(20)]
    );
    assert_eq!(r.halt, None);
}

#[test]
fn growing_under_the_one_item_left_halts() {
    let (mut g, s) = halves(&[2]);
    put_u64(&mut g, 496, 2);
    put_u64(&mut g, 520, 0);
    let r = run(2200, &g, &s);
    assert_eq!(r.events, vec![Event::Item(0)]);
    assert_eq!(r.halt, Some(Halt::OutOfRange));
}

#[test]
fn a_new_vector_from_the_first_constructor() {
    let (mut g, s) = halves(&[0]);
    g[35] = 2;
    put_u64(&mut g, 67, 5);
    put_u64(&mut g, 75, 6);
    let r = run(2200, &g, &s);
    assert_eq!(
        r.events,
        vec![Event::Items(vec![5, 6]), Event::Items(vec![]), Event::Flag(false), Event::Count(0), Event::Flag(true)]
    );
    assert_eq!(r.halt, None);
}

#[test]
fn a_vector_copied_from_a_slice() {
    let (mut g, s) = halves(&[0]);
    g[35] = 2;
    put_u64(&mut g, 67, 5);
    put_u64(&mut g, 75, 6);
    g[334] = 7;
    let r = run(2200, &g, &s);
    assert_eq!(
        r.events,
        vec![
            Event::Items(vec![5, 6]),
            Event::Item(5),
            Event::Items(vec![5, 6]),
            Event::Flag(false),
            Event::Count(2),
            Event::Flag(false),
        ]
    );
    assert_eq!(r.halt, None);
}

#[test]
fn copies_of_an_element_are_its_clones() {
    let (mut g, s) = halves(&[0]);
    g[334] = 3;
    put_u64(&mut g, 343, 2);
    put_u64(&mut g, 351, 3);
    let c = CLONED as usize;
    let r = run(2200, &g, &s);
    assert_eq!(
        r.events,
        vec![
            Event::Items(vec![]),
            Event::Item(c),
            Event::Items(vec![c, c, c]),
            Event::Flag(false),
            Event::Count(3),
            Event::Flag(false),
        ]
    );
    assert_eq!(r.halt, None);
}

#[test]
fn a_capacity_too_large_overflows() {
    let (mut g, s) = halves(&[0]);
    g[334] = 1;
    put_u64(&mut g, 335, u64::MAX);
    let r = run(2200, &g, &s);
    assert!(r.events.is_empty());
    assert_eq!(r.halt, Some(Halt::CapacityOverflow));
}

#[test]
fn pushed_clones_pop_and_append() {
    let (mut g, s) = halves(&[1]);
    g[359] = 2;
    put_u64(&mut g, 360, 2);
    put_u64(&mut g, 368, 5);
    put_u64(&mut g, 488, 5);
    let c = CLONED as usize;
    let r = run(2200, &g, &s);
    let joined = vec![c, 2, 5];
    assert_eq!(
        r.events,
        vec![
            Event::Count(24),
            Event::Flag(false),
            Event::Count(2),
            Event::Item(c),
            Event::Items(joined.clone()),
            Event::Items(joined.clone()),
            Event::Items(joined),
        ]
    );
    assert_eq!(r.halt, None);
}

#[test]
fn inserting_a_slice_in_the_middle() {
    let (mut g, s) = halves(&[3]);
    g[536] = 2;
    put_u64(&mut g, 537, 2);
    put_u64(&mut g, 545, 5);
    put_u64(&mut g, 697, 1);
    let r = run(2200, &g, &s);
    assert_eq!(r.events, vec![Event::Items(vec![2, 2, 5, 5])]);
    assert_eq!(r.halt, None);
}

#[test]
fn inserting_many_past_the_end_halts() {
    let (mut g, s) = halves(&[3]);
    g[536] = 2;
    put_u64(&mut g, 537, 2);
    put_u64(&mut g, 545, 5);
    put_u64(&mut g, 705, 100);
    let r = run(2200, &g, &s);
    assert_eq!(r.events, vec![Event::Items(vec![2, 5, 2, 5])]);
    assert_eq!(r.halt, Some(Halt::OutOfRange));
}

#[test]
fn inserting_many_at_an_overflowing_index_halts() {
    let (mut g, s) = halves(&[3]);
    g[536] = 2;
    put_u64(&mut g, 537, 2);
    put_u64(&mut g, 545, 5);
    put_u64(&mut g, 705, u64::MAX);
    let r = run(2200, &g, &s);
    assert_eq!(r.events.len(), 1);
    assert_eq!(r.halt, Some(Halt::ArithmeticOverflow));
}

#[test]
fn a_drained_range_and_what_is_left() {
    let (mut g, s) = halves(&[5]);
    put_u64(&mut g, 705, 2);
    put_u64(&mut g, 713, 4);
    for n in 0..10 {
        put_u64(&mut g, 721 + 8 * n, n as u64);
    }
    let r = run(2200, &g, &s);
    assert_eq!(r.events, vec![Event::Item(2), Event::Items(vec![0, 1, 4, 5, 6, 7, 8, 9])]);
    assert_eq!(r.halt, None);
}

#[test]
fn a_reversed_range_halts() {
    let (mut g, s) = halves(&[5]);
    put_u64(&mut g, 705, 5);
    put_u64(&mut g, 713, 3);
    let r = run(2200, &g, &s);
    assert!(r.events.is_empty());
    assert_eq!(r.halt, Some(Halt::OutOfRange));
}

#[test]
fn resizing_with_a_clone_that_panics_halts() {
    let (mut g, s) = halves(&[5, 4]);
    put_u64(&mut g, 801, 12);
    put_u64(&mut g, 809, 3);
    let r = run(2200, &g, &s);
    assert_eq!(r.events, vec![Event::Items(vec![0; 10])]);
    assert_eq!(r.halt, Some(Halt::Intentional));
}

#[test]
fn copies_beyond_the_inline_size_end_with_the_element() {
    let (mut g, s) = halves(&[7]);
    put_u64(&mut g, 841, 2);
    put_u64(&mut g, 849, 130);
    let r = run(2200, &g, &s);
    let mut v = vec![CLONED as usize; 129];
    v.push(2);
    assert_eq!(r.events, vec![Event::Items(v.clone()), Event::Items(v)]);
    assert_eq!(r.halt, None);
}

#[test]
fn too_many_copies_overflow() {
    let (mut g, s) = halves(&[7]);
    put_u64(&mut g, 849, u64::MAX);
    let r = run(2200, &g, &s);
    assert!(r.events.is_empty());
    assert_eq!(r.halt, Some(Halt::CapacityOverflow));
}

#[test]
fn fifteen_copies_in_a_vec() {
    let (mut g, s) = halves(&[8]);
    put_u64(&mut g, 857, 5);
    let r = run(2200, &g, &s);
    let mut v = vec![CLONED as usize; 14];
    v.push(5);
    assert_eq!(r.events.len(), 4);
    assert_eq!(r.events[0], Event::Items(v.clone()));
    assert_eq!(r.events[1], Event::Items(v.clone()));
    assert!(matches!(r.events[2], Event::Ptr(_)));
    assert_eq!(r.events[3], Event::Items(v));
    assert_eq!(r.halt, None);
}

#[test]
fn reservations_that_fit_succeed() {
    let (mut g, s) = halves(&[10]);
    for (k, x) in [1u64, 2, 3].iter().enumerate() {
        put_u64(&mut g, 937 + 8 * k, *x);
    }
    for (k, x) in [1u64, 2, 4].iter().enumerate() {
        put_u64(&mut g, 961 + 8 * k, *x);
    }
    put_u64(&mut g, 1009, 8);
    let r = run(2200, &g, &s);
    assert_eq!(
        r.events,
        vec![
            Event::Flag(false),
            Event::PartialCompared(Order::Less),
            Event::Flag(true),
            Event::Flag(true),
            Event::Flag(true),
        ]
    );
    assert_eq!(r.halt, None);
}

#[test]
fn a_reservation_that_overflows_fails() {
    let (mut g, s) = halves(&[10]);
    put_u64(&mut g, 985, u64::MAX);
    put_u64(&mut g, 993, u64::MAX);
    put_u64(&mut g, 1009, 16);
    let r = run(2200, &g, &s);
    assert_eq!(
        r.events,
        vec![
            Event::Flag(true),
            Event::PartialCompared(Order::Equal),
            Event::Flag(false),
            Event::Flag(false),
            Event::Flag(true),
        ]
    );
    assert_eq!(r.halt, None);
}

#[test]
fn growing_below_three_items_halts() {
    let (g, s) = halves(&[10]);
    let r = run(2200, &g, &s);
    assert_eq!(r.events.len(), 4);
    assert_eq!(r.halt, Some(Halt::OutOfRange));
}

#[test]
fn the_run_stops_at_the_first_halt() {
    let (mut g, s) = halves(&[4, 9, 4]);
    put_u64(&mut g, 929, 50);
    let r = run(2200, &g, &s);
    assert_eq!(r.events.len(), 4);
    assert_eq!(r.halt, Some(Halt::OutOfRange));
}

use vec_fuzz::numbered::{run, Event};
use vec_fuzz::script::Halt;

/// Halves of 750 bytes running the operations `ops` in turn; operation `k`
/// has its arguments from byte `20 + 15 * k`.
fn halves(ops: &[u8]) -> (Vec<u8>, Vec<u8>) {
    let mut g = vec![0u8; 750];
    let s = vec![0u8; 750];
    g[0] = ops.len() as u8;
    for (k, op) in ops.iter().enumerate() {
        g[20 + 15 * k] = *op;
    }
    (g, s)
}

fn put_u64(b: &mut [u8], at: usize, v: u64) {
    b[at..at + 8].copy_from_slice(&v.to_be_bytes());
}

#[test]
fn numbered_inputs_below_1500_bytes_are_ignored() {
    let (g, s) = halves(&[19]);
    let r = run(1499, &g, &s);
    assert!(r.events.is_empty());
    assert_eq!(r.halt, None);
}

#[test]
fn boxed_slice_reports_its_length() {
    let (mut g, s) = halves(&[19]);
    g[21] = 43; // 43 % 40 = 3 items
    let r = run(1500, &g, &s);
    assert_eq!(r.events, vec![Event::Len(3)]);
    assert_eq!(r.halt, None);
}

#[test]
fn operations_run_in_turn() {
    let (mut g, s) = halves(&[19, 13]);
    g[21] = 2;
    g[36] = 4;
    let r = run(1500, &g, &s);
    assert_eq!(r.events, vec![Event::Len(2), Event::Len(4), Event::Spilled(false), Event::Len(4)]);
    assert_eq!(r.halt, None);
}

#[test]
fn a_new_vector_reports_its_state() {
    let (g, s) = halves(&[0]);
    let r = run(1500, &g, &s);
    assert_eq!(
        r.events,
        vec![Event::Len(0), Event::Capacity(16), Event::Empty(true), Event::Spilled(false)]
    );
    assert_eq!(r.halt, None);
}

#[test]
fn a_vector_taken_from_items_reports_one_of_them() {
    let (mut g, s) = halves(&[0]);
    g[21] = 3; // items 1, 256 and 65536
    g[29] = 1;
    g[34] = 2; // from_vec
    // the index read at 28 is 2^48 + 512, which is 0 modulo 3
    let r = run(1500, &g, &s);
    assert_eq!(
        r.events,
        vec![
            Event::Len(3),
            Event::Capacity(16),
            Event::Empty(false),
            Event::Spilled(false),
            Event::Item(1),
        ]
    );
    assert_eq!(r.halt, None);
}

#[test]
fn a_huge_requested_capacity_overflows() {
    let (mut g, s) = halves(&[0]);
    for b in &mut g[23..31] {
        *b = 0xff;
    }
    g[34] = 1; // with_capacity
    let r = run(1500, &g, &s);
    assert!(r.events.is_empty());
    assert_eq!(r.halt, Some(Halt::CapacityOverflow));
}

#[test]
fn copies_are_made_by_the_clone_hook() {
    let (mut g, mut s) = halves(&[0]);
    put_u64(&mut g, 10, 2); // selector (2 + 0) % 3 = 2: the second half
    g[33] = 3; // three copies of element 0
    g[34] = 4; // from_elem
    s[25] = 7; // the clone reads 7 at byte 18 of the second half
    // the index read at 28 is 3 * 2^16 + 4 * 2^8, which is 1 modulo 3
    let r = run(1500, &g, &s);
    assert_eq!(
        r.events,
        vec![
            Event::Len(3),
            Event::Capacity(16),
            Event::Empty(false),
            Event::Spilled(false),
            Event::Item(7),
        ]
    );
    assert_eq!(r.halt, None);
}

#[test]
fn the_clone_hook_panics_on_selector_zero() {
    let (mut g, s) = halves(&[0]);
    g[33] = 3;
    g[34] = 4;
    let r = run(1500, &g, &s);
    assert!(r.events.is_empty());
    assert_eq!(r.halt, Some(Halt::Intentional));
}

#[test]
fn slices_report_the_length_twice() {
    let (mut g, s) = halves(&[1]);
    g[29] = 2; // two items: 9 and 2304
    g[37] = 9;
    // the index read at 25 is 2^25, which is 0 modulo 2
    let r = run(1500, &g, &s);
    assert_eq!(r.events, vec![Event::Len(2), Event::Len(2), Event::Item(9)]);
    assert_eq!(r.halt, None);
}

#[test]
fn reserve_on_numbers_grows_to_a_power_of_two() {
    let (mut g, s) = halves(&[2]);
    g[35] = 100; // reserve 100 more; truncate to 25600 % 65 items
    let r = run(1500, &g, &s);
    assert_eq!(r.events, vec![Event::Capacity(128)]);
    assert_eq!(r.halt, None);
}

#[test]
fn growing_below_the_length_is_out_of_range() {
    let (mut g, s) = halves(&[3]);
    put_u64(&mut g, 10, 1); // selector (1 + 0) % 3 = 1: the first half
    g[21] = 3; // three copies of element 0, then one inserted at 0
    let r = run(1500, &g, &s);
    assert!(r.events.is_empty());
    assert_eq!(r.halt, Some(Halt::OutOfRange));
}

#[test]
fn swap_remove_then_resize_with_clones() {
    let (mut g, mut s) = halves(&[6]);
    g[21] = 2; // items 0 and 0
    g[36] = 5; // resize to 5 with clones of element 1280
    s[25] = 9; // selector (0 + 1280) % 3 = 2: the clone reads 9
    let r = run(1500, &g, &s);
    assert_eq!(r.events, vec![Event::Number(0), Event::Item(0)]);
    assert_eq!(r.halt, None);
}

#[test]
fn drain_reports_how_many_items_it_took() {
    let (mut g, s) = halves(&[7]);
    g[21] = 5; // five items
    g[37] = 1; // drain from 1 (the read at 30) to 5 (the read at 31 is 256)
    let r = run(1500, &g, &s);
    assert_eq!(r.events, vec![Event::Len(4), Event::Item(0)]);
    assert_eq!(r.halt, None);
}

#[test]
fn append_moves_every_item() {
    let (mut g, s) = halves(&[8]);
    g[21] = 2;
    g[30] = 3;
    let r = run(1500, &g, &s);
    assert_eq!(r.events, vec![Event::Len(5), Event::Len(0), Event::Item(0)]);
    assert_eq!(r.halt, None);
}

#[test]
fn extend_reports_length_and_capacity() {
    let (mut g, s) = halves(&[10]);
    g[21] = 1;
    g[29] = 2;
    let r = run(1500, &g, &s);
    assert_eq!(r.events, vec![Event::Len(3), Event::Capacity(4096), Event::Item(2)]);
    assert_eq!(r.halt, None);
}

#[test]
fn reserve_exact_then_pop() {
    let (mut g, s) = halves(&[11]);
    g[29] = 2; // items 0 and 7 (bytes 30..38 and 31..39)
    g[38] = 7;
    let r = run(1500, &g, &s);
    assert_eq!(r.events, vec![Event::Number(7), Event::Item(0)]);
    assert_eq!(r.halt, None);
}

#[test]
fn a_clone_is_made_then_new_items_are_read_from_the_second_half() {
    let (mut g, mut s) = halves(&[12]);
    put_u64(&mut g, 10, 1); // selector (1 + 0) % 3 = 1 for each item 0
    g[21] = 2;
    g[37] = 4; // resize to 4 (the read at 30); the index read at 32 is 0
    s[38] = 6; // each new item is the value at 31 of the second half
    let r = run(1500, &g, &s);
    assert_eq!(r.events, vec![Event::Len(2), Event::Item(0)]);
    assert_eq!(r.halt, None);
}

#[test]
fn repeats_of_fifths_are_removed() {
    let (mut g, s) = halves(&[14]);
    g[21] = 4; // items 0, 0, 7, 1792, modulo 5: 0, 0, 2, 2
    g[31] = 7;
    let r = run(1500, &g, &s);
    assert_eq!(r.events, vec![Event::Len(4), Event::Len(2), Event::Item(0)]);
    assert_eq!(r.halt, None);
}

#[test]
fn a_short_input_halts_on_the_read_past_its_end() {
    let (g, s) = halves(&[19]);
    let mut short = g[..25].to_vec();
    short[21] = 3;
    let r = run(1500, &short, &s);
    assert!(r.events.is_empty());
    assert_eq!(r.halt, Some(Halt::InputExhausted));
}

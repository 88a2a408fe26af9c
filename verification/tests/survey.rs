use vec_fuzz::script::Halt;
use vec_fuzz::small_vec::Order;
use vec_fuzz::survey::{run, Event};

/// A first half of 700 bytes running the single operation `op`.
fn only(op: u8) -> Vec<u8> {
    let mut g = vec![0u8; 700];
    g[0] = 1;
    g[1] = op;
    g
}

fn put_usize(g: &mut [u8], at: usize, v: u64) {
    g[at..at + 8].copy_from_slice(&v.to_be_bytes());
}

#[test]
fn survey_inputs_below_300_bytes_are_ignored() {
    let g = only(0);
    let r = run(299, &g);
    assert!(r.events.is_empty());
    assert_eq!(r.halt, None);
}

#[test]
fn a_vector_with_room_for_twenty_spills() {
    let mut g = only(0);
    put_usize(&mut g, 80, 20);
    let r = run(1400, &g);
    assert_eq!(
        r.events,
        vec![Event::Flag(true), Event::Count(0), Event::Count(20), Event::U32s(vec![])]
    );
    assert_eq!(r.halt, None);
}

#[test]
fn copies_taken_from_a_vec_are_reported() {
    let mut g = only(0);
    g[70] = 2;
    g[103] = 7;
    g[104] = 3;
    let r = run(1400, &g);
    assert_eq!(
        r.events,
        vec![
            Event::U32(7),
            Event::U32(7),
            Event::U32(7),
            Event::Flag(false),
            Event::Count(3),
            Event::Count(16),
            Event::U32s(vec![7, 7, 7]),
        ]
    );
    assert_eq!(r.halt, None);
}

#[test]
fn pushed_values_then_length_capacity_and_emptiness() {
    let mut g = only(1);
    g[118] = 2;
    g[123] = 5;
    g[127] = 9;
    let r = run(1400, &g);
    assert_eq!(
        r.events,
        vec![Event::I32(5), Event::I32(9), Event::Count(2), Event::Count(20), Event::Flag(false)]
    );
    assert_eq!(r.halt, None);
}

#[test]
fn a_copy_compares_equal_to_its_clone() {
    let mut g = only(2);
    put_usize(&mut g, 150, 1);
    put_usize(&mut g, 158, 2);
    put_usize(&mut g, 166, 3);
    let r = run(1400, &g);
    assert_eq!(
        r.events[..5],
        [
            Event::U64(1),
            Event::U64(2),
            Event::U64(3),
            Event::U64s(vec![1, 2, 3]),
            Event::Compared(Order::Equal),
        ]
    );
    assert!(matches!(r.events[5], Event::Ptr(_)));
    assert_eq!(r.events.len(), 6);
    assert_eq!(r.halt, None);
}

#[test]
fn short_values_are_reported_three_times() {
    let mut g = only(4);
    g[181] = 1;
    g[183] = 2;
    g[185] = 3;
    g[187] = 4;
    let r = run(1400, &g);
    assert_eq!(
        r.events,
        vec![
            Event::I16(1),
            Event::I16(2),
            Event::I16(3),
            Event::I16(4),
            Event::Flag(false),
            Event::I16s(vec![1, 2, 3, 4]),
            Event::I16s(vec![1, 2, 3, 4]),
        ]
    );
    assert_eq!(r.halt, None);
}

#[test]
fn copies_of_a_byte_then_one_removed() {
    let mut g = only(5);
    g[190] = 9;
    g[196] = 1; // 65536 copies; truncate to 2^48, reserve 0, remove at 0
    let r = run(1400, &g);
    assert_eq!(r.events.len(), 65537);
    assert!(r.events.iter().all(|e| *e == Event::U8(9)));
    assert_eq!(r.halt, None);
}

#[test]
fn characters_and_the_one_at_an_index() {
    let mut g = only(6);
    g[200] = 2;
    g[204] = b'a';
    g[208] = b'b';
    let r = run(1400, &g);
    assert_eq!(r.events, vec![Event::Char('a'), Event::Char('b'), Event::Char('a')]);
    assert_eq!(r.halt, None);
}

#[test]
fn a_code_that_is_no_character_ends_the_run_quietly() {
    let mut g = only(6);
    g[200] = 1;
    g[201] = 0xd8;
    let r = run(1400, &g);
    assert!(r.events.is_empty());
    assert_eq!(r.halt, Some(Halt::Exit));
}

#[test]
fn a_full_array_of_flags() {
    let mut g = only(7);
    g[246] = 1;
    let r = run(1400, &g);
    let mut flags = vec![true; 18];
    flags[1] = false;
    let mut expected: Vec<Event> = flags.iter().map(|b| Event::Bool(*b)).collect();
    expected.push(Event::Bools(flags.clone()));
    expected.push(Event::Bools(flags));
    assert_eq!(r.events, expected);
    assert_eq!(r.halt, None);
}

#[test]
fn long_values_an_address_and_the_boxed_slice() {
    let mut g = only(8);
    g[257] = 1;
    g[265] = 2;
    g[273] = 3;
    let r = run(1400, &g);
    assert_eq!(r.events.len(), 5);
    assert_eq!(r.events[..3], [Event::I64(1), Event::I64(2), Event::I64(3)]);
    assert!(matches!(r.events[3], Event::Ptr(_)));
    assert_eq!(r.events[4], Event::I64s(vec![1, 2, 3]));
    assert_eq!(r.halt, None);
}

#[test]
fn two_wide_values_give_the_vector_back() {
    let mut g = only(9);
    g[285] = 1;
    g[301] = 2;
    let r = run(1400, &g);
    assert_eq!(r.events, vec![Event::U128(1), Event::U128(2), Event::GotVecBack]);
    assert_eq!(r.halt, None);
}

#[test]
fn texts_then_one_swapped_out() {
    let mut g = only(10);
    g[290] = 2;
    g[300..308].copy_from_slice(b"abcdefgh");
    g[310..318].copy_from_slice(b"ijklmnop");
    g[327] = 1;
    let r = run(1400, &g);
    assert_eq!(
        r.events,
        vec![
            Event::Text("abcdefgh".to_string()),
            Event::Text("ijklmnop".to_string()),
            Event::Text("ijklmnop".to_string()),
        ]
    );
    assert_eq!(r.halt, None);
}

#[test]
fn byte_vectors_each_and_all() {
    let mut g = only(11);
    g[350] = 2;
    g[360] = 2;
    g[370] = 7;
    g[371] = 8;
    let r = run(1400, &g);
    assert_eq!(
        r.events,
        vec![Event::Bytes(vec![7, 8]), Event::Bytes(vec![]), Event::Vecs(vec![vec![7, 8], vec![]])]
    );
    assert_eq!(r.halt, None);
}

#[test]
fn copies_of_an_i32_are_reported_before_the_resize() {
    let mut g = only(12);
    g[403] = 4;
    g[417] = 3;
    g[423] = 6;
    g[432] = 5;
    let r = run(1400, &g);
    assert_eq!(r.events, vec![Event::I32(4), Event::I32(4), Event::I32(4)]);
    assert_eq!(r.halt, None);
}

#[test]
fn four_bytes_are_reported() {
    let mut g = only(14);
    g[480..484].copy_from_slice(&[1, 2, 3, 4]);
    let r = run(1400, &g);
    assert_eq!(r.events, vec![Event::U8(1), Event::U8(2), Event::U8(3), Event::U8(4)]);
    assert_eq!(r.halt, None);
}

#[test]
fn copies_of_a_u16_are_reported() {
    let mut g = only(15);
    g[501] = 7;
    g[517] = 2;
    let r = run(1400, &g);
    assert_eq!(r.events, vec![Event::U16(7), Event::U16(7)]);
    assert_eq!(r.halt, None);
}

#[test]
fn growing_below_the_length_halts() {
    let mut g = only(16);
    g[540] = 2;
    g[557] = 5;
    g[565] = 6;
    g[577] = 1;
    let r = run(1400, &g);
    assert_eq!(r.events, vec![Event::Isize(5), Event::Isize(6)]);
    assert_eq!(r.halt, Some(Halt::OutOfRange));
}

#[test]
fn a_vector_equals_itself() {
    let mut g = only(17);
    g[590..593].copy_from_slice(&[1, 2, 3]);
    let r = run(1400, &g);
    assert_eq!(
        r.events,
        vec![Event::U8(1), Event::U8(2), Event::U8(3), Event::U8s(vec![1, 2, 3]), Event::Flag(true)]
    );
    assert_eq!(r.halt, None);
}

#[test]
fn signed_bytes_then_an_address() {
    let mut g = only(18);
    g[600..604].copy_from_slice(&[1, 2, 3, 0xff]);
    let r = run(1400, &g);
    assert_eq!(r.events.len(), 5);
    assert_eq!(r.events[..4], [Event::I8(1), Event::I8(2), Event::I8(3), Event::I8(-1)]);
    assert!(matches!(r.events[4], Event::Ptr(_)));
    assert_eq!(r.halt, None);
}

#[test]
fn two_read_numbers_and_the_inline_size() {
    let mut g = only(19);
    g[620] = 3;
    put_usize(&mut g, 660, 10);
    put_usize(&mut g, 668, 11);
    let r = run(1400, &g);
    assert_eq!(
        r.events,
        vec![Event::Usize(10), Event::Usize(11), Event::Flag(false), Event::Count(16)]
    );
    assert_eq!(r.halt, None);
}

#[test]
fn survey_float_operations_are_left_to_the_caller() {
    let mut g = only(3);
    g[0] = 2;
    g[2] = 13;
    let r = run(1400, &g);
    assert_eq!(r.events, vec![Event::FloatOp(3, 0), Event::FloatOp(13, 1)]);
    assert_eq!(r.halt, None);
}

#[test]
fn a_read_past_the_first_half_halts() {
    let g = only(2);
    let r = run(300, &g[..150]);
    assert!(r.events.is_empty());
    assert_eq!(r.halt, Some(Halt::InputExhausted));
}

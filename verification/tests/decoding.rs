use server::parser::{sequence_in_bounds, unwrap_sequence};

#[test]
fn one_offset_gives_the_byte() {
    let buffer = vec![0x00, 0x0c, 0x04, 0x00];
    assert_eq!(unwrap_sequence(&buffer, &vec![1]), 0x0c);
}

#[test]
fn two_offsets_are_big_endian() {
    let buffer = vec![0x00, 0x0c, 0x04, 0x00];
    assert_eq!(unwrap_sequence(&buffer, &vec![2, 3]), 0x0400);
}

#[test]
fn three_offsets_are_big_endian() {
    let buffer = vec![0x12, 0x34, 0x56, 0x78];
    assert_eq!(unwrap_sequence(&buffer, &vec![3, 0, 2]), 0x781256);
    assert!(unwrap_sequence(&buffer, &vec![3, 0, 2]) < 1 << 24);
}

#[test]
fn no_offset_gives_zero() {
    assert_eq!(unwrap_sequence(&vec![1, 2, 3], &vec![]), 0);
}

#[test]
fn nine_offsets_keep_the_low_eight_bytes() {
    let buffer = vec![1, 2, 3, 4, 5, 6, 7, 8, 9];
    let sequence = vec![0, 1, 2, 3, 4, 5, 6, 7, 8];
    assert_eq!(unwrap_sequence(&buffer, &sequence), 0x0203040506070809);
}

#[test]
fn offsets_outside_the_buffer_are_told() {
    assert!(sequence_in_bounds(&vec![0, 3], 4));
    assert!(!sequence_in_bounds(&vec![0, 4], 4));
    assert!(sequence_in_bounds(&vec![], 0));
}

use file_encryption::self_release;
use file_encryption::trailer::{cover_usize_to_u8s, decimal_digits_of, parse_digits, read_data_offset};

#[test]
fn cover_groups_digits_in_pairs() {
    assert_eq!(cover_usize_to_u8s(1234567, 2), [12, 34, 56, 7, 0, 0, 0, 0, 0, 0]);
    assert_eq!(cover_usize_to_u8s(99, 2), [99, 0, 0, 0, 0, 0, 0, 0, 0, 0]);
    assert_eq!(cover_usize_to_u8s(5, 2), [5, 0, 0, 0, 0, 0, 0, 0, 0, 0]);
    assert_eq!(cover_usize_to_u8s(0, 2), [110, 0, 0, 0, 0, 0, 0, 0, 0, 0]);
    assert_eq!(cover_usize_to_u8s(1005, 2), [10, 105, 0, 0, 0, 0, 0, 0, 0, 0]);
    assert_eq!(cover_usize_to_u8s(120, 2), [12, 110, 0, 0, 0, 0, 0, 0, 0, 0]);
    assert_eq!(cover_usize_to_u8s(1000, 2), [10, 100, 0, 0, 0, 0, 0, 0, 0, 0]);
}

#[test]
fn cover_other_group_sizes() {
    assert_eq!(cover_usize_to_u8s(123, 1), [1, 2, 3, 0, 0, 0, 0, 0, 0, 0]);
    assert_eq!(cover_usize_to_u8s(101, 1), [1, 110, 1, 0, 0, 0, 0, 0, 0, 0]);
    assert_eq!(cover_usize_to_u8s(127255, 3), [127, 0, 0, 0, 0, 0, 0, 0, 0, 0]);
    assert_eq!(cover_usize_to_u8s(1000000, 7), [0; 10]);
    assert_eq!(self_release::cover_usize_to_u8s(4321, 2), [43, 21, 0, 0, 0, 0, 0, 0, 0, 0]);
}

#[test]
fn cover_largest_offset() {
    assert_eq!(
        cover_usize_to_u8s(18446744073709551615, 2),
        [18, 44, 67, 44, 107, 37, 109, 55, 16, 15]
    );
}

#[test]
fn read_data_offset_concatenates_nonzero_bytes() {
    assert_eq!(read_data_offset(&[12, 34, 56, 7, 0, 0, 0, 0, 0, 0]), Some(1234567));
    assert_eq!(read_data_offset(&[0, 0, 1, 0, 200, 0, 0, 0, 0, 0]), Some(1200));
    assert_eq!(read_data_offset(&[0; 10]), None);
    assert_eq!(read_data_offset(&[255; 10]), None);
    assert_eq!(read_data_offset(&[10, 5, 0, 0, 0, 0, 0, 0, 0, 0]), Some(105));
    assert_eq!(read_data_offset(&[10, 105, 0, 0, 0, 0, 0, 0, 0, 0]), Some(1005));
    assert_eq!(read_data_offset(&[110, 0, 0, 0, 0, 0, 0, 0, 0, 0]), Some(0));
}

#[test]
fn trailer_round_trip_for_every_offset() {
    assert_ne!(cover_usize_to_u8s(105, 2), cover_usize_to_u8s(1005, 2));
    for u in [
        0usize, 1, 9, 10, 11, 99, 100, 105, 120, 123, 1005, 1234, 98765, 1234056, 1234567,
        10000000, 12345678912345678, 18446744073709551615,
    ] {
        assert_eq!(read_data_offset(&cover_usize_to_u8s(u, 2)), Some(u));
    }
}

#[test]
fn digits_helpers() {
    assert_eq!(decimal_digits_of(0), vec![0]);
    assert_eq!(decimal_digits_of(907), vec![9, 0, 7]);
    assert_eq!(parse_digits(&vec![]), None);
    assert_eq!(parse_digits(&vec![0, 4, 2]), Some(42));
    assert_eq!(parse_digits(&vec![9; 25]), None);
}

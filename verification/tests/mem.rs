use ferric::mem::{memcmp, memcpy, memmove, memset};

#[test]
fn memcpy_copies_disjoint_ranges() {
    let mut m = [1u8, 2, 3, 4, 0, 0, 0, 0];
    assert_eq!(memcpy(&mut m, 4, 0, 3), 4);
    assert_eq!(m, [1, 2, 3, 4, 1, 2, 3, 0]);
}

#[test]
fn memmove_handles_overlap_in_both_directions() {
    let mut up = [1u8, 2, 3, 4, 5, 6];
    memmove(&mut up, 2, 0, 4);
    assert_eq!(up, [1, 2, 1, 2, 3, 4]);

    let mut down = [1u8, 2, 3, 4, 5, 6];
    memmove(&mut down, 0, 2, 4);
    assert_eq!(down, [3, 4, 5, 6, 5, 6]);

    let mut same = [9u8, 8, 7];
    memmove(&mut same, 1, 1, 2);
    assert_eq!(same, [9, 8, 7]);
}

#[test]
fn memset_stores_the_low_byte() {
    let mut m = [0u8; 5];
    assert_eq!(memset(&mut m, 1, 0x1AB, 3), 1);
    assert_eq!(m, [0, 0xAB, 0xAB, 0xAB, 0]);
    memset(&mut m, 0, -1, 1);
    assert_eq!(m[0], 0xFF);
}

#[test]
fn memcmp_reports_the_first_difference() {
    assert_eq!(memcmp(b"abcd", b"abcd", 4), 0);
    assert_eq!(memcmp(b"abcd", b"abzd", 4), i32::from(b'c') - i32::from(b'z'));
    assert_eq!(memcmp(b"\xFF", b"\x01", 1), 254);
    assert_eq!(memcmp(b"abX", b"abY", 2), 0);
    assert_eq!(memcmp(b"", b"", 0), 0);
}

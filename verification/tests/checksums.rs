use ossfs::crc64::{crc64ecma, Crc64Ecma};

#[test]
fn crc64ecma_matches_known_vectors() {
    assert_eq!(crc64ecma(b"123456789"), 0x995DC9BBDF1939FA);
    assert_eq!(crc64ecma(b"a"), 0x330284772E652B05);
}

#[test]
fn a_checksum_in_pieces_is_the_checksum_at_once() {
    let mut h = Crc64Ecma::new();
    h.update(b"1234");
    h.update(b"");
    h.update(b"56789");
    assert_eq!(h.finalize(), 0x995DC9BBDF1939FA);
    assert_eq!(Crc64Ecma::new().finalize(), crc64ecma(b""));
}

#[test]
fn one_changed_byte_changes_the_checksum() {
    let data = vec![0u8; 64];
    for i in 0..data.len() {
        let mut other = data.clone();
        other[i] = 1;
        assert_ne!(crc64ecma(&other), crc64ecma(&data));
    }
}

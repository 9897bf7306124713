use ciphers::{bitvec_to_bytes, bytes_to_bitvec, decode, encode, left_rotate_bits, permute, xor_bits, HexError};

#[test]
fn bits_round_trip() {
    let b = vec![0xa5u8, 0x01, 0xff];
    let bits = bytes_to_bitvec(&b);
    assert_eq!(bits.len(), 24);
    assert_eq!(&bits[..8], &[1, 0, 1, 0, 0, 1, 0, 1]);
    assert_eq!(&bits[8..16], &[0, 0, 0, 0, 0, 0, 0, 1]);
    assert_eq!(bitvec_to_bytes(&bits), b);
    assert_eq!(bytes_to_bitvec(&[]), Vec::<u8>::new());
}

#[test]
fn permute_rotate_xor() {
    let bits = vec![1u8, 0, 0, 1, 1];
    assert_eq!(permute(&bits, &[5, 1, 2, 2]), vec![1, 1, 0, 0]);
    assert_eq!(left_rotate_bits(&bits, 2), vec![0, 1, 1, 1, 0]);
    assert_eq!(left_rotate_bits(&bits, 7), vec![0, 1, 1, 1, 0]);
    assert_eq!(left_rotate_bits(&bits, 0), bits);
    assert_eq!(xor_bits(&[1, 0, 1], &[1, 1, 0, 1]), vec![0, 1, 1]);
}

#[test]
fn hex_encode_decode() {
    assert_eq!(encode(&[0xde, 0xad, 0x00, 0x0f]), "dead000f");
    assert_eq!(encode(&[]), "");
    assert_eq!(decode("  DEad000F\n").unwrap(), vec![0xde, 0xad, 0x00, 0x0f]);
    assert_eq!(decode("abc"), Err(HexError::OddLength));
    assert_eq!(decode("ab0g"), Err(HexError::InvalidChar('g')));
    assert_eq!(decode("x0g1"), Err(HexError::InvalidChar('x')));
    assert_eq!(decode(""), Ok(vec![]));
}

#[test]
fn hex_round_trip_and_unicode_trim() {
    let b: Vec<u8> = (0..=255u8).collect();
    assert_eq!(decode(&encode(&b)).unwrap(), b);
    assert_eq!(decode("\u{3000}ab\u{a0}\t").unwrap(), vec![0xab]);
}

use ciphers::{decode, des_decrypt, des_encrypt, encode, parse_key, parse_key_digits, DesError, HexError};

#[test]
fn des_classic_vector() {
    let key = parse_key("133457799BBCDFF1\n").unwrap();
    let pt = decode("0123456789ABCDEF").unwrap();
    let ct = des_encrypt(&key, &pt);
    assert_eq!(ct.len(), 16);
    assert_eq!(encode(&ct[..8]), "85e813540f0ab405");
    assert_eq!(des_decrypt(&key, &ct).unwrap(), pt);
}

#[test]
fn des_second_vector() {
    let key = parse_key_digits("0E329232EA6D0D73").unwrap();
    let pt = decode("8787878787878787").unwrap();
    let ct = des_encrypt(&key, &pt);
    assert_eq!(encode(&ct[..8]), "0000000000000000");
}

#[test]
fn des_round_trip_and_errors() {
    let key = [0x13u8, 0x34, 0x57, 0x79, 0x9b, 0xbc, 0xdf, 0xf1];
    for len in 0..20usize {
        let p: Vec<u8> = (0..len).map(|i| (i * 29 + 3) as u8).collect();
        let c = des_encrypt(&key, &p);
        assert_eq!(c.len(), (len / 8 + 1) * 8);
        assert_eq!(des_decrypt(&key, &c).unwrap(), p);
    }
    assert_eq!(des_decrypt(&key, &[0u8; 7]), Err(DesError::CiphertextLength));
    assert_eq!(des_decrypt(&key, &[]), Err(DesError::InvalidPaddedLength));
    // A block whose decryption ends in 0x00.
    let zero_tail = des_encrypt(&key, &[0u8; 8]);
    assert_eq!(des_decrypt(&key, &zero_tail[..8]), Err(DesError::InvalidPaddingByte));
    // A block whose decryption ends in 0x01 0x02: pad bytes disagree.
    let bad = des_encrypt(&key, &[0, 0, 0, 0, 0, 0, 1, 2]);
    assert_eq!(des_decrypt(&key, &bad[..8]), Err(DesError::InvalidPaddingContents));
}

#[test]
fn des_key_errors() {
    assert_eq!(parse_key("  0123  "), Err(DesError::KeyLength));
    assert_eq!(parse_key("0123456789abcdeg"), Err(DesError::Hex(HexError::InvalidChar('g'))));
    assert_eq!(parse_key(" 0123456789abcdef ").unwrap(), [0x01, 0x23, 0x45, 0x67, 0x89, 0xab, 0xcd, 0xef]);
}

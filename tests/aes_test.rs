use ciphers::gf::gmul;
use ciphers::{Aes128, Aes128Cbc, CbcError};

fn hex16(s: &str) -> [u8; 16] {
    let mut out = [0u8; 16];
    for i in 0..16 {
        out[i] = u8::from_str_radix(&s[2 * i..2 * i + 2], 16).unwrap();
    }
    out
}

#[test]
fn gmul_known_products() {
    assert_eq!(gmul(0x57, 0x83), 0xc1);
    assert_eq!(gmul(0x57, 0x13), 0xfe);
    assert_eq!(gmul(0x02, 0x80), 0x1b);
    assert_eq!(gmul(0x01, 0xab), 0xab);
    assert_eq!(gmul(0x00, 0xab), 0x00);
}

#[test]
fn aes128_fips197_known_answer() {
    let key = hex16("000102030405060708090a0b0c0d0e0f");
    let pt = hex16("00112233445566778899aabbccddeeff");
    let aes = Aes128::new(&key);
    let ct = aes.encrypt(&pt);
    assert_eq!(ct, hex16("69c4e0d86a7b0430d8cdb78070b4c55a"));
    assert_eq!(aes.decrypt(&ct), pt);
}

#[test]
fn aes128_appendix_b_known_answer() {
    let key = hex16("2b7e151628aed2a6abf7158809cf4f3c");
    let pt = hex16("3243f6a8885a308d313198a2e0370734");
    let aes = Aes128::new(&key);
    assert_eq!(aes.encrypt(&pt), hex16("3925841d02dc09fbdc118597196a0b32"));
}

#[test]
fn aes128_block_round_trip() {
    let key = hex16("0f1e2d3c4b5a69788796a5b4c3d2e1f0");
    let aes = Aes128::new(&key);
    for seed in 0..64u8 {
        let mut b = [0u8; 16];
        for i in 0..16 {
            b[i] = seed.wrapping_mul(31).wrapping_add((i as u8).wrapping_mul(7));
        }
        let c = aes.encrypt(&b);
        assert_ne!(c, b);
        assert_eq!(aes.decrypt(&c), b);
    }
}

#[test]
fn aes128_same_key_same_schedule() {
    let key = hex16("000102030405060708090a0b0c0d0e0f");
    let a = Aes128::new(&key);
    let b = Aes128::new(&key);
    let pt = hex16("ffeeddccbbaa99887766554433221100");
    assert_eq!(a.encrypt(&pt), b.encrypt(&pt));
}

#[test]
fn aes128_zero_key_round_key_zero_is_key() {
    // With an all-zero key and block, the first AddRoundKey leaves the block zero,
    // so the result matches the published all-zero vector.
    let aes = Aes128::new(&[0u8; 16]);
    assert_eq!(aes.encrypt(&[0u8; 16]), hex16("66e94bd4ef8a2c3b884cfa59ca342b2e"));
}

#[test]
fn cbc_sp800_38a_first_block() {
    let key = hex16("2b7e151628aed2a6abf7158809cf4f3c");
    let iv = hex16("000102030405060708090a0b0c0d0e0f");
    let pt = hex16("6bc1bee22e409f96e93d7e117393172a");
    let cbc = Aes128Cbc::new(&key, &iv);
    let ct = cbc.encrypt(&pt);
    assert_eq!(ct.len(), 32);
    assert_eq!(&ct[..16], &hex16("7649abac8119b246cee98e9b12e9197d")[..]);
    assert_eq!(cbc.decrypt(&ct).unwrap(), pt.to_vec());
}

#[test]
fn cbc_round_trip_all_lengths() {
    let key = hex16("000102030405060708090a0b0c0d0e0f");
    let iv = hex16("a0a1a2a3a4a5a6a7a8a9aaabacadaeaf");
    let cbc = Aes128Cbc::new(&key, &iv);
    for len in 0..50usize {
        let p: Vec<u8> = (0..len).map(|i| (i * 13 + 5) as u8).collect();
        let c = cbc.encrypt(&p);
        assert_eq!(c.len(), (len / 16 + 1) * 16);
        assert_eq!(cbc.decrypt(&c).unwrap(), p);
    }
}

#[test]
fn cbc_round_trip_data_ending_in_pad_like_byte() {
    let cbc = Aes128Cbc::new(&[7u8; 16], &[9u8; 16]);
    let p: Vec<u8> = vec![0x41; 15].into_iter().chain(std::iter::once(0x01)).collect();
    let c = cbc.encrypt(&p);
    assert_eq!(c.len(), 32);
    assert_eq!(cbc.decrypt(&c).unwrap(), p);
}

#[test]
fn cbc_empty_input_is_one_pad_block() {
    let key = hex16("000102030405060708090a0b0c0d0e0f");
    let iv = hex16("00000000000000000000000000000000");
    let cbc = Aes128Cbc::new(&key, &iv);
    let c = cbc.encrypt(&[]);
    assert_eq!(c.len(), 16);
    let aes = Aes128::new(&key);
    assert_eq!(c, aes.encrypt(&[16u8; 16]).to_vec());
    assert_eq!(cbc.decrypt(&c).unwrap(), Vec::<u8>::new());
}

#[test]
fn cbc_rejects_length_not_multiple_of_16() {
    let cbc = Aes128Cbc::new(&[1u8; 16], &[2u8; 16]);
    assert_eq!(cbc.decrypt(&[0u8; 17]), Err(CbcError::InvalidLength));
    assert_eq!(cbc.decrypt(&[0u8; 15]), Err(CbcError::InvalidLength));
}

#[test]
fn cbc_rejects_bad_padding() {
    let key = [3u8; 16];
    let iv = [4u8; 16];
    let cbc = Aes128Cbc::new(&key, &iv);
    let aes = Aes128::new(&key);
    // A block that decrypts to all zeros: last byte 0 is no valid pad length.
    let c = aes.encrypt(&iv);
    assert_eq!(cbc.decrypt(&c), Err(CbcError::InvalidPadding));
    // A block that decrypts to ...0x02 0x03: the pad bytes disagree.
    let mut want = [0u8; 16];
    want[14] = 2;
    want[15] = 3;
    let mut x = [0u8; 16];
    for i in 0..16 {
        x[i] = want[i] ^ iv[i];
    }
    assert_eq!(cbc.decrypt(&aes.encrypt(&x)), Err(CbcError::InvalidPadding));
    assert_eq!(cbc.decrypt(&[]), Err(CbcError::InvalidPadding));
}

#[test]
fn cbc_bit_flip_propagates_to_next_block() {
    let key = hex16("2b7e151628aed2a6abf7158809cf4f3c");
    let iv = hex16("000102030405060708090a0b0c0d0e0f");
    let cbc = Aes128Cbc::new(&key, &iv);
    let aes = Aes128::new(&key);
    let p: Vec<u8> = (0..40u8).collect();
    let mut c = cbc.encrypt(&p);
    assert_eq!(c.len(), 48);
    // Raw decryption of block 1 after flipping bit 3 of byte 5 in block 0.
    c[5] ^= 0x08;
    let mut b1 = [0u8; 16];
    b1.copy_from_slice(&c[16..32]);
    let d1 = aes.decrypt(&b1);
    let mut plain1 = [0u8; 16];
    for i in 0..16 {
        plain1[i] = d1[i] ^ c[i];
    }
    let mut expected = [0u8; 16];
    expected.copy_from_slice(&p[16..32]);
    expected[5] ^= 0x08;
    assert_eq!(plain1, expected);
    // Block 0 no longer decrypts to its plaintext.
    let mut b0 = [0u8; 16];
    b0.copy_from_slice(&c[..16]);
    let d0 = aes.decrypt(&b0);
    let mut plain0 = [0u8; 16];
    for i in 0..16 {
        plain0[i] = d0[i] ^ iv[i];
    }
    assert_ne!(&plain0[..], &p[..16]);
    // The last block is unaffected, so the padding still checks out.
    let out = cbc.decrypt(&c).unwrap();
    assert_eq!(&out[16..], &expected.iter().copied().chain(p[32..].iter().copied()).collect::<Vec<u8>>()[..]);
}

use ciphers::{
    add_e_prefix, add_fileprefix, keyfile_bytes, parse_keyfile, BinConfigSerializer, ConfigError,
    KeyFileError,
};

#[test]
fn keyfile_round_trip_and_size() {
    let key = [1u8; 16];
    let iv = [2u8; 16];
    let bytes = keyfile_bytes(&key, &iv);
    assert_eq!(bytes.len(), 32);
    assert_eq!(&bytes[..16], &key[..]);
    assert_eq!(parse_keyfile(&bytes), Ok((key, iv)));
    assert_eq!(parse_keyfile(&bytes[..31]), Err(KeyFileError::InvalidSize(31)));
    assert_eq!(parse_keyfile(&[0u8; 33]), Err(KeyFileError::InvalidSize(33)));
}

#[test]
fn file_prefixes() {
    assert_eq!(add_fileprefix("dir/sub/file.txt", "encrypted_"), "dir/sub/encrypted_file.txt");
    assert_eq!(add_fileprefix("c:\\dir\\f.bin", "decrypted_"), "c:\\dir\\decrypted_f.bin");
    assert_eq!(add_fileprefix("a\\b/c", "x"), "a\\xb/c");
    assert_eq!(add_fileprefix("plain", "p_"), "p_plain");
    assert_eq!(add_e_prefix("data/msg"), "data/emsg");
    assert_eq!(add_e_prefix("msg"), "emsg");
}

#[test]
fn config_round_trip() {
    let comm: Vec<u8> = (0..=255u8).rev().collect();
    let refl: Vec<u8> = (0..=255u8).collect();
    let rotors: Vec<Vec<u8>> = vec![(0..=255u8).map(|x| x.wrapping_mul(3)).collect(), refl.clone()];
    let bytes = BinConfigSerializer::save_configs(Some(&comm), &refl, &rotors).unwrap();
    assert_eq!(bytes.len(), 1 + 256 + 256 + 1 + 512);
    assert_eq!(bytes[0], 1);
    assert_eq!(bytes[513], 2);
    let (c, r, rs) = BinConfigSerializer::get_configs(&bytes).unwrap();
    assert_eq!(c, Some(comm));
    assert_eq!(r, refl);
    assert_eq!(rs, rotors);

    let bytes = BinConfigSerializer::save_configs(None, &refl, &[]).unwrap();
    assert_eq!(bytes.len(), 258);
    let (c, r, rs) = BinConfigSerializer::get_configs(&bytes).unwrap();
    assert_eq!(c, None);
    assert_eq!(r, refl);
    assert!(rs.is_empty());
}

#[test]
fn config_errors() {
    let refl: Vec<u8> = (0..=255u8).collect();
    assert_eq!(
        BinConfigSerializer::save_configs(None, &refl, &[vec![0u8; 10]]),
        Err(ConfigError::RotorLengthMismatch)
    );
    let many: Vec<Vec<u8>> = vec![refl.clone(); 256];
    assert_eq!(BinConfigSerializer::save_configs(None, &refl, &many), Err(ConfigError::TooManyRotors));
    assert_eq!(BinConfigSerializer::get_configs(&[]), Err(ConfigError::UnexpectedEof));
    let bytes = BinConfigSerializer::save_configs(None, &refl, &[refl.clone()]).unwrap();
    assert_eq!(BinConfigSerializer::get_configs(&bytes[..bytes.len() - 1]), Err(ConfigError::UnexpectedEof));
}

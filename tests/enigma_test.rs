use ciphers::Enigma;

#[test]
fn test_enigma_en() {
    let crypto_str = "HELLOWORLD";

    let mut e = Enigma::from_alphabet("ABCDEFGHIJKLMNOPQRSTUVWXYZ".as_bytes(), 3, true)
        .expect("Incorrect alphabet");

    let crypto = e
        .encrypt(crypto_str.as_bytes())
        .expect("Symbol in alphabet not founded");
    let crypto_string = String::from_utf8(crypto.clone()).expect("Invalid UTF-8 sequence");

    println!("Crypto msg: {}", crypto_string);

    e.reset();

    let decrypt = e.encrypt(&crypto).expect("Symbol in alphabet not founded");
    let decript_string = String::from_utf8(decrypt.clone()).expect("Invalid UTF-8 sequence");

    println!("Decrypto msg: {}", decript_string);

    assert_eq!(crypto_str, decript_string)
}

#[test]
fn test_enigma_ru() {
    let crypto_str = "ПРИВЕТМИР";

    let alphabet: Vec<char> = "АБВГДЕЁЖЗИЙКЛМНОПРСТУФХЦЧШЩЪЫЬЭЮЯ".chars().collect();

    let mut e = Enigma::from_alphabet(&alphabet, 3, true).expect("Incorrect alphabet");

    let input_chars: Vec<char> = crypto_str.chars().collect();

    let crypto = e
        .encrypt(&input_chars)
        .expect("Symbol in alphabet not founded");

    let crypto_string: String = crypto.iter().collect();
    println!("Зашифрованное сообщение: {}", crypto_string);

    e.reset();

    let decrypt = e.encrypt(&crypto).expect("Symbol in alphabet not founded");
    let decript_string: String = decrypt.iter().collect();

    println!("Расшифрованное сообщение: {}", decript_string);

    assert_eq!(crypto_str, decript_string)
}

#[test]
fn enigma_from_config_is_deterministic_and_self_inverse() {
    let rotor_a: Vec<u8> = b"CADB".to_vec();
    let rotor_b: Vec<u8> = b"BDAC".to_vec();
    let reflector: Vec<u8> = b"ABCD".to_vec();
    let rotors = vec![rotor_a.clone(), rotor_b.clone()];
    let mut e1 = Enigma::from_config(None, &reflector, &rotors).unwrap();
    let mut e2 = Enigma::from_config(None, &reflector, &rotors).unwrap();
    let msg = b"ABCDDCBAAB".to_vec();
    let c1 = e1.encrypt(&msg).unwrap();
    let c2 = e2.encrypt(&msg).unwrap();
    assert_eq!(c1, c2);
    assert_ne!(c1, msg);
    e1.reset();
    assert_eq!(e1.decrypt(&c1).unwrap(), msg);
    let (com, refl, rots) = e1.get_config();
    assert!(com.is_none());
    assert_eq!(refl, reflector);
    assert_eq!(rots, rotors);
}

#[test]
fn enigma_reports_index_of_unknown_symbol() {
    let reflector: Vec<u8> = b"ABCD".to_vec();
    let rotors = vec![b"DCBA".to_vec()];
    let mut e = Enigma::from_config(Some(b"ABCD".as_slice()), &reflector, &rotors).unwrap();
    let r = e.encrypt(b"ABZA");
    assert_eq!(r.unwrap_err().0, 2);
}

#[test]
fn enigma_known_substitution() {
    // Rotor inputs are the sorted alphabet ABCD, outputs CADB; reflector pairs (A,B), (C,D).
    let reflector: Vec<u8> = b"ABCD".to_vec();
    let rotors = vec![b"CADB".to_vec()];
    let mut e = Enigma::from_config(None, &reflector, &rotors).unwrap();
    // A -> rotor forward: index 0 -> C; reflect C -> D; backward: D at index 2 in CADB -> C.
    assert_eq!(e.encrypt(b"A").unwrap(), b"C".to_vec());
}

#[test]
fn enigma_from_alphabet_wires_permutations() {
    let alphabet: Vec<u8> = b"ABCDEFGHIJKLMNOPQRSTUVWXYZ".to_vec();
    let mut e = Enigma::from_alphabet(&alphabet, 4, true).unwrap();
    let (com, refl, rotors) = e.get_config();
    let sorted = |mut v: Vec<u8>| {
        v.sort();
        v
    };
    assert_eq!(sorted(com.unwrap()), alphabet);
    assert_eq!(sorted(refl), alphabet);
    assert_eq!(rotors.len(), 4);
    for r in rotors {
        assert_eq!(sorted(r), alphabet);
    }
    let err = e.decrypt(b"AB?").unwrap_err();
    assert_eq!(err, (2, "Symbol not in alphabet"));
}

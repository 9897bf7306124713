use ciphers::{Reflector, Rotor, StdReflector};

#[test]
fn rotor_forward_backward_and_rotation() {
    let mut r = Rotor::from_config(b"CADB".as_slice());
    assert_eq!(r.get_config(), b"CADB".to_vec());
    assert!(r.is_at_init_position());
    assert_eq!(r.forward(&b'A'), Some(b'C'));
    assert_eq!(r.backward(&b'C'), Some(b'A'));
    assert_eq!(r.forward(&b'Z'), None);
    r.rotate();
    assert!(!r.is_at_init_position());
    assert_eq!(r.forward(&b'A'), Some(b'A'));
    assert_eq!(r.backward(&b'A'), Some(b'A'));
    assert_eq!(r.forward(&b'D'), Some(b'C'));
    r.rotate();
    r.rotate();
    r.rotate();
    assert!(r.is_at_init_position());
    r.rotate();
    r.reset();
    assert!(r.is_at_init_position());
}

#[test]
fn rotor_from_alphabet_is_a_permutation() {
    let alphabet: Vec<u8> = (0..=255).collect();
    let r = Rotor::from_alphabet(&alphabet);
    let mut cfg = r.get_config();
    cfg.sort();
    assert_eq!(cfg, alphabet);
    for x in 0..=255u8 {
        let y = r.forward(&x).unwrap();
        assert_eq!(r.backward(&y), Some(x));
    }
}

#[test]
fn reflectors_pair_symbols() {
    let r = Reflector::from_config(b"ABCDE".as_slice());
    assert_eq!(r.reflect(&b'A'), Some(b'B'));
    assert_eq!(r.reflect(&b'D'), Some(b'C'));
    assert_eq!(r.reflect(&b'E'), Some(b'E'));
    assert_eq!(r.reflect(&b'Z'), None);
    assert_eq!(r.get_config(), b"ABCDE".to_vec());

    assert!(StdReflector::from_config(b"ABC".as_slice()).is_err());
    let s = StdReflector::from_config(b"ABCD".as_slice()).unwrap();
    assert_eq!(s.reflect(&b'C'), Some(b'D'));
    assert_eq!(s.reflect(&b'B'), Some(b'A'));
    assert_eq!(s.get_config(), b"ABCD".to_vec());
    assert!(StdReflector::from_alphabet(b"ABC".as_slice()).is_err());
    let t = StdReflector::from_alphabet(b"ABCD".as_slice()).unwrap();
    let y = t.reflect(&b'A').unwrap();
    assert_ne!(y, b'A');
    assert_eq!(t.reflect(&y), Some(b'A'));
    let u = Reflector::from_alphabet(b"ABCD".as_slice());
    let mut w = u.get_config();
    w.sort();
    assert_eq!(w, b"ABCD".to_vec());
}

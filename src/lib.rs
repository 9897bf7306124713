//! Classical and block ciphers with verified contracts: AES-128 with CBC mode
//! and PKCS#7 padding, DES in ECB mode with PKCS#5 padding, and a rotor
//! machine with its binary configuration format.

pub mod aes128;
pub mod bits;
pub mod cbc;
pub mod config;
pub mod des;
pub mod enigma;
pub mod gf;
pub mod hex;
pub mod keyfile;
pub mod paths;
pub mod reflector;
pub mod rotor;
pub mod sbox;
pub mod symbol;

pub use aes128::Aes128;
pub use bits::{bitvec_to_bytes, bytes_to_bitvec, left_rotate_bits, permute, xor_bits};
pub use cbc::{Aes128Cbc, CbcError};
pub use config::{BinConfigSerializer, ConfigError};
pub use des::{des_decrypt, des_encrypt, parse_key, parse_key_digits, DesError};
pub use enigma::Enigma;
pub use hex::{decode, encode, HexError};
pub use keyfile::{keyfile_bytes, parse_keyfile, KeyFileError};
pub use paths::{add_e_prefix, add_fileprefix};
pub use reflector::{Reflector, StdReflector};
pub use rotor::Rotor;
pub use symbol::Symbol;

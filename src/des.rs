use vstd::prelude::*;

use crate::hex::{all_hex, decode_digits, decoded, hex_bytes, trim, trim_spec, HexError};
use crate::bits::{
    bits_of, bitvec_to_bytes, bytes_of, bytes_to_bitvec, left_rotate_bits, permute,
    permute_spec, rotate_left_spec, valid_table, xor_bits, xor_spec,
};

verus! {

/// Why DES data or a DES key could not be processed.
#[derive(Debug, Clone, Copy, PartialEq, Eq, Structural)]
pub enum DesError {
    /// Decrypted data is empty or not a multiple of 8 bytes long.
    InvalidPaddedLength,
    /// The last byte of decrypted data is not a pad length from 1 to 8.
    InvalidPaddingByte,
    /// The pad bytes do not all equal the pad length.
    InvalidPaddingContents,
    /// The ciphertext length is not a multiple of 8.
    CiphertextLength,
    /// The key text is not 16 characters long.
    KeyLength,
    /// The key text is not hex.
    Hex(HexError),
}

/// The DES initial permutation (1-based bit positions).
pub open spec fn ip_table() -> Seq<usize> {
    seq![
        58usize, 50, 42, 34, 26, 18, 10, 2, 60, 52, 44, 36, 28, 20, 12, 4,
        62, 54, 46, 38, 30, 22, 14, 6, 64, 56, 48, 40, 32, 24, 16, 8,
        57, 49, 41, 33, 25, 17, 9, 1, 59, 51, 43, 35, 27, 19, 11, 3,
        61, 53, 45, 37, 29, 21, 13, 5, 63, 55, 47, 39, 31, 23, 15, 7,
    ]
}

fn ip() -> (r: Vec<usize>)
    ensures
        r@ == ip_table(),
{
    let r: Vec<usize> = vec![
        58, 50, 42, 34, 26, 18, 10, 2, 60, 52, 44, 36, 28, 20, 12, 4,
        62, 54, 46, 38, 30, 22, 14, 6, 64, 56, 48, 40, 32, 24, 16, 8,
        57, 49, 41, 33, 25, 17, 9, 1, 59, 51, 43, 35, 27, 19, 11, 3,
        61, 53, 45, 37, 29, 21, 13, 5, 63, 55, 47, 39, 31, 23, 15, 7,
    ];
    assert(r@ =~= ip_table());
    r
}

/// The DES final permutation (1-based bit positions).
pub open spec fn fp_table() -> Seq<usize> {
    seq![
        40usize, 8, 48, 16, 56, 24, 64, 32, 39, 7, 47, 15, 55, 23, 63, 31,
        38, 6, 46, 14, 54, 22, 62, 30, 37, 5, 45, 13, 53, 21, 61, 29,
        36, 4, 44, 12, 52, 20, 60, 28, 35, 3, 43, 11, 51, 19, 59, 27,
        34, 2, 42, 10, 50, 18, 58, 26, 33, 1, 41, 9, 49, 17, 57, 25,
    ]
}

fn fp() -> (r: Vec<usize>)
    ensures
        r@ == fp_table(),
{
    let r: Vec<usize> = vec![
        40, 8, 48, 16, 56, 24, 64, 32, 39, 7, 47, 15, 55, 23, 63, 31,
        38, 6, 46, 14, 54, 22, 62, 30, 37, 5, 45, 13, 53, 21, 61, 29,
        36, 4, 44, 12, 52, 20, 60, 28, 35, 3, 43, 11, 51, 19, 59, 27,
        34, 2, 42, 10, 50, 18, 58, 26, 33, 1, 41, 9, 49, 17, 57, 25,
    ];
    assert(r@ =~= fp_table());
    r
}

/// The DES expansion of a 32-bit half to 48 bits (1-based bit positions).
pub open spec fn expansion_table() -> Seq<usize> {
    seq![
        32usize, 1, 2, 3, 4, 5, 4, 5, 6, 7, 8, 9, 8, 9, 10, 11,
        12, 13, 12, 13, 14, 15, 16, 17, 16, 17, 18, 19, 20, 21, 20, 21,
        22, 23, 24, 25, 24, 25, 26, 27, 28, 29, 28, 29, 30, 31, 32, 1,
    ]
}

fn expansion() -> (r: Vec<usize>)
    ensures
        r@ == expansion_table(),
{
    let r: Vec<usize> = vec![
        32, 1, 2, 3, 4, 5, 4, 5, 6, 7, 8, 9, 8, 9, 10, 11,
        12, 13, 12, 13, 14, 15, 16, 17, 16, 17, 18, 19, 20, 21, 20, 21,
        22, 23, 24, 25, 24, 25, 26, 27, 28, 29, 28, 29, 30, 31, 32, 1,
    ];
    assert(r@ =~= expansion_table());
    r
}

/// The DES permutation after the S-boxes (1-based bit positions).
pub open spec fn p_perm_table() -> Seq<usize> {
    seq![
        16usize, 7, 20, 21, 29, 12, 28, 17, 1, 15, 23, 26, 5, 18, 31, 10,
        2, 8, 24, 14, 32, 27, 3, 9, 19, 13, 30, 6, 22, 11, 4, 25,
    ]
}

fn p_perm() -> (r: Vec<usize>)
    ensures
        r@ == p_perm_table(),
{
    let r: Vec<usize> = vec![
        16, 7, 20, 21, 29, 12, 28, 17, 1, 15, 23, 26, 5, 18, 31, 10,
        2, 8, 24, 14, 32, 27, 3, 9, 19, 13, 30, 6, 22, 11, 4, 25,
    ];
    assert(r@ =~= p_perm_table());
    r
}

/// DES permuted choice 1 of the key bits (1-based bit positions).
pub open spec fn pc1_table() -> Seq<usize> {
    seq![
        57usize, 49, 41, 33, 25, 17, 9, 1, 58, 50, 42, 34, 26, 18, 10, 2,
        59, 51, 43, 35, 27, 19, 11, 3, 60, 52, 44, 36, 63, 55, 47, 39,
        31, 23, 15, 7, 62, 54, 46, 38, 30, 22, 14, 6, 61, 53, 45, 37,
        29, 21, 13, 5, 28, 20, 12, 4,
    ]
}

fn pc1() -> (r: Vec<usize>)
    ensures
        r@ == pc1_table(),
{
    let r: Vec<usize> = vec![
        57, 49, 41, 33, 25, 17, 9, 1, 58, 50, 42, 34, 26, 18, 10, 2,
        59, 51, 43, 35, 27, 19, 11, 3, 60, 52, 44, 36, 63, 55, 47, 39,
        31, 23, 15, 7, 62, 54, 46, 38, 30, 22, 14, 6, 61, 53, 45, 37,
        29, 21, 13, 5, 28, 20, 12, 4,
    ];
    assert(r@ =~= pc1_table());
    r
}

/// DES permuted choice 2 of the rotated key halves (1-based bit positions).
pub open spec fn pc2_table() -> Seq<usize> {
    seq![
        14usize, 17, 11, 24, 1, 5, 3, 28, 15, 6, 21, 10, 23, 19, 12, 4,
        26, 8, 16, 7, 27, 20, 13, 2, 41, 52, 31, 37, 47, 55, 30, 40,
        51, 45, 33, 48, 44, 49, 39, 56, 34, 53, 46, 42, 50, 36, 29, 32,
    ]
}

fn pc2() -> (r: Vec<usize>)
    ensures
        r@ == pc2_table(),
{
    let r: Vec<usize> = vec![
        14, 17, 11, 24, 1, 5, 3, 28, 15, 6, 21, 10, 23, 19, 12, 4,
        26, 8, 16, 7, 27, 20, 13, 2, 41, 52, 31, 37, 47, 55, 30, 40,
        51, 45, 33, 48, 44, 49, 39, 56, 34, 53, 46, 42, 50, 36, 29, 32,
    ];
    assert(r@ =~= pc2_table());
    r
}

/// The eight DES S-boxes, box `i`, row `r`, column `c` at `64 * i + 16 * r + c`.
pub open spec fn sbox_table() -> Seq<u8> {
    seq![
        14u8, 4, 13, 1, 2, 15, 11, 8, 3, 10, 6, 12, 5, 9, 0, 7,
        0, 15, 7, 4, 14, 2, 13, 1, 10, 6, 12, 11, 9, 5, 3, 8,
        4, 1, 14, 8, 13, 6, 2, 11, 15, 12, 9, 7, 3, 10, 5, 0,
        15, 12, 8, 2, 4, 9, 1, 7, 5, 11, 3, 14, 10, 0, 6, 13,
        15, 1, 8, 14, 6, 11, 3, 4, 9, 7, 2, 13, 12, 0, 5, 10,
        3, 13, 4, 7, 15, 2, 8, 14, 12, 0, 1, 10, 6, 9, 11, 5,
        0, 14, 7, 11, 10, 4, 13, 1, 5, 8, 12, 6, 9, 3, 2, 15,
        13, 8, 10, 1, 3, 15, 4, 2, 11, 6, 7, 12, 0, 5, 14, 9,
        10, 0, 9, 14, 6, 3, 15, 5, 1, 13, 12, 7, 11, 4, 2, 8,
        13, 7, 0, 9, 3, 4, 6, 10, 2, 8, 5, 14, 12, 11, 15, 1,
        13, 6, 4, 9, 8, 15, 3, 0, 11, 1, 2, 12, 5, 10, 14, 7,
        1, 10, 13, 0, 6, 9, 8, 7, 4, 15, 14, 3, 11, 5, 2, 12,
        7, 13, 14, 3, 0, 6, 9, 10, 1, 2, 8, 5, 11, 12, 4, 15,
        13, 8, 11, 5, 6, 15, 0, 3, 4, 7, 2, 12, 1, 10, 14, 9,
        10, 6, 9, 0, 12, 11, 7, 13, 15, 1, 3, 14, 5, 2, 8, 4,
        3, 15, 0, 6, 10, 1, 13, 8, 9, 4, 5, 11, 12, 7, 2, 14,
        2, 12, 4, 1, 7, 10, 11, 6, 8, 5, 3, 15, 13, 0, 14, 9,
        14, 11, 2, 12, 4, 7, 13, 1, 5, 0, 15, 10, 3, 9, 8, 6,
        4, 2, 1, 11, 10, 13, 7, 8, 15, 9, 12, 5, 6, 3, 0, 14,
        11, 8, 12, 7, 1, 14, 2, 13, 6, 15, 0, 9, 10, 4, 5, 3,
        12, 1, 10, 15, 9, 2, 6, 8, 0, 13, 3, 4, 14, 7, 5, 11,
        10, 15, 4, 2, 7, 12, 9, 5, 6, 1, 13, 14, 0, 11, 3, 8,
        9, 14, 15, 5, 2, 8, 12, 3, 7, 0, 4, 10, 1, 13, 11, 6,
        4, 3, 2, 12, 9, 5, 15, 10, 11, 14, 1, 7, 6, 0, 8, 13,
        4, 11, 2, 14, 15, 0, 8, 13, 3, 12, 9, 7, 5, 10, 6, 1,
        13, 0, 11, 7, 4, 9, 1, 10, 14, 3, 5, 12, 2, 15, 8, 6,
        1, 4, 11, 13, 12, 3, 7, 14, 10, 15, 6, 8, 0, 5, 9, 2,
        6, 11, 13, 8, 1, 4, 10, 7, 9, 5, 0, 15, 14, 2, 3, 12,
        13, 2, 8, 4, 6, 15, 11, 1, 10, 9, 3, 14, 5, 0, 12, 7,
        1, 15, 13, 8, 10, 3, 7, 4, 12, 5, 6, 11, 0, 14, 9, 2,
        7, 11, 4, 1, 9, 12, 14, 2, 0, 6, 10, 13, 15, 3, 5, 8,
        2, 1, 14, 7, 4, 10, 8, 13, 15, 12, 9, 0, 3, 5, 6, 11,
    ]
}

fn sboxes() -> (r: Vec<u8>)
    ensures
        r@ == sbox_table(),
{
    let r: Vec<u8> = vec![
        14, 4, 13, 1, 2, 15, 11, 8, 3, 10, 6, 12, 5, 9, 0, 7,
        0, 15, 7, 4, 14, 2, 13, 1, 10, 6, 12, 11, 9, 5, 3, 8,
        4, 1, 14, 8, 13, 6, 2, 11, 15, 12, 9, 7, 3, 10, 5, 0,
        15, 12, 8, 2, 4, 9, 1, 7, 5, 11, 3, 14, 10, 0, 6, 13,
        15, 1, 8, 14, 6, 11, 3, 4, 9, 7, 2, 13, 12, 0, 5, 10,
        3, 13, 4, 7, 15, 2, 8, 14, 12, 0, 1, 10, 6, 9, 11, 5,
        0, 14, 7, 11, 10, 4, 13, 1, 5, 8, 12, 6, 9, 3, 2, 15,
        13, 8, 10, 1, 3, 15, 4, 2, 11, 6, 7, 12, 0, 5, 14, 9,
        10, 0, 9, 14, 6, 3, 15, 5, 1, 13, 12, 7, 11, 4, 2, 8,
        13, 7, 0, 9, 3, 4, 6, 10, 2, 8, 5, 14, 12, 11, 15, 1,
        13, 6, 4, 9, 8, 15, 3, 0, 11, 1, 2, 12, 5, 10, 14, 7,
        1, 10, 13, 0, 6, 9, 8, 7, 4, 15, 14, 3, 11, 5, 2, 12,
        7, 13, 14, 3, 0, 6, 9, 10, 1, 2, 8, 5, 11, 12, 4, 15,
        13, 8, 11, 5, 6, 15, 0, 3, 4, 7, 2, 12, 1, 10, 14, 9,
        10, 6, 9, 0, 12, 11, 7, 13, 15, 1, 3, 14, 5, 2, 8, 4,
        3, 15, 0, 6, 10, 1, 13, 8, 9, 4, 5, 11, 12, 7, 2, 14,
        2, 12, 4, 1, 7, 10, 11, 6, 8, 5, 3, 15, 13, 0, 14, 9,
        14, 11, 2, 12, 4, 7, 13, 1, 5, 0, 15, 10, 3, 9, 8, 6,
        4, 2, 1, 11, 10, 13, 7, 8, 15, 9, 12, 5, 6, 3, 0, 14,
        11, 8, 12, 7, 1, 14, 2, 13, 6, 15, 0, 9, 10, 4, 5, 3,
        12, 1, 10, 15, 9, 2, 6, 8, 0, 13, 3, 4, 14, 7, 5, 11,
        10, 15, 4, 2, 7, 12, 9, 5, 6, 1, 13, 14, 0, 11, 3, 8,
        9, 14, 15, 5, 2, 8, 12, 3, 7, 0, 4, 10, 1, 13, 11, 6,
        4, 3, 2, 12, 9, 5, 15, 10, 11, 14, 1, 7, 6, 0, 8, 13,
        4, 11, 2, 14, 15, 0, 8, 13, 3, 12, 9, 7, 5, 10, 6, 1,
        13, 0, 11, 7, 4, 9, 1, 10, 14, 3, 5, 12, 2, 15, 8, 6,
        1, 4, 11, 13, 12, 3, 7, 14, 10, 15, 6, 8, 0, 5, 9, 2,
        6, 11, 13, 8, 1, 4, 10, 7, 9, 5, 0, 15, 14, 2, 3, 12,
        13, 2, 8, 4, 6, 15, 11, 1, 10, 9, 3, 14, 5, 0, 12, 7,
        1, 15, 13, 8, 10, 3, 7, 4, 12, 5, 6, 11, 0, 14, 9, 2,
        7, 11, 4, 1, 9, 12, 14, 2, 0, 6, 10, 13, 15, 3, 5, 8,
        2, 1, 14, 7, 4, 10, 8, 13, 15, 12, 9, 0, 3, 5, 6, 11,
    ];
    assert(r@ =~= sbox_table());
    r
}

/// The left-rotation amount of the key halves in each of the sixteen rounds.
pub open spec fn shift_table() -> Seq<usize> {
    seq![1usize, 1, 2, 2, 2, 2, 2, 2, 1, 2, 2, 2, 2, 2, 2, 1]
}

fn shifts() -> (r: Vec<usize>)
    ensures
        r@ == shift_table(),
{
    let r: Vec<usize> = vec![1, 1, 2, 2, 2, 2, 2, 2, 1, 2, 2, 2, 2, 2, 2, 1];
    assert(r@ =~= shift_table());
    r
}

// ---------------------------------------------------------------------------
// Mathematical model.
// ---------------------------------------------------------------------------

/// Every entry is a bit: 0 or 1.
pub open spec fn is_bits(s: Seq<u8>) -> bool {
    forall|i: int| 0 <= i < s.len() ==> #[trigger] s[i] <= 1
}

/// The left key half (`C`) after `i` rounds of rotation.
pub open spec fn key_c(key: Seq<u8>, i: nat) -> Seq<u8>
    decreases i,
{
    if i == 0 {
        permute_spec(bits_of(key), pc1_table()).take(28)
    } else {
        rotate_left_spec(key_c(key, (i - 1) as nat), shift_table()[i - 1] as nat)
    }
}

/// The right key half (`D`) after `i` rounds of rotation.
pub open spec fn key_d(key: Seq<u8>, i: nat) -> Seq<u8>
    decreases i,
{
    if i == 0 {
        permute_spec(bits_of(key), pc1_table()).skip(28)
    } else {
        rotate_left_spec(key_d(key, (i - 1) as nat), shift_table()[i - 1] as nat)
    }
}

/// The sixteen 48-bit round keys of an 8-byte DES key.
pub open spec fn subkeys_spec(key: Seq<u8>) -> Seq<Seq<u8>> {
    Seq::new(16, |i: int| permute_spec(key_c(key, (i + 1) as nat) + key_d(key, (i + 1) as nat), pc2_table()))
}

/// The S-box row selected by a 6-bit group: its outer bits.
pub open spec fn sbox_row(c: Seq<u8>) -> u8 {
    (c[0] << 1u8) | c[5]
}

/// The S-box column selected by a 6-bit group: its inner four bits.
pub open spec fn sbox_col(c: Seq<u8>) -> u8 {
    (c[1] << 3u8) | (c[2] << 2u8) | (c[3] << 1u8) | c[4]
}

/// Each 6-bit group `g` of `x` through S-box `g`, giving four bits, high first.
pub open spec fn sbox_substitute_spec(x: Seq<u8>) -> Seq<u8> {
    Seq::new(
        32,
        |j: int|
            {
                let g = j / 4;
                let c = x.subrange(6 * g, 6 * g + 6);
                let v = sbox_table()[64 * g + 16 * sbox_row(c) + sbox_col(c)];
                (v >> ((3 - j % 4) as u8)) & 1u8
            },
    )
}

/// The DES round function of a 32-bit half `r` under a round key `k`.
pub open spec fn f_spec(r: Seq<u8>, k: Seq<u8>) -> Seq<u8> {
    permute_spec(sbox_substitute_spec(xor_spec(permute_spec(r, expansion_table()), k)), p_perm_table())
}

/// The halves after the first `n` Feistel rounds with the keys `keys`.
pub open spec fn feistel(l: Seq<u8>, r: Seq<u8>, keys: Seq<Seq<u8>>, n: nat) -> (Seq<u8>, Seq<u8>)
    decreases n,
{
    if n == 0 {
        (l, r)
    } else {
        let (l1, r1) = feistel(l, r, keys, (n - 1) as nat);
        (r1, xor_spec(l1, f_spec(r1, keys[n - 1])))
    }
}

/// One DES block transform with the round keys `keys` applied in order.
pub open spec fn des_block_spec(block: Seq<u8>, keys: Seq<Seq<u8>>) -> Seq<u8> {
    let ip = permute_spec(bits_of(block), ip_table());
    let (l, r) = feistel(ip.take(32), ip.skip(32), keys, keys.len());
    bytes_of(permute_spec(r + l, fp_table()))
}

/// The round keys as sequences.
pub open spec fn keys_view(keys: Seq<Vec<u8>>) -> Seq<Seq<u8>> {
    Seq::new(keys.len(), |i: int| keys[i]@)
}

/// The round keys in reverse order, for decryption.
pub open spec fn reversed(keys: Seq<Seq<u8>>) -> Seq<Seq<u8>> {
    Seq::new(keys.len(), |i: int| keys[keys.len() - 1 - i])
}

/// Usable round keys: each has at least 48 entries, all bits.
pub open spec fn valid_subkeys(keys: Seq<Seq<u8>>) -> bool {
    forall|i: int| 0 <= i < keys.len() ==> (#[trigger] keys[i]).len() >= 48 && is_bits(keys[i])
}

// ---------------------------------------------------------------------------
// Facts about bits.
// ---------------------------------------------------------------------------

proof fn lemma_bit_ops(x: u8, y: u8, s: u8)
    ensures
        x <= 1 && y <= 1 ==> x ^ y <= 1,
        (x >> s) & 1u8 <= 1,
        x <= 1 && y <= 1 ==> (x << 1u8) | y < 4,
{
    assert(x <= 1 && y <= 1 ==> x ^ y <= 1) by (bit_vector);
    assert((x >> s) & 1u8 <= 1) by (bit_vector);
    assert(x <= 1 && y <= 1 ==> (x << 1u8) | y < 4) by (bit_vector);
}

proof fn lemma_col_bound(a: u8, b: u8, c: u8, d: u8)
    requires
        a <= 1,
        b <= 1,
        c <= 1,
        d <= 1,
    ensures
        (a << 3u8) | (b << 2u8) | (c << 1u8) | d < 16,
{
    assert((a << 3u8) | (b << 2u8) | (c << 1u8) | d < 16) by (bit_vector)
        requires
            a <= 1,
            b <= 1,
            c <= 1,
            d <= 1,
    ;
}

proof fn lemma_bits_of(b: Seq<u8>)
    ensures
        is_bits(bits_of(b)),
{
    assert forall|i: int| 0 <= i < bits_of(b).len() implies #[trigger] bits_of(b)[i] <= 1 by {
        lemma_bit_ops(b[i / 8], 0, (7 - i % 8) as u8);
    }
}

proof fn lemma_xor_bits(a: Seq<u8>, b: Seq<u8>)
    requires
        is_bits(a),
        is_bits(b),
    ensures
        is_bits(xor_spec(a, b)),
{
    assert forall|i: int| 0 <= i < xor_spec(a, b).len() implies #[trigger] xor_spec(a, b)[i] <= 1 by {
        lemma_bit_ops(a[i], b[i], 0);
    }
}

proof fn lemma_permute_bits(s: Seq<u8>, t: Seq<usize>)
    requires
        is_bits(s),
        valid_table(t, s.len()),
    ensures
        is_bits(permute_spec(s, t)),
{
    assert forall|i: int| 0 <= i < t.len() implies #[trigger] permute_spec(s, t)[i] <= 1 by {
        assert(1 <= t[i] <= s.len());
    }
}

proof fn lemma_sbox_bits(x: Seq<u8>)
    ensures
        is_bits(sbox_substitute_spec(x)),
{
    assert forall|j: int| 0 <= j < 32 implies #[trigger] sbox_substitute_spec(x)[j] <= 1 by {
        let g = j / 4;
        let c = x.subrange(6 * g, 6 * g + 6);
        let v = sbox_table()[64 * g + 16 * sbox_row(c) + sbox_col(c)];
        lemma_bit_ops(v, 0, (3 - j % 4) as u8);
    }
}

// ---------------------------------------------------------------------------
// The cipher.
// ---------------------------------------------------------------------------

/// Entries `start .. end` of `v`.
fn slice_bits(v: &[u8], start: usize, end: usize) -> (r: Vec<u8>)
    requires
        start <= end <= v@.len(),
    ensures
        r@ == v@.subrange(start as int, end as int),
{
    let mut out: Vec<u8> = Vec::with_capacity(end - start);
    let mut i: usize = start;
    while i < end
        invariant
            start <= i <= end,
            end <= v@.len(),
            out@ == v@.subrange(start as int, i as int),
        decreases end - i,
    {
        out.push(v[i]);
        i = i + 1;
        assert(out@ =~= v@.subrange(start as int, i as int));
    }
    out
}

/// `a` followed by `b`.
fn concat_bits(a: &[u8], b: &[u8]) -> (r: Vec<u8>)
    requires
        a@.len() + b@.len() <= usize::MAX,
    ensures
        r@ == a@ + b@,
{
    let mut out = slice_bits(a, 0, a.len());
    let mut i: usize = 0;
    while i < b.len()
        invariant
            a@.len() + b@.len() <= usize::MAX,
            i <= b@.len(),
            out@ == a@ + b@.take(i as int),
        decreases b@.len() - i,
    {
        out.push(b[i]);
        i = i + 1;
        assert(out@ =~= a@ + b@.take(i as int));
    }
    assert(a@.subrange(0, a@.len() as int) =~= a@);
    assert(b@.take(b@.len() as int) =~= b@);
    out
}

/// The sixteen round keys of `key`.
fn generate_subkeys(key: &[u8; 8]) -> (r: Vec<Vec<u8>>)
    ensures
        keys_view(r@) == subkeys_spec(key@),
        r@.len() == 16,
        valid_subkeys(keys_view(r@)),
{
    let key_bits = bytes_to_bitvec(key.as_slice());
    let pc1 = pc1();
    assert(valid_table(pc1@, 64));
    let permuted = permute(key_bits.as_slice(), pc1.as_slice());
    let mut c = slice_bits(permuted.as_slice(), 0, 28);
    let mut d = slice_bits(permuted.as_slice(), 28, 56);
    assert(c@ =~= key_c(key@, 0));
    assert(d@ =~= key_d(key@, 0));
    proof {
        lemma_bits_of(key@);
        lemma_permute_bits(bits_of(key@), pc1_table());
    }
    let shifts = shifts();
    let pc2 = pc2();
    assert(valid_table(pc2@, 56));
    let mut subkeys: Vec<Vec<u8>> = Vec::with_capacity(16);
    let mut i: usize = 0;
    while i < 16
        invariant
            i <= 16,
            shifts@ == shift_table(),
            pc2@ == pc2_table(),
            valid_table(pc2@, 56),
            c@ == key_c(key@, i as nat),
            d@ == key_d(key@, i as nat),
            c@.len() == 28,
            d@.len() == 28,
            is_bits(c@),
            is_bits(d@),
            subkeys@.len() == i,
            forall|j: int| 0 <= j < i ==> (#[trigger] subkeys@[j])@ == subkeys_spec(key@)[j],
            forall|j: int| 0 <= j < i ==> (#[trigger] subkeys@[j])@.len() == 48 && is_bits(subkeys@[j]@),
        decreases 16 - i,
    {
        c = left_rotate_bits(c.as_slice(), shifts[i]);
        d = left_rotate_bits(d.as_slice(), shifts[i]);
        let cd = concat_bits(c.as_slice(), d.as_slice());
        proof {
            assert forall|t: int| 0 <= t < cd@.len() implies #[trigger] cd@[t] <= 1 by {
                if t < 28 {
                    assert(cd@[t] == c@[t]);
                } else {
                    assert(cd@[t] == d@[t - 28]);
                }
            }
            lemma_permute_bits(cd@, pc2@);
        }
        let k = permute(cd.as_slice(), pc2.as_slice());
        subkeys.push(k);
        i = i + 1;
    }
    assert(keys_view(subkeys@) =~= subkeys_spec(key@));
    subkeys
}

/// Each 6-bit group through its S-box.
fn sbox_substitute(bits48: &[u8]) -> (r: Vec<u8>)
    requires
        bits48@.len() == 48,
        is_bits(bits48@),
    ensures
        r@ == sbox_substitute_spec(bits48@),
{
    let table = sboxes();
    let mut out: Vec<u8> = Vec::with_capacity(32);
    let mut i: usize = 0;
    while i < 8
        invariant
            i <= 8,
            bits48@.len() == 48,
            is_bits(bits48@),
            table@ == sbox_table(),
            out@ == sbox_substitute_spec(bits48@).take(4 * i as int),
        decreases 8 - i,
    {
        let chunk = slice_bits(bits48, 6 * i, 6 * i + 6);
        proof {
            lemma_bit_ops(chunk@[0], chunk@[5], 0);
            lemma_col_bound(chunk@[1], chunk@[2], chunk@[3], chunk@[4]);
        }
        let row = ((chunk[0] << 1) | chunk[5]) as usize;
        let col = ((chunk[1] << 3) | (chunk[2] << 2) | (chunk[3] << 1) | chunk[4]) as usize;
        let val = table[64 * i + 16 * row + col];
        out.push((val >> 3) & 1);
        out.push((val >> 2) & 1);
        out.push((val >> 1) & 1);
        out.push(val & 1);
        proof {
            assert(val & 1u8 == (val >> 0u8) & 1u8) by (bit_vector);
            let b = 4 * i as int;
            assert(b / 4 == i && (b + 1) / 4 == i && (b + 2) / 4 == i && (b + 3) / 4 == i);
            assert(b % 4 == 0 && (b + 1) % 4 == 1 && (b + 2) % 4 == 2 && (b + 3) % 4 == 3);
        }
        i = i + 1;
        assert(out@ =~= sbox_substitute_spec(bits48@).take(4 * i as int));
    }
    out
}

/// The DES round function.
fn f_func(r: &[u8], k: &[u8]) -> (out: Vec<u8>)
    requires
        r@.len() == 32,
        is_bits(r@),
        k@.len() >= 48,
        is_bits(k@),
    ensures
        out@ == f_spec(r@, k@),
        out@.len() == 32,
        is_bits(out@),
{
    let e = expansion();
    assert(valid_table(e@, 32));
    let r_exp = permute(r, e.as_slice());
    proof {
        lemma_permute_bits(r@, e@);
        lemma_xor_bits(r_exp@, k@);
    }
    let x = xor_bits(r_exp.as_slice(), k);
    let s_out = sbox_substitute(x.as_slice());
    let p = p_perm();
    assert(valid_table(p@, 32));
    proof {
        lemma_sbox_bits(x@);
        lemma_permute_bits(s_out@, p@);
    }
    permute(s_out.as_slice(), p.as_slice())
}

/// One DES block transform: the round keys in order to encrypt, in reverse
/// order to decrypt.
fn des_block(block: &[u8; 8], subkeys: &Vec<Vec<u8>>, encrypt: bool) -> (r: [u8; 8])
    requires
        valid_subkeys(keys_view(subkeys@)),
    ensures
        r@ == des_block_spec(
            block@,
            if encrypt {
                keys_view(subkeys@)
            } else {
                reversed(keys_view(subkeys@))
            },
        ),
{
    let ghost keys = if encrypt {
        keys_view(subkeys@)
    } else {
        reversed(keys_view(subkeys@))
    };
    let bits = bytes_to_bitvec(block.as_slice());
    let ip = ip();
    assert(valid_table(ip@, 64));
    let ip_bits = permute(bits.as_slice(), ip.as_slice());
    proof {
        lemma_bits_of(block@);
        lemma_permute_bits(bits@, ip@);
    }
    let mut l = slice_bits(ip_bits.as_slice(), 0, 32);
    let mut r = slice_bits(ip_bits.as_slice(), 32, 64);
    assert(l@ =~= ip_bits@.take(32));
    assert(r@ =~= ip_bits@.skip(32));
    let n = subkeys.len();
    let mut idx: usize = 0;
    while idx < n
        invariant
            n == subkeys@.len(),
            keys.len() == n,
            keys == (if encrypt { keys_view(subkeys@) } else { reversed(keys_view(subkeys@)) }),
            valid_subkeys(keys_view(subkeys@)),
            idx <= n,
            (l@, r@) == feistel(ip_bits@.take(32), ip_bits@.skip(32), keys, idx as nat),
            l@.len() == 32,
            r@.len() == 32,
            is_bits(l@),
            is_bits(r@),
        decreases n - idx,
    {
        let k = if encrypt {
            &subkeys[idx]
        } else {
            &subkeys[n - 1 - idx]
        };
        assert(k@ == keys[idx as int]);
        assert(keys_view(subkeys@)[if encrypt { idx as int } else { n - 1 - idx }] == k@);
        let new_l = slice_bits(r.as_slice(), 0, 32);
        let f_out = f_func(r.as_slice(), k.as_slice());
        proof {
            lemma_xor_bits(l@, f_out@);
        }
        let new_r = xor_bits(l.as_slice(), f_out.as_slice());
        assert(new_l@ =~= r@);
        l = new_l;
        r = new_r;
        idx = idx + 1;
    }
    let preout = concat_bits(r.as_slice(), l.as_slice());
    let fp = fp();
    assert(valid_table(fp@, 64));
    let final_bits = permute(preout.as_slice(), fp.as_slice());
    let out_bytes = bitvec_to_bytes(final_bits.as_slice());
    let mut arr = [0u8; 8];
    let mut i: usize = 0;
    while i < 8
        invariant
            i <= 8,
            out_bytes@.len() == 8,
            forall|j: int| 0 <= j < i ==> arr@[j] == out_bytes@[j],
        decreases 8 - i,
    {
        arr[i] = out_bytes[i];
        i = i + 1;
    }
    assert(arr@ =~= out_bytes@);
    arr
}

/// The PKCS#5 pad length for data of length `n`: from 1 to 8.
pub open spec fn pad8_len(n: nat) -> nat {
    (8 - n % 8) as nat
}

/// `p` followed by `pad8_len(|p|)` bytes of value `pad8_len(|p|)`.
pub open spec fn pkcs5_pad_spec(p: Seq<u8>) -> Seq<u8> {
    p + Seq::new(pad8_len(p.len()), |k: int| pad8_len(p.len()) as u8)
}

/// The last `d.last()` bytes of `d` all equal `d.last()`.
pub open spec fn pad_bytes_agree(d: Seq<u8>) -> bool {
    forall|j: int| d.len() - d.last() <= j < d.len() ==> #[trigger] d[j] == d.last()
}

/// Checking and removing PKCS#5 padding.
pub open spec fn pkcs5_unpad_spec(d: Seq<u8>) -> Result<Seq<u8>, DesError> {
    if d.len() == 0 || d.len() % 8 != 0 {
        Err(DesError::InvalidPaddedLength)
    } else if d.last() < 1 || d.last() > 8 {
        Err(DesError::InvalidPaddingByte)
    } else if !pad_bytes_agree(d) {
        Err(DesError::InvalidPaddingContents)
    } else {
        Ok(d.take(d.len() - d.last()))
    }
}

/// Block `i` (bytes `8i .. 8i + 8`) of a byte sequence.
pub open spec fn block8(s: Seq<u8>, i: int) -> Seq<u8> {
    s.subrange(8 * i, 8 * i + 8)
}

/// Each 8-byte block of `d` through the DES block transform with `keys`.
pub open spec fn ecb_spec(d: Seq<u8>, keys: Seq<Seq<u8>>) -> Seq<u8> {
    Seq::new(d.len(), |j: int| des_block_spec(block8(d, j / 8), keys)[j % 8])
}

/// DES encryption of arbitrary data: PKCS#5 padding, then each block on its own.
pub open spec fn des_encrypt_spec(key: Seq<u8>, p: Seq<u8>) -> Seq<u8> {
    ecb_spec(pkcs5_pad_spec(p), subkeys_spec(key))
}

/// DES decryption: length check, each block on its own, then padding removal.
pub open spec fn des_decrypt_spec(key: Seq<u8>, c: Seq<u8>) -> Result<Seq<u8>, DesError> {
    if c.len() % 8 != 0 {
        Err(DesError::CiphertextLength)
    } else {
        pkcs5_unpad_spec(ecb_spec(c, reversed(subkeys_spec(key))))
    }
}

fn pkcs5_pad(data: &[u8]) -> (r: Vec<u8>)
    requires
        data@.len() + 8 <= usize::MAX,
    ensures
        r@ == pkcs5_pad_spec(data@),
{
    let pad = 8 - data.len() % 8;
    let mut out = slice_bits(data, 0, data.len());
    assert(out@ =~= data@ + Seq::new(0, |t: int| pad as u8));
    let mut k: usize = 0;
    while k < pad
        invariant
            pad == pad8_len(data@.len()),
            k <= pad,
            out@ == data@ + Seq::new(k as nat, |t: int| pad as u8),
        decreases pad - k,
    {
        out.push(pad as u8);
        k = k + 1;
        assert(out@ =~= data@ + Seq::new(k as nat, |t: int| pad as u8));
    }
    out
}

fn pkcs5_unpad(data: &[u8]) -> (r: Result<Vec<u8>, DesError>)
    ensures
        match r {
            Ok(v) => pkcs5_unpad_spec(data@) == Ok::<Seq<u8>, DesError>(v@),
            Err(e) => pkcs5_unpad_spec(data@) == Err::<Seq<u8>, DesError>(e),
        },
{
    let len = data.len();
    if len == 0 || len % 8 != 0 {
        return Err(DesError::InvalidPaddedLength);
    }
    let last = data[len - 1];
    if last < 1 || last > 8 {
        return Err(DesError::InvalidPaddingByte);
    }
    let pad = last as usize;
    let mut j: usize = len - pad;
    while j < len
        invariant
            len == data@.len(),
            len >= 8,
            len % 8 == 0,
            last == data@.last(),
            pad == last,
            1 <= pad <= 8,
            len - pad <= j <= len,
            forall|t: int| len - pad <= t < j ==> data@[t] == last,
        decreases len - j,
    {
        if data[j] != last {
            assert(data@[j as int] != data@.last());
            return Err(DesError::InvalidPaddingContents);
        }
        j = j + 1;
    }
    Ok(slice_bits(data, 0, len - pad))
}

/// Runs every 8-byte block of `data` through the DES block transform.
fn ecb(data: &Vec<u8>, subkeys: &Vec<Vec<u8>>, encrypt: bool) -> (r: Vec<u8>)
    requires
        data@.len() % 8 == 0,
        valid_subkeys(keys_view(subkeys@)),
    ensures
        r@ == ecb_spec(
            data@,
            if encrypt {
                keys_view(subkeys@)
            } else {
                reversed(keys_view(subkeys@))
            },
        ),
{
    let ghost keys = if encrypt {
        keys_view(subkeys@)
    } else {
        reversed(keys_view(subkeys@))
    };
    let len = data.len();
    let n = len / 8;
    let mut out: Vec<u8> = Vec::with_capacity(len);
    let mut i: usize = 0;
    while i < n
        invariant
            len == data@.len(),
            len == 8 * n,
            valid_subkeys(keys_view(subkeys@)),
            keys == (if encrypt { keys_view(subkeys@) } else { reversed(keys_view(subkeys@)) }),
            i <= n,
            out@.len() == 8 * i,
            forall|j: int| 0 <= j < 8 * i ==> #[trigger] out@[j] == ecb_spec(data@, keys)[j],
        decreases n - i,
    {
        let mut arr = [0u8; 8];
        let mut k: usize = 0;
        while k < 8
            invariant
                k <= 8,
                i < n,
                len == data@.len(),
                len == 8 * n,
                forall|t: int| 0 <= t < k ==> arr@[t] == data@[8 * i + t],
            decreases 8 - k,
        {
            arr[k] = data[8 * i + k];
            k = k + 1;
        }
        assert(arr@ =~= block8(data@, i as int));
        let enc = des_block(&arr, subkeys, encrypt);
        let mut k: usize = 0;
        while k < 8
            invariant
                k <= 8,
                out@.len() == 8 * i + k,
                forall|j: int| 0 <= j < 8 * i ==> #[trigger] out@[j] == ecb_spec(data@, keys)[j],
                forall|t: int| 0 <= t < k ==> out@[8 * i + t] == enc@[t],
            decreases 8 - k,
        {
            out.push(enc[k]);
            k = k + 1;
        }
        assert forall|j: int| 0 <= j < 8 * (i + 1) implies #[trigger] out@[j] == ecb_spec(data@, keys)[j] by {
            if j >= 8 * i {
                let t = j - 8 * i;
                assert(j / 8 == i as int && j % 8 == t) by (nonlinear_arith)
                    requires
                        j == 8 * i + t,
                        0 <= t < 8,
                ;
            }
        }
        i = i + 1;
    }
    assert(out@ =~= ecb_spec(data@, keys));
    out
}

/// DES-encrypts `plaintext` under `key`: PKCS#5 padding, then each 8-byte
/// block on its own.
pub fn des_encrypt(key: &[u8; 8], plaintext: &[u8]) -> (r: Vec<u8>)
    requires
        plaintext@.len() + 8 <= usize::MAX,
    ensures
        r@ == des_encrypt_spec(key@, plaintext@),
{
    let subkeys = generate_subkeys(key);
    let padded = pkcs5_pad(plaintext);
    ecb(&padded, &subkeys, true)
}

/// DES-decrypts `ciphertext` under `key` and removes the PKCS#5 padding.
pub fn des_decrypt(key: &[u8; 8], ciphertext: &[u8]) -> (r: Result<Vec<u8>, DesError>)
    ensures
        match r {
            Ok(v) => des_decrypt_spec(key@, ciphertext@) == Ok::<Seq<u8>, DesError>(v@),
            Err(e) => des_decrypt_spec(key@, ciphertext@) == Err::<Seq<u8>, DesError>(e),
        },
{
    if ciphertext.len() % 8 != 0 {
        return Err(DesError::CiphertextLength);
    }
    let subkeys = generate_subkeys(key);
    let data = slice_bits(ciphertext, 0, ciphertext.len());
    assert(data@ =~= ciphertext@);
    let out = ecb(&data, &subkeys, false);
    pkcs5_unpad(out.as_slice())
}

/// Reads a DES key written as 16 hex digits, with surrounding whitespace.
pub fn parse_key(text: &str) -> (r: Result<[u8; 8], DesError>)
    ensures
        key_parsed(trim_spec(text@), r),
{
    parse_key_digits(trim(text))
}

/// The result of reading the characters `c` as a DES key.
pub open spec fn key_parsed(c: Seq<char>, r: Result<[u8; 8], DesError>) -> bool {
    if c.len() != 16 {
        r == Err::<[u8; 8], DesError>(DesError::KeyLength)
    } else {
        match r {
            Ok(key) => all_hex(c) && key@ == hex_bytes(c),
            Err(DesError::Hex(e)) => !all_hex(c) && decoded(c, Err::<Vec<u8>, HexError>(e)),
            Err(_) => false,
        }
    }
}

/// Reads a DES key written as exactly 16 hex digits.
pub fn parse_key_digits(text: &str) -> (r: Result<[u8; 8], DesError>)
    ensures
        key_parsed(text@, r),
{
    let chars = crate::hex::chars_of(text);
    if chars.len() != 16 {
        return Err(DesError::KeyLength);
    }
    match decode_digits(text) {
        Ok(bytes) => {
            let mut key = [0u8; 8];
            let mut i: usize = 0;
            while i < 8
                invariant
                    i <= 8,
                    bytes@.len() == 8,
                    forall|j: int| 0 <= j < i ==> key@[j] == bytes@[j],
                decreases 8 - i,
            {
                key[i] = bytes[i];
                i = i + 1;
            }
            assert(key@ =~= bytes@);
            Ok(key)
        },
        Err(e) => Err(DesError::Hex(e)),
    }
}

} // verus!

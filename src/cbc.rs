use vstd::prelude::*;

use crate::aes128::{
    cipher, inv_cipher, key_schedule, lemma_block_round_trip, lemma_block_round_trip_inverse,
    lemma_cipher_len, valid_round_keys, Aes128,
};

verus! {

/// Why a ciphertext could not be decrypted.
#[derive(Debug, Clone, Copy, PartialEq, Eq, Structural)]
pub enum CbcError {
    /// The ciphertext length is not a multiple of 16.
    InvalidLength,
    /// The decrypted data does not end in well-formed PKCS#7 padding.
    InvalidPadding,
}

// ---------------------------------------------------------------------------
// Mathematical model.
// ---------------------------------------------------------------------------

/// Byte-wise XOR of two 16-byte blocks.
pub open spec fn xor_block(a: Seq<u8>, b: Seq<u8>) -> Seq<u8> {
    Seq::new(16, |k: int| a[k] ^ b[k])
}

/// Block `i` (bytes `16i .. 16i + 16`) of a byte sequence.
pub open spec fn block_of(s: Seq<u8>, i: int) -> Seq<u8> {
    s.subrange(16 * i, 16 * i + 16)
}

/// The PKCS#7 pad length for data of length `n`: from 1 to 16, a full block when
/// `n` is already a multiple of 16.
pub open spec fn pad_len(n: nat) -> nat {
    (16 - n % 16) as nat
}

/// `p` followed by `pad_len(|p|)` bytes of value `pad_len(|p|)`.
pub open spec fn pkcs7_pad_spec(p: Seq<u8>) -> Seq<u8> {
    p + Seq::new(pad_len(p.len()), |k: int| pad_len(p.len()) as u8)
}

/// The data ends in PKCS#7 padding: a last byte `n` in `1 ..= 16` preceded by
/// `n - 1` more bytes equal to `n`.
pub open spec fn valid_padding(s: Seq<u8>) -> bool {
    &&& s.len() > 0
    &&& 1 <= s.last() <= 16
    &&& s.last() <= s.len()
    &&& forall|j: int| s.len() - s.last() <= j < s.len() ==> s[j] == s.last()
}

/// The data with its padding removed.
pub open spec fn pkcs7_unpad_spec(s: Seq<u8>) -> Seq<u8> {
    s.take(s.len() - s.last())
}

/// Ciphertext block `i` of the CBC encryption of the block-aligned data `d`.
pub open spec fn cbc_chain(rks: Seq<Seq<u8>>, iv: Seq<u8>, d: Seq<u8>, i: nat) -> Seq<u8>
    decreases i,
{
    let prev = if i == 0 {
        iv
    } else {
        cbc_chain(rks, iv, d, (i - 1) as nat)
    };
    cipher(rks, xor_block(block_of(d, i as int), prev))
}

/// CBC encryption of block-aligned data, without padding.
pub open spec fn cbc_encrypt_blocks(rks: Seq<Seq<u8>>, iv: Seq<u8>, d: Seq<u8>) -> Seq<u8> {
    Seq::new(d.len(), |j: int| cbc_chain(rks, iv, d, (j / 16) as nat)[j % 16])
}

/// CBC encryption of arbitrary data: PKCS#7 padding, then chaining.
pub open spec fn cbc_encrypt_spec(rks: Seq<Seq<u8>>, iv: Seq<u8>, p: Seq<u8>) -> Seq<u8> {
    cbc_encrypt_blocks(rks, iv, pkcs7_pad_spec(p))
}

/// The block that ciphertext block `i` is chained to: the IV for the first block.
pub open spec fn chain_prev(iv: Seq<u8>, c: Seq<u8>, i: int) -> Seq<u8> {
    if i == 0 {
        iv
    } else {
        block_of(c, i - 1)
    }
}

/// CBC decryption of block-aligned ciphertext, before the padding is removed.
pub open spec fn cbc_decrypt_blocks(rks: Seq<Seq<u8>>, iv: Seq<u8>, c: Seq<u8>) -> Seq<u8> {
    Seq::new(
        c.len(),
        |j: int| xor_block(inv_cipher(rks, block_of(c, j / 16)), chain_prev(iv, c, j / 16))[j % 16],
    )
}

/// CBC decryption: length check, chaining, then PKCS#7 padding check and removal.
pub open spec fn cbc_decrypt_spec(rks: Seq<Seq<u8>>, iv: Seq<u8>, c: Seq<u8>) -> Result<Seq<u8>, CbcError> {
    if c.len() % 16 != 0 {
        Err(CbcError::InvalidLength)
    } else {
        let raw = cbc_decrypt_blocks(rks, iv, c);
        if valid_padding(raw) {
            Ok(pkcs7_unpad_spec(raw))
        } else {
            Err(CbcError::InvalidPadding)
        }
    }
}

/// `c` with block `i` XORed with the 16-byte mask `m`.
pub open spec fn flip_block(c: Seq<u8>, i: int, m: Seq<u8>) -> Seq<u8> {
    Seq::new(c.len(), |j: int| if j / 16 == i { c[j] ^ m[j % 16] } else { c[j] })
}

// ---------------------------------------------------------------------------
// Laws.
// ---------------------------------------------------------------------------

proof fn lemma_div16(i: int, k: int)
    requires
        0 <= i,
        0 <= k < 16,
    ensures
        (16 * i + k) / 16 == i,
        (16 * i + k) % 16 == k,
{
    assert((16 * i + k) / 16 == i && (16 * i + k) % 16 == k) by (nonlinear_arith)
        requires
            0 <= i,
            0 <= k < 16,
    ;
}

proof fn lemma_xor_cancel(x: u8, y: u8)
    ensures
        (x ^ y) ^ y == x,
{
    assert((x ^ y) ^ y == x) by (bit_vector);
}

proof fn lemma_xor_assoc(x: u8, y: u8, z: u8)
    ensures
        x ^ (y ^ z) == (x ^ y) ^ z,
{
    assert(x ^ (y ^ z) == (x ^ y) ^ z) by (bit_vector);
}

/// Blocks of a sequence built byte by byte from a function of the block index.
proof fn lemma_block_of_blocks(c: Seq<u8>, i: int, b: Seq<u8>)
    requires
        0 <= i,
        16 * i + 16 <= c.len(),
        b.len() == 16,
        forall|k: int| 0 <= k < 16 ==> c[16 * i + k] == #[trigger] b[k],
    ensures
        block_of(c, i) == b,
{
    assert(block_of(c, i) =~= b);
}

proof fn lemma_encrypt_block(rks: Seq<Seq<u8>>, iv: Seq<u8>, d: Seq<u8>, i: int)
    requires
        d.len() % 16 == 0,
        0 <= i < d.len() / 16,
    ensures
        block_of(cbc_encrypt_blocks(rks, iv, d), i) == cbc_chain(rks, iv, d, i as nat),
{
    let c = cbc_encrypt_blocks(rks, iv, d);
    lemma_cipher_len(rks, xor_block(block_of(d, i), if i == 0 { iv } else { cbc_chain(rks, iv, d, (i - 1) as nat) }));
    assert forall|k: int| 0 <= k < 16 implies c[16 * i + k] == #[trigger] cbc_chain(
        rks,
        iv,
        d,
        i as nat,
    )[k] by {
        lemma_div16(i, k);
    }
    lemma_block_of_blocks(c, i, cbc_chain(rks, iv, d, i as nat));
}

/// Padding then checking and removing the padding gives the data back.
pub proof fn lemma_pad_unpad(p: Seq<u8>)
    ensures
        pkcs7_pad_spec(p).len() % 16 == 0,
        pkcs7_pad_spec(p).len() == (p.len() / 16 + 1) * 16,
        valid_padding(pkcs7_pad_spec(p)),
        pkcs7_unpad_spec(pkcs7_pad_spec(p)) == p,
{
    let d = pkcs7_pad_spec(p);
    let n = pad_len(p.len());
    assert(d.last() == n as u8);
    assert(pkcs7_unpad_spec(d) =~= p);
}

proof fn lemma_decrypt_encrypted_byte(rks: Seq<Seq<u8>>, iv: Seq<u8>, d: Seq<u8>, j: int)
    requires
        valid_round_keys(rks),
        iv.len() == 16,
        d.len() % 16 == 0,
        0 <= j < d.len(),
    ensures
        cbc_decrypt_blocks(rks, iv, cbc_encrypt_blocks(rks, iv, d))[j] == d[j],
{
    let c = cbc_encrypt_blocks(rks, iv, d);
    let i = j / 16;
    let k = j % 16;
    assert(j == 16 * i + k);
    lemma_encrypt_block(rks, iv, d, i);
    if i > 0 {
        lemma_encrypt_block(rks, iv, d, i - 1);
    }
    let prev = chain_prev(iv, c, i);
    let x = xor_block(block_of(d, i), prev);
    assert(block_of(c, i) == cipher(rks, x));
    lemma_block_round_trip(rks, x);
    lemma_cipher_len(rks, block_of(c, i));
    lemma_xor_cancel(d[j], prev[k]);
}

/// CBC decryption undoes CBC encryption: for all round keys, IVs and
/// plaintexts of any length, decrypting the encryption gives the plaintext.
pub proof fn lemma_cbc_round_trip(rks: Seq<Seq<u8>>, iv: Seq<u8>, p: Seq<u8>)
    requires
        valid_round_keys(rks),
        iv.len() == 16,
    ensures
        cbc_decrypt_spec(rks, iv, cbc_encrypt_spec(rks, iv, p)) == Ok::<Seq<u8>, CbcError>(p),
{
    let d = pkcs7_pad_spec(p);
    lemma_pad_unpad(p);
    let raw = cbc_decrypt_blocks(rks, iv, cbc_encrypt_blocks(rks, iv, d));
    assert forall|j: int| 0 <= j < d.len() implies raw[j] == d[j] by {
        lemma_decrypt_encrypted_byte(rks, iv, d, j);
    }
    assert(raw =~= d);
}

/// Encrypting empty data yields exactly one block: the encryption of a full
/// padding block (sixteen bytes of value 16) chained to the IV.
pub proof fn lemma_empty_plaintext(rks: Seq<Seq<u8>>, iv: Seq<u8>)
    ensures
        cbc_encrypt_spec(rks, iv, Seq::empty()).len() == 16,
        cbc_encrypt_spec(rks, iv, Seq::empty()) == cipher(
            rks,
            xor_block(Seq::new(16, |k: int| 16u8), iv),
        ),
{
    let d = pkcs7_pad_spec(Seq::<u8>::empty());
    assert(block_of(d, 0) =~= Seq::new(16, |k: int| 16u8));
    lemma_encrypt_block(rks, iv, d, 0);
    assert(cbc_encrypt_spec(rks, iv, Seq::empty()) =~= block_of(cbc_encrypt_blocks(rks, iv, d), 0));
}

/// Flipping bits in ciphertext block `i` XORs the same bits into decrypted
/// block `i + 1` and leaves every block other than `i` and `i + 1` unchanged.
pub proof fn lemma_cbc_bit_flip(rks: Seq<Seq<u8>>, iv: Seq<u8>, c: Seq<u8>, i: int, m: Seq<u8>)
    requires
        c.len() % 16 == 0,
        0 <= i < c.len() / 16,
        m.len() == 16,
        iv.len() == 16,
    ensures
        i + 1 < c.len() / 16 ==> block_of(cbc_decrypt_blocks(rks, iv, flip_block(c, i, m)), i + 1)
            == xor_block(block_of(cbc_decrypt_blocks(rks, iv, c), i + 1), m),
        forall|j: int|
            0 <= j < c.len() / 16 && j != i && j != i + 1 ==> block_of(
                cbc_decrypt_blocks(rks, iv, flip_block(c, i, m)),
                j,
            ) == block_of(cbc_decrypt_blocks(rks, iv, c), j),
{
    let c2 = flip_block(c, i, m);
    let raw = cbc_decrypt_blocks(rks, iv, c);
    let raw2 = cbc_decrypt_blocks(rks, iv, c2);
    assert forall|j: int| 0 <= j < c.len() / 16 && j != i implies block_of(c2, j) == block_of(c, j) by {
        assert forall|t: int| 16 * j <= t < 16 * j + 16 implies c2[t] == c[t] by {
            lemma_div16(j, t - 16 * j);
        }
        assert(block_of(c2, j) =~= block_of(c, j));
    }
    assert(block_of(c2, i) =~= xor_block(block_of(c, i), m)) by {
        assert forall|t: int| 16 * i <= t < 16 * i + 16 implies c2[t] == c[t] ^ m[t - 16 * i] by {
            lemma_div16(i, t - 16 * i);
        }
    }
    if i + 1 < c.len() / 16 {
        let inv = inv_cipher(rks, block_of(c, i + 1));
        lemma_cipher_len(rks, block_of(c, i + 1));
        assert forall|t: int| 16 * (i + 1) <= t < 16 * (i + 1) + 16 implies raw2[t] == raw[t]
            ^ m[t - 16 * (i + 1)] by {
            let k = t - 16 * (i + 1);
            lemma_div16(i + 1, k);
            lemma_xor_assoc(inv[k], c[16 * i + k], m[k]);
        }
        assert(block_of(raw2, i + 1) =~= xor_block(block_of(raw, i + 1), m));
    }
    assert forall|j: int| 0 <= j < c.len() / 16 && j != i && j != i + 1 implies block_of(raw2, j)
        == block_of(raw, j) by {
        assert forall|t: int| 16 * j <= t < 16 * j + 16 implies raw2[t] == raw[t] by {
            lemma_div16(j, t - 16 * j);
        }
        assert(block_of(raw2, j) =~= block_of(raw, j));
    }
}

/// A non-zero flip of ciphertext block `i` always changes decrypted block `i`.
pub proof fn lemma_cbc_flip_changes_block(rks: Seq<Seq<u8>>, iv: Seq<u8>, c: Seq<u8>, i: int, m: Seq<u8>)
    requires
        valid_round_keys(rks),
        c.len() % 16 == 0,
        0 <= i < c.len() / 16,
        m.len() == 16,
        iv.len() == 16,
        m != Seq::new(16, |k: int| 0u8),
    ensures
        block_of(cbc_decrypt_blocks(rks, iv, flip_block(c, i, m)), i) != block_of(
            cbc_decrypt_blocks(rks, iv, c),
            i,
        ),
{
    let c2 = flip_block(c, i, m);
    let raw = cbc_decrypt_blocks(rks, iv, c);
    let raw2 = cbc_decrypt_blocks(rks, iv, c2);
    let b = block_of(c, i);
    let b2 = block_of(c2, i);
    assert(b2 =~= xor_block(b, m)) by {
        assert forall|t: int| 16 * i <= t < 16 * i + 16 implies c2[t] == c[t] ^ m[t - 16 * i] by {
            lemma_div16(i, t - 16 * i);
        }
    }
    let prev = chain_prev(iv, c, i);
    if i > 0 {
        assert(block_of(c2, i - 1) =~= block_of(c, i - 1)) by {
            assert forall|t: int| 16 * (i - 1) <= t < 16 * (i - 1) + 16 implies c2[t] == c[t] by {
                lemma_div16(i - 1, t - 16 * (i - 1));
            }
        }
    }
    let d = inv_cipher(rks, b);
    let d2 = inv_cipher(rks, b2);
    lemma_cipher_len(rks, b);
    lemma_cipher_len(rks, b2);
    if block_of(raw2, i) == block_of(raw, i) {
        assert forall|k: int| 0 <= k < 16 implies d2[k] == d[k] by {
            lemma_div16(i, k);
            assert(raw2[16 * i + k] == block_of(raw2, i)[k]);
            assert(raw[16 * i + k] == block_of(raw, i)[k]);
            lemma_xor_cancel(d2[k], prev[k]);
            lemma_xor_cancel(d[k], prev[k]);
        }
        assert(d2 =~= d);
        lemma_block_round_trip_inverse(rks, b);
        lemma_block_round_trip_inverse(rks, b2);
        assert forall|k: int| 0 <= k < 16 implies m[k] == 0u8 by {
            let x = b[k];
            let y = m[k];
            assert(b2[k] == b[k]);
            assert((x ^ y) == x ==> y == 0u8) by (bit_vector);
        }
        assert(m =~= Seq::new(16, |k: int| 0u8));
    }
}

/// The bit-flip law after padding removal: when the ciphertext has at least
/// two blocks after block `i`, flipping bits in block `i` leaves decryption
/// successful exactly when it was, keeps the plaintext length, XORs the same
/// bits into plaintext block `i + 1`, leaves every byte outside blocks `i` and
/// `i + 1` unchanged and, for a non-zero flip, changes plaintext block `i`.
pub proof fn lemma_cbc_bit_flip_plaintext(rks: Seq<Seq<u8>>, iv: Seq<u8>, c: Seq<u8>, i: int, m: Seq<u8>)
    requires
        valid_round_keys(rks),
        c.len() % 16 == 0,
        0 <= i,
        i + 2 < c.len() / 16,
        m.len() == 16,
        iv.len() == 16,
    ensures
        (cbc_decrypt_spec(rks, iv, flip_block(c, i, m)) is Ok) == (cbc_decrypt_spec(rks, iv, c) is Ok),
        cbc_decrypt_spec(rks, iv, c) matches Ok(p) ==> ({
            let flipped = cbc_decrypt_spec(rks, iv, flip_block(c, i, m))->Ok_0;
            &&& flipped.len() == p.len()
            &&& forall|q: int|
                0 <= q < p.len() && q / 16 != i && q / 16 != i + 1 ==> #[trigger] flipped[q] == p[q]
            &&& forall|k: int| 0 <= k < 16 ==> #[trigger] flipped[16 * (i + 1) + k] == p[16 * (i + 1) + k] ^ m[k]
            &&& (m != Seq::new(16, |k: int| 0u8) ==> flipped.subrange(16 * i, 16 * i + 16) != p.subrange(
                16 * i,
                16 * i + 16,
            ))
        }),
{
    let n = c.len() / 16;
    let c2 = flip_block(c, i, m);
    let raw = cbc_decrypt_blocks(rks, iv, c);
    let raw2 = cbc_decrypt_blocks(rks, iv, c2);
    lemma_cbc_bit_flip(rks, iv, c, i, m);
    let len = c.len() as int;
    assert(len == 16 * n);
    // Bytes outside blocks i and i + 1 agree.
    assert forall|q: int| 0 <= q < len && q / 16 != i && q / 16 != i + 1 implies #[trigger] raw2[q] == raw[q] by {
        let b = q / 16;
        assert(0 <= b < n);
        assert(block_of(raw2, b) == block_of(raw, b));
        assert(q == 16 * b + q % 16);
        assert(block_of(raw2, b)[q % 16] == raw2[q]);
        assert(block_of(raw, b)[q % 16] == raw[q]);
    }
    assert forall|k: int| 0 <= k < 16 implies #[trigger] raw2[16 * (i + 1) + k] == raw[16 * (i + 1) + k] ^ m[k] by {
        assert(block_of(raw2, i + 1)[k] == raw2[16 * (i + 1) + k]);
        assert(block_of(raw, i + 1)[k] == raw[16 * (i + 1) + k]);
    }
    // The last block, which holds the padding, is unchanged.
    assert forall|q: int| len - 16 <= q < len implies #[trigger] raw2[q] == raw[q] by {
        lemma_div16(n - 1, q - 16 * (n - 1));
    }
    assert(raw2.len() == len && raw.len() == len);
    if len > 0 {
        assert(raw2.last() == raw.last());
    }
    if len > 0 && 1 <= raw.last() <= 16 {
        assert forall|j: int| len - raw.last() <= j < len implies (raw2[j] == raw2.last() <==> raw[j]
            == raw.last()) by {
            assert(raw2[j] == raw[j]);
        }
    }
    assert(valid_padding(raw2) == valid_padding(raw));
    if valid_padding(raw) {
        let p = pkcs7_unpad_spec(raw);
        let flipped = pkcs7_unpad_spec(raw2);
        assert(p.len() >= 16 * (i + 2));
        assert forall|q: int| 0 <= q < p.len() && q / 16 != i && q / 16 != i + 1 implies #[trigger] flipped[q] == p[q] by {
            assert(raw2[q] == raw[q]);
        }
        assert forall|k: int| 0 <= k < 16 implies #[trigger] flipped[16 * (i + 1) + k] == p[16 * (i + 1) + k] ^ m[k] by {
            assert(raw2[16 * (i + 1) + k] == raw[16 * (i + 1) + k] ^ m[k]);
        }
        if m != Seq::new(16, |k: int| 0u8) {
            lemma_cbc_flip_changes_block(rks, iv, c, i, m);
            assert(flipped.subrange(16 * i, 16 * i + 16) == block_of(raw2, i));
            assert(p.subrange(16 * i, 16 * i + 16) == block_of(raw, i));
        }
    }
}

// ---------------------------------------------------------------------------
// The mode.
// ---------------------------------------------------------------------------

/// AES-128 in cipher-block-chaining mode with PKCS#7 padding, under a fixed key
/// and initialization vector.
pub struct Aes128Cbc {
    aes: Aes128,
    iv: [u8; 16],
}

impl Aes128Cbc {
    /// The round keys of the block cipher.
    pub closed spec fn round_keys(&self) -> Seq<Seq<u8>> {
        self.aes@
    }

    /// The initialization vector.
    pub closed spec fn iv(&self) -> Seq<u8> {
        self.iv@
    }

    pub open spec fn wf(&self) -> bool {
        &&& valid_round_keys(self.round_keys())
        &&& self.iv().len() == 16
    }

    /// Sets up the mode with the round keys of `key` and a copy of `iv`.
    pub fn new(key: &[u8; 16], iv: &[u8; 16]) -> (r: Self)
        ensures
            r.wf(),
            r.round_keys() == key_schedule(key@),
            r.iv() == iv@,
    {
        Aes128Cbc { aes: Aes128::new(key), iv: *iv }
    }

    /// Pads `plaintext` (PKCS#7, always at least one pad byte) and encrypts it
    /// block by block, each block XORed with the previous ciphertext block (the
    /// IV for the first).
    pub fn encrypt(&self, plaintext: &[u8]) -> (r: Vec<u8>)
        requires
            self.wf(),
            plaintext@.len() + 16 <= usize::MAX,
        ensures
            r@ == cbc_encrypt_spec(self.round_keys(), self.iv(), plaintext@),
            r@.len() == (plaintext@.len() / 16 + 1) * 16,
    {
        let padded = pkcs7_pad(plaintext);
        proof {
            lemma_pad_unpad(plaintext@);
        }
        let ghost rks = self.round_keys();
        let ghost iv = self.iv();
        let n = padded.len() / 16;
        let mut out: Vec<u8> = Vec::with_capacity(padded.len());
        let mut prev: [u8; 16] = self.iv;
        let mut i: usize = 0;
        while i < n
            invariant
                self.wf(),
                rks == self.round_keys(),
                iv == self.iv(),
                padded@.len() == 16 * n,
                16 * n <= usize::MAX,
                i <= n,
                out@.len() == 16 * i,
                prev@ == (if i == 0 { iv } else { cbc_chain(rks, iv, padded@, (i - 1) as nat) }),
                forall|j: int|
                    0 <= j < 16 * i ==> #[trigger] out@[j] == cbc_chain(
                        rks,
                        iv,
                        padded@,
                        (j / 16) as nat,
                    )[j % 16],
            decreases n - i,
        {
            let mut block: [u8; 16] = [0u8; 16];
            let mut k: usize = 0;
            while k < 16
                invariant
                    i < n,
                    padded@.len() == 16 * n,
                    16 * n <= usize::MAX,
                    k <= 16,
                    forall|t: int| 0 <= t < k ==> block@[t] == padded@[16 * i + t] ^ prev@[t],
                decreases 16 - k,
            {
                block[k] = padded[16 * i + k] ^ prev[k];
                k = k + 1;
            }
            assert(block@ =~= xor_block(block_of(padded@, i as int), prev@));
            let enc = self.aes.encrypt(&block);
            assert(enc@ == cbc_chain(rks, iv, padded@, i as nat));
            let ghost before = out@;
            append_block(&mut out, &enc);
            assert forall|j: int| 0 <= j < 16 * (i + 1) implies #[trigger] out@[j] == cbc_chain(
                rks,
                iv,
                padded@,
                (j / 16) as nat,
            )[j % 16] by {
                if j >= 16 * i {
                    lemma_div16(i as int, j - 16 * i);
                }
            }
            prev = enc;
            i = i + 1;
        }
        assert(out@ =~= cbc_encrypt_spec(rks, iv, plaintext@));
        out
    }

    /// Decrypts `ciphertext` block by block, checks the PKCS#7 padding and
    /// removes it. Fails with `InvalidLength` when the length is not a multiple
    /// of 16 (before any decryption) and with `InvalidPadding` when the
    /// decrypted data does not end in valid padding.
    pub fn decrypt(&self, ciphertext: &[u8]) -> (r: Result<Vec<u8>, CbcError>)
        requires
            self.wf(),
        ensures
            ciphertext@.len() % 16 != 0 <==> r == Err::<Vec<u8>, CbcError>(CbcError::InvalidLength),
            match r {
                Ok(v) => cbc_decrypt_spec(self.round_keys(), self.iv(), ciphertext@) == Ok::<
                    Seq<u8>,
                    CbcError,
                >(v@),
                Err(e) => cbc_decrypt_spec(self.round_keys(), self.iv(), ciphertext@) == Err::<
                    Seq<u8>,
                    CbcError,
                >(e),
            },
    {
        if ciphertext.len() % 16 != 0 {
            return Err(CbcError::InvalidLength);
        }
        let ghost rks = self.round_keys();
        let ghost iv = self.iv();
        let ghost c = ciphertext@;
        let n = ciphertext.len() / 16;
        let mut out: Vec<u8> = Vec::with_capacity(ciphertext.len());
        let mut prev: [u8; 16] = self.iv;
        let mut i: usize = 0;
        while i < n
            invariant
                self.wf(),
                rks == self.round_keys(),
                iv == self.iv(),
                c == ciphertext@,
                c.len() == 16 * n,
                16 * n <= usize::MAX,
                i <= n,
                out@.len() == 16 * i,
                prev@ == chain_prev(iv, c, i as int),
                forall|j: int|
                    0 <= j < 16 * i ==> #[trigger] out@[j] == cbc_decrypt_blocks(rks, iv, c)[j],
            decreases n - i,
        {
            let mut block: [u8; 16] = [0u8; 16];
            let mut k: usize = 0;
            while k < 16
                invariant
                    i < n,
                    c == ciphertext@,
                    c.len() == 16 * n,
                    16 * n <= usize::MAX,
                    k <= 16,
                    forall|t: int| 0 <= t < k ==> block@[t] == c[16 * i + t],
                decreases 16 - k,
            {
                block[k] = ciphertext[16 * i + k];
                k = k + 1;
            }
            assert(block@ =~= block_of(c, i as int));
            let dec = self.aes.decrypt(&block);
            let mut plain: [u8; 16] = [0u8; 16];
            let mut k: usize = 0;
            while k < 16
                invariant
                    k <= 16,
                    forall|t: int| 0 <= t < k ==> plain@[t] == dec@[t] ^ prev@[t],
                decreases 16 - k,
            {
                plain[k] = dec[k] ^ prev[k];
                k = k + 1;
            }
            append_block(&mut out, &plain);
            assert forall|j: int| 0 <= j < 16 * (i + 1) implies #[trigger] out@[j]
                == cbc_decrypt_blocks(rks, iv, c)[j] by {
                if j >= 16 * i {
                    lemma_div16(i as int, j - 16 * i);
                }
            }
            prev = block;
            assert(prev@ == chain_prev(iv, c, i + 1));
            i = i + 1;
        }
        assert(out@ =~= cbc_decrypt_blocks(rks, iv, c));
        pkcs7_unpad(&out)
    }
}

/// Appends the 16 bytes of `b` to `out`.
fn append_block(out: &mut Vec<u8>, b: &[u8; 16])
    requires
        old(out)@.len() + 16 <= usize::MAX,
    ensures
        final(out)@ == old(out)@ + b@,
{
    let mut k: usize = 0;
    while k < 16
        invariant
            k <= 16,
            old(out)@.len() + 16 <= usize::MAX,
            out@ == old(out)@ + b@.take(k as int),
        decreases 16 - k,
    {
        out.push(b[k]);
        k = k + 1;
        assert(out@ =~= old(out)@ + b@.take(k as int));
    }
    assert(b@.take(16) =~= b@);
}

/// `data` followed by its PKCS#7 padding.
fn pkcs7_pad(data: &[u8]) -> (r: Vec<u8>)
    requires
        data@.len() + 16 <= usize::MAX,
    ensures
        r@ == pkcs7_pad_spec(data@),
{
    let pad = 16 - data.len() % 16;
    let mut out: Vec<u8> = Vec::with_capacity(data.len() + pad);
    let mut k: usize = 0;
    while k < data.len()
        invariant
            k <= data@.len(),
            out@ == data@.take(k as int),
        decreases data@.len() - k,
    {
        out.push(data[k]);
        k = k + 1;
        assert(out@ =~= data@.take(k as int));
    }
    let mut k: usize = 0;
    while k < pad
        invariant
            pad == pad_len(data@.len()),
            k <= pad,
            out@ == data@ + Seq::new(k as nat, |t: int| pad as u8),
        decreases pad - k,
    {
        out.push(pad as u8);
        k = k + 1;
        assert(out@ =~= data@ + Seq::new(k as nat, |t: int| pad as u8));
    }
    out
}

/// Checks the PKCS#7 padding at the end of `data` and removes it.
fn pkcs7_unpad(data: &Vec<u8>) -> (r: Result<Vec<u8>, CbcError>)
    ensures
        valid_padding(data@) ==> r == Ok::<Vec<u8>, CbcError>(r->Ok_0) && r->Ok_0@ == pkcs7_unpad_spec(data@),
        !valid_padding(data@) ==> r == Err::<Vec<u8>, CbcError>(CbcError::InvalidPadding),
{
    let len = data.len();
    if len == 0 {
        return Err(CbcError::InvalidPadding);
    }
    let last = data[len - 1];
    if last < 1 || last > 16 || last as usize > len {
        return Err(CbcError::InvalidPadding);
    }
    let pad = last as usize;
    let mut j: usize = len - pad;
    while j < len
        invariant
            len == data@.len(),
            pad == data@.last(),
            last == data@.last(),
            len - pad <= j <= len,
            forall|t: int| len - pad <= t < j ==> data@[t] == last,
        decreases len - j,
    {
        if data[j] != last {
            assert(data@[j as int] != data@.last());
            return Err(CbcError::InvalidPadding);
        }
        j = j + 1;
    }
    let mut out: Vec<u8> = Vec::with_capacity(len - pad);
    let mut k: usize = 0;
    while k < len - pad
        invariant
            len == data@.len(),
            pad <= len,
            k <= len - pad,
            out@ == data@.take(k as int),
        decreases len - pad - k,
    {
        out.push(data[k]);
        k = k + 1;
        assert(out@ =~= data@.take(k as int));
    }
    Ok(out)
}

} // verus!

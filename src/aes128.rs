use vstd::prelude::*;

use crate::gf::{gmul, inv_mix_column, lemma_inv_mix_column, lemma_mix_inv_column, mix_column};
use crate::sbox::{
    inv_sbox, inv_sub_byte, lemma_inv_sbox, rcon, round_constant, sbox, sub_byte,
};

verus! {

// ---------------------------------------------------------------------------
// Mathematical model. A block or state is a sequence of 16 bytes in which byte
// `i` sits at row `i % 4` and column `i / 4` of the 4x4 AES state.
// ---------------------------------------------------------------------------

/// One-byte left rotation of a 4-byte key word.
pub open spec fn rot_word_spec(w: Seq<u8>) -> Seq<u8> {
    seq![w[1], w[2], w[3], w[0]]
}

/// The forward S-box applied to each byte of a 4-byte key word.
pub open spec fn sub_word_spec(w: Seq<u8>) -> Seq<u8> {
    seq![sbox(w[0]), sbox(w[1]), sbox(w[2]), sbox(w[3])]
}

/// Byte-wise XOR of two 4-byte words.
pub open spec fn xor_word(a: Seq<u8>, b: Seq<u8>) -> Seq<u8> {
    seq![a[0] ^ b[0], a[1] ^ b[1], a[2] ^ b[2], a[3] ^ b[3]]
}

/// Word `i` (big-endian, as 4 bytes) of the expanded AES-128 key.
pub open spec fn key_word(key: Seq<u8>, i: nat) -> Seq<u8>
    decreases i,
{
    if i < 4 {
        key.subrange(4 * i as int, 4 * i as int + 4)
    } else {
        let prev = key_word(key, (i - 1) as nat);
        let temp = if i % 4 == 0 {
            let s = sub_word_spec(rot_word_spec(prev));
            seq![s[0] ^ rcon(i / 4 - 1), s[1], s[2], s[3]]
        } else {
            prev
        };
        xor_word(key_word(key, (i - 4) as nat), temp)
    }
}

/// Round key `r`: the expanded key words `4r .. 4r + 4`, laid out column by column.
pub open spec fn round_key(key: Seq<u8>, r: nat) -> Seq<u8> {
    key_word(key, 4 * r) + key_word(key, 4 * r + 1) + key_word(key, 4 * r + 2) + key_word(
        key,
        4 * r + 3,
    )
}

/// The eleven round keys derived from a 16-byte key.
pub open spec fn key_schedule(key: Seq<u8>) -> Seq<Seq<u8>> {
    Seq::new(11, |r: int| round_key(key, r as nat))
}

/// A sequence of eleven 16-byte round keys.
pub open spec fn valid_round_keys(rks: Seq<Seq<u8>>) -> bool {
    rks.len() == 11 && forall|r: int| 0 <= r < 11 ==> (#[trigger] rks[r]).len() == 16
}

/// SubBytes: every byte through the forward S-box.
pub open spec fn sub_bytes_spec(s: Seq<u8>) -> Seq<u8> {
    Seq::new(16, |i: int| sbox(s[i]))
}

/// InvSubBytes: every byte through the inverse S-box.
pub open spec fn inv_sub_bytes_spec(s: Seq<u8>) -> Seq<u8> {
    Seq::new(16, |i: int| inv_sbox(s[i]))
}

/// ShiftRows: row `r` rotated left by `r` positions.
pub open spec fn shift_rows_spec(s: Seq<u8>) -> Seq<u8> {
    Seq::new(16, |i: int| s[4 * ((i / 4 + i % 4) % 4) + i % 4])
}

/// InvShiftRows: row `r` rotated right by `r` positions.
pub open spec fn inv_shift_rows_spec(s: Seq<u8>) -> Seq<u8> {
    Seq::new(16, |i: int| s[4 * ((i / 4 + 4 - i % 4) % 4) + i % 4])
}

/// Component `r` of a column.
pub open spec fn pick(t: (u8, u8, u8, u8), r: int) -> u8 {
    if r == 0 {
        t.0
    } else if r == 1 {
        t.1
    } else if r == 2 {
        t.2
    } else {
        t.3
    }
}

/// MixColumns: each column multiplied by the circulant matrix (2 3 1 1).
pub open spec fn mix_columns_spec(s: Seq<u8>) -> Seq<u8> {
    Seq::new(
        16,
        |i: int|
            {
                let c = 4 * (i / 4);
                pick(mix_column(s[c], s[c + 1], s[c + 2], s[c + 3]), i % 4)
            },
    )
}

/// InvMixColumns: each column multiplied by the circulant matrix (14 11 13 9).
pub open spec fn inv_mix_columns_spec(s: Seq<u8>) -> Seq<u8> {
    Seq::new(
        16,
        |i: int|
            {
                let c = 4 * (i / 4);
                pick(inv_mix_column(s[c], s[c + 1], s[c + 2], s[c + 3]), i % 4)
            },
    )
}

/// AddRoundKey: byte-wise XOR with a round key.
pub open spec fn add_round_key_spec(s: Seq<u8>, k: Seq<u8>) -> Seq<u8> {
    Seq::new(16, |i: int| s[i] ^ k[i])
}

/// One inner encryption round.
pub open spec fn enc_round(s: Seq<u8>, k: Seq<u8>) -> Seq<u8> {
    add_round_key_spec(mix_columns_spec(shift_rows_spec(sub_bytes_spec(s))), k)
}

/// The last encryption round, without MixColumns.
pub open spec fn enc_final(s: Seq<u8>, k: Seq<u8>) -> Seq<u8> {
    add_round_key_spec(shift_rows_spec(sub_bytes_spec(s)), k)
}

/// One inner decryption round.
pub open spec fn dec_round(s: Seq<u8>, k: Seq<u8>) -> Seq<u8> {
    inv_sub_bytes_spec(inv_shift_rows_spec(inv_mix_columns_spec(add_round_key_spec(s, k))))
}

/// The first decryption round, undoing the last encryption round.
pub open spec fn dec_first(s: Seq<u8>, k: Seq<u8>) -> Seq<u8> {
    inv_sub_bytes_spec(inv_shift_rows_spec(add_round_key_spec(s, k)))
}

/// Inner encryption rounds `1 ..= n` applied in ascending order.
pub open spec fn enc_rounds(rks: Seq<Seq<u8>>, s: Seq<u8>, n: nat) -> Seq<u8>
    decreases n,
{
    if n == 0 {
        s
    } else {
        enc_round(enc_rounds(rks, s, (n - 1) as nat), rks[n as int])
    }
}

/// Inner decryption rounds `n ..= 1` applied in descending order.
pub open spec fn dec_rounds(rks: Seq<Seq<u8>>, s: Seq<u8>, n: nat) -> Seq<u8>
    decreases n,
{
    if n == 0 {
        s
    } else {
        dec_rounds(rks, dec_round(s, rks[n as int]), (n - 1) as nat)
    }
}

/// AES-128 encryption of one block under the given round keys.
#[verifier::opaque]
pub open spec fn cipher(rks: Seq<Seq<u8>>, b: Seq<u8>) -> Seq<u8> {
    enc_final(enc_rounds(rks, add_round_key_spec(b, rks[0]), 9), rks[10])
}

/// AES-128 decryption of one block under the given round keys.
#[verifier::opaque]
pub open spec fn inv_cipher(rks: Seq<Seq<u8>>, c: Seq<u8>) -> Seq<u8> {
    add_round_key_spec(dec_rounds(rks, dec_first(c, rks[10]), 9), rks[0])
}

// ---------------------------------------------------------------------------
// Inverse properties of the round operations.
// ---------------------------------------------------------------------------

proof fn lemma_inv_add_round_key(s: Seq<u8>, k: Seq<u8>)
    requires
        s.len() == 16,
        k.len() == 16,
    ensures
        add_round_key_spec(add_round_key_spec(s, k), k) == s,
{
    assert forall|i: int| 0 <= i < 16 implies add_round_key_spec(add_round_key_spec(s, k), k)[i]
        == s[i] by {
        let x = s[i];
        let y = k[i];
        assert((x ^ y) ^ y == x) by (bit_vector);
    }
    assert(add_round_key_spec(add_round_key_spec(s, k), k) =~= s);
}

proof fn lemma_inv_sub_bytes(s: Seq<u8>)
    requires
        s.len() == 16,
    ensures
        inv_sub_bytes_spec(sub_bytes_spec(s)) == s,
{
    assert forall|i: int| 0 <= i < 16 implies inv_sub_bytes_spec(sub_bytes_spec(s))[i] == s[i] by {
        lemma_inv_sbox(s[i]);
    }
    assert(inv_sub_bytes_spec(sub_bytes_spec(s)) =~= s);
}

proof fn lemma_inv_shift_rows(s: Seq<u8>)
    requires
        s.len() == 16,
    ensures
        inv_shift_rows_spec(shift_rows_spec(s)) == s,
{
    assert(inv_shift_rows_spec(shift_rows_spec(s)) =~= s);
}

proof fn lemma_inv_mix_columns(s: Seq<u8>)
    requires
        s.len() == 16,
    ensures
        inv_mix_columns_spec(mix_columns_spec(s)) == s,
{
    assert forall|i: int| 0 <= i < 16 implies inv_mix_columns_spec(mix_columns_spec(s))[i]
        == s[i] by {
        let c = 4 * (i / 4);
        lemma_inv_mix_column(s[c], s[c + 1], s[c + 2], s[c + 3]);
    }
    assert(inv_mix_columns_spec(mix_columns_spec(s)) =~= s);
}

proof fn lemma_enc_rounds_len(rks: Seq<Seq<u8>>, s: Seq<u8>, n: nat)
    requires
        s.len() == 16,
    ensures
        enc_rounds(rks, s, n).len() == 16,
    decreases n,
{
    if n > 0 {
        lemma_enc_rounds_len(rks, s, (n - 1) as nat);
    }
}

proof fn lemma_dec_enc_rounds(rks: Seq<Seq<u8>>, s: Seq<u8>, n: nat)
    requires
        valid_round_keys(rks),
        s.len() == 16,
        n <= 10,
    ensures
        dec_rounds(rks, enc_rounds(rks, s, n), n) == s,
    decreases n,
{
    if n > 0 {
        let prev = enc_rounds(rks, s, (n - 1) as nat);
        let k = rks[n as int];
        lemma_enc_rounds_len(rks, s, (n - 1) as nat);
        lemma_inv_sub_bytes(prev);
        lemma_inv_shift_rows(sub_bytes_spec(prev));
        lemma_inv_mix_columns(shift_rows_spec(sub_bytes_spec(prev)));
        lemma_inv_add_round_key(mix_columns_spec(shift_rows_spec(sub_bytes_spec(prev))), k);
        assert(dec_round(enc_round(prev, k), k) == prev);
        lemma_dec_enc_rounds(rks, s, (n - 1) as nat);
    }
}

/// Decryption undoes encryption: for any valid round keys and any 16-byte block,
/// decrypting the encryption of the block gives the block back.
pub proof fn lemma_block_round_trip(rks: Seq<Seq<u8>>, b: Seq<u8>)
    requires
        valid_round_keys(rks),
        b.len() == 16,
    ensures
        inv_cipher(rks, cipher(rks, b)) == b,
{
    reveal(cipher);
    reveal(inv_cipher);
    let x = add_round_key_spec(b, rks[0]);
    let m = enc_rounds(rks, x, 9);
    lemma_enc_rounds_len(rks, x, 9);
    lemma_inv_sub_bytes(m);
    lemma_inv_shift_rows(sub_bytes_spec(m));
    lemma_inv_add_round_key(shift_rows_spec(sub_bytes_spec(m)), rks[10]);
    assert(dec_first(enc_final(m, rks[10]), rks[10]) == m);
    lemma_dec_enc_rounds(rks, x, 9);
    lemma_inv_add_round_key(b, rks[0]);
}

/// The key schedule always yields eleven round keys, and round key 0 is the key itself.
pub proof fn lemma_key_schedule(key: Seq<u8>)
    requires
        key.len() == 16,
    ensures
        key_schedule(key).len() == 11,
        valid_round_keys(key_schedule(key)),
        key_schedule(key)[0] == key,
{
    assert(key_schedule(key)[0] =~= key);
}

proof fn lemma_sub_inv_bytes(s: Seq<u8>)
    requires
        s.len() == 16,
    ensures
        sub_bytes_spec(inv_sub_bytes_spec(s)) == s,
{
    assert forall|i: int| 0 <= i < 16 implies sub_bytes_spec(inv_sub_bytes_spec(s))[i] == s[i] by {
        lemma_inv_sbox(s[i]);
    }
    assert(sub_bytes_spec(inv_sub_bytes_spec(s)) =~= s);
}

proof fn lemma_shift_inv_rows(s: Seq<u8>)
    requires
        s.len() == 16,
    ensures
        shift_rows_spec(inv_shift_rows_spec(s)) == s,
{
    assert(shift_rows_spec(inv_shift_rows_spec(s)) =~= s);
}

proof fn lemma_mix_inv_columns(s: Seq<u8>)
    requires
        s.len() == 16,
    ensures
        mix_columns_spec(inv_mix_columns_spec(s)) == s,
{
    assert forall|i: int| 0 <= i < 16 implies mix_columns_spec(inv_mix_columns_spec(s))[i]
        == s[i] by {
        let c = 4 * (i / 4);
        lemma_mix_inv_column(s[c], s[c + 1], s[c + 2], s[c + 3]);
    }
    assert(mix_columns_spec(inv_mix_columns_spec(s)) =~= s);
}

proof fn lemma_dec_rounds_len(rks: Seq<Seq<u8>>, s: Seq<u8>, n: nat)
    requires
        s.len() == 16,
    ensures
        dec_rounds(rks, s, n).len() == 16,
    decreases n,
{
    if n > 0 {
        lemma_dec_rounds_len(rks, dec_round(s, rks[n as int]), (n - 1) as nat);
    }
}

proof fn lemma_enc_dec_rounds(rks: Seq<Seq<u8>>, s: Seq<u8>, n: nat)
    requires
        valid_round_keys(rks),
        s.len() == 16,
        n <= 10,
    ensures
        enc_rounds(rks, dec_rounds(rks, s, n), n) == s,
    decreases n,
{
    if n > 0 {
        let k = rks[n as int];
        let x = add_round_key_spec(s, k);
        lemma_inv_add_round_key(s, k);
        lemma_mix_inv_columns(x);
        lemma_shift_inv_rows(inv_mix_columns_spec(x));
        lemma_sub_inv_bytes(inv_shift_rows_spec(inv_mix_columns_spec(x)));
        assert(enc_round(dec_round(s, k), k) == s);
        lemma_enc_dec_rounds(rks, dec_round(s, k), (n - 1) as nat);
    }
}

/// Encryption undoes decryption: for any valid round keys and any 16-byte
/// block, encrypting the decryption of the block gives the block back. With
/// the converse this makes block encryption a bijection on 16-byte blocks.
pub proof fn lemma_block_round_trip_inverse(rks: Seq<Seq<u8>>, c: Seq<u8>)
    requires
        valid_round_keys(rks),
        c.len() == 16,
    ensures
        cipher(rks, inv_cipher(rks, c)) == c,
{
    reveal(cipher);
    reveal(inv_cipher);
    let k10 = rks[10];
    let x = add_round_key_spec(c, k10);
    let d0 = dec_first(c, k10);
    lemma_inv_add_round_key(c, k10);
    lemma_shift_inv_rows(x);
    lemma_sub_inv_bytes(inv_shift_rows_spec(x));
    assert(enc_final(d0, k10) == c);
    let m = dec_rounds(rks, d0, 9);
    lemma_dec_rounds_len(rks, d0, 9);
    lemma_inv_add_round_key(m, rks[0]);
    lemma_enc_dec_rounds(rks, d0, 9);
}

/// Encryption and decryption of a block give 16 bytes.
pub proof fn lemma_cipher_len(rks: Seq<Seq<u8>>, b: Seq<u8>)
    ensures
        cipher(rks, b).len() == 16,
        inv_cipher(rks, b).len() == 16,
{
    reveal(cipher);
    reveal(inv_cipher);
}

/// Block encryption is injective for fixed round keys: distinct blocks never
/// share a ciphertext.
pub proof fn lemma_block_injective(rks: Seq<Seq<u8>>, b1: Seq<u8>, b2: Seq<u8>)
    requires
        valid_round_keys(rks),
        b1.len() == 16,
        b2.len() == 16,
        cipher(rks, b1) == cipher(rks, b2),
    ensures
        b1 == b2,
{
    lemma_block_round_trip(rks, b1);
    lemma_block_round_trip(rks, b2);
}

// ---------------------------------------------------------------------------
// The cipher.
// ---------------------------------------------------------------------------

/// An AES-128 block cipher: the eleven round keys expanded from one 16-byte key.
pub struct Aes128 {
    round_keys: Vec<[u8; 16]>,
}

impl View for Aes128 {
    type V = Seq<Seq<u8>>;

    closed spec fn view(&self) -> Seq<Seq<u8>> {
        self.round_keys@.map_values(|k: [u8; 16]| k@)
    }
}

impl Aes128 {
    /// The round keys are eleven 16-byte keys.
    pub open spec fn wf(&self) -> bool {
        valid_round_keys(self@)
    }

    /// Expands `key` into the cipher's round keys.
    pub fn new(key: &[u8; 16]) -> (r: Self)
        ensures
            r.wf(),
            r@ == key_schedule(key@),
    {
        let round_keys = Self::key_expansion(key);
        let r = Aes128 { round_keys };
        assert(r@ =~= key_schedule(key@));
        r
    }

    fn key_expansion(key: &[u8; 16]) -> (r: Vec<[u8; 16]>)
        ensures
            r@.len() == 11,
            forall|i: int| 0 <= i < 11 ==> (#[trigger] r@[i])@ == round_key(key@, i as nat),
            r@[0]@ == key@,
    {
        proof {
            lemma_key_schedule(key@);
        }
        let mut w: Vec<[u8; 4]> = Vec::with_capacity(44);
        let mut i: usize = 0;
        while i < 4
            invariant
                i <= 4,
                w@.len() == i,
                forall|j: int| 0 <= j < i ==> (#[trigger] w@[j])@ == key_word(key@, j as nat),
            decreases 4 - i,
        {
            let word: [u8; 4] = [key[4 * i], key[4 * i + 1], key[4 * i + 2], key[4 * i + 3]];
            assert(word@ =~= key_word(key@, i as nat));
            w.push(word);
            i = i + 1;
        }
        while i < 44
            invariant
                4 <= i <= 44,
                w@.len() == i,
                forall|j: int| 0 <= j < i ==> (#[trigger] w@[j])@ == key_word(key@, j as nat),
            decreases 44 - i,
        {
            let prev = w[i - 1];
            let temp: [u8; 4] = if i % 4 == 0 {
                let s = Self::sub_word(Self::rot_word(prev));
                [s[0] ^ round_constant(i / 4 - 1), s[1], s[2], s[3]]
            } else {
                prev
            };
            let back = w[i - 4];
            let word: [u8; 4] = [
                back[0] ^ temp[0],
                back[1] ^ temp[1],
                back[2] ^ temp[2],
                back[3] ^ temp[3],
            ];
            assert(word@ =~= key_word(key@, i as nat));
            w.push(word);
            i = i + 1;
        }
        let mut round_keys: Vec<[u8; 16]> = Vec::with_capacity(11);
        let mut r: usize = 0;
        while r < 11
            invariant
                r <= 11,
                w@.len() == 44,
                forall|j: int| 0 <= j < 44 ==> (#[trigger] w@[j])@ == key_word(key@, j as nat),
                round_keys@.len() == r,
                forall|j: int|
                    0 <= j < r ==> (#[trigger] round_keys@[j])@ == round_key(key@, j as nat),
            decreases 11 - r,
        {
            let a = w[4 * r];
            let b = w[4 * r + 1];
            let c = w[4 * r + 2];
            let d = w[4 * r + 3];
            let rk: [u8; 16] = [
                a[0], a[1], a[2], a[3],
                b[0], b[1], b[2], b[3],
                c[0], c[1], c[2], c[3],
                d[0], d[1], d[2], d[3],
            ];
            assert(rk@ =~= round_key(key@, r as nat));
            round_keys.push(rk);
            r = r + 1;
        }
        round_keys
    }

    fn sub_word(word: [u8; 4]) -> (r: [u8; 4])
        ensures
            r@ == sub_word_spec(word@),
    {
        let r: [u8; 4] = [
            sub_byte(word[0]),
            sub_byte(word[1]),
            sub_byte(word[2]),
            sub_byte(word[3]),
        ];
        assert(r@ =~= sub_word_spec(word@));
        r
    }

    fn rot_word(word: [u8; 4]) -> (r: [u8; 4])
        ensures
            r@ == rot_word_spec(word@),
    {
        let r: [u8; 4] = [word[1], word[2], word[3], word[0]];
        assert(r@ =~= rot_word_spec(word@));
        r
    }

    /// Encrypts one 16-byte block.
    pub fn encrypt(&self, input: &[u8; 16]) -> (r: [u8; 16])
        requires
            self.wf(),
        ensures
            r@ == cipher(self@, input@),
    {
        let mut state: [u8; 16] = *input;
        Self::add_round_key(&mut state, &self.round_keys[0]);
        let ghost start = state@;
        let mut round: usize = 1;
        while round < 10
            invariant
                1 <= round <= 10,
                self.wf(),
                start == add_round_key_spec(input@, self@[0]),
                state@ == enc_rounds(self@, start, (round - 1) as nat),
            decreases 10 - round,
        {
            Self::sub_bytes(&mut state);
            Self::shift_rows(&mut state);
            Self::mix_columns(&mut state);
            Self::add_round_key(&mut state, &self.round_keys[round]);
            round = round + 1;
        }
        Self::sub_bytes(&mut state);
        Self::shift_rows(&mut state);
        Self::add_round_key(&mut state, &self.round_keys[10]);
        proof {
            reveal(cipher);
        }
        state
    }

    /// Decrypts one 16-byte block.
    pub fn decrypt(&self, input: &[u8; 16]) -> (r: [u8; 16])
        requires
            self.wf(),
        ensures
            r@ == inv_cipher(self@, input@),
    {
        let mut state: [u8; 16] = *input;
        Self::add_round_key(&mut state, &self.round_keys[10]);
        Self::inv_shift_rows(&mut state);
        Self::inv_sub_bytes(&mut state);
        let ghost start = state@;
        let mut round: usize = 9;
        while round > 0
            invariant
                round <= 9,
                self.wf(),
                start == dec_first(input@, self@[10]),
                dec_rounds(self@, state@, round as nat) == dec_rounds(self@, start, 9),
            decreases round,
        {
            Self::add_round_key(&mut state, &self.round_keys[round]);
            Self::inv_mix_columns(&mut state);
            Self::inv_shift_rows(&mut state);
            Self::inv_sub_bytes(&mut state);
            round = round - 1;
        }
        Self::add_round_key(&mut state, &self.round_keys[0]);
        proof {
            reveal(inv_cipher);
        }
        state
    }

    fn sub_bytes(state: &mut [u8; 16])
        ensures
            final(state)@ == sub_bytes_spec(old(state)@),
    {
        let mut i: usize = 0;
        while i < 16
            invariant
                i <= 16,
                forall|j: int| 0 <= j < i ==> state@[j] == sbox(old(state)@[j]),
                forall|j: int| i <= j < 16 ==> state@[j] == old(state)@[j],
            decreases 16 - i,
        {
            state[i] = sub_byte(state[i]);
            i = i + 1;
        }
        assert(state@ =~= sub_bytes_spec(old(state)@));
    }

    fn inv_sub_bytes(state: &mut [u8; 16])
        ensures
            final(state)@ == inv_sub_bytes_spec(old(state)@),
    {
        let mut i: usize = 0;
        while i < 16
            invariant
                i <= 16,
                forall|j: int| 0 <= j < i ==> state@[j] == inv_sbox(old(state)@[j]),
                forall|j: int| i <= j < 16 ==> state@[j] == old(state)@[j],
            decreases 16 - i,
        {
            state[i] = inv_sub_byte(state[i]);
            i = i + 1;
        }
        assert(state@ =~= inv_sub_bytes_spec(old(state)@));
    }

    fn shift_rows(state: &mut [u8; 16])
        ensures
            final(state)@ == shift_rows_spec(old(state)@),
    {
        let s: [u8; 16] = *state;
        let mut i: usize = 0;
        while i < 16
            invariant
                i <= 16,
                s@ == old(state)@,
                forall|j: int| 0 <= j < i ==> state@[j] == shift_rows_spec(s@)[j],
            decreases 16 - i,
        {
            state[i] = s[4 * ((i / 4 + i % 4) % 4) + i % 4];
            i = i + 1;
        }
        assert(state@ =~= shift_rows_spec(old(state)@));
    }

    fn inv_shift_rows(state: &mut [u8; 16])
        ensures
            final(state)@ == inv_shift_rows_spec(old(state)@),
    {
        let s: [u8; 16] = *state;
        let mut i: usize = 0;
        while i < 16
            invariant
                i <= 16,
                s@ == old(state)@,
                forall|j: int| 0 <= j < i ==> state@[j] == inv_shift_rows_spec(s@)[j],
            decreases 16 - i,
        {
            state[i] = s[4 * ((i / 4 + 4 - i % 4) % 4) + i % 4];
            i = i + 1;
        }
        assert(state@ =~= inv_shift_rows_spec(old(state)@));
    }

    #[verifier::rlimit(40)]
    fn mix_columns(state: &mut [u8; 16])
        ensures
            final(state)@ == mix_columns_spec(old(state)@),
    {
        let ghost s = state@;
        let mut c: usize = 0;
        while c < 4
            invariant
                c <= 4,
                s == old(state)@,
                forall|j: int| 0 <= j < 4 * c ==> state@[j] == mix_columns_spec(s)[j],
                forall|j: int| 4 * c <= j < 16 ==> state@[j] == s[j],
            decreases 4 - c,
        {
            let a = state[4 * c];
            let b = state[4 * c + 1];
            let x = state[4 * c + 2];
            let d = state[4 * c + 3];
            state[4 * c] = gmul(0x02, a) ^ gmul(0x03, b) ^ x ^ d;
            state[4 * c + 1] = a ^ gmul(0x02, b) ^ gmul(0x03, x) ^ d;
            state[4 * c + 2] = a ^ b ^ gmul(0x02, x) ^ gmul(0x03, d);
            state[4 * c + 3] = gmul(0x03, a) ^ b ^ x ^ gmul(0x02, d);
            proof {
                reveal(mix_column);
                let b = 4 * c as int;
                assert(b / 4 == c && (b + 1) / 4 == c && (b + 2) / 4 == c && (b + 3) / 4 == c);
                assert(b % 4 == 0 && (b + 1) % 4 == 1 && (b + 2) % 4 == 2 && (b + 3) % 4 == 3);
                assert(state@[b] == mix_columns_spec(s)[b]);
                assert(state@[b + 1] == mix_columns_spec(s)[b + 1]);
                assert(state@[b + 2] == mix_columns_spec(s)[b + 2]);
                assert(state@[b + 3] == mix_columns_spec(s)[b + 3]);
            }
            c = c + 1;
        }
        assert(state@ =~= mix_columns_spec(old(state)@));
    }

    #[verifier::rlimit(40)]
    fn inv_mix_columns(state: &mut [u8; 16])
        ensures
            final(state)@ == inv_mix_columns_spec(old(state)@),
    {
        let ghost s = state@;
        let mut c: usize = 0;
        while c < 4
            invariant
                c <= 4,
                s == old(state)@,
                forall|j: int| 0 <= j < 4 * c ==> state@[j] == inv_mix_columns_spec(s)[j],
                forall|j: int| 4 * c <= j < 16 ==> state@[j] == s[j],
            decreases 4 - c,
        {
            let a = state[4 * c];
            let b = state[4 * c + 1];
            let x = state[4 * c + 2];
            let d = state[4 * c + 3];
            state[4 * c] = gmul(0x0e, a) ^ gmul(0x0b, b) ^ gmul(0x0d, x) ^ gmul(0x09, d);
            state[4 * c + 1] = gmul(0x09, a) ^ gmul(0x0e, b) ^ gmul(0x0b, x) ^ gmul(0x0d, d);
            state[4 * c + 2] = gmul(0x0d, a) ^ gmul(0x09, b) ^ gmul(0x0e, x) ^ gmul(0x0b, d);
            state[4 * c + 3] = gmul(0x0b, a) ^ gmul(0x0d, b) ^ gmul(0x09, x) ^ gmul(0x0e, d);
            proof {
                reveal(inv_mix_column);
                let b = 4 * c as int;
                assert(b / 4 == c && (b + 1) / 4 == c && (b + 2) / 4 == c && (b + 3) / 4 == c);
                assert(b % 4 == 0 && (b + 1) % 4 == 1 && (b + 2) % 4 == 2 && (b + 3) % 4 == 3);
                assert(state@[b] == inv_mix_columns_spec(s)[b]);
                assert(state@[b + 1] == inv_mix_columns_spec(s)[b + 1]);
                assert(state@[b + 2] == inv_mix_columns_spec(s)[b + 2]);
                assert(state@[b + 3] == inv_mix_columns_spec(s)[b + 3]);
            }
            c = c + 1;
        }
        assert(state@ =~= inv_mix_columns_spec(old(state)@));
    }

    fn add_round_key(state: &mut [u8; 16], round_key: &[u8; 16])
        ensures
            final(state)@ == add_round_key_spec(old(state)@, round_key@),
    {
        let mut i: usize = 0;
        while i < 16
            invariant
                i <= 16,
                forall|j: int| 0 <= j < i ==> state@[j] == old(state)@[j] ^ round_key@[j],
                forall|j: int| i <= j < 16 ==> state@[j] == old(state)@[j],
            decreases 16 - i,
        {
            state[i] = state[i] ^ round_key[i];
            i = i + 1;
        }
        assert(state@ =~= add_round_key_spec(old(state)@, round_key@));
    }
}

} // verus!

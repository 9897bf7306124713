use vstd::prelude::*;

verus! {

/// Multiplication by `x` in GF(2^8) modulo x^8 + x^4 + x^3 + x + 1.
pub open spec fn xtime(a: u8) -> u8 {
    if a & 0x80u8 != 0 {
        (a << 1u8) ^ 0x1bu8
    } else {
        a << 1u8
    }
}

/// The shift-and-reduce product loop with `n` bit steps left to run,
/// accumulator `p`, current multiple `a` and remaining multiplier bits `b`.
pub open spec fn gmul_steps(p: u8, a: u8, b: u8, n: nat) -> u8
    decreases n,
{
    if n == 0 {
        p
    } else {
        gmul_steps(
            p ^ (if b & 1u8 != 0 { a } else { 0u8 }),
            xtime(a),
            b >> 1u8,
            (n - 1) as nat,
        )
    }
}

/// Multiplies two field elements of GF(2^8) under the reduction polynomial 0x11b.
pub fn gmul(a: u8, b: u8) -> (r: u8)
    ensures
        r == gmul_spec(a, b),
{
    proof {
        lemma_gmul_steps(a, b);
    }
    let mut p: u8 = 0;
    let mut x: u8 = a;
    let mut y: u8 = b;
    let mut i: u8 = 0;
    while i < 8
        invariant
            i <= 8,
            gmul_steps(p, x, y, (8 - i) as nat) == gmul_steps(0, a, b, 8),
        decreases 8 - i,
    {
        if y & 1 != 0 {
            p = p ^ x;
        } else {
            assert(p ^ 0u8 == p) by (bit_vector);
        }
        let hi_bit_set = x & 0x80 != 0;
        x = x << 1;
        if hi_bit_set {
            x = x ^ 0x1b;
        }
        y = y >> 1;
        i = i + 1;
    }
    p
}

/// The product `a * b` in GF(2^8): the XOR of `a * x^i` over the bits `i` set in `b`.
pub open spec fn gmul_spec(a: u8, b: u8) -> u8 {
    let a1 = xtime(a);
    let a2 = xtime(a1);
    let a3 = xtime(a2);
    let a4 = xtime(a3);
    let a5 = xtime(a4);
    let a6 = xtime(a5);
    let a7 = xtime(a6);
    0u8 ^ (if b & 0x01u8 != 0 { a } else { 0u8 }) ^ (if b & 0x02u8 != 0 { a1 } else { 0u8 })
        ^ (if b & 0x04u8 != 0 { a2 } else { 0u8 }) ^ (if b & 0x08u8 != 0 { a3 } else { 0u8 })
        ^ (if b & 0x10u8 != 0 { a4 } else { 0u8 }) ^ (if b & 0x20u8 != 0 { a5 } else { 0u8 })
        ^ (if b & 0x40u8 != 0 { a6 } else { 0u8 }) ^ (if b & 0x80u8 != 0 { a7 } else { 0u8 })
}

/// The shift-and-reduce loop computes the product.
proof fn lemma_gmul_steps(a: u8, b: u8)
    ensures
        gmul_steps(0, a, b, 8) == gmul_spec(a, b),
{
    assert({
        let b1 = b >> 1u8;
        let b2 = b1 >> 1u8;
        let b3 = b2 >> 1u8;
        let b4 = b3 >> 1u8;
        let b5 = b4 >> 1u8;
        let b6 = b5 >> 1u8;
        let b7 = b6 >> 1u8;
        &&& (b1 & 1u8 != 0 <==> b & 0x02u8 != 0)
        &&& (b2 & 1u8 != 0 <==> b & 0x04u8 != 0)
        &&& (b3 & 1u8 != 0 <==> b & 0x08u8 != 0)
        &&& (b4 & 1u8 != 0 <==> b & 0x10u8 != 0)
        &&& (b5 & 1u8 != 0 <==> b & 0x20u8 != 0)
        &&& (b6 & 1u8 != 0 <==> b & 0x40u8 != 0)
        &&& (b7 & 1u8 != 0 <==> b & 0x80u8 != 0)
        &&& (b & 1u8 != 0 <==> b & 0x01u8 != 0)
    }) by (bit_vector);
    reveal_with_fuel(gmul_steps, 9);
}

/// One column of MixColumns: the column times the circulant matrix (2 3 1 1).
#[verifier::opaque]
pub open spec fn mix_column(a: u8, b: u8, c: u8, d: u8) -> (u8, u8, u8, u8) {
    (
        gmul_spec(0x02, a) ^ gmul_spec(0x03, b) ^ c ^ d,
        a ^ gmul_spec(0x02, b) ^ gmul_spec(0x03, c) ^ d,
        a ^ b ^ gmul_spec(0x02, c) ^ gmul_spec(0x03, d),
        gmul_spec(0x03, a) ^ b ^ c ^ gmul_spec(0x02, d),
    )
}

/// One column of InvMixColumns: the column times the circulant matrix (14 11 13 9).
#[verifier::opaque]
pub open spec fn inv_mix_column(a: u8, b: u8, c: u8, d: u8) -> (u8, u8, u8, u8) {
    (
        gmul_spec(0x0e, a) ^ gmul_spec(0x0b, b) ^ gmul_spec(0x0d, c) ^ gmul_spec(0x09, d),
        gmul_spec(0x09, a) ^ gmul_spec(0x0e, b) ^ gmul_spec(0x0b, c) ^ gmul_spec(0x0d, d),
        gmul_spec(0x0d, a) ^ gmul_spec(0x09, b) ^ gmul_spec(0x0e, c) ^ gmul_spec(0x0b, d),
        gmul_spec(0x0b, a) ^ gmul_spec(0x0d, b) ^ gmul_spec(0x09, c) ^ gmul_spec(0x0e, d),
    )
}

/// Multiplication by each matrix coefficient distributes over XOR.
proof fn lemma_linear(w: u8, x: u8, y: u8, z: u8)
    by (bit_vector)
    ensures
        gmul_spec(0x02, w ^ x ^ y ^ z) == gmul_spec(0x02, w) ^ gmul_spec(0x02, x) ^ gmul_spec(0x02, y) ^ gmul_spec(0x02, z),
        gmul_spec(0x03, w ^ x ^ y ^ z) == gmul_spec(0x03, w) ^ gmul_spec(0x03, x) ^ gmul_spec(0x03, y) ^ gmul_spec(0x03, z),
        gmul_spec(0x09, w ^ x ^ y ^ z) == gmul_spec(0x09, w) ^ gmul_spec(0x09, x) ^ gmul_spec(0x09, y) ^ gmul_spec(0x09, z),
        gmul_spec(0x0b, w ^ x ^ y ^ z) == gmul_spec(0x0b, w) ^ gmul_spec(0x0b, x) ^ gmul_spec(0x0b, y) ^ gmul_spec(0x0b, z),
        gmul_spec(0x0d, w ^ x ^ y ^ z) == gmul_spec(0x0d, w) ^ gmul_spec(0x0d, x) ^ gmul_spec(0x0d, y) ^ gmul_spec(0x0d, z),
        gmul_spec(0x0e, w ^ x ^ y ^ z) == gmul_spec(0x0e, w) ^ gmul_spec(0x0e, x) ^ gmul_spec(0x0e, y) ^ gmul_spec(0x0e, z),
{
}

/// XOR of a 4x4 grid by rows equals XOR by columns.
proof fn lemma_xor_grid(
    t00: u8, t01: u8, t02: u8, t03: u8,
    t10: u8, t11: u8, t12: u8, t13: u8,
    t20: u8, t21: u8, t22: u8, t23: u8,
    t30: u8, t31: u8, t32: u8, t33: u8,
)
    by (bit_vector)
    ensures
        (t00 ^ t01 ^ t02 ^ t03) ^ (t10 ^ t11 ^ t12 ^ t13) ^ (t20 ^ t21 ^ t22 ^ t23) ^ (t30 ^ t31 ^ t32 ^ t33)
            == (t00 ^ t10 ^ t20 ^ t30) ^ (t01 ^ t11 ^ t21 ^ t31) ^ (t02 ^ t12 ^ t22 ^ t32) ^ (t03 ^ t13 ^ t23 ^ t33),
        0u8 ^ 0u8 ^ 0u8 ^ t00 == t00,
        0u8 ^ 0u8 ^ t00 ^ 0u8 == t00,
        0u8 ^ t00 ^ 0u8 ^ 0u8 == t00,
        t00 ^ 0u8 ^ 0u8 ^ 0u8 == t00,
{
}

/// The matrix products of the two circulant matrices give the identity, coefficient by coefficient.
proof fn lemma_cancel_inv_after_mix(x: u8)
    by (bit_vector)
    ensures
        gmul_spec(0x0e, gmul_spec(0x02, x)) ^ gmul_spec(0x0b, x) ^ gmul_spec(0x0d, x) ^ gmul_spec(0x09, gmul_spec(0x03, x)) == x,
        gmul_spec(0x0e, gmul_spec(0x03, x)) ^ gmul_spec(0x0b, gmul_spec(0x02, x)) ^ gmul_spec(0x0d, x) ^ gmul_spec(0x09, x) == 0u8,
        gmul_spec(0x0e, x) ^ gmul_spec(0x0b, gmul_spec(0x03, x)) ^ gmul_spec(0x0d, gmul_spec(0x02, x)) ^ gmul_spec(0x09, x) == 0u8,
        gmul_spec(0x0e, x) ^ gmul_spec(0x0b, x) ^ gmul_spec(0x0d, gmul_spec(0x03, x)) ^ gmul_spec(0x09, gmul_spec(0x02, x)) == 0u8,
        gmul_spec(0x09, gmul_spec(0x02, x)) ^ gmul_spec(0x0e, x) ^ gmul_spec(0x0b, x) ^ gmul_spec(0x0d, gmul_spec(0x03, x)) == 0u8,
        gmul_spec(0x09, gmul_spec(0x03, x)) ^ gmul_spec(0x0e, gmul_spec(0x02, x)) ^ gmul_spec(0x0b, x) ^ gmul_spec(0x0d, x) == x,
        gmul_spec(0x09, x) ^ gmul_spec(0x0e, gmul_spec(0x03, x)) ^ gmul_spec(0x0b, gmul_spec(0x02, x)) ^ gmul_spec(0x0d, x) == 0u8,
        gmul_spec(0x09, x) ^ gmul_spec(0x0e, x) ^ gmul_spec(0x0b, gmul_spec(0x03, x)) ^ gmul_spec(0x0d, gmul_spec(0x02, x)) == 0u8,
        gmul_spec(0x0d, gmul_spec(0x02, x)) ^ gmul_spec(0x09, x) ^ gmul_spec(0x0e, x) ^ gmul_spec(0x0b, gmul_spec(0x03, x)) == 0u8,
        gmul_spec(0x0d, gmul_spec(0x03, x)) ^ gmul_spec(0x09, gmul_spec(0x02, x)) ^ gmul_spec(0x0e, x) ^ gmul_spec(0x0b, x) == 0u8,
        gmul_spec(0x0d, x) ^ gmul_spec(0x09, gmul_spec(0x03, x)) ^ gmul_spec(0x0e, gmul_spec(0x02, x)) ^ gmul_spec(0x0b, x) == x,
        gmul_spec(0x0d, x) ^ gmul_spec(0x09, x) ^ gmul_spec(0x0e, gmul_spec(0x03, x)) ^ gmul_spec(0x0b, gmul_spec(0x02, x)) == 0u8,
        gmul_spec(0x0b, gmul_spec(0x02, x)) ^ gmul_spec(0x0d, x) ^ gmul_spec(0x09, x) ^ gmul_spec(0x0e, gmul_spec(0x03, x)) == 0u8,
        gmul_spec(0x0b, gmul_spec(0x03, x)) ^ gmul_spec(0x0d, gmul_spec(0x02, x)) ^ gmul_spec(0x09, x) ^ gmul_spec(0x0e, x) == 0u8,
        gmul_spec(0x0b, x) ^ gmul_spec(0x0d, gmul_spec(0x03, x)) ^ gmul_spec(0x09, gmul_spec(0x02, x)) ^ gmul_spec(0x0e, x) == 0u8,
        gmul_spec(0x0b, x) ^ gmul_spec(0x0d, x) ^ gmul_spec(0x09, gmul_spec(0x03, x)) ^ gmul_spec(0x0e, gmul_spec(0x02, x)) == x,
{
}

proof fn lemma_inv_after_mix_row_0(a: u8, b: u8, c: u8, d: u8)
    ensures
        gmul_spec(0x0e, (gmul_spec(0x02, a) ^ gmul_spec(0x03, b) ^ c ^ d)) ^ gmul_spec(0x0b, (a ^ gmul_spec(0x02, b) ^ gmul_spec(0x03, c) ^ d)) ^ gmul_spec(0x0d, (a ^ b ^ gmul_spec(0x02, c) ^ gmul_spec(0x03, d))) ^ gmul_spec(0x09, (gmul_spec(0x03, a) ^ b ^ c ^ gmul_spec(0x02, d))) == a,
{
    lemma_linear(gmul_spec(0x02, a), gmul_spec(0x03, b), c, d);
    lemma_linear(a, gmul_spec(0x02, b), gmul_spec(0x03, c), d);
    lemma_linear(a, b, gmul_spec(0x02, c), gmul_spec(0x03, d));
    lemma_linear(gmul_spec(0x03, a), b, c, gmul_spec(0x02, d));
    lemma_cancel_inv_after_mix(a);
    lemma_cancel_inv_after_mix(b);
    lemma_cancel_inv_after_mix(c);
    lemma_cancel_inv_after_mix(d);
    lemma_xor_grid(
        gmul_spec(0x0e, gmul_spec(0x02, a)),
        gmul_spec(0x0e, gmul_spec(0x03, b)),
        gmul_spec(0x0e, c),
        gmul_spec(0x0e, d),
        gmul_spec(0x0b, a),
        gmul_spec(0x0b, gmul_spec(0x02, b)),
        gmul_spec(0x0b, gmul_spec(0x03, c)),
        gmul_spec(0x0b, d),
        gmul_spec(0x0d, a),
        gmul_spec(0x0d, b),
        gmul_spec(0x0d, gmul_spec(0x02, c)),
        gmul_spec(0x0d, gmul_spec(0x03, d)),
        gmul_spec(0x09, gmul_spec(0x03, a)),
        gmul_spec(0x09, b),
        gmul_spec(0x09, c),
        gmul_spec(0x09, gmul_spec(0x02, d)),
    );
    lemma_xor_grid(a, 0u8, 0u8, 0u8, 0u8, 0u8, 0u8, 0u8, 0u8, 0u8, 0u8, 0u8, 0u8, 0u8, 0u8, 0u8);
}

proof fn lemma_inv_after_mix_row_1(a: u8, b: u8, c: u8, d: u8)
    ensures
        gmul_spec(0x09, (gmul_spec(0x02, a) ^ gmul_spec(0x03, b) ^ c ^ d)) ^ gmul_spec(0x0e, (a ^ gmul_spec(0x02, b) ^ gmul_spec(0x03, c) ^ d)) ^ gmul_spec(0x0b, (a ^ b ^ gmul_spec(0x02, c) ^ gmul_spec(0x03, d))) ^ gmul_spec(0x0d, (gmul_spec(0x03, a) ^ b ^ c ^ gmul_spec(0x02, d))) == b,
{
    lemma_linear(gmul_spec(0x02, a), gmul_spec(0x03, b), c, d);
    lemma_linear(a, gmul_spec(0x02, b), gmul_spec(0x03, c), d);
    lemma_linear(a, b, gmul_spec(0x02, c), gmul_spec(0x03, d));
    lemma_linear(gmul_spec(0x03, a), b, c, gmul_spec(0x02, d));
    lemma_cancel_inv_after_mix(a);
    lemma_cancel_inv_after_mix(b);
    lemma_cancel_inv_after_mix(c);
    lemma_cancel_inv_after_mix(d);
    lemma_xor_grid(
        gmul_spec(0x09, gmul_spec(0x02, a)),
        gmul_spec(0x09, gmul_spec(0x03, b)),
        gmul_spec(0x09, c),
        gmul_spec(0x09, d),
        gmul_spec(0x0e, a),
        gmul_spec(0x0e, gmul_spec(0x02, b)),
        gmul_spec(0x0e, gmul_spec(0x03, c)),
        gmul_spec(0x0e, d),
        gmul_spec(0x0b, a),
        gmul_spec(0x0b, b),
        gmul_spec(0x0b, gmul_spec(0x02, c)),
        gmul_spec(0x0b, gmul_spec(0x03, d)),
        gmul_spec(0x0d, gmul_spec(0x03, a)),
        gmul_spec(0x0d, b),
        gmul_spec(0x0d, c),
        gmul_spec(0x0d, gmul_spec(0x02, d)),
    );
    lemma_xor_grid(b, 0u8, 0u8, 0u8, 0u8, 0u8, 0u8, 0u8, 0u8, 0u8, 0u8, 0u8, 0u8, 0u8, 0u8, 0u8);
}

proof fn lemma_inv_after_mix_row_2(a: u8, b: u8, c: u8, d: u8)
    ensures
        gmul_spec(0x0d, (gmul_spec(0x02, a) ^ gmul_spec(0x03, b) ^ c ^ d)) ^ gmul_spec(0x09, (a ^ gmul_spec(0x02, b) ^ gmul_spec(0x03, c) ^ d)) ^ gmul_spec(0x0e, (a ^ b ^ gmul_spec(0x02, c) ^ gmul_spec(0x03, d))) ^ gmul_spec(0x0b, (gmul_spec(0x03, a) ^ b ^ c ^ gmul_spec(0x02, d))) == c,
{
    lemma_linear(gmul_spec(0x02, a), gmul_spec(0x03, b), c, d);
    lemma_linear(a, gmul_spec(0x02, b), gmul_spec(0x03, c), d);
    lemma_linear(a, b, gmul_spec(0x02, c), gmul_spec(0x03, d));
    lemma_linear(gmul_spec(0x03, a), b, c, gmul_spec(0x02, d));
    lemma_cancel_inv_after_mix(a);
    lemma_cancel_inv_after_mix(b);
    lemma_cancel_inv_after_mix(c);
    lemma_cancel_inv_after_mix(d);
    lemma_xor_grid(
        gmul_spec(0x0d, gmul_spec(0x02, a)),
        gmul_spec(0x0d, gmul_spec(0x03, b)),
        gmul_spec(0x0d, c),
        gmul_spec(0x0d, d),
        gmul_spec(0x09, a),
        gmul_spec(0x09, gmul_spec(0x02, b)),
        gmul_spec(0x09, gmul_spec(0x03, c)),
        gmul_spec(0x09, d),
        gmul_spec(0x0e, a),
        gmul_spec(0x0e, b),
        gmul_spec(0x0e, gmul_spec(0x02, c)),
        gmul_spec(0x0e, gmul_spec(0x03, d)),
        gmul_spec(0x0b, gmul_spec(0x03, a)),
        gmul_spec(0x0b, b),
        gmul_spec(0x0b, c),
        gmul_spec(0x0b, gmul_spec(0x02, d)),
    );
    lemma_xor_grid(c, 0u8, 0u8, 0u8, 0u8, 0u8, 0u8, 0u8, 0u8, 0u8, 0u8, 0u8, 0u8, 0u8, 0u8, 0u8);
}

proof fn lemma_inv_after_mix_row_3(a: u8, b: u8, c: u8, d: u8)
    ensures
        gmul_spec(0x0b, (gmul_spec(0x02, a) ^ gmul_spec(0x03, b) ^ c ^ d)) ^ gmul_spec(0x0d, (a ^ gmul_spec(0x02, b) ^ gmul_spec(0x03, c) ^ d)) ^ gmul_spec(0x09, (a ^ b ^ gmul_spec(0x02, c) ^ gmul_spec(0x03, d))) ^ gmul_spec(0x0e, (gmul_spec(0x03, a) ^ b ^ c ^ gmul_spec(0x02, d))) == d,
{
    lemma_linear(gmul_spec(0x02, a), gmul_spec(0x03, b), c, d);
    lemma_linear(a, gmul_spec(0x02, b), gmul_spec(0x03, c), d);
    lemma_linear(a, b, gmul_spec(0x02, c), gmul_spec(0x03, d));
    lemma_linear(gmul_spec(0x03, a), b, c, gmul_spec(0x02, d));
    lemma_cancel_inv_after_mix(a);
    lemma_cancel_inv_after_mix(b);
    lemma_cancel_inv_after_mix(c);
    lemma_cancel_inv_after_mix(d);
    lemma_xor_grid(
        gmul_spec(0x0b, gmul_spec(0x02, a)),
        gmul_spec(0x0b, gmul_spec(0x03, b)),
        gmul_spec(0x0b, c),
        gmul_spec(0x0b, d),
        gmul_spec(0x0d, a),
        gmul_spec(0x0d, gmul_spec(0x02, b)),
        gmul_spec(0x0d, gmul_spec(0x03, c)),
        gmul_spec(0x0d, d),
        gmul_spec(0x09, a),
        gmul_spec(0x09, b),
        gmul_spec(0x09, gmul_spec(0x02, c)),
        gmul_spec(0x09, gmul_spec(0x03, d)),
        gmul_spec(0x0e, gmul_spec(0x03, a)),
        gmul_spec(0x0e, b),
        gmul_spec(0x0e, c),
        gmul_spec(0x0e, gmul_spec(0x02, d)),
    );
    lemma_xor_grid(d, 0u8, 0u8, 0u8, 0u8, 0u8, 0u8, 0u8, 0u8, 0u8, 0u8, 0u8, 0u8, 0u8, 0u8, 0u8);
}

/// The matrix products of the two circulant matrices give the identity, coefficient by coefficient.
proof fn lemma_cancel_mix_after_inv(x: u8)
    by (bit_vector)
    ensures
        gmul_spec(0x02, gmul_spec(0x0e, x)) ^ gmul_spec(0x03, gmul_spec(0x09, x)) ^ gmul_spec(0x0d, x) ^ gmul_spec(0x0b, x) == x,
        gmul_spec(0x02, gmul_spec(0x0b, x)) ^ gmul_spec(0x03, gmul_spec(0x0e, x)) ^ gmul_spec(0x09, x) ^ gmul_spec(0x0d, x) == 0u8,
        gmul_spec(0x02, gmul_spec(0x0d, x)) ^ gmul_spec(0x03, gmul_spec(0x0b, x)) ^ gmul_spec(0x0e, x) ^ gmul_spec(0x09, x) == 0u8,
        gmul_spec(0x02, gmul_spec(0x09, x)) ^ gmul_spec(0x03, gmul_spec(0x0d, x)) ^ gmul_spec(0x0b, x) ^ gmul_spec(0x0e, x) == 0u8,
        gmul_spec(0x0e, x) ^ gmul_spec(0x02, gmul_spec(0x09, x)) ^ gmul_spec(0x03, gmul_spec(0x0d, x)) ^ gmul_spec(0x0b, x) == 0u8,
        gmul_spec(0x0b, x) ^ gmul_spec(0x02, gmul_spec(0x0e, x)) ^ gmul_spec(0x03, gmul_spec(0x09, x)) ^ gmul_spec(0x0d, x) == x,
        gmul_spec(0x0d, x) ^ gmul_spec(0x02, gmul_spec(0x0b, x)) ^ gmul_spec(0x03, gmul_spec(0x0e, x)) ^ gmul_spec(0x09, x) == 0u8,
        gmul_spec(0x09, x) ^ gmul_spec(0x02, gmul_spec(0x0d, x)) ^ gmul_spec(0x03, gmul_spec(0x0b, x)) ^ gmul_spec(0x0e, x) == 0u8,
        gmul_spec(0x0e, x) ^ gmul_spec(0x09, x) ^ gmul_spec(0x02, gmul_spec(0x0d, x)) ^ gmul_spec(0x03, gmul_spec(0x0b, x)) == 0u8,
        gmul_spec(0x0b, x) ^ gmul_spec(0x0e, x) ^ gmul_spec(0x02, gmul_spec(0x09, x)) ^ gmul_spec(0x03, gmul_spec(0x0d, x)) == 0u8,
        gmul_spec(0x0d, x) ^ gmul_spec(0x0b, x) ^ gmul_spec(0x02, gmul_spec(0x0e, x)) ^ gmul_spec(0x03, gmul_spec(0x09, x)) == x,
        gmul_spec(0x09, x) ^ gmul_spec(0x0d, x) ^ gmul_spec(0x02, gmul_spec(0x0b, x)) ^ gmul_spec(0x03, gmul_spec(0x0e, x)) == 0u8,
        gmul_spec(0x03, gmul_spec(0x0e, x)) ^ gmul_spec(0x09, x) ^ gmul_spec(0x0d, x) ^ gmul_spec(0x02, gmul_spec(0x0b, x)) == 0u8,
        gmul_spec(0x03, gmul_spec(0x0b, x)) ^ gmul_spec(0x0e, x) ^ gmul_spec(0x09, x) ^ gmul_spec(0x02, gmul_spec(0x0d, x)) == 0u8,
        gmul_spec(0x03, gmul_spec(0x0d, x)) ^ gmul_spec(0x0b, x) ^ gmul_spec(0x0e, x) ^ gmul_spec(0x02, gmul_spec(0x09, x)) == 0u8,
        gmul_spec(0x03, gmul_spec(0x09, x)) ^ gmul_spec(0x0d, x) ^ gmul_spec(0x0b, x) ^ gmul_spec(0x02, gmul_spec(0x0e, x)) == x,
{
}

proof fn lemma_mix_after_inv_row_0(a: u8, b: u8, c: u8, d: u8)
    ensures
        gmul_spec(0x02, (gmul_spec(0x0e, a) ^ gmul_spec(0x0b, b) ^ gmul_spec(0x0d, c) ^ gmul_spec(0x09, d))) ^ gmul_spec(0x03, (gmul_spec(0x09, a) ^ gmul_spec(0x0e, b) ^ gmul_spec(0x0b, c) ^ gmul_spec(0x0d, d))) ^ (gmul_spec(0x0d, a) ^ gmul_spec(0x09, b) ^ gmul_spec(0x0e, c) ^ gmul_spec(0x0b, d)) ^ (gmul_spec(0x0b, a) ^ gmul_spec(0x0d, b) ^ gmul_spec(0x09, c) ^ gmul_spec(0x0e, d)) == a,
{
    lemma_linear(gmul_spec(0x0e, a), gmul_spec(0x0b, b), gmul_spec(0x0d, c), gmul_spec(0x09, d));
    lemma_linear(gmul_spec(0x09, a), gmul_spec(0x0e, b), gmul_spec(0x0b, c), gmul_spec(0x0d, d));
    lemma_cancel_mix_after_inv(a);
    lemma_cancel_mix_after_inv(b);
    lemma_cancel_mix_after_inv(c);
    lemma_cancel_mix_after_inv(d);
    lemma_xor_grid(
        gmul_spec(0x02, gmul_spec(0x0e, a)),
        gmul_spec(0x02, gmul_spec(0x0b, b)),
        gmul_spec(0x02, gmul_spec(0x0d, c)),
        gmul_spec(0x02, gmul_spec(0x09, d)),
        gmul_spec(0x03, gmul_spec(0x09, a)),
        gmul_spec(0x03, gmul_spec(0x0e, b)),
        gmul_spec(0x03, gmul_spec(0x0b, c)),
        gmul_spec(0x03, gmul_spec(0x0d, d)),
        gmul_spec(0x0d, a),
        gmul_spec(0x09, b),
        gmul_spec(0x0e, c),
        gmul_spec(0x0b, d),
        gmul_spec(0x0b, a),
        gmul_spec(0x0d, b),
        gmul_spec(0x09, c),
        gmul_spec(0x0e, d),
    );
    lemma_xor_grid(a, 0u8, 0u8, 0u8, 0u8, 0u8, 0u8, 0u8, 0u8, 0u8, 0u8, 0u8, 0u8, 0u8, 0u8, 0u8);
}

proof fn lemma_mix_after_inv_row_1(a: u8, b: u8, c: u8, d: u8)
    ensures
        (gmul_spec(0x0e, a) ^ gmul_spec(0x0b, b) ^ gmul_spec(0x0d, c) ^ gmul_spec(0x09, d)) ^ gmul_spec(0x02, (gmul_spec(0x09, a) ^ gmul_spec(0x0e, b) ^ gmul_spec(0x0b, c) ^ gmul_spec(0x0d, d))) ^ gmul_spec(0x03, (gmul_spec(0x0d, a) ^ gmul_spec(0x09, b) ^ gmul_spec(0x0e, c) ^ gmul_spec(0x0b, d))) ^ (gmul_spec(0x0b, a) ^ gmul_spec(0x0d, b) ^ gmul_spec(0x09, c) ^ gmul_spec(0x0e, d)) == b,
{
    lemma_linear(gmul_spec(0x09, a), gmul_spec(0x0e, b), gmul_spec(0x0b, c), gmul_spec(0x0d, d));
    lemma_linear(gmul_spec(0x0d, a), gmul_spec(0x09, b), gmul_spec(0x0e, c), gmul_spec(0x0b, d));
    lemma_cancel_mix_after_inv(a);
    lemma_cancel_mix_after_inv(b);
    lemma_cancel_mix_after_inv(c);
    lemma_cancel_mix_after_inv(d);
    lemma_xor_grid(
        gmul_spec(0x0e, a),
        gmul_spec(0x0b, b),
        gmul_spec(0x0d, c),
        gmul_spec(0x09, d),
        gmul_spec(0x02, gmul_spec(0x09, a)),
        gmul_spec(0x02, gmul_spec(0x0e, b)),
        gmul_spec(0x02, gmul_spec(0x0b, c)),
        gmul_spec(0x02, gmul_spec(0x0d, d)),
        gmul_spec(0x03, gmul_spec(0x0d, a)),
        gmul_spec(0x03, gmul_spec(0x09, b)),
        gmul_spec(0x03, gmul_spec(0x0e, c)),
        gmul_spec(0x03, gmul_spec(0x0b, d)),
        gmul_spec(0x0b, a),
        gmul_spec(0x0d, b),
        gmul_spec(0x09, c),
        gmul_spec(0x0e, d),
    );
    lemma_xor_grid(b, 0u8, 0u8, 0u8, 0u8, 0u8, 0u8, 0u8, 0u8, 0u8, 0u8, 0u8, 0u8, 0u8, 0u8, 0u8);
}

proof fn lemma_mix_after_inv_row_2(a: u8, b: u8, c: u8, d: u8)
    ensures
        (gmul_spec(0x0e, a) ^ gmul_spec(0x0b, b) ^ gmul_spec(0x0d, c) ^ gmul_spec(0x09, d)) ^ (gmul_spec(0x09, a) ^ gmul_spec(0x0e, b) ^ gmul_spec(0x0b, c) ^ gmul_spec(0x0d, d)) ^ gmul_spec(0x02, (gmul_spec(0x0d, a) ^ gmul_spec(0x09, b) ^ gmul_spec(0x0e, c) ^ gmul_spec(0x0b, d))) ^ gmul_spec(0x03, (gmul_spec(0x0b, a) ^ gmul_spec(0x0d, b) ^ gmul_spec(0x09, c) ^ gmul_spec(0x0e, d))) == c,
{
    lemma_linear(gmul_spec(0x0d, a), gmul_spec(0x09, b), gmul_spec(0x0e, c), gmul_spec(0x0b, d));
    lemma_linear(gmul_spec(0x0b, a), gmul_spec(0x0d, b), gmul_spec(0x09, c), gmul_spec(0x0e, d));
    lemma_cancel_mix_after_inv(a);
    lemma_cancel_mix_after_inv(b);
    lemma_cancel_mix_after_inv(c);
    lemma_cancel_mix_after_inv(d);
    lemma_xor_grid(
        gmul_spec(0x0e, a),
        gmul_spec(0x0b, b),
        gmul_spec(0x0d, c),
        gmul_spec(0x09, d),
        gmul_spec(0x09, a),
        gmul_spec(0x0e, b),
        gmul_spec(0x0b, c),
        gmul_spec(0x0d, d),
        gmul_spec(0x02, gmul_spec(0x0d, a)),
        gmul_spec(0x02, gmul_spec(0x09, b)),
        gmul_spec(0x02, gmul_spec(0x0e, c)),
        gmul_spec(0x02, gmul_spec(0x0b, d)),
        gmul_spec(0x03, gmul_spec(0x0b, a)),
        gmul_spec(0x03, gmul_spec(0x0d, b)),
        gmul_spec(0x03, gmul_spec(0x09, c)),
        gmul_spec(0x03, gmul_spec(0x0e, d)),
    );
    lemma_xor_grid(c, 0u8, 0u8, 0u8, 0u8, 0u8, 0u8, 0u8, 0u8, 0u8, 0u8, 0u8, 0u8, 0u8, 0u8, 0u8);
}

proof fn lemma_mix_after_inv_row_3(a: u8, b: u8, c: u8, d: u8)
    ensures
        gmul_spec(0x03, (gmul_spec(0x0e, a) ^ gmul_spec(0x0b, b) ^ gmul_spec(0x0d, c) ^ gmul_spec(0x09, d))) ^ (gmul_spec(0x09, a) ^ gmul_spec(0x0e, b) ^ gmul_spec(0x0b, c) ^ gmul_spec(0x0d, d)) ^ (gmul_spec(0x0d, a) ^ gmul_spec(0x09, b) ^ gmul_spec(0x0e, c) ^ gmul_spec(0x0b, d)) ^ gmul_spec(0x02, (gmul_spec(0x0b, a) ^ gmul_spec(0x0d, b) ^ gmul_spec(0x09, c) ^ gmul_spec(0x0e, d))) == d,
{
    lemma_linear(gmul_spec(0x0e, a), gmul_spec(0x0b, b), gmul_spec(0x0d, c), gmul_spec(0x09, d));
    lemma_linear(gmul_spec(0x0b, a), gmul_spec(0x0d, b), gmul_spec(0x09, c), gmul_spec(0x0e, d));
    lemma_cancel_mix_after_inv(a);
    lemma_cancel_mix_after_inv(b);
    lemma_cancel_mix_after_inv(c);
    lemma_cancel_mix_after_inv(d);
    lemma_xor_grid(
        gmul_spec(0x03, gmul_spec(0x0e, a)),
        gmul_spec(0x03, gmul_spec(0x0b, b)),
        gmul_spec(0x03, gmul_spec(0x0d, c)),
        gmul_spec(0x03, gmul_spec(0x09, d)),
        gmul_spec(0x09, a),
        gmul_spec(0x0e, b),
        gmul_spec(0x0b, c),
        gmul_spec(0x0d, d),
        gmul_spec(0x0d, a),
        gmul_spec(0x09, b),
        gmul_spec(0x0e, c),
        gmul_spec(0x0b, d),
        gmul_spec(0x02, gmul_spec(0x0b, a)),
        gmul_spec(0x02, gmul_spec(0x0d, b)),
        gmul_spec(0x02, gmul_spec(0x09, c)),
        gmul_spec(0x02, gmul_spec(0x0e, d)),
    );
    lemma_xor_grid(d, 0u8, 0u8, 0u8, 0u8, 0u8, 0u8, 0u8, 0u8, 0u8, 0u8, 0u8, 0u8, 0u8, 0u8, 0u8);
}

/// InvMixColumns undoes MixColumns on every column.
pub proof fn lemma_inv_mix_column(a: u8, b: u8, c: u8, d: u8)
    ensures
        ({
            let (p, q, r, s) = mix_column(a, b, c, d);
            inv_mix_column(p, q, r, s)
        }) == (a, b, c, d),
{
    reveal(mix_column);
    reveal(inv_mix_column);
    lemma_inv_after_mix_row_0(a, b, c, d);
    lemma_inv_after_mix_row_1(a, b, c, d);
    lemma_inv_after_mix_row_2(a, b, c, d);
    lemma_inv_after_mix_row_3(a, b, c, d);
}

/// MixColumns undoes InvMixColumns on every column.
pub proof fn lemma_mix_inv_column(a: u8, b: u8, c: u8, d: u8)
    ensures
        ({
            let (p, q, r, s) = inv_mix_column(a, b, c, d);
            mix_column(p, q, r, s)
        }) == (a, b, c, d),
{
    reveal(mix_column);
    reveal(inv_mix_column);
    lemma_mix_after_inv_row_0(a, b, c, d);
    lemma_mix_after_inv_row_1(a, b, c, d);
    lemma_mix_after_inv_row_2(a, b, c, d);
    lemma_mix_after_inv_row_3(a, b, c, d);
}

} // verus!

use vstd::prelude::*;

verus! {

/// Bit `i` (most significant first) of the byte sequence `b`, as 0 or 1.
pub open spec fn bit_at(b: Seq<u8>, i: int) -> u8 {
    (b[i / 8] >> ((7 - i % 8) as u8)) & 1u8
}

/// The bits of `b`, most significant bit of each byte first, one bit per byte.
pub open spec fn bits_of(b: Seq<u8>) -> Seq<u8> {
    Seq::new(8 * b.len(), |i: int| bit_at(b, i))
}

/// The first `k` entries of `c` shifted into a byte, first entry highest:
/// `val = (val << 1) | c[j]` for each `j < k`.
pub open spec fn pack_bits(c: Seq<u8>, k: nat) -> u8
    decreases k,
{
    if k == 0 {
        0
    } else {
        (pack_bits(c, (k - 1) as nat) << 1u8) | c[k - 1]
    }
}

/// Groups of eight entries of `bits`, each packed into a byte.
pub open spec fn bytes_of(bits: Seq<u8>) -> Seq<u8> {
    Seq::new(bits.len() / 8, |i: int| pack_bits(bits.subrange(8 * i, 8 * i + 8), 8))
}

/// `bits` reordered by a table of 1-based positions.
pub open spec fn permute_spec(bits: Seq<u8>, table: Seq<usize>) -> Seq<u8> {
    Seq::new(table.len(), |i: int| bits[table[i] - 1])
}

/// Every entry of `table` is a 1-based position in a sequence of length `n`.
pub open spec fn valid_table(table: Seq<usize>, n: nat) -> bool {
    forall|i: int| 0 <= i < table.len() ==> 1 <= #[trigger] table[i] <= n
}

/// `bits` rotated left by `n` positions.
pub open spec fn rotate_left_spec(bits: Seq<u8>, n: nat) -> Seq<u8> {
    bits.skip((n % bits.len()) as int) + bits.take((n % bits.len()) as int)
}

/// Element-wise XOR over the common length of `a` and `b`.
pub open spec fn xor_spec(a: Seq<u8>, b: Seq<u8>) -> Seq<u8> {
    Seq::new(if a.len() <= b.len() { a.len() } else { b.len() }, |i: int| a[i] ^ b[i])
}

/// Splits bytes into bits, most significant bit first.
pub fn bytes_to_bitvec(b: &[u8]) -> (r: Vec<u8>)
    requires
        8 * b@.len() <= usize::MAX,
    ensures
        r@ == bits_of(b@),
{
    let mut v: Vec<u8> = Vec::with_capacity(b.len() * 8);
    let mut idx: usize = 0;
    while idx < b.len()
        invariant
            8 * b@.len() <= usize::MAX,
            idx <= b@.len(),
            v@.len() == 8 * idx,
            forall|j: int| 0 <= j < 8 * idx ==> #[trigger] v@[j] == bit_at(b@, j),
        decreases b@.len() - idx,
    {
        let byte = b[idx];
        let mut k: usize = 0;
        while k < 8
            invariant
                8 * b@.len() <= usize::MAX,
                idx < b@.len(),
                byte == b@[idx as int],
                k <= 8,
                v@.len() == 8 * idx + k,
                forall|j: int| 0 <= j < 8 * idx + k ==> #[trigger] v@[j] == bit_at(b@, j),
            decreases 8 - k,
        {
            v.push((byte >> ((7 - k) as u8)) & 1);
            proof {
                let j = 8 * idx + k;
                assert(j / 8 == idx && j % 8 == k) by (nonlinear_arith)
                    requires
                        j == 8 * idx + k,
                        k < 8,
                ;
            }
            k = k + 1;
        }
        idx = idx + 1;
    }
    assert(v@ =~= bits_of(b@));
    v
}

/// Packs groups of eight entries into bytes, first entry highest.
pub fn bitvec_to_bytes(bits: &[u8]) -> (r: Vec<u8>)
    requires
        bits@.len() % 8 == 0,
    ensures
        r@ == bytes_of(bits@),
{
    let len = bits.len();
    let n = len / 8;
    let mut out: Vec<u8> = Vec::with_capacity(n);
    let mut i: usize = 0;
    while i < n
        invariant
            bits@.len() == 8 * n,
            len == bits@.len(),
            i <= n,
            out@.len() == i,
            forall|j: int| 0 <= j < i ==> #[trigger] out@[j] == bytes_of(bits@)[j],
        decreases n - i,
    {
        let ghost chunk = bits@.subrange(8 * i as int, 8 * i as int + 8);
        let mut val: u8 = 0;
        let mut k: usize = 0;
        while k < 8
            invariant
                bits@.len() == 8 * n,
                len == bits@.len(),
                i < n,
                chunk == bits@.subrange(8 * i as int, 8 * i as int + 8),
                k <= 8,
                val == pack_bits(chunk, k as nat),
            decreases 8 - k,
        {
            val = (val << 1) | bits[8 * i + k];
            k = k + 1;
        }
        out.push(val);
        i = i + 1;
    }
    assert(out@ =~= bytes_of(bits@));
    out
}

/// Picks `bits[t - 1]` for each entry `t` of `table`.
pub fn permute(bits: &[u8], table: &[usize]) -> (r: Vec<u8>)
    requires
        valid_table(table@, bits@.len()),
    ensures
        r@ == permute_spec(bits@, table@),
{
    let mut out: Vec<u8> = Vec::with_capacity(table.len());
    let mut i: usize = 0;
    while i < table.len()
        invariant
            valid_table(table@, bits@.len()),
            i <= table@.len(),
            out@ == permute_spec(bits@, table@).take(i as int),
        decreases table@.len() - i,
    {
        out.push(bits[table[i] - 1]);
        i = i + 1;
        assert(out@ =~= permute_spec(bits@, table@).take(i as int));
    }
    assert(out@ =~= permute_spec(bits@, table@));
    out
}

/// Rotates `bits` left by `n` positions (modulo its length).
pub fn left_rotate_bits(bits: &[u8], n: usize) -> (r: Vec<u8>)
    requires
        bits@.len() > 0,
    ensures
        r@ == rotate_left_spec(bits@, n as nat),
{
    let len = bits.len();
    let n = n % len;
    let mut out: Vec<u8> = Vec::with_capacity(len);
    let mut i: usize = n;
    while i < len
        invariant
            len == bits@.len(),
            n <= i <= len,
            out@ == bits@.subrange(n as int, i as int),
        decreases len - i,
    {
        out.push(bits[i]);
        i = i + 1;
        assert(out@ =~= bits@.subrange(n as int, i as int));
    }
    let mut i: usize = 0;
    while i < n
        invariant
            len == bits@.len(),
            n < len,
            i <= n,
            out@ == bits@.skip(n as int) + bits@.take(i as int),
        decreases n - i,
    {
        out.push(bits[i]);
        i = i + 1;
        assert(out@ =~= bits@.skip(n as int) + bits@.take(i as int));
    }
    out
}

/// XORs `a` and `b` entry by entry, over the shorter of the two lengths.
pub fn xor_bits(a: &[u8], b: &[u8]) -> (r: Vec<u8>)
    ensures
        r@ == xor_spec(a@, b@),
{
    let n = if a.len() <= b.len() { a.len() } else { b.len() };
    let mut out: Vec<u8> = Vec::with_capacity(n);
    let mut i: usize = 0;
    while i < n
        invariant
            n == (if a@.len() <= b@.len() { a@.len() } else { b@.len() }),
            i <= n,
            out@ == xor_spec(a@, b@).take(i as int),
        decreases n - i,
    {
        out.push(a[i] ^ b[i]);
        i = i + 1;
        assert(out@ =~= xor_spec(a@, b@).take(i as int));
    }
    assert(out@ =~= xor_spec(a@, b@));
    out
}

} // verus!

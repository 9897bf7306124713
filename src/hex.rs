use vstd::prelude::*;

use vstd::std_specs::iter::IteratorSpec;

verus! {

broadcast use vstd::string::axiom_spec_iter, vstd::string::next_postcondition;

/// Why a hex string could not be decoded.
#[derive(Debug, Clone, Copy, PartialEq, Eq, Structural)]
pub enum HexError {
    /// The string has an odd number of characters.
    OddLength,
    /// The first character that is not a hex digit.
    InvalidChar(char),
}

/// The lower-case hex digit for `n < 16`; `'?'` otherwise.
pub open spec fn hex_char_spec(n: u8) -> char {
    if n < 10 {
        (n + 48) as char
    } else if n < 16 {
        (n + 87) as char
    } else {
        '?'
    }
}

/// Two lower-case hex digits per byte, high nibble first.
pub open spec fn hex_string(b: Seq<u8>) -> Seq<char> {
    Seq::new(
        2 * b.len(),
        |i: int|
            if i % 2 == 0 {
                hex_char_spec(b[i / 2] >> 4u8)
            } else {
                hex_char_spec(b[i / 2] & 0xfu8)
            },
    )
}

/// `c` is one of `0-9`, `a-f`, `A-F`.
pub open spec fn is_hex(c: char) -> bool {
    ||| ('0' <= c && c <= '9')
    ||| ('a' <= c && c <= 'f')
    ||| ('A' <= c && c <= 'F')
}

/// The value of a hex digit.
pub open spec fn hex_val_spec(c: char) -> u8 {
    if '0' <= c && c <= '9' {
        (c as u32 - 48) as u8
    } else if 'a' <= c && c <= 'f' {
        (c as u32 - 87) as u8
    } else {
        (c as u32 - 55) as u8
    }
}

/// The bytes spelled by pairs of hex digits, high nibble first.
pub open spec fn hex_bytes(c: Seq<char>) -> Seq<u8> {
    Seq::new(c.len() / 2, |i: int| ((hex_val_spec(c[2 * i]) << 4u8) | hex_val_spec(c[2 * i + 1])) as u8)
}

/// Every character of `c` is a hex digit.
pub open spec fn all_hex(c: Seq<char>) -> bool {
    forall|i: int| 0 <= i < c.len() ==> is_hex(#[trigger] c[i])
}

/// The result of decoding the characters `c` as hex.
pub open spec fn decoded(c: Seq<char>, r: Result<Vec<u8>, HexError>) -> bool {
    if c.len() % 2 != 0 {
        r == Err::<Vec<u8>, HexError>(HexError::OddLength)
    } else if all_hex(c) {
        r is Ok && r->Ok_0@ == hex_bytes(c)
    } else {
        exists|i: int|
            0 <= i < c.len() && !is_hex(c[i]) && (forall|j: int| 0 <= j < i ==> is_hex(#[trigger] c[j]))
                && r == Err::<Vec<u8>, HexError>(HexError::InvalidChar(c[i]))
    }
}

/// `c` has the Unicode `White_Space` property.
pub open spec fn is_white_space(c: char) -> bool {
    let u = c as u32;
    ||| (0x09 <= u && u <= 0x0d)
    ||| u == 0x20
    ||| u == 0x85
    ||| u == 0xa0
    ||| u == 0x1680
    ||| (0x2000 <= u && u <= 0x200a)
    ||| u == 0x2028
    ||| u == 0x2029
    ||| u == 0x202f
    ||| u == 0x205f
    ||| u == 0x3000
}

/// The number of white-space characters at the start of `s`.
pub open spec fn leading_ws(s: Seq<char>) -> nat
    decreases s.len(),
{
    if s.len() > 0 && is_white_space(s[0]) {
        1 + leading_ws(s.drop_first())
    } else {
        0
    }
}

/// The number of white-space characters at the end of `s`.
pub open spec fn trailing_ws(s: Seq<char>) -> nat
    decreases s.len(),
{
    if s.len() > 0 && is_white_space(s.last()) {
        1 + trailing_ws(s.drop_last())
    } else {
        0
    }
}

/// `s` without its leading and trailing white space.
pub open spec fn trim_spec(s: Seq<char>) -> Seq<char> {
    if leading_ws(s) >= s.len() {
        Seq::empty()
    } else {
        s.subrange(leading_ws(s) as int, s.len() - trailing_ws(s))
    }
}

/// Relies on `str::trim`, which removes the leading and trailing characters
/// that have the Unicode `White_Space` property.
#[verifier::external_body]
pub(crate) fn trim(s: &str) -> (r: &str)
    ensures
        r@ == trim_spec(s@),
{
    s.trim()
}

/// Relies on `String::push`, which appends one character.
#[verifier::external_body]
pub(crate) fn push_char(s: &mut String, c: char)
    ensures
        final(s)@ == old(s)@.push(c),
{
    s.push(c)
}

/// Lower-case hex encoding, two digits per byte.
pub fn encode(b: &[u8]) -> (r: String)
    ensures
        r@ == hex_string(b@),
{
    let mut s = String::new();
    let mut i: usize = 0;
    while i < b.len()
        invariant
            i <= b@.len(),
            s@ == hex_string(b@).take(2 * i),
        decreases b@.len() - i,
    {
        let byte = b[i];
        push_char(&mut s, hex_char(byte >> 4));
        push_char(&mut s, hex_char(byte & 0xF));
        proof {
            assert((2 * i) / 2 == i as int && (2 * i + 1) / 2 == i as int && (2 * i) % 2 == 0
                && (2 * i + 1) % 2 == 1);
        }
        i = i + 1;
        assert(s@ =~= hex_string(b@).take(2 * i));
    }
    assert(s@ =~= hex_string(b@));
    s
}

fn hex_char(n: u8) -> (r: char)
    ensures
        r == hex_char_spec(n),
{
    if n < 10 {
        (n + 48) as char
    } else if n < 16 {
        (n + 87) as char
    } else {
        '?'
    }
}

fn hex_val(c: char) -> (r: Result<u8, HexError>)
    ensures
        is_hex(c) ==> r == Ok::<u8, HexError>(hex_val_spec(c)),
        !is_hex(c) ==> r == Err::<u8, HexError>(HexError::InvalidChar(c)),
{
    if '0' <= c && c <= '9' {
        Ok((c as u32 - 48) as u8)
    } else if 'a' <= c && c <= 'f' {
        Ok((c as u32 - 87) as u8)
    } else if 'A' <= c && c <= 'F' {
        Ok((c as u32 - 55) as u8)
    } else {
        Err(HexError::InvalidChar(c))
    }
}

pub(crate) fn chars_of(s: &str) -> (r: Vec<char>)
    ensures
        r@ == s@,
{
    let mut it = s.chars();
    let mut v: Vec<char> = Vec::new();
    loop
        invariant
            v@ + it.remaining() == s@,
            it.decrease() is Some,
        ensures
            v@ == s@,
        decreases it.decrease()->0,
    {
        match it.next() {
            Some(c) => {
                v.push(c);
                assert(v@ + it.remaining() =~= s@);
            },
            None => {
                assert(v@ =~= s@);
                break ;
            },
        }
    }
    v
}

/// Decodes hex digits (either case) into bytes, after trimming surrounding
/// whitespace.
pub fn decode(s: &str) -> (r: Result<Vec<u8>, HexError>)
    ensures
        decoded(trim_spec(s@), r),
{
    decode_digits(trim(s))
}

/// Decodes a string made of hex digit pairs into bytes: `OddLength` for an odd
/// number of characters, otherwise `InvalidChar` with the first character that
/// is not a hex digit, if any.
pub fn decode_digits(s: &str) -> (r: Result<Vec<u8>, HexError>)
    ensures
        decoded(s@, r),
{
    let chars = chars_of(s);
    let len = chars.len();
    if len % 2 != 0 {
        return Err(HexError::OddLength);
    }
    let mut out: Vec<u8> = Vec::with_capacity(len / 2);
    let mut i: usize = 0;
    while i < len
        invariant
            chars@ == s@,
            len == chars@.len(),
            len % 2 == 0,
            i % 2 == 0,
            i <= len,
            forall|j: int| 0 <= j < i ==> is_hex(#[trigger] chars@[j]),
            out@ == hex_bytes(chars@).take((i / 2) as int),
        decreases len - i,
    {
        let hi = match hex_val(chars[i]) {
            Ok(v) => v,
            Err(e) => {
                return Err(e);
            },
        };
        let lo = match hex_val(chars[i + 1]) {
            Ok(v) => v,
            Err(e) => {
                assert(forall|j: int| 0 <= j < i + 1 ==> is_hex(#[trigger] chars@[j]));
                return Err(e);
            },
        };
        out.push((hi << 4) | lo);
        proof {
            assert(2 * (i / 2) == i);
        }
        i = i + 2;
        assert(out@ =~= hex_bytes(chars@).take((i / 2) as int));
    }
    assert(out@ =~= hex_bytes(chars@));
    Ok(out)
}

proof fn lemma_hex_digit(n: u8)
    requires
        n < 16,
    ensures
        is_hex(hex_char_spec(n)),
        !is_white_space(hex_char_spec(n)),
        hex_val_spec(hex_char_spec(n)) == n,
{
}

/// Encoding bytes as hex and decoding the text (trimmed or not) gives the
/// bytes back.
pub proof fn lemma_hex_round_trip(b: Seq<u8>)
    ensures
        trim_spec(hex_string(b)) == hex_string(b),
        hex_string(b).len() % 2 == 0,
        all_hex(hex_string(b)),
        hex_bytes(hex_string(b)) == b,
{
    let h = hex_string(b);
    assert forall|i: int| 0 <= i < h.len() implies is_hex(#[trigger] h[i]) && !is_white_space(h[i]) by {
        let x = b[i / 2];
        assert(x >> 4u8 < 16 && x & 0xfu8 < 16) by (bit_vector);
        lemma_hex_digit(x >> 4u8);
        lemma_hex_digit(x & 0xfu8);
    }
    assert(h.len() == 2 * b.len());
    if h.len() > 0 {
        assert(!is_white_space(h[0]));
        assert(!is_white_space(h.last()));
        assert(h.subrange(0, h.len() as int) =~= h);
    } else {
        assert(h =~= Seq::<char>::empty());
    }
    assert forall|i: int| 0 <= i < b.len() implies #[trigger] hex_bytes(h)[i] == b[i] by {
        let x = b[i];
        assert((2 * i) / 2 == i && (2 * i + 1) / 2 == i && (2 * i) % 2 == 0 && (2 * i + 1) % 2 == 1);
        assert(x >> 4u8 < 16 && x & 0xfu8 < 16 && ((x >> 4u8) << 4u8) | (x & 0xfu8) == x) by (bit_vector);
        lemma_hex_digit(x >> 4u8);
        lemma_hex_digit(x & 0xfu8);
    }
    assert(hex_bytes(h) =~= b);
}

} // verus!

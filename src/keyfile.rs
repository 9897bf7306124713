use vstd::prelude::*;

verus! {

/// Why a key file could not be read.
#[derive(Debug, Clone, Copy, PartialEq, Eq, Structural)]
pub enum KeyFileError {
    /// The key file does not hold exactly 32 bytes; the length found.
    InvalidSize(usize),
}

/// The 32-byte key file: the 16-byte key followed by the 16-byte IV.
pub fn keyfile_bytes(key: &[u8; 16], iv: &[u8; 16]) -> (r: Vec<u8>)
    ensures
        r@ == key@ + iv@,
{
    let mut out: Vec<u8> = Vec::with_capacity(32);
    let mut i: usize = 0;
    while i < 16
        invariant
            i <= 16,
            out@ == key@.take(i as int),
        decreases 16 - i,
    {
        out.push(key[i]);
        i = i + 1;
        assert(out@ =~= key@.take(i as int));
    }
    let mut i: usize = 0;
    while i < 16
        invariant
            i <= 16,
            out@ == key@ + iv@.take(i as int),
        decreases 16 - i,
    {
        out.push(iv[i]);
        i = i + 1;
        assert(out@ =~= key@ + iv@.take(i as int));
    }
    assert(iv@.take(16) =~= iv@);
    out
}

/// Splits a key file into key and IV; any length other than 32 is an error.
pub fn parse_keyfile(contents: &[u8]) -> (r: Result<([u8; 16], [u8; 16]), KeyFileError>)
    ensures
        contents@.len() != 32 <==> r == Err::<([u8; 16], [u8; 16]), KeyFileError>(
            KeyFileError::InvalidSize(contents@.len() as usize),
        ),
        contents@.len() == 32 ==> (r matches Ok((key, iv)) && key@ == contents@.subrange(0, 16)
            && iv@ == contents@.subrange(16, 32)),
{
    if contents.len() != 32 {
        return Err(KeyFileError::InvalidSize(contents.len()));
    }
    let mut key = [0u8; 16];
    let mut iv = [0u8; 16];
    let mut i: usize = 0;
    while i < 16
        invariant
            contents@.len() == 32,
            i <= 16,
            forall|j: int| 0 <= j < i ==> key@[j] == contents@[j] && iv@[j] == contents@[16 + j],
        decreases 16 - i,
    {
        key[i] = contents[i];
        iv[i] = contents[16 + i];
        i = i + 1;
    }
    assert(key@ =~= contents@.subrange(0, 16));
    assert(iv@ =~= contents@.subrange(16, 32));
    Ok((key, iv))
}

/// Writing a key file and reading it back gives the same key and IV.
pub proof fn lemma_keyfile_round_trip(key: Seq<u8>, iv: Seq<u8>)
    requires
        key.len() == 16,
        iv.len() == 16,
    ensures
        (key + iv).len() == 32,
        (key + iv).subrange(0, 16) == key,
        (key + iv).subrange(16, 32) == iv,
{
    assert((key + iv).subrange(0, 16) =~= key);
    assert((key + iv).subrange(16, 32) =~= iv);
}

} // verus!

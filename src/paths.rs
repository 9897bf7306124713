use vstd::prelude::*;

use crate::hex::{chars_of, push_char};

verus! {

/// `i` is the last position of `c` in `s`.
pub open spec fn is_last(s: Seq<char>, c: char, i: int) -> bool {
    &&& 0 <= i < s.len()
    &&& s[i] == c
    &&& forall|j: int| i < j < s.len() ==> s[j] != c
}

/// `prefix` inserted before the file name part of `f`, split off at the last
/// `sep`.
pub open spec fn prefixed_at(f: Seq<char>, prefix: Seq<char>, i: int) -> Seq<char> {
    f.take(i + 1) + prefix + f.skip(i + 1)
}

/// The path `f` with `prefix` put before its file name: the file name starts
/// after the last `\`, or else after the last `/`, or else is all of `f`.
pub open spec fn with_prefix(f: Seq<char>, prefix: Seq<char>, r: Seq<char>) -> bool {
    if f.contains('\\') {
        exists|i: int| is_last(f, '\\', i) && r == prefixed_at(f, prefix, i)
    } else if f.contains('/') {
        exists|i: int| is_last(f, '/', i) && r == prefixed_at(f, prefix, i)
    } else {
        r == prefix + f
    }
}

fn last_index(s: &Vec<char>, c: char) -> (r: Option<usize>)
    ensures
        match r {
            Some(i) => is_last(s@, c, i as int),
            None => !s@.contains(c),
        },
{
    let mut i: usize = s.len();
    while i > 0
        invariant
            i <= s@.len(),
            forall|j: int| i <= j < s@.len() ==> s@[j] != c,
        decreases i,
    {
        if s[i - 1] == c {
            return Some(i - 1);
        }
        i = i - 1;
    }
    None
}

fn push_all(out: &mut String, s: &Vec<char>, from: usize, to: usize)
    requires
        from <= to <= s@.len(),
    ensures
        final(out)@ == old(out)@ + s@.subrange(from as int, to as int),
{
    let mut k: usize = from;
    while k < to
        invariant
            from <= k <= to,
            to <= s@.len(),
            out@ == old(out)@ + s@.subrange(from as int, k as int),
        decreases to - k,
    {
        push_char(out, s[k]);
        k = k + 1;
        assert(out@ =~= old(out)@ + s@.subrange(from as int, k as int));
    }
}

/// Puts `prefix` before the file name of the path `filename`.
pub fn add_fileprefix(filename: &str, prefix: &str) -> (r: String)
    ensures
        with_prefix(filename@, prefix@, r@),
{
    let f = chars_of(filename);
    let p = chars_of(prefix);
    let split = match last_index(&f, '\\') {
        Some(i) => Some(i),
        None => last_index(&f, '/'),
    };
    let flen = f.len();
    let mut out = String::new();
    match split {
        Some(i) => {
            assert(i < flen);
            push_all(&mut out, &f, 0, i + 1);
            push_all(&mut out, &p, 0, p.len());
            push_all(&mut out, &f, i + 1, f.len());
            assert(out@ =~= prefixed_at(f@, p@, i as int));
        },
        None => {
            push_all(&mut out, &p, 0, p.len());
            push_all(&mut out, &f, 0, f.len());
            assert(out@ =~= p@ + f@);
        },
    }
    out
}

/// Puts `e` before the file name of the path `filename`.
pub fn add_e_prefix(filename: &str) -> (r: String)
    ensures
        with_prefix(filename@, seq!['e'], r@),
{
    proof {
        reveal_strlit("e");
    }
    let e = "e";
    assert(e@ =~= seq!['e']);
    add_fileprefix(filename, e)
}

} // verus!

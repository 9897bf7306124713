use rand::seq::SliceRandom;
use vstd::prelude::*;

verus! {

/// A symbol of a machine alphabet: copied freely and compared by value, with a
/// numeric code that orders an alphabet.
pub trait Symbol: Copy + Sized {
    /// The code that orders symbols.
    spec fn code_spec(&self) -> u32;

    fn code(&self) -> (r: u32)
        ensures
            r == self.code_spec(),
    ;

    fn same(&self, other: &Self) -> (r: bool)
        ensures
            r == (*self == *other),
    ;
}

impl Symbol for u8 {
    open spec fn code_spec(&self) -> u32 {
        *self as u32
    }

    fn code(&self) -> (r: u32) {
        *self as u32
    }

    fn same(&self, other: &u8) -> (r: bool) {
        *self == *other
    }
}

impl Symbol for char {
    open spec fn code_spec(&self) -> u32 {
        *self as u32
    }

    fn code(&self) -> (r: u32) {
        *self as u32
    }

    fn same(&self, other: &char) -> (r: bool) {
        *self == *other
    }
}

/// `i` is the first position of `x` in `s`.
pub open spec fn is_first<T>(s: Seq<T>, x: T, i: int) -> bool {
    &&& 0 <= i < s.len()
    &&& s[i] == x
    &&& forall|j: int| 0 <= j < i ==> s[j] != x
}

/// The first position of `x` in `s`, or -1 when `s` does not hold `x`.
pub open spec fn index_of<T>(s: Seq<T>, x: T) -> int {
    if s.contains(x) {
        choose|i: int| is_first(s, x, i)
    } else {
        -1
    }
}

/// Finds the first position of `x` in `s`.
pub fn position<T: Symbol>(s: &Vec<T>, x: &T) -> (r: Option<usize>)
    ensures
        match r {
            Some(i) => index_of(s@, *x) == i as int && i < s@.len(),
            None => index_of(s@, *x) == -1,
        },
{
    let mut i: usize = 0;
    while i < s.len()
        invariant
            i <= s@.len(),
            forall|j: int| 0 <= j < i ==> s@[j] != *x,
        decreases s@.len() - i,
    {
        if s[i].same(x) {
            proof {
                assert(is_first(s@, *x, i as int));
                assert(s@.contains(*x));
                let k = choose|k: int| is_first(s@, *x, k);
                assert(k == i as int);
            }
            return Some(i);
        }
        i = i + 1;
    }
    None
}

/// A copy of a sequence of symbols.
pub fn copy_symbols<T: Symbol>(s: &[T]) -> (r: Vec<T>)
    ensures
        r@ == s@,
{
    let mut out: Vec<T> = Vec::with_capacity(s.len());
    let mut i: usize = 0;
    while i < s.len()
        invariant
            i <= s@.len(),
            out@ == s@.take(i as int),
        decreases s@.len() - i,
    {
        out.push(s[i]);
        i = i + 1;
        assert(out@ =~= s@.take(i as int));
    }
    assert(out@ =~= s@);
    out
}

/// Relies on rand's `SliceRandom::shuffle` with the thread-local generator:
/// the result holds the same symbols in some order.
#[verifier::external_body]
pub(crate) fn shuffled<T: Symbol>(s: &[T]) -> (r: Vec<T>)
    ensures
        r@.len() == s@.len(),
        r@.to_multiset() == s@.to_multiset(),
{
    let mut v = s.to_vec();
    v.shuffle(&mut rand::rng());
    v
}

/// Relies on `slice::sort_by_key`: the result holds the same symbols in
/// ascending order of their codes.
#[verifier::external_body]
pub(crate) fn sorted<T: Symbol>(s: &[T]) -> (r: Vec<T>)
    ensures
        r@.len() == s@.len(),
        r@.to_multiset() == s@.to_multiset(),
        forall|i: int, j: int| 0 <= i < j < r@.len() ==> r@[i].code_spec() <= r@[j].code_spec(),
{
    let mut v = s.to_vec();
    v.sort_by_key(|x| x.code());
    v
}

} // verus!

use vstd::prelude::*;

use crate::symbol::{copy_symbols, index_of, position, shuffled, Symbol};

verus! {

/// Where a reflector with wiring `a` sends `x`: the partner of `x` in the pairs
/// `(a[0], a[1]), (a[2], a[3]), ...`; the last symbol of an odd wiring is its
/// own partner.
pub open spec fn reflect_at<T>(a: Seq<T>, x: T) -> Option<T> {
    let i = index_of(a, x);
    if i < 0 {
        None
    } else if i == a.len() - 1 && a.len() % 2 != 0 {
        Some(a[i])
    } else {
        Some(a[if i % 2 == 0 { i + 1 } else { i - 1 }])
    }
}

/// Where a reflector with an even-length wiring `a` sends `x`: the partner of
/// `x` in the pairs `(a[0], a[1]), (a[2], a[3]), ...`.
pub open spec fn pair_reflect_at<T>(a: Seq<T>, x: T) -> Option<T> {
    let i = index_of(a, x);
    if i < 0 {
        None
    } else {
        Some(a[if i % 2 == 0 { i + 1 } else { i - 1 }])
    }
}

/// A reflector that pairs the symbols of an even-length wiring.
pub struct StdReflector<T> {
    alphabet: Vec<T>,
}

impl<T: Symbol> StdReflector<T> {
    /// The wiring.
    pub closed spec fn wiring(&self) -> Seq<T> {
        self.alphabet@
    }

    pub closed spec fn wf(&self) -> bool {
        self.alphabet@.len() % 2 == 0
    }

    /// A reflector with a random pairing of `alphabet`; fails on an odd alphabet.
    pub fn from_alphabet(alphabet: &[T]) -> (r: Result<Self, &'static str>)
        ensures
            alphabet@.len() % 2 != 0 <==> r is Err,
            r matches Ok(x) ==> x.wf() && x.wiring().to_multiset() == alphabet@.to_multiset(),
    {
        if alphabet.len() % 2 != 0 {
            return Err("Error: Can't be odd alphabet");
        }
        Ok(StdReflector { alphabet: shuffled(alphabet) })
    }

    /// The reflector with wiring `config`; fails on an odd-length wiring.
    pub fn from_config(config: &[T]) -> (r: Result<Self, &'static str>)
        ensures
            config@.len() % 2 != 0 <==> r is Err,
            r matches Ok(x) ==> x.wf() && x.wiring() == config@,
    {
        if config.len() % 2 != 0 {
            return Err("Error: Can't be odd alphabet");
        }
        Ok(StdReflector { alphabet: copy_symbols(config) })
    }

    /// The wiring.
    pub fn get_config(&self) -> (r: Vec<T>)
        ensures
            r@ == self.wiring(),
    {
        copy_symbols(self.alphabet.as_slice())
    }

    /// The partner of `input`; `None` when it is not in the wiring.
    pub fn reflect(&self, input: &T) -> (r: Option<T>)
        requires
            self.wf(),
        ensures
            r == pair_reflect_at(self.wiring(), *input),
    {
        match position(&self.alphabet, input) {
            Some(i) => Some(self.alphabet[if i % 2 == 0 { i + 1 } else { i - 1 }]),
            None => None,
        }
    }
}

/// A reflector that pairs consecutive symbols of its wiring; with an odd
/// wiring the last symbol maps to itself.
pub struct Reflector<T> {
    alphabet: Vec<T>,
}

impl<T: Symbol> Reflector<T> {
    /// The wiring.
    pub closed spec fn wiring(&self) -> Seq<T> {
        self.alphabet@
    }

    /// A reflector with a random wiring over `alphabet`.
    pub fn from_alphabet(alphabet: &[T]) -> (r: Self)
        ensures
            r.wiring().to_multiset() == alphabet@.to_multiset(),
            r.wiring().len() == alphabet@.len(),
    {
        Reflector { alphabet: shuffled(alphabet) }
    }

    /// The reflector with wiring `config`.
    pub fn from_config(config: &[T]) -> (r: Self)
        ensures
            r.wiring() == config@,
    {
        Reflector { alphabet: copy_symbols(config) }
    }

    /// The wiring.
    pub fn get_config(&self) -> (r: Vec<T>)
        ensures
            r@ == self.wiring(),
    {
        copy_symbols(self.alphabet.as_slice())
    }

    /// The partner of `input`; `None` when it is not in the wiring.
    pub fn reflect(&self, input: &T) -> (r: Option<T>)
        ensures
            r == reflect_at(self.wiring(), *input),
    {
        match position(&self.alphabet, input) {
            Some(i) => {
                if i == self.alphabet.len() - 1 && self.alphabet.len() % 2 != 0 {
                    Some(self.alphabet[i])
                } else {
                    Some(self.alphabet[if i % 2 == 0 { i + 1 } else { i - 1 }])
                }
            },
            None => None,
        }
    }
}

} // verus!

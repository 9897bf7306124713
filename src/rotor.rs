use vstd::prelude::*;

use crate::symbol::{copy_symbols, index_of, position, shuffled, sorted, Symbol};

verus! {

/// The symbol a rotor with inputs `fwd`, outputs `bwd` and offset `pos` maps `x`
/// to on the way in: the output `pos` places after the position of `x` in `fwd`.
pub open spec fn forward_at<T>(fwd: Seq<T>, bwd: Seq<T>, pos: nat, x: T) -> Option<T> {
    let i = index_of(fwd, x);
    if i < 0 {
        None
    } else {
        Some(bwd[(i + pos) % (bwd.len() as int)])
    }
}

/// The symbol the same rotor maps `x` to on the way back: the inverse of
/// `forward_at` when `fwd` and `bwd` hold distinct symbols.
pub open spec fn backward_at<T>(fwd: Seq<T>, bwd: Seq<T>, pos: nat, x: T) -> Option<T> {
    let i = index_of(bwd, x);
    if i < 0 {
        None
    } else {
        Some(fwd[(i + fwd.len() - pos) % (fwd.len() as int)])
    }
}

/// A rotor: a wiring from the sorted alphabet to a permutation of it, turned
/// by an offset that advances one step at a time.
pub struct Rotor<T> {
    position: usize,
    alphabet_len: usize,
    forward_alphabet: Vec<T>,
    backward_alphabet: Vec<T>,
}

impl<T: Symbol> Rotor<T> {
    /// The input side of the wiring.
    pub closed spec fn fwd(&self) -> Seq<T> {
        self.forward_alphabet@
    }

    /// The output side of the wiring, which is also the rotor's configuration.
    pub closed spec fn bwd(&self) -> Seq<T> {
        self.backward_alphabet@
    }

    /// The current offset.
    pub closed spec fn pos(&self) -> nat {
        self.position as nat
    }

    pub closed spec fn wf(&self) -> bool {
        &&& self.alphabet_len == self.forward_alphabet@.len()
        &&& self.alphabet_len == self.backward_alphabet@.len()
        &&& (self.position < self.alphabet_len || (self.alphabet_len == 0 && self.position == 0))
    }

    /// A rotor with a random wiring over `alphabet`, at offset 0.
    pub fn from_alphabet(alphabet: &[T]) -> (r: Self)
        ensures
            r.wf(),
            r.pos() == 0,
            r.fwd().to_multiset() == alphabet@.to_multiset(),
            r.bwd().to_multiset() == alphabet@.to_multiset(),
            forall|i: int, j: int|
                0 <= i < j < r.fwd().len() ==> r.fwd()[i].code_spec() <= r.fwd()[j].code_spec(),
    {
        let sorted_alphabet = sorted(alphabet);
        let shuffled_alphabet = shuffled(alphabet);
        Rotor {
            alphabet_len: alphabet.len(),
            forward_alphabet: sorted_alphabet,
            backward_alphabet: shuffled_alphabet,
            position: 0,
        }
    }

    /// The rotor whose outputs are `config` in order and whose inputs are
    /// `config` sorted, at offset 0.
    pub fn from_config(config: &[T]) -> (r: Self)
        ensures
            r.wf(),
            r.pos() == 0,
            r.bwd() == config@,
            r.fwd().to_multiset() == config@.to_multiset(),
            forall|i: int, j: int|
                0 <= i < j < r.fwd().len() ==> r.fwd()[i].code_spec() <= r.fwd()[j].code_spec(),
    {
        let sorted_alphabet = sorted(config);
        Rotor {
            alphabet_len: config.len(),
            forward_alphabet: sorted_alphabet,
            backward_alphabet: copy_symbols(config),
            position: 0,
        }
    }

    /// The rotor's configuration: its outputs in order.
    pub fn get_config(&self) -> (r: Vec<T>)
        ensures
            r@ == self.bwd(),
    {
        copy_symbols(self.backward_alphabet.as_slice())
    }

    /// Maps a symbol on the way in; `None` when it is not in the alphabet.
    pub fn forward(&self, input: &T) -> (r: Option<T>)
        requires
            self.wf(),
        ensures
            r == forward_at(self.fwd(), self.bwd(), self.pos(), *input),
    {
        match position(&self.forward_alphabet, input) {
            Some(i) => {
                let len = self.alphabet_len;
                let pos = self.position;
                let j = if i >= len - pos {
                    i - (len - pos)
                } else {
                    i + pos
                };
                assert(j as int == (i + pos) % (len as int)) by (nonlinear_arith)
                    requires
                        i < len,
                        pos < len,
                        j == (if i >= len - pos { i - (len - pos) } else { i + pos }),
                ;
                Some(self.backward_alphabet[j])
            },
            None => None,
        }
    }

    /// Maps a symbol on the way back; `None` when it is not in the alphabet.
    pub fn backward(&self, input: &T) -> (r: Option<T>)
        requires
            self.wf(),
        ensures
            r == backward_at(self.fwd(), self.bwd(), self.pos(), *input),
    {
        match position(&self.backward_alphabet, input) {
            Some(i) => {
                let len = self.alphabet_len;
                let pos = self.position;
                let j = if i >= pos {
                    i - pos
                } else {
                    i + (len - pos)
                };
                assert(j as int == (i + len - pos) % (len as int)) by (nonlinear_arith)
                    requires
                        i < len,
                        pos < len,
                        j == (if i >= pos { i - pos } else { i + (len - pos) }),
                ;
                Some(self.forward_alphabet[j])
            },
            None => None,
        }
    }

    /// Whether the offset is back at 0.
    pub fn is_at_init_position(&self) -> (r: bool)
        ensures
            r == (self.pos() == 0),
    {
        self.position == 0
    }

    /// Advances the offset by one step, wrapping around the alphabet.
    pub fn rotate(&mut self)
        requires
            old(self).wf(),
            old(self).fwd().len() > 0,
        ensures
            final(self).wf(),
            final(self).fwd() == old(self).fwd(),
            final(self).bwd() == old(self).bwd(),
            final(self).pos() == (old(self).pos() + 1) % old(self).fwd().len(),
    {
        self.position = (self.position + 1) % self.alphabet_len;
    }

    /// Puts the offset back to 0.
    pub fn reset(&mut self)
        requires
            old(self).wf(),
        ensures
            final(self).wf(),
            final(self).fwd() == old(self).fwd(),
            final(self).bwd() == old(self).bwd(),
            final(self).pos() == 0,
    {
        self.position = 0;
    }
}

} // verus!

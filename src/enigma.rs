use vstd::prelude::*;

use crate::reflector::{reflect_at, Reflector};
use crate::rotor::{backward_at, forward_at, Rotor};
use crate::symbol::{index_of, is_first, Symbol};
use vstd::arithmetic::div_mod::{lemma_mod_add_multiples_vanish, lemma_small_mod};

verus! {

/// What a machine is wired with: the plugboard wiring (if any), the reflector
/// wiring, and for each rotor its input side and its output side.
pub type Wiring<T> = (Option<Seq<T>>, Seq<T>, Seq<Seq<T>>, Seq<Seq<T>>);

/// The plugboard applied to a symbol, if any.
pub open spec fn plug<T>(w: Wiring<T>, x: Option<T>) -> Option<T> {
    match x {
        None => None,
        Some(y) => match w.0 {
            Some(c) => reflect_at(c, y),
            None => Some(y),
        },
    }
}

/// Rotors `0 .. n` applied in order on the way in, at offsets `pos`.
pub open spec fn forward_through<T>(w: Wiring<T>, pos: Seq<nat>, x: Option<T>, n: nat) -> Option<T>
    decreases n,
{
    if n == 0 {
        x
    } else {
        match forward_through(w, pos, x, (n - 1) as nat) {
            Some(y) => forward_at(w.2[n - 1], w.3[n - 1], pos[n - 1], y),
            None => None,
        }
    }
}

/// Rotors `k - 1` down to `0` applied on the way back, at offsets `pos`.
pub open spec fn backward_from<T>(w: Wiring<T>, pos: Seq<nat>, x: Option<T>, k: nat) -> Option<T>
    decreases k,
{
    if k == 0 {
        x
    } else {
        backward_from(
            w,
            pos,
            match x {
                Some(y) => backward_at(w.2[k - 1], w.3[k - 1], pos[k - 1], y),
                None => None,
            },
            (k - 1) as nat,
        )
    }
}

/// The symbol `x` becomes with the rotors at offsets `pos`: plugboard, rotors
/// in order, reflector, rotors in reverse order, plugboard; `None` when some
/// stage does not know the symbol it is given.
pub open spec fn substitute<T>(w: Wiring<T>, pos: Seq<nat>, x: T) -> Option<T> {
    let n = w.2.len();
    let b = forward_through(w, pos, plug(w, Some(x)), n);
    let c = match b {
        Some(y) => reflect_at(w.1, y),
        None => None,
    };
    plug(w, backward_from(w, pos, c, n))
}

/// The offset of rotor `i` after one step from `pos`: the first rotor always
/// turns, and each later rotor turns when the one before it is at offset 0
/// after its own turn.
pub open spec fn next_pos<T>(w: Wiring<T>, pos: Seq<nat>, i: nat) -> nat
    decreases i,
{
    if i == 0 || next_pos(w, pos, (i - 1) as nat) == 0 {
        (pos[i as int] + 1) % w.2[i as int].len()
    } else {
        pos[i as int]
    }
}

/// The offsets after one step from `pos`.
pub open spec fn step<T>(w: Wiring<T>, pos: Seq<nat>) -> Seq<nat> {
    Seq::new(pos.len(), |i: int| next_pos(w, pos, i as nat))
}

/// The offsets after `k` steps from `pos`.
pub open spec fn positions_after<T>(w: Wiring<T>, pos: Seq<nat>, k: nat) -> Seq<nat>
    decreases k,
{
    if k == 0 {
        pos
    } else {
        step(w, positions_after(w, pos, (k - 1) as nat))
    }
}

proof fn lemma_forward_none<T>(w: Wiring<T>, pos: Seq<nat>, m: nat)
    ensures
        forward_through(w, pos, None, m) is None,
    decreases m,
{
    if m > 0 {
        lemma_forward_none(w, pos, (m - 1) as nat);
    }
}

proof fn lemma_backward_none<T>(w: Wiring<T>, pos: Seq<nat>, m: nat)
    ensures
        backward_from(w, pos, None, m) is None,
    decreases m,
{
    if m > 0 {
        lemma_backward_none(w, pos, (m - 1) as nat);
    }
}

proof fn lemma_forward_none_after<T>(w: Wiring<T>, pos: Seq<nat>, x: Option<T>, m: nat, m2: nat)
    requires
        m <= m2,
        forward_through(w, pos, x, m) is None,
    ensures
        forward_through(w, pos, x, m2) is None,
    decreases m2,
{
    if m2 > m {
        lemma_forward_none_after(w, pos, x, m, (m2 - 1) as nat);
    }
}

/// A forward pass that gets through rotors `0 .. m` meets no empty rotor.
proof fn lemma_forward_some<T>(w: Wiring<T>, pos: Seq<nat>, x: Option<T>, m: nat)
    requires
        forward_through(w, pos, x, m) is Some,
    ensures
        forall|i: int| 0 <= i < m ==> (#[trigger] w.2[i]).len() > 0,
    decreases m,
{
    if m > 0 {
        lemma_forward_some(w, pos, x, (m - 1) as nat);
    }
}

// ---------------------------------------------------------------------------
// The machine is its own inverse.
// ---------------------------------------------------------------------------

/// `s` holds the symbols of `a` once each: a permutation of a duplicate-free
/// alphabet.
pub open spec fn is_arrangement<T>(s: Seq<T>, a: Seq<T>) -> bool {
    &&& s.len() == a.len()
    &&& s.no_duplicates()
    &&& forall|y: T| #[trigger] s.contains(y) <==> a.contains(y)
}

/// Every wiring of `w` is a permutation of the non-empty alphabet `a`, and
/// `pos` holds one offset per rotor, each less than the alphabet's size.
pub open spec fn wired_over<T>(w: Wiring<T>, pos: Seq<nat>, a: Seq<T>) -> bool {
    &&& a.len() > 0
    &&& (w.0 matches Some(c) ==> is_arrangement(c, a))
    &&& is_arrangement(w.1, a)
    &&& w.3.len() == w.2.len()
    &&& pos.len() == w.2.len()
    &&& forall|i: int|
        0 <= i < w.2.len() ==> is_arrangement(#[trigger] w.2[i], a) && is_arrangement(w.3[i], a)
            && pos[i] < a.len()
}

proof fn lemma_index_of_nodup<T>(s: Seq<T>, k: int)
    requires
        s.no_duplicates(),
        0 <= k < s.len(),
    ensures
        index_of(s, s[k]) == k,
{
    assert(is_first(s, s[k], k));
    assert(s.contains(s[k]));
    let i = choose|i: int| is_first(s, s[k], i);
    assert(s[i] == s[k]);
}

proof fn lemma_index_of_contains<T>(s: Seq<T>, x: T)
    requires
        s.no_duplicates(),
        s.contains(x),
    ensures
        0 <= index_of(s, x) < s.len(),
        s[index_of(s, x)] == x,
{
    let k = choose|k: int| 0 <= k < s.len() && s[k] == x;
    lemma_index_of_nodup(s, k);
}

proof fn lemma_mod_range(x: int, n: int)
    requires
        0 < n,
        0 <= x < 2 * n,
    ensures
        x % n == (if x < n { x } else { x - n }),
{
    if x < n {
        lemma_small_mod(x as nat, n as nat);
    } else {
        lemma_mod_add_multiples_vanish(x - n, n);
        lemma_small_mod((x - n) as nat, n as nat);
    }
}

/// A reflector over a duplicate-free wiring pairs symbols: applied twice it
/// gives the symbol back.
proof fn lemma_reflect_involution<T>(r: Seq<T>, x: T)
    requires
        r.no_duplicates(),
        r.contains(x),
    ensures
        reflect_at(r, x) matches Some(y) && r.contains(y) && reflect_at(r, y) == Some(x),
{
    lemma_index_of_contains(r, x);
    let i = index_of(r, x);
    let n = r.len() as int;
    let p = if i == n - 1 && n % 2 != 0 {
        i
    } else if i % 2 == 0 {
        i + 1
    } else {
        i - 1
    };
    assert(0 <= p < n);
    assert(reflect_at(r, x) == Some(r[p]));
    lemma_index_of_nodup(r, p);
    assert(r.contains(r[p]));
}

/// Through one rotor and back gives the symbol back, in both orders.
proof fn lemma_rotor_inverse<T>(fwd: Seq<T>, bwd: Seq<T>, p: nat, a: Seq<T>, x: T)
    requires
        is_arrangement(fwd, a),
        is_arrangement(bwd, a),
        a.len() > 0,
        p < a.len(),
        a.contains(x),
    ensures
        forward_at(fwd, bwd, p, x) matches Some(y) && a.contains(y) && backward_at(fwd, bwd, p, y)
            == Some(x),
        backward_at(fwd, bwd, p, x) matches Some(z) && a.contains(z) && forward_at(fwd, bwd, p, z)
            == Some(x),
{
    let n = a.len() as int;
    assert(fwd.contains(x));
    assert(bwd.contains(x));
    lemma_index_of_contains(fwd, x);
    let i = index_of(fwd, x);
    lemma_mod_range(i + p, n);
    let j = (i + p) % n;
    assert(bwd.contains(bwd[j]));
    lemma_index_of_nodup(bwd, j);
    lemma_mod_range(j + n - p, n);
    lemma_index_of_contains(bwd, x);
    let k = index_of(bwd, x);
    lemma_mod_range(k + n - p, n);
    let m = (k + n - p) % n;
    assert(fwd.contains(fwd[m]));
    lemma_index_of_nodup(fwd, m);
    lemma_mod_range(m + p, n);
}

proof fn lemma_rotors_inverse<T>(w: Wiring<T>, pos: Seq<nat>, a: Seq<T>, x: T, n: nat)
    requires
        wired_over(w, pos, a),
        n <= w.2.len(),
        a.contains(x),
    ensures
        forward_through(w, pos, Some(x), n) matches Some(y) && a.contains(y) && backward_from(
            w,
            pos,
            Some(y),
            n,
        ) == Some(x),
        backward_from(w, pos, Some(x), n) matches Some(z) && a.contains(z) && forward_through(
            w,
            pos,
            Some(z),
            n,
        ) == Some(x),
    decreases n,
{
    if n > 0 {
        let k = n - 1;
        assert(is_arrangement(w.2[k], a));
        lemma_rotors_inverse(w, pos, a, x, (n - 1) as nat);
        let y0 = forward_through(w, pos, Some(x), (n - 1) as nat)->0;
        lemma_rotor_inverse(w.2[k], w.3[k], pos[k], a, y0);
        lemma_rotor_inverse(w.2[k], w.3[k], pos[k], a, x);
        let x1 = backward_at(w.2[k], w.3[k], pos[k], x)->0;
        lemma_rotors_inverse(w, pos, a, x1, (n - 1) as nat);
    }
}

proof fn lemma_plug_involution<T>(w: Wiring<T>, pos: Seq<nat>, a: Seq<T>, x: T)
    requires
        wired_over(w, pos, a),
        a.contains(x),
    ensures
        plug(w, Some(x)) matches Some(y) && a.contains(y) && plug(w, Some(y)) == Some(x),
{
    if let Some(c) = w.0 {
        assert(c.contains(x));
        lemma_reflect_involution(c, x);
    }
}

/// The machine is its own inverse at any offsets: when every wiring is a
/// permutation of one duplicate-free alphabet, each symbol of the alphabet
/// maps to a symbol of the alphabet that maps back to it.
pub proof fn lemma_substitute_involution<T>(w: Wiring<T>, pos: Seq<nat>, a: Seq<T>, x: T)
    requires
        wired_over(w, pos, a),
        a.contains(x),
    ensures
        substitute(w, pos, x) matches Some(y) && a.contains(y) && substitute(w, pos, y) == Some(x),
{
    let n = w.2.len();
    lemma_plug_involution(w, pos, a, x);
    let x1 = plug(w, Some(x))->0;
    lemma_rotors_inverse(w, pos, a, x1, n);
    let y1 = forward_through(w, pos, Some(x1), n)->0;
    assert(w.1.contains(y1));
    lemma_reflect_involution(w.1, y1);
    let r1 = reflect_at(w.1, y1)->0;
    lemma_rotors_inverse(w, pos, a, r1, n);
    let z1 = backward_from(w, pos, Some(r1), n)->0;
    lemma_plug_involution(w, pos, a, z1);
    let y = plug(w, Some(z1))->0;
    assert(substitute(w, pos, x) == Some(y));
    assert(plug(w, Some(y)) == Some(z1));
    assert(forward_through(w, pos, Some(z1), n) == Some(r1));
    assert(reflect_at(w.1, r1) == Some(y1));
    assert(backward_from(w, pos, Some(y1), n) == Some(x1));
}

/// A sequence with the same symbols as a duplicate-free alphabet, counted
/// with multiplicity, is a permutation of it.
pub proof fn lemma_arrangement_of_multiset<T>(s: Seq<T>, a: Seq<T>)
    requires
        a.no_duplicates(),
        s.to_multiset() == a.to_multiset(),
    ensures
        is_arrangement(s, a),
{
    s.to_multiset_ensures();
    a.to_multiset_ensures();
    a.lemma_multiset_has_no_duplicates();
    s.lemma_multiset_has_no_duplicates_conv();
    assert forall|y: T| #[trigger] s.contains(y) <==> a.contains(y) by {
        s.to_multiset_ensures();
        a.to_multiset_ensures();
        assert(s.to_multiset().count(y) == a.to_multiset().count(y));
        assert(s.contains(y) <==> s.to_multiset().count(y) > 0);
        assert(a.contains(y) <==> a.to_multiset().count(y) > 0);
    }
    assert(s.len() == s.to_multiset().len());
    assert(a.len() == a.to_multiset().len());
}

proof fn lemma_step_valid<T>(w: Wiring<T>, pos: Seq<nat>, a: Seq<T>)
    requires
        wired_over(w, pos, a),
    ensures
        wired_over(w, step(w, pos), a),
{
    assert forall|i: int| 0 <= i < w.2.len() implies is_arrangement(#[trigger] w.2[i], a)
        && is_arrangement(w.3[i], a) && step(w, pos)[i] < a.len() by {
        assert(is_arrangement(w.2[i], a));
        lemma_mod_range(pos[i] + 1 as int, a.len() as int);
    }
}

/// Stepping keeps a machine wired over its alphabet: the offsets stay below
/// the alphabet's size.
pub proof fn lemma_after_valid<T>(w: Wiring<T>, pos: Seq<nat>, a: Seq<T>, k: nat)
    requires
        wired_over(w, pos, a),
    ensures
        wired_over(w, positions_after(w, pos, k), a),
    decreases k,
{
    if k > 0 {
        lemma_after_valid(w, pos, a, (k - 1) as nat);
        lemma_step_valid(w, positions_after(w, pos, (k - 1) as nat), a);
    }
}

/// Encrypting a text and then, from the same starting offsets, encrypting the
/// result gives the text back: symbol `j` is handled at the offsets reached
/// after `j` steps both times, and the substitution there is an involution.
pub proof fn lemma_symbols_round_trip<T>(w: Wiring<T>, pos: Seq<nat>, a: Seq<T>, buf: Seq<T>, v: Seq<T>)
    requires
        wired_over(w, pos, a),
        v.len() == buf.len(),
        forall|j: int| 0 <= j < buf.len() ==> a.contains(#[trigger] buf[j]),
        forall|j: int|
            0 <= j < buf.len() ==> substitute(w, positions_after(w, pos, j as nat), #[trigger] buf[j])
                == Some(v[j]),
    ensures
        forall|j: int|
            0 <= j < buf.len() ==> substitute(w, positions_after(w, pos, j as nat), #[trigger] v[j])
                == Some(buf[j]),
{
    assert forall|j: int| 0 <= j < buf.len() implies substitute(
        w,
        positions_after(w, pos, j as nat),
        #[trigger] v[j],
    ) == Some(buf[j]) by {
        lemma_after_valid(w, pos, a, j as nat);
        lemma_substitute_involution(w, positions_after(w, pos, j as nat), a, buf[j]);
    }
}

/// A rotor cipher machine: an optional plugboard (commutator), a row of rotors
/// and a reflector. Each symbol goes through the plugboard, the rotors in
/// order, the reflector, the rotors in reverse order and the plugboard again;
/// then the rotors step like an odometer.
pub struct Enigma<T> {
    commutator: Option<Reflector<T>>,
    reflector: Reflector<T>,
    rotors: Vec<Rotor<T>>,
}

impl<T: Symbol> Enigma<T> {
    pub closed spec fn wf(&self) -> bool {
        &&& forall|i: int| 0 <= i < self.rotors@.len() ==> (#[trigger] self.rotors@[i]).wf()
    }

    /// The machine's wiring.
    pub closed spec fn wiring(&self) -> Wiring<T> {
        (
            match self.commutator {
                Some(c) => Some(c.wiring()),
                None => None,
            },
            self.reflector.wiring(),
            Seq::new(self.rotors@.len(), |i: int| self.rotors@[i].fwd()),
            Seq::new(self.rotors@.len(), |i: int| self.rotors@[i].bwd()),
        )
    }

    /// The current offset of each rotor.
    pub closed spec fn positions(&self) -> Seq<nat> {
        Seq::new(self.rotors@.len(), |i: int| self.rotors@[i].pos())
    }

    /// The number of rotors.
    pub open spec fn rotor_count(&self) -> nat {
        self.wiring().2.len()
    }

    /// The plugboard wiring, if there is a plugboard.
    pub open spec fn commutator_wiring(&self) -> Option<Seq<T>> {
        self.wiring().0
    }

    /// The reflector wiring.
    pub open spec fn reflector_wiring(&self) -> Seq<T> {
        self.wiring().1
    }

    /// The configuration (output side) of each rotor.
    pub open spec fn rotor_configs(&self) -> Seq<Seq<T>> {
        self.wiring().3
    }

    /// Both machines have the same wiring.
    pub open spec fn same_wiring(&self, other: &Self) -> bool {
        self.wiring() == other.wiring()
    }

    /// A machine at offset 0 whose wirings hold the symbols of a duplicate-free
    /// alphabet is wired over that alphabet, so the round-trip laws apply to it.
    pub proof fn lemma_wired_over_alphabet(&self, a: Seq<T>)
        requires
            a.len() > 0,
            a.no_duplicates(),
            self.positions() == Seq::new(self.rotor_count(), |i: int| 0nat),
            self.commutator_wiring() matches Some(c) ==> c.to_multiset() == a.to_multiset(),
            self.reflector_wiring().to_multiset() == a.to_multiset(),
            forall|i: int|
                0 <= i < self.rotor_count() ==> (#[trigger] self.rotor_configs()[i]).to_multiset()
                    == a.to_multiset() && self.wiring().2[i].to_multiset() == a.to_multiset(),
        ensures
            wired_over(self.wiring(), self.positions(), a),
    {
        let w = self.wiring();
        if let Some(c) = w.0 {
            lemma_arrangement_of_multiset(c, a);
        }
        lemma_arrangement_of_multiset(w.1, a);
        assert forall|i: int| 0 <= i < w.2.len() implies is_arrangement(#[trigger] w.2[i], a)
            && is_arrangement(w.3[i], a) && self.positions()[i] < a.len() by {
            assert(self.rotor_configs()[i] == w.3[i]);
            lemma_arrangement_of_multiset(w.2[i], a);
            lemma_arrangement_of_multiset(w.3[i], a);
        }
    }

    /// A machine with `rotors_cnt` randomly wired rotors over `alphabet`, a
    /// random reflector and, when asked for, a random plugboard; all rotors at
    /// offset 0.
    pub fn from_alphabet(alphabet: &[T], rotors_cnt: u8, with_commutator: bool) -> (r: Result<
        Self,
        &'static str,
    >)
        ensures
            r matches Ok(e) && {
                &&& e.wf()
                &&& e.rotor_count() == rotors_cnt
                &&& (e.commutator_wiring() is Some) == with_commutator
                &&& e.positions() == Seq::new(rotors_cnt as nat, |i: int| 0nat)
                &&& (e.commutator_wiring() matches Some(c) ==> c.to_multiset() == alphabet@.to_multiset())
                &&& e.reflector_wiring().to_multiset() == alphabet@.to_multiset()
                &&& forall|i: int|
                    0 <= i < rotors_cnt ==> (#[trigger] e.rotor_configs()[i]).to_multiset()
                        == alphabet@.to_multiset() && e.wiring().2[i].to_multiset()
                        == alphabet@.to_multiset()
            },
    {
        let commutator = if with_commutator {
            Some(Reflector::from_alphabet(alphabet))
        } else {
            None
        };
        let reflector = Reflector::from_alphabet(alphabet);
        let mut rotors: Vec<Rotor<T>> = Vec::new();
        let mut k: u8 = 0;
        while k < rotors_cnt
            invariant
                k <= rotors_cnt,
                rotors@.len() == k,
                forall|i: int| 0 <= i < k ==> (#[trigger] rotors@[i]).wf() && rotors@[i].pos() == 0
                    && rotors@[i].bwd().to_multiset() == alphabet@.to_multiset()
                    && rotors@[i].fwd().to_multiset() == alphabet@.to_multiset(),
            decreases rotors_cnt - k,
        {
            rotors.push(Rotor::from_alphabet(alphabet));
            k = k + 1;
        }
        let e = Enigma { commutator, reflector, rotors };
        assert(e.positions() =~= Seq::new(rotors_cnt as nat, |i: int| 0nat));
        Ok(e)
    }

    /// The machine with the given plugboard, reflector and rotor wirings, all
    /// rotors at offset 0. Consecutive rotor configurations must have equal
    /// lengths.
    pub fn from_config(
        commutator_config: Option<&[T]>,
        reflector_config: &[T],
        rotors_configs: &[Vec<T>],
    ) -> (r: Result<Self, &'static str>)
        requires
            forall|i: int|
                0 < i < rotors_configs@.len() ==> (#[trigger] rotors_configs@[i])@.len()
                    == rotors_configs@[i - 1]@.len(),
        ensures
            r matches Ok(e) && {
                &&& e.wf()
                &&& e.commutator_wiring() == match commutator_config {
                    Some(c) => Some(c@),
                    None => None::<Seq<T>>,
                }
                &&& e.reflector_wiring() == reflector_config@
                &&& e.rotor_configs() == Seq::new(
                    rotors_configs@.len(),
                    |i: int| rotors_configs@[i]@,
                )
                &&& e.positions() == Seq::new(rotors_configs@.len(), |i: int| 0nat)
            },
    {
        let commutator = match commutator_config {
            Some(cfg) => Some(Reflector::from_config(cfg)),
            None => None,
        };
        let reflector = Reflector::from_config(reflector_config);
        let mut rotors: Vec<Rotor<T>> = Vec::new();
        let mut i: usize = 0;
        while i < rotors_configs.len()
            invariant
                i <= rotors_configs@.len(),
                rotors@.len() == i,
                forall|j: int|
                    0 <= j < i ==> (#[trigger] rotors@[j]).wf() && rotors@[j].pos() == 0
                        && rotors@[j].bwd() == rotors_configs@[j]@,
            decreases rotors_configs@.len() - i,
        {
            rotors.push(Rotor::from_config(rotors_configs[i].as_slice()));
            i = i + 1;
        }
        let e = Enigma { commutator, reflector, rotors };
        assert(e.positions() =~= Seq::new(rotors_configs@.len(), |i: int| 0nat));
        assert(e.rotor_configs() =~= Seq::new(rotors_configs@.len(), |i: int| rotors_configs@[i]@));
        Ok(e)
    }

    /// The plugboard wiring (if any), the reflector wiring and each rotor's
    /// configuration.
    pub fn get_config(&self) -> (r: (Option<Vec<T>>, Vec<T>, Vec<Vec<T>>))
        ensures
            match r.0 {
                Some(c) => self.commutator_wiring() == Some(c@),
                None => self.commutator_wiring() is None,
            },
            r.1@ == self.reflector_wiring(),
            r.2@.len() == self.rotor_count(),
            forall|i: int| 0 <= i < r.2@.len() ==> (#[trigger] r.2@[i])@ == self.rotor_configs()[i],
    {
        let commutator = match &self.commutator {
            Some(c) => Some(c.get_config()),
            None => None,
        };
        let mut rotors: Vec<Vec<T>> = Vec::new();
        let mut i: usize = 0;
        while i < self.rotors.len()
            invariant
                i <= self.rotors@.len(),
                rotors@.len() == i,
                forall|j: int| 0 <= j < i ==> (#[trigger] rotors@[j])@ == self.rotors@[j].bwd(),
            decreases self.rotors@.len() - i,
        {
            rotors.push(self.rotors[i].get_config());
            i = i + 1;
        }
        (commutator, self.reflector.get_config(), rotors)
    }

    fn encrypt_symbol(&mut self, symbol: &T) -> (r: Result<T, &'static str>)
        requires
            old(self).wf(),
        ensures
            final(self).wf(),
            final(self).same_wiring(old(self)),
            match r {
                Ok(y) => substitute(old(self).wiring(), old(self).positions(), *symbol) == Some(y)
                    && final(self).positions() == step(old(self).wiring(), old(self).positions()),
                Err(m) => substitute(old(self).wiring(), old(self).positions(), *symbol) is None
                    && final(self).positions() == old(self).positions() && m == "Symbol not in alphabet",
            },
    {
        let ghost pos = self.positions();
        let ghost w = self.wiring();
        let n = self.rotors.len();
        let ghost nn = n as nat;
        let mut cur: T = *symbol;
        match &self.commutator {
            Some(c) => match c.reflect(&cur) {
                Some(y) => {
                    cur = y;
                },
                None => {
                    proof {
                        lemma_forward_none(w, pos, nn);
                        lemma_backward_none(w, pos, nn);
                    }
                    return Err("Symbol not in alphabet");
                },
            },
            None => {},
        }
        let mut i: usize = 0;
        while i < n
            invariant
                *self == *old(self),
                self.wf(),
                n == self.rotors@.len(),
                nn == n as nat,
                pos == self.positions(),
                w == self.wiring(),
                i <= n,
                forward_through(w, pos, plug(w, Some(*symbol)), i as nat) == Some(cur),
            decreases n - i,
        {
            match self.rotors[i].forward(&cur) {
                Some(y) => {
                    cur = y;
                },
                None => {
                    proof {
                        lemma_forward_none_after(w, pos, plug(w, Some(*symbol)), (i + 1) as nat, nn);
                        lemma_backward_none(w, pos, nn);
                    }
                    return Err("Symbol not in alphabet");
                },
            }
            i = i + 1;
        }
        proof {
            lemma_forward_some(w, pos, plug(w, Some(*symbol)), nn);
        }
        match self.reflector.reflect(&cur) {
            Some(y) => {
                cur = y;
            },
            None => {
                proof {
                    lemma_backward_none(w, pos, nn);
                }
                return Err("Symbol not in alphabet");
            },
        }
        let ghost reflected = Some(cur);
        assert(reflected == match forward_through(w, pos, plug(w, Some(*symbol)), nn) {
            Some(y) => reflect_at(self.reflector.wiring(), y),
            None => None,
        });
        let mut i: usize = n;
        while i > 0
            invariant
                *self == *old(self),
                self.wf(),
                n == self.rotors@.len(),
                nn == n as nat,
                pos == self.positions(),
                w == self.wiring(),
                i <= n,
                backward_from(w, pos, Some(cur), i as nat) == backward_from(w, pos, reflected, nn),
                substitute(w, pos, *symbol) == plug(w, backward_from(w, pos, reflected, nn)),
            decreases i,
        {
            match self.rotors[i - 1].backward(&cur) {
                Some(y) => {
                    cur = y;
                },
                None => {
                    proof {
                        lemma_backward_none(w, pos, (i - 1) as nat);
                    }
                    return Err("Symbol not in alphabet");
                },
            }
            i = i - 1;
        }
        assert(backward_from(w, pos, reflected, nn) == Some(cur));
        match &self.commutator {
            Some(c) => match c.reflect(&cur) {
                Some(y) => {
                    cur = y;
                },
                None => {
                    assert(plug(w, Some(cur)) is None);
                    assert(substitute(w, pos, *symbol) is None);
                    return Err("Symbol not in alphabet");
                },
            },
            None => {},
        }
        self.rotate_rotors();
        Ok(cur)
    }

    /// Encrypts `buf` symbol by symbol, stepping the rotors after each symbol.
    /// Stops at the first symbol that some stage does not know, with its index.
    pub fn encrypt(&mut self, buf: &[T]) -> (r: Result<Vec<T>, (usize, &'static str)>)
        requires
            old(self).wf(),
        ensures
            final(self).wf(),
            final(self).same_wiring(old(self)),
            match r {
                Ok(v) => {
                    &&& v@.len() == buf@.len()
                    &&& forall|j: int|
                        0 <= j < buf@.len() ==> substitute(old(self).wiring(), 
                            positions_after(old(self).wiring(), old(self).positions(), j as nat),
                            #[trigger] buf@[j],
                        ) == Some(v@[j])
                    &&& final(self).positions() == positions_after(old(self).wiring(), 
                        old(self).positions(),
                        buf@.len(),
                    )
                },
                Err((i, m)) => {
                    &&& m == "Symbol not in alphabet"
                    &&& i < buf@.len()
                    &&& forall|j: int|
                        0 <= j < i ==> substitute(old(self).wiring(), 
                            positions_after(old(self).wiring(), old(self).positions(), j as nat),
                            #[trigger] buf@[j],
                        ) is Some
                    &&& substitute(old(self).wiring(), 
                        positions_after(old(self).wiring(), old(self).positions(), i as nat),
                        buf@[i as int],
                    ) is None
                    &&& final(self).positions() == positions_after(old(self).wiring(), 
                        old(self).positions(),
                        i as nat,
                    )
                },
            },
    {
        let ghost start = *self;
        let ghost start_pos = self.positions();
        let mut ebuf: Vec<T> = Vec::with_capacity(buf.len());
        let mut i: usize = 0;
        while i < buf.len()
            invariant
                start == *old(self),
                start_pos == start.positions(),
                self.wf(),
                self.same_wiring(&start),
                i <= buf@.len(),
                ebuf@.len() == i,
                self.positions() == positions_after(start.wiring(), start_pos, i as nat),
                forall|j: int|
                    0 <= j < i ==> substitute(start.wiring(), positions_after(start.wiring(), start_pos, j as nat), #[trigger] buf@[j])
                        == Some(ebuf@[j]),
            decreases buf@.len() - i,
        {
            match self.encrypt_symbol(&buf[i]) {
                Ok(y) => {
                    ebuf.push(y);
                },
                Err(e) => {
                    return Err((i, e));
                },
            }
            i = i + 1;
        }
        Ok(ebuf)
    }

    /// Decryption is the same operation as encryption on a machine in the
    /// same state.
    pub fn decrypt(&mut self, buf: &[T]) -> (r: Result<Vec<T>, (usize, &'static str)>)
        requires
            old(self).wf(),
        ensures
            final(self).wf(),
            final(self).same_wiring(old(self)),
            match r {
                Ok(v) => {
                    &&& v@.len() == buf@.len()
                    &&& forall|j: int|
                        0 <= j < buf@.len() ==> substitute(old(self).wiring(), 
                            positions_after(old(self).wiring(), old(self).positions(), j as nat),
                            #[trigger] buf@[j],
                        ) == Some(v@[j])
                    &&& final(self).positions() == positions_after(old(self).wiring(), 
                        old(self).positions(),
                        buf@.len(),
                    )
                },
                Err((i, m)) => {
                    &&& m == "Symbol not in alphabet"
                    &&& i < buf@.len()
                    &&& forall|j: int|
                        0 <= j < i ==> substitute(old(self).wiring(), 
                            positions_after(old(self).wiring(), old(self).positions(), j as nat),
                            #[trigger] buf@[j],
                        ) is Some
                    &&& substitute(old(self).wiring(), 
                        positions_after(old(self).wiring(), old(self).positions(), i as nat),
                        buf@[i as int],
                    ) is None
                    &&& final(self).positions() == positions_after(old(self).wiring(), 
                        old(self).positions(),
                        i as nat,
                    )
                },
            },
    {
        self.encrypt(buf)
    }

    fn rotate_rotors(&mut self)
        requires
            old(self).wf(),
            forall|i: int| 0 <= i < old(self).rotor_count() ==> (#[trigger] old(self).wiring().2[i]).len() > 0,
        ensures
            final(self).wf(),
            final(self).same_wiring(old(self)),
            final(self).positions() == step(old(self).wiring(), old(self).positions()),
    {
        let ghost start = *self;
        let ghost pos = self.positions();
        let n = self.rotors.len();
        let mut i: usize = 0;
        while i < n
            invariant
                start == *old(self),
                pos == start.positions(),
                n == self.rotors@.len(),
                i <= n,
                self.wf(),
                self.same_wiring(&start),
                forall|j: int| 0 <= j < n ==> (#[trigger] start.wiring().2[j]).len() > 0,
                forall|j: int| 0 <= j < i ==> (#[trigger] self.rotors@[j]).pos() == next_pos(start.wiring(), pos, j as nat),
                forall|j: int| i <= j < n ==> (#[trigger] self.rotors@[j]).pos() == pos[j],
            decreases n - i,
        {
            assert(self.rotors@[i as int].fwd() == self.wiring().2[i as int]);
            if i == 0 {
                self.rotors[i].rotate();
            } else if self.rotors[i - 1].is_at_init_position() {
                self.rotors[i].rotate();
            }
            assert(self.wiring().2 =~= start.wiring().2);
            assert(self.wiring().3 =~= start.wiring().3);
            i = i + 1;
        }
        assert(self.positions() =~= step(start.wiring(), pos));
    }

    /// Puts every rotor back to offset 0.
    pub fn reset(&mut self)
        requires
            old(self).wf(),
        ensures
            final(self).wf(),
            final(self).same_wiring(old(self)),
            final(self).positions() == Seq::new(old(self).rotor_count(), |i: int| 0nat),
    {
        let ghost start = *self;
        let n = self.rotors.len();
        let mut i: usize = 0;
        while i < n
            invariant
                start == *old(self),
                n == self.rotors@.len(),
                i <= n,
                self.wf(),
                self.same_wiring(&start),
                forall|j: int| 0 <= j < i ==> (#[trigger] self.rotors@[j]).pos() == 0,
            decreases n - i,
        {
            self.rotors[i].reset();
            assert(self.wiring().2 =~= start.wiring().2);
            assert(self.wiring().3 =~= start.wiring().3);
            i = i + 1;
        }
        assert(self.positions() =~= Seq::new(start.rotor_count(), |i: int| 0nat));
    }
}

} // verus!

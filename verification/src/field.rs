//! The field of the circuit: integers modulo the Mersenne prime `2^61 - 1`,
//! together with the option-typed cell value used during shape analysis.
//!
//! A witness cell holds a [`Value`]: either a concrete field element
//! ([`Felt`]) or the `Unknown` placeholder that stands for a not-yet-supplied
//! witness while the circuit shape is analysed.  All arithmetic over cell
//! values propagates `Unknown` instead of failing.

use vstd::prelude::*;
use vstd::arithmetic::div_mod::{
    lemma_add_mod_noop_right, lemma_fundamental_div_mod, lemma_mod_multiples_basic,
    lemma_mod_multiples_vanish,
};

verus! {

/// The prime modulus of the field: `2^61 - 1`.
pub const MODULUS: u64 = 2305843009213693951;

/// A field element, kept reduced: the representative is always `< MODULUS`.
#[derive(Clone, Copy, Debug, PartialEq, Eq, Structural)]
pub struct Felt {
    pub v: u64,
}

/// Mathematical addition in the field.
pub open spec fn f_add(a: int, b: int) -> int {
    (a + b) % (MODULUS as int)
}

/// Mathematical negation in the field.
pub open spec fn f_neg(a: int) -> int {
    ((MODULUS as int) - a) % (MODULUS as int)
}

/// Mathematical multiplication in the field.
pub open spec fn f_mul(a: int, b: int) -> int {
    (a * b) % (MODULUS as int)
}

/// The field element with the given reduced mathematical value.
pub open spec fn felt(a: int) -> Felt {
    Felt { v: a as u64 }
}

impl Felt {
    /// A field element is well formed when its representative is reduced.
    pub open spec fn wf(self) -> bool {
        self.v < MODULUS
    }

    /// The additive identity.
    pub fn zero() -> (r: Felt)
        ensures
            r.wf(),
            r.v == 0,
    {
        Felt { v: 0 }
    }

    /// The multiplicative identity.
    pub fn one() -> (r: Felt)
        ensures
            r.wf(),
            r.v == 1,
    {
        Felt { v: 1 }
    }

    /// Reduces an arbitrary integer into the field.
    pub fn from_u64(x: u64) -> (r: Felt)
        ensures
            r.wf(),
            r.v == x % MODULUS,
    {
        Felt { v: x % MODULUS }
    }

    /// Field addition.
    pub fn add(self, other: Felt) -> (r: Felt)
        requires
            self.wf(),
            other.wf(),
        ensures
            r.wf(),
            r.v == f_add(self.v as int, other.v as int),
    {
        Felt { v: (self.v + other.v) % MODULUS }
    }

    /// Field negation.
    pub fn neg(self) -> (r: Felt)
        requires
            self.wf(),
        ensures
            r.wf(),
            r.v == f_neg(self.v as int),
    {
        Felt { v: (MODULUS - self.v) % MODULUS }
    }

    /// Field multiplication.
    pub fn mul(self, other: Felt) -> (r: Felt)
        requires
            self.wf(),
            other.wf(),
        ensures
            r.wf(),
            r.v == f_mul(self.v as int, other.v as int),
    {
        proof {
            assert((self.v as u128) * (other.v as u128) < 5316911983139663491615228241121378304u128)
                by (nonlinear_arith)
                requires
                    self.v < 2305843009213693951u64,
                    other.v < 2305843009213693951u64,
            ;
        }
        let p: u128 = (self.v as u128) * (other.v as u128);
        let r: u128 = p % (MODULUS as u128);
        Felt { v: r as u64 }
    }
}

/// The content of a witness cell: unknown during shape analysis, or a
/// concrete field element once a witness has been supplied.
#[derive(Clone, Copy, Debug, PartialEq, Eq, Structural)]
pub enum Value {
    Unknown,
    Known(Felt),
}

/// Addition over cell values: `Unknown` propagates.
pub open spec fn v_add(x: Value, y: Value) -> Value {
    match (x, y) {
        (Value::Known(a), Value::Known(b)) => Value::Known(felt(f_add(a.v as int, b.v as int))),
        _ => Value::Unknown,
    }
}

/// Negation over cell values: `Unknown` propagates.
pub open spec fn v_neg(x: Value) -> Value {
    match x {
        Value::Known(a) => Value::Known(felt(f_neg(a.v as int))),
        Value::Unknown => Value::Unknown,
    }
}

/// Multiplication over cell values: `Unknown` propagates.
pub open spec fn v_mul(x: Value, y: Value) -> Value {
    match (x, y) {
        (Value::Known(a), Value::Known(b)) => Value::Known(felt(f_mul(a.v as int, b.v as int))),
        _ => Value::Unknown,
    }
}

/// The value holding a known zero, the result every gate must evaluate to.
pub open spec fn known_zero() -> Value {
    Value::Known(Felt { v: 0 })
}

impl Value {
    /// A cell value is well formed when any element it holds is reduced.
    pub open spec fn wf(self) -> bool {
        match self {
            Value::Known(f) => f.wf(),
            Value::Unknown => true,
        }
    }

    /// Whether a concrete element is present.
    pub fn is_known(&self) -> (b: bool)
        ensures
            b == (*self is Known),
    {
        match self {
            Value::Known(_) => true,
            Value::Unknown => false,
        }
    }

    /// Whether this value is the known additive identity.
    pub fn is_known_zero(&self) -> (b: bool)
        ensures
            b == (*self == known_zero()),
    {
        match self {
            Value::Known(f) => f.v == 0,
            Value::Unknown => false,
        }
    }

    /// Addition propagating `Unknown`.
    pub fn add(self, other: Value) -> (r: Value)
        requires
            self.wf(),
            other.wf(),
        ensures
            r == v_add(self, other),
            r.wf(),
    {
        match (self, other) {
            (Value::Known(a), Value::Known(b)) => Value::Known(a.add(b)),
            _ => Value::Unknown,
        }
    }

    /// Negation propagating `Unknown`.
    pub fn neg(self) -> (r: Value)
        requires
            self.wf(),
        ensures
            r == v_neg(self),
            r.wf(),
    {
        match self {
            Value::Known(a) => Value::Known(a.neg()),
            Value::Unknown => Value::Unknown,
        }
    }

    /// Multiplication propagating `Unknown`.
    pub fn mul(self, other: Value) -> (r: Value)
        requires
            self.wf(),
            other.wf(),
        ensures
            r == v_mul(self, other),
            r.wf(),
    {
        match (self, other) {
            (Value::Known(a), Value::Known(b)) => Value::Known(a.mul(b)),
            _ => Value::Unknown,
        }
    }
}

/// When `c` is the field sum of `a` and `b`, its gate polynomial
/// `a + (b + (-c))` evaluates to zero: the algebraic heart of the `add` gate.
pub proof fn lemma_sum_cancels(a: Felt, b: Felt, c: Felt)
    requires
        a.wf(),
        b.wf(),
        c.v == f_add(a.v as int, b.v as int),
    ensures
        f_add(a.v as int, f_add(b.v as int, f_neg(c.v as int))) == 0,
{
    let m = MODULUS as int;
    let av = a.v as int;
    let bv = b.v as int;
    let cv = c.v as int;
    lemma_add_mod_noop_right(bv, m - cv, m);
    assert(f_add(bv, f_neg(cv)) == (bv + m - cv) % m);
    lemma_add_mod_noop_right(av, bv + m - cv, m);
    assert(f_add(av, f_add(bv, f_neg(cv))) == (av + bv + m - cv) % m);
    lemma_mod_multiples_vanish(1, av + bv - cv, m);
    assert((av + bv + m - cv) % m == (av + bv - cv) % m);
    lemma_fundamental_div_mod(av + bv, m);
    assert(av + bv - cv == m * ((av + bv) / m));
    lemma_mod_multiples_basic((av + bv) / m, m);
}

} // verus!

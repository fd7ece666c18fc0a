//! Exact rational numbers for ray parameters and derived coordinates.
//!
//! A `Rat` is `num / den` with a positive denominator; it is not kept in
//! lowest terms.  Comparisons cross-multiply in 128-bit arithmetic, so they
//! are exact for every representable value: the nearest-hit selection and the
//! interval tests of the tracer never suffer rounding.

use vstd::prelude::*;

verus! {

#[derive(Clone, Copy, Debug)]
pub struct Rat {
    pub num: i64,
    pub den: i64,
}

impl Rat {
    /// A well-formed rational has a positive denominator.
    pub open spec fn wf(self) -> bool {
        self.den > 0
    }

    pub fn new(num: i64, den: i64) -> (r: Rat)
        requires
            den > 0,
        ensures
            r == (Rat { num, den }),
            r.wf(),
    {
        Rat { num, den }
    }

    /// The integer `n` as a rational.
    pub fn from_int(n: i64) -> (r: Rat)
        ensures
            r == (Rat { num: n, den: 1 }),
            r.wf(),
    {
        Rat { num: n, den: 1 }
    }

    pub fn lt(&self, other: &Rat) -> (r: bool)
        requires
            self.wf(),
            other.wf(),
        ensures
            r == rat_lt(*self, *other),
    {
        mul_i64(self.num, other.den) < mul_i64(other.num, self.den)
    }

    pub fn le(&self, other: &Rat) -> (r: bool)
        requires
            self.wf(),
            other.wf(),
        ensures
            r == rat_le(*self, *other),
    {
        mul_i64(self.num, other.den) <= mul_i64(other.num, self.den)
    }

    /// Equality of the represented values; `1/2` equals `2/4`.
    pub fn eq_val(&self, other: &Rat) -> (r: bool)
        requires
            self.wf(),
            other.wf(),
        ensures
            r == rat_eq(*self, *other),
    {
        mul_i64(self.num, other.den) == mul_i64(other.num, self.den)
    }
}

/// `a < b` on represented values: `a.num * b.den < b.num * a.den` for
/// positive denominators.
pub open spec fn rat_lt(a: Rat, b: Rat) -> bool {
    a.num * b.den < b.num * a.den
}

pub open spec fn rat_le(a: Rat, b: Rat) -> bool {
    a.num * b.den <= b.num * a.den
}

pub open spec fn rat_eq(a: Rat, b: Rat) -> bool {
    a.num * b.den == b.num * a.den
}

/// Multiply two `i64` values exactly in 128-bit arithmetic.
pub(crate) fn mul_i64(a: i64, b: i64) -> (r: i128)
    ensures
        r == a * b,
{
    proof {
        lemma_mul_i64_fits(a, b);
    }
    (a as i128) * (b as i128)
}

proof fn lemma_mul_i64_fits(a: i64, b: i64)
    by (nonlinear_arith)
    ensures
        -0x40000000000000000000000000000000int <= a * b
            <= 0x40000000000000000000000000000000int,
{
}

/// A strict bound combined with a bound stays strict.
pub proof fn lemma_rat_lt_le_trans(a: Rat, b: Rat, c: Rat)
    by (nonlinear_arith)
    requires
        a.wf(),
        b.wf(),
        c.wf(),
        rat_lt(a, b),
        rat_le(b, c),
    ensures
        rat_lt(a, c),
{
}

/// Two rationals are totally ordered: not below means at or above.
pub proof fn lemma_rat_total(a: Rat, b: Rat)
    by (nonlinear_arith)
    requires
        a.wf(),
        b.wf(),
    ensures
        !rat_lt(a, b) <==> rat_le(b, a),
{
}

} // verus!

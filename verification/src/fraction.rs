//! Exact non-negative rational numbers in lowest terms.

use crate::divisibility::{
    common_divisor, coprime, gcd, lemma_divides_quotient, lemma_divisor_bounded,
    lemma_lowest_terms_unique, lemma_quotients_coprime,
};
use vstd::prelude::*;

verus! {

/// A non-negative rational number, kept as a numerator over a positive
/// denominator with no common divisor but 1. Every value has exactly one
/// such form, so two fractions are equal as numbers exactly when they are
/// equal field for field.
#[derive(Clone, Copy, Debug, PartialEq, Eq, Structural)]
pub struct Fraction {
    num: u64,
    den: u64,
}

/// The quotient of two natural numbers as a real number.
pub open spec fn quotient(n: nat, d: nat) -> real {
    n as real / d as real
}

impl View for Fraction {
    type V = real;

    /// The number that the fraction stands for.
    open spec fn view(&self) -> real {
        quotient(self.numer(), self.denom())
    }
}

impl Fraction {
    /// The numerator.
    pub closed spec fn numer(self) -> nat {
        self.num as nat
    }

    /// The denominator.
    pub closed spec fn denom(self) -> nat {
        self.den as nat
    }

    /// The denominator is positive and the fraction is in lowest terms.
    #[verifier::type_invariant]
    pub open spec fn wf(self) -> bool {
        self.denom() > 0 && coprime(self.numer(), self.denom())
    }

    /// `num / den` in lowest terms.
    pub(crate) fn reduced(num: u64, den: u64) -> (f: Fraction)
        requires
            den > 0,
        ensures
            f.wf(),
            f@ == quotient(num as nat, den as nat),
            f.numer() <= num,
            f.denom() <= den,
            f.numer() == 0 <==> num == 0,
    {
        let g: u64 = gcd(num, den);
        proof {
            lemma_quotients_coprime(g as nat, num as nat, den as nat);
            lemma_divides_quotient(g as nat, num as nat);
            lemma_divides_quotient(g as nat, den as nat);
            lemma_same_proportion((num / g) as nat, (den / g) as nat, g as nat);
            assert(num / g == 0 <==> num == 0) by (nonlinear_arith)
                requires
                    num == g * (num / g),
                    g > 0,
            ;
        }
        Fraction { num: num / g, den: den / g }
    }

    /// The fraction `num / den` in lowest terms, or `None` where `den` is zero.
    pub fn new(num: u64, den: u64) -> (f: Option<Fraction>)
        ensures
            f is None <==> den == 0,
            f matches Some(v) ==> v.wf() && v@ == quotient(num as nat, den as nat),
    {
        if den == 0 {
            None
        } else {
            Some(Fraction::reduced(num, den))
        }
    }

    /// The whole number `n` as a fraction.
    pub fn from_integer(n: u64) -> (f: Fraction)
        ensures
            f.wf(),
            f.numer() == n,
            f.denom() == 1,
            f@ == n as real,
    {
        proof {
            lemma_coprime_to_one(n as nat);
            lemma_over_one(n as nat);
        }
        Fraction { num: n, den: 1 }
    }

    /// The numerator of the fraction in lowest terms.
    pub fn numerator(&self) -> (n: u64)
        ensures
            n == self.numer(),
    {
        self.num
    }

    /// The denominator of the fraction in lowest terms.
    pub fn denominator(&self) -> (d: u64)
        ensures
            d == self.denom(),
            d > 0,
    {
        proof {
            use_type_invariant(self);
        }
        self.den
    }
}

/// Every number is coprime to 1.
pub proof fn lemma_coprime_to_one(n: nat)
    ensures
        coprime(n, 1),
{
    assert forall|d: nat| #[trigger] common_divisor(d, n, 1) implies d == 1 by {
        lemma_divisor_bounded(d, 1);
    }
}

/// A number over 1 is the number itself.
pub proof fn lemma_over_one(n: nat)
    ensures
        quotient(n, 1) == n as real,
{
    assert(n as real / 1nat as real == n as real) by (nonlinear_arith);
}

/// Multiplying both parts of a quotient by a positive number keeps its value.
pub proof fn lemma_same_proportion(n: nat, d: nat, k: nat)
    requires
        d > 0,
        k > 0,
    ensures
        quotient(k * n, k * d) == quotient(n, d),
{
    assert((k * n) as real / (k * d) as real == n as real / d as real) by (nonlinear_arith)
        requires
            d > 0,
            k > 0,
    ;
}

/// Two quotients are the same number exactly when their cross products agree,
/// and are ordered as their cross products are.
pub proof fn lemma_cross_products(a: nat, b: nat, c: nat, d: nat)
    requires
        b > 0,
        d > 0,
    ensures
        quotient(a, b) == quotient(c, d) <==> a * d == c * b,
        quotient(a, b) < quotient(c, d) <==> a * d < c * b,
{
    assert((a as real / b as real == c as real / d as real) <==> a * d == c * b)
        by (nonlinear_arith)
        requires
            b > 0,
            d > 0,
    ;
    assert((a as real / b as real) < (c as real / d as real) <==> a * d < c * b)
        by (nonlinear_arith)
        requires
            b > 0,
            d > 0,
    ;
}

/// The parts of a fraction are given by its value: a fraction that stands
/// for `n / d`, with `n` and `d` coprime, has numerator `n` and denominator `d`.
pub proof fn lemma_parts_of_value(f: Fraction, n: nat, d: nat)
    requires
        f.wf(),
        d > 0,
        coprime(n, d),
        f@ == quotient(n, d),
    ensures
        f.numer() == n,
        f.denom() == d,
{
    lemma_cross_products(f.numer(), f.denom(), n, d);
    lemma_lowest_terms_unique(f.numer(), f.denom(), n, d);
}

/// A quotient with a positive first part is positive.
pub proof fn lemma_quotient_positive(n: nat, d: nat)
    requires
        n > 0,
        d > 0,
    ensures
        quotient(n, d) > 0real,
{
    assert(n as real / d as real > 0real) by (nonlinear_arith)
        requires
            n > 0,
            d > 0,
    ;
}

/// Fractions that stand for the same number are the same fraction.
pub proof fn lemma_equal_values_equal_fractions(p: Fraction, q: Fraction)
    requires
        p.wf(),
        q.wf(),
        p@ == q@,
    ensures
        p == q,
{
    lemma_parts_of_value(p, q.numer(), q.denom());
}

} // verus!

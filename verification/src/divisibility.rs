//! Divisibility on the natural numbers, and the greatest common divisor.

use vstd::arithmetic::div_mod::{lemma_fundamental_div_mod, lemma_mod_multiples_basic};
use vstd::prelude::*;

verus! {

/// `d` divides `n`: `n` is a whole multiple of the positive number `d`.
pub open spec fn divides(d: nat, n: nat) -> bool {
    d > 0 && n % d == 0
}

/// `d` divides both `a` and `b`.
pub open spec fn common_divisor(d: nat, a: nat, b: nat) -> bool {
    divides(d, a) && divides(d, b)
}

/// `a` and `b` share no divisor but 1.
pub open spec fn coprime(a: nat, b: nat) -> bool {
    forall|d: nat| #[trigger] common_divisor(d, a, b) ==> d == 1
}

/// `g` is the greatest common divisor of `a` and `b`: it divides both, and
/// every number that divides both divides `g`.
pub open spec fn is_gcd(g: nat, a: nat, b: nat) -> bool {
    &&& common_divisor(g, a, b)
    &&& forall|d: nat| #[trigger] common_divisor(d, a, b) ==> divides(d, g)
}

/// A positive number divides each of its multiples.
pub proof fn lemma_divides_multiple(d: nat, k: nat)
    requires
        d > 0,
    ensures
        divides(d, d * k),
{
    lemma_mod_multiples_basic(k as int, d as int);
    assert(d * k == k * d) by (nonlinear_arith);
}

/// What a divisor divides is the divisor times the quotient.
pub proof fn lemma_divides_quotient(d: nat, n: nat)
    requires
        divides(d, n),
    ensures
        n == d * (n / d),
{
    lemma_fundamental_div_mod(n as int, d as int);
}

/// A divisor of a positive number is no larger than it.
pub proof fn lemma_divisor_bounded(d: nat, n: nat)
    requires
        divides(d, n),
        n > 0,
    ensures
        d <= n,
{
    lemma_divides_quotient(d, n);
    assert(d <= n) by (nonlinear_arith)
        requires
            n == d * (n / d),
            n > 0,
            d > 0,
    ;
}

/// A number that divides `y` and `r` divides `y * q + r`.
pub proof fn lemma_divides_combination(d: nat, y: nat, q: nat, r: nat)
    requires
        divides(d, y),
        divides(d, r),
    ensures
        divides(d, y * q + r),
{
    lemma_divides_quotient(d, y);
    lemma_divides_quotient(d, r);
    let k: nat = (y / d) * q + r / d;
    assert(y * q + r == d * k) by (nonlinear_arith)
        requires
            y == d * (y / d),
            r == d * (r / d),
            k == (y / d) * q + r / d,
    ;
    lemma_divides_multiple(d, k);
}

/// A number that divides `y * q + r` and `y` divides `r`.
pub proof fn lemma_divides_remainder(d: nat, y: nat, q: nat, r: nat)
    requires
        divides(d, y * q + r),
        divides(d, y),
    ensures
        divides(d, r),
{
    let x: nat = y * q + r;
    lemma_divides_quotient(d, x);
    lemma_divides_quotient(d, y);
    let k: int = x / d - (y / d) * q;
    assert(r == k * d) by (nonlinear_arith)
        requires
            x == y * q + r,
            x == d * (x / d),
            y == d * (y / d),
            k == x / d - (y / d) * q,
    ;
    lemma_mod_multiples_basic(k, d as int);
}

/// The common divisors of `x` and `y` are those of `y` and `x % y`.
pub proof fn lemma_common_divisors_step(x: nat, y: nat)
    requires
        y > 0,
    ensures
        forall|d: nat| #[trigger] common_divisor(d, y, x % y) <==> common_divisor(d, x, y),
{
    lemma_fundamental_div_mod(x as int, y as int);
    let q: nat = x / y;
    let r: nat = x % y;
    assert(x == y * q + r);
    assert forall|d: nat| #[trigger] common_divisor(d, y, x % y) <==> common_divisor(
        d,
        x,
        y,
    ) by {
        if common_divisor(d, y, r) {
            lemma_divides_combination(d, y, q, r);
        }
        if common_divisor(d, x, y) {
            lemma_divides_remainder(d, y, q, r);
        }
    }
}

/// The greatest common divisor of `a` and `b`, by Euclid's algorithm.
pub(crate) fn gcd(a: u64, b: u64) -> (g: u64)
    requires
        a > 0 || b > 0,
    ensures
        is_gcd(g as nat, a as nat, b as nat),
{
    let mut x: u64 = a;
    let mut y: u64 = b;
    while y != 0
        invariant
            x > 0 || y > 0,
            forall|d: nat| #[trigger]
                common_divisor(d, x as nat, y as nat) <==> common_divisor(d, a as nat, b as nat),
        decreases y,
    {
        proof {
            lemma_common_divisors_step(x as nat, y as nat);
        }
        let r: u64 = x % y;
        x = y;
        y = r;
    }
    proof {
        lemma_divides_multiple(x as nat, 1);
        assert(0nat % (x as nat) == 0) by (nonlinear_arith)
            requires
                x > 0,
        ;
        assert(common_divisor(x as nat, x as nat, y as nat));
        assert forall|d: nat| #[trigger] common_divisor(d, a as nat, b as nat) implies divides(
            d,
            x as nat,
        ) by {
            assert(common_divisor(d, x as nat, y as nat));
        }
    }
    x
}

/// Coprimality does not depend on the order of the two numbers.
pub proof fn lemma_coprime_symmetric(a: nat, b: nat)
    requires
        coprime(a, b),
    ensures
        coprime(b, a),
{
    assert forall|d: nat| #[trigger] common_divisor(d, b, a) implies d == 1 by {
        assert(common_divisor(d, a, b));
    }
}

/// Bezout's identity for coprime numbers: whole coefficients `x` and `y`
/// with `a * x + b * y == 1`.
pub proof fn lemma_bezout(a: nat, b: nat) -> (c: (int, int))
    requires
        coprime(a, b),
    ensures
        a * c.0 + b * c.1 == 1,
    decreases b,
{
    if b == 0 {
        if a == 0 {
            assert(common_divisor(2, a, b));
        } else {
            lemma_divides_multiple(a, 1);
            assert(0nat % a == 0) by (nonlinear_arith)
                requires
                    a > 0,
            ;
            assert(common_divisor(a, a, b));
        }
        (1, 0)
    } else {
        lemma_common_divisors_step(a, b);
        assert forall|d: nat| #[trigger] common_divisor(d, b, a % b) implies d == 1 by {
            assert(common_divisor(d, a, b));
        }
        let inner = lemma_bezout(b, a % b);
        lemma_fundamental_div_mod(a as int, b as int);
        let q: int = a as int / b as int;
        let r: int = a as int % b as int;
        let x: int = inner.1;
        let y: int = inner.0 - q * inner.1;
        assert(b * (q * x) == (b * q) * x) by (nonlinear_arith);
        assert(a * x + b * y == 1) by (nonlinear_arith)
            requires
                a == b * q + r,
                b * inner.0 + r * inner.1 == 1,
                x == inner.1,
                y == inner.0 - q * x,
                b * (q * x) == (b * q) * x,
        ;
        (x, y)
    }
}

/// Euclid's lemma: a number that divides `b * c` and is coprime to `b`
/// divides `c`.
pub proof fn lemma_coprime_divides_product(a: nat, b: nat, c: nat)
    requires
        coprime(a, b),
        divides(a, b * c),
    ensures
        divides(a, c),
{
    let coeff = lemma_bezout(a, b);
    lemma_divides_quotient(a, b * c);
    let m: nat = (b * c) / a;
    let k: int = c * coeff.0 + m * coeff.1;
    assert(c == k * a) by (nonlinear_arith)
        requires
            a * coeff.0 + b * coeff.1 == 1,
            b * c == a * m,
            k == c * coeff.0 + m * coeff.1,
    ;
    lemma_mod_multiples_basic(k, a as int);
}

/// Dividing two numbers by their greatest common divisor leaves them coprime.
pub proof fn lemma_quotients_coprime(g: nat, a: nat, b: nat)
    requires
        is_gcd(g, a, b),
    ensures
        coprime(a / g, b / g),
{
    lemma_divides_quotient(g, a);
    lemma_divides_quotient(g, b);
    assert forall|d: nat| #[trigger] common_divisor(d, a / g, b / g) implies d == 1 by {
        lemma_divides_quotient(d, a / g);
        lemma_divides_quotient(d, b / g);
        let ka: nat = (a / g) / d;
        let kb: nat = (b / g) / d;
        assert(a == (g * d) * ka) by (nonlinear_arith)
            requires
                a == g * (a / g),
                a / g == d * ka,
        ;
        assert(b == (g * d) * kb) by (nonlinear_arith)
            requires
                b == g * (b / g),
                b / g == d * kb,
        ;
        assert(g * d > 0) by (nonlinear_arith)
            requires
                g > 0,
                d > 0,
        ;
        lemma_divides_multiple(g * d, ka);
        lemma_divides_multiple(g * d, kb);
        assert(common_divisor(g * d, a, b));
        lemma_divisor_bounded(g * d, g);
        assert(d == 1) by (nonlinear_arith)
            requires
                g * d <= g,
                g > 0,
                d > 0,
        ;
    }
}

/// A ratio of natural numbers has one form in lowest terms: two coprime
/// pairs with positive second parts that stand in the same proportion are
/// the same pair.
pub proof fn lemma_lowest_terms_unique(n1: nat, d1: nat, n2: nat, d2: nat)
    requires
        coprime(n1, d1),
        coprime(n2, d2),
        d1 > 0,
        d2 > 0,
        n1 * d2 == n2 * d1,
    ensures
        n1 == n2,
        d1 == d2,
{
    lemma_coprime_symmetric(n1, d1);
    lemma_coprime_symmetric(n2, d2);
    lemma_divides_multiple(d1, n2);
    assert(n1 * d2 == d1 * n2) by (nonlinear_arith)
        requires
            n1 * d2 == n2 * d1,
    ;
    lemma_coprime_divides_product(d1, n1, d2);
    lemma_divides_multiple(d2, n1);
    assert(n2 * d1 == d2 * n1) by (nonlinear_arith)
        requires
            n1 * d2 == n2 * d1,
    ;
    lemma_coprime_divides_product(d2, n2, d1);
    lemma_divisor_bounded(d1, d2);
    lemma_divisor_bounded(d2, d1);
    assert(n1 == n2) by (nonlinear_arith)
        requires
            n1 * d2 == n2 * d1,
            d1 == d2,
            d1 > 0,
    ;
}

} // verus!

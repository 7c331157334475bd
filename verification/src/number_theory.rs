use vstd::prelude::*;
use vstd::arithmetic::div_mod::{lemma_div_pos_is_pos, lemma_fundamental_div_mod};

verus! {

/// `d` divides `x`.
pub open spec fn divides(d: nat, x: nat) -> bool {
    exists|k: nat| x == #[trigger] (d * k)
}

/// `p` is prime: at least two, with no divisor strictly between one and
/// itself.
pub open spec fn is_prime(p: nat) -> bool {
    p >= 2 && forall|d: nat| 1 < d < p ==> !divides(d, p)
}

/// Greatest common divisor, by Euclid's recursion.
pub open spec fn gcd_nat(a: nat, b: nat) -> nat
    decreases b,
{
    if b == 0 {
        a
    } else {
        gcd_nat(b, a % b)
    }
}

/// The greatest common divisor divides both of its arguments.
pub proof fn lemma_gcd_divides(a: nat, b: nat)
    ensures
        divides(gcd_nat(a, b), a),
        divides(gcd_nat(a, b), b),
    decreases b,
{
    let g = gcd_nat(a, b);
    if b == 0 {
        assert(a == g * 1);
        assert(0nat == g * 0);
    } else {
        lemma_gcd_divides(b, a % b);
        let k1 = choose|k: nat| b == #[trigger] (g * k);
        let k2 = choose|k: nat| (a % b) == #[trigger] (g * k);
        lemma_fundamental_div_mod(a as int, b as int);
        lemma_div_pos_is_pos(a as int, b as int);
        let quo = a as int / b as int;
        assert(a == g * (k1 * quo + k2)) by (nonlinear_arith)
            requires
                a == b * quo + (a % b),
                b == g * k1,
                (a % b) == g * k2,
        ;
        let w = k1 * quo + k2;
        assert(w >= 0) by (nonlinear_arith)
            requires
                w == k1 * quo + k2,
                k1 >= 0,
                quo >= 0,
                k2 >= 0,
        ;
        assert(a == g * (w as nat));
        assert(divides(g, a));
    }
}

/// A divisor of a positive number is at least one and at most the number.
pub proof fn lemma_divides_bounds(d: nat, x: nat)
    requires
        divides(d, x),
        x > 0,
    ensures
        1 <= d <= x,
{
    let k = choose|k: nat| x == #[trigger] (d * k);
    assert(d >= 1 && k >= 1) by (nonlinear_arith)
        requires
            x == d * k,
            x > 0,
    ;
    assert(d <= d * k) by (nonlinear_arith)
        requires
            k >= 1,
            d >= 0,
    ;
}

/// A prime's only divisors are one and itself.
pub proof fn lemma_divisor_of_prime(d: nat, p: nat)
    requires
        is_prime(p),
        divides(d, p),
    ensures
        d == 1 || d == p,
{
    lemma_divides_bounds(d, p);
    if 1 < d < p {
        assert(!divides(d, p));
    }
}

/// Bezout coefficients for the greatest common divisor: a pair `(x, y)` with
/// `a * x + b * y == gcd_nat(a, b)`.
proof fn lemma_bezout(a: nat, b: nat) -> (r: (int, int))
    ensures
        a * r.0 + b * r.1 == gcd_nat(a, b),
    decreases b,
{
    if b == 0 {
        let r = (1int, 0int);
        assert(a * 1int + b * 0int == gcd_nat(a, b));
        r
    } else {
        let rec = lemma_bezout(b, a % b);
        let x = rec.0;
        let y = rec.1;
        lemma_fundamental_div_mod(a as int, b as int);
        let quo = a as int / b as int;
        let r = (y, x - quo * y);
        assert(a * r.0 + b * r.1 == gcd_nat(a, b)) by (nonlinear_arith)
            requires
                b * x + (a % b) * y == gcd_nat(a, b),
                a == b * quo + (a % b),
                r.0 == y,
                r.1 == x - quo * y,
        ;
        r
    }
}

/// Euclid's lemma in coprime form: what divides a product while coprime to
/// one factor divides the other factor.
pub proof fn lemma_coprime_divides(d: nat, a: nat, b: nat)
    requires
        gcd_nat(d, a) == 1,
        divides(d, a * b),
    ensures
        divides(d, b),
{
    if d == 0 {
        assert(a != 0);
        assert(0nat % a == 0nat);
        assert(gcd_nat(0, a) == gcd_nat(a, 0));
        assert(a == 1);
        let k = choose|k: nat| (a * b) == #[trigger] (0nat * k);
        assert(b == 0) by (nonlinear_arith)
            requires
                a * b == 0 * k,
                a == 1,
        ;
        assert(b == 0nat * 0);
    } else {
        let bez = lemma_bezout(d, a);
        let x = bez.0;
        let y = bez.1;
        let k = choose|k: nat| (a * b) == #[trigger] (d * k);
        let m = b * x + k * y;
        assert(b == d * m) by (nonlinear_arith)
            requires
                d * x + a * y == 1,
                a * b == d * k,
                m == b * x + k * y,
        ;
        assert(m >= 0) by (nonlinear_arith)
            requires
                d >= 1,
                d * m == b,
                b >= 0,
        ;
        assert(b == d * (m as nat));
        assert(divides(d, b));
    }
}

/// A divisor of a product of two primes is one, either prime, or the whole
/// product.
pub proof fn lemma_divisor_of_semiprime(d: nat, p: nat, q: nat)
    requires
        is_prime(p),
        is_prime(q),
        divides(d, p * q),
    ensures
        d == 1 || d == p || d == q || d == p * q,
{
    let h = gcd_nat(d, p);
    lemma_gcd_divides(d, p);
    lemma_divisor_of_prime(h, p);
    if h == p {
        let e = choose|k: nat| d == #[trigger] (p * k);
        let m = choose|k: nat| (p * q) == #[trigger] (d * k);
        assert(q == e * m) by (nonlinear_arith)
            requires
                p * q == d * m,
                d == p * e,
                p >= 2,
        ;
        assert(divides(e, q));
        lemma_divisor_of_prime(e, q);
        if e == 1 {
            assert(d == p * 1);
        }
    } else {
        lemma_coprime_divides(d, p, q);
        lemma_divisor_of_prime(d, q);
    }
}

/// For a modulus that is the product of two primes, a residue's greatest
/// common divisor with the modulus is one, one of the primes, or the modulus
/// itself; the rejection sampler accepts a draw exactly in the first case.
pub proof fn lemma_semiprime_gcd_cases(r: nat, p: nat, q: nat)
    requires
        is_prime(p),
        is_prime(q),
    ensures
        gcd_nat(r, p * q) == 1 || gcd_nat(r, p * q) == p || gcd_nat(r, p * q) == q || gcd_nat(
            r,
            p * q,
        ) == p * q,
{
    lemma_gcd_divides(r, p * q);
    lemma_divisor_of_semiprime(gcd_nat(r, p * q), p, q);
}

} // verus!

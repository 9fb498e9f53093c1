//! Prime moduli: inverses and the absence of zero divisors, Fermat's little theorem, and a
//! certificate by which a large number is shown to be prime.
use vstd::prelude::*;

use vstd::arithmetic::div_mod::{
    lemma_fundamental_div_mod, lemma_fundamental_div_mod_converse, lemma_mod_multiples_vanish,
    lemma_mul_mod_noop_general, lemma_small_mod,
};
#[allow(unused_imports)]
use vstd::arithmetic::power::{
    lemma1_pow, lemma_pow0, lemma_pow1, lemma_pow_adds, lemma_pow_mod_noop, lemma_pow_multiplies,
    pow,
};
#[allow(unused_imports)]
use vstd::set_lib::{lemma_int_range, lemma_len_subset, lemma_map_size, set_int_range};

verus! {

/// `d` divides `n`.
pub open spec fn divides(d: int, n: int) -> bool {
    n % d == 0
}

/// Nothing between one and `n` divides `n`.
pub open spec fn is_prime(n: int) -> bool {
    n > 1 && forall|d: int| 1 < d < n ==> !#[trigger] divides(d, n)
}

// ---- Remainders -----------------------------------------------------------------------

/// Adding a multiple of the modulus changes nothing.
pub proof fn lemma_mod_shift(n: int, k: int, m: int)
    requires
        m > 0,
    ensures
        (n + m * k) % m == n % m,
{
    lemma_mod_multiples_vanish(k, n, m);
    assert(m * k + n == n + m * k);
}

/// A product depends on a factor up to a multiple of the modulus alone.
pub proof fn lemma_mod_factor(a: int, b: int, x: int, m: int)
    requires
        m > 0,
        a % m == b % m,
    ensures
        (x * a) % m == (x * b) % m,
        (a * x) % m == (b * x) % m,
{
    lemma_mul_mod_noop_general(x, a, m);
    lemma_mul_mod_noop_general(x, b, m);
    lemma_mul_mod_noop_general(a, x, m);
    lemma_mul_mod_noop_general(b, x, m);
}

/// A remainder modulo `n` fixes the remainder modulo a divisor of `n`.
proof fn lemma_mod_divisor(a: int, n: int, d: int)
    requires
        n > 0,
        d > 0,
        divides(d, n),
    ensures
        a % d == (a % n) % d,
{
    lemma_fundamental_div_mod(a, n);
    lemma_fundamental_div_mod(n, d);
    let (k, t) = (a / n, n / d);
    assert(n * k == d * (t * k)) by (nonlinear_arith)
        requires
            n == d * t,
    ;
    lemma_mod_shift(a % n, t * k, d);
}

/// Below a prime everything but zero has an inverse.
pub proof fn lemma_inverse_exists(p: int, d: int) -> (i: int)
    requires
        is_prime(p),
        0 < d < p,
    ensures
        0 <= i < p,
        (i * d) % p == 1,
    decreases d,
{
    if d == 1 {
        lemma_small_mod(1, p as nat);
        1
    } else {
        assert(!divides(d, p));
        lemma_fundamental_div_mod(p, d);
        let (k, r) = (p / d, p % d);
        let j = lemma_inverse_exists(p, r);
        let n = -(j * k);
        let i = n % p;
        lemma_fundamental_div_mod(n, p);
        let t = n / p;
        assert(i * d == j * r + p * (-j - t * d)) by (nonlinear_arith)
            requires
                n == p * t + i,
                n == -(j * k),
                p == d * k + r,
        ;
        lemma_mod_shift(j * r, -j - t * d, p);
        i
    }
}

/// A prime divides a product only through a factor.
pub proof fn lemma_prime_factor(p: int, a: int, b: int)
    requires
        is_prime(p),
        (a * b) % p == 0,
        a % p != 0,
    ensures
        b % p == 0,
{
    let i = lemma_inverse_exists(p, a % p);
    lemma_small_mod((a % p) as nat, p as nat);
    lemma_small_mod(1, p as nat);
    lemma_small_mod(0, p as nat);
    lemma_mod_factor(a, a % p, i, p);
    lemma_mod_factor(i * a, 1, b, p);
    lemma_mod_factor(a * b, 0, i, p);
    assert((i * a) * b == i * (a * b)) by (nonlinear_arith);
}

// ---- Orders ----------------------------------------------------------------------------

/// A power of one.
proof fn lemma_pow_of_one(b: int, e: nat, m: int)
    requires
        m > 1,
        b % m == 1,
    ensures
        pow(b, e) % m == 1,
{
    lemma_pow_mod_noop(b, e, m);
    lemma1_pow(e);
    lemma_small_mod(1, m as nat);
}

/// Exponents at which the power is one may be reduced by one another.
proof fn lemma_pow_rem(b: int, r: int, m: nat, k: nat)
    requires
        r > 1,
        k > 0,
        pow(b, m) % r == 1,
        pow(b, k) % r == 1,
    ensures
        pow(b, m % k) % r == 1,
{
    let (t, s) = ((m / k) as nat, (m % k) as nat);
    lemma_fundamental_div_mod(m as int, k as int);
    lemma_pow_adds(b, k * t, s);
    lemma_pow_multiplies(b, k, t);
    lemma_pow_of_one(pow(b, k), t, r);
    lemma_small_mod(1, r as nat);
    lemma_mod_factor(pow(b, k * t), 1, pow(b, s), r);
}

/// An element of prime order is one at no smaller exponent.
proof fn lemma_prime_order(b: int, r: int, p: nat, k: nat)
    requires
        r > 1,
        is_prime(p as int),
        0 < k < p,
        pow(b, p) % r == 1,
        pow(b, k) % r == 1,
    ensures
        b % r == 1,
    decreases k,
{
    if k == 1 {
        lemma_pow1(b);
    } else {
        assert(!divides(k as int, p as int));
        lemma_pow_rem(b, r, p, k);
        lemma_prime_order(b, r, p, p % k);
    }
}

/// There are no more powers than remainders.
proof fn lemma_order_bound(b: int, r: int, f: nat)
    requires
        r > 1,
        f > 0,
        pow(b, f) % r == 1,
        forall|k: nat| 0 < k < f ==> #[trigger] pow(b, k) % r != 1,
    ensures
        f <= r,
{
    let g = |i: int| pow(b, i as nat) % r;
    let from = set_int_range(0, f as int);
    let to = set_int_range(0, r);
    lemma_int_range(0, f as int);
    lemma_int_range(0, r);
    assert forall|i: int, j: int| 0 <= i < j < f implies #[trigger] g(i) != #[trigger] g(j) by {
        let c = pow(b, (f - i) as nat);
        if g(i) == g(j) {
            lemma_mod_factor(pow(b, i as nat), pow(b, j as nat), c, r);
            lemma_pow_adds(b, i as nat, (f - i) as nat);
            lemma_pow_adds(b, j as nat, (f - i) as nat);
            lemma_pow_adds(b, f, (j - i) as nat);
            lemma_small_mod(1, r as nat);
            lemma_mod_factor(pow(b, f), 1, pow(b, (j - i) as nat), r);
        }
    }
    assert(vstd::relations::injective_on(g, from));
    lemma_map_size(from, from.map(g), g);
    assert(from.map(g).subset_of(to));
    lemma_len_subset(from.map(g), to);
}

/// A number whose divisors are all above its root is prime.
pub proof fn lemma_prime_of_bound(n: int, f: int)
    requires
        n > 1,
        f > 0,
        f * f > n,
        forall|d: int| d > 1 && #[trigger] divides(d, n) ==> d >= f,
    ensures
        is_prime(n),
{
    assert forall|d: int| 1 < d < n implies !#[trigger] divides(d, n) by {
        if divides(d, n) {
            lemma_fundamental_div_mod(n, d);
            let s = n / d;
            assert(1 < s) by (nonlinear_arith)
                requires
                    n == d * s,
                    1 < d < n,
            ;
            assert(n == s * d + 0) by (nonlinear_arith)
                requires
                    n == d * s,
            ;
            lemma_fundamental_div_mod_converse(n, s, d, 0);
            assert(divides(s, n));
            assert(d * s >= f * f) by (nonlinear_arith)
                requires
                    d >= f,
                    s >= f,
                    f > 0,
            ;
        }
    }
}

/// A number is not one modulo a divisor of `n` if a combination of its predecessor and `n`
/// is one.
proof fn lemma_not_one(n: int, c: int, u: int, v: int, d: int)
    requires
        d > 1,
        n > 1,
        divides(d, n),
        u * (c - 1) + v * n == 1,
    ensures
        c % d != 1,
{
    if c % d == 1 {
        lemma_fundamental_div_mod(c, d);
        lemma_fundamental_div_mod(n, d);
        let (s, t) = (c / d, n / d);
        assert(1 == 0 + d * (u * s + v * t)) by (nonlinear_arith)
            requires
                u * (c - 1) + v * n == 1,
                c == d * s + 1,
                n == d * t,
        ;
        lemma_mod_shift(0, u * s + v * t, d);
        lemma_small_mod(1, d as nat);
        lemma_small_mod(0, d as nat);
    }
}

/// A number is prime if an element of prime order is not one modulo any divisor, and that
/// order is above its root.
pub proof fn lemma_prime_by_order(n: int, p: nat, b: int, u: int, v: int)
    requires
        n > 1,
        is_prime(p as int),
        p * p > n,
        pow(b, p) % n == 1,
        u * (b - 1) + v * n == 1,
    ensures
        is_prime(n),
{
    assert forall|d: int| d > 1 && #[trigger] divides(d, n) implies d >= p by {
        lemma_mod_divisor(pow(b, p), n, d);
        lemma_small_mod(1, d as nat);
        lemma_not_one(n, b, u, v, d);
        assert forall|k: nat| 0 < k < p implies #[trigger] pow(b, k) % d != 1 by {
            if pow(b, k) % d == 1 {
                lemma_prime_order(b, d, p, k);
            }
        }
        lemma_order_bound(b, d, p);
    }
    lemma_prime_of_bound(n, p as int);
}

/// Where a power of `b` is one, and `c` is a power of `b` of prime order, that order divides
/// the exponent.
proof fn lemma_order_divides(b: int, r: int, a: nat, p: nat, c: int, k: nat)
    requires
        r > 1,
        is_prime(p as int),
        pow(b, a) % r == c % r,
        pow(c, p) % r == 1,
        c % r != 1,
        pow(b, k) % r == 1,
    ensures
        divides(p as int, k as int),
{
    lemma_pow_mod_noop(pow(b, a), k, r);
    lemma_pow_mod_noop(c, k, r);
    lemma_pow_multiplies(b, a, k);
    lemma_pow_multiplies(b, k, a);
    assert(a * k == k * a) by (nonlinear_arith);
    lemma_pow_of_one(pow(b, k), a, r);
    assert(pow(c, k) % r == 1);
    lemma_pow_rem(c, r, k, p);
    if k % p != 0 {
        lemma_prime_order(c, r, p, k % p);
    }
}

/// The parts of a proof that `n` is prime, by an element whose order is the product of two
/// primes: `b`, its powers `c` and `d` at the two primes, and combinations that are one.
pub struct TwoPrimes {
    pub b: int,
    pub c: int,
    pub d: int,
    pub cu: int,
    pub cv: int,
    pub du: int,
    pub dv: int,
    pub s: int,
    pub t: int,
}

/// A number is prime if an element whose order is a product of two primes has that order
/// modulo every divisor, and the product is above its root.
pub proof fn lemma_prime_by_two(n: int, p1: nat, p2: nat, f: nat, w: TwoPrimes)
    requires
        n > 1,
        is_prime(p1 as int),
        is_prime(p2 as int),
        f == p1 * p2,
        f * f > n,
        pow(w.b, p1) % n == w.c,
        pow(w.b, p2) % n == w.d,
        pow(w.c, p2) % n == 1,
        w.cu * (w.c - 1) + w.cv * n == 1,
        w.du * (w.d - 1) + w.dv * n == 1,
        w.s * p1 + w.t * p2 == 1,
    ensures
        is_prime(n),
{
    assert(f > 0) by (nonlinear_arith)
        requires
            p1 > 1,
            p2 > 1,
            f == p1 * p2,
    ;
    assert forall|r: int| r > 1 && #[trigger] divides(r, n) implies r >= f by {
        lemma_not_one(n, w.c, w.cu, w.cv, r);
        lemma_not_one(n, w.d, w.du, w.dv, r);
        lemma_small_mod(1, r as nat);
        lemma_mod_divisor(pow(w.b, p1), n, r);
        lemma_mod_divisor(pow(w.b, p2), n, r);
        lemma_mod_divisor(pow(w.c, p2), n, r);
        lemma_pow_multiplies(w.b, p1, p2);
        lemma_pow_multiplies(w.b, p2, p1);
        assert(p2 * p1 == f) by (nonlinear_arith)
            requires
                f == p1 * p2,
        ;
        lemma_pow_mod_noop(pow(w.b, p1), p2, r);
        lemma_pow_mod_noop(w.c, p2, r);
        lemma_pow_mod_noop(pow(w.b, p2), p1, r);
        lemma_pow_mod_noop(w.d, p1, r);
        assert forall|k: nat| 0 < k < f implies #[trigger] pow(w.b, k) % r != 1 by {
            if pow(w.b, k) % r == 1 {
                lemma_order_divides(w.b, r, p1, p2, w.c, k);
                lemma_order_divides(w.b, r, p2, p1, w.d, k);
                lemma_fundamental_div_mod(k as int, p1 as int);
                lemma_fundamental_div_mod(k as int, p2 as int);
                let (x, y) = (k as int / p1 as int, k as int / p2 as int);
                let m = w.s * y + w.t * x;
                let (i, a, b) = (k as int, p1 as int, p2 as int);
                assert(i == (a * b) * m) by (nonlinear_arith)
                    requires
                        i == a * x,
                        i == b * y,
                        w.s * a + w.t * b == 1,
                        m == w.s * y + w.t * x,
                {
                    assert(i == i * (w.s * a + w.t * b));
                    assert(i * (w.s * a) == (b * y) * (w.s * a));
                    assert(i * (w.t * b) == (a * x) * (w.t * b));
                }
                let g = f as int;
                assert(m <= 0 || m >= 1);
                assert(false) by (nonlinear_arith)
                    requires
                        i == g * m,
                        0 < i < g,
                ;
            }
        }
        lemma_order_bound(w.b, r, f);
    }
    lemma_prime_of_bound(n, f as int);
}

// ---- Fermat's little theorem ---------------------------------------------------------------

/// The binomial coefficients.
spec fn binom(n: nat, k: nat) -> nat
    decreases n,
{
    if k == 0 {
        1
    } else if n == 0 {
        0
    } else {
        binom((n - 1) as nat, (k - 1) as nat) + binom((n - 1) as nat, k)
    }
}

proof fn lemma_binom_above(n: nat, k: nat)
    requires
        k > n,
    ensures
        binom(n, k) == 0,
    decreases n,
{
    if n > 0 {
        lemma_binom_above((n - 1) as nat, (k - 1) as nat);
        lemma_binom_above((n - 1) as nat, k);
    }
}

proof fn lemma_binom_absorb(n: nat, k: nat)
    requires
        n >= 1,
        k >= 1,
    ensures
        k * binom(n, k) == n * binom((n - 1) as nat, (k - 1) as nat),
    decreases n,
{
    let (m, j) = ((n - 1) as nat, (k - 1) as nat);
    if n == 1 {
        if k > 1 {
            lemma_binom_above(1, k);
            lemma_binom_above(0, j);
            assert(k * 0 == 0) by (nonlinear_arith);
        } else {
            assert(binom(0, 1) == 0 && binom(1, 1) == 1);
        }
    } else {
        let (x, y) = (binom(m, j), binom(m, k));
        lemma_binom_absorb(m, k);
        let z = binom((m - 1) as nat, j);
        assert(k * (x + y) == k * x + k * y) by (nonlinear_arith);
        if j >= 1 {
            lemma_binom_absorb(m, j);
            let w = binom((m - 1) as nat, (j - 1) as nat);
            assert(x == w + z);
            assert(k * x == j * x + x) by (nonlinear_arith)
                requires
                    k == j + 1,
            ;
            assert(m * w + m * z == m * x) by (nonlinear_arith)
                requires
                    x == w + z,
            ;
        } else {
            assert(x == 1 && z == 1);
            assert(k * x == 1 && m * z == m * x) by (nonlinear_arith)
                requires
                    k == 1,
                    x == 1,
                    z == 1,
            ;
        }
        assert(m * x + x == n * x) by (nonlinear_arith)
            requires
                n == m + 1,
        ;
    }
}

/// The first `m` terms of the expansion of `(a + 1)^n`.
spec fn expansion(a: int, n: nat, m: nat) -> int
    decreases m,
{
    if m == 0 {
        0
    } else {
        expansion(a, n, (m - 1) as nat) + binom(n, (m - 1) as nat) * pow(a, (m - 1) as nat)
    }
}

proof fn lemma_expansion_step(a: int, n: nat, m: nat)
    requires
        n >= 1,
    ensures
        expansion(a, n, m + 1) == expansion(a, (n - 1) as nat, m + 1) + a * expansion(
            a,
            (n - 1) as nat,
            m,
        ),
    decreases m,
{
    let l = (n - 1) as nat;
    if m == 0 {
        reveal_with_fuel(expansion, 2);
        assert(a * 0 == 0) by (nonlinear_arith);
    } else {
        let k = (m - 1) as nat;
        lemma_expansion_step(a, n, k);
        let (x, y) = (binom(l, k) as int, binom(l, m) as int);
        let (s, t) = (pow(a, k), pow(a, m));
        assert(t == a * s) by {
            reveal(pow);
        }
        assert((x + y) * t == y * t + a * (x * s)) by (nonlinear_arith)
            requires
                t == a * s,
        ;
        let e = expansion(a, l, k);
        assert(a * (e + x * s) == a * e + a * (x * s)) by (nonlinear_arith);
    }
}

proof fn lemma_binomial(a: int, n: nat)
    ensures
        pow(a + 1, n) == expansion(a, n, n + 1),
    decreases n,
{
    if n == 0 {
        lemma_pow0(a + 1);
        lemma_pow0(a);
        reveal_with_fuel(expansion, 2);
    } else {
        let l = (n - 1) as nat;
        lemma_binomial(a, l);
        lemma_expansion_step(a, n, n);
        lemma_binom_above(l, n);
        let e = expansion(a, l, n);
        assert(0 * pow(a, n) == 0) by (nonlinear_arith);
        assert(pow(a + 1, n) == (a + 1) * pow(a + 1, l)) by {
            reveal(pow);
        }
        assert((a + 1) * e == e + a * e) by (nonlinear_arith);
    }
}

/// The inner terms of an expansion at a prime vanish.
proof fn lemma_expansion_mod(p: nat, a: int, m: nat)
    requires
        is_prime(p as int),
        1 <= m <= p,
    ensures
        expansion(a, p, m) % (p as int) == 1,
    decreases m,
{
    let q = p as int;
    lemma_small_mod(1, p);
    if m == 1 {
        reveal_with_fuel(expansion, 2);
        lemma_pow0(a);
    } else {
        let k = (m - 1) as nat;
        lemma_expansion_mod(p, a, k);
        lemma_binom_absorb(p, k);
        let c = binom(p, k) as int;
        let y = binom((p - 1) as nat, (k - 1) as nat) as int;
        lemma_mod_shift(0, y, q);
        lemma_small_mod(0, p);
        lemma_small_mod(k, p);
        lemma_prime_factor(q, k as int, c);
        lemma_fundamental_div_mod(c, q);
        let t = c / q;
        let x = pow(a, k);
        assert(c * x == q * (t * x)) by (nonlinear_arith)
            requires
                c == q * t,
        ;
        lemma_mod_shift(expansion(a, p, k), t * x, q);
    }
}

/// Fermat's little theorem.
proof fn lemma_fermat(p: nat, a: nat)
    requires
        is_prime(p as int),
    ensures
        pow(a as int, p) % (p as int) == a as int % (p as int),
    decreases a,
{
    let q = p as int;
    if a == 0 {
        assert(pow(0, p) == 0) by {
            reveal(pow);
        }
    } else {
        let b = (a - 1) as nat;
        let x = b as int;
        lemma_fermat(p, b);
        lemma_binomial(x, p);
        lemma_expansion_mod(p, x, p);
        assert(binom(p, p) == 1) by {
            lemma_binom_diagonal(p);
        }
        let e = expansion(x, p, p);
        let y = pow(x, p);
        assert(pow(x + 1, p) == e + 1 * y);
        lemma_fundamental_div_mod(e, q);
        lemma_fundamental_div_mod(y, q);
        lemma_fundamental_div_mod(x, q);
        let (i, j, k) = (e / q, y / q, x / q);
        assert(e + y == (x + 1) + q * (i + j - k)) by (nonlinear_arith)
            requires
                e == q * i + 1,
                y == q * j + y % q,
                x == q * k + x % q,
                y % q == x % q,
        ;
        lemma_mod_shift(x + 1, i + j - k, q);
    }
}

proof fn lemma_binom_diagonal(n: nat)
    ensures
        binom(n, n) == 1,
    decreases n,
{
    if n > 0 {
        lemma_binom_diagonal((n - 1) as nat);
        lemma_binom_above((n - 1) as nat, n);
    }
}

/// Fermat's little theorem for units.
pub proof fn lemma_fermat_unit(p: nat, a: nat)
    requires
        is_prime(p as int),
        a as int % (p as int) != 0,
    ensures
        pow(a as int, (p - 1) as nat) % (p as int) == 1,
{
    let q = p as int;
    let x = a as int;
    let y = pow(x, (p - 1) as nat);
    lemma_fermat(p, a);
    assert(pow(x, p) == x * y) by {
        reveal(pow);
    }
    lemma_fundamental_div_mod(x * y, q);
    lemma_fundamental_div_mod(x, q);
    let (i, j) = ((x * y) / q, x / q);
    assert(x * (y - 1) == 0 + q * (i - j)) by (nonlinear_arith)
        requires
            x * y == q * i + x % q,
            x == q * j + x % q,
    ;
    lemma_mod_shift(0, i - j, q);
    lemma_small_mod(0, p);
    lemma_prime_factor(q, x, y - 1);
    lemma_fundamental_div_mod(y - 1, q);
    lemma_mod_shift(1, (y - 1) / q, q);
    lemma_small_mod(1, p);
}

} // verus!

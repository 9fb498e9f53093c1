//! `Fq2` as a field. Its elements are taken as Gaussian integers, on which sums and products
//! are exact, and one that vanishes modulo `q` counts as zero. `Fq` is the part without an
//! imaginary component.
use vstd::prelude::*;

#[allow(unused_imports)]
use vstd::arithmetic::power::{
    lemma_pow1, lemma_pow_adds, lemma_pow_mod_noop, lemma_pow_multiplies, pow,
};

use crate::certificate::{lemma_g1_constant, lemma_g2_constant, lemma_prime_q};
#[allow(unused_imports)]
use crate::field::{fq, q};
#[allow(unused_imports)]
use crate::prime::{
    lemma_fermat_unit, lemma_inverse_exists, lemma_mod_factor, lemma_mod_shift, lemma_prime_factor,
};

verus! {

/// A Gaussian integer `re + im * u`, with `u^2 = -1`.
pub struct Gauss {
    pub re: int,
    pub im: int,
}

pub open spec fn plus(a: Gauss, b: Gauss) -> Gauss {
    Gauss { re: a.re + b.re, im: a.im + b.im }
}

pub open spec fn minus(a: Gauss, b: Gauss) -> Gauss {
    Gauss { re: a.re - b.re, im: a.im - b.im }
}

pub open spec fn times(a: Gauss, b: Gauss) -> Gauss {
    Gauss { re: a.re * b.re - a.im * b.im, im: a.re * b.im + a.im * b.re }
}

/// The element is zero modulo `q`.
pub open spec fn vanishes(a: Gauss) -> bool {
    fq(a.re) == 0 && fq(a.im) == 0
}

// ---- Sums and products ------------------------------------------------------------------

pub proof fn lemma_times_swap(a: Gauss, b: Gauss)
    ensures
        times(a, b) == times(b, a),
{
    assert(a.re * b.re == b.re * a.re) by (nonlinear_arith);
    assert(a.im * b.im == b.im * a.im) by (nonlinear_arith);
    assert(a.re * b.im == b.im * a.re) by (nonlinear_arith);
    assert(a.im * b.re == b.re * a.im) by (nonlinear_arith);
}

pub proof fn lemma_times_plus(a: Gauss, b: Gauss, c: Gauss)
    ensures
        times(a, plus(b, c)) == plus(times(a, b), times(a, c)),
        times(plus(b, c), a) == plus(times(b, a), times(c, a)),
{
    assert(a.re * (b.re + c.re) == a.re * b.re + a.re * c.re) by (nonlinear_arith);
    assert(a.im * (b.im + c.im) == a.im * b.im + a.im * c.im) by (nonlinear_arith);
    assert(a.re * (b.im + c.im) == a.re * b.im + a.re * c.im) by (nonlinear_arith);
    assert(a.im * (b.re + c.re) == a.im * b.re + a.im * c.re) by (nonlinear_arith);
    lemma_times_swap(plus(b, c), a);
    lemma_times_swap(b, a);
    lemma_times_swap(c, a);
}

pub proof fn lemma_times_minus(a: Gauss, b: Gauss, c: Gauss)
    ensures
        times(a, minus(b, c)) == minus(times(a, b), times(a, c)),
        times(minus(b, c), a) == minus(times(b, a), times(c, a)),
{
    lemma_times_plus(a, minus(b, c), c);
    assert(plus(minus(b, c), c) == b);
}

pub proof fn lemma_times_assoc(a: Gauss, b: Gauss, c: Gauss)
    ensures
        times(times(a, b), c) == times(a, times(b, c)),
{
    lemma_triple(a.re, b.re, a.im, b.im, c.re, true);
    lemma_triple(a.re, b.im, a.im, b.re, c.im, false);
    lemma_triple(a.re, b.re, a.im, b.im, c.im, true);
    lemma_triple(a.re, b.im, a.im, b.re, c.re, false);
    lemma_triple(b.re, c.re, b.im, c.im, a.re, true);
    lemma_triple(b.re, c.im, b.im, c.re, a.im, false);
    lemma_triple(b.re, c.im, b.im, c.re, a.re, false);
    lemma_triple(b.re, c.re, b.im, c.im, a.im, true);
    lemma_rotate(a.re, b.re, c.re);
    lemma_rotate(a.im, b.im, c.re);
    lemma_rotate(a.re, b.im, c.im);
    lemma_rotate(a.im, b.re, c.im);
    lemma_rotate(a.re, b.re, c.im);
    lemma_rotate(a.im, b.im, c.im);
    lemma_rotate(a.re, b.im, c.re);
    lemma_rotate(a.im, b.re, c.re);
}

proof fn lemma_triple(a: int, b: int, c: int, d: int, e: int, less: bool)
    ensures
        less ==> (a * b - c * d) * e == (a * b) * e - (c * d) * e,
        less ==> e * (a * b - c * d) == e * (a * b) - e * (c * d),
        !less ==> (a * b + c * d) * e == (a * b) * e + (c * d) * e,
        !less ==> e * (a * b + c * d) == e * (a * b) + e * (c * d),
{
    let (x, y) = (a * b, c * d);
    assert((x - y) * e == x * e - y * e) by (nonlinear_arith);
    assert(e * (x - y) == e * x - e * y) by (nonlinear_arith);
    assert((x + y) * e == x * e + y * e) by (nonlinear_arith);
    assert(e * (x + y) == e * x + e * y) by (nonlinear_arith);
}

proof fn lemma_rotate(a: int, b: int, c: int)
    ensures
        (a * b) * c == a * (b * c),
{
    assert((a * b) * c == a * (b * c)) by (nonlinear_arith);
}

/// `a^2 + a * b + b^2`, by which a difference of cubes exceeds the difference.
pub open spec fn conic(a: Gauss, b: Gauss) -> Gauss {
    plus(plus(times(a, a), times(a, b)), times(b, b))
}

pub open spec fn cube(a: Gauss) -> Gauss {
    times(times(a, a), a)
}

pub proof fn lemma_square_difference(a: Gauss, b: Gauss)
    ensures
        times(minus(a, b), plus(a, b)) == minus(times(a, a), times(b, b)),
{
    lemma_times_plus(minus(a, b), a, b);
    lemma_times_minus(a, a, b);
    lemma_times_minus(b, a, b);
    lemma_times_swap(a, b);
}

pub proof fn lemma_cube_difference(a: Gauss, b: Gauss)
    ensures
        times(minus(a, b), conic(a, b)) == minus(cube(a), cube(b)),
        conic(a, b) == conic(b, a),
{
    let (aa, ab, bb) = (times(a, a), times(a, b), times(b, b));
    lemma_times_swap(a, b);
    lemma_times_minus(conic(a, b), a, b);
    lemma_times_plus(a, plus(aa, ab), bb);
    lemma_times_plus(a, aa, ab);
    lemma_times_plus(b, plus(aa, ab), bb);
    lemma_times_plus(b, aa, ab);
    lemma_times_swap(a, aa);
    lemma_times_swap(b, bb);
    lemma_times_assoc(b, a, a);
    lemma_times_swap(a, ab);
    lemma_times_assoc(a, b, b);
    lemma_times_swap(b, ab);
}

pub proof fn lemma_conic_difference(a: Gauss, b: Gauss, c: Gauss)
    ensures
        times(plus(plus(c, a), b), minus(c, b)) == minus(conic(c, a), conic(a, b)),
{
    lemma_times_minus(plus(plus(c, a), b), c, b);
    lemma_times_plus(c, plus(c, a), b);
    lemma_times_plus(c, c, a);
    lemma_times_plus(b, plus(c, a), b);
    lemma_times_plus(b, c, a);
    lemma_times_swap(a, c);
    lemma_times_swap(b, c);
}

// ---- Zero -------------------------------------------------------------------------------

/// What vanishes is a multiple of `q`.
pub proof fn lemma_fq_zero(n: int) -> (m: int)
    requires
        fq(n) == 0,
    ensures
        n == q() * m,
{
    vstd::arithmetic::div_mod::lemma_fundamental_div_mod(n, q() as int);
    n / (q() as int)
}

/// A multiple of `q` vanishes.
pub proof fn lemma_fq_multiple(m: int)
    ensures
        fq(q() * m) == 0,
{
    lemma_mod_shift(0, m, q() as int);
}

pub proof fn lemma_vanishes_sum(a: Gauss, b: Gauss)
    requires
        vanishes(a),
        vanishes(b),
    ensures
        vanishes(plus(a, b)),
        vanishes(minus(a, b)),
{
    let k = q() as int;
    let (i, j) = (lemma_fq_zero(a.re), lemma_fq_zero(a.im));
    let (s, t) = (lemma_fq_zero(b.re), lemma_fq_zero(b.im));
    assert(k * i + k * s == k * (i + s)) by (nonlinear_arith);
    assert(k * j + k * t == k * (j + t)) by (nonlinear_arith);
    assert(k * i - k * s == k * (i - s)) by (nonlinear_arith);
    assert(k * j - k * t == k * (j - t)) by (nonlinear_arith);
    lemma_fq_multiple(i + s);
    lemma_fq_multiple(j + t);
    lemma_fq_multiple(i - s);
    lemma_fq_multiple(j - t);
}

pub proof fn lemma_vanishes_times(a: Gauss, b: Gauss)
    requires
        vanishes(a),
    ensures
        vanishes(times(a, b)),
        vanishes(times(b, a)),
{
    let k = q() as int;
    let (i, j) = (lemma_fq_zero(a.re), lemma_fq_zero(a.im));
    lemma_rotate(k, i, b.re);
    lemma_rotate(k, j, b.im);
    lemma_rotate(k, i, b.im);
    lemma_rotate(k, j, b.re);
    let (x, y) = (i * b.re, j * b.im);
    assert(k * x - k * y == k * (x - y)) by (nonlinear_arith);
    let (s, t) = (i * b.im, j * b.re);
    assert(k * s + k * t == k * (s + t)) by (nonlinear_arith);
    lemma_fq_multiple(x - y);
    lemma_fq_multiple(s + t);
    lemma_times_swap(a, b);
}

/// The square of the absolute value.
pub open spec fn norm(a: Gauss) -> int {
    a.re * a.re + a.im * a.im
}

/// A power of minus one.
proof fn lemma_pow_minus_one(k: nat)
    ensures
        pow(-1, 2 * k + 1) == -1,
{
    lemma_pow_multiplies(-1, 2, k);
    lemma_pow_adds(-1, 2 * k, 1);
    lemma_pow1(-1);
    vstd::arithmetic::power::lemma_square_is_pow2(-1);
    vstd::arithmetic::power::lemma1_pow(k);
}

/// `-1` is no square modulo `q`.
proof fn lemma_minus_one(t: nat)
    ensures
        fq((t * t + 1) as int) != 0,
{
    if fq((t * t + 1) as int) == 0 {
        let n = q() as int;
        let x = t as int;
        lemma_prime_q();
        let m = lemma_fq_zero(x * x + 1);
        lemma_mod_shift(-1, m, n);
        if x % n == 0 {
            lemma_mod_factor(x, 0, x, n);
            assert(false);
        }
        lemma_fermat_unit(q(), t);
        let h = ((q() - 1) / 2) as nat;
        lemma_pow_multiplies(x, 2, h);
        vstd::arithmetic::power::lemma_square_is_pow2(x);
        lemma_pow_mod_noop(x * x, h, n);
        lemma_pow_mod_noop(-1, h, n);
        lemma_pow_minus_one(((h - 1) / 2) as nat);
        assert(2 * h == (q() - 1) as nat);
    }
}

/// Numbers with one remainder differ by a multiple of `q`.
pub proof fn lemma_congruent(a: int, b: int) -> (m: int)
    requires
        a % (q() as int) == b % (q() as int),
    ensures
        a == b + q() * m,
{
    let n = q() as int;
    vstd::arithmetic::div_mod::lemma_fundamental_div_mod(a, n);
    vstd::arithmetic::div_mod::lemma_fundamental_div_mod(b, n);
    let (s, t) = (a / n, b / n);
    assert(n * s - n * t == n * (s - t)) by (nonlinear_arith);
    s - t
}

proof fn lemma_scaled_squares(x: int, y: int, i: int)
    ensures
        (x * i) * (x * i) + (i * y) * (i * y) == (x * x + y * y) * (i * i),
{
    let (xx, yy, ii) = (x * x, y * y, i * i);
    assert((x * i) * (x * i) == xx * ii) by (nonlinear_arith)
        requires
            xx == x * x,
            ii == i * i,
    ;
    assert((i * y) * (i * y) == yy * ii) by (nonlinear_arith)
        requires
            yy == y * y,
            ii == i * i,
    ;
    assert((xx + yy) * ii == xx * ii + yy * ii) by (nonlinear_arith);
}

/// Only zero has a norm that vanishes.
pub proof fn lemma_norm_vanishes(a: Gauss)
    requires
        fq(norm(a)) == 0,
    ensures
        vanishes(a),
{
    let n = q() as int;
    let (x, y) = (a.re, a.im);
    lemma_prime_q();
    if y % n != 0 {
        let i = lemma_inverse_exists(n, y % n);
        lemma_mod_factor(y, y % n, i, n);
        let t = fq(x * i);
        let (r, xi, iy) = (t as int, x * i, i * y);
        lemma_mod_factor(xi, r, xi, n);
        lemma_mod_factor(xi, r, r, n);
        lemma_mod_factor(iy, 1, iy, n);
        let e = lemma_congruent(xi * xi, r * r);
        let f = lemma_congruent(iy * iy, 1);
        let w = lemma_fq_zero(norm(a));
        lemma_scaled_squares(x, y, i);
        let ii = i * i;
        lemma_rotate(n, w, ii);
        assert(n * (w * ii) - n * e - n * f == n * (w * ii - e - f)) by (nonlinear_arith);
        lemma_fq_multiple(w * ii - e - f);
        lemma_minus_one(t);
    } else {
        lemma_mod_factor(y, 0, y, n);
        let m = lemma_fq_zero(y * y);
        let w = lemma_fq_zero(norm(a));
        assert(n * w - n * m == n * (w - m)) by (nonlinear_arith);
        lemma_fq_multiple(w - m);
        if x % n != 0 {
            lemma_prime_factor(n, x, x);
        }
    }
}

/// There are no zero divisors.
pub proof fn lemma_cancel(a: Gauss, b: Gauss)
    requires
        vanishes(times(a, b)),
        !vanishes(a),
    ensures
        vanishes(b),
{
    let n = q() as int;
    lemma_prime_q();
    let conj = Gauss { re: a.re, im: -a.im };
    let p = times(conj, a);
    lemma_times_assoc(conj, a, b);
    lemma_vanishes_times(times(a, b), conj);
    let (x, y) = (a.re, a.im);
    assert((-y) * x == -(y * x) && (-y) * y == -(y * y) && y * x == x * y) by (nonlinear_arith);
    assert(p.re == norm(a) && p.im == 0);
    assert(0 * b.re == 0 && 0 * b.im == 0) by (nonlinear_arith);
    if fq(norm(a)) == 0 {
        lemma_norm_vanishes(a);
    }
    lemma_prime_factor(n, norm(a), b.re);
    lemma_prime_factor(n, norm(a), b.im);
}

// ---- Cubes ---------------------------------------------------------------------------------

/// A third of the order of the units takes a cube to one.
proof fn lemma_cube_power(z: nat, c: int)
    requires
        fq((z * z * z) as int) == fq(c),
        fq(c) != 0,
    ensures
        pow(c, ((q() - 1) / 3) as nat) % (q() as int) == 1,
{
    let n = q() as int;
    let x = z as int;
    lemma_prime_q();
    if x % n == 0 {
        lemma_mod_factor(x, 0, x * x, n);
        assert((x * x) * 0 == 0) by (nonlinear_arith);
        assert(false);
    }
    lemma_fermat_unit(q(), z);
    let e = ((q() - 1) / 3) as nat;
    lemma_pow_multiplies(x, 3, e);
    assert(pow(x, 3) == x * x * x) by {
        lemma_pow_adds(x, 2, 1);
        lemma_pow1(x);
        vstd::arithmetic::power::lemma_square_is_pow2(x);
    }
    lemma_pow_mod_noop(x * x * x, e, n);
    lemma_pow_mod_noop(c, e, n);
    assert(3 * e == (q() - 1) as nat);
}

/// The cube depends on the number modulo `q` alone.
proof fn lemma_cube_class(a: int, b: int)
    requires
        fq(a) == fq(b),
    ensures
        fq(a * a * a) == fq(b * b * b),
{
    let n = q() as int;
    lemma_mod_factor(a, b, a, n);
    lemma_mod_factor(a, b, b, n);
    lemma_mod_factor(a * a, b * b, a, n);
    lemma_mod_factor(a, b, b * b, n);
}

/// `-3` is no cube in `Fq`.
pub proof fn lemma_g1_no_root(x: int)
    ensures
        fq(x * x * x + 3) != 0,
{
    if fq(x * x * x + 3) == 0 {
        let w = lemma_fq_zero(x * x * x + 3);
        let z = fq(-x);
        let m = -x;
        lemma_cube_class(m, z as int);
        assert(m * m == x * x) by (nonlinear_arith)
            requires
                m == -x,
        ;
        let xx = x * x;
        assert(xx * m == -(xx * x)) by (nonlinear_arith)
            requires
                m == -x,
        ;
        let n = q() as int;
        assert(n * (-w) == -(n * w)) by (nonlinear_arith);
        lemma_mod_shift(3, -w, n);
        lemma_g1_constant();
        lemma_cube_power(z, 3);
    }
}

proof fn lemma_norm_times(a: Gauss, b: Gauss)
    ensures
        norm(times(a, b)) == norm(a) * norm(b),
{
    let (p, r) = (a.re * b.re, a.im * b.im);
    let (s, t) = (a.re * b.im, a.im * b.re);
    assert((p - r) * (p - r) == p * p - 2 * (p * r) + r * r) by (nonlinear_arith);
    assert((s + t) * (s + t) == s * s + 2 * (s * t) + t * t) by (nonlinear_arith);
    lemma_product_swap(a.re, b.re, a.im, b.im);
    let (aa, ii) = (a.re * a.re, a.im * a.im);
    let (bb, jj) = (b.re * b.re, b.im * b.im);
    lemma_product_square(a.re, b.re);
    lemma_product_square(a.im, b.im);
    lemma_product_square(a.re, b.im);
    lemma_product_square(a.im, b.re);
    assert((aa + ii) * (bb + jj) == aa * bb + aa * jj + ii * bb + ii * jj) by (nonlinear_arith);
}

proof fn lemma_product_square(a: int, b: int)
    ensures
        (a * b) * (a * b) == (a * a) * (b * b),
{
    assert((a * b) * (a * b) == (a * a) * (b * b)) by (nonlinear_arith);
}

proof fn lemma_product_swap(a: int, b: int, c: int, d: int)
    ensures
        (a * b) * (c * d) == (a * d) * (c * b),
{
    assert((a * b) * (c * d) == (a * d) * (c * b)) by (nonlinear_arith);
}

/// The square depends on the number modulo `q` and up to sign alone.
proof fn lemma_square_class(a: int, b: int) -> (m: int)
    requires
        fq(a + b) == 0,
    ensures
        a * a == b * b + q() * m,
{
    let n = q() as int;
    let w = lemma_fq_zero(a + b);
    lemma_rotate(n, w, a - b);
    assert((a + b) * (a - b) == a * a - b * b) by (nonlinear_arith);
    w * (a - b)
}

/// The constant of the G2 curve.
pub open spec fn g2_constant() -> Gauss {
    Gauss {
        re: 0x2b149d40ceb8aaae81be18991be06ac3b5b4c5e559dbefa33267e6dc24a138e5int,
        im: 0x009713b03af0fed4cd2cafadeed8fdf4a74fa084e52d1852e4a2bd0685c315d2int,
    }
}

/// The norm of the constant of the G2 curve, times the cube of 82.
proof fn lemma_g2_constant_norm()
    ensures
        fq(551368 * norm(g2_constant())) == 60516,
{
    assert(0x2b149d40ceb8aaae81be18991be06ac3b5b4c5e559dbefa33267e6dc24a138e5int * 0x2b149d40ceb8aaae81be18991be06ac3b5b4c5e559dbefa33267e6dc24a138e5int == 0x73fee7cb82ae427cf773c41f5f683cc7e93b6fbc57ffeffc624d9305450e0281ae069e28d6410c4ac5b6d4292a240b4c772ca2dd2fcccb3e8d9032104aefcd9int);
    assert(0x9713b03af0fed4cd2cafadeed8fdf4a74fa084e52d1852e4a2bd0685c315d2int * 0x9713b03af0fed4cd2cafadeed8fdf4a74fa084e52d1852e4a2bd0685c315d2int == 0x59283b692a5d7dce1c1d385910059017c24dded7933d4c3a2257332d697cdc5c0fcab1baf88e9cc8203a1c880437278fa5990afcc5fa4709632e73c82044int);
}

/// The opposite of the constant of the G2 curve is no cube in `Fq2`.
pub proof fn lemma_g2_no_root(x: Gauss)
    ensures
        !vanishes(plus(cube(x), g2_constant())),
{
    let b = g2_constant();
    let c = cube(x);
    if vanishes(plus(c, b)) {
        let k = q() as int;
        let s = lemma_square_class(c.re, b.re);
        let t = lemma_square_class(c.im, b.im);
        lemma_norm_times(times(x, x), x);
        lemma_norm_times(x, x);
        let n = norm(x);
        assert(n >= 0) by {
            let (u, v) = (x.re, x.im);
            assert(u * u >= 0 && v * v >= 0) by (nonlinear_arith);
        }
        let z = (82 * n) as nat;
        let nnn = (n * n) * n;
        assert((82 * n) * (82 * n) * (82 * n) == 551368 * nnn) by (nonlinear_arith)
            requires
                nnn == (n * n) * n,
        ;
        assert(551368 * (k * s + k * t) == k * (551368 * (s + t))) by (nonlinear_arith);
        lemma_mod_shift(551368 * norm(b), 551368 * (s + t), k);
        lemma_g2_constant_norm();
        lemma_g2_constant();
        lemma_cube_power(z, 60516);
    }
}

// ---- Lines through a curve -----------------------------------------------------------------

/// What is zero for a point of the curve `y^2 = x^3 + b`.
pub open spec fn defect(x: Gauss, y: Gauss, b: Gauss) -> Gauss {
    minus(minus(times(y, y), cube(x)), b)
}

/// What is zero where the line of slope `l` through the first point meets the second.
pub open spec fn line_defect(l: Gauss, x1: Gauss, y1: Gauss, x2: Gauss, y2: Gauss) -> Gauss {
    minus(minus(y2, y1), times(l, minus(x2, x1)))
}

/// What is zero for the slope of a line through two points of the curve, be they one.
pub open spec fn slope_defect(l: Gauss, x1: Gauss, y1: Gauss, x2: Gauss, y2: Gauss) -> Gauss {
    minus(times(l, plus(y1, y2)), conic(x1, x2))
}

/// The line through two points of the curve over different `x` has the slope that the curve
/// asks for.
pub proof fn lemma_chord_slope(l: Gauss, x1: Gauss, y1: Gauss, x2: Gauss, y2: Gauss, b: Gauss)
    requires
        vanishes(defect(x1, y1, b)),
        vanishes(defect(x2, y2, b)),
        vanishes(line_defect(l, x1, y1, x2, y2)),
        !vanishes(minus(x2, x1)),
    ensures
        vanishes(slope_defect(l, x1, y1, x2, y2)),
{
    let (d, n, s) = (minus(x2, x1), minus(y2, y1), plus(y1, y2));
    let h = line_defect(l, x1, y1, x2, y2);
    let k = slope_defect(l, x1, y1, x2, y2);
    let (h1, h2) = (defect(x1, y1, b), defect(x2, y2, b));
    lemma_times_minus(d, times(l, s), conic(x1, x2));
    lemma_times_assoc(d, l, s);
    lemma_times_swap(d, l);
    assert(times(l, d) == minus(n, h));
    lemma_times_minus(s, n, h);
    lemma_square_difference(y2, y1);
    assert(plus(y2, y1) == s);
    lemma_cube_difference(x2, x1);
    assert(times(d, k) == minus(minus(h2, h1), times(h, s)));
    lemma_vanishes_sum(h2, h1);
    lemma_vanishes_times(h, s);
    lemma_vanishes_sum(minus(h2, h1), times(h, s));
    lemma_cancel(d, k);
}

/// A line through two points of the curve meets it a third time: at `x3`, where it has the
/// height `m`.
pub proof fn lemma_third_point(l: Gauss, x1: Gauss, y1: Gauss, x2: Gauss, y2: Gauss, b: Gauss)
    requires
        vanishes(defect(x1, y1, b)),
        vanishes(line_defect(l, x1, y1, x2, y2)),
        vanishes(slope_defect(l, x1, y1, x2, y2)),
    ensures
        ({
            let x3 = minus(minus(times(l, l), x1), x2);
            let m = plus(y1, times(l, minus(x3, x1)));
            vanishes(defect(x3, m, b)) && vanishes(slope_defect(l, x3, m, x1, y1))
        }),
{
    let x3 = minus(minus(times(l, l), x1), x2);
    let m = plus(y1, times(l, minus(x3, x1)));
    let (d, s) = (minus(x3, x1), plus(m, y1));
    let h = line_defect(l, x1, y1, x2, y2);
    let k = slope_defect(l, x1, y1, x2, y2);
    let w = slope_defect(l, x3, m, x1, y1);
    let h1 = defect(x1, y1, b);
    assert(w == minus(k, times(l, h))) by {
        let t = times(l, minus(x3, x2));
        assert(s == plus(plus(y1, y2), minus(m, y2)));
        lemma_times_plus(l, plus(y1, y2), minus(m, y2));
        lemma_times_minus(l, x3, x1);
        lemma_times_minus(l, x2, x1);
        lemma_times_minus(l, x3, x2);
        assert(minus(m, y2) == minus(t, h));
        lemma_times_minus(l, t, h);
        lemma_times_assoc(l, l, minus(x3, x2));
        assert(times(l, l) == plus(plus(x3, x1), x2));
        lemma_conic_difference(x1, x2, x3);
    }
    lemma_vanishes_times(h, l);
    lemma_vanishes_sum(k, times(l, h));
    assert(defect(x3, m, b) == plus(h1, times(d, w))) by {
        lemma_square_difference(m, y1);
        assert(minus(m, y1) == times(l, d));
        lemma_times_swap(l, d);
        lemma_times_assoc(d, l, s);
        lemma_cube_difference(x3, x1);
        lemma_times_minus(d, times(l, s), conic(x3, x1));
    }
    lemma_vanishes_times(w, d);
    lemma_vanishes_sum(h1, times(d, w));
}

} // verus!

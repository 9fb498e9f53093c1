//! Negation against the other operations: in the field, in its quadratic extension, and in
//! the two groups, a sign may be taken before or after.
use vstd::prelude::*;

use crate::curve::{G1Value, G2Value};
#[allow(unused_imports)]
use crate::curve::{g1_chord, g1_neg, g1_sum, g1_times, g2_chord, g2_neg, g2_sum, g2_times};
use crate::field::Fq2Value;
#[allow(unused_imports)]
use crate::field::{
    fq, fq2_add, fq2_div, fq2_inv, fq2_mul, fq2_neg, fq2_reduced, fq2_sub, fq_div, fq_inv, fq_neg,
    is_fq_inverse, q,
};

verus! {

// ---- The field ----------------------------------------------------------------------

/// Adding a multiple of `q` changes nothing modulo `q`.
pub proof fn lemma_fq_shift(n: int, m: int)
    ensures
        fq(n + q() * m) == fq(n),
{
    vstd::arithmetic::div_mod::lemma_mod_multiples_vanish(m, n, q() as int);
    assert(q() * m + n == n + q() * m);
}

/// An integer is its representative and a multiple of `q`.
proof fn lemma_fq_rest(n: int) -> (m: int)
    ensures
        n == fq(n) + q() * m,
        fq(n) < q(),
{
    let k = q() as int;
    vstd::arithmetic::div_mod::lemma_fundamental_div_mod(n, k);
    n / k
}

/// The representative of a negated integer.
pub proof fn lemma_fq_of_neg(n: int)
    ensures
        fq(-n) == fq_neg(fq(n)),
{
    let m = lemma_fq_rest(n);
    let c = fq(n) as int;
    let k = q() as int;
    if c == 0 {
        assert(-n == 0 + k * (-m)) by (nonlinear_arith)
            requires
                n == c + k * m,
                c == 0,
        ;
        lemma_fq_shift(0, -m);
    } else {
        assert(-n == (k - c) + k * (-m - 1)) by (nonlinear_arith)
            requires
                n == c + k * m,
        ;
        lemma_fq_shift(k - c, -m - 1);
    }
}

/// A negated element is its opposite up to a multiple of `q`.
proof fn lemma_neg_rest(c: nat) -> (e: int)
    requires
        c < q(),
    ensures
        fq_neg(c) == -c + q() * e,
        fq_neg(c) < q(),
        fq_neg(fq_neg(c)) == c,
{
    if c == 0 {
        0
    } else {
        1
    }
}

/// A shifted opposite times a factor.
proof fn lemma_shifted_product(a: int, e: int, b: int)
    ensures
        (-a + q() * e) * b == -(a * b) + q() * (e * b),
{
    let k = q() as int;
    assert((-a + k * e) * b == -(a * b) + k * (e * b)) by (nonlinear_arith);
}

/// A factor may be negated before or after a product.
proof fn lemma_neg_factor(a: nat, b: int)
    requires
        a < q(),
    ensures
        fq(fq_neg(a) * b) == fq(-(a * b)),
{
    let e = lemma_neg_rest(a);
    lemma_shifted_product(a as int, e, b);
    lemma_fq_shift(-(a * b), e * b);
}

/// A product depends on a factor modulo `q` alone.
proof fn lemma_fq_factor(a: int, b: int, x: int)
    requires
        fq(a) == fq(b),
    ensures
        fq(x * a) == fq(x * b),
{
    let m = lemma_fq_rest(a);
    let n = lemma_fq_rest(b);
    let k = q() as int;
    assert(x * a == x * b + k * (x * (m - n))) by (nonlinear_arith)
        requires
            a - k * m == b - k * n,
    ;
    lemma_fq_shift(x * b, x * (m - n));
}

/// An element has at most one inverse.
proof fn lemma_inverse_unique(i: nat, j: nat, d: int)
    requires
        is_fq_inverse(i, d),
        is_fq_inverse(j, d),
    ensures
        i == j,
{
    let (x, y) = (i as int, j as int);
    lemma_fq_factor(x * d, 1, y);
    lemma_fq_factor(y * d, 1, x);
    assert(y * (x * d) == x * (y * d)) by (nonlinear_arith);
}

/// The inverse depends on the element modulo `q` alone.
proof fn lemma_inv_class(a: int, b: int)
    requires
        fq(a) == fq(b),
    ensures
        fq_inv(a) == fq_inv(b),
{
    assert forall|i: nat| is_fq_inverse(i, a) implies is_fq_inverse(i, b) by {
        lemma_fq_factor(a, b, i as int);
    }
    assert forall|i: nat| is_fq_inverse(i, b) implies is_fq_inverse(i, a) by {
        lemma_fq_factor(a, b, i as int);
    }
    if exists|i: nat| is_fq_inverse(i, a) {
        lemma_inverse_unique(fq_inv(a), fq_inv(b), a);
    }
}

/// The opposite of an inverse is an inverse of the opposite.
proof fn lemma_neg_is_inverse(i: nat, d: int)
    requires
        is_fq_inverse(i, d),
    ensures
        is_fq_inverse(fq_neg(i), -d),
{
    let e = lemma_neg_rest(i);
    lemma_neg_factor(i, -d);
    let x = i as int;
    assert(-(x * -d) == x * d) by (nonlinear_arith);
}

/// The inverse is reduced, and that of the opposite is its opposite.
proof fn lemma_inv_of_neg(d: int)
    ensures
        fq_inv(d) < q(),
        fq_inv(-d) == fq_neg(fq_inv(d)),
{
    let m = -d;
    if exists|i: nat| is_fq_inverse(i, d) {
        lemma_neg_is_inverse(fq_inv(d), d);
        lemma_inverse_unique(fq_inv(m), fq_neg(fq_inv(d)), m);
    } else if exists|i: nat| is_fq_inverse(i, m) {
        lemma_neg_is_inverse(fq_inv(m), m);
        assert(is_fq_inverse(fq_neg(fq_inv(m)), d));
    }
}

/// The product of two negated elements is the product of the elements.
pub proof fn lemma_neg_product(a: nat, b: nat) -> (m: int)
    requires
        a < q(),
        b < q(),
    ensures
        fq_neg(a) * fq_neg(b) == a * b + q() * m,
{
    if a == 0 || b == 0 {
        let (na, nb) = (fq_neg(a), fq_neg(b));
        assert(na * nb == 0 && a * b == 0) by (nonlinear_arith)
            requires
                (na == 0 && a == 0) || (nb == 0 && b == 0),
        ;
        0
    } else {
        let n = q() as int;
        let (x, y) = (a as int, b as int);
        assert((n - x) * (n - y) == (n - x) * n - (n - x) * y) by (nonlinear_arith);
        assert((n - x) * y == n * y - x * y) by (nonlinear_arith);
        assert((n - x) * n - n * y == n * (n - x - y)) by (nonlinear_arith);
        n - x - y
    }
}

// ---- The quadratic extension -----------------------------------------------------------

/// Negation keeps elements reduced and undoes itself.
proof fn lemma_fq2_neg(a: Fq2Value)
    requires
        fq2_reduced(a),
    ensures
        fq2_reduced(fq2_neg(a)),
        fq2_neg(fq2_neg(a)) == a,
{
}

/// A product in either order.
proof fn lemma_fq2_mul_swap(a: Fq2Value, b: Fq2Value)
    ensures
        fq2_mul(a, b) == fq2_mul(b, a),
{
    assert(a.c0 * b.c0 == b.c0 * a.c0) by (nonlinear_arith);
    assert(a.c1 * b.c1 == b.c1 * a.c1) by (nonlinear_arith);
    assert(a.c0 * b.c1 == b.c1 * a.c0) by (nonlinear_arith);
    assert(a.c1 * b.c0 == b.c0 * a.c1) by (nonlinear_arith);
}

/// A factor may be negated before or after a product.
proof fn lemma_fq2_neg_mul(a: Fq2Value, b: Fq2Value)
    requires
        fq2_reduced(a),
    ensures
        fq2_mul(fq2_neg(a), b) == fq2_neg(fq2_mul(a, b)),
        fq2_mul(b, fq2_neg(a)) == fq2_neg(fq2_mul(b, a)),
{
    let e0 = lemma_neg_rest(a.c0);
    let e1 = lemma_neg_rest(a.c1);
    let k = q() as int;
    let (a0, a1) = (a.c0 as int, a.c1 as int);
    let (b0, b1) = (b.c0 as int, b.c1 as int);
    lemma_shifted_product(a0, e0, b0);
    lemma_shifted_product(a1, e1, b1);
    lemma_shifted_product(a0, e0, b1);
    lemma_shifted_product(a1, e1, b0);
    let (s, t) = (e0 * b0, e1 * b1);
    assert(k * s - k * t == k * (s - t)) by (nonlinear_arith);
    lemma_fq_shift(-(a0 * b0 - a1 * b1), e0 * b0 - e1 * b1);
    lemma_fq_of_neg(a0 * b0 - a1 * b1);
    let (u, v) = (e0 * b1, e1 * b0);
    assert(k * u + k * v == k * (u + v)) by (nonlinear_arith);
    lemma_fq_shift(-(a0 * b1 + a1 * b0), e0 * b1 + e1 * b0);
    lemma_fq_of_neg(a0 * b1 + a1 * b0);
    lemma_fq2_mul_swap(a, b);
    lemma_fq2_mul_swap(fq2_neg(a), b);
}

/// The product of two opposites is the product.
pub proof fn lemma_fq2_neg_square(a: Fq2Value)
    requires
        fq2_reduced(a),
    ensures
        fq2_mul(fq2_neg(a), fq2_neg(a)) == fq2_mul(a, a),
{
    lemma_fq2_neg_mul(a, fq2_neg(a));
    lemma_fq2_neg_mul(a, a);
    lemma_fq2_neg(fq2_mul(a, a));
}

/// Terms may be negated before or after a sum or a difference.
proof fn lemma_fq2_neg_terms(a: Fq2Value, b: Fq2Value)
    requires
        fq2_reduced(a),
        fq2_reduced(b),
    ensures
        fq2_add(fq2_neg(a), fq2_neg(b)) == fq2_neg(fq2_add(a, b)),
        fq2_sub(fq2_neg(a), fq2_neg(b)) == fq2_neg(fq2_sub(a, b)),
{
    let k = q() as int;
    let (e0, e1) = (lemma_neg_rest(a.c0), lemma_neg_rest(a.c1));
    let (f0, f1) = (lemma_neg_rest(b.c0), lemma_neg_rest(b.c1));
    assert(k * e0 + k * f0 == k * (e0 + f0)) by (nonlinear_arith);
    assert(k * e1 + k * f1 == k * (e1 + f1)) by (nonlinear_arith);
    assert(k * e0 - k * f0 == k * (e0 - f0)) by (nonlinear_arith);
    assert(k * e1 - k * f1 == k * (e1 - f1)) by (nonlinear_arith);
    lemma_fq_shift(-(a.c0 + b.c0), e0 + f0);
    lemma_fq_shift(-(a.c1 + b.c1), e1 + f1);
    lemma_fq_shift(-(a.c0 - b.c0), e0 - f0);
    lemma_fq_shift(-(a.c1 - b.c1), e1 - f1);
    lemma_fq_of_neg((a.c0 + b.c0) as int);
    lemma_fq_of_neg((a.c1 + b.c1) as int);
    lemma_fq_of_neg(a.c0 - b.c0);
    lemma_fq_of_neg(a.c1 - b.c1);
}

/// The inverse of the opposite is the opposite of the inverse.
proof fn lemma_fq2_inv_of_neg(d: Fq2Value)
    requires
        fq2_reduced(d),
    ensures
        fq2_reduced(fq2_inv(d)),
        fq2_inv(fq2_neg(d)) == fq2_neg(fq2_inv(d)),
{
    let n = fq2_neg(d);
    let m0 = lemma_neg_product(d.c0, d.c0);
    let m1 = lemma_neg_product(d.c1, d.c1);
    let k = q() as int;
    assert(k * m0 + k * m1 == k * (m0 + m1)) by (nonlinear_arith);
    lemma_fq_shift((d.c0 * d.c0 + d.c1 * d.c1) as int, m0 + m1);
    let norm = fq((d.c0 * d.c0 + d.c1 * d.c1) as int);
    assert(fq((n.c0 * n.c0 + n.c1 * n.c1) as int) == norm);
    let i = fq_inv(norm as int);
    lemma_neg_factor(d.c0, i as int);
    lemma_fq_of_neg((d.c0 * i) as int);
    lemma_neg_factor(d.c1, i as int);
    lemma_fq_of_neg((d.c1 * i) as int);
}

// ---- G1 ----------------------------------------------------------------------------------

/// Both coordinates are reduced.
pub open spec fn g1_reduced(p: G1Value) -> bool {
    p matches G1Value::Affine { x, y } ==> x < q() && y < q()
}

/// The chord through opposite points, with the opposite slope, leads to the opposite point.
proof fn lemma_g1_neg_chord(l: nat, x1: nat, y1: nat, x2: nat)
    requires
        l < q(),
        y1 < q(),
    ensures
        g1_chord(fq_neg(l), x1, fq_neg(y1), x2) == g1_neg(g1_chord(l, x1, y1, x2)),
{
    let k = q() as int;
    let m = lemma_neg_product(l, l);
    let x3 = fq(l * l - x1 - x2);
    lemma_fq_shift(l * l - x1 - x2, m);
    let z = x1 - x3;
    let e = lemma_neg_rest(l);
    let f = lemma_neg_rest(y1);
    lemma_shifted_product(l as int, e, z);
    let s = e * z;
    assert(k * s - k * f == k * (s - f)) by (nonlinear_arith);
    lemma_fq_shift(-(l * z - y1), s - f);
    lemma_fq_of_neg(l * z - y1);
}

/// The opposite of a sum is the sum of the opposites.
pub proof fn lemma_g1_neg_sum(a: G1Value, b: G1Value)
    requires
        g1_reduced(a),
        g1_reduced(b),
    ensures
        g1_reduced(g1_sum(a, b)),
        g1_sum(g1_neg(a), g1_neg(b)) == g1_neg(g1_sum(a, b)),
{
    if let (G1Value::Affine { x: x1, y: y1 }, G1Value::Affine { x: x2, y: y2 }) = (a, b) {
        let k = q() as int;
        let e1 = lemma_neg_rest(y1);
        let e2 = lemma_neg_rest(y2);
        if x1 != x2 {
            let i = fq_inv(x2 - x1) as int;
            let l = fq_div(y2 - y1, x2 - x1);
            let n = y2 - y1;
            assert(k * e2 - k * e1 == k * (e2 - e1)) by (nonlinear_arith);
            lemma_shifted_product(n, e2 - e1, i);
            lemma_fq_shift(-(n * i), (e2 - e1) * i);
            lemma_fq_of_neg(n * i);
            assert(fq_div(fq_neg(y2) - fq_neg(y1), x2 - x1) == fq_neg(l));
            lemma_g1_neg_chord(l, x1, y1, x2);
        } else if y1 == y2 && y1 != 0 {
            let n = (3 * x1 * x1) as int;
            let d = (2 * y1) as int;
            let l = fq_div(n, d);
            let i = fq_inv(d);
            lemma_inv_of_neg(d);
            lemma_fq_shift(-d, 2 * e1);
            assert(2 * (k * e1) == k * (2 * e1)) by (nonlinear_arith);
            lemma_inv_class((2 * fq_neg(y1)) as int, -d);
            lemma_neg_factor(i, n);
            lemma_fq_of_neg(n * i);
            assert(i * n == n * i) by (nonlinear_arith);
            let j = fq_neg(i) as int;
            assert(j * n == n * j) by (nonlinear_arith);
            assert(fq_div(n, (2 * fq_neg(y1)) as int) == fq_neg(l));
            lemma_g1_neg_chord(l, x1, y1, x2);
        }
    }
}

/// The opposite of a multiple is the multiple of the opposite.
pub proof fn lemma_g1_neg_times(n: nat, p: G1Value)
    requires
        g1_reduced(p),
    ensures
        g1_reduced(g1_times(n, p)),
        g1_times(n, g1_neg(p)) == g1_neg(g1_times(n, p)),
    decreases n,
{
    if n > 0 {
        let m = (n - 1) as nat;
        lemma_g1_neg_times(m, p);
        lemma_g1_neg_sum(g1_times(m, p), p);
    }
}

// ---- G2 ----------------------------------------------------------------------------------

/// Both coordinates are reduced.
pub open spec fn g2_reduced(p: G2Value) -> bool {
    p matches G2Value::Affine { x, y } ==> fq2_reduced(x) && fq2_reduced(y)
}

/// The chord through opposite points, with the opposite slope, leads to the opposite point.
proof fn lemma_g2_neg_chord(l: Fq2Value, x1: Fq2Value, y1: Fq2Value, x2: Fq2Value)
    requires
        fq2_reduced(l),
        fq2_reduced(y1),
    ensures
        g2_chord(fq2_neg(l), x1, fq2_neg(y1), x2) == g2_neg(g2_chord(l, x1, y1, x2)),
{
    lemma_fq2_neg_square(l);
    let x3 = fq2_sub(fq2_sub(fq2_mul(l, l), x1), x2);
    let z = fq2_sub(x1, x3);
    lemma_fq2_neg_mul(l, z);
    lemma_fq2_neg_terms(fq2_mul(l, z), y1);
}

/// The opposite of a sum is the sum of the opposites.
pub proof fn lemma_g2_neg_sum(a: G2Value, b: G2Value)
    requires
        g2_reduced(a),
        g2_reduced(b),
    ensures
        g2_reduced(g2_sum(a, b)),
        g2_sum(g2_neg(a), g2_neg(b)) == g2_neg(g2_sum(a, b)),
{
    if let (G2Value::Affine { x: x1, y: y1 }, G2Value::Affine { x: x2, y: y2 }) = (a, b) {
        let zero = Fq2Value { c0: 0, c1: 0 };
        lemma_fq2_neg(y1);
        lemma_fq2_neg(y2);
        if x1 != x2 {
            let n = fq2_sub(y2, y1);
            let d = fq2_sub(x2, x1);
            lemma_fq2_neg_terms(y2, y1);
            lemma_fq2_neg_mul(n, fq2_inv(d));
            lemma_g2_neg_chord(fq2_div(n, d), x1, y1, x2);
        } else if y1 == y2 && y1 != zero {
            let xx = fq2_mul(x1, x1);
            let n = fq2_add(fq2_add(xx, xx), xx);
            let d = fq2_add(y1, y1);
            lemma_fq2_neg_terms(y1, y1);
            lemma_fq2_inv_of_neg(d);
            lemma_fq2_neg_mul(fq2_inv(d), n);
            lemma_g2_neg_chord(fq2_div(n, d), x1, y1, x2);
        }
    }
}

/// The opposite of a multiple is the multiple of the opposite.
pub proof fn lemma_g2_neg_times(n: nat, p: G2Value)
    requires
        g2_reduced(p),
    ensures
        g2_reduced(g2_times(n, p)),
        g2_times(n, g2_neg(p)) == g2_neg(g2_times(n, p)),
    decreases n,
{
    if n > 0 {
        let m = (n - 1) as nat;
        lemma_g2_neg_times(m, p);
        lemma_g2_neg_sum(g2_times(m, p), p);
    }
}

} // verus!

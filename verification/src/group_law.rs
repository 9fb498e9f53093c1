//! The chord-and-tangent law on a curve `y^2 = x^3 + b` over `Fq2`: sums stay on the curve,
//! commute, and are undone by adding the opposite. G2 is such a curve, and G1 is the part of
//! another one without imaginary components.
use vstd::prelude::*;

use crate::algebra::Gauss;
#[allow(unused_imports)]
use crate::algebra::{
    conic, cube, defect, g2_constant, lemma_cancel, lemma_chord_slope, lemma_congruent,
    lemma_cube_difference, lemma_fq_multiple, lemma_fq_zero, lemma_g1_no_root, lemma_g2_no_root,
    lemma_norm_vanishes, lemma_square_difference, lemma_third_point, lemma_times_assoc,
    lemma_times_minus, lemma_times_plus, lemma_times_swap, lemma_vanishes_sum,
    lemma_vanishes_times, line_defect, minus, norm, plus, slope_defect, times, vanishes,
};
use crate::certificate::lemma_prime_q;
use crate::curve::{G1Value, G2Value};
#[allow(unused_imports)]
use crate::curve::{
    g1_chord, g1_neg, g1_on_curve, g1_sum, g1_times, g2_chord, g2_coeff_b, g2_neg, g2_on_curve,
    g2_sum, g2_times,
};
use crate::field::Fq2Value;
#[allow(unused_imports)]
use crate::field::{
    fq, fq2_add, fq2_div, fq2_inv, fq2_mul, fq2_neg, fq2_reduced, fq2_sub, fq_div, fq_inv,
    is_fq_inverse, q,
};
#[allow(unused_imports)]
use crate::prime::{lemma_inverse_exists, lemma_mod_factor, lemma_mod_shift, lemma_prime_factor};

verus! {

// ---- Elements and Gaussian integers ----------------------------------------------------------

/// The Gaussian integer that an element is written as.
pub open spec fn lift(a: Fq2Value) -> Gauss {
    Gauss { re: a.c0 as int, im: a.c1 as int }
}

/// The element that a Gaussian integer stands for.
pub open spec fn reduce(a: Gauss) -> Fq2Value {
    Fq2Value { c0: fq(a.re), c1: fq(a.im) }
}

/// Two Gaussian integers stand for one element.
pub open spec fn near(a: Gauss, b: Gauss) -> bool {
    vanishes(minus(a, b))
}

/// Integers have one remainder just where their difference vanishes.
proof fn lemma_fq_difference(a: int, b: int)
    ensures
        fq(a - b) == 0 <==> fq(a) == fq(b),
{
    let n = q() as int;
    if fq(a - b) == 0 {
        let m = lemma_fq_zero(a - b);
        lemma_mod_shift(b, m, n);
    }
    if fq(a) == fq(b) {
        let m = lemma_congruent(a, b);
        lemma_fq_multiple(m);
    }
}

proof fn lemma_reduce(a: Gauss, b: Gauss)
    ensures
        near(a, b) <==> reduce(a) == reduce(b),
{
    lemma_fq_difference(a.re, b.re);
    lemma_fq_difference(a.im, b.im);
}

proof fn lemma_lift(a: Fq2Value)
    requires
        fq2_reduced(a),
    ensures
        reduce(lift(a)) == a,
{
}

proof fn lemma_lift_reduce(a: Gauss)
    ensures
        near(lift(reduce(a)), a),
        fq2_reduced(reduce(a)),
{
    lemma_lift(reduce(a));
    lemma_reduce(lift(reduce(a)), a);
}

proof fn lemma_near_sym(a: Gauss, b: Gauss)
    requires
        near(a, b),
    ensures
        near(b, a),
{
    lemma_reduce(a, b);
    lemma_reduce(b, a);
}

proof fn lemma_near_trans(a: Gauss, b: Gauss, c: Gauss)
    requires
        near(a, b),
        near(b, c),
    ensures
        near(a, c),
{
    lemma_reduce(a, b);
    lemma_reduce(b, c);
    lemma_reduce(a, c);
}

proof fn lemma_near_same(a: Gauss)
    ensures
        near(a, a),
{
}

proof fn lemma_near_sums(a: Gauss, b: Gauss, c: Gauss, d: Gauss)
    requires
        near(a, b),
        near(c, d),
    ensures
        near(plus(a, c), plus(b, d)),
        near(minus(a, c), minus(b, d)),
{
    lemma_vanishes_sum(minus(a, b), minus(c, d));
    assert(minus(plus(a, c), plus(b, d)) == plus(minus(a, b), minus(c, d)));
    assert(minus(minus(a, c), minus(b, d)) == minus(minus(a, b), minus(c, d)));
}

proof fn lemma_near_times(a: Gauss, b: Gauss, c: Gauss, d: Gauss)
    requires
        near(a, b),
        near(c, d),
    ensures
        near(times(a, c), times(b, d)),
{
    lemma_vanishes_times(minus(a, b), c);
    lemma_vanishes_times(minus(c, d), b);
    lemma_times_minus(c, a, b);
    lemma_times_minus(b, c, d);
    lemma_near_trans(times(a, c), times(b, c), times(b, d));
}

/// Sums, differences and products of elements are those of the Gaussian integers.
#[verifier::rlimit(40)]
proof fn lemma_ops(a: Gauss, b: Gauss)
    ensures
        fq2_add(reduce(a), reduce(b)) == reduce(plus(a, b)),
        fq2_sub(reduce(a), reduce(b)) == reduce(minus(a, b)),
        fq2_mul(reduce(a), reduce(b)) == reduce(times(a, b)),
{
    let (x, y) = (lift(reduce(a)), lift(reduce(b)));
    lemma_lift_reduce(a);
    lemma_lift_reduce(b);
    lemma_near_sums(x, a, y, b);
    lemma_near_times(x, a, y, b);
    lemma_reduce(plus(x, y), plus(a, b));
    lemma_reduce(minus(x, y), minus(a, b));
    lemma_reduce(times(x, y), times(a, b));
}

// ---- Division --------------------------------------------------------------------------------

/// Everything but zero has an inverse in `Fq`.
proof fn lemma_fq_inv(d: int)
    requires
        fq(d) != 0,
    ensures
        is_fq_inverse(fq_inv(d), d),
{
    let n = q() as int;
    lemma_prime_q();
    let i = lemma_inverse_exists(n, d % n);
    lemma_mod_factor(d, d % n, i, n);
    assert(is_fq_inverse(i as nat, d));
}

/// Everything but zero has an inverse in `Fq2`, and a quotient times the divisor is the
/// dividend.
#[verifier::rlimit(40)]
proof fn lemma_fq2_div(n: Fq2Value, d: Fq2Value)
    requires
        fq2_reduced(n),
        fq2_reduced(d),
        !vanishes(lift(d)),
    ensures
        fq2_reduced(fq2_div(n, d)),
        near(times(lift(fq2_div(n, d)), lift(d)), lift(n)),
{
    let g = lift(d);
    let s = norm(g);
    let t = fq(s);
    if t == 0 {
        lemma_norm_vanishes(g);
    }
    let i = fq_inv(t as int) as int;
    lemma_fq_inv(t as int);
    let k = q() as int;
    lemma_mod_factor(s, t as int, i, k);
    let c = Gauss { re: g.re * i, im: -(g.im * i) };
    let inv = fq2_inv(d);
    assert(near(lift(inv), c)) by {
        lemma_fq_difference(inv.c0 as int, g.re * i);
        crate::negation::lemma_fq_of_neg(g.im * i);
        lemma_fq_difference(inv.c1 as int, -(g.im * i));
    }
    let one = Gauss { re: 1, im: 0 };
    assert(near(times(c, g), one)) by {
        let (x, y) = (g.re, g.im);
        assert((x * i) * x == i * (x * x)) by (nonlinear_arith);
        assert((-(y * i)) * y == -(i * (y * y))) by (nonlinear_arith);
        let (xx, yy) = (x * x, y * y);
        assert(i * (xx + yy) == i * xx + i * yy) by (nonlinear_arith);
        assert((x * i) * y + (-(y * i)) * x == 0) by (nonlinear_arith);
        lemma_fq_difference(i * s, 1);
    }
    let l = fq2_div(n, d);
    let m = lift(n);
    lemma_lift(n);
    lemma_lift(inv);
    lemma_ops(m, lift(inv));
    lemma_lift_reduce(times(m, lift(inv)));
    lemma_near_same(m);
    lemma_near_same(g);
    lemma_near_times(m, m, lift(inv), c);
    lemma_near_trans(lift(l), times(m, lift(inv)), times(m, c));
    lemma_near_times(lift(l), times(m, c), g, g);
    lemma_times_assoc(m, c, g);
    lemma_near_times(m, m, times(c, g), one);
    assert(times(m, one) == m) by {
        assert(m.re * 1 == m.re && m.im * 1 == m.im && m.re * 0 == 0 && m.im * 0 == 0)
            by (nonlinear_arith);
    }
    lemma_near_trans(times(lift(l), g), times(m, times(c, g)), m);
}

// ---- Sums --------------------------------------------------------------------------------------

/// The point lies on the curve with the constant `b`, with reduced coordinates.
pub open spec fn on_curve(p: G2Value, b: Gauss) -> bool {
    match p {
        G2Value::Infinity => true,
        G2Value::Affine { x, y } => fq2_reduced(x) && fq2_reduced(y) && vanishes(
            defect(lift(x), lift(y), b),
        ),
    }
}

/// The point is not its own opposite.
pub open spec fn two_sided(p: G2Value) -> bool {
    p matches G2Value::Affine { x, y } ==> !vanishes(lift(y))
}

/// Reduced elements are one element where their lifts stand for one.
proof fn lemma_same(a: Fq2Value, b: Fq2Value)
    requires
        fq2_reduced(a),
        fq2_reduced(b),
    ensures
        near(lift(a), lift(b)) <==> a == b,
{
    lemma_lift(a);
    lemma_lift(b);
    lemma_reduce(lift(a), lift(b));
}

/// The slope by which two points of the curve are added.
pub open spec fn slope(x1: Fq2Value, y1: Fq2Value, x2: Fq2Value, y2: Fq2Value) -> Fq2Value {
    if x1 != x2 {
        fq2_div(fq2_sub(y2, y1), fq2_sub(x2, x1))
    } else {
        let xx = fq2_mul(x1, x1);
        fq2_div(fq2_add(fq2_add(xx, xx), xx), fq2_add(y1, y1))
    }
}

/// Twice an element vanishes only where the element does.
proof fn lemma_twice(y: Gauss)
    requires
        vanishes(plus(y, y)),
    ensures
        vanishes(y),
{
    let n = q() as int;
    lemma_prime_q();
    assert(2int % n != 0);
    lemma_prime_factor(n, 2, y.re);
    lemma_prime_factor(n, 2, y.im);
}

/// The slope meets both points, and is the one that the curve asks for.
#[verifier::rlimit(40)]
proof fn lemma_slope(x1: Fq2Value, y1: Fq2Value, x2: Fq2Value, y2: Fq2Value, b: Gauss)
    requires
        on_curve(G2Value::Affine { x: x1, y: y1 }, b),
        on_curve(G2Value::Affine { x: x2, y: y2 }, b),
        x1 != x2 || (y1 == y2 && !vanishes(lift(y1))),
    ensures
        fq2_reduced(slope(x1, y1, x2, y2)),
        vanishes(line_defect(lift(slope(x1, y1, x2, y2)), lift(x1), lift(y1), lift(x2), lift(y2))),
        vanishes(slope_defect(lift(slope(x1, y1, x2, y2)), lift(x1), lift(y1), lift(x2), lift(y2))),
{
    let l = slope(x1, y1, x2, y2);
    let (a1, b1, a2, b2) = (lift(x1), lift(y1), lift(x2), lift(y2));
    lemma_lift(x1);
    lemma_lift(y1);
    lemma_lift(x2);
    lemma_lift(y2);
    if x1 != x2 {
        let n = fq2_sub(y2, y1);
        let d = fq2_sub(x2, x1);
        lemma_ops(b2, b1);
        lemma_ops(a2, a1);
        lemma_lift_reduce(minus(b2, b1));
        lemma_lift_reduce(minus(a2, a1));
        lemma_same(x2, x1);
        if vanishes(lift(d)) || vanishes(minus(a2, a1)) {
            let zero = Gauss { re: 0, im: 0 };
            assert(minus(lift(d), zero) == lift(d));
            assert(minus(minus(a2, a1), zero) == minus(a2, a1));
            if vanishes(lift(d)) {
                lemma_near_sym(lift(d), minus(a2, a1));
                lemma_near_trans(minus(a2, a1), lift(d), zero);
            }
            assert(false);
        }
        lemma_fq2_div(n, d);
        lemma_near_same(lift(l));
        lemma_near_sym(lift(d), minus(a2, a1));
        lemma_near_times(lift(l), lift(l), minus(a2, a1), lift(d));
        lemma_near_trans(times(lift(l), minus(a2, a1)), times(lift(l), lift(d)), lift(n));
        lemma_near_trans(times(lift(l), minus(a2, a1)), lift(n), minus(b2, b1));
        lemma_near_sym(times(lift(l), minus(a2, a1)), minus(b2, b1));
        lemma_chord_slope(lift(l), a1, b1, a2, b2, b);
    } else {
        let xx = times(a1, a1);
        lemma_ops(a1, a1);
        lemma_ops(xx, xx);
        lemma_ops(plus(xx, xx), xx);
        lemma_ops(b1, b1);
        let n = reduce(plus(plus(xx, xx), xx));
        let d = reduce(plus(b1, b1));
        lemma_lift_reduce(plus(plus(xx, xx), xx));
        lemma_lift_reduce(plus(b1, b1));
        if vanishes(lift(d)) {
            let zero = Gauss { re: 0, im: 0 };
            assert(minus(lift(d), zero) == lift(d));
            assert(minus(plus(b1, b1), zero) == plus(b1, b1));
            lemma_near_sym(lift(d), plus(b1, b1));
            lemma_near_trans(plus(b1, b1), lift(d), zero);
            lemma_twice(b1);
        }
        lemma_fq2_div(n, d);
        lemma_near_same(lift(l));
        lemma_near_sym(lift(d), plus(b1, b1));
        lemma_near_times(lift(l), lift(l), plus(b1, b1), lift(d));
        lemma_near_trans(times(lift(l), plus(b1, b1)), times(lift(l), lift(d)), lift(n));
        lemma_near_trans(times(lift(l), plus(b1, b1)), lift(n), conic(a1, a1));
        lemma_vanishes_times(minus(a2, a1), lift(l));
        lemma_vanishes_sum(minus(b2, b1), times(lift(l), minus(a2, a1)));
    }
}

/// The coordinates of the third point, reflected, as Gaussian integers.
pub open spec fn third_x(l: Gauss, x1: Gauss, x2: Gauss) -> Gauss {
    minus(minus(times(l, l), x1), x2)
}

pub open spec fn third_y(l: Gauss, x1: Gauss, y1: Gauss, x2: Gauss) -> Gauss {
    minus(times(l, minus(x1, third_x(l, x1, x2))), y1)
}

#[verifier::rlimit(40)]
proof fn lemma_chord(l: Fq2Value, x1: Fq2Value, y1: Fq2Value, x2: Fq2Value)
    requires
        fq2_reduced(l),
        fq2_reduced(x1),
        fq2_reduced(y1),
        fq2_reduced(x2),
    ensures
        g2_chord(l, x1, y1, x2) == (G2Value::Affine {
            x: reduce(third_x(lift(l), lift(x1), lift(x2))),
            y: reduce(third_y(lift(l), lift(x1), lift(y1), lift(x2))),
        }),
{
    let (g, a1, b1, a2) = (lift(l), lift(x1), lift(y1), lift(x2));
    lemma_lift(l);
    lemma_lift(x1);
    lemma_lift(y1);
    lemma_lift(x2);
    lemma_ops(g, g);
    lemma_ops(times(g, g), a1);
    lemma_ops(minus(times(g, g), a1), a2);
    let x3 = third_x(g, a1, a2);
    lemma_ops(a1, x3);
    lemma_ops(g, minus(a1, x3));
    lemma_ops(times(g, minus(a1, x3)), b1);
}

/// What vanishes does so however it is written.
proof fn lemma_vanishes_class(a: Gauss, b: Gauss)
    requires
        near(a, b),
    ensures
        vanishes(a) <==> vanishes(b),
{
    let zero = Gauss { re: 0, im: 0 };
    assert(minus(a, zero) == a && minus(b, zero) == b);
    lemma_near_sym(a, b);
    if vanishes(a) {
        lemma_near_trans(b, a, zero);
    }
    if vanishes(b) {
        lemma_near_trans(a, b, zero);
    }
}

/// The third point lies on the curve, and on the line seen from the second point.
#[verifier::rlimit(40)]
proof fn lemma_third(l: Gauss, x1: Gauss, y1: Gauss, x2: Gauss, y2: Gauss, b: Gauss)
    requires
        vanishes(defect(x1, y1, b)),
        vanishes(line_defect(l, x1, y1, x2, y2)),
        vanishes(slope_defect(l, x1, y1, x2, y2)),
    ensures
        vanishes(defect(third_x(l, x1, x2), third_y(l, x1, y1, x2), b)),
        near(
            third_y(l, x1, y1, x2),
            minus(times(l, minus(x2, third_x(l, x1, x2))), y2),
        ),
{
    let (x3, y3) = (third_x(l, x1, x2), third_y(l, x1, y1, x2));
    let m = plus(y1, times(l, minus(x3, x1)));
    lemma_third_point(l, x1, y1, x2, y2, b);
    lemma_times_minus(l, x1, x3);
    lemma_times_minus(l, x3, x1);
    lemma_times_minus(l, x2, x3);
    lemma_times_minus(l, x2, x1);
    assert(y3.re == -m.re && y3.im == -m.im);
    let (u, v) = (m.re, m.im);
    assert((-u) * (-u) == u * u && (-v) * (-v) == v * v && (-u) * (-v) == u * v && (-v) * (-u) == v
        * u) by (nonlinear_arith);
    assert(times(y3, y3) == times(m, m));
    assert(minus(y3, minus(times(l, minus(x2, x3)), y2)) == line_defect(l, x1, y1, x2, y2));
}

/// The curve equation does not depend on how the coordinates are written.
proof fn lemma_defect_class(x: Gauss, y: Gauss, s: Gauss, t: Gauss, b: Gauss)
    requires
        near(x, s),
        near(y, t),
    ensures
        near(defect(x, y, b), defect(s, t, b)),
{
    lemma_near_times(y, t, y, t);
    lemma_near_times(x, s, x, s);
    lemma_near_times(times(x, x), times(s, s), x, s);
    lemma_near_sums(times(y, y), times(t, t), cube(x), cube(s));
    lemma_near_same(b);
    lemma_near_sums(minus(times(y, y), cube(x)), minus(times(t, t), cube(s)), b, b);
}

/// A reduced element that vanishes is zero.
proof fn lemma_lift_zero(y: Fq2Value)
    requires
        fq2_reduced(y),
    ensures
        vanishes(lift(y)) <==> y == (Fq2Value { c0: 0, c1: 0 }),
{
}

/// The sum of two finite points: by the slope, or infinity where the points are opposite.
proof fn lemma_sum_by_slope(x1: Fq2Value, y1: Fq2Value, x2: Fq2Value, y2: Fq2Value)
    requires
        fq2_reduced(y1),
    ensures
        g2_sum(G2Value::Affine { x: x1, y: y1 }, G2Value::Affine { x: x2, y: y2 }) == if x1 != x2
            || (y1 == y2 && !vanishes(lift(y1))) {
            g2_chord(slope(x1, y1, x2, y2), x1, y1, x2)
        } else {
            G2Value::Infinity
        },
{
    lemma_lift_zero(y1);
}

/// The third point, reflected, lies on the curve.
#[verifier::rlimit(40)]
proof fn lemma_chord_on_curve(
    l: Fq2Value,
    x1: Fq2Value,
    y1: Fq2Value,
    x2: Fq2Value,
    y2: Fq2Value,
    b: Gauss,
)
    requires
        fq2_reduced(l),
        on_curve(G2Value::Affine { x: x1, y: y1 }, b),
        fq2_reduced(x2),
        vanishes(line_defect(lift(l), lift(x1), lift(y1), lift(x2), lift(y2))),
        vanishes(slope_defect(lift(l), lift(x1), lift(y1), lift(x2), lift(y2))),
    ensures
        on_curve(g2_chord(l, x1, y1, x2), b),
{
    let (g, a1, b1, a2, b2) = (lift(l), lift(x1), lift(y1), lift(x2), lift(y2));
    lemma_chord(l, x1, y1, x2);
    lemma_third(g, a1, b1, a2, b2, b);
    let (x3, y3) = (third_x(g, a1, a2), third_y(g, a1, b1, a2));
    lemma_lift_reduce(x3);
    lemma_lift_reduce(y3);
    let (s, t) = (lift(reduce(x3)), lift(reduce(y3)));
    lemma_defect_class(s, t, x3, y3, b);
    lemma_vanishes_class(defect(s, t, b), defect(x3, y3, b));
}

/// A sum of points of the curve lies on the curve.
#[verifier::rlimit(40)]
pub proof fn lemma_sum_on_curve(p: G2Value, r: G2Value, b: Gauss)
    requires
        on_curve(p, b),
        on_curve(r, b),
    ensures
        on_curve(g2_sum(p, r), b),
{
    if let (G2Value::Affine { x: x1, y: y1 }, G2Value::Affine { x: x2, y: y2 }) = (p, r) {
        lemma_sum_by_slope(x1, y1, x2, y2);
        if x1 != x2 || (y1 == y2 && !vanishes(lift(y1))) {
            lemma_slope(x1, y1, x2, y2, b);
            lemma_chord_on_curve(slope(x1, y1, x2, y2), x1, y1, x2, y2, b);
        }
    }
}

/// The line through two points has one slope, whichever point comes first.
proof fn lemma_slopes_agree(g: Gauss, h: Gauss, a1: Gauss, b1: Gauss, a2: Gauss, b2: Gauss)
    requires
        vanishes(line_defect(g, a1, b1, a2, b2)),
        vanishes(line_defect(h, a2, b2, a1, b1)),
        !vanishes(minus(a2, a1)),
    ensures
        near(g, h),
{
    let d = minus(a2, a1);
    let zero = Gauss { re: 0, im: 0 };
    let (u, v) = (line_defect(g, a1, b1, a2, b2), line_defect(h, a2, b2, a1, b1));
    lemma_times_minus(d, g, h);
    lemma_times_minus(h, a1, a2);
    lemma_times_minus(h, a2, a1);
    lemma_vanishes_sum(u, v);
    lemma_vanishes_sum(zero, plus(u, v));
    assert(times(minus(g, h), d) == minus(zero, plus(u, v)));
    lemma_times_swap(minus(g, h), d);
    lemma_cancel(d, minus(g, h));
}

/// A chord does not depend on the order.
#[verifier::rlimit(40)]
proof fn lemma_chord_swap(
    l: Fq2Value,
    x1: Fq2Value,
    y1: Fq2Value,
    x2: Fq2Value,
    y2: Fq2Value,
    b: Gauss,
)
    requires
        fq2_reduced(l),
        on_curve(G2Value::Affine { x: x1, y: y1 }, b),
        on_curve(G2Value::Affine { x: x2, y: y2 }, b),
        vanishes(line_defect(lift(l), lift(x1), lift(y1), lift(x2), lift(y2))),
        vanishes(slope_defect(lift(l), lift(x1), lift(y1), lift(x2), lift(y2))),
    ensures
        g2_chord(l, x1, y1, x2) == g2_chord(l, x2, y2, x1),
{
    let (g, a1, b1, a2, b2) = (lift(l), lift(x1), lift(y1), lift(x2), lift(y2));
    lemma_chord(l, x1, y1, x2);
    lemma_chord(l, x2, y2, x1);
    lemma_third(g, a1, b1, a2, b2, b);
    assert(third_x(g, a1, a2) == third_x(g, a2, a1));
    lemma_reduce(third_y(g, a1, b1, a2), third_y(g, a2, b2, a1));
}

/// A sum does not depend on the order.
#[verifier::rlimit(40)]
pub proof fn lemma_sum_swap(p: G2Value, r: G2Value, b: Gauss)
    requires
        on_curve(p, b),
        on_curve(r, b),
    ensures
        g2_sum(p, r) == g2_sum(r, p),
{
    if let (G2Value::Affine { x: x1, y: y1 }, G2Value::Affine { x: x2, y: y2 }) = (p, r) {
        if x1 != x2 {
            let (l, k) = (slope(x1, y1, x2, y2), slope(x2, y2, x1, y1));
            lemma_sum_by_slope(x1, y1, x2, y2);
            lemma_sum_by_slope(x2, y2, x1, y1);
            lemma_slope(x1, y1, x2, y2, b);
            lemma_slope(x2, y2, x1, y1, b);
            lemma_same(x2, x1);
            lemma_slopes_agree(lift(l), lift(k), lift(x1), lift(y1), lift(x2), lift(y2));
            lemma_same(l, k);
            lemma_chord_swap(l, x1, y1, x2, y2, b);
        }
    }
}

/// An element and its opposite.
proof fn lemma_opposite(y: Fq2Value)
    requires
        fq2_reduced(y),
    ensures
        fq2_reduced(fq2_neg(y)),
        vanishes(plus(lift(fq2_neg(y)), lift(y))),
        vanishes(lift(fq2_neg(y))) <==> vanishes(lift(y)),
{
}

/// A line of the opposite slope leads back: from the third point and the reflected second
/// point to the first.
#[verifier::rlimit(40)]
proof fn lemma_back(l: Fq2Value, x1: Fq2Value, y1: Fq2Value, x2: Fq2Value, k: Fq2Value)
    requires
        fq2_reduced(l),
        fq2_reduced(x1),
        fq2_reduced(y1),
        fq2_reduced(x2),
        fq2_reduced(k),
        vanishes(plus(lift(k), lift(l))),
    ensures
        g2_chord(
            k,
            reduce(third_x(lift(l), lift(x1), lift(x2))),
            reduce(third_y(lift(l), lift(x1), lift(y1), lift(x2))),
            x2,
        ) == (G2Value::Affine { x: x1, y: y1 }),
{
    let (g, h, a1, b1, a2) = (lift(l), lift(k), lift(x1), lift(y1), lift(x2));
    let (x3, y3) = (third_x(g, a1, a2), third_y(g, a1, b1, a2));
    lemma_lift_reduce(x3);
    lemma_lift_reduce(y3);
    let (s, t) = (lift(reduce(x3)), lift(reduce(y3)));
    lemma_chord(k, reduce(x3), reduce(y3), x2);
    let x = third_x(h, s, a2);
    // The opposite slope has the same square, so that `x` is `x1`.
    lemma_square_difference(h, g);
    lemma_vanishes_times(plus(h, g), minus(h, g));
    assert(near(times(h, h), times(g, g)));
    lemma_near_sums(times(h, h), times(g, g), s, x3);
    lemma_near_same(a2);
    lemma_near_sums(minus(times(h, h), s), minus(times(g, g), x3), a2, a2);
    assert(minus(minus(times(g, g), x3), a2) == a1);
    assert(near(x, a1));
    lemma_reduce(x, a1);
    lemma_lift(x1);
    // The height at `x1` is that of the line through the first point.
    let y = third_y(h, s, t, a2);
    lemma_near_sums(s, x3, x, a1);
    lemma_near_same(h);
    lemma_near_times(h, h, minus(s, x), minus(x3, a1));
    lemma_near_sums(times(h, minus(s, x)), times(h, minus(x3, a1)), t, y3);
    let w = minus(times(h, minus(x3, a1)), y3);
    assert(near(w, b1)) by {
        lemma_vanishes_times(plus(h, g), minus(x3, a1));
        lemma_times_plus(minus(x3, a1), h, g);
        lemma_times_minus(g, x3, a1);
        lemma_times_minus(g, a1, x3);
        assert(minus(w, b1) == times(plus(h, g), minus(x3, a1)));
    }
    lemma_near_trans(y, w, b1);
    lemma_reduce(y, b1);
    lemma_lift(y1);
}

/// Points of the curve over one `x` are one point or opposite.
#[verifier::rlimit(40)]
proof fn lemma_same_x(x: Fq2Value, y1: Fq2Value, y2: Fq2Value, b: Gauss)
    requires
        on_curve(G2Value::Affine { x, y: y1 }, b),
        on_curve(G2Value::Affine { x, y: y2 }, b),
        y1 != y2,
    ensures
        y1 == fq2_neg(y2),
{
    let (b1, b2, n) = (lift(y1), lift(y2), lift(fq2_neg(y2)));
    lemma_vanishes_sum(defect(lift(x), b1, b), defect(lift(x), b2, b));
    lemma_square_difference(b1, b2);
    lemma_same(y1, y2);
    lemma_cancel(minus(b1, b2), plus(b1, b2));
    lemma_opposite(y2);
    lemma_vanishes_sum(plus(b1, b2), plus(n, b2));
    assert(minus(plus(b1, b2), plus(n, b2)) == minus(b1, n));
    lemma_same(y1, fq2_neg(y2));
}

/// The opposite of a point of the curve lies on the curve.
proof fn lemma_neg_on_curve(p: G2Value, b: Gauss)
    requires
        on_curve(p, b),
    ensures
        on_curve(g2_neg(p), b),
{
    if let G2Value::Affine { x, y } = p {
        let (a, c, n) = (lift(x), lift(y), lift(fq2_neg(y)));
        lemma_opposite(y);
        lemma_square_difference(n, c);
        lemma_vanishes_times(plus(n, c), minus(n, c));
        lemma_vanishes_sum(defect(a, c, b), minus(times(n, n), times(c, c)));
        assert(defect(a, n, b) == plus(defect(a, c, b), minus(times(n, n), times(c, c))));
    }
}

/// Where a line meets the curve a third time at its second point, it is the tangent there:
/// the tangent at the reflected point has the opposite slope.
#[verifier::rlimit(40)]
proof fn lemma_tangent_back(
    g: Gauss,
    a1: Gauss,
    b1: Gauss,
    a2: Gauss,
    b2: Gauss,
    b: Gauss,
    h: Gauss,
    m: Gauss,
)
    requires
        vanishes(defect(a2, b2, b)),
        vanishes(line_defect(g, a1, b1, a2, b2)),
        vanishes(slope_defect(g, a1, b1, a2, b2)),
        near(third_x(g, a1, a2), a2),
        vanishes(plus(m, b2)),
        vanishes(slope_defect(h, a2, m, a2, m)),
        !vanishes(b2),
    ensures
        vanishes(plus(h, g)),
{
    let zero = Gauss { re: 0, im: 0 };
    let (u, v) = (line_defect(g, a1, b1, a2, b2), line_defect(g, a2, b2, a1, b1));
    lemma_times_minus(g, a2, a1);
    lemma_times_minus(g, a1, a2);
    lemma_vanishes_sum(zero, u);
    assert(v == minus(zero, u));
    lemma_cube_difference(a1, a2);
    assert(slope_defect(g, a2, b2, a1, b1) == slope_defect(g, a1, b1, a2, b2));
    lemma_third_point(g, a2, b2, a1, b1, b);
    let x3 = third_x(g, a1, a2);
    assert(x3 == third_x(g, a2, a1));
    let y = plus(b2, times(g, minus(x3, a2)));
    let c = conic(a2, a2);
    // The height at the third point is `b2`, so that `g` is the slope of the tangent.
    lemma_vanishes_times(minus(x3, a2), g);
    assert(minus(y, b2) == times(g, minus(x3, a2)));
    lemma_near_same(b2);
    lemma_near_same(g);
    lemma_near_same(a2);
    lemma_near_sums(y, b2, b2, b2);
    lemma_near_times(g, g, plus(y, b2), plus(b2, b2));
    lemma_near_times(x3, a2, x3, a2);
    lemma_near_times(x3, a2, a2, a2);
    lemma_near_times(a2, a2, a2, a2);
    lemma_near_sums(times(x3, x3), times(a2, a2), times(x3, a2), times(a2, a2));
    lemma_near_sums(
        plus(times(x3, x3), times(x3, a2)),
        plus(times(a2, a2), times(a2, a2)),
        times(a2, a2),
        times(a2, a2),
    );
    lemma_near_sums(times(g, plus(y, b2)), times(g, plus(b2, b2)), conic(x3, a2), c);
    let w = minus(times(g, plus(b2, b2)), c);
    lemma_vanishes_class(slope_defect(g, x3, y, a2, b2), w);
    // The two slopes add up to zero.
    let (o, d) = (plus(m, b2), plus(b2, b2));
    let k = slope_defect(h, a2, m, a2, m);
    lemma_vanishes_sum(o, o);
    lemma_vanishes_times(plus(o, o), h);
    assert(plus(o, o) == plus(plus(m, m), d));
    lemma_times_plus(h, plus(m, m), d);
    lemma_times_plus(d, h, g);
    lemma_vanishes_sum(times(h, plus(o, o)), k);
    lemma_vanishes_sum(minus(times(h, plus(o, o)), k), w);
    assert(times(plus(h, g), d) == plus(minus(times(h, plus(o, o)), k), w));
    lemma_times_swap(plus(h, g), d);
    if vanishes(d) {
        lemma_twice(b2);
    }
    lemma_cancel(d, plus(h, g));
}

/// Adding the opposite undoes an addition.
#[verifier::rlimit(40)]
pub proof fn lemma_sum_undone(p: G2Value, r: G2Value, b: Gauss)
    requires
        on_curve(p, b),
        on_curve(r, b),
        two_sided(r),
    ensures
        g2_sum(g2_sum(p, r), g2_neg(r)) == p,
{
    match (p, r) {
        (_, G2Value::Infinity) => {},
        (G2Value::Infinity, G2Value::Affine { x, y }) => {
            lemma_opposite(y);
            if y == fq2_neg(y) {
                assert(vanishes(plus(lift(y), lift(y))));
                lemma_twice(lift(y));
            }
        },
        (G2Value::Affine { x: x1, y: y1 }, G2Value::Affine { x: x2, y: y2 }) => {
            let n2 = fq2_neg(y2);
            lemma_opposite(y2);
            if x1 != x2 || (y1 == y2 && !vanishes(lift(y1))) {
                lemma_undone_finite(x1, y1, x2, y2, b);
            } else {
                lemma_sum_by_slope(x1, y1, x2, y2);
                if y1 != y2 {
                    lemma_same_x(x1, y1, y2, b);
                }
            }
        },
    }
}

/// The slope from the third point back to the reflected second point is the opposite one,
/// where they lie over different `x`.
#[verifier::rlimit(40)]
proof fn lemma_chord_back(g: Gauss, h: Gauss, s: Gauss, t: Gauss, a2: Gauss, b2: Gauss, m: Gauss)
    requires
        near(t, minus(times(g, minus(a2, s)), b2)),
        vanishes(plus(m, b2)),
        vanishes(line_defect(h, s, t, a2, m)),
        !vanishes(minus(a2, s)),
    ensures
        vanishes(plus(h, g)),
{
    let (d, o) = (minus(a2, s), plus(m, b2));
    let f = minus(times(g, d), b2);
    let v = line_defect(h, s, t, a2, m);
    lemma_times_plus(d, h, g);
    lemma_times_swap(plus(h, g), d);
    lemma_vanishes_sum(o, v);
    lemma_vanishes_sum(minus(o, v), minus(t, f));
    assert(times(plus(h, g), d) == minus(minus(o, v), minus(t, f)));
    lemma_cancel(d, plus(h, g));
}

/// The third point, seen from the second: `y3` is `l * (x2 - x3) - y2`.
#[verifier::rlimit(40)]
proof fn lemma_seen(
    g: Gauss,
    a1: Gauss,
    b1: Gauss,
    a2: Gauss,
    b2: Gauss,
    b: Gauss,
    s: Gauss,
    t: Gauss,
)
    requires
        vanishes(defect(a1, b1, b)),
        vanishes(line_defect(g, a1, b1, a2, b2)),
        vanishes(slope_defect(g, a1, b1, a2, b2)),
        near(s, third_x(g, a1, a2)),
        near(t, third_y(g, a1, b1, a2)),
    ensures
        near(t, minus(times(g, minus(a2, s)), b2)),
{
    let (x3, y3) = (third_x(g, a1, a2), third_y(g, a1, b1, a2));
    let e = minus(times(g, minus(a2, x3)), b2);
    let f = minus(times(g, minus(a2, s)), b2);
    lemma_third(g, a1, b1, a2, b2, b);
    lemma_near_same(a2);
    lemma_near_same(b2);
    lemma_near_same(g);
    lemma_near_sym(s, x3);
    lemma_near_sums(a2, a2, x3, s);
    lemma_near_times(g, g, minus(a2, x3), minus(a2, s));
    lemma_near_sums(times(g, minus(a2, x3)), times(g, minus(a2, s)), b2, b2);
    lemma_near_trans(t, y3, e);
    lemma_near_trans(t, e, f);
}

/// The third point over the `x` of the second is the reflected second point.
proof fn lemma_seen_below(g: Gauss, s: Gauss, t: Gauss, a2: Gauss, b2: Gauss, m: Gauss)
    requires
        near(t, minus(times(g, minus(a2, s)), b2)),
        vanishes(plus(m, b2)),
        near(a2, s),
    ensures
        near(t, m),
{
    let f = minus(times(g, minus(a2, s)), b2);
    let o = plus(m, b2);
    lemma_vanishes_times(minus(a2, s), g);
    lemma_vanishes_sum(minus(t, f), times(g, minus(a2, s)));
    lemma_vanishes_sum(plus(minus(t, f), times(g, minus(a2, s))), o);
    assert(minus(t, m) == minus(plus(minus(t, f), times(g, minus(a2, s))), o));
}

/// The slope by which the addition is undone is the opposite one.
#[verifier::rlimit(40)]
proof fn lemma_slope_back(
    x1: Fq2Value,
    y1: Fq2Value,
    x2: Fq2Value,
    y2: Fq2Value,
    b: Gauss,
    x: Fq2Value,
    y: Fq2Value,
)
    requires
        on_curve(G2Value::Affine { x: x1, y: y1 }, b),
        on_curve(G2Value::Affine { x: x2, y: y2 }, b),
        on_curve(G2Value::Affine { x, y }, b),
        !vanishes(lift(y2)),
        x1 != x2 || (y1 == y2 && !vanishes(lift(y1))),
        ({
            let g = lift(slope(x1, y1, x2, y2));
            x == reduce(third_x(g, lift(x1), lift(x2))) && y == reduce(
                third_y(g, lift(x1), lift(y1), lift(x2)),
            )
        }),
    ensures
        x != x2 || (y == fq2_neg(y2) && !vanishes(lift(y))),
        fq2_reduced(slope(x, y, x2, fq2_neg(y2))),
        vanishes(plus(lift(slope(x, y, x2, fq2_neg(y2))), lift(slope(x1, y1, x2, y2)))),
{
    let n2 = fq2_neg(y2);
    let (g, h) = (lift(slope(x1, y1, x2, y2)), lift(slope(x, y, x2, n2)));
    let (a1, b1, a2, b2) = (lift(x1), lift(y1), lift(x2), lift(y2));
    let (s, t, m) = (lift(x), lift(y), lift(n2));
    lemma_slope(x1, y1, x2, y2, b);
    lemma_lift_reduce(third_x(g, a1, a2));
    lemma_lift_reduce(third_y(g, a1, b1, a2));
    lemma_opposite(y2);
    lemma_neg_on_curve(G2Value::Affine { x: x2, y: y2 }, b);
    lemma_seen(g, a1, b1, a2, b2, b, s, t);
    lemma_same(x2, x);
    if x != x2 {
        lemma_slope(x, y, x2, n2, b);
        lemma_chord_back(g, h, s, t, a2, b2, m);
    } else {
        lemma_seen_below(g, s, t, a2, b2, m);
        lemma_same(y, n2);
        lemma_slope(x, y, x2, n2, b);
        lemma_near_sym(s, third_x(g, a1, a2));
        lemma_tangent_back(g, a1, b1, a2, b2, b, h, m);
    }
}

/// Adding the opposite undoes an addition that has a finite sum.
#[verifier::rlimit(40)]
proof fn lemma_undone_finite(x1: Fq2Value, y1: Fq2Value, x2: Fq2Value, y2: Fq2Value, b: Gauss)
    requires
        on_curve(G2Value::Affine { x: x1, y: y1 }, b),
        on_curve(G2Value::Affine { x: x2, y: y2 }, b),
        !vanishes(lift(y2)),
        x1 != x2 || (y1 == y2 && !vanishes(lift(y1))),
    ensures
        g2_sum(
            g2_sum(G2Value::Affine { x: x1, y: y1 }, G2Value::Affine { x: x2, y: y2 }),
            G2Value::Affine { x: x2, y: fq2_neg(y2) },
        ) == (G2Value::Affine { x: x1, y: y1 }),
{
    let l = slope(x1, y1, x2, y2);
    let g = lift(l);
    let x = reduce(third_x(g, lift(x1), lift(x2)));
    let y = reduce(third_y(g, lift(x1), lift(y1), lift(x2)));
    lemma_sum_by_slope(x1, y1, x2, y2);
    lemma_slope(x1, y1, x2, y2, b);
    lemma_chord(l, x1, y1, x2);
    lemma_sum_on_curve(G2Value::Affine { x: x1, y: y1 }, G2Value::Affine { x: x2, y: y2 }, b);
    lemma_slope_back(x1, y1, x2, y2, b, x, y);
    lemma_sum_by_slope(x, y, x2, fq2_neg(y2));
    lemma_back(l, x1, y1, x2, slope(x, y, x2, fq2_neg(y2)));
}

/// The equations that the third point, reflected, satisfies: for a line of slope `n / d`,
/// `(x1 + x2 + x3) * d^2 = n^2` and `(y3 + y1) * d = n * (x1 - x3)`.
#[verifier::rlimit(40)]
proof fn lemma_line(
    l: Fq2Value,
    n: Fq2Value,
    d: Fq2Value,
    x1: Fq2Value,
    y1: Fq2Value,
    x2: Fq2Value,
    x3: Fq2Value,
    y3: Fq2Value,
)
    requires
        fq2_reduced(l),
        fq2_reduced(n),
        fq2_reduced(d),
        fq2_reduced(x1),
        fq2_reduced(y1),
        fq2_reduced(x2),
        near(times(lift(l), lift(d)), lift(n)),
        g2_chord(l, x1, y1, x2) == (G2Value::Affine { x: x3, y: y3 }),
    ensures
        fq2_mul(fq2_add(fq2_add(x1, x2), x3), fq2_mul(d, d)) == fq2_mul(n, n),
        fq2_mul(fq2_add(y3, y1), d) == fq2_mul(n, fq2_sub(x1, x3)),
{
    let (g, m, e) = (lift(l), lift(n), lift(d));
    let (a1, b1, a2) = (lift(x1), lift(y1), lift(x2));
    let (u, v) = (third_x(g, a1, a2), third_y(g, a1, b1, a2));
    lemma_chord(l, x1, y1, x2);
    lemma_lift(n);
    lemma_lift(d);
    lemma_lift(x1);
    lemma_lift(y1);
    lemma_lift(x2);
    let ge = times(g, e);
    assert(fq2_mul(fq2_add(fq2_add(x1, x2), x3), fq2_mul(d, d)) == fq2_mul(n, n)) by {
        lemma_ops(a1, a2);
        lemma_ops(plus(a1, a2), u);
        assert(plus(plus(a1, a2), u) == times(g, g));
        lemma_ops(e, e);
        lemma_ops(times(g, g), times(e, e));
        lemma_ops(m, m);
        lemma_times_assoc(g, g, times(e, e));
        lemma_times_assoc(g, e, e);
        lemma_times_swap(ge, e);
        lemma_times_assoc(g, e, ge);
        assert(times(times(g, g), times(e, e)) == times(ge, ge));
        lemma_near_times(ge, m, ge, m);
        lemma_reduce(times(ge, ge), times(m, m));
    }
    assert(fq2_mul(fq2_add(y3, y1), d) == fq2_mul(n, fq2_sub(x1, x3))) by {
        let w = minus(a1, u);
        lemma_ops(v, b1);
        assert(plus(v, b1) == times(g, w));
        lemma_ops(times(g, w), e);
        lemma_ops(a1, u);
        lemma_ops(m, w);
        lemma_times_assoc(g, w, e);
        lemma_times_swap(w, e);
        lemma_times_assoc(g, e, w);
        lemma_near_same(w);
        lemma_near_times(ge, m, w, w);
        lemma_reduce(times(ge, w), times(m, w));
    }
}

/// The equations that the sum of two finite points over different `x` satisfies.
proof fn lemma_chord_equations(x1: Fq2Value, y1: Fq2Value, x2: Fq2Value, y2: Fq2Value)
    requires
        fq2_reduced(x1),
        fq2_reduced(y1),
        fq2_reduced(x2),
        fq2_reduced(y2),
        x1 != x2,
    ensures
        ({
            let (n, d) = (fq2_sub(y2, y1), fq2_sub(x2, x1));
            &&& g2_sum(G2Value::Affine { x: x1, y: y1 }, G2Value::Affine { x: x2, y: y2 })
                matches G2Value::Affine { x: x3, y: y3 }
            &&& fq2_mul(fq2_add(fq2_add(x1, x2), x3), fq2_mul(d, d)) == fq2_mul(n, n)
            &&& fq2_mul(fq2_add(y3, y1), d) == fq2_mul(n, fq2_sub(x1, x3))
        }),
{
    let (n, d) = (fq2_sub(y2, y1), fq2_sub(x2, x1));
    let l = slope(x1, y1, x2, y2);
    lemma_sum_by_slope(x1, y1, x2, y2);
    lemma_lift(x1);
    lemma_lift(x2);
    lemma_same(x2, x1);
    lemma_ops(lift(x2), lift(x1));
    lemma_lift_reduce(minus(lift(x2), lift(x1)));
    lemma_vanishes_class(lift(d), minus(lift(x2), lift(x1)));
    lemma_fq2_div(n, d);
    if let G2Value::Affine { x: x3, y: y3 } = g2_chord(l, x1, y1, x2) {
        lemma_line(l, n, d, x1, y1, x2, x3, y3);
    }
}

/// The equations that the double of a finite point satisfies.
proof fn lemma_tangent_equations(x1: Fq2Value, y1: Fq2Value)
    requires
        fq2_reduced(x1),
        fq2_reduced(y1),
        !vanishes(lift(y1)),
    ensures
        ({
            let xx = fq2_mul(x1, x1);
            let (n, d) = (fq2_add(fq2_add(xx, xx), xx), fq2_add(y1, y1));
            &&& g2_sum(G2Value::Affine { x: x1, y: y1 }, G2Value::Affine { x: x1, y: y1 })
                matches G2Value::Affine { x: x3, y: y3 }
            &&& fq2_mul(fq2_add(fq2_add(x1, x1), x3), fq2_mul(d, d)) == fq2_mul(n, n)
            &&& fq2_mul(fq2_add(y3, y1), d) == fq2_mul(n, fq2_sub(x1, x3))
        }),
{
    let xx = fq2_mul(x1, x1);
    let (n, d) = (fq2_add(fq2_add(xx, xx), xx), fq2_add(y1, y1));
    let l = slope(x1, y1, x1, y1);
    let b = lift(y1);
    lemma_sum_by_slope(x1, y1, x1, y1);
    lemma_lift(y1);
    lemma_ops(b, b);
    lemma_lift_reduce(plus(b, b));
    lemma_vanishes_class(lift(d), plus(b, b));
    if vanishes(plus(b, b)) {
        lemma_twice(b);
    }
    lemma_fq2_div(n, d);
    if let G2Value::Affine { x: x3, y: y3 } = g2_chord(l, x1, y1, x1) {
        lemma_line(l, n, d, x1, y1, x1, x3, y3);
    }
}

// ---- G2 ----------------------------------------------------------------------------------------

/// The G2 curve is the one with the constant of G2, and none of its points is its own
/// opposite.
#[verifier::rlimit(40)]
proof fn lemma_g2_curve(p: G2Value)
    ensures
        g2_on_curve(p) <==> on_curve(p, g2_constant()),
        g2_on_curve(p) ==> two_sided(p),
{
    if let G2Value::Affine { x, y } = p {
        if fq2_reduced(x) && fq2_reduced(y) {
            let (a, c, b) = (lift(x), lift(y), g2_constant());
            lemma_lift(x);
            lemma_lift(y);
            lemma_ops(c, c);
            lemma_ops(a, a);
            lemma_ops(times(a, a), a);
            assert(reduce(b) == g2_coeff_b());
            lemma_ops(cube(a), b);
            lemma_reduce(times(c, c), plus(cube(a), b));
            assert(defect(a, c, b) == minus(times(c, c), plus(cube(a), b)));
            if vanishes(c) && vanishes(defect(a, c, b)) {
                lemma_vanishes_times(c, c);
                lemma_vanishes_sum(times(c, c), defect(a, c, b));
                assert(minus(times(c, c), defect(a, c, b)) == plus(cube(a), b));
                lemma_g2_no_root(a);
            }
        }
    }
}

/// No point of the G2 curve has `y = 0`.
pub proof fn lemma_g2_y_nonzero(x: Fq2Value, y: Fq2Value)
    requires
        g2_on_curve(G2Value::Affine { x, y }),
    ensures
        y != (Fq2Value { c0: 0, c1: 0 }),
{
    lemma_g2_curve(G2Value::Affine { x, y });
}

/// A sum of points of the G2 curve lies on the curve, and does not depend on the order.
pub proof fn lemma_g2_sum(p: G2Value, r: G2Value)
    requires
        g2_on_curve(p),
        g2_on_curve(r),
    ensures
        g2_on_curve(g2_sum(p, r)),
        g2_sum(p, r) == g2_sum(r, p),
{
    lemma_g2_curve(p);
    lemma_g2_curve(r);
    lemma_sum_on_curve(p, r, g2_constant());
    lemma_sum_swap(p, r, g2_constant());
    lemma_g2_curve(g2_sum(p, r));
}

/// Adding the opposite undoes an addition in G2.
pub proof fn lemma_g2_sum_undone(p: G2Value, r: G2Value)
    requires
        g2_on_curve(p),
        g2_on_curve(r),
    ensures
        g2_sum(g2_sum(p, r), g2_neg(r)) == p,
{
    lemma_g2_curve(p);
    lemma_g2_curve(r);
    lemma_sum_undone(p, r, g2_constant());
}

/// The equations that the sum of two finite points of the G2 curve satisfies.
pub proof fn lemma_g2_line(x1: Fq2Value, y1: Fq2Value, x2: Fq2Value, y2: Fq2Value)
    requires
        g2_on_curve(G2Value::Affine { x: x1, y: y1 }),
        g2_on_curve(G2Value::Affine { x: x2, y: y2 }),
    ensures
        ({
            let s = g2_sum(G2Value::Affine { x: x1, y: y1 }, G2Value::Affine { x: x2, y: y2 });
            let xx = fq2_mul(x1, x1);
            let (n, d) = if x1 != x2 {
                (fq2_sub(y2, y1), fq2_sub(x2, x1))
            } else {
                (fq2_add(fq2_add(xx, xx), xx), fq2_add(y1, y1))
            };
            &&& s == G2Value::Infinity <==> x1 == x2 && y1 != y2
            &&& s matches G2Value::Affine { x: x3, y: y3 } ==> fq2_mul(
                fq2_add(fq2_add(x1, x2), x3),
                fq2_mul(d, d),
            ) == fq2_mul(n, n) && fq2_mul(fq2_add(y3, y1), d) == fq2_mul(n, fq2_sub(x1, x3))
        }),
{
    lemma_g2_curve(G2Value::Affine { x: x1, y: y1 });
    if x1 != x2 {
        lemma_chord_equations(x1, y1, x2, y2);
    } else if y1 == y2 {
        lemma_tangent_equations(x1, y1);
    }
}

/// A multiple of a point of the G2 curve lies on the curve.
pub proof fn lemma_g2_times_on_curve(n: nat, p: G2Value)
    requires
        g2_on_curve(p),
    ensures
        g2_on_curve(g2_times(n, p)),
    decreases n,
{
    if n > 0 {
        lemma_g2_times_on_curve((n - 1) as nat, p);
        lemma_g2_sum(g2_times((n - 1) as nat, p), p);
    }
}

// ---- G1 ----------------------------------------------------------------------------------------

/// An element of `Fq` as one of `Fq2`.
spec fn scalar(c: nat) -> Fq2Value {
    Fq2Value { c0: c, c1: 0 }
}

/// A point of the G1 curve as one over `Fq2`.
spec fn embed(p: G1Value) -> G2Value {
    match p {
        G1Value::Infinity => G2Value::Infinity,
        G1Value::Affine { x, y } => G2Value::Affine { x: scalar(x), y: scalar(y) },
    }
}

/// The constant of the G1 curve.
spec fn g1_constant() -> Gauss {
    Gauss { re: 3, im: 0 }
}

proof fn lemma_scalar_times(a: int, b: int)
    ensures
        times(Gauss { re: a, im: 0 }, Gauss { re: b, im: 0 }) == (Gauss { re: a * b, im: 0 }),
{
    assert(a * 0 == 0 && 0 * b == 0 && 0int * 0int == 0) by (nonlinear_arith);
}

/// The G1 curve is the part over `Fq` of the one with the constant 3, and none of its points is
/// its own opposite.
#[verifier::rlimit(40)]
proof fn lemma_g1_curve(p: G1Value)
    ensures
        g1_on_curve(p) <==> on_curve(embed(p), g1_constant()),
        g1_on_curve(p) ==> two_sided(embed(p)),
{
    if let G1Value::Affine { x, y } = p {
        let (a, c) = (x as int, y as int);
        lemma_scalar_times(c, c);
        lemma_scalar_times(a, a);
        lemma_scalar_times(a * a, a);
        lemma_fq_difference(c * c, a * a * a + 3);
        if g1_on_curve(p) && y == 0 {
            assert(c * c == 0) by (nonlinear_arith)
                requires
                    c == 0,
            ;
            lemma_g1_no_root(a);
        }
    }
}

/// Division in `Fq` is division in `Fq2`.
#[verifier::rlimit(40)]
proof fn lemma_scalar_div(n: int, d: int)
    requires
        fq(d) != 0,
    ensures
        fq2_div(scalar(fq(n)), scalar(fq(d))) == scalar(fq_div(n, d)),
{
    let k = q() as int;
    let i = fq_inv(d) as int;
    let (e, m) = (fq(d) as int, fq(n) as int);
    let l = fq_div(n, d) as int;
    lemma_fq_inv(d);
    lemma_fq2_div(scalar(fq(n)), scalar(fq(d)));
    lemma_scalar_times(l, e);
    assert(fq(l * e) == fq(m)) by {
        lemma_mod_factor(l, n * i, e, k);
        lemma_mod_factor(e, d, n * i, k);
        lemma_mod_factor(i * d, 1, n, k);
        assert((n * i) * d == n * (i * d)) by (nonlinear_arith);
    }
    lemma_fq_difference(l * e, m);
    let (g, h, f) = (
        lift(fq2_div(scalar(fq(n)), scalar(fq(d)))),
        lift(scalar(fq_div(n, d))),
        lift(scalar(fq(d))),
    );
    lemma_near_sym(times(h, f), lift(scalar(fq(n))));
    lemma_near_trans(times(g, f), lift(scalar(fq(n))), times(h, f));
    lemma_times_minus(f, g, h);
    lemma_times_swap(minus(g, h), f);
    lemma_cancel(f, minus(g, h));
    lemma_same(fq2_div(scalar(fq(n)), scalar(fq(d))), scalar(fq_div(n, d)));
}

/// The chord of points over `Fq` is a point over `Fq`.
#[verifier::rlimit(40)]
proof fn lemma_scalar_chord(l: nat, x1: nat, y1: nat, x2: nat)
    requires
        l < q(),
        x1 < q(),
        y1 < q(),
        x2 < q(),
    ensures
        g2_chord(scalar(l), scalar(x1), scalar(y1), scalar(x2)) == embed(g1_chord(l, x1, y1, x2)),
{
    let x3 = fq(l * l - x1 - x2);
    let (g, a1, b1, a2) = (lift(scalar(l)), lift(scalar(x1)), lift(scalar(y1)), lift(scalar(x2)));
    lemma_lift(scalar(l));
    lemma_lift(scalar(x1));
    lemma_lift(scalar(y1));
    lemma_lift(scalar(x2));
    lemma_scalar_times(l as int, l as int);
    lemma_ops(g, g);
    lemma_ops(times(g, g), a1);
    lemma_ops(minus(times(g, g), a1), a2);
    let a3 = lift(scalar(x3));
    lemma_lift(scalar(x3));
    lemma_ops(a1, a3);
    lemma_ops(g, minus(a1, a3));
    lemma_scalar_times(l as int, x1 - x3);
    lemma_ops(times(g, minus(a1, a3)), b1);
}

/// The sum in G1 is the sum over `Fq2`.
#[verifier::rlimit(40)]
proof fn lemma_embed_sum(p: G1Value, r: G1Value)
    requires
        g1_on_curve(p),
        g1_on_curve(r),
    ensures
        g2_sum(embed(p), embed(r)) == embed(g1_sum(p, r)),
{
    if let (G1Value::Affine { x: x1, y: y1 }, G1Value::Affine { x: x2, y: y2 }) = (p, r) {
        let (a1, b1) = (lift(scalar(x1)), lift(scalar(y1)));
        let (a2, b2) = (lift(scalar(x2)), lift(scalar(y2)));
        lemma_lift(scalar(x1));
        lemma_lift(scalar(y1));
        lemma_lift(scalar(x2));
        lemma_lift(scalar(y2));
        if x1 != x2 {
            lemma_ops(b2, b1);
            lemma_ops(a2, a1);
            lemma_fq_difference(x2 as int, x1 as int);
            lemma_scalar_div(y2 - y1, x2 - x1);
            lemma_scalar_chord(fq_div(y2 - y1, x2 - x1), x1, y1, x2);
        } else if y1 == y2 && y1 != 0 {
            let (x, y) = (x1 as int, y1 as int);
            let xx = times(a1, a1);
            lemma_scalar_times(x, x);
            lemma_ops(a1, a1);
            lemma_ops(xx, xx);
            lemma_ops(plus(xx, xx), xx);
            lemma_ops(b1, b1);
            assert(3 * x * x == x * x + x * x + x * x) by (nonlinear_arith);
            if fq(2 * y) == 0 {
                lemma_twice(b1);
            }
            lemma_scalar_div(3 * x * x, 2 * y);
            lemma_scalar_chord(fq_div(3 * x * x, 2 * y), x1, y1, x2);
        }
    }
}

proof fn lemma_embed_injective(p: G1Value, r: G1Value)
    requires
        embed(p) == embed(r),
    ensures
        p == r,
{
}

/// No point of the G1 curve has `y = 0`.
pub proof fn lemma_g1_y_nonzero(x: nat, y: nat)
    requires
        g1_on_curve(G1Value::Affine { x, y }),
    ensures
        y != 0,
{
    lemma_g1_curve(G1Value::Affine { x, y });
}

/// A sum of points of the G1 curve lies on the curve, and does not depend on the order.
#[verifier::rlimit(40)]
pub proof fn lemma_g1_sum(p: G1Value, r: G1Value)
    requires
        g1_on_curve(p),
        g1_on_curve(r),
    ensures
        g1_on_curve(g1_sum(p, r)),
        g1_sum(p, r) == g1_sum(r, p),
{
    let b = g1_constant();
    lemma_g1_curve(p);
    lemma_g1_curve(r);
    lemma_embed_sum(p, r);
    lemma_embed_sum(r, p);
    lemma_sum_on_curve(embed(p), embed(r), b);
    lemma_sum_swap(embed(p), embed(r), b);
    lemma_g1_curve(g1_sum(p, r));
    lemma_embed_injective(g1_sum(p, r), g1_sum(r, p));
}

/// Adding the opposite undoes an addition in G1.
#[verifier::rlimit(40)]
pub proof fn lemma_g1_sum_undone(p: G1Value, r: G1Value)
    requires
        g1_on_curve(p),
        g1_on_curve(r),
    ensures
        g1_sum(g1_sum(p, r), g1_neg(r)) == p,
{
    let b = g1_constant();
    lemma_g1_curve(p);
    lemma_g1_curve(r);
    lemma_g1_sum(p, r);
    lemma_neg_on_curve(embed(r), b);
    assert(embed(g1_neg(r)) == g2_neg(embed(r)));
    lemma_g1_curve(g1_neg(r));
    lemma_embed_sum(p, r);
    lemma_embed_sum(g1_sum(p, r), g1_neg(r));
    lemma_sum_undone(embed(p), embed(r), b);
    lemma_embed_injective(g1_sum(g1_sum(p, r), g1_neg(r)), p);
}

/// A quotient times the divisor is the dividend.
proof fn lemma_fq_quotient(n: int, d: int)
    requires
        fq(d) != 0,
    ensures
        fq(fq_div(n, d) * d) == fq(n),
{
    let k = q() as int;
    let i = fq_inv(d) as int;
    lemma_fq_inv(d);
    lemma_mod_factor(fq_div(n, d) as int, n * i, d, k);
    lemma_mod_factor(i * d, 1, n, k);
    assert((n * i) * d == n * (i * d)) by (nonlinear_arith);
}

/// The equations that the third point, reflected, satisfies: for a line of slope `n / d`,
/// `(x1 + x2 + x3) * d^2 = n^2` and `(y3 + y1) * d = n * (x1 - x3)`.
proof fn lemma_g1_chord_equations(n: int, d: int, x1: nat, y1: nat, x2: nat)
    requires
        fq(d) != 0,
    ensures
        ({
            &&& g1_chord(fq_div(n, d), x1, y1, x2) matches G1Value::Affine { x: x3, y: y3 }
            &&& fq((x1 + x2 + x3) * (d * d)) == fq(n * n)
            &&& fq((y3 + y1) * d) == fq(n * (x1 - x3))
        }),
{
    let k = q() as int;
    let l = fq_div(n, d) as int;
    let x3 = fq(l * l - x1 - x2) as int;
    let y3 = fq(l * (x1 - x3) - y1) as int;
    let ld = l * d;
    lemma_fq_quotient(n, d);
    let m = lemma_congruent(x3, l * l - x1 - x2);
    lemma_mod_shift(l * l, m, k);
    lemma_mod_factor(x1 + x2 + x3, l * l, d * d, k);
    assert((l * l) * (d * d) == ld * ld) by (nonlinear_arith)
        requires
            ld == l * d,
    ;
    lemma_mod_factor(ld, n, ld, k);
    lemma_mod_factor(ld, n, n, k);
    let w = x1 - x3;
    let j = lemma_congruent(y3, l * w - y1);
    lemma_mod_shift(l * w, j, k);
    lemma_mod_factor(y3 + y1, l * w, d, k);
    assert((l * w) * d == ld * w) by (nonlinear_arith)
        requires
            ld == l * d,
    ;
    lemma_mod_factor(ld, n, w, k);
}

/// The equations that the sum of two finite points of the G1 curve satisfies.
pub proof fn lemma_g1_line(x1: nat, y1: nat, x2: nat, y2: nat)
    requires
        g1_on_curve(G1Value::Affine { x: x1, y: y1 }),
        g1_on_curve(G1Value::Affine { x: x2, y: y2 }),
    ensures
        ({
            let s = g1_sum(G1Value::Affine { x: x1, y: y1 }, G1Value::Affine { x: x2, y: y2 });
            let (n, d) = if x1 != x2 {
                (y2 - y1, x2 - x1)
            } else {
                ((3 * x1 * x1) as int, (2 * y1) as int)
            };
            &&& s == G1Value::Infinity <==> x1 == x2 && y1 != y2
            &&& s matches G1Value::Affine { x: x3, y: y3 } ==> fq((x1 + x2 + x3) * (d * d)) == fq(
                n * n,
            ) && fq((y3 + y1) * d) == fq(n * (x1 - x3))
        }),
{
    lemma_g1_curve(G1Value::Affine { x: x1, y: y1 });
    if x1 != x2 {
        lemma_fq_difference(x2 as int, x1 as int);
        lemma_g1_chord_equations(y2 - y1, x2 - x1, x1, y1, x2);
    } else if y1 == y2 {
        let b = lift(scalar(y1));
        if fq((2 * y1) as int) == 0 {
            lemma_twice(b);
        }
        lemma_g1_chord_equations((3 * x1 * x1) as int, (2 * y1) as int, x1, y1, x2);
    }
}

/// A multiple of a point of the G1 curve lies on the curve.
pub proof fn lemma_g1_times_on_curve(n: nat, p: G1Value)
    requires
        g1_on_curve(p),
    ensures
        g1_on_curve(g1_times(n, p)),
    decreases n,
{
    if n > 0 {
        lemma_g1_times_on_curve((n - 1) as nat, p);
        lemma_g1_sum(g1_times((n - 1) as nat, p), p);
    }
}

} // verus!

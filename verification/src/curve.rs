//! The two BN254 groups as mathematics: the curve `y^2 = x^3 + 3` over `Fq` for G1,
//! its twist `y^2 = x^3 + 3 / (9 + u)` over `Fq2` for G2, and the chord-and-tangent
//! group law on both. `G1Affine` and `G2Affine` hold such points as plain limbs.
use vstd::prelude::*;

use crate::field::{Fq, Fq2};
#[allow(unused_imports)]
use crate::field::{
    fq, fq2_add, fq2_div, fq2_mul, fq2_neg, fq2_reduced, fq2_sub, fq_div, fq_neg, q, Fq2Value,
};

verus! {

/// The order of G1, and of the prime-order subgroup that is G2.
pub open spec fn group_order() -> nat {
    0x30644e72e131a029b85045b68181585d2833e84879b9709143e1f593f0000001nat
}

/// A point of the G1 curve, or a candidate for one.
pub enum G1Value {
    Infinity,
    Affine { x: nat, y: nat },
}

/// A point of the G2 curve, or a candidate for one.
pub enum G2Value {
    Infinity,
    Affine { x: Fq2Value, y: Fq2Value },
}

/// The G1 curve equation.
pub open spec fn g1_equation(x: nat, y: nat) -> bool {
    fq((y * y) as int) == fq((x * x * x + 3) as int)
}

/// The point lies on the G1 curve, with reduced coordinates.
pub open spec fn g1_on_curve(p: G1Value) -> bool {
    match p {
        G1Value::Infinity => true,
        G1Value::Affine { x, y } => x < q() && y < q() && g1_equation(x, y),
    }
}

pub open spec fn g1_neg(p: G1Value) -> G1Value {
    match p {
        G1Value::Infinity => G1Value::Infinity,
        G1Value::Affine { x, y } => G1Value::Affine { x, y: fq_neg(y) },
    }
}

/// The third point of the line of slope `l` through `(x1, y1)` and a point over
/// `x2`, reflected.
pub open spec fn g1_chord(l: nat, x1: nat, y1: nat, x2: nat) -> G1Value {
    let x3 = fq(l * l - x1 - x2);
    G1Value::Affine { x: x3, y: fq(l * (x1 - x3) - y1) }
}

/// The sum of two points: by the chord where they lie over different `x`, by the
/// tangent where they are one point.
pub open spec fn g1_sum(a: G1Value, b: G1Value) -> G1Value {
    match (a, b) {
        (G1Value::Infinity, _) => b,
        (_, G1Value::Infinity) => a,
        (G1Value::Affine { x: x1, y: y1 }, G1Value::Affine { x: x2, y: y2 }) => if x1 != x2 {
            g1_chord(fq_div(y2 - y1, x2 - x1), x1, y1, x2)
        } else if y1 == y2 && y1 != 0 {
            g1_chord(fq_div((3 * x1 * x1) as int, (2 * y1) as int), x1, y1, x2)
        } else {
            G1Value::Infinity
        },
    }
}

/// The sum of `n` copies of `p`.
pub open spec fn g1_times(n: nat, p: G1Value) -> G1Value
    decreases n,
{
    if n == 0 {
        G1Value::Infinity
    } else {
        g1_sum(g1_times((n - 1) as nat, p), p)
    }
}

/// The constant `3 / (9 + u)` of the G2 curve equation.
pub open spec fn g2_coeff_b() -> Fq2Value {
    Fq2Value {
        c0: 0x2b149d40ceb8aaae81be18991be06ac3b5b4c5e559dbefa33267e6dc24a138e5nat,
        c1: 0x009713b03af0fed4cd2cafadeed8fdf4a74fa084e52d1852e4a2bd0685c315d2nat,
    }
}

/// The G2 curve equation.
pub open spec fn g2_equation(x: Fq2Value, y: Fq2Value) -> bool {
    fq2_mul(y, y) == fq2_add(fq2_mul(fq2_mul(x, x), x), g2_coeff_b())
}

/// The point lies on the G2 curve, with reduced coordinates.
pub open spec fn g2_on_curve(p: G2Value) -> bool {
    match p {
        G2Value::Infinity => true,
        G2Value::Affine { x, y } => fq2_reduced(x) && fq2_reduced(y) && g2_equation(x, y),
    }
}

pub open spec fn g2_neg(p: G2Value) -> G2Value {
    match p {
        G2Value::Infinity => G2Value::Infinity,
        G2Value::Affine { x, y } => G2Value::Affine { x, y: fq2_neg(y) },
    }
}

/// The third point of the line of slope `l` through `(x1, y1)` and a point over
/// `x2`, reflected.
pub open spec fn g2_chord(l: Fq2Value, x1: Fq2Value, y1: Fq2Value, x2: Fq2Value) -> G2Value {
    let x3 = fq2_sub(fq2_sub(fq2_mul(l, l), x1), x2);
    G2Value::Affine { x: x3, y: fq2_sub(fq2_mul(l, fq2_sub(x1, x3)), y1) }
}

/// The sum of two points: by the chord where they lie over different `x`, by the
/// tangent where they are one point.
pub open spec fn g2_sum(a: G2Value, b: G2Value) -> G2Value {
    let zero = Fq2Value { c0: 0, c1: 0 };
    match (a, b) {
        (G2Value::Infinity, _) => b,
        (_, G2Value::Infinity) => a,
        (G2Value::Affine { x: x1, y: y1 }, G2Value::Affine { x: x2, y: y2 }) => if x1 != x2 {
            g2_chord(fq2_div(fq2_sub(y2, y1), fq2_sub(x2, x1)), x1, y1, x2)
        } else if y1 == y2 && y1 != zero {
            let xx = fq2_mul(x1, x1);
            g2_chord(fq2_div(fq2_add(fq2_add(xx, xx), xx), fq2_add(y1, y1)), x1, y1, x2)
        } else {
            G2Value::Infinity
        },
    }
}

/// The sum of `n` copies of `p`.
pub open spec fn g2_times(n: nat, p: G2Value) -> G2Value
    decreases n,
{
    if n == 0 {
        G2Value::Infinity
    } else {
        g2_sum(g2_times((n - 1) as nat, p), p)
    }
}

/// The point lies in the subgroup of prime order: the order of the group kills it.
pub open spec fn g2_in_subgroup(p: G2Value) -> bool {
    g2_times(group_order(), p) == G2Value::Infinity
}

/// Every multiple of the point at infinity is itself.
pub proof fn lemma_g1_times_infinity(n: nat)
    ensures
        g1_times(n, G1Value::Infinity) == G1Value::Infinity,
    decreases n,
{
    if n > 0 {
        lemma_g1_times_infinity((n - 1) as nat);
    }
}

/// Every multiple of the point at infinity is itself.
pub proof fn lemma_g2_times_infinity(n: nat)
    ensures
        g2_times(n, G2Value::Infinity) == G2Value::Infinity,
    decreases n,
{
    if n > 0 {
        lemma_g2_times_infinity((n - 1) as nat);
    }
}

/// A G1 point by its affine coordinates, both zero at infinity.
#[derive(Clone, Copy, Debug)]
pub struct G1Affine {
    pub x: Fq,
    pub y: Fq,
    pub infinity: bool,
}

impl View for G1Affine {
    type V = G1Value;

    open spec fn view(&self) -> G1Value {
        if self.infinity {
            G1Value::Infinity
        } else {
            G1Value::Affine { x: self.x@, y: self.y@ }
        }
    }
}

impl G1Affine {
    /// Reduced coordinates, zero at infinity.
    pub open spec fn wf(&self) -> bool {
        self.x.wf() && self.y.wf() && (self.infinity ==> self.x@ == 0 && self.y@ == 0)
    }
}

/// A G2 point by its affine coordinates, both zero at infinity.
#[derive(Clone, Copy, Debug)]
pub struct G2Affine {
    pub x: Fq2,
    pub y: Fq2,
    pub infinity: bool,
}

impl View for G2Affine {
    type V = G2Value;

    open spec fn view(&self) -> G2Value {
        if self.infinity {
            G2Value::Infinity
        } else {
            G2Value::Affine { x: self.x@, y: self.y@ }
        }
    }
}

impl G2Affine {
    /// Reduced coordinates, zero at infinity.
    pub open spec fn wf(&self) -> bool {
        let zero = Fq2Value { c0: 0, c1: 0 };
        self.x.wf() && self.y.wf() && (self.infinity ==> self.x@ == zero && self.y@ == zero)
    }
}

} // verus!

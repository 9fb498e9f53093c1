//! What the operations mean on raw bytes: which bytes are accepted, and which equations the
//! bytes of a result satisfy, in terms of the 32-byte words of the operands.
use vstd::prelude::*;

#[allow(unused_imports)]
use solana_program_error::ProgramError;
#[allow(unused_imports)]
use vstd::std_specs::cmp::PartialEqSpec;
#[allow(unused_imports)]
use vstd::std_specs::convert::FromSpec;
#[allow(unused_imports)]
use vstd::std_specs::ops::{AddSpec, MulSpec, NegSpec, SubSpec};

#[allow(unused_imports)]
use crate::aggregation::{g1_aggregate, g1_slid, g2_aggregate, g2_slid};
#[allow(unused_imports)]
use crate::arkworks::{g1_total, pairing_product, target_one};
#[allow(unused_imports)]
use crate::bytes::{le_value, lemma_le_value_bound, lemma_le_value_zero, lemma_radix_32, zeros};
#[allow(unused_imports)]
use crate::compression::{g1_decompressed, g2_decompressed};
#[allow(unused_imports)]
use crate::curve::{
    g1_on_curve, g1_sum, g1_times, g2_coeff_b, g2_equation, g2_on_curve, g2_sum, g2_times, G1Value,
    G2Value,
};
use crate::errors::AltBn128Error;
use crate::field::Fq2Value;
#[allow(unused_imports)]
use crate::field::{fq, fq2_add, fq2_mul, fq2_neg, fq2_reduced, fq2_sub, fq_neg, q, word_count};
#[allow(unused_imports)]
use crate::group_law::{
    lemma_g1_line, lemma_g1_sum, lemma_g1_times_on_curve, lemma_g1_y_nonzero, lemma_g2_line,
    lemma_g2_sum, lemma_g2_times_on_curve, lemma_g2_y_nonzero,
};
use crate::group_operations::{G1Point, G2Point};
#[allow(unused_imports)]
use crate::group_operations::{
    g1_added, g1_multiplied, g1_negated, g1_outcome, g1_result, g2_added, g2_multiplied,
    g2_negated, g2_outcome, g2_result, lemma_g1_point, lemma_g2_point, lemma_pairing_word,
    pairing_answer, pairing_word, pairs_g1, pairs_g2, pairs_valid, scalar_outcome,
};
#[allow(unused_imports)]
use crate::laws::{
    law_g1_neg_on_curve, law_g1_sign, law_g2_neg_on_curve, law_g2_sign, lemma_g1_negated_words,
    lemma_g2_negated_words,
};
#[allow(unused_imports)]
use crate::wire::{
    flags, g1_bytes, g1_compressed, g1_decompresses_to, g1_operand, g1_root, g2_bytes,
    g2_compressed, g2_decompresses_to, g2_operand, g2_operand_on_curve, g2_root, lemma_four_words,
    lemma_g1_operand_bytes, lemma_g2_operand, lemma_g2_operand_bytes, lemma_two_words,
    lemma_word_parts, lemma_zeros_off_curve, unflagged, word,
};

verus! {

// ---- Operands --------------------------------------------------------------------------

/// 64 bytes are zeros just where both words are zero.
proof fn lemma_two_zero_words(s: Seq<u8>)
    requires
        s.len() == 64,
    ensures
        s == zeros(64) <==> word(s, 0) == 0 && word(s, 1) == 0,
{
    let (a, b) = (s.subrange(0, 32), s.subrange(32, 64));
    lemma_le_value_zero(a);
    lemma_le_value_zero(b);
    assert(s =~= a + b);
    assert(zeros(64) =~= zeros(32) + zeros(32));
    if s == zeros(64) {
        assert(a =~= zeros(32));
        assert(b =~= zeros(32));
    }
}

/// 128 bytes are zeros just where all four words are zero.
proof fn lemma_four_zero_words(s: Seq<u8>)
    requires
        s.len() == 128,
    ensures
        s == zeros(128) <==> word(s, 0) == 0 && word(s, 1) == 0 && word(s, 2) == 0 && word(s, 3)
            == 0,
{
    let (a, b) = (s.subrange(0, 64), s.subrange(64, 128));
    lemma_two_zero_words(a);
    lemma_two_zero_words(b);
    assert(a.subrange(0, 32) =~= s.subrange(0, 32));
    assert(a.subrange(32, 64) =~= s.subrange(32, 64));
    assert(b.subrange(0, 32) =~= s.subrange(64, 96));
    assert(b.subrange(32, 64) =~= s.subrange(96, 128));
    assert(s =~= a + b);
    assert(zeros(128) =~= zeros(64) + zeros(64));
    if s == zeros(128) {
        assert(a =~= zeros(64));
        assert(b =~= zeros(64));
    }
}

/// Which 64 bytes stand for a point of G1. Zeros, and reduced words with the infinity flag
/// alone, stand for infinity. Reduced words without that flag stand for the point that they
/// name, where it satisfies `y^2 = x^3 + 3`. All else is refused.
pub proof fn law_g1_operand(s: Seq<u8>)
    requires
        s.len() == 64,
    ensures
        ({
            let (x, w) = (word(s, 0), word(s, 1));
            let (y, f) = (unflagged(w), flags(w));
            let infinity = (x == 0 && w == 0) || (x < q() && y < q() && f == 1);
            let finite = x < q() && y < q() && (f == 0 || f == 2) && fq((y * y) as int) == fq(
                (x * x * x + 3) as int,
            );
            &&& !(infinity && finite)
            &&& infinity ==> g1_operand(s) == Some(G1Value::Infinity)
            &&& finite ==> g1_operand(s) == Some(G1Value::Affine { x, y })
            &&& !infinity && !finite ==> g1_operand(s) is None
        }),
{
    lemma_two_zero_words(s);
    lemma_zeros_off_curve();
    lemma_word_parts(s, 1);
}

/// Which 128 bytes stand for a point of the G2 curve. Zeros, and reduced words with the
/// infinity flag alone, stand for infinity. Reduced words without that flag stand for the
/// point that they name, where it satisfies the curve equation. All else is refused.
#[verifier::rlimit(50)]
pub proof fn law_g2_operand_on_curve(s: Seq<u8>)
    requires
        s.len() == 128,
    ensures
        ({
            let w = word(s, 3);
            let f = flags(w);
            let x = Fq2Value { c0: word(s, 0), c1: word(s, 1) };
            let y = Fq2Value { c0: word(s, 2), c1: unflagged(w) };
            let b = Fq2Value {
                c0: 0x2b149d40ceb8aaae81be18991be06ac3b5b4c5e559dbefa33267e6dc24a138e5nat,
                c1: 0x009713b03af0fed4cd2cafadeed8fdf4a74fa084e52d1852e4a2bd0685c315d2nat,
            };
            let reduced = x.c0 < q() && x.c1 < q() && y.c0 < q() && y.c1 < q();
            let zero = x.c0 == 0 && x.c1 == 0 && y.c0 == 0 && w == 0;
            let infinity = zero || (reduced && f == 1);
            let finite = reduced && (f == 0 || f == 2) && fq2_mul(y, y) == fq2_add(
                fq2_mul(fq2_mul(x, x), x),
                b,
            );
            &&& !(infinity && finite)
            &&& infinity ==> g2_operand_on_curve(s) == Some(G2Value::Infinity)
            &&& finite ==> g2_operand_on_curve(s) == Some(G2Value::Affine { x, y })
            &&& !infinity && !finite ==> g2_operand_on_curve(s) is None
        }),
{
    lemma_four_zero_words(s);
    lemma_zeros_off_curve();
    lemma_word_parts(s, 3);
    let x = Fq2Value { c0: word(s, 0), c1: word(s, 1) };
    let y = Fq2Value { c0: word(s, 2), c1: unflagged(word(s, 3)) };
    assert(g2_equation(x, y) <==> fq2_mul(y, y) == fq2_add(
        fq2_mul(fq2_mul(x, x), x),
        g2_coeff_b(),
    ));
    if s == zeros(128) {
        assert(unflagged(word(s, 3)) == 0 && flags(word(s, 3)) == 0);
        assert(!g2_on_curve(G2Value::Affine { x, y }));
    }
}

/// Which of the operands on the G2 curve stand for a point of the prime-order subgroup: those
/// whose point the order of the group takes to infinity.
pub proof fn law_g2_operand(s: Seq<u8>, p: G2Value)
    ensures
        ({
            let r = 0x30644e72e131a029b85045b68181585d2833e84879b9709143e1f593f0000001nat;
            g2_operand(s) == Some(p) <==> g2_operand_on_curve(s) == Some(p) && g2_times(r, p)
                == G2Value::Infinity
        }),
{
    lemma_g2_operand(s);
}

/// The sign flag on `y` says nothing: bytes with it, and the same bytes without it, are the
/// same operand of every operation in G1. Zeros are left out, which are infinity, while the
/// flag beside zeros is not.
pub proof fn law_g1_sign_flag(s: Seq<u8>, t: Seq<u8>, b: Seq<u8>, scalar: Seq<u8>)
    requires
        s.len() == 64,
        t.len() == 64,
        word(s, 0) == word(t, 0),
        unflagged(word(s, 1)) == unflagged(word(t, 1)),
        flags(word(s, 1)) == 2,
        flags(word(t, 1)) == 0,
        word(t, 0) != 0 || word(t, 1) != 0,
    ensures
        g1_operand(s) == g1_operand(t),
        g1_added(s, b) == g1_added(t, b),
        g1_added(b, s) == g1_added(b, t),
        g1_multiplied(s, scalar) == g1_multiplied(t, scalar),
{
    lemma_word_parts(t, 1);
    law_g1_operand(s);
    law_g1_operand(t);
}

/// The sign flag on `y` says nothing: bytes with it, and the same bytes without it, are the
/// same operand of every operation in G2. Zeros are left out, which are infinity, while the
/// flag beside zeros is not.
pub proof fn law_g2_sign_flag(s: Seq<u8>, t: Seq<u8>, b: Seq<u8>, scalar: Seq<u8>)
    requires
        s.len() == 128,
        t.len() == 128,
        word(s, 0) == word(t, 0),
        word(s, 1) == word(t, 1),
        word(s, 2) == word(t, 2),
        unflagged(word(s, 3)) == unflagged(word(t, 3)),
        flags(word(s, 3)) == 2,
        flags(word(t, 3)) == 0,
        word(t, 0) != 0 || word(t, 1) != 0 || word(t, 2) != 0 || word(t, 3) != 0,
    ensures
        g2_operand(s) == g2_operand(t),
        g2_operand_on_curve(s) == g2_operand_on_curve(t),
        g2_added(s, b) == g2_added(t, b),
        g2_added(b, s) == g2_added(b, t),
        g2_multiplied(s, scalar) == g2_multiplied(t, scalar),
{
    lemma_word_parts(t, 3);
    law_g2_operand_on_curve(s);
    law_g2_operand_on_curve(t);
    lemma_g2_operand(s);
    lemma_g2_operand(t);
}

// ---- Addition --------------------------------------------------------------------------

/// G1 addition refuses every operand that stands for no point, on either side, and no other.
pub proof fn law_g1_add_refuses(a: Seq<u8>, b: Seq<u8>)
    ensures
        g1_added(a, b) is Ok <==> g1_operand(a) is Some && g1_operand(b) is Some,
        g1_added(a, b) is Err ==> g1_added(a, b)->Err_0 == AltBn128Error::GroupError,
{
}

/// G2 addition refuses every operand that stands for no point of the curve, on either side,
/// and no other.
pub proof fn law_g2_add_refuses(a: Seq<u8>, b: Seq<u8>)
    ensures
        g2_added(a, b) is Ok <==> g2_operand_on_curve(a) is Some && g2_operand_on_curve(b) is Some,
        g2_added(a, b) is Err ==> g2_added(a, b)->Err_0 == AltBn128Error::GroupError,
{
}

/// An operand that stands for infinity, however it is written, gives the other point back, on
/// either side and without flags.
pub proof fn law_g1_add_infinity(a: Seq<u8>, b: Seq<u8>, p: G1Value)
    requires
        g1_operand(a) == Some(G1Value::Infinity),
        g1_operand(b) == Some(p),
    ensures
        g1_added(a, b) is Ok,
        g1_added(a, b) == g1_added(b, a),
        g1_added(a, b)->Ok_0.len() == 64,
        g1_operand(g1_added(a, b)->Ok_0) == Some(p),
        flags(word(g1_added(a, b)->Ok_0, 1)) == 0,
{
    lemma_g1_written(p);
    lemma_g1_sum(G1Value::Infinity, p);
}

/// An operand that stands for infinity, however it is written, gives the other point back, on
/// either side and without flags.
pub proof fn law_g2_add_infinity(a: Seq<u8>, b: Seq<u8>, p: G2Value)
    requires
        g2_operand_on_curve(a) == Some(G2Value::Infinity),
        g2_operand_on_curve(b) == Some(p),
    ensures
        g2_added(a, b) is Ok,
        g2_added(a, b) == g2_added(b, a),
        g2_added(a, b)->Ok_0.len() == 128,
        g2_operand_on_curve(g2_added(a, b)->Ok_0) == Some(p),
        flags(word(g2_added(a, b)->Ok_0, 3)) == 0,
{
    lemma_g2_written(p);
    lemma_g2_sum(G2Value::Infinity, p);
}

/// The words of a written point of G1.
proof fn lemma_g1_written(p: G1Value)
    requires
        g1_on_curve(p),
    ensures
        g1_bytes(p).len() == 64,
        g1_operand(g1_bytes(p)) == Some(p),
        flags(word(g1_bytes(p), 1)) == 0,
        p == G1Value::Infinity ==> word(g1_bytes(p), 0) == 0 && word(g1_bytes(p), 1) == 0,
        p matches G1Value::Affine { x, y } ==> word(g1_bytes(p), 0) == x && word(g1_bytes(p), 1)
            == y,
{
    lemma_g1_operand_bytes(p);
    match p {
        G1Value::Infinity => lemma_two_zero_words(zeros(64)),
        G1Value::Affine { x, y } => lemma_two_words(x, y),
    }
}

/// The words of a written point of the G2 curve.
proof fn lemma_g2_written(p: G2Value)
    requires
        g2_on_curve(p),
    ensures
        g2_bytes(p).len() == 128,
        g2_operand_on_curve(g2_bytes(p)) == Some(p),
        flags(word(g2_bytes(p), 3)) == 0,
        p == G2Value::Infinity ==> word(g2_bytes(p), 0) == 0 && word(g2_bytes(p), 1) == 0 && word(
            g2_bytes(p),
            2,
        ) == 0 && word(g2_bytes(p), 3) == 0,
        p matches G2Value::Affine { x, y } ==> word(g2_bytes(p), 0) == x.c0 && word(g2_bytes(p), 1)
            == x.c1 && word(g2_bytes(p), 2) == y.c0 && word(g2_bytes(p), 3) == y.c1,
{
    lemma_g2_operand_bytes(p);
    match p {
        G2Value::Infinity => lemma_four_zero_words(zeros(128)),
        G2Value::Affine { x, y } => lemma_four_words(x, y),
    }
}

/// How a point of G1 is written, by `g1_encode`, `g1_unpack` and in every result: infinity as
/// zeros, a finite point by its two coordinates, without flags.
pub proof fn law_g1_written(p: G1Value)
    requires
        p matches G1Value::Affine { x, y } ==> x < q() && y < q(),
    ensures
        g1_bytes(p).len() == 64,
        p == G1Value::Infinity ==> word(g1_bytes(p), 0) == 0 && word(g1_bytes(p), 1) == 0,
        p matches G1Value::Affine { x, y } ==> word(g1_bytes(p), 0) == x && word(g1_bytes(p), 1)
            == y,
{
    match p {
        G1Value::Infinity => lemma_two_zero_words(zeros(64)),
        G1Value::Affine { x, y } => lemma_two_words(x, y),
    }
}

/// How a point of G2 is written, by `g2_encode`, `g2_unpack` and in every result: infinity as
/// zeros, a finite point by the four components of its coordinates, without flags.
pub proof fn law_g2_written(p: G2Value)
    requires
        p matches G2Value::Affine { x, y } ==> fq2_reduced(x) && fq2_reduced(y),
    ensures
        g2_bytes(p).len() == 128,
        p == G2Value::Infinity ==> word(g2_bytes(p), 0) == 0 && word(g2_bytes(p), 1) == 0 && word(
            g2_bytes(p),
            2,
        ) == 0 && word(g2_bytes(p), 3) == 0,
        p matches G2Value::Affine { x, y } ==> word(g2_bytes(p), 0) == x.c0 && word(g2_bytes(p), 1)
            == x.c1 && word(g2_bytes(p), 2) == y.c0 && word(g2_bytes(p), 3) == y.c1,
{
    match p {
        G2Value::Infinity => lemma_four_zero_words(zeros(128)),
        G2Value::Affine { x, y } => lemma_four_words(x, y),
    }
}

/// The sum of two finite points of G1, by equations modulo `q` between the words of the
/// result and the coordinates of the operands. Opposite points give zeros. Else the result is
/// a point of the curve, and with `n / d` the slope of the chord through the operands, or of
/// the tangent where they are one point, `(x1 + x2 + x3) * d^2 = n^2` and
/// `(y3 + y1) * d = n * (x1 - x3)`.
pub proof fn law_g1_add_line(a: Seq<u8>, b: Seq<u8>, x1: nat, y1: nat, x2: nat, y2: nat)
    requires
        g1_operand(a) == Some(G1Value::Affine { x: x1, y: y1 }),
        g1_operand(b) == Some(G1Value::Affine { x: x2, y: y2 }),
    ensures
        g1_added(a, b) is Ok,
        ({
            let s = g1_added(a, b)->Ok_0;
            let (x3, y3) = (word(s, 0), word(s, 1));
            let (n, d) = if x1 != x2 {
                (y2 - y1, x2 - x1)
            } else {
                ((3 * x1 * x1) as int, (2 * y1) as int)
            };
            &&& s.len() == 64
            &&& x1 == x2 && y1 != y2 ==> x3 == 0 && y3 == 0
            &&& x1 != x2 || y1 == y2 ==> {
                &&& x3 < q() && y3 < q()
                &&& fq((y3 * y3) as int) == fq((x3 * x3 * x3 + 3) as int)
                &&& fq((x1 + x2 + x3) * (d * d)) == fq(n * n)
                &&& fq((y3 + y1) * d) == fq(n * (x1 - x3))
            }
        }),
{
    let (p, r) = (G1Value::Affine { x: x1, y: y1 }, G1Value::Affine { x: x2, y: y2 });
    lemma_g1_sum(p, r);
    lemma_g1_line(x1, y1, x2, y2);
    lemma_g1_written(g1_sum(p, r));
}

/// The sum of two finite points of the G2 curve, by equations in `Fq2` between the words of
/// the result and the coordinates of the operands. Opposite points give zeros. Else the result
/// is a point of the curve, and with `n / d` the slope of the chord through the operands, or
/// of the tangent where they are one point, `(x1 + x2 + x3) * d^2 = n^2` and
/// `(y3 + y1) * d = n * (x1 - x3)`.
#[verifier::rlimit(40)]
pub proof fn law_g2_add_line(
    a: Seq<u8>,
    b: Seq<u8>,
    x1: Fq2Value,
    y1: Fq2Value,
    x2: Fq2Value,
    y2: Fq2Value,
)
    requires
        g2_operand_on_curve(a) == Some(G2Value::Affine { x: x1, y: y1 }),
        g2_operand_on_curve(b) == Some(G2Value::Affine { x: x2, y: y2 }),
    ensures
        g2_added(a, b) is Ok,
        ({
            let s = g2_added(a, b)->Ok_0;
            let x3 = Fq2Value { c0: word(s, 0), c1: word(s, 1) };
            let y3 = Fq2Value { c0: word(s, 2), c1: word(s, 3) };
            let xx = fq2_mul(x1, x1);
            let (n, d) = if x1 != x2 {
                (fq2_sub(y2, y1), fq2_sub(x2, x1))
            } else {
                (fq2_add(fq2_add(xx, xx), xx), fq2_add(y1, y1))
            };
            &&& s.len() == 128
            &&& x1 == x2 && y1 != y2 ==> x3 == (Fq2Value { c0: 0, c1: 0 }) && y3 == (Fq2Value {
                c0: 0,
                c1: 0,
            })
            &&& x1 != x2 || y1 == y2 ==> {
                &&& x3.c0 < q() && x3.c1 < q() && y3.c0 < q() && y3.c1 < q()
                &&& g2_equation(x3, y3)
                &&& fq2_mul(fq2_add(fq2_add(x1, x2), x3), fq2_mul(d, d)) == fq2_mul(n, n)
                &&& fq2_mul(fq2_add(y3, y1), d) == fq2_mul(n, fq2_sub(x1, x3))
            }
        }),
{
    let (p, r) = (G2Value::Affine { x: x1, y: y1 }, G2Value::Affine { x: x2, y: y2 });
    lemma_g2_sum(p, r);
    lemma_g2_line(x1, y1, x2, y2);
    lemma_g2_written(g2_sum(p, r));
}

// ---- Multiplication --------------------------------------------------------------------

/// G1 multiplication refuses every operand that stands for no point, and no other, whatever
/// the scalar.
pub proof fn law_g1_mul_refuses(s: Seq<u8>, scalar: Seq<u8>)
    ensures
        g1_multiplied(s, scalar) is Ok <==> g1_operand(s) is Some,
        g1_multiplied(s, scalar) is Err ==> g1_multiplied(s, scalar)->Err_0
            == AltBn128Error::GroupError,
{
}

/// G2 multiplication refuses every operand that stands for no point of the prime-order
/// subgroup, and no other, whatever the scalar.
pub proof fn law_g2_mul_refuses(s: Seq<u8>, scalar: Seq<u8>)
    ensures
        g2_multiplied(s, scalar) is Ok <==> g2_operand(s) is Some,
        g2_multiplied(s, scalar) is Err ==> g2_multiplied(s, scalar)->Err_0
            == AltBn128Error::GroupError,
{
}

/// A multiple depends on the scalar by its value, and on the operand by its point; it is
/// written without flags and is a valid operand again.
pub proof fn law_g1_mul_written(s: Seq<u8>, t: Seq<u8>, m: Seq<u8>, n: Seq<u8>)
    requires
        g1_operand(s) is Some,
        g1_operand(s) == g1_operand(t),
        le_value(m) == le_value(n),
    ensures
        g1_multiplied(s, m) == g1_multiplied(t, n),
        g1_multiplied(s, m)->Ok_0.len() == 64,
        g1_operand(g1_multiplied(s, m)->Ok_0) is Some,
        flags(word(g1_multiplied(s, m)->Ok_0, 1)) == 0,
{
    let p = g1_operand(s)->Some_0;
    lemma_g1_times_on_curve(le_value(m), p);
    lemma_g1_written(g1_times(le_value(m), p));
}

/// A multiple depends on the scalar by its value, and on the operand by its point; it is
/// written without flags and lies on the curve. The order of the group takes every operand to
/// infinity.
pub proof fn law_g2_mul_written(s: Seq<u8>, t: Seq<u8>, m: Seq<u8>, n: Seq<u8>)
    requires
        g2_operand(s) is Some,
        g2_operand(s) == g2_operand(t),
        le_value(m) == le_value(n),
    ensures
        g2_multiplied(s, m) == g2_multiplied(t, n),
        g2_multiplied(s, m)->Ok_0.len() == 128,
        g2_operand_on_curve(g2_multiplied(s, m)->Ok_0) is Some,
        flags(word(g2_multiplied(s, m)->Ok_0, 3)) == 0,
        le_value(m) == 0x30644e72e131a029b85045b68181585d2833e84879b9709143e1f593f0000001nat
            ==> g2_operand_on_curve(g2_multiplied(s, m)->Ok_0) == Some(G2Value::Infinity),
{
    let p = g2_operand(s)->Some_0;
    lemma_g2_operand(s);
    lemma_g2_times_on_curve(le_value(m), p);
    lemma_g2_written(g2_times(le_value(m), p));
    law_g2_operand(s, p);
}

// ---- Negation --------------------------------------------------------------------------

/// Negation of any 64 bytes: `x` stays, a `y` of zero stays, and any other adds up with its
/// negation to `q`, modulo `2^256`.
pub proof fn law_g1_negate_words(s: Seq<u8>)
    requires
        s.len() == 64,
    ensures
        g1_negated(s).len() == 64,
        forall|i: int| 0 <= i < 32 ==> g1_negated(s)[i] == s[i],
        ({
            let (y, z) = (word(s, 1), word(g1_negated(s), 1));
            &&& y == 0 ==> z == 0
            &&& 0 < y <= q() ==> y + z == q()
            &&& q() < y ==> y + z == q() + word_count()
        }),
{
    lemma_g1_negated_words(s);
    lemma_word_parts(s, 1);
    assert(forall|i: int| 0 <= i < 32 ==> s.take(32)[i] == s[i]);
    assert(forall|i: int| 0 <= i < 32 ==> g1_negated(s).take(32)[i] == g1_negated(s)[i]);
}

/// Negation of any 128 bytes: `x` stays, a component of `y` that is zero stays, and any other
/// adds up with its negation to `q`, modulo `2^256`.
pub proof fn law_g2_negate_words(s: Seq<u8>)
    requires
        s.len() == 128,
    ensures
        g2_negated(s).len() == 128,
        forall|i: int| 0 <= i < 64 ==> g2_negated(s)[i] == s[i],
        forall|k: int|
            2 <= k < 4 ==> {
                let (y, z) = (word(s, k), #[trigger] word(g2_negated(s), k));
                &&& y == 0 ==> z == 0
                &&& 0 < y <= q() ==> y + z == q()
                &&& q() < y ==> y + z == q() + word_count()
            },
{
    lemma_g2_negated_words(s);
    lemma_word_parts(s, 2);
    lemma_word_parts(s, 3);
    assert(forall|i: int| 0 <= i < 64 ==> s.take(64)[i] == s[i]);
    assert(forall|i: int| 0 <= i < 64 ==> g2_negated(s).take(64)[i] == g2_negated(s)[i]);
    assert forall|k: int| 2 <= k < 4 implies {
        let (y, z) = (word(s, k), #[trigger] word(g2_negated(s), k));
        &&& y == 0 ==> z == 0
        &&& 0 < y <= q() ==> y + z == q()
        &&& q() < y ==> y + z == q() + word_count()
    } by {
        assert(k == 2 || k == 3);
    }
}

// ---- Compression -----------------------------------------------------------------------

/// Compression of any 64 bytes. Zeros give the infinity flag alone. Else the bytes of `x`
/// stay, and the top bit is set where `y` is above half of the field.
pub proof fn law_g1_compress_bytes(s: Seq<u8>)
    requires
        s.len() == 64,
    ensures
        ({
            let c = g1_compressed(s);
            let y = word(s, 1);
            let zero = word(s, 0) == 0 && y == 0;
            &&& c.len() == 32
            &&& zero ==> c[31] == 0x40 && forall|i: int| 0 <= i < 31 ==> c[i] == 0
            &&& !zero ==> forall|i: int| 0 <= i < 31 ==> c[i] == s[i]
            &&& !zero && 2 * y > q() ==> c[31] == s[31] | 0x80
            &&& !zero && 2 * y <= q() ==> c[31] == s[31]
        }),
{
    lemma_two_zero_words(s);
}

/// Compression of any 128 bytes. Zeros give the infinity flag alone. Else the bytes of `x`
/// stay, and the top bit is set where the leading component of `y` is above half of the
/// field: `c1`, or `c0` where `c1` is zero.
pub proof fn law_g2_compress_bytes(s: Seq<u8>)
    requires
        s.len() == 128,
    ensures
        ({
            let c = g2_compressed(s);
            let y = if word(s, 3) == 0 {
                word(s, 2)
            } else {
                word(s, 3)
            };
            let zero = word(s, 0) == 0 && word(s, 1) == 0 && word(s, 2) == 0 && word(s, 3) == 0;
            &&& c.len() == 64
            &&& zero ==> c[63] == 0x40 && forall|i: int| 0 <= i < 63 ==> c[i] == 0
            &&& !zero ==> forall|i: int| 0 <= i < 63 ==> c[i] == s[i]
            &&& !zero && 2 * y > q() ==> c[63] == s[63] | 0x80
            &&& !zero && 2 * y <= q() ==> c[63] == s[63]
        }),
{
    lemma_four_zero_words(s);
}

/// Decompression of any 32 bytes. The infinity flag beside a reduced `x` gives zeros. Without
/// it the answer is `x` with the `y` of the curve that is above half of the field just where
/// the sign flag is set. It is an error where `x` is not reduced, where both flags are set,
/// and where no `y` satisfies `y^2 = x^3 + 3`, and nowhere else.
pub proof fn law_g1_decompress_words(c: Seq<u8>, r: Result<Seq<u8>, AltBn128Error>)
    requires
        c.len() == 32,
        g1_decompressed(c, r),
    ensures
        ({
            let (x, f) = (unflagged(le_value(c)), flags(le_value(c)));
            let refused = x >= q() || f == 3 || (f != 1 && forall|y: nat|
                #![trigger y * y]
                y < q() ==> fq((y * y) as int) != fq((x * x * x + 3) as int));
            &&& r is Err <==> refused
            &&& r is Err ==> r->Err_0 == AltBn128Error::CompressionError
            &&& r is Ok ==> r->Ok_0.len() == 64
            &&& r is Ok && f == 1 ==> word(r->Ok_0, 0) == 0 && word(r->Ok_0, 1) == 0
            &&& r is Ok && f != 1 ==> {
                let y = word(r->Ok_0, 1);
                &&& word(r->Ok_0, 0) == x
                &&& y < q()
                &&& fq((y * y) as int) == fq((x * x * x + 3) as int)
                &&& f == 2 <==> 2 * y > q()
            }
        }),
{
    let (x, f) = (unflagged(le_value(c)), flags(le_value(c)));
    let larger = f == 2;
    lemma_le_value_bound(c);
    lemma_radix_32();
    if let Ok(s) = r {
        let p = choose|p: G1Value| #[trigger] g1_decompresses_to(c, Some(p)) && s == g1_bytes(p);
        if let G1Value::Affine { x: px, y } = p {
            assert(g1_root(x, y, larger));
            assert(fq((y * y) as int) == fq((x * x * x + 3) as int));
            lemma_g1_y_nonzero(x, y);
            law_g1_sign(y);
        }
        law_g1_written(p);
    } else if x < q() && f != 3 && f != 1 {
        assert forall|y: nat| #![trigger y * y] y < q() implies fq((y * y) as int) != fq(
            (x * x * x + 3) as int,
        ) by {
            if fq((y * y) as int) == fq((x * x * x + 3) as int) {
                let p = G1Value::Affine { x, y };
                law_g1_neg_on_curve(p);
                assert(!g1_root(x, y, larger));
                assert(!g1_root(x, fq_neg(y), larger));
            }
        }
    }
}

/// Decompression of any 64 bytes. The infinity flag beside a reduced `x` gives zeros. Without
/// it the answer is `x` with the `y` of the curve whose leading component is above half of
/// the field just where the sign flag is set. It is an error where `x` is not reduced, where
/// both flags are set, and where no `y` satisfies the curve equation, and nowhere else.
#[verifier::rlimit(50)]
pub proof fn law_g2_decompress_words(c: Seq<u8>, r: Result<Seq<u8>, AltBn128Error>)
    requires
        c.len() == 64,
        g2_decompressed(c, r),
    ensures
        ({
            let x = Fq2Value { c0: word(c, 0), c1: unflagged(word(c, 1)) };
            let f = flags(word(c, 1));
            let refused = x.c0 >= q() || x.c1 >= q() || f == 3 || (f != 1 && forall|y: Fq2Value|
                y.c0 < q() && y.c1 < q() ==> !#[trigger] g2_equation(x, y));
            &&& r is Err <==> refused
            &&& r is Err ==> r->Err_0 == AltBn128Error::CompressionError
            &&& r is Ok ==> r->Ok_0.len() == 128
            &&& r is Ok && f == 1 ==> word(r->Ok_0, 0) == 0 && word(r->Ok_0, 1) == 0 && word(
                r->Ok_0,
                2,
            ) == 0 && word(r->Ok_0, 3) == 0
            &&& r is Ok && f != 1 ==> {
                let y = Fq2Value { c0: word(r->Ok_0, 2), c1: word(r->Ok_0, 3) };
                let leading = if y.c1 == 0 {
                    y.c0
                } else {
                    y.c1
                };
                &&& word(r->Ok_0, 0) == x.c0 && word(r->Ok_0, 1) == x.c1
                &&& y.c0 < q() && y.c1 < q()
                &&& g2_equation(x, y)
                &&& f == 2 <==> 2 * leading > q()
            }
        }),
{
    let x = Fq2Value { c0: word(c, 0), c1: unflagged(word(c, 1)) };
    let f = flags(word(c, 1));
    let larger = f == 2;
    lemma_word_parts(c, 1);
    if let Ok(s) = r {
        let p = choose|p: G2Value| #[trigger] g2_decompresses_to(c, Some(p)) && s == g2_bytes(p);
        if let G2Value::Affine { x: px, y } = p {
            assert(g2_root(x, y, larger));
            lemma_g2_y_nonzero(x, y);
            law_g2_sign(y);
        }
        law_g2_written(p);
    } else if fq2_reduced(x) && f != 3 && f != 1 {
        assert forall|y: Fq2Value| y.c0 < q() && y.c1 < q() implies !#[trigger] g2_equation(
            x,
            y,
        ) by {
            if g2_equation(x, y) {
                let p = G2Value::Affine { x, y };
                law_g2_neg_on_curve(p);
                assert(!g2_root(x, y, larger));
                assert(!g2_root(x, fq2_neg(y), larger));
            }
        }
    }
}

// ---- The pairing check -----------------------------------------------------------------

/// What the check answers on any pairs. It is an error just where a pair has a first operand
/// that stands for no point of G1, or a second that stands for none of the prime-order
/// subgroup of G2. Else it is 32 bytes that stand for one where the product of the pairings
/// of all pairs is the identity, and for zero where it is not.
pub proof fn law_pairing_answer(input: Seq<(G1Point, G2Point)>)
    ensures
        ({
            let r = pairing_answer(input);
            let f = pairing_product(
                Seq::new(input.len(), |i: int| g1_operand(input[i].0.0@)->Some_0),
                Seq::new(input.len(), |i: int| g2_operand(input[i].1.0@)->Some_0),
            );
            &&& r is Ok <==> forall|i: int|
                0 <= i < input.len() ==> g1_operand((#[trigger] input[i]).0.0@) is Some
                    && g2_operand(input[i].1.0@) is Some
            &&& r is Err ==> r->Err_0 == AltBn128Error::GroupError
            &&& r is Ok ==> r->Ok_0.len() == 32
            &&& r is Ok && f == target_one() ==> le_value(r->Ok_0) == 1
            &&& r is Ok && f != target_one() ==> le_value(r->Ok_0) == 0
        }),
{
    let ps = Seq::new(input.len(), |i: int| g1_operand(input[i].0.0@)->Some_0);
    let qs = Seq::new(input.len(), |i: int| g2_operand(input[i].1.0@)->Some_0);
    assert(pairs_g1(input) =~= ps);
    assert(pairs_g2(input) =~= qs);
    lemma_pairing_word(pairing_product(ps, qs));
}

/// The scalar that a product is turned into: 32 bytes that stand for one just where the first
/// of its twelve coefficients is one and the others are zero, and else for zero.
pub proof fn law_pairing_word(f: Seq<nat>)
    ensures
        pairing_word(f).len() == 32,
        ({
            let identity = f.len() == 12 && f[0] == 1 && forall|i: int| 1 <= i < 12 ==> f[i] == 0;
            &&& identity ==> le_value(pairing_word(f)) == 1
            &&& !identity ==> le_value(pairing_word(f)) == 0
        }),
{
    lemma_pairing_word(f);
    if f.len() == 12 && f[0] == 1 && forall|i: int| 1 <= i < 12 ==> f[i] == 0 {
        assert(f =~= target_one());
    }
}

/// The points that the pairs hold.
pub proof fn law_pairs(input: Seq<(G1Point, G2Point)>, k: int)
    requires
        0 <= k < input.len(),
    ensures
        pairs_g1(input).len() == input.len(),
        pairs_g2(input).len() == input.len(),
        pairs_valid(input) ==> g1_operand(input[k].0.0@) == Some(pairs_g1(input)[k]),
        pairs_valid(input) ==> g2_operand(input[k].1.0@) == Some(pairs_g2(input)[k]),
        pairs_valid(input) <==> forall|i: int|
            0 <= i < input.len() ==> g1_operand((#[trigger] input[i]).0.0@) is Some && g2_operand(
                input[i].1.0@,
            ) is Some,
{
    if pairs_valid(input) {
        assert(g1_operand(input[k].0@) is Some && g2_operand(input[k].1@) is Some);
    }
}

// ---- Sums of many points ----------------------------------------------------------------

/// The sum of no G1 point is zeros, of one is its bytes, and one point more is one addition
/// more. A sum that failed stays failed.
pub proof fn law_g1_aggregate_push(points: Seq<G1Point>, p: G1Point)
    ensures
        points.len() == 0 ==> g1_aggregate(points) is Ok && g1_aggregate(points)->Ok_0.len() == 64
            && word(g1_aggregate(points)->Ok_0, 0) == 0 && word(g1_aggregate(points)->Ok_0, 1) == 0,
        points.len() == 0 ==> g1_aggregate(points.push(p)) == Ok::<Seq<u8>, AltBn128Error>(p.0@),
        points.len() > 0 && g1_aggregate(points) is Ok ==> g1_aggregate(points.push(p)) == g1_added(
            g1_aggregate(points)->Ok_0,
            p.0@,
        ),
        points.len() > 0 && g1_aggregate(points) is Err ==> g1_aggregate(points.push(p))
            == g1_aggregate(points),
{
    reveal(g1_aggregate);
    lemma_two_zero_words(zeros(64));
    assert(points.push(p).drop_last() =~= points);
}

/// The sum of no G2 point is zeros, of one is its bytes, and one point more is one addition
/// more. A sum that failed stays failed.
pub proof fn law_g2_aggregate_push(points: Seq<G2Point>, p: G2Point)
    ensures
        points.len() == 0 ==> g2_aggregate(points) == Ok::<Seq<u8>, AltBn128Error>(
            Seq::new(128, |i: int| 0u8),
        ),
        points.len() == 0 ==> g2_aggregate(points.push(p)) == Ok::<Seq<u8>, AltBn128Error>(p.0@),
        points.len() > 0 && g2_aggregate(points) is Ok ==> g2_aggregate(points.push(p)) == g2_added(
            g2_aggregate(points)->Ok_0,
            p.0@,
        ),
        points.len() > 0 && g2_aggregate(points) is Err ==> g2_aggregate(points.push(p))
            == g2_aggregate(points),
{
    reveal(g2_aggregate);
    assert(zeros(128) =~= Seq::new(128, |i: int| 0u8));
    assert(points.push(p).drop_last() =~= points);
}

/// The sum of two or more G1 points fails just where one of them stands for no point, and is
/// otherwise the encoding of their sum from the left.
pub proof fn law_g1_aggregate_total(points: Seq<G1Point>)
    requires
        points.len() >= 2,
    ensures
        g1_aggregate(points) is Ok <==> forall|i: int|
            0 <= i < points.len() ==> g1_operand((#[trigger] points[i]).0@) is Some,
        g1_aggregate(points) is Err ==> g1_aggregate(points)->Err_0 == AltBn128Error::GroupError,
        g1_aggregate(points) is Ok ==> g1_aggregate(points)->Ok_0.len() == 64 && flags(
            word(g1_aggregate(points)->Ok_0, 1),
        ) == 0 && g1_operand(g1_aggregate(points)->Ok_0) == Some(
            g1_total(Seq::new(points.len(), |i: int| g1_operand(points[i].0@)->Some_0)),
        ),
    decreases points.len(),
{
    let (rest, last) = (points.drop_last(), points.last());
    let values = Seq::new(points.len(), |i: int| g1_operand(points[i].0@)->Some_0);
    let firsts = Seq::new(rest.len(), |i: int| g1_operand(rest[i].0@)->Some_0);
    assert(rest.push(last) =~= points);
    assert(values.drop_last() =~= firsts);
    law_g1_aggregate_push(rest, last);
    if points.len() == 2 {
        law_g1_aggregate_push(Seq::empty(), rest[0]);
        assert(Seq::<G1Point>::empty().push(rest[0]) =~= rest);
        assert(firsts.drop_last() =~= Seq::<G1Value>::empty());
        assert(g1_total(Seq::<G1Value>::empty()) == G1Value::Infinity);
        assert(points[0] == rest[0] && points[1] == last);
    } else {
        law_g1_aggregate_total(rest);
        assert(forall|i: int| 0 <= i < rest.len() ==> rest[i] == points[i]);
    }
    if forall|i: int| 0 <= i < points.len() ==> g1_operand((#[trigger] points[i]).0@) is Some {
        assert(g1_operand(points[points.len() - 1].0@) is Some);
        assert(forall|i: int|
            0 <= i < rest.len() ==> g1_operand((#[trigger] rest[i]).0@) is Some) by {
            assert(forall|i: int| 0 <= i < rest.len() ==> rest[i] == points[i]);
        }
        let (p, r) = (g1_total(firsts), g1_operand(last.0@)->Some_0);
        if points.len() == 2 {
            assert(g1_operand(points[0].0@) is Some);
            assert(firsts[0] == g1_operand(rest[0].0@)->Some_0);
        }
        assert(g1_operand(g1_aggregate(rest)->Ok_0) == Some(p));
        lemma_g1_sum(p, r);
        lemma_g1_written(g1_sum(p, r));
        assert(values.last() == r);
    } else if g1_aggregate(points) is Ok {
        assert forall|i: int| 0 <= i < points.len() implies g1_operand(
            (#[trigger] points[i]).0@,
        ) is Some by {
            if i < rest.len() {
                assert(rest[i] == points[i]);
            }
        }
    }
}

/// The sum of two or more G2 points fails just where one of them stands for no point of the
/// curve, and is otherwise a point of the curve, written without flags.
pub proof fn law_g2_aggregate_refuses(points: Seq<G2Point>)
    requires
        points.len() >= 2,
    ensures
        g2_aggregate(points) is Ok <==> forall|i: int|
            0 <= i < points.len() ==> g2_operand_on_curve((#[trigger] points[i]).0@) is Some,
        g2_aggregate(points) is Err ==> g2_aggregate(points)->Err_0 == AltBn128Error::GroupError,
        g2_aggregate(points) is Ok ==> g2_aggregate(points)->Ok_0.len() == 128 && flags(
            word(g2_aggregate(points)->Ok_0, 3),
        ) == 0 && g2_operand_on_curve(g2_aggregate(points)->Ok_0) is Some,
    decreases points.len(),
{
    let (rest, last) = (points.drop_last(), points.last());
    assert(rest.push(last) =~= points);
    assert(forall|i: int| 0 <= i < rest.len() ==> rest[i] == points[i]);
    law_g2_aggregate_push(rest, last);
    if points.len() == 2 {
        law_g2_aggregate_push(Seq::empty(), rest[0]);
        assert(Seq::<G2Point>::empty().push(rest[0]) =~= rest);
        assert(points[0] == rest[0] && points[1] == last);
    } else {
        law_g2_aggregate_refuses(rest);
    }
    if forall|i: int|
        0 <= i < points.len() ==> g2_operand_on_curve((#[trigger] points[i]).0@) is Some {
        assert(g2_operand_on_curve(points[points.len() - 1].0@) is Some);
        assert(g2_operand_on_curve(points[0].0@) is Some);
        assert(forall|i: int|
            0 <= i < rest.len() ==> g2_operand_on_curve((#[trigger] rest[i]).0@) is Some);
        let p = g2_operand_on_curve(g2_aggregate(rest)->Ok_0)->Some_0;
        let r = g2_operand_on_curve(last.0@)->Some_0;
        lemma_g2_sum(p, r);
        lemma_g2_written(g2_sum(p, r));
    } else if g2_aggregate(points) is Ok {
        assert forall|i: int| 0 <= i < points.len() implies g2_operand_on_curve(
            (#[trigger] points[i]).0@,
        ) is Some by {
            if i < rest.len() {
                assert(rest[i] == points[i]);
            }
        }
    }
}

/// What the running sum leaves in a slot of G1 points: the first stays, each further one is
/// the slot before it plus what it held, and from the first failure on all stay. The last is
/// the sum.
pub proof fn law_g1_slid(before: Seq<G1Point>, k: int)
    requires
        0 <= k < before.len(),
    ensures
        g1_slid(before, 0) == before[0].0@,
        k > 0 && g1_aggregate(before.take(k)) is Ok && g1_added(
            g1_slid(before, k - 1),
            before[k].0@,
        ) is Ok ==> g1_added(g1_slid(before, k - 1), before[k].0@) == Ok::<
            Seq<u8>,
            AltBn128Error,
        >(g1_slid(before, k)),
        g1_aggregate(before.take(k + 1)) is Err ==> g1_slid(before, k) == before[k].0@,
        g1_aggregate(before) is Ok ==> g1_aggregate(before) == Ok::<Seq<u8>, AltBn128Error>(
            g1_slid(before, before.len() - 1),
        ),
{
    law_g1_aggregate_push(Seq::empty(), before[0]);
    assert(Seq::<G1Point>::empty().push(before[0]) =~= before.take(1));
    assert(before.take(k + 1) =~= before.take(k).push(before[k]));
    law_g1_aggregate_push(before.take(k), before[k]);
    assert(before.take(before.len() as int) =~= before);
    if k > 0 {
        assert(before.take(k - 1 + 1) =~= before.take(k));
    }
}

/// What the running sum leaves in a slot of G2 points: the first stays, each further one is
/// the slot before it plus what it held, and from the first failure on all stay. The last is
/// the sum.
pub proof fn law_g2_slid(before: Seq<G2Point>, k: int)
    requires
        0 <= k < before.len(),
    ensures
        g2_slid(before, 0) == before[0].0@,
        k > 0 && g2_aggregate(before.take(k)) is Ok && g2_added(
            g2_slid(before, k - 1),
            before[k].0@,
        ) is Ok ==> g2_added(g2_slid(before, k - 1), before[k].0@) == Ok::<
            Seq<u8>,
            AltBn128Error,
        >(g2_slid(before, k)),
        g2_aggregate(before.take(k + 1)) is Err ==> g2_slid(before, k) == before[k].0@,
        g2_aggregate(before) is Ok ==> g2_aggregate(before) == Ok::<Seq<u8>, AltBn128Error>(
            g2_slid(before, before.len() - 1),
        ),
{
    law_g2_aggregate_push(Seq::empty(), before[0]);
    assert(Seq::<G2Point>::empty().push(before[0]) =~= before.take(1));
    assert(before.take(k + 1) =~= before.take(k).push(before[k]));
    law_g2_aggregate_push(before.take(k), before[k]);
    assert(before.take(before.len() as int) =~= before);
    if k > 0 {
        assert(before.take(k - 1 + 1) =~= before.take(k));
    }
}

// ---- Results ------------------------------------------------------------------------------

/// The contracts speak of a result by the bytes that it holds, and two results with the same
/// bytes are the same result.
pub proof fn law_results(p: G1Point, g: G2Point, w: [u8; 32], e: AltBn128Error)
    ensures
        g1_outcome(Ok(p)) == Ok::<Seq<u8>, AltBn128Error>(p.0@),
        g1_outcome(Err(e)) == Err::<Seq<u8>, AltBn128Error>(e),
        g2_outcome(Ok(g)) == Ok::<Seq<u8>, AltBn128Error>(g.0@),
        g2_outcome(Err(e)) == Err::<Seq<u8>, AltBn128Error>(e),
        scalar_outcome(Ok(w)) == Ok::<Seq<u8>, AltBn128Error>(w@),
        scalar_outcome(Err(e)) == Err::<Seq<u8>, AltBn128Error>(e),
        g1_result(Ok(p.0@)) == Ok::<G1Point, AltBn128Error>(p),
        g1_result(Err(e)) == Err::<G1Point, AltBn128Error>(e),
        g2_result(Ok(g.0@)) == Ok::<G2Point, AltBn128Error>(g),
        g2_result(Err(e)) == Err::<G2Point, AltBn128Error>(e),
{
    lemma_g1_point(p);
    lemma_g2_point(g);
}

/// What the operators on G1 points answer: `-r` holds the negated bytes, `p - r` is what
/// `p + -r` is, and a sum or a multiple is refused where its bytes are and is otherwise the
/// point that holds them.
pub proof fn law_g1_operators(p: G1Point, r: G1Point, n: G1Point, c: G1Point, scalar: [u8; 32])
    requires
        n.0@ == g1_negated(r.0@),
    ensures
        <G1Point as NegSpec>::obeys_neg_spec() && r.neg_req(),
        <G1Point as AddSpec>::obeys_add_spec() && p.add_req(r),
        <G1Point as SubSpec>::obeys_sub_spec() && p.sub_req(r),
        <G1Point as MulSpec<[u8; 32]>>::obeys_mul_spec() && p.mul_req(scalar),
        r.neg_spec() == n,
        p.sub_spec(r) == p.add_spec(n),
        p.add_spec(r) is Ok <==> g1_operand(p.0@) is Some && g1_operand(r.0@) is Some,
        p.add_spec(r) is Err ==> p.add_spec(r)->Err_0 == AltBn128Error::GroupError,
        g1_added(p.0@, r.0@) == Ok::<Seq<u8>, AltBn128Error>(c.0@) ==> p.add_spec(r) == Ok::<
            G1Point,
            AltBn128Error,
        >(c),
        p.mul_spec(scalar) is Ok <==> g1_operand(p.0@) is Some,
        p.mul_spec(scalar) is Err ==> p.mul_spec(scalar)->Err_0 == AltBn128Error::GroupError,
        g1_multiplied(p.0@, scalar@) == Ok::<Seq<u8>, AltBn128Error>(c.0@) ==> p.mul_spec(scalar)
            == Ok::<G1Point, AltBn128Error>(c),
{
    lemma_g1_point(n);
    lemma_g1_point(c);
}

/// What the operators on G2 points answer: `-r` holds the negated bytes, `p - r` is what
/// `p + -r` is, and a sum or a multiple is refused where its bytes are and is otherwise the
/// point that holds them.
pub proof fn law_g2_operators(p: G2Point, r: G2Point, n: G2Point, c: G2Point, scalar: [u8; 32])
    requires
        n.0@ == g2_negated(r.0@),
    ensures
        <G2Point as NegSpec>::obeys_neg_spec() && r.neg_req(),
        <G2Point as AddSpec>::obeys_add_spec() && p.add_req(r),
        <G2Point as SubSpec>::obeys_sub_spec() && p.sub_req(r),
        <G2Point as MulSpec<[u8; 32]>>::obeys_mul_spec() && p.mul_req(scalar),
        r.neg_spec() == n,
        p.sub_spec(r) == p.add_spec(n),
        p.add_spec(r) is Ok <==> g2_operand_on_curve(p.0@) is Some && g2_operand_on_curve(r.0@)
            is Some,
        p.add_spec(r) is Err ==> p.add_spec(r)->Err_0 == AltBn128Error::GroupError,
        g2_added(p.0@, r.0@) == Ok::<Seq<u8>, AltBn128Error>(c.0@) ==> p.add_spec(r) == Ok::<
            G2Point,
            AltBn128Error,
        >(c),
        p.mul_spec(scalar) is Ok <==> g2_operand(p.0@) is Some,
        p.mul_spec(scalar) is Err ==> p.mul_spec(scalar)->Err_0 == AltBn128Error::GroupError,
        g2_multiplied(p.0@, scalar@) == Ok::<Seq<u8>, AltBn128Error>(c.0@) ==> p.mul_spec(scalar)
            == Ok::<G2Point, AltBn128Error>(c),
{
    lemma_g2_point(n);
    lemma_g2_point(c);
}

/// Points are equal just where all their bytes are, whichever side is given as bare bytes.
pub proof fn law_equality(p: G1Point, r: G1Point, g: G2Point, h: G2Point)
    ensures
        <G1Point as PartialEqSpec>::obeys_eq_spec(),
        <G1Point as PartialEqSpec<[u8; 64]>>::obeys_eq_spec(),
        <G2Point as PartialEqSpec>::obeys_eq_spec(),
        <G2Point as PartialEqSpec<[u8; 128]>>::obeys_eq_spec(),
        p.eq_spec(&r) <==> forall|i: int| 0 <= i < 64 ==> p.0@[i] == r.0@[i],
        p.eq_spec(&r.0) <==> forall|i: int| 0 <= i < 64 ==> p.0@[i] == r.0@[i],
        g.eq_spec(&h) <==> forall|i: int| 0 <= i < 128 ==> g.0@[i] == h.0@[i],
        g.eq_spec(&h.0) <==> forall|i: int| 0 <= i < 128 ==> g.0@[i] == h.0@[i],
{
    if forall|i: int| 0 <= i < 64 ==> p.0@[i] == r.0@[i] {
        assert(p.0@ =~= r.0@);
    }
    if forall|i: int| 0 <= i < 128 ==> g.0@[i] == h.0@[i] {
        assert(g.0@ =~= h.0@);
    }
}

/// Points and their bytes convert into each other unchanged, and every error converts into an
/// invalid argument.
pub proof fn law_conversions(a: [u8; 64], b: [u8; 128], e: AltBn128Error)
    ensures
        <G1Point as FromSpec<[u8; 64]>>::obeys_from_spec(),
        <[u8; 64] as FromSpec<G1Point>>::obeys_from_spec(),
        <G2Point as FromSpec<[u8; 128]>>::obeys_from_spec(),
        <[u8; 128] as FromSpec<G2Point>>::obeys_from_spec(),
        <ProgramError as FromSpec<AltBn128Error>>::obeys_from_spec(),
        <G1Point as FromSpec<[u8; 64]>>::from_spec(a).0 == a,
        <[u8; 64] as FromSpec<G1Point>>::from_spec(G1Point(a)) == a,
        <G2Point as FromSpec<[u8; 128]>>::from_spec(b).0 == b,
        <[u8; 128] as FromSpec<G2Point>>::from_spec(G2Point(b)) == b,
        <ProgramError as FromSpec<AltBn128Error>>::from_spec(e) == ProgramError::InvalidArgument,
{
}

} // verus!

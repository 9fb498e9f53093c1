//! What holds across the operations: how negation, addition, encoding and compression
//! fit together, whatever the bytes.
use vstd::prelude::*;

#[allow(unused_imports)]
use crate::bytes::{
    le_bytes, le_value, lemma_le_bytes_zero, lemma_le_value_bound, lemma_le_value_injective,
    lemma_le_value_take_next, lemma_le_value_zero, lemma_radix_32, lemma_value_of_le_bytes, radix,
    zeros,
};
#[allow(unused_imports)]
use crate::compression::{g1_decompressed, g2_decompressed};
use crate::curve::{G1Value, G2Value};
#[allow(unused_imports)]
use crate::curve::{
    g1_neg, g1_on_curve, g1_sum, g1_times, g2_in_subgroup, g2_neg, g2_on_curve, g2_sum, g2_times,
    group_order, lemma_g1_times_infinity, lemma_g2_times_infinity,
};
use crate::errors::AltBn128Error;
use crate::field::Fq2Value;
#[allow(unused_imports)]
use crate::field::{
    fq2_le, fq2_neg, fq2_reduced, fq_neg, negated_word, q, word_count,
};
#[allow(unused_imports)]
use crate::arkworks::{all_are, g1_total};
#[allow(unused_imports)]
use crate::group_law::{
    lemma_g1_sum, lemma_g1_sum_undone, lemma_g1_times_on_curve, lemma_g1_y_nonzero, lemma_g2_sum,
    lemma_g2_sum_undone, lemma_g2_times_on_curve, lemma_g2_y_nonzero,
};
use crate::group_operations::{G1Point, G2Point};
#[allow(unused_imports)]
use crate::group_operations::{
    chunks_reversed, g1_added, g1_multiplied, g1_negated, g2_added, g2_multiplied, g2_negated,
    lemma_chunk_fits, lemma_chunk_index, pairs_balanced, pairs_g1, pairs_g2, pairs_valid,
};
#[allow(unused_imports)]
use crate::negation::{
    g1_reduced, g2_reduced, lemma_fq2_neg_square, lemma_fq_shift, lemma_g1_neg_sum,
    lemma_g1_neg_times, lemma_g2_neg_sum, lemma_g2_neg_times, lemma_neg_product,
};
#[allow(unused_imports)]
use crate::wire::{
    above_half, flag_unit, flags, fq2_bytes, g1_bytes, g1_compressed, g1_decode,
    g1_decompresses_to, g1_operand, g1_root, g2_bytes, g2_compressed, g2_decode_on_curve,
    g2_decompresses_to, g2_leading, g2_operand, g2_operand_on_curve, g2_root, lemma_four_words,
    lemma_g1_operand_bytes, lemma_g2_operand, lemma_g2_operand_bytes, lemma_two_words,
    lemma_word_of_part, lemma_word_parts, lemma_zeros_off_curve, negatable, unflagged, with_flag,
    word,
};

verus! {

// ---- Negation ------------------------------------------------------------------

/// Negating a word twice gives it back, unless it is `q` itself, which negates to zero.
proof fn lemma_negated_word_twice(c: nat)
    requires
        c < word_count(),
    ensures
        negated_word(c) < word_count(),
        c != q() ==> negated_word(negated_word(c)) == c,
{
}

/// The negated `y` of 64 bytes.
pub(crate) proof fn lemma_g1_negated_words(s: Seq<u8>)
    requires
        s.len() == 64,
    ensures
        g1_negated(s).len() == 64,
        g1_negated(s).take(32) == s.take(32),
        word(g1_negated(s), 0) == word(s, 0),
        word(g1_negated(s), 1) == negated_word(word(s, 1)),
{
    lemma_word_parts(s, 1);
    let n = negated_word(word(s, 1));
    lemma_negated_word_twice(word(s, 1));
    lemma_value_of_le_bytes(n, 32);
    lemma_word_of_part(s.take(32), n, Seq::empty(), 1);
    let t = g1_negated(s);
    assert(s.take(32) + le_bytes(n, 32) + Seq::<u8>::empty() =~= t);
    assert(t.take(32) =~= s.take(32));
    assert(t.subrange(0, 32) =~= s.subrange(0, 32));
}

/// The negated `y` of 128 bytes.
pub(crate) proof fn lemma_g2_negated_words(s: Seq<u8>)
    requires
        s.len() == 128,
    ensures
        g2_negated(s).len() == 128,
        g2_negated(s).take(64) == s.take(64),
        word(g2_negated(s), 0) == word(s, 0),
        word(g2_negated(s), 1) == word(s, 1),
        word(g2_negated(s), 2) == negated_word(word(s, 2)),
        word(g2_negated(s), 3) == negated_word(word(s, 3)),
{
    lemma_word_parts(s, 2);
    lemma_word_parts(s, 3);
    let a = negated_word(word(s, 2));
    let b = negated_word(word(s, 3));
    lemma_negated_word_twice(word(s, 2));
    lemma_negated_word_twice(word(s, 3));
    lemma_value_of_le_bytes(a, 32);
    lemma_value_of_le_bytes(b, 32);
    lemma_word_of_part(s.take(64), a, le_bytes(b, 32), 2);
    lemma_word_of_part(s.take(64) + le_bytes(a, 32), b, Seq::empty(), 3);
    let t = g2_negated(s);
    assert(s.take(64) + le_bytes(a, 32) + le_bytes(b, 32) + Seq::<u8>::empty() =~= t);
    assert(t.take(64) =~= s.take(64));
    assert(t.subrange(0, 32) =~= s.subrange(0, 32));
    assert(t.subrange(32, 64) =~= s.subrange(32, 64));
}

/// Negating a G1 point twice gives the same bytes back, unless `y` is written as `q`
/// itself.
pub proof fn law_g1_negate_twice(s: Seq<u8>)
    requires
        s.len() == 64,
        word(s, 1) != q(),
    ensures
        g1_negated(g1_negated(s)) == s,
{
    lemma_g1_negated_words(s);
    lemma_word_parts(s, 1);
    lemma_negated_word_twice(word(s, 1));
    assert(g1_negated(g1_negated(s)) =~= s) by {
        assert(s =~= s.take(32) + s.subrange(32, 64));
    }
}

/// Negating a G2 point twice gives the same bytes back, unless a component of `y` is
/// written as `q` itself.
pub proof fn law_g2_negate_twice(s: Seq<u8>)
    requires
        s.len() == 128,
        word(s, 2) != q(),
        word(s, 3) != q(),
    ensures
        g2_negated(g2_negated(s)) == s,
{
    lemma_g2_negated_words(s);
    lemma_word_parts(s, 2);
    lemma_word_parts(s, 3);
    lemma_negated_word_twice(word(s, 2));
    lemma_negated_word_twice(word(s, 3));
    assert(g2_negated(g2_negated(s)) =~= s) by {
        assert(s =~= s.take(64) + s.subrange(64, 96) + s.subrange(96, 128));
    }
}

/// Negation preserves the point at infinity, all zeros, in both groups.
pub proof fn law_negate_infinity()
    ensures
        g1_negated(zeros(64)) == zeros(64),
        g2_negated(zeros(128)) == zeros(128),
{
    lemma_le_bytes_zero(32);
    lemma_le_value_zero(zeros(32));
    assert(zeros(64).subrange(32, 64) =~= zeros(32));
    assert(zeros(128).subrange(64, 96) =~= zeros(32));
    assert(zeros(128).subrange(96, 128) =~= zeros(32));
    assert(g1_negated(zeros(64)) =~= zeros(64));
    assert(g2_negated(zeros(128)) =~= zeros(128));
}

/// Negation leaves the x-coordinate alone, in both groups.
pub proof fn law_negate_keeps_x(s: Seq<u8>, t: Seq<u8>)
    requires
        s.len() == 64,
        t.len() == 128,
    ensures
        g1_negated(s).len() == 64,
        g1_negated(s).take(32) == s.take(32),
        g2_negated(t).len() == 128,
        g2_negated(t).take(64) == t.take(64),
{
    lemma_g1_negated_words(s);
    lemma_g2_negated_words(t);
}

/// The negation of a point of the G1 curve is a point of the curve.
pub proof fn law_g1_neg_on_curve(p: G1Value)
    requires
        g1_on_curve(p),
    ensures
        g1_on_curve(g1_neg(p)),
{
    if let G1Value::Affine { x, y } = p {
        let m = lemma_neg_product(y, y);
        lemma_fq_shift((y * y) as int, m);
    }
}

/// The negation of a point of the G2 curve is a point of the curve.
pub proof fn law_g2_neg_on_curve(p: G2Value)
    requires
        g2_on_curve(p),
    ensures
        g2_on_curve(g2_neg(p)),
{
    if let G2Value::Affine { x, y } = p {
        lemma_fq2_neg_square(y);
    }
}

/// The negation of a point of the G2 curve is in the prime-order subgroup just where the
/// point is.
pub proof fn law_g2_neg_subgroup(p: G2Value)
    requires
        g2_on_curve(p),
    ensures
        g2_in_subgroup(g2_neg(p)) <==> g2_in_subgroup(p),
{
    lemma_g2_neg_times(group_order(), p);
}

/// What negation does to a readable word.
proof fn lemma_negated_word_parts(w: nat)
    requires
        w < word_count(),
        flags(w) <= 2,
        unflagged(w) < q(),
        negatable(w),
    ensures
        flags(negated_word(w)) == flags(w),
        unflagged(negated_word(w)) == fq_neg(unflagged(w)),
{
}

/// The negation of an operand of G1 stands for the negation of the point. Bytes that mark
/// infinity by the flag are left out: their negation sets both flags.
#[verifier::rlimit(30)]
pub proof fn law_g1_negate_decodes(s: Seq<u8>)
    requires
        s.len() == 64,
        g1_operand(s) is Some,
        negatable(word(s, 1)),
    ensures
        g1_operand(g1_negated(s)) == Some(g1_neg(g1_operand(s)->Some_0)),
{
    law_negate_infinity();
    lemma_zeros_off_curve();
    lemma_g1_negated_words(s);
    lemma_word_parts(s, 1);
    lemma_negated_word_parts(word(s, 1));
    law_g1_neg_on_curve(g1_operand(s)->Some_0);
}

/// The negation of an operand on the G2 curve stands for the negation of the point, which is
/// in the prime-order subgroup just where the point is. Bytes that mark infinity by the flag
/// are left out: their negation sets both flags.
#[verifier::rlimit(30)]
pub proof fn law_g2_negate_decodes(s: Seq<u8>)
    requires
        s.len() == 128,
        g2_operand_on_curve(s) is Some,
        negatable(word(s, 3)),
    ensures
        g2_operand_on_curve(g2_negated(s)) == Some(g2_neg(g2_operand_on_curve(s)->Some_0)),
        g2_operand(g2_negated(s)) is Some <==> g2_operand(s) is Some,
{
    law_negate_infinity();
    lemma_zeros_off_curve();
    lemma_g2_operand(s);
    lemma_g2_operand(g2_negated(s));
    lemma_g2_negated_words(s);
    lemma_word_parts(s, 3);
    lemma_negated_word_parts(word(s, 3));
    law_g2_neg_on_curve(g2_operand_on_curve(s)->Some_0);
    law_g2_neg_subgroup(g2_operand_on_curve(s)->Some_0);
}

// ---- Addition and subtraction -----------------------------------------------------

/// The point at infinity, all zeros, is the identity of G1: what is added to it, on either
/// side, comes back, and its multiples are itself.
pub proof fn law_g1_infinity(s: Seq<u8>, scalar: Seq<u8>)
    requires
        s.len() == 64,
        g1_operand(s) is Some,
        flags(word(s, 1)) == 0,
    ensures
        g1_added(s, zeros(64)) == Ok::<Seq<u8>, AltBn128Error>(s),
        g1_added(zeros(64), s) == Ok::<Seq<u8>, AltBn128Error>(s),
        g1_multiplied(zeros(64), scalar) == Ok::<Seq<u8>, AltBn128Error>(zeros(64)),
{
    law_g1_encode_decode(G1Value::Infinity, s);
    lemma_g1_times_infinity(le_value(scalar));
}

/// The point at infinity, all zeros, is the identity of G2: what is added to it, on either
/// side, comes back, its multiples are itself, and it is in the prime-order subgroup.
pub proof fn law_g2_infinity(s: Seq<u8>, scalar: Seq<u8>)
    requires
        s.len() == 128,
        g2_operand_on_curve(s) is Some,
        flags(word(s, 3)) == 0,
    ensures
        g2_added(s, zeros(128)) == Ok::<Seq<u8>, AltBn128Error>(s),
        g2_added(zeros(128), s) == Ok::<Seq<u8>, AltBn128Error>(s),
        g2_multiplied(zeros(128), scalar) == Ok::<Seq<u8>, AltBn128Error>(zeros(128)),
        g2_operand(zeros(128)) is Some,
{
    law_g2_encode_decode(G2Value::Infinity, s);
    lemma_g2_times_infinity(le_value(scalar));
}

/// Subtraction adds the negation: where both operands stand for points of G1, `a - b` is
/// the sum of the first point and the negation of the second.
pub proof fn law_g1_sub_adds_negation(a: Seq<u8>, b: Seq<u8>)
    requires
        a.len() == 64,
        b.len() == 64,
        g1_operand(a) is Some,
        g1_operand(b) is Some,
        negatable(word(b, 1)),
    ensures
        g1_added(a, g1_negated(b)) == Ok::<Seq<u8>, AltBn128Error>(
            g1_bytes(g1_sum(g1_operand(a)->Some_0, g1_neg(g1_operand(b)->Some_0))),
        ),
{
    law_g1_negate_decodes(b);
}

/// Addition in G1 does not depend on the order, whatever the bytes.
pub proof fn law_g1_add_commutes(a: Seq<u8>, b: Seq<u8>)
    ensures
        g1_added(a, b) == g1_added(b, a),
{
    if let (Some(p), Some(r)) = (g1_operand(a), g1_operand(b)) {
        lemma_g1_sum(p, r);
    }
}

/// Addition in G2 does not depend on the order, whatever the bytes.
pub proof fn law_g2_add_commutes(a: Seq<u8>, b: Seq<u8>)
    ensures
        g2_added(a, b) == g2_added(b, a),
{
    if let (Some(p), Some(r)) = (g2_operand_on_curve(a), g2_operand_on_curve(b)) {
        lemma_g2_sum(p, r);
    }
}

/// A sum, and what its bytes stand for.
proof fn lemma_g1_added(a: Seq<u8>, b: Seq<u8>, p: G1Value, r: G1Value)
    requires
        g1_operand(a) == Some(p),
        g1_operand(b) == Some(r),
        g1_on_curve(p),
        g1_on_curve(r),
    ensures
        g1_added(a, b) == Ok::<Seq<u8>, AltBn128Error>(g1_bytes(g1_sum(p, r))),
        g1_on_curve(g1_sum(p, r)),
        g1_operand(g1_bytes(g1_sum(p, r))) == Some(g1_sum(p, r)),
{
    lemma_g1_sum(p, r);
    lemma_g1_operand_bytes(g1_sum(p, r));
}

/// Subtraction undoes addition in G1, and addition undoes subtraction, byte for byte. An `a`
/// with flags is left out, which comes back without them.
#[verifier::rlimit(30)]
pub proof fn law_g1_sub_undoes_add(a: Seq<u8>, b: Seq<u8>)
    requires
        a.len() == 64,
        b.len() == 64,
        g1_operand(a) is Some,
        g1_operand(b) is Some,
        flags(word(a, 1)) == 0,
        negatable(word(b, 1)),
    ensures
        g1_added(g1_added(a, b)->Ok_0, g1_negated(b)) == Ok::<Seq<u8>, AltBn128Error>(a),
        g1_added(g1_added(a, g1_negated(b))->Ok_0, b) == Ok::<Seq<u8>, AltBn128Error>(a),
{
    let (p, r) = (g1_operand(a)->Some_0, g1_operand(b)->Some_0);
    let m = g1_neg(r);
    law_g1_negate_decodes(b);
    law_g1_neg_on_curve(r);
    law_g1_encode_decode(G1Value::Infinity, a);
    lemma_g1_added(a, b, p, r);
    lemma_g1_added(g1_bytes(g1_sum(p, r)), g1_negated(b), g1_sum(p, r), m);
    lemma_g1_sum_undone(p, r);
    lemma_g1_added(a, g1_negated(b), p, m);
    lemma_g1_added(g1_bytes(g1_sum(p, m)), b, g1_sum(p, m), r);
    lemma_g1_sum_undone(p, m);
    assert(g1_neg(m) == r);
}

/// A sum, and what its bytes stand for.
proof fn lemma_g2_added(a: Seq<u8>, b: Seq<u8>, p: G2Value, r: G2Value)
    requires
        g2_operand_on_curve(a) == Some(p),
        g2_operand_on_curve(b) == Some(r),
        g2_on_curve(p),
        g2_on_curve(r),
    ensures
        g2_added(a, b) == Ok::<Seq<u8>, AltBn128Error>(g2_bytes(g2_sum(p, r))),
        g2_on_curve(g2_sum(p, r)),
        g2_operand_on_curve(g2_bytes(g2_sum(p, r))) == Some(g2_sum(p, r)),
{
    lemma_g2_sum(p, r);
    lemma_g2_operand_bytes(g2_sum(p, r));
}

/// Subtraction undoes addition in G2, and addition undoes subtraction, byte for byte. An `a`
/// with flags is left out, which comes back without them.
#[verifier::rlimit(30)]
pub proof fn law_g2_sub_undoes_add(a: Seq<u8>, b: Seq<u8>)
    requires
        a.len() == 128,
        b.len() == 128,
        g2_operand_on_curve(a) is Some,
        g2_operand_on_curve(b) is Some,
        flags(word(a, 3)) == 0,
        negatable(word(b, 3)),
    ensures
        g2_added(g2_added(a, b)->Ok_0, g2_negated(b)) == Ok::<Seq<u8>, AltBn128Error>(a),
        g2_added(g2_added(a, g2_negated(b))->Ok_0, b) == Ok::<Seq<u8>, AltBn128Error>(a),
{
    let (p, r) = (g2_operand_on_curve(a)->Some_0, g2_operand_on_curve(b)->Some_0);
    let m = g2_neg(r);
    law_g2_negate_decodes(b);
    law_g2_neg_on_curve(r);
    law_g2_encode_decode(G2Value::Infinity, a);
    lemma_g2_added(a, b, p, r);
    lemma_g2_added(g2_bytes(g2_sum(p, r)), g2_negated(b), g2_sum(p, r), m);
    lemma_g2_sum_undone(p, r);
    lemma_g2_added(a, g2_negated(b), p, m);
    lemma_g2_added(g2_bytes(g2_sum(p, m)), b, g2_sum(p, m), r);
    lemma_g2_sum_undone(p, m);
    assert(g2_neg(m) == r);
}

/// A point minus itself is the point at infinity.
pub proof fn law_g1_sub_self(s: Seq<u8>)
    requires
        s.len() == 64,
        g1_operand(s) is Some,
        negatable(word(s, 1)),
    ensures
        g1_added(s, g1_negated(s)) == Ok::<Seq<u8>, AltBn128Error>(zeros(64)),
{
    law_g1_sub_adds_negation(s, s);
}

/// Subtraction adds the negation: where both operands stand for points of the G2 curve, `a - b` is
/// the sum of the first point and the negation of the second.
pub proof fn law_g2_sub_adds_negation(a: Seq<u8>, b: Seq<u8>)
    requires
        a.len() == 128,
        b.len() == 128,
        g2_operand_on_curve(a) is Some,
        g2_operand_on_curve(b) is Some,
        negatable(word(b, 3)),
    ensures
        g2_added(a, g2_negated(b)) == Ok::<Seq<u8>, AltBn128Error>(
            g2_bytes(
                g2_sum(g2_operand_on_curve(a)->Some_0, g2_neg(g2_operand_on_curve(b)->Some_0)),
            ),
        ),
{
    law_g2_negate_decodes(b);
}

/// A point minus itself is the point at infinity.
pub proof fn law_g2_sub_self(s: Seq<u8>)
    requires
        s.len() == 128,
        g2_operand_on_curve(s) is Some,
        negatable(word(s, 3)),
    ensures
        g2_added(s, g2_negated(s)) == Ok::<Seq<u8>, AltBn128Error>(zeros(128)),
{
    law_g2_sub_adds_negation(s, s);
}

/// Subtraction refuses the operands that addition refuses: without flags on `y`, the
/// negation of bytes stands for a point of G1 just where the bytes do. A `y` written as `q`
/// itself is left out: its negation is the reduced zero.
#[verifier::rlimit(30)]
pub proof fn law_g1_negate_validity(s: Seq<u8>)
    requires
        s.len() == 64,
        flags(word(s, 1)) == 0,
        word(s, 1) != q(),
    ensures
        g1_operand(g1_negated(s)) is Some <==> g1_operand(s) is Some,
{
    lemma_zeros_off_curve();
    lemma_word_parts(s, 1);
    lemma_g1_negated_words(s);
    if g1_operand(s) is Some {
        law_g1_negate_decodes(s);
    }
    if g1_operand(g1_negated(s)) is Some {
        assert(word(s, 1) < q());
        lemma_negated_word_parts(word(s, 1));
        law_g1_negate_decodes(g1_negated(s));
        law_g1_negate_twice(s);
    }
}

/// Subtraction refuses the operands that addition refuses: without flags on `y`, the
/// negation of bytes stands for a point of the G2 curve just where the bytes do, and the
/// subgroup check accepts both or neither. A component of `y` written as `q` itself is left
/// out: its negation is the reduced zero.
#[verifier::rlimit(30)]
pub proof fn law_g2_negate_validity(s: Seq<u8>)
    requires
        s.len() == 128,
        flags(word(s, 3)) == 0,
        word(s, 2) != q(),
        word(s, 3) != q(),
    ensures
        g2_operand_on_curve(g2_negated(s)) is Some <==> g2_operand_on_curve(s) is Some,
        g2_operand(g2_negated(s)) is Some <==> g2_operand(s) is Some,
{
    lemma_zeros_off_curve();
    lemma_g2_operand(s);
    lemma_g2_operand(g2_negated(s));
    lemma_word_parts(s, 2);
    lemma_word_parts(s, 3);
    lemma_g2_negated_words(s);
    if g2_operand_on_curve(s) is Some {
        law_g2_negate_decodes(s);
    }
    if g2_operand_on_curve(g2_negated(s)) is Some {
        assert(word(s, 3) < q());
        lemma_negated_word_parts(word(s, 3));
        law_g2_negate_decodes(g2_negated(s));
        law_g2_negate_twice(s);
    }
}

/// The bytes of the opposite of a point are its negated bytes.
proof fn lemma_g1_bytes_of_neg(p: G1Value)
    requires
        g1_reduced(p),
    ensures
        g1_bytes(g1_neg(p)) == g1_negated(g1_bytes(p)),
{
    match p {
        G1Value::Infinity => law_negate_infinity(),
        G1Value::Affine { x, y } => {
            lemma_two_words(x, y);
            lemma_value_of_le_bytes(x, 32);
            assert(g1_bytes(p).take(32) =~= le_bytes(x, 32));
        },
    }
}

/// The bytes of the opposite of a point are its negated bytes.
proof fn lemma_g2_bytes_of_neg(p: G2Value)
    requires
        g2_reduced(p),
    ensures
        g2_bytes(g2_neg(p)) == g2_negated(g2_bytes(p)),
{
    match p {
        G2Value::Infinity => law_negate_infinity(),
        G2Value::Affine { x, y } => {
            lemma_four_words(x, y);
            lemma_two_words(x.c0, x.c1);
            assert(g2_bytes(p).take(64) =~= fq2_bytes(x));
            assert(g2_bytes(g2_neg(p)) =~= g2_negated(g2_bytes(p)));
        },
    }
}

/// The negation of a sum is the sum of the negations, in G1.
#[verifier::rlimit(30)]
pub proof fn law_g1_negate_sum(a: Seq<u8>, b: Seq<u8>)
    requires
        a.len() == 64,
        b.len() == 64,
        g1_operand(a) is Some,
        g1_operand(b) is Some,
        negatable(word(a, 1)),
        negatable(word(b, 1)),
    ensures
        g1_added(g1_negated(a), g1_negated(b)) == Ok::<Seq<u8>, AltBn128Error>(
            g1_negated(g1_added(a, b)->Ok_0),
        ),
{
    let (p, r) = (g1_operand(a)->Some_0, g1_operand(b)->Some_0);
    law_g1_negate_decodes(a);
    law_g1_negate_decodes(b);
    lemma_g1_neg_sum(p, r);
    lemma_g1_bytes_of_neg(g1_sum(p, r));
}

/// The negation of a sum is the sum of the negations, in G2.
#[verifier::rlimit(30)]
pub proof fn law_g2_negate_sum(a: Seq<u8>, b: Seq<u8>)
    requires
        a.len() == 128,
        b.len() == 128,
        g2_operand_on_curve(a) is Some,
        g2_operand_on_curve(b) is Some,
        negatable(word(a, 3)),
        negatable(word(b, 3)),
    ensures
        g2_added(g2_negated(a), g2_negated(b)) == Ok::<Seq<u8>, AltBn128Error>(
            g2_negated(g2_added(a, b)->Ok_0),
        ),
{
    let (p, r) = (g2_operand_on_curve(a)->Some_0, g2_operand_on_curve(b)->Some_0);
    law_g2_negate_decodes(a);
    law_g2_negate_decodes(b);
    lemma_g2_neg_sum(p, r);
    lemma_g2_bytes_of_neg(g2_sum(p, r));
}

/// The negation of a multiple is the multiple of the negation, in G1.
pub proof fn law_g1_negate_mul(s: Seq<u8>, scalar: Seq<u8>)
    requires
        s.len() == 64,
        g1_operand(s) is Some,
        negatable(word(s, 1)),
    ensures
        g1_multiplied(g1_negated(s), scalar) == Ok::<Seq<u8>, AltBn128Error>(
            g1_negated(g1_multiplied(s, scalar)->Ok_0),
        ),
{
    let p = g1_operand(s)->Some_0;
    law_g1_negate_decodes(s);
    lemma_g1_neg_times(le_value(scalar), p);
    lemma_g1_bytes_of_neg(g1_times(le_value(scalar), p));
}

/// The negation of a multiple is the multiple of the negation, in G2.
#[verifier::rlimit(30)]
pub proof fn law_g2_negate_mul(s: Seq<u8>, scalar: Seq<u8>)
    requires
        s.len() == 128,
        g2_operand(s) is Some,
        negatable(word(s, 3)),
    ensures
        g2_multiplied(g2_negated(s), scalar) == Ok::<Seq<u8>, AltBn128Error>(
            g2_negated(g2_multiplied(s, scalar)->Ok_0),
        ),
{
    let p = g2_operand(s)->Some_0;
    lemma_g2_operand(s);
    lemma_g2_operand(g2_negated(s));
    law_g2_negate_decodes(s);
    lemma_g2_neg_times(le_value(scalar), p);
    lemma_g2_bytes_of_neg(g2_times(le_value(scalar), p));
}

/// In G1 the scalar zero gives infinity, and one gives the point back, without flags.
pub proof fn law_g1_mul_zero_one(s: Seq<u8>, scalar: Seq<u8>)
    requires
        g1_operand(s) is Some,
    ensures
        le_value(scalar) == 0 ==> g1_multiplied(s, scalar) == Ok::<Seq<u8>, AltBn128Error>(
            zeros(64),
        ),
        le_value(scalar) == 1 ==> g1_multiplied(s, scalar) == Ok::<Seq<u8>, AltBn128Error>(
            g1_bytes(g1_operand(s)->Some_0),
        ),
{
    reveal_with_fuel(g1_times, 2);
}

/// In G2 the scalar zero gives infinity, and one gives the point back, without flags.
pub proof fn law_g2_mul_zero_one(s: Seq<u8>, scalar: Seq<u8>)
    requires
        g2_operand(s) is Some,
    ensures
        le_value(scalar) == 0 ==> g2_multiplied(s, scalar) == Ok::<Seq<u8>, AltBn128Error>(
            zeros(128),
        ),
        le_value(scalar) == 1 ==> g2_multiplied(s, scalar) == Ok::<Seq<u8>, AltBn128Error>(
            g2_bytes(g2_operand(s)->Some_0),
        ),
{
    reveal_with_fuel(g2_times, 2);
}

/// In G1 a scalar that is larger by one is one addition more.
pub proof fn law_g1_mul_next(s: Seq<u8>, scalar: Seq<u8>, next: Seq<u8>)
    requires
        g1_operand(s) is Some,
        le_value(next) == le_value(scalar) + 1,
    ensures
        g1_multiplied(s, next) == g1_added(g1_multiplied(s, scalar)->Ok_0, s),
{
    let p = g1_operand(s)->Some_0;
    lemma_g1_times_on_curve(le_value(scalar), p);
    lemma_g1_operand_bytes(g1_times(le_value(scalar), p));
}

/// In G2 a scalar that is larger by one is one addition more.
pub proof fn law_g2_mul_next(s: Seq<u8>, scalar: Seq<u8>, next: Seq<u8>)
    requires
        g2_operand(s) is Some,
        le_value(next) == le_value(scalar) + 1,
    ensures
        g2_multiplied(s, next) == g2_added(g2_multiplied(s, scalar)->Ok_0, s),
{
    let p = g2_operand(s)->Some_0;
    lemma_g2_operand(s);
    lemma_g2_times_on_curve(le_value(scalar), p);
    lemma_g2_operand_bytes(g2_times(le_value(scalar), p));
}

/// A multiplication succeeds on just the bytes that the subgroup check accepts, and an
/// addition reads the same point from them.
pub proof fn law_g2_subgroup_check(s: Seq<u8>, scalar: Seq<u8>)
    ensures
        g2_multiplied(s, scalar) is Ok <==> g2_operand(s) is Some,
        g2_operand(s) is Some ==> g2_operand_on_curve(s) == g2_operand(s),
{
    lemma_g2_operand(s);
}

// ---- The pairing check -----------------------------------------------------------

/// The negated bytes of a point of G1 stand for its opposite.
proof fn lemma_negated_operand(v: G1Value)
    requires
        g1_on_curve(v),
    ensures
        g1_operand(g1_negated(g1_bytes(v))) == Some(g1_neg(v)),
{
    lemma_g1_bytes_of_neg(v);
    law_g1_neg_on_curve(v);
    lemma_g1_operand_bytes(g1_neg(v));
}

#[verifier::rlimit(30)]
proof fn lemma_three_pairs(
    input: Seq<(G1Point, G2Point)>,
    a: G1Point,
    b: G1Point,
    c: G1Point,
    h: G2Point,
    p: G1Value,
    r: G1Value,
    t: G1Value,
    k: G2Value,
)
    requires
        g1_operand(a@) == Some(p),
        g1_operand(b@) == Some(r),
        g1_operand(c@) == Some(t),
        g2_operand(h@) == Some(k),
        input == seq![(a, h), (b, h), (c, h)],
    ensures
        pairs_valid(input),
        pairs_g1(input) == seq![p, r, t],
        all_are(pairs_g2(input), k),
{
    assert(input[0] == (a, h) && input[1] == (b, h) && input[2] == (c, h));
    assert forall|i: int| 0 <= i < 3 implies g1_operand((#[trigger] input[i]).0@) is Some
        && g2_operand(input[i].1@) == Some(k) by {
        assert(i == 0 || i == 1 || i == 2);
    }
    assert(pairs_g1(input) =~= seq![p, r, t]);
}

proof fn lemma_total_of_three(p: G1Value, r: G1Value, t: G1Value)
    ensures
        g1_total(seq![p, r, t]) == g1_sum(g1_sum(p, r), t),
{
    assert(seq![p, r, t].drop_last() =~= seq![p, r]);
    assert(seq![p, r].drop_last() =~= seq![p]);
    assert(seq![p].drop_last() =~= Seq::<G1Value>::empty());
    assert(g1_total(Seq::<G1Value>::empty()) == G1Value::Infinity);
    assert(g1_total(seq![p]) == p);
    assert(g1_total(seq![p, r]) == g1_sum(p, r));
}

/// The pairing is linear in its first argument: the pairs of two points of G1 and of the
/// negation of their sum, all with one point of G2, are valid and balanced, so that
/// `pairing` answers one on them.
#[verifier::rlimit(30)]
pub proof fn law_pairing_linear(a: G1Point, b: G1Point, c: G1Point, h: G2Point)
    requires
        g1_operand(a@) is Some,
        g1_operand(b@) is Some,
        g2_operand(h@) is Some,
        c@ == g1_negated(g1_added(a@, b@)->Ok_0),
    ensures
        pairs_valid(seq![(a, h), (b, h), (c, h)]),
        pairs_balanced(seq![(a, h), (b, h), (c, h)]),
{
    let input = seq![(a, h), (b, h), (c, h)];
    let (p, r) = (g1_operand(a@)->Some_0, g1_operand(b@)->Some_0);
    let v = g1_sum(p, r);
    assert(g1_on_curve(p) && g1_on_curve(r));
    lemma_g1_sum(p, r);
    lemma_negated_operand(v);
    assert(g1_sum(v, g1_neg(v)) == G1Value::Infinity) by {
        lemma_g1_sum_undone(G1Value::Infinity, v);
    }
    lemma_total_of_three(p, r, g1_neg(v));
    lemma_three_pairs(input, a, b, c, h, p, r, g1_neg(v), g2_operand(h@)->Some_0);
}

// ---- Encoding -------------------------------------------------------------------

/// Writing a point of G1 and reading it back gives the point; reading 64 bytes without flags
/// and writing the point gives the bytes.
pub proof fn law_g1_encode_decode(p: G1Value, s: Seq<u8>)
    ensures
        g1_on_curve(p) ==> g1_operand(g1_bytes(p)) == Some(p),
        s.len() == 64 && g1_operand(s) is Some && flags(word(s, 1)) == 0 ==> g1_bytes(
            g1_operand(s)->Some_0,
        ) == s,
{
    if g1_on_curve(p) {
        lemma_g1_operand_bytes(p);
    }
    if s.len() == 64 && g1_operand(s) is Some && flags(word(s, 1)) == 0 {
        lemma_word_parts(s, 0);
        lemma_word_parts(s, 1);
        assert(s.subrange(0, 32) + s.subrange(32, 64) =~= s);
    }
}

/// Writing a point of the G2 curve and reading it back gives the point; reading 128 bytes
/// without flags and writing the point gives the bytes.
#[verifier::rlimit(30)]
pub proof fn law_g2_encode_decode(p: G2Value, s: Seq<u8>)
    ensures
        g2_on_curve(p) ==> g2_operand_on_curve(g2_bytes(p)) == Some(p),
        s.len() == 128 && g2_operand_on_curve(s) is Some && flags(word(s, 3)) == 0 ==> g2_bytes(
            g2_operand_on_curve(s)->Some_0,
        ) == s,
{
    if g2_on_curve(p) {
        lemma_g2_operand_bytes(p);
    }
    if s.len() == 128 && g2_operand_on_curve(s) is Some && flags(word(s, 3)) == 0 {
        lemma_word_parts(s, 0);
        lemma_word_parts(s, 1);
        lemma_word_parts(s, 2);
        lemma_word_parts(s, 3);
        assert((s.subrange(0, 32) + s.subrange(32, 64)) + (s.subrange(64, 96) + s.subrange(96, 128))
            =~= s);
    }
}

// ---- Byte order -------------------------------------------------------------------

/// A position and its mirror image in the chunk.
proof fn lemma_mirror(i: int, c: int, n: int)
    requires
        c > 0,
        n % c == 0,
        0 <= i < n,
    ensures
        ({
            let j = (i / c) * c + (c - 1 - i % c);
            0 <= j < n && j / c == i / c && j % c == c - 1 - i % c
        }),
        (i / c) * c + i % c == i,
{
    let k = i / c;
    let m = i % c;
    vstd::arithmetic::div_mod::lemma_fundamental_div_mod(i, c);
    assert(c * k == k * c) by (nonlinear_arith);
    vstd::arithmetic::div_mod::lemma_fundamental_div_mod_converse(
        k * c + (c - 1 - m),
        c,
        k,
        c - 1 - m,
    );
    vstd::arithmetic::div_mod::lemma_fundamental_div_mod(n, c);
    let t = n / c;
    assert(k >= 0) by (nonlinear_arith)
        requires
            i == c * k + m,
            0 <= m < c,
            i >= 0,
    ;
    assert(k + 1 <= t) by (nonlinear_arith)
        requires
            i == c * k + m,
            0 <= m,
            i < n,
            n == c * t,
            c > 0,
    ;
    assert(0 <= k * c && k * c + c <= n) by (nonlinear_arith)
        requires
            0 <= k,
            k + 1 <= t,
            n == c * t,
            c > 0,
    ;
}

/// Converting the byte order twice gives the same bytes back.
pub proof fn law_convert_endianness_twice(s: Seq<u8>, c: int)
    requires
        c > 0,
        s.len() as int % c == 0,
    ensures
        chunks_reversed(chunks_reversed(s, c), c) == s,
{
    assert forall|i: int| 0 <= i < s.len() implies chunks_reversed(chunks_reversed(s, c), c)[i]
        == s[i] by {
        lemma_mirror(i, c, s.len() as int);
    }
    assert(chunks_reversed(chunks_reversed(s, c), c) =~= s);
}

/// The big-endian bytes of a point read back as the same point, and the other way round, in
/// both groups.
pub proof fn law_be_bytes_round_trip(s: Seq<u8>, t: Seq<u8>)
    requires
        s.len() == 64,
        t.len() == 128,
    ensures
        chunks_reversed(chunks_reversed(s, 32), 32) == s,
        chunks_reversed(chunks_reversed(t, 64), 64) == t,
{
    law_convert_endianness_twice(s, 32);
    law_convert_endianness_twice(t, 64);
}

/// Each chunk of converted bytes is that chunk of the bytes read backwards.
pub proof fn law_convert_endianness_chunk(s: Seq<u8>, c: int, k: int)
    requires
        c > 0,
        s.len() as int % c == 0,
        0 <= k,
        k * c < s.len(),
    ensures
        k * c + c <= s.len(),
        chunks_reversed(s, c).subrange(k * c, k * c + c) == s.subrange(k * c, k * c + c).reverse(),
{
    lemma_chunk_fits(k, c, s.len() as int);
    assert(k * c >= 0) by (nonlinear_arith)
        requires
            k >= 0,
            c > 0,
    ;
    let from = k * c;
    let a = chunks_reversed(s, c).subrange(from, from + c);
    let b = s.subrange(from, from + c).reverse();
    assert forall|i: int| 0 <= i < c implies #[trigger] a[i] == b[i] by {
        lemma_chunk_index(k, c, i);
    }
    assert(a =~= b);
}

// ---- Compression ------------------------------------------------------------------

/// Setting a flag on a word that has none adds the weight of the flag.
proof fn lemma_with_flag(s: Seq<u8>, flag: u8)
    requires
        s.len() == 32,
        le_value(s) < flag_unit(),
        flag == 0x40 || flag == 0x80,
    ensures
        with_flag(s, flag).len() == 32,
        le_value(with_flag(s, flag)) == le_value(s) + (flag / 0x40) as nat * flag_unit(),
        flags(le_value(with_flag(s, flag))) == (flag / 0x40) as nat,
        unflagged(le_value(with_flag(s, flag))) == le_value(s),
{
    let t = with_flag(s, flag);
    let b = s[31];
    lemma_radix_32();
    lemma_le_value_take_next(s, 31);
    lemma_le_value_take_next(t, 31);
    assert(s.take(32) =~= s);
    assert(t.take(32) =~= t);
    assert(t.take(31) =~= s.take(31));
    let weight = radix(31);
    let unit = flag_unit();
    assert(unit == 0x40 * weight);
    let v = b as nat;
    assert(v < 0x40) by (nonlinear_arith)
        requires
            v * weight < 0x40 * weight,
    ;
    assert(b | flag == b + flag) by (bit_vector)
        requires
            b < 0x40,
            flag == 0x40 || flag == 0x80,
    ;
    let f = flag as nat;
    assert((v + f) * weight == v * weight + f * weight) by (nonlinear_arith);
    assert(0x80 * weight == 2 * unit);
}

/// The compressed form of the point at infinity is the infinity flag and nothing else, in
/// both groups.
pub proof fn law_compress_infinity()
    ensures
        g1_compressed(zeros(64)) == with_flag(zeros(32), 0x40),
        flags(le_value(with_flag(zeros(32), 0x40))) == 1,
        unflagged(le_value(with_flag(zeros(32), 0x40))) == 0,
        g2_compressed(zeros(128)) == with_flag(zeros(64), 0x40),
        word(with_flag(zeros(64), 0x40), 0) == 0,
        flags(word(with_flag(zeros(64), 0x40), 1)) == 1,
        unflagged(word(with_flag(zeros(64), 0x40), 1)) == 0,
{
    lemma_le_value_zero(zeros(32));
    lemma_with_flag(zeros(32), 0x40);
    assert(0u8 | 0x40u8 == 0x40u8) by (bit_vector);
    assert(with_flag(zeros(32), 0x40) =~= zeros(32).update(31, 0x40));
    assert(with_flag(zeros(64), 0x40) =~= zeros(64).update(63, 0x40));
    let c = with_flag(zeros(64), 0x40);
    assert(c.subrange(0, 32) =~= zeros(32));
    assert(c.subrange(32, 64) =~= with_flag(zeros(32), 0x40));
}

/// The two readings of the sign of `y` agree: above half of the field, and above its own
/// negation.
pub proof fn law_g1_sign(y: nat)
    requires
        y < q(),
    ensures
        above_half(y) <==> y > fq_neg(y),
{
}

/// The two readings of the sign of `y` in `Fq2` agree: its leading component above half of
/// the field, and the whole above its own negation.
pub proof fn law_g2_sign(y: Fq2Value)
    requires
        fq2_reduced(y),
    ensures
        above_half(
            if y.c1 == 0 {
                y.c0
            } else {
                y.c1
            },
        ) <==> !fq2_le(y, fq2_neg(y)),
{
}

/// The compressed form of a point of G1 is its `x`, with the sign flag where `y > -y`.
pub proof fn law_g1_compress_encoding(s: Seq<u8>)
    requires
        s.len() == 64,
        g1_decode(s) is Some,
        flags(word(s, 1)) == 0,
    ensures
        g1_compressed(s).len() == 32,
        unflagged(le_value(g1_compressed(s))) == word(s, 0),
        flags(le_value(g1_compressed(s))) == if word(s, 1) > fq_neg(word(s, 1)) {
            2nat
        } else {
            0nat
        },
{
    lemma_zeros_off_curve();
    lemma_word_parts(s, 0);
    assert(s.take(32) =~= s.subrange(0, 32));
    if above_half(word(s, 1)) {
        lemma_with_flag(s.take(32), 0x80);
    }
}

/// Decompression undoes compression in G1: for the bytes of a point of the curve, and for
/// the point at infinity, whatever `g1_decompress` answers on the compressed form is those
/// bytes. Bytes with flags on `y` are left out, which come back without them.
#[verifier::rlimit(30)]
pub proof fn law_g1_compress_round_trip(s: Seq<u8>, r: Result<Seq<u8>, AltBn128Error>)
    requires
        s.len() == 64,
        g1_operand(s) is Some,
        flags(word(s, 1)) == 0,
        g1_decompressed(g1_compressed(s), r),
    ensures
        r == Ok::<Seq<u8>, AltBn128Error>(s),
{
    law_compress_infinity();
    lemma_zeros_off_curve();
    if s != zeros(64) {
        let (x, y) = (word(s, 0), word(s, 1));
        lemma_word_parts(s, 1);
        law_g1_compress_encoding(s);
        law_g1_encode_decode(G1Value::Infinity, s);
        let c = g1_compressed(s);
        let larger = flags(le_value(c)) == 2;
        assert(g1_root(x, y, larger));
        if let Ok(t) = r {
            let p = choose|p: G1Value| #[trigger]
                g1_decompresses_to(c, Some(p)) && t == g1_bytes(p);
            assert(p == G1Value::Affine { x, y });
        }
    }
}

/// Compression undoes decompression in G1: where 32 bytes decompress, compressing the point
/// gives the bytes back. Left out is an infinity flag beside further bits, which are lost.
#[verifier::rlimit(30)]
pub proof fn law_g1_decompress_round_trip(c: Seq<u8>, s: Seq<u8>)
    requires
        c.len() == 32,
        g1_decompressed(c, Ok(s)),
        flags(le_value(c)) == 1 ==> unflagged(le_value(c)) == 0,
    ensures
        g1_compressed(s) == c,
{
    law_compress_infinity();
    lemma_zeros_off_curve();
    lemma_le_value_bound(c);
    lemma_radix_32();
    let p = choose|p: G1Value| #[trigger] g1_decompresses_to(c, Some(p)) && s == g1_bytes(p);
    if let G1Value::Affine { x, y } = p {
        let larger = flags(le_value(c)) == 2;
        assert(g1_root(x, y, larger));
        lemma_g1_y_nonzero(x, y);
        lemma_g1_operand_bytes(p);
        lemma_two_words(x, y);
        law_g1_compress_encoding(s);
        lemma_le_value_bound(g1_compressed(s));
    } else {
        lemma_le_value_bound(with_flag(zeros(32), 0x40));
    }
    lemma_le_value_injective(g1_compressed(s), c);
}

/// Decompression has one answer.
pub proof fn law_g1_decompress_unique(
    c: Seq<u8>,
    r: Result<Seq<u8>, AltBn128Error>,
    t: Result<Seq<u8>, AltBn128Error>,
)
    requires
        g1_decompressed(c, r),
        g1_decompressed(c, t),
    ensures
        r == t,
{
    lemma_g1_decompress_on_curve(c, r);
    lemma_g1_decompress_on_curve(c, t);
}

/// What a successful answer consists of.
proof fn lemma_g1_decompress_on_curve(c: Seq<u8>, r: Result<Seq<u8>, AltBn128Error>)
    requires
        g1_decompressed(c, r),
    ensures
        r is Ok ==> exists|p: G1Value| #[trigger]
            g1_decompresses_to(c, Some(p)) && r->Ok_0 == g1_bytes(p) && g1_on_curve(p) && (p matches
                G1Value::Affine { x, y } ==> g1_root(x, y, flags(le_value(c)) == 2)),
{
    if let Ok(s) = r {
        let p = choose|p: G1Value| #[trigger] g1_decompresses_to(c, Some(p)) && s == g1_bytes(p);
        if let G1Value::Affine { x, y } = p {
            let larger = flags(le_value(c)) == 2;
            assert(g1_root(x, y, larger));
        }
    }
}

/// A decompressed G1 point is on the curve: its bytes stand for a point of G1, without flags.
pub proof fn law_g1_decompress_on_curve(c: Seq<u8>, s: Seq<u8>)
    requires
        g1_decompressed(c, Ok(s)),
    ensures
        s.len() == 64,
        g1_operand(s) is Some,
        flags(word(s, 1)) == 0,
{
    lemma_zeros_off_curve();
    lemma_g1_decompress_on_curve(c, Ok(s));
    let p = choose|p: G1Value| #[trigger]
        g1_decompresses_to(c, Some(p)) && s == g1_bytes(p) && g1_on_curve(p);
    if let G1Value::Affine { x, y } = p {
        lemma_g1_operand_bytes(p);
        lemma_two_words(x, y);
    }
}

/// The compressed form of a point of the G2 curve is its `x`, with the sign flag where
/// `y > -y` in the order that compares `c1` first.
pub proof fn law_g2_compress_encoding(s: Seq<u8>)
    requires
        s.len() == 128,
        g2_decode_on_curve(s) is Some,
        flags(word(s, 3)) == 0,
    ensures
        g2_compressed(s).len() == 64,
        word(g2_compressed(s), 0) == word(s, 0),
        unflagged(word(g2_compressed(s), 1)) == word(s, 1),
        ({
            let y = Fq2Value { c0: word(s, 2), c1: word(s, 3) };
            flags(word(g2_compressed(s), 1)) == if !fq2_le(y, fq2_neg(y)) {
                2nat
            } else {
                0nat
            }
        }),
{
    law_g2_sign(Fq2Value { c0: word(s, 2), c1: word(s, 3) });
    lemma_word_parts(s, 3);
    lemma_zeros_off_curve();
    lemma_word_parts(s, 1);
    let c = g2_compressed(s);
    let part = s.subrange(32, 64);
    assert(c.subrange(0, 32) =~= s.subrange(0, 32));
    if above_half(g2_leading(s)) {
        lemma_with_flag(part, 0x80);
        assert(c.subrange(32, 64) =~= with_flag(part, 0x80));
    } else {
        assert(c.subrange(32, 64) =~= part);
    }
}

/// Decompression undoes compression in G2: for the bytes of a point of the curve, in the
/// prime-order subgroup or not, and for the point at infinity, whatever `g2_decompress`
/// answers on the compressed form is those bytes. Bytes with flags on `y` are left out,
/// which come back without them.
#[verifier::rlimit(30)]
pub proof fn law_g2_compress_round_trip(s: Seq<u8>, r: Result<Seq<u8>, AltBn128Error>)
    requires
        s.len() == 128,
        g2_operand_on_curve(s) is Some,
        flags(word(s, 3)) == 0,
        g2_decompressed(g2_compressed(s), r),
    ensures
        r == Ok::<Seq<u8>, AltBn128Error>(s),
{
    law_compress_infinity();
    lemma_zeros_off_curve();
    if s != zeros(128) {
        let x = Fq2Value { c0: word(s, 0), c1: word(s, 1) };
        let y = Fq2Value { c0: word(s, 2), c1: word(s, 3) };
        lemma_word_parts(s, 3);
        law_g2_compress_encoding(s);
        law_g2_encode_decode(G2Value::Infinity, s);
        law_g2_sign(y);
        let c = g2_compressed(s);
        let larger = flags(word(c, 1)) == 2;
        assert(g2_root(x, y, larger));
        if let Ok(t) = r {
            let p = choose|p: G2Value| #[trigger]
                g2_decompresses_to(c, Some(p)) && t == g2_bytes(p);
            assert(p == G2Value::Affine { x, y });
        }
    }
}

/// Strings of 64 bytes with the same two words are the same string.
proof fn lemma_two_words_injective(a: Seq<u8>, b: Seq<u8>)
    requires
        a.len() == 64,
        b.len() == 64,
        word(a, 0) == word(b, 0),
        word(a, 1) == word(b, 1),
    ensures
        a == b,
{
    lemma_le_value_injective(a.subrange(0, 32), b.subrange(0, 32));
    lemma_le_value_injective(a.subrange(32, 64), b.subrange(32, 64));
    assert(a =~= a.subrange(0, 32) + a.subrange(32, 64));
    assert(b =~= b.subrange(0, 32) + b.subrange(32, 64));
}

/// Compression undoes decompression in G2: where 64 bytes decompress, compressing the point
/// gives the bytes back. Left out is an infinity flag beside further bits, which are lost.
#[verifier::rlimit(30)]
pub proof fn law_g2_decompress_round_trip(c: Seq<u8>, s: Seq<u8>)
    requires
        c.len() == 64,
        g2_decompressed(c, Ok(s)),
        flags(word(c, 1)) == 1 ==> word(c, 0) == 0 && unflagged(word(c, 1)) == 0,
    ensures
        g2_compressed(s) == c,
{
    law_compress_infinity();
    lemma_zeros_off_curve();
    lemma_word_parts(c, 1);
    let p = choose|p: G2Value| #[trigger] g2_decompresses_to(c, Some(p)) && s == g2_bytes(p);
    if let G2Value::Affine { x, y } = p {
        let larger = flags(word(c, 1)) == 2;
        assert(g2_root(x, y, larger));
        lemma_g2_y_nonzero(x, y);
        lemma_g2_operand_bytes(p);
        lemma_four_words(x, y);
        law_g2_compress_encoding(s);
        lemma_word_parts(g2_compressed(s), 1);
        law_g2_sign(y);
        lemma_two_words_injective(g2_compressed(s), c);
    } else {
        let i = with_flag(zeros(64), 0x40);
        lemma_word_parts(i, 1);
        lemma_two_words_injective(i, c);
    }
}

/// What a successful answer consists of.
proof fn lemma_g2_decompress_on_curve(c: Seq<u8>, r: Result<Seq<u8>, AltBn128Error>)
    requires
        g2_decompressed(c, r),
    ensures
        r is Ok ==> exists|p: G2Value| #[trigger]
            g2_decompresses_to(c, Some(p)) && r->Ok_0 == g2_bytes(p) && g2_on_curve(p) && (p matches
                G2Value::Affine { x, y } ==> g2_root(x, y, flags(word(c, 1)) == 2)),
{
    if let Ok(s) = r {
        let p = choose|p: G2Value| #[trigger] g2_decompresses_to(c, Some(p)) && s == g2_bytes(p);
        if let G2Value::Affine { x, y } = p {
            let larger = flags(word(c, 1)) == 2;
            assert(g2_root(x, y, larger));
        }
    }
}

/// Decompression has one answer.
pub proof fn law_g2_decompress_unique(
    c: Seq<u8>,
    r: Result<Seq<u8>, AltBn128Error>,
    t: Result<Seq<u8>, AltBn128Error>,
)
    requires
        g2_decompressed(c, r),
        g2_decompressed(c, t),
    ensures
        r == t,
{
    lemma_g2_decompress_on_curve(c, r);
    lemma_g2_decompress_on_curve(c, t);
}

/// A decompressed G2 point is on the curve: its bytes stand for a point of the G2 curve,
/// without flags.
pub proof fn law_g2_decompress_on_curve(c: Seq<u8>, s: Seq<u8>)
    requires
        g2_decompressed(c, Ok(s)),
    ensures
        s.len() == 128,
        g2_operand_on_curve(s) is Some,
        flags(word(s, 3)) == 0,
{
    lemma_zeros_off_curve();
    lemma_g2_decompress_on_curve(c, Ok(s));
    let p = choose|p: G2Value| #[trigger]
        g2_decompresses_to(c, Some(p)) && s == g2_bytes(p) && g2_on_curve(p);
    if let G2Value::Affine { x, y } = p {
        lemma_g2_operand_bytes(p);
        lemma_four_words(x, y);
    }
}

} // verus!

//! The byte formats: 32-byte little-endian coordinates side by side for a whole
//! point, and the `x` coordinate with two flag bits on top for a compressed one.
//! The modulus has 254 bits, so the two top bits of the last byte are free to hold
//! flags: bit 7 marks the larger of the two `y` over an `x`, bit 6 the point at
//! infinity.
use vstd::prelude::*;

#[allow(unused_imports)]
use crate::bytes::{
    le_bytes, le_value, lemma_le_bytes_of_value, lemma_le_value_bound, lemma_le_value_zero,
    lemma_radix_32, lemma_value_of_le_bytes, zeros,
};
#[allow(unused_imports)]
use crate::curve::{
    g1_equation, g1_on_curve, g2_equation, g2_in_subgroup, g2_on_curve, group_order,
    lemma_g2_times_infinity,
};
use crate::curve::{G1Value, G2Value};
#[allow(unused_imports)]
use crate::field::{fq2_le, fq2_neg, fq2_reduced, fq_neg, q, word_count};
use crate::field::Fq2Value;

verus! {

/// The weight of the lower flag bit in a 256-bit word.
pub open spec fn flag_unit() -> nat {
    0x4000000000000000000000000000000000000000000000000000000000000000nat
}

/// The two flag bits of a word: 0 for none, 1 for infinity, 2 for the larger `y`.
pub open spec fn flags(w: nat) -> nat {
    w / flag_unit()
}

/// A word without its flag bits.
pub open spec fn unflagged(w: nat) -> nat {
    w % flag_unit()
}

/// The 32-byte word at position `i` of a byte string.
pub open spec fn word(s: Seq<u8>, i: int) -> nat {
    le_value(s.subrange(32 * i, 32 * i + 32))
}

/// The uncompressed bytes of a G1 point.
pub open spec fn g1_bytes(p: G1Value) -> Seq<u8> {
    match p {
        G1Value::Infinity => zeros(64),
        G1Value::Affine { x, y } => le_bytes(x, 32) + le_bytes(y, 32),
    }
}

/// The bytes of an `Fq2` element.
pub open spec fn fq2_bytes(a: Fq2Value) -> Seq<u8> {
    le_bytes(a.c0, 32) + le_bytes(a.c1, 32)
}

/// The uncompressed bytes of a G2 point.
pub open spec fn g2_bytes(p: G2Value) -> Seq<u8> {
    match p {
        G2Value::Infinity => zeros(128),
        G2Value::Affine { x, y } => fq2_bytes(x) + fq2_bytes(y),
    }
}

/// The candidate point that 64 bytes encode. Unreduced coordinates and both flags
/// at once are refused; the flag for the larger `y` says nothing here.
pub open spec fn g1_parse(s: Seq<u8>) -> Option<G1Value> {
    let x = word(s, 0);
    let y = unflagged(word(s, 1));
    let f = flags(word(s, 1));
    if x >= q() || y >= q() || f == 3 {
        None
    } else if f == 1 {
        Some(G1Value::Infinity)
    } else {
        Some(G1Value::Affine { x, y })
    }
}

/// The G1 point that 64 bytes encode, if they encode one. All of the curve is in
/// the prime-order group.
pub open spec fn g1_decode(s: Seq<u8>) -> Option<G1Value> {
    match g1_parse(s) {
        Some(p) => if g1_on_curve(p) {
            Some(p)
        } else {
            None
        },
        None => None,
    }
}

/// The candidate point that 128 bytes encode, with flags on the last coordinate.
pub open spec fn g2_parse(s: Seq<u8>) -> Option<G2Value> {
    let x = Fq2Value { c0: word(s, 0), c1: word(s, 1) };
    let y = Fq2Value { c0: word(s, 2), c1: unflagged(word(s, 3)) };
    let f = flags(word(s, 3));
    if !fq2_reduced(x) || !fq2_reduced(y) || f == 3 {
        None
    } else if f == 1 {
        Some(G2Value::Infinity)
    } else {
        Some(G2Value::Affine { x, y })
    }
}

/// The point of the G2 curve that 128 bytes encode, in the subgroup or not.
pub open spec fn g2_decode_on_curve(s: Seq<u8>) -> Option<G2Value> {
    match g2_parse(s) {
        Some(p) => if g2_on_curve(p) {
            Some(p)
        } else {
            None
        },
        None => None,
    }
}

/// The G2 point that 128 bytes encode: on the curve and in the prime-order subgroup.
pub open spec fn g2_decode(s: Seq<u8>) -> Option<G2Value> {
    match g2_decode_on_curve(s) {
        Some(p) => if g2_in_subgroup(p) {
            Some(p)
        } else {
            None
        },
        None => None,
    }
}

/// The G1 point that an operand stands for, if it stands for one: all zeros is the point at
/// infinity, as in a result.
pub open spec fn g1_operand(s: Seq<u8>) -> Option<G1Value> {
    if s == zeros(64) {
        Some(G1Value::Infinity)
    } else {
        g1_decode(s)
    }
}

/// The point of the G2 curve that an operand stands for, in the subgroup or not: all zeros is
/// the point at infinity, as in a result.
pub open spec fn g2_operand_on_curve(s: Seq<u8>) -> Option<G2Value> {
    if s == zeros(128) {
        Some(G2Value::Infinity)
    } else {
        g2_decode_on_curve(s)
    }
}

/// The G2 point that an operand stands for: all zeros is the point at infinity, as in a
/// result.
pub open spec fn g2_operand(s: Seq<u8>) -> Option<G2Value> {
    if s == zeros(128) {
        Some(G2Value::Infinity)
    } else {
        g2_decode(s)
    }
}

/// `y` completes `x` to a point of the G1 curve, and is the larger or the smaller of
/// itself and its negation, as `larger` says.
pub open spec fn g1_root(x: nat, y: nat, larger: bool) -> bool {
    &&& y < q()
    &&& g1_equation(x, y)
    &&& if larger {
        fq_neg(y) <= y
    } else {
        y <= fq_neg(y)
    }
}

/// `y` completes `x` to a point of the G2 curve, and is the larger or the smaller of
/// itself and its negation, as `larger` says.
pub open spec fn g2_root(x: Fq2Value, y: Fq2Value, larger: bool) -> bool {
    &&& fq2_reduced(y)
    &&& g2_equation(x, y)
    &&& if larger {
        fq2_le(fq2_neg(y), y)
    } else {
        fq2_le(y, fq2_neg(y))
    }
}

/// `p` is the point that 32 compressed bytes stand for, `None` if they stand for none.
pub open spec fn g1_decompresses_to(s: Seq<u8>, p: Option<G1Value>) -> bool {
    let x = unflagged(le_value(s));
    let f = flags(le_value(s));
    let larger = f == 2;
    if x >= q() || f == 3 {
        p is None
    } else if f == 1 {
        p == Some(G1Value::Infinity)
    } else {
        match p {
            Some(G1Value::Affine { x: px, y }) => px == x && (forall|z: nat| #[trigger]
                g1_root(x, z, larger) <==> z == y),
            Some(G1Value::Infinity) => false,
            None => forall|z: nat| !#[trigger] g1_root(x, z, larger),
        }
    }
}

/// `p` is the point that 64 compressed bytes stand for, `None` if they stand for none.
pub open spec fn g2_decompresses_to(s: Seq<u8>, p: Option<G2Value>) -> bool {
    let x = Fq2Value { c0: word(s, 0), c1: unflagged(word(s, 1)) };
    let f = flags(word(s, 1));
    let larger = f == 2;
    if !fq2_reduced(x) || f == 3 {
        p is None
    } else if f == 1 {
        p == Some(G2Value::Infinity)
    } else {
        match p {
            Some(G2Value::Affine { x: px, y }) => px == x && (forall|z: Fq2Value| #[trigger]
                g2_root(x, z, larger) <==> z == y),
            Some(G2Value::Infinity) => false,
            None => forall|z: Fq2Value| !#[trigger] g2_root(x, z, larger),
        }
    }
}

/// The two flag bits leave the last byte of a string, `|` adds them back.
pub open spec fn with_flag(s: Seq<u8>, flag: u8) -> Seq<u8> {
    s.update(s.len() - 1, s[s.len() - 1] | flag)
}

/// The top word of `y` is one that negation keeps readable: it has no infinity flag, and
/// where it has the sign flag the rest is not zero.
pub open spec fn negatable(w: nat) -> bool {
    flags(w) != 1 && (flags(w) == 2 ==> unflagged(w) != 0)
}

/// The larger-`y` flag is due: `y` is above half of the field.
pub open spec fn above_half(y: nat) -> bool {
    y > (q() - 1) / 2
}

/// The compressed form of 64 bytes, whatever they are: `x`, with the sign of `y` on
/// top. All zeros is the point at infinity.
pub open spec fn g1_compressed(s: Seq<u8>) -> Seq<u8> {
    if s == zeros(64) {
        zeros(32).update(31, 0x40)
    } else if above_half(word(s, 1)) {
        with_flag(s.take(32), 0x80)
    } else {
        s.take(32)
    }
}

/// The leading component of the `y` of 128 bytes, which decides the sign.
pub open spec fn g2_leading(s: Seq<u8>) -> nat {
    if word(s, 3) == 0 {
        word(s, 2)
    } else {
        word(s, 3)
    }
}

/// The compressed form of 128 bytes, whatever they are: `x`, with the sign of `y` on
/// top. `c1` decides the sign unless it is zero.
pub open spec fn g2_compressed(s: Seq<u8>) -> Seq<u8> {
    if s == zeros(128) {
        zeros(64).update(63, 0x40)
    } else if above_half(g2_leading(s)) {
        with_flag(s.take(64), 0x80)
    } else {
        s.take(64)
    }
}

/// The word at a position that a 32-byte part fills.
pub proof fn lemma_word_of_part(before: Seq<u8>, n: nat, after: Seq<u8>, i: int)
    requires
        before.len() == 32 * i,
        n < word_count(),
    ensures
        word(before + le_bytes(n, 32) + after, i) == n,
{
    lemma_value_of_le_bytes(n, 32);
    lemma_radix_32();
    let s = before + le_bytes(n, 32) + after;
    assert(s.subrange(32 * i, 32 * i + 32) =~= le_bytes(n, 32));
}

/// A word is below `2^256`, and its flags and the rest make it up.
pub proof fn lemma_word_parts(s: Seq<u8>, i: int)
    requires
        0 <= i,
        32 * i + 32 <= s.len(),
    ensures
        word(s, i) < word_count(),
        word(s, i) == unflagged(word(s, i)) + flags(word(s, i)) * flag_unit(),
        flags(word(s, i)) <= 3,
        unflagged(word(s, i)) < flag_unit(),
        s.subrange(32 * i, 32 * i + 32) == le_bytes(word(s, i), 32),
{
    let part = s.subrange(32 * i, 32 * i + 32);
    lemma_le_value_bound(part);
    lemma_le_bytes_of_value(part);
    lemma_radix_32();
}

/// The words of 64 bytes.
pub proof fn lemma_two_words(a: nat, b: nat)
    requires
        a < word_count(),
        b < word_count(),
    ensures
        (le_bytes(a, 32) + le_bytes(b, 32)).len() == 64,
        word(le_bytes(a, 32) + le_bytes(b, 32), 0) == a,
        word(le_bytes(a, 32) + le_bytes(b, 32), 1) == b,
{
    let s = le_bytes(a, 32) + le_bytes(b, 32);
    lemma_value_of_le_bytes(a, 32);
    lemma_value_of_le_bytes(b, 32);
    lemma_word_of_part(Seq::empty(), a, le_bytes(b, 32), 0);
    lemma_word_of_part(le_bytes(a, 32), b, Seq::empty(), 1);
    assert(Seq::<u8>::empty() + le_bytes(a, 32) + le_bytes(b, 32) =~= s);
    assert(le_bytes(a, 32) + le_bytes(b, 32) + Seq::<u8>::empty() =~= s);
}

/// The words of 128 bytes.
pub proof fn lemma_four_words(x: Fq2Value, y: Fq2Value)
    requires
        x.c0 < word_count(),
        x.c1 < word_count(),
        y.c0 < word_count(),
        y.c1 < word_count(),
    ensures
        (fq2_bytes(x) + fq2_bytes(y)).len() == 128,
        word(fq2_bytes(x) + fq2_bytes(y), 0) == x.c0,
        word(fq2_bytes(x) + fq2_bytes(y), 1) == x.c1,
        word(fq2_bytes(x) + fq2_bytes(y), 2) == y.c0,
        word(fq2_bytes(x) + fq2_bytes(y), 3) == y.c1,
{
    let s = fq2_bytes(x) + fq2_bytes(y);
    lemma_two_words(x.c0, x.c1);
    lemma_two_words(y.c0, y.c1);
    assert(s.subrange(0, 32) =~= fq2_bytes(x).subrange(0, 32));
    assert(s.subrange(32, 64) =~= fq2_bytes(x).subrange(32, 64));
    assert(s.subrange(64, 96) =~= fq2_bytes(y).subrange(0, 32));
    assert(s.subrange(96, 128) =~= fq2_bytes(y).subrange(32, 64));
}

/// All zeros are the coordinates of no finite point: the origin lies on neither curve.
pub proof fn lemma_zeros_off_curve()
    ensures
        g1_decode(zeros(64)) is None,
        g2_decode_on_curve(zeros(128)) is None,
        word(zeros(64), 1) == 0,
        word(zeros(128), 2) == 0,
        word(zeros(128), 3) == 0,
{
    lemma_le_value_zero(zeros(32));
    assert(zeros(64).subrange(0, 32) =~= zeros(32));
    assert(zeros(64).subrange(32, 64) =~= zeros(32));
    assert(zeros(128).subrange(0, 32) =~= zeros(32));
    assert(zeros(128).subrange(32, 64) =~= zeros(32));
    assert(zeros(128).subrange(64, 96) =~= zeros(32));
    assert(zeros(128).subrange(96, 128) =~= zeros(32));
}

/// The bytes of a point of the G1 curve stand for that point.
pub proof fn lemma_g1_operand_bytes(p: G1Value)
    requires
        g1_on_curve(p),
    ensures
        g1_operand(g1_bytes(p)) == Some(p),
        p is Affine ==> g1_decode(g1_bytes(p)) == Some(p),
{
    lemma_zeros_off_curve();
    if let G1Value::Affine { x, y } = p {
        lemma_two_words(x, y);
    }
}

/// The bytes of a point of the G2 curve stand for that point.
pub proof fn lemma_g2_operand_bytes(p: G2Value)
    requires
        g2_on_curve(p),
    ensures
        g2_operand_on_curve(g2_bytes(p)) == Some(p),
        g2_in_subgroup(p) ==> g2_operand(g2_bytes(p)) == Some(p),
        p is Affine ==> g2_decode_on_curve(g2_bytes(p)) == Some(p),
{
    lemma_zeros_off_curve();
    if let G2Value::Affine { x, y } = p {
        lemma_four_words(x, y);
    }
}

/// What an operand of G2 stands for lies on the curve and in the subgroup.
pub proof fn lemma_g2_operand(s: Seq<u8>)
    ensures
        g2_operand(s) is Some <==> g2_operand_on_curve(s) is Some && g2_in_subgroup(
            g2_operand_on_curve(s)->Some_0,
        ),
        g2_operand(s) is Some ==> g2_operand(s) == g2_operand_on_curve(s),
{
    lemma_g2_times_infinity(group_order());
}

} // verus!

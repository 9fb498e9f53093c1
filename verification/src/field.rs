//! The BN254 base field `Fq` and its quadratic extension `Fq2 = Fq[u]/(u^2 + 1)`:
//! the arithmetic as integers modulo `q`, the elements as four 64-bit limbs, and
//! the two operations that work on an element's 32 little-endian bytes.
use vstd::prelude::*;

use crate::bytes::{cut, is_all_zero};
#[allow(unused_imports)]
use crate::bytes::{
    le_value, lemma_le_value_bound, lemma_le_value_concat, lemma_le_value_take_next,
    lemma_le_value_zero, lemma_radix_32, radix,
};

verus! {

/// The base field modulus.
pub open spec fn q() -> nat {
    0x30644e72e131a029b85045b68181585d97816a916871ca8d3c208c16d87cfd47nat
}

/// The number of 256-bit words.
pub open spec fn word_count() -> nat {
    0x1_0000_0000_0000_0000_0000_0000_0000_0000_0000_0000_0000_0000_0000_0000_0000_0000nat
}

/// The representative of `n` modulo `q`.
pub open spec fn fq(n: int) -> nat {
    (n % (q() as int)) as nat
}

/// The additive inverse of a reduced element.
pub open spec fn fq_neg(c: nat) -> nat {
    if c == 0 {
        0
    } else {
        (q() - c) as nat
    }
}

/// `i` is the reduced inverse of `d`.
pub open spec fn is_fq_inverse(i: nat, d: int) -> bool {
    i < q() && fq(i * d) == 1
}

/// The reduced inverse of `d`, zero where there is none.
pub open spec fn fq_inv(d: int) -> nat {
    if exists|i: nat| is_fq_inverse(i, d) {
        choose|i: nat| is_fq_inverse(i, d)
    } else {
        0
    }
}

/// The reduced quotient of `n` by `d`.
pub open spec fn fq_div(n: int, d: int) -> nat {
    fq(n * fq_inv(d))
}

/// An element `c0 + c1 * u` of the quadratic extension.
pub struct Fq2Value {
    pub c0: nat,
    pub c1: nat,
}

/// Both coefficients are reduced.
pub open spec fn fq2_reduced(a: Fq2Value) -> bool {
    a.c0 < q() && a.c1 < q()
}

pub open spec fn fq2_add(a: Fq2Value, b: Fq2Value) -> Fq2Value {
    Fq2Value { c0: fq((a.c0 + b.c0) as int), c1: fq((a.c1 + b.c1) as int) }
}

pub open spec fn fq2_sub(a: Fq2Value, b: Fq2Value) -> Fq2Value {
    Fq2Value { c0: fq(a.c0 - b.c0), c1: fq(a.c1 - b.c1) }
}

/// The product under `u^2 = -1`.
pub open spec fn fq2_mul(a: Fq2Value, b: Fq2Value) -> Fq2Value {
    Fq2Value { c0: fq(a.c0 * b.c0 - a.c1 * b.c1), c1: fq((a.c0 * b.c1 + a.c1 * b.c0) as int) }
}

pub open spec fn fq2_neg(a: Fq2Value) -> Fq2Value {
    Fq2Value { c0: fq_neg(a.c0), c1: fq_neg(a.c1) }
}

/// The order on `Fq2` in which `c1` leads.
pub open spec fn fq2_le(a: Fq2Value, b: Fq2Value) -> bool {
    a.c1 < b.c1 || (a.c1 == b.c1 && a.c0 <= b.c0)
}

/// The inverse, by the norm: `1 / (a + b * u) = (a - b * u) / (a^2 + b^2)`.
pub open spec fn fq2_inv(d: Fq2Value) -> Fq2Value {
    let n = fq_inv(fq((d.c0 * d.c0 + d.c1 * d.c1) as int) as int);
    Fq2Value { c0: fq((d.c0 * n) as int), c1: fq_neg(fq((d.c1 * n) as int)) }
}

/// The reduced quotient of `n` by `d`.
pub open spec fn fq2_div(n: Fq2Value, d: Fq2Value) -> Fq2Value {
    fq2_mul(n, fq2_inv(d))
}

/// The integer that four 64-bit limbs stand for, the lowest limb first.
pub open spec fn limbs_value(limbs: Seq<u64>) -> nat {
    (limbs[0] + 0x1_0000_0000_0000_0000int * limbs[1]
        + 0x1_0000_0000_0000_0000_0000_0000_0000_0000int * limbs[2]
        + 0x1_0000_0000_0000_0000_0000_0000_0000_0000_0000_0000_0000_0000int * limbs[3]) as nat
}

/// A base field element, as little-endian limbs.
#[derive(Clone, Copy, Debug)]
pub struct Fq {
    pub limbs: [u64; 4],
}

impl View for Fq {
    type V = nat;

    open spec fn view(&self) -> nat {
        limbs_value(self.limbs@)
    }
}

impl Fq {
    /// The limbs hold the reduced representative.
    pub open spec fn wf(&self) -> bool {
        self@ < q()
    }
}

/// An element `c0 + c1 * u` of the quadratic extension.
#[derive(Clone, Copy, Debug)]
pub struct Fq2 {
    pub c0: Fq,
    pub c1: Fq,
}

impl View for Fq2 {
    type V = Fq2Value;

    open spec fn view(&self) -> Fq2Value {
        Fq2Value { c0: self.c0@, c1: self.c1@ }
    }
}

impl Fq2 {
    /// Both coefficients hold the reduced representative.
    pub open spec fn wf(&self) -> bool {
        self.c0.wf() && self.c1.wf()
    }
}

/// The base field modulus `q`, little-endian.
pub(crate) const FIELD_MODULUS_LE: [u8; 32] = [
    0x47, 0xfd, 0x7c, 0xd8, 0x16, 0x8c, 0x20, 0x3c, 0x8d, 0xca, 0x71, 0x68, 0x91, 0x6a, 0x81, 0x97,
    0x5d, 0x58, 0x81, 0x81, 0xb6, 0x45, 0x50, 0xb8, 0x29, 0xa0, 0x31, 0xe1, 0x72, 0x4e, 0x64, 0x30,
];

/// `(q - 1) / 2`, little-endian. An element above it is the larger of itself and
/// its negation.
pub(crate) const HALF_Q_MINUS_1: [u8; 32] = [
    0xa3, 0x7e, 0x3e, 0x6c, 0x0b, 0x46, 0x10, 0x9e, 0x46, 0xe5, 0x38, 0xb4, 0x48, 0xb5, 0xc0, 0xcb,
    0x2e, 0xac, 0xc0, 0x40, 0xdb, 0x22, 0x28, 0xdc, 0x14, 0xd0, 0x98, 0x70, 0x39, 0x27, 0x32, 0x18,
];

proof fn lemma_modulus_value()
    ensures
        le_value(FIELD_MODULUS_LE@) == q(),
{
    lemma_horner(FIELD_MODULUS_LE@, 0);
    assert(FIELD_MODULUS_LE@.skip(0) =~= FIELD_MODULUS_LE@);
    reveal_with_fuel(horner, 33);
}

proof fn lemma_half_value()
    ensures
        le_value(HALF_Q_MINUS_1@) == (q() - 1) / 2,
{
    lemma_horner(HALF_Q_MINUS_1@, 0);
    assert(HALF_Q_MINUS_1@.skip(0) =~= HALF_Q_MINUS_1@);
    reveal_with_fuel(horner, 33);
}

/// The value of the bytes from `i` on, by Horner's rule.
spec fn horner(s: Seq<u8>, i: nat) -> nat
    decreases s.len() - i,
{
    if i >= s.len() {
        0
    } else {
        s[i as int] as nat + 256 * horner(s, i + 1)
    }
}

proof fn lemma_horner(s: Seq<u8>, i: nat)
    requires
        i <= s.len(),
    ensures
        le_value(s.skip(i as int)) == horner(s, i),
    decreases s.len() - i,
{
    if i < s.len() {
        lemma_horner(s, i + 1);
        assert(s.skip(i as int).drop_first() =~= s.skip(i as int + 1));
    }
}

/// What bytewise negation makes of a 256-bit word: a reduced element goes to its
/// additive inverse; a word above `q` wraps around.
pub open spec fn negated_word(c: nat) -> nat {
    if c == 0 {
        0
    } else if c <= q() {
        (q() - c) as nat
    } else {
        (q() + word_count() - c) as nat
    }
}

/// One step of the subtraction with borrow, scaled to its position.
proof fn lemma_borrow_step(o: nat, c: nat, m: nat, b: nat, b2: nat, r: nat)
    requires
        o + c + b == m + 256 * b2,
    ensures
        o * r + c * r + b * r == m * r + b2 * (256 * r),
{
    assert((o + c + b) * r == o * r + c * r + b * r) by (nonlinear_arith);
    assert((m + 256 * b2) * r == m * r + b2 * (256 * r)) by (nonlinear_arith);
}

/// Negate a little-endian element: `c -> q - c`, with zero mapped to itself (`q - 0`
/// would be an unreduced encoding).
pub fn negate_fq(limb: [u8; 32]) -> (r: [u8; 32])
    ensures
        le_value(r@) == negated_word(le_value(limb@)),
{
    if is_all_zero(&limb) {
        proof {
            lemma_le_value_zero(limb@);
        }
        return limb;
    }
    let mut out = [0u8; 32];
    let mut borrow: u16 = 0;
    let mut j: usize = 0;
    proof {
        assert(out@.take(0) =~= Seq::<u8>::empty());
        assert(limb@.take(0) =~= Seq::<u8>::empty());
        assert(FIELD_MODULUS_LE@.take(0) =~= Seq::<u8>::empty());
    }
    while j < 32
        invariant
            j <= 32,
            borrow <= 1,
            le_value(out@.take(j as int)) + le_value(limb@.take(j as int)) == le_value(
                FIELD_MODULUS_LE@.take(j as int),
            ) + borrow as nat * radix(j as nat),
        decreases 32 - j,
    {
        let ghost before = out@;
        let ghost carried = borrow as nat;
        let diff: u16 = FIELD_MODULUS_LE[j] as u16 + 256 - limb[j] as u16 - borrow;
        out[j] = (diff % 256) as u8;
        borrow = 1 - diff / 256;
        proof {
            assert(out@.take(j as int) =~= before.take(j as int));
            lemma_le_value_take_next(out@, j as int);
            lemma_le_value_take_next(limb@, j as int);
            lemma_le_value_take_next(FIELD_MODULUS_LE@, j as int);
            lemma_borrow_step(
                out@[j as int] as nat,
                limb@[j as int] as nat,
                FIELD_MODULUS_LE@[j as int] as nat,
                carried,
                borrow as nat,
                radix(j as nat),
            );
        }
        j += 1;
    }
    proof {
        assert(out@.take(32) =~= out@);
        assert(limb@.take(32) =~= limb@);
        assert(FIELD_MODULUS_LE@.take(32) =~= FIELD_MODULUS_LE@);
        lemma_modulus_value();
        lemma_radix_32();
        lemma_le_value_zero(limb@);
        lemma_le_value_bound(out@);
        lemma_le_value_bound(limb@);
    }
    out
}

/// `true` iff the little-endian word is above `(q - 1) / 2`.
pub fn fq_gt_half(limb: &[u8; 32]) -> (r: bool)
    ensures
        r == (le_value(limb@) > (q() - 1) / 2),
{
    let mut i: usize = 32;
    proof {
        lemma_half_value();
    }
    while i > 0
        invariant
            i <= 32,
            le_value(HALF_Q_MINUS_1@) == (q() - 1) / 2,
            limb@.skip(i as int) == HALF_Q_MINUS_1@.skip(i as int),
        decreases i,
    {
        i -= 1;
        if limb[i] != HALF_Q_MINUS_1[i] {
            proof {
                lemma_leading_byte(limb@, HALF_Q_MINUS_1@, i as int);
            }
            return limb[i] > HALF_Q_MINUS_1[i];
        }
        assert(limb@.skip(i as int) =~= HALF_Q_MINUS_1@.skip(i as int)) by {
            assert forall|k: int| 0 <= k < 32 - i implies limb@.skip(i as int)[k]
                == HALF_Q_MINUS_1@.skip(i as int)[k] by {
                if k > 0 {
                    assert(limb@.skip(i + 1)[k - 1] == HALF_Q_MINUS_1@.skip(i + 1)[k - 1]);
                }
            }
        }
    }
    proof {
        assert(limb@.skip(0) =~= limb@);
        assert(HALF_Q_MINUS_1@.skip(0) =~= HALF_Q_MINUS_1@);
    }
    false
}

/// The highest byte in which two strings differ orders their values.
proof fn lemma_leading_byte(a: Seq<u8>, b: Seq<u8>, i: int)
    requires
        a.len() == b.len(),
        0 <= i < a.len(),
        a.skip(i + 1) == b.skip(i + 1),
        a[i] != b[i],
    ensures
        (le_value(a) > le_value(b)) == (a[i] > b[i]),
        le_value(a) != le_value(b),
{
    lemma_le_value_take_next(a, i);
    lemma_le_value_take_next(b, i);
    assert(a =~= a.take(i + 1) + a.skip(i + 1));
    assert(b =~= b.take(i + 1) + b.skip(i + 1));
    lemma_le_value_concat(a.take(i + 1), a.skip(i + 1));
    lemma_le_value_concat(b.take(i + 1), b.skip(i + 1));
    let r = radix(i as nat);
    let (x, y) = (a[i] as nat, b[i] as nat);
    if x > y {
        assert(x * r >= y * r + r) by (nonlinear_arith)
            requires
                x >= y + 1,
        ;
    } else {
        assert(y * r >= x * r + r) by (nonlinear_arith)
            requires
                y >= x + 1,
        ;
    }
}

/// Eight little-endian bytes as one limb.
fn limb_value(bytes: &[u8; 8]) -> (r: u64)
    ensures
        r as nat == le_value(bytes@),
{
    let mut v: u64 = 0;
    let mut i: usize = 8;
    assert(bytes@.skip(8) =~= Seq::<u8>::empty());
    while i > 0
        invariant
            i <= 8,
            v as nat == le_value(bytes@.skip(i as int)),
        decreases i,
    {
        i -= 1;
        proof {
            assert(bytes@.skip(i as int).drop_first() =~= bytes@.skip(i + 1));
            lemma_le_value_bound(bytes@.skip(i as int));
            lemma_radix_le_8((8 - i) as nat);
        }
        v = v * 256 + bytes[i] as u64;
    }
    assert(bytes@.skip(0) =~= bytes@);
    v
}

proof fn lemma_radix_le_8(k: nat)
    requires
        k <= 8,
    ensures
        radix(k) <= 0x1_0000_0000_0000_0000,
{
    reveal_with_fuel(radix, 9);
}

/// Eight bytes below further ones: the upper part counts in units of `2^64`.
proof fn lemma_join_words(low: Seq<u8>, high: Seq<u8>)
    requires
        low.len() == 8,
    ensures
        le_value(low + high) == le_value(low) + 0x1_0000_0000_0000_0000 * le_value(high),
{
    lemma_le_value_concat(low, high);
    reveal_with_fuel(radix, 9);
    let v = le_value(high);
    assert(radix(8) * v == 0x1_0000_0000_0000_0000 * v) by (nonlinear_arith)
        requires
            radix(8) == 0x1_0000_0000_0000_0000,
    ;
}

/// Thirty-two little-endian bytes as four limbs.
pub fn limbs_from_le_bytes(bytes: &[u8; 32]) -> (r: [u64; 4])
    ensures
        limbs_value(r@) == le_value(bytes@),
{
    let b0: [u8; 8] = cut(bytes, 0);
    let b1: [u8; 8] = cut(bytes, 8);
    let b2: [u8; 8] = cut(bytes, 16);
    let b3: [u8; 8] = cut(bytes, 24);
    proof {
        lemma_join_words(b0@, b1@ + (b2@ + b3@));
        lemma_join_words(b1@, b2@ + b3@);
        lemma_join_words(b2@, b3@);
        assert(bytes@ =~= b0@ + (b1@ + (b2@ + b3@)));
    }
    let limbs: [u64; 4] = [limb_value(&b0), limb_value(&b1), limb_value(&b2), limb_value(&b3)];
    limbs
}

} // verus!

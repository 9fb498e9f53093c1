//! BN254 group operations over the **little-endian** wire format used by the Solana
//! SVM: G1 and G2 point add / sub / scalar-mul, plus the multi-pairing check.
//!
//! The runtime has no subtraction for either group, so `a - b` is computed as
//! `a + (-b)`: the negation of a point only replaces its `y` by `q - y`, one field
//! element at a time. All zeros is the point at infinity, in results and as an operand.
use vstd::prelude::*;

use crate::arkworks::{
    fq2_serialize_uncompressed, fq_serialize_uncompressed, g1_affine_add, g1_affine_mul,
    g1_deserialize_uncompressed, g2_affine_add, g2_affine_is_on_curve, g2_affine_mul,
    g2_deserialize_uncompressed, g2_deserialize_uncompressed_unchecked, multi_pairing,
};
#[allow(unused_imports)]
use crate::arkworks::{
    all_are, fq_values, g1_total, g1_values, g2_values, is_reordering, pairing_product, reordered,
    target_one,
};
use crate::bytes::{cut, is_all_zero, put, same_bytes};
#[allow(unused_imports)]
use crate::bytes::{
    le_bytes, le_value, lemma_le_bytes_of_value, lemma_le_bytes_zero, lemma_le_value_zero, zeros,
};
use crate::curve::{G1Affine, G2Affine};
#[allow(unused_imports)]
use crate::curve::{
    g1_sum, g1_times, g2_in_subgroup, g2_on_curve, g2_sum, g2_times, G1Value, G2Value,
};
use crate::errors::AltBn128Error;
use crate::field::{limbs_from_le_bytes, negate_fq, Fq, Fq2};
#[allow(unused_imports)]
use crate::field::negated_word;
#[allow(unused_imports)]
use crate::group_law::{
    lemma_g1_sum, lemma_g1_times_on_curve, lemma_g2_sum, lemma_g2_times_on_curve,
};
#[allow(unused_imports)]
use crate::laws::law_g2_negate_decodes;
#[allow(unused_imports)]
use crate::wire::{
    g1_bytes, g1_operand, g2_bytes, g2_operand, g2_operand_on_curve, lemma_g1_operand_bytes,
    lemma_g2_operand, lemma_g2_operand_bytes, negatable, word,
};

verus! {

/// A 256-bit scalar for G1 scalar multiplication, little-endian.
pub type G1Scalar = [u8; 32];

/// A 256-bit scalar for G2 scalar multiplication, little-endian.
pub type G2Scalar = [u8; 32];

/// A G1 point in compressed form: the 32-byte x-coordinate plus a y-sign bit.
pub type G1CompressedPoint = [u8; 32];

/// A G2 point in compressed form: the 64-byte `Fq2` x-coordinate plus a y-sign bit.
pub type G2CompressedPoint = [u8; 64];

/// Set on the operation selector to request the little-endian variant of the syscall.
/// The SVM wire format is little-endian end-to-end.
pub const LE_FLAG: u64 = 0x80;

/// G1 point addition (little-endian operands).
pub const ALT_BN128_ADD: u64 = LE_FLAG;

/// G1 scalar multiplication (little-endian operands).
pub const ALT_BN128_MUL: u64 = 0x02 | LE_FLAG;

/// Multi-pairing check (little-endian operands).
pub const ALT_BN128_PAIRING: u64 = 0x03 | LE_FLAG;

/// G2 point addition (little-endian operands).
pub const ALT_BN128_G2_ADD: u64 = 0x04 | LE_FLAG;

/// G2 scalar multiplication (little-endian operands).
pub const ALT_BN128_G2_MUL: u64 = 0x06 | LE_FLAG;

/// A G1 point in the SVM little-endian uncompressed encoding: `x || y`, each a 32-byte
/// little-endian `Fq` element.
#[derive(Clone, Copy, Debug)]
pub struct G1Point(pub [u8; 64]);

/// A G2 point in the SVM little-endian uncompressed encoding:
/// `x.c0 || x.c1 || y.c0 || y.c1`, each a 32-byte little-endian `Fq` element.
#[derive(Clone, Copy, Debug)]
pub struct G2Point(pub [u8; 128]);

impl View for G1Point {
    type V = Seq<u8>;

    open spec fn view(&self) -> Seq<u8> {
        self.0@
    }
}

impl View for G2Point {
    type V = Seq<u8>;

    open spec fn view(&self) -> Seq<u8> {
        self.0@
    }
}

/// The point that holds the given 64 bytes.
pub open spec fn g1_point(s: Seq<u8>) -> G1Point {
    choose|p: G1Point| p@ == s
}

/// The point that holds the given 128 bytes.
pub open spec fn g2_point(s: Seq<u8>) -> G2Point {
    choose|p: G2Point| p@ == s
}

/// A point is determined by its bytes.
pub proof fn lemma_g1_point(p: G1Point)
    ensures
        g1_point(p@) == p,
{
    assert(g1_point(p@).0 =~= p.0);
}

/// A point is determined by its bytes.
pub proof fn lemma_g2_point(p: G2Point)
    ensures
        g2_point(p@) == p,
{
    assert(g2_point(p@).0 =~= p.0);
}

/// The bytes of the point in a result.
pub open spec fn g1_outcome(r: Result<G1Point, AltBn128Error>) -> Result<Seq<u8>, AltBn128Error> {
    match r {
        Ok(p) => Ok(p@),
        Err(e) => Err(e),
    }
}

/// The bytes of the point in a result.
pub open spec fn g2_outcome(r: Result<G2Point, AltBn128Error>) -> Result<Seq<u8>, AltBn128Error> {
    match r {
        Ok(p) => Ok(p@),
        Err(e) => Err(e),
    }
}

// ---- What the operations do to the bytes -----------------------------------

/// 64 bytes with `y` negated.
pub open spec fn g1_negated(s: Seq<u8>) -> Seq<u8> {
    s.take(32) + le_bytes(negated_word(word(s, 1)), 32)
}

/// 128 bytes with both components of `y` negated.
pub open spec fn g2_negated(s: Seq<u8>) -> Seq<u8> {
    s.take(64) + le_bytes(negated_word(word(s, 2)), 32) + le_bytes(negated_word(word(s, 3)), 32)
}

/// The sum of two operands; an error unless both stand for a point of G1.
pub open spec fn g1_added(a: Seq<u8>, b: Seq<u8>) -> Result<Seq<u8>, AltBn128Error> {
    match (g1_operand(a), g1_operand(b)) {
        (Some(p), Some(r)) => Ok(g1_bytes(g1_sum(p, r))),
        _ => Err(AltBn128Error::GroupError),
    }
}

/// The multiple of an operand; an error unless it stands for a point of G1.
pub open spec fn g1_multiplied(p: Seq<u8>, scalar: Seq<u8>) -> Result<Seq<u8>, AltBn128Error> {
    match g1_operand(p) {
        Some(p) => Ok(g1_bytes(g1_times(le_value(scalar), p))),
        None => Err(AltBn128Error::GroupError),
    }
}

/// The sum of two operands; an error unless both stand for a point of the G2 curve.
/// Neither need be in the prime-order subgroup.
pub open spec fn g2_added(a: Seq<u8>, b: Seq<u8>) -> Result<Seq<u8>, AltBn128Error> {
    match (g2_operand_on_curve(a), g2_operand_on_curve(b)) {
        (Some(p), Some(r)) => Ok(g2_bytes(g2_sum(p, r))),
        _ => Err(AltBn128Error::GroupError),
    }
}

/// The multiple of an operand; an error unless it stands for a point of G2.
pub open spec fn g2_multiplied(p: Seq<u8>, scalar: Seq<u8>) -> Result<Seq<u8>, AltBn128Error> {
    match g2_operand(p) {
        Some(p) => Ok(g2_bytes(g2_times(le_value(scalar), p))),
        None => Err(AltBn128Error::GroupError),
    }
}

/// What comes of points of G1 is a point of G1: its bytes are a valid operand again.
pub open spec fn g1_closed(r: Result<Seq<u8>, AltBn128Error>) -> bool {
    r is Ok ==> g1_operand(r->Ok_0) is Some
}

/// What comes of points of the G2 curve is a point of that curve: its bytes are a valid
/// operand of an addition again.
pub open spec fn g2_closed_on_curve(r: Result<Seq<u8>, AltBn128Error>) -> bool {
    r is Ok ==> g2_operand_on_curve(r->Ok_0) is Some
}

/// What comes of points of G2 is a point of G2: its bytes are a valid operand again.
pub open spec fn g2_closed(r: Result<Seq<u8>, AltBn128Error>) -> bool {
    r is Ok ==> g2_operand(r->Ok_0) is Some
}

// ---- Negation ---------------------------------------------------------------

/// Negate a G1 point: `(x, y) -> (x, -y)`. The point at infinity (all zeros) is
/// preserved. `y` is the 32-byte `Fq` limb at `[32..64]`.
fn negate_g1(point: &G1Point) -> (r: G1Point)
    ensures
        r@ == g1_negated(point@),
{
    let y: [u8; 32] = cut(&point.0, 32);
    let ny = negate_fq(y);
    let out = put(point.0, 32, &ny);
    proof {
        lemma_le_bytes_of_value(ny@);
        assert(out@ =~= g1_negated(point@));
    }
    G1Point(out)
}

/// Negate a G2 point: `(x, y) -> (x, -y)`. `y = (y.c0, y.c1)` is the `Fq2` limb pair at
/// `[64..96]` and `[96..128]`; each `Fq` component is negated independently (either may
/// be zero on its own for a valid point). The point at infinity (all zeros) is
/// preserved.
fn negate_g2(point: &G2Point) -> (r: G2Point)
    ensures
        r@ == g2_negated(point@),
{
    let y0: [u8; 32] = cut(&point.0, 64);
    let y1: [u8; 32] = cut(&point.0, 96);
    let n0 = negate_fq(y0);
    let n1 = negate_fq(y1);
    let out = put(put(point.0, 64, &n0), 96, &n1);
    proof {
        lemma_le_bytes_of_value(n0@);
        lemma_le_bytes_of_value(n1@);
        assert(out@ =~= g2_negated(point@));
    }
    G2Point(out)
}

// ---- The operations behind the operators ------------------------------------

/// Write the coordinates of a G1 point side by side.
pub fn g1_encode(p: &G1Affine) -> (r: Result<G1Point, AltBn128Error>)
    requires
        p.wf(),
    ensures
        g1_outcome(r) == Ok::<Seq<u8>, AltBn128Error>(g1_bytes(p@)),
{
    let x = match fq_serialize_uncompressed(&p.x) {
        Ok(x) => x,
        Err(_) => return Err(AltBn128Error::GroupError),
    };
    let y = match fq_serialize_uncompressed(&p.y) {
        Ok(y) => y,
        Err(_) => return Err(AltBn128Error::GroupError),
    };
    let out: [u8; 64] = put(put([0u8; 64], 0, &x), 32, &y);
    proof {
        lemma_le_bytes_zero(32);
        assert(out@ =~= x@ + y@);
        assert(zeros(32) + zeros(32) =~= zeros(64));
    }
    Ok(G1Point(out))
}

/// Write the coordinates of a G2 point side by side.
pub fn g2_encode(p: &G2Affine) -> (r: Result<G2Point, AltBn128Error>)
    requires
        p.wf(),
    ensures
        g2_outcome(r) == Ok::<Seq<u8>, AltBn128Error>(g2_bytes(p@)),
{
    let x = match fq2_serialize_uncompressed(&p.x) {
        Ok(x) => x,
        Err(_) => return Err(AltBn128Error::GroupError),
    };
    let y = match fq2_serialize_uncompressed(&p.y) {
        Ok(y) => y,
        Err(_) => return Err(AltBn128Error::GroupError),
    };
    let out: [u8; 128] = put(put([0u8; 128], 0, &x), 64, &y);
    proof {
        lemma_le_bytes_zero(32);
        assert(out@ =~= x@ + y@);
        assert((zeros(32) + zeros(32)) + (zeros(32) + zeros(32)) =~= zeros(128));
    }
    Ok(G2Point(out))
}

/// Read a G1 operand: all zeros is the point at infinity, all else is for Arkworks to read.
fn g1_read(p: &G1Point) -> (r: Result<G1Affine, AltBn128Error>)
    ensures
        match r {
            Ok(v) => v.wf() && g1_operand(p@) == Some(v@),
            Err(e) => e == AltBn128Error::GroupError && g1_operand(p@) is None,
        },
{
    if is_all_zero(&p.0) {
        let zero = Fq { limbs: [0, 0, 0, 0] };
        return Ok(G1Affine { x: zero, y: zero, infinity: true });
    }
    match g1_deserialize_uncompressed(&p.0) {
        Ok(v) => Ok(v),
        Err(_) => Err(AltBn128Error::GroupError),
    }
}

/// The point at infinity of G2.
fn g2_infinity() -> (r: G2Affine)
    ensures
        r.wf() && r@ == G2Value::Infinity,
{
    let zero = Fq { limbs: [0, 0, 0, 0] };
    let zero = Fq2 { c0: zero, c1: zero };
    G2Affine { x: zero, y: zero, infinity: true }
}

/// Read a G2 operand, checking subgroup membership: all zeros is the point at infinity, all
/// else is for Arkworks to read.
fn g2_read(p: &G2Point) -> (r: Result<G2Affine, AltBn128Error>)
    ensures
        match r {
            Ok(v) => v.wf() && g2_operand(p@) == Some(v@),
            Err(e) => e == AltBn128Error::GroupError && g2_operand(p@) is None,
        },
{
    if is_all_zero(&p.0) {
        return Ok(g2_infinity());
    }
    match g2_deserialize_uncompressed(&p.0) {
        Ok(v) => Ok(v),
        Err(_) => Err(AltBn128Error::GroupError),
    }
}

fn g1_add(a: G1Point, b: G1Point) -> (r: Result<G1Point, AltBn128Error>)
    ensures
        g1_outcome(r) == g1_added(a@, b@),
        g1_closed(g1_outcome(r)),
{
    let a = match g1_read(&a) {
        Ok(p) => p,
        Err(e) => return Err(e),
    };
    let b = match g1_read(&b) {
        Ok(p) => p,
        Err(e) => return Err(e),
    };
    let c = g1_affine_add(&a, &b);
    proof {
        lemma_g1_sum(a@, b@);
        lemma_g1_operand_bytes(c@);
    }
    g1_encode(&c)
}

fn g1_sub(a: G1Point, b: G1Point) -> (r: Result<G1Point, AltBn128Error>)
    ensures
        g1_outcome(r) == g1_added(a@, g1_negated(b@)),
        g1_closed(g1_outcome(r)),
{
    g1_add(a, b.negate())
}

fn g1_mul(point: G1Point, scalar: G1Scalar) -> (r: Result<G1Point, AltBn128Error>)
    ensures
        g1_outcome(r) == g1_multiplied(point@, scalar@),
        g1_closed(g1_outcome(r)),
{
    let p = match g1_read(&point) {
        Ok(p) => p,
        Err(e) => return Err(e),
    };
    let c = g1_affine_mul(&p, limbs_from_le_bytes(&scalar));
    proof {
        lemma_g1_times_on_curve(le_value(scalar@), p@);
        lemma_g1_operand_bytes(c@);
    }
    g1_encode(&c)
}

/// Read a G2 operand, checking the curve equation but *not* subgroup membership: all zeros is
/// the point at infinity, all else is for Arkworks to read.
fn g2_deserialize_on_curve(p: &G2Point) -> (r: Result<G2Affine, AltBn128Error>)
    ensures
        match r {
            Ok(v) => v.wf() && g2_operand_on_curve(p@) == Some(v@),
            Err(e) => e == AltBn128Error::GroupError && g2_operand_on_curve(p@) is None,
        },
{
    if is_all_zero(&p.0) {
        return Ok(g2_infinity());
    }
    let point = match g2_deserialize_uncompressed_unchecked(&p.0) {
        Ok(point) => point,
        Err(_) => return Err(AltBn128Error::GroupError),
    };
    if g2_affine_is_on_curve(&point) {
        Ok(point)
    } else {
        Err(AltBn128Error::GroupError)
    }
}

fn g2_add(a: G2Point, b: G2Point) -> (r: Result<G2Point, AltBn128Error>)
    ensures
        g2_outcome(r) == g2_added(a@, b@),
        g2_closed_on_curve(g2_outcome(r)),
        g2_operand(a@) is Some && g2_operand(b@) is Some ==> g2_closed(g2_outcome(r)),
{
    proof {
        lemma_g2_operand(a@);
        lemma_g2_operand(b@);
    }
    let a = match g2_deserialize_on_curve(&a) {
        Ok(p) => p,
        Err(e) => return Err(e),
    };
    let b = match g2_deserialize_on_curve(&b) {
        Ok(p) => p,
        Err(e) => return Err(e),
    };
    let c = g2_affine_add(&a, &b);
    proof {
        lemma_g2_sum(a@, b@);
        lemma_g2_operand_bytes(c@);
    }
    g2_encode(&c)
}

fn g2_sub(a: G2Point, b: G2Point) -> (r: Result<G2Point, AltBn128Error>)
    ensures
        g2_outcome(r) == g2_added(a@, g2_negated(b@)),
        g2_closed_on_curve(g2_outcome(r)),
        g2_operand(a@) is Some && g2_operand(b@) is Some && negatable(word(b@, 3)) ==> g2_closed(
            g2_outcome(r),
        ),
{
    proof {
        lemma_g2_operand(b@);
        if g2_operand(b@) is Some && negatable(word(b@, 3)) {
            law_g2_negate_decodes(b@);
        }
    }
    g2_add(a, b.negate())
}

fn g2_mul(point: G2Point, scalar: G2Scalar) -> (r: Result<G2Point, AltBn128Error>)
    ensures
        g2_outcome(r) == g2_multiplied(point@, scalar@),
        g2_closed(g2_outcome(r)),
{
    proof {
        lemma_g2_operand(point@);
    }
    let p = match g2_read(&point) {
        Ok(p) => p,
        Err(e) => return Err(e),
    };
    let c = g2_affine_mul(&p, limbs_from_le_bytes(&scalar));
    proof {
        lemma_g2_times_on_curve(le_value(scalar@), p@);
        lemma_g2_operand_bytes(c@);
    }
    g2_encode(&c)
}

impl G1Point {
    /// Negate the point: `(x, y) -> (x, -y)`. Pure coordinate arithmetic (`y -> q - y`),
    /// so it is infallible; the point at infinity is preserved. The `-` operator
    /// delegates here.
    pub fn negate(self) -> (r: G1Point)
        ensures
            r@ == g1_negated(self@),
    {
        negate_g1(&self)
    }

    /// Wrap little-endian (SVM wire) bytes, the internal storage format.
    pub fn from_le_bytes(bytes: [u8; 64]) -> (r: G1Point)
        ensures
            r@ == bytes@,
    {
        G1Point(bytes)
    }

    /// From big-endian (EIP-197) bytes: reverses each 32-byte coordinate.
    pub fn from_be_bytes(bytes: [u8; 64]) -> (r: G1Point)
        ensures
            r@ == chunks_reversed(bytes@, 32),
            forall|i: int| 0 <= i < 32 ==> #[trigger] r@[i] == bytes@[31 - i],
            forall|i: int| 32 <= i < 64 ==> #[trigger] r@[i] == bytes@[95 - i],
    {
        G1Point(convert_endianness::<32, 64>(&bytes))
    }

    /// The little-endian (SVM wire) bytes, the internal storage.
    pub fn to_le_bytes(self) -> (r: [u8; 64])
        ensures
            r@ == self@,
    {
        self.0
    }

    /// Big-endian (EIP-197) bytes: reverses each 32-byte coordinate.
    pub fn to_be_bytes(self) -> (r: [u8; 64])
        ensures
            r@ == chunks_reversed(self@, 32),
            forall|i: int| 0 <= i < 32 ==> #[trigger] r@[i] == self@[31 - i],
            forall|i: int| 32 <= i < 64 ==> #[trigger] r@[i] == self@[95 - i],
    {
        convert_endianness::<32, 64>(&self.0)
    }
}

impl G2Point {
    /// Negate the point: `(x, y) -> (x, -y)`. Pure coordinate arithmetic (`y -> q - y`),
    /// so it is infallible; the point at infinity is preserved. The `-` operator
    /// delegates here.
    pub fn negate(self) -> (r: G2Point)
        ensures
            r@ == g2_negated(self@),
    {
        negate_g2(&self)
    }

    /// Check that the point is on-curve **and** in the prime-order subgroup: `Ok(())`
    /// if so. It is a membership *check* (it rejects), not a cofactor clearing (it does
    /// not transform the point).
    ///
    /// Addition and subtraction skip the subgroup check: they only verify the curve
    /// equation, because the subgroup is closed under addition and a `pairing` checks
    /// its inputs already. It *is* needed when **untrusted** G2 points are combined with
    /// `+`/`-` and each summand must be a genuine subgroup element.
    pub fn check_prime_subgroup(&self) -> (r: Result<(), AltBn128Error>)
        ensures
            match r {
                Ok(_) => g2_operand(self@) is Some,
                Err(e) => e == AltBn128Error::GroupError && g2_operand(self@) is None,
            },
    {
        match g2_mul(*self, SCALAR_ONE) {
            Ok(_) => Ok(()),
            Err(e) => Err(e),
        }
    }

    /// Wrap little-endian (SVM wire) bytes, the internal storage format.
    pub fn from_le_bytes(bytes: [u8; 128]) -> (r: G2Point)
        ensures
            r@ == bytes@,
    {
        G2Point(bytes)
    }

    /// From big-endian (EIP-197) bytes: reverses each 64-byte `Fq2` coordinate.
    pub fn from_be_bytes(bytes: [u8; 128]) -> (r: G2Point)
        ensures
            r@ == chunks_reversed(bytes@, 64),
            forall|i: int| 0 <= i < 64 ==> #[trigger] r@[i] == bytes@[63 - i],
            forall|i: int| 64 <= i < 128 ==> #[trigger] r@[i] == bytes@[191 - i],
    {
        G2Point(convert_endianness::<64, 128>(&bytes))
    }

    /// The little-endian (SVM wire) bytes, the internal storage.
    pub fn to_le_bytes(self) -> (r: [u8; 128])
        ensures
            r@ == self@,
    {
        self.0
    }

    /// Big-endian (EIP-197) bytes: reverses each 64-byte `Fq2` coordinate.
    pub fn to_be_bytes(self) -> (r: [u8; 128])
        ensures
            r@ == chunks_reversed(self@, 64),
            forall|i: int| 0 <= i < 64 ==> #[trigger] r@[i] == self@[63 - i],
            forall|i: int| 64 <= i < 128 ==> #[trigger] r@[i] == self@[191 - i],
    {
        convert_endianness::<64, 128>(&self.0)
    }
}

/// The scalar `1`, little-endian.
const SCALAR_ONE: G2Scalar = [
    1, 0, 0, 0, 0, 0, 0, 0, 0, 0, 0, 0, 0, 0, 0, 0, 0, 0, 0, 0, 0, 0, 0, 0, 0, 0, 0, 0, 0, 0, 0, 0,
];

// ---- The multi-pairing check -------------------------------------------------

/// Every pair holds a point of G1 and a point of G2.
pub open spec fn pairs_valid(input: Seq<(G1Point, G2Point)>) -> bool {
    forall|i: int|
        0 <= i < input.len() ==> g1_operand((#[trigger] input[i]).0@) is Some && g2_operand(
            input[i].1@,
        ) is Some
}

/// The G1 points of valid pairs.
pub open spec fn pairs_g1(input: Seq<(G1Point, G2Point)>) -> Seq<G1Value> {
    Seq::new(input.len(), |i: int| g1_operand(input[i].0@)->Some_0)
}

/// The G2 points of valid pairs.
pub open spec fn pairs_g2(input: Seq<(G1Point, G2Point)>) -> Seq<G2Value> {
    Seq::new(input.len(), |i: int| g2_operand(input[i].1@)->Some_0)
}

/// Every pair has a point at infinity on one side, so that none contributes to the
/// product.
pub open spec fn pairs_degenerate(input: Seq<(G1Point, G2Point)>) -> bool {
    forall|i: int|
        0 <= i < input.len() ==> (#[trigger] pairs_g1(input)[i]) == G1Value::Infinity || pairs_g2(
            input,
        )[i] == G2Value::Infinity
}

/// All pairs have one second point, and the first points add up to infinity, so that the
/// pairs cancel.
pub open spec fn pairs_balanced(input: Seq<(G1Point, G2Point)>) -> bool {
    all_are(pairs_g2(input), pairs_g2(input)[0]) && g1_total(pairs_g1(input)) == G1Value::Infinity
}

/// The outcome of the check: the scalar `1` for the identity, `0` for all else.
pub open spec fn pairing_word(f: Seq<nat>) -> Seq<u8> {
    if f == target_one() {
        zeros(32).update(0, 1)
    } else {
        zeros(32)
    }
}

/// What the check answers: an error unless every pair is valid.
pub open spec fn pairing_answer(input: Seq<(G1Point, G2Point)>) -> Result<Seq<u8>, AltBn128Error> {
    if pairs_valid(input) {
        Ok(pairing_word(pairing_product(pairs_g1(input), pairs_g2(input))))
    } else {
        Err(AltBn128Error::GroupError)
    }
}

/// The number that the outcome of the check stands for.
pub(crate) proof fn lemma_pairing_word(f: Seq<nat>)
    ensures
        pairing_word(f).len() == 32,
        le_value(pairing_word(f)) == if f == target_one() {
            1nat
        } else {
            0nat
        },
{
    let w = zeros(32).update(0, 1u8);
    lemma_le_value_zero(zeros(32));
    lemma_le_value_zero(w.drop_first());
    assert(w.drop_first() =~= zeros(31));
}

/// The bytes of the scalar in a result.
pub open spec fn scalar_outcome(r: Result<G1Scalar, AltBn128Error>) -> Result<
    Seq<u8>,
    AltBn128Error,
> {
    match r {
        Ok(w) => Ok(w@),
        Err(e) => Err(e),
    }
}

/// Reordered pairs are valid just where the pairs are, and hold the reordered points.
proof fn lemma_pairs_reordered(input: Seq<(G1Point, G2Point)>, order: Seq<int>)
    requires
        is_reordering(order, input.len()),
    ensures
        pairs_valid(reordered(input, order)) <==> pairs_valid(input),
        pairs_g1(reordered(input, order)) == reordered(pairs_g1(input), order),
        pairs_g2(reordered(input, order)) == reordered(pairs_g2(input), order),
{
    let other = reordered(input, order);
    if pairs_valid(other) {
        assert forall|j: int| 0 <= j < input.len() implies g1_operand((#[trigger] input[j]).0@)
            is Some && g2_operand(input[j].1@) is Some by {
            assert(order.contains(j));
            let i = choose|i: int| 0 <= i < order.len() && order[i] == j;
            assert(other[i] == input[j]);
        }
    }
    assert(pairs_g1(other) =~= reordered(pairs_g1(input), order));
    assert(pairs_g2(other) =~= reordered(pairs_g2(input), order));
}

/// `true` iff the element is `1`.
fn is_fq_one(a: &Fq) -> (r: bool)
    ensures
        r == (a@ == 1),
{
    a.limbs[0] == 1 && a.limbs[1] == 0 && a.limbs[2] == 0 && a.limbs[3] == 0
}

/// `true` iff the element is `0`.
fn is_fq_zero(a: &Fq) -> (r: bool)
    ensures
        r == (a@ == 0),
{
    a.limbs[0] == 0 && a.limbs[1] == 0 && a.limbs[2] == 0 && a.limbs[3] == 0
}

/// Turn the coefficients of a pairing product into the scalar that the check returns.
pub fn pairing_outcome(f: &Vec<Fq>) -> (r: G1Scalar)
    ensures
        r@ == pairing_word(fq_values(f@)),
{
    let mut result = [0u8; 32];
    assert(result@ =~= zeros(32));
    if f.len() != 12 || !is_fq_one(&f[0]) {
        proof {
            if fq_values(f@) == target_one() {
                assert(fq_values(f@).len() == target_one().len());
                assert(fq_values(f@)[0] == target_one()[0]);
            }
        }
        return result;
    }
    let mut i: usize = 1;
    while i < 12
        invariant
            1 <= i <= 12,
            f@.len() == 12,
            f@[0]@ == 1,
            result@ == zeros(32),
            forall|j: int| 1 <= j < i ==> (#[trigger] f@[j])@ == 0,
        decreases 12 - i,
    {
        if !is_fq_zero(&f[i]) {
            proof {
                if fq_values(f@) == target_one() {
                    assert(fq_values(f@)[i as int] == target_one()[i as int]);
                }
            }
            return result;
        }
        i += 1;
    }
    assert(fq_values(f@) =~= target_one());
    result[0] = 1;
    assert(result@ =~= zeros(32).update(0, 1));
    result
}

/// Multi-pairing check over `N` (G1, G2) operand pairs. Returns a 32-byte little-endian
/// scalar: `1` iff the pairing product is the identity in GT, `0` otherwise. The order of the
/// pairs is of no account.
#[verifier::rlimit(40)]
pub fn pairing<const N: usize>(input: &[(G1Point, G2Point); N]) -> (r: Result<
    G1Scalar,
    AltBn128Error,
>)
    ensures
        scalar_outcome(r) == pairing_answer(input@),
        r is Ok <==> forall|i: int|
            0 <= i < N ==> g1_operand((#[trigger] input@[i]).0@) is Some && g2_operand(
                input@[i].1@,
            ) is Some,
        r is Err ==> r->Err_0 == AltBn128Error::GroupError,
        r is Ok ==> le_value(r->Ok_0@) == if pairing_product(
            Seq::new(N as nat, |i: int| g1_operand(input@[i].0@)->Some_0),
            Seq::new(N as nat, |i: int| g2_operand(input@[i].1@)->Some_0),
        ) == target_one() {
            1nat
        } else {
            0nat
        },
        forall|h: G2Value| #[trigger]
            all_are(pairs_g2(input@), h) && pairs_valid(input@) && N > 0 && h is Affine ==> {
                &&& r is Ok
                &&& le_value(r->Ok_0@) == 1 <==> g1_total(pairs_g1(input@)) == G1Value::Infinity
                &&& le_value(r->Ok_0@) == 0 <==> g1_total(pairs_g1(input@)) != G1Value::Infinity
            },
        forall|order: Seq<int>|
            is_reordering(order, N as nat) ==> scalar_outcome(r) == pairing_answer(
                #[trigger] reordered(input@, order),
            ),
        pairs_valid(input@) && pairs_degenerate(input@) ==> r is Ok && r->Ok_0@ == zeros(32).update(
            0,
            1,
        ),
        pairs_valid(input@) && pairs_balanced(input@) ==> r is Ok && r->Ok_0@ == zeros(32).update(
            0,
            1,
        ),
{
    proof {
        assert forall|order: Seq<int>| is_reordering(order, N as nat) implies pairs_valid(
            #[trigger] reordered(input@, order),
        ) == pairs_valid(input@) by {
            lemma_pairs_reordered(input@, order);
        }
    }
    let mut g1s: Vec<G1Affine> = Vec::new();
    let mut g2s: Vec<G2Affine> = Vec::new();
    let mut i: usize = 0;
    while i < N
        invariant
            i <= N,
            g1s@.len() == i,
            g2s@.len() == i,
            forall|order: Seq<int>|
                is_reordering(order, N as nat) ==> pairs_valid(#[trigger] reordered(input@, order))
                    == pairs_valid(input@),
            forall|j: int|
                0 <= j < i ==> (#[trigger] g1s@[j]).wf() && g1_operand(input@[j].0@) == Some(
                    g1s@[j]@,
                ),
            forall|j: int|
                0 <= j < i ==> (#[trigger] g2s@[j]).wf() && g2_operand(input@[j].1@) == Some(
                    g2s@[j]@,
                ) && g2_on_curve(g2s@[j]@) && g2_in_subgroup(g2s@[j]@),
        decreases N - i,
    {
        let (g1, g2) = input[i];
        match g1_read(&g1) {
            Ok(p) => g1s.push(p),
            Err(e) => {
                assert(g1_operand(input@[i as int].0@) is None);
                return Err(e);
            },
        }
        proof {
            lemma_g2_operand(g2@);
        }
        match g2_read(&g2) {
            Ok(p) => g2s.push(p),
            Err(e) => {
                assert(g2_operand(input@[i as int].1@) is None);
                return Err(e);
            },
        }
        i += 1;
    }
    let f = multi_pairing(&g1s, &g2s);
    proof {
        assert forall|j: int| 0 <= j < N implies g1_operand((#[trigger] input@[j]).0@) is Some
            && g2_operand(input@[j].1@) is Some by {
            assert(g1s@[j].wf() && g2s@[j].wf());
        }
        assert(g1_values(g1s@) =~= pairs_g1(input@));
        assert(g2_values(g2s@) =~= pairs_g2(input@));
        assert forall|order: Seq<int>| is_reordering(order, N as nat) implies pairing_product(
            pairs_g1(input@),
            pairs_g2(input@),
        ) == pairing_product(
            pairs_g1(#[trigger] reordered(input@, order)),
            pairs_g2(reordered(input@, order)),
        ) by {
            lemma_pairs_reordered(input@, order);
            assert(fq_values(f@) == pairing_product(
                reordered(g1_values(g1s@), order),
                reordered(g2_values(g2s@), order),
            ));
        }
        if pairs_balanced(input@) {
            assert(all_are(g2_values(g2s@), pairs_g2(input@)[0]));
        }
        lemma_pairing_word(fq_values(f@));
        assert(pairs_g1(input@) =~= Seq::new(
            N as nat,
            |i: int| g1_operand(input@[i].0@)->Some_0,
        ));
        assert(pairs_g2(input@) =~= Seq::new(
            N as nat,
            |i: int| g2_operand(input@[i].1@)->Some_0,
        ));
        assert forall|h: G2Value| #[trigger] all_are(pairs_g2(input@), h) implies all_are(
            g2_values(g2s@),
            h,
        ) by {}
        if pairs_degenerate(input@) {
            assert forall|j: int| 0 <= j < N implies (#[trigger] g1s@[j]).infinity
                || g2s@[j].infinity by {
                assert(pairs_g1(input@)[j] == g1s@[j]@);
                assert(pairs_g2(input@)[j] == g2s@[j]@);
            }
        }
    }
    Ok(pairing_outcome(&f))
}

// ---- Conversions -------------------------------------------------------------

impl std::ops::Deref for G1Point {
    type Target = [u8; 64];

    fn deref(&self) -> (r: &[u8; 64])
        ensures
            *r == self.0,
    {
        &self.0
    }
}

impl From<[u8; 64]> for G1Point {
    fn from(bytes: [u8; 64]) -> (r: G1Point) {
        G1Point(bytes)
    }
}

impl vstd::std_specs::convert::FromSpecImpl<[u8; 64]> for G1Point {
    open spec fn obeys_from_spec() -> bool {
        true
    }

    open spec fn from_spec(bytes: [u8; 64]) -> G1Point {
        G1Point(bytes)
    }
}

impl From<G1Point> for [u8; 64] {
    fn from(point: G1Point) -> (r: [u8; 64]) {
        point.0
    }
}

impl vstd::std_specs::convert::FromSpecImpl<G1Point> for [u8; 64] {
    open spec fn obeys_from_spec() -> bool {
        true
    }

    open spec fn from_spec(point: G1Point) -> [u8; 64] {
        point.0
    }
}

impl PartialEq for G1Point {
    fn eq(&self, other: &G1Point) -> (r: bool) {
        same_bytes(&self.0, &other.0)
    }
}

impl vstd::std_specs::cmp::PartialEqSpecImpl for G1Point {
    open spec fn obeys_eq_spec() -> bool {
        true
    }

    open spec fn eq_spec(&self, other: &G1Point) -> bool {
        self@ == other@
    }
}

impl Eq for G1Point {

}

impl PartialEq<[u8; 64]> for G1Point {
    fn eq(&self, other: &[u8; 64]) -> (r: bool) {
        same_bytes(&self.0, other)
    }
}

impl vstd::std_specs::cmp::PartialEqSpecImpl<[u8; 64]> for G1Point {
    open spec fn obeys_eq_spec() -> bool {
        true
    }

    open spec fn eq_spec(&self, other: &[u8; 64]) -> bool {
        self@ == other@
    }
}

impl std::ops::Deref for G2Point {
    type Target = [u8; 128];

    fn deref(&self) -> (r: &[u8; 128])
        ensures
            *r == self.0,
    {
        &self.0
    }
}

impl From<[u8; 128]> for G2Point {
    fn from(bytes: [u8; 128]) -> (r: G2Point) {
        G2Point(bytes)
    }
}

impl vstd::std_specs::convert::FromSpecImpl<[u8; 128]> for G2Point {
    open spec fn obeys_from_spec() -> bool {
        true
    }

    open spec fn from_spec(bytes: [u8; 128]) -> G2Point {
        G2Point(bytes)
    }
}

impl From<G2Point> for [u8; 128] {
    fn from(point: G2Point) -> (r: [u8; 128]) {
        point.0
    }
}

impl vstd::std_specs::convert::FromSpecImpl<G2Point> for [u8; 128] {
    open spec fn obeys_from_spec() -> bool {
        true
    }

    open spec fn from_spec(point: G2Point) -> [u8; 128] {
        point.0
    }
}

impl PartialEq for G2Point {
    fn eq(&self, other: &G2Point) -> (r: bool) {
        same_bytes(&self.0, &other.0)
    }
}

impl vstd::std_specs::cmp::PartialEqSpecImpl for G2Point {
    open spec fn obeys_eq_spec() -> bool {
        true
    }

    open spec fn eq_spec(&self, other: &G2Point) -> bool {
        self@ == other@
    }
}

impl Eq for G2Point {

}

impl PartialEq<[u8; 128]> for G2Point {
    fn eq(&self, other: &[u8; 128]) -> (r: bool) {
        same_bytes(&self.0, other)
    }
}

impl vstd::std_specs::cmp::PartialEqSpecImpl<[u8; 128]> for G2Point {
    open spec fn obeys_eq_spec() -> bool {
        true
    }

    open spec fn eq_spec(&self, other: &[u8; 128]) -> bool {
        self@ == other@
    }
}

// ---- Operator API ---------------------------------------------------------------
//
// Point arithmetic is exposed solely through these operators. The group operations can
// fail (an operand may not encode a point), so the operator `Output` is a `Result`: call
// sites write `(a + b)?`, `(a - b)?`, `(p * scalar)?`. Negation is infallible.

/// The result whose point holds the given bytes.
pub open spec fn g1_result(r: Result<Seq<u8>, AltBn128Error>) -> Result<G1Point, AltBn128Error> {
    match r {
        Ok(s) => Ok(g1_point(s)),
        Err(e) => Err(e),
    }
}

/// The result whose point holds the given bytes.
pub open spec fn g2_result(r: Result<Seq<u8>, AltBn128Error>) -> Result<G2Point, AltBn128Error> {
    match r {
        Ok(s) => Ok(g2_point(s)),
        Err(e) => Err(e),
    }
}

proof fn lemma_g1_of_outcome(r: Result<G1Point, AltBn128Error>)
    ensures
        g1_result(g1_outcome(r)) == r,
{
    if let Ok(p) = r {
        lemma_g1_point(p);
    }
}

proof fn lemma_g2_of_outcome(r: Result<G2Point, AltBn128Error>)
    ensures
        g2_result(g2_outcome(r)) == r,
{
    if let Ok(p) = r {
        lemma_g2_point(p);
    }
}

impl std::ops::Neg for G1Point {
    type Output = G1Point;

    fn neg(self) -> (r: G1Point)
        ensures
            r@ == g1_negated(self@),
    {
        let r = self.negate();
        proof {
            lemma_g1_point(r);
        }
        r
    }
}

impl vstd::std_specs::ops::NegSpecImpl for G1Point {
    open spec fn obeys_neg_spec() -> bool {
        true
    }

    open spec fn neg_req(self) -> bool {
        true
    }

    open spec fn neg_spec(self) -> G1Point {
        g1_point(g1_negated(self@))
    }
}

impl std::ops::Add for G1Point {
    type Output = Result<G1Point, AltBn128Error>;

    fn add(self, rhs: G1Point) -> (r: Result<G1Point, AltBn128Error>)
        ensures
            g1_outcome(r) == g1_added(self@, rhs@),
            g1_closed(g1_outcome(r)),
    {
        let r = g1_add(self, rhs);
        proof {
            lemma_g1_of_outcome(r);
        }
        r
    }
}

impl vstd::std_specs::ops::AddSpecImpl for G1Point {
    open spec fn obeys_add_spec() -> bool {
        true
    }

    open spec fn add_req(self, rhs: G1Point) -> bool {
        true
    }

    open spec fn add_spec(self, rhs: G1Point) -> Result<G1Point, AltBn128Error> {
        g1_result(g1_added(self@, rhs@))
    }
}

impl std::ops::Sub for G1Point {
    type Output = Result<G1Point, AltBn128Error>;

    fn sub(self, rhs: G1Point) -> (r: Result<G1Point, AltBn128Error>)
        ensures
            g1_outcome(r) == g1_added(self@, g1_negated(rhs@)),
            g1_closed(g1_outcome(r)),
    {
        let r = g1_sub(self, rhs);
        proof {
            lemma_g1_of_outcome(r);
        }
        r
    }
}

impl vstd::std_specs::ops::SubSpecImpl for G1Point {
    open spec fn obeys_sub_spec() -> bool {
        true
    }

    open spec fn sub_req(self, rhs: G1Point) -> bool {
        true
    }

    open spec fn sub_spec(self, rhs: G1Point) -> Result<G1Point, AltBn128Error> {
        g1_result(g1_added(self@, g1_negated(rhs@)))
    }
}

impl std::ops::Mul<G1Scalar> for G1Point {
    type Output = Result<G1Point, AltBn128Error>;

    fn mul(self, rhs: G1Scalar) -> (r: Result<G1Point, AltBn128Error>)
        ensures
            g1_outcome(r) == g1_multiplied(self@, rhs@),
            g1_closed(g1_outcome(r)),
    {
        let r = g1_mul(self, rhs);
        proof {
            lemma_g1_of_outcome(r);
        }
        r
    }
}

impl vstd::std_specs::ops::MulSpecImpl<G1Scalar> for G1Point {
    open spec fn obeys_mul_spec() -> bool {
        true
    }

    open spec fn mul_req(self, rhs: G1Scalar) -> bool {
        true
    }

    open spec fn mul_spec(self, rhs: G1Scalar) -> Result<G1Point, AltBn128Error> {
        g1_result(g1_multiplied(self@, rhs@))
    }
}

impl std::ops::Neg for G2Point {
    type Output = G2Point;

    fn neg(self) -> (r: G2Point)
        ensures
            r@ == g2_negated(self@),
    {
        let r = self.negate();
        proof {
            lemma_g2_point(r);
        }
        r
    }
}

impl vstd::std_specs::ops::NegSpecImpl for G2Point {
    open spec fn obeys_neg_spec() -> bool {
        true
    }

    open spec fn neg_req(self) -> bool {
        true
    }

    open spec fn neg_spec(self) -> G2Point {
        g2_point(g2_negated(self@))
    }
}

impl std::ops::Add for G2Point {
    type Output = Result<G2Point, AltBn128Error>;

    fn add(self, rhs: G2Point) -> (r: Result<G2Point, AltBn128Error>)
        ensures
            g2_outcome(r) == g2_added(self@, rhs@),
            g2_closed_on_curve(g2_outcome(r)),
            g2_operand(self@) is Some && g2_operand(rhs@) is Some ==> g2_closed(g2_outcome(r)),
    {
        let r = g2_add(self, rhs);
        proof {
            lemma_g2_of_outcome(r);
        }
        r
    }
}

impl vstd::std_specs::ops::AddSpecImpl for G2Point {
    open spec fn obeys_add_spec() -> bool {
        true
    }

    open spec fn add_req(self, rhs: G2Point) -> bool {
        true
    }

    open spec fn add_spec(self, rhs: G2Point) -> Result<G2Point, AltBn128Error> {
        g2_result(g2_added(self@, rhs@))
    }
}

impl std::ops::Sub for G2Point {
    type Output = Result<G2Point, AltBn128Error>;

    fn sub(self, rhs: G2Point) -> (r: Result<G2Point, AltBn128Error>)
        ensures
            g2_outcome(r) == g2_added(self@, g2_negated(rhs@)),
            g2_closed_on_curve(g2_outcome(r)),
            g2_operand(self@) is Some && g2_operand(rhs@) is Some && negatable(word(rhs@, 3))
                ==> g2_closed(g2_outcome(r)),
    {
        let r = g2_sub(self, rhs);
        proof {
            lemma_g2_of_outcome(r);
        }
        r
    }
}

impl vstd::std_specs::ops::SubSpecImpl for G2Point {
    open spec fn obeys_sub_spec() -> bool {
        true
    }

    open spec fn sub_req(self, rhs: G2Point) -> bool {
        true
    }

    open spec fn sub_spec(self, rhs: G2Point) -> Result<G2Point, AltBn128Error> {
        g2_result(g2_added(self@, g2_negated(rhs@)))
    }
}

impl std::ops::Mul<G2Scalar> for G2Point {
    type Output = Result<G2Point, AltBn128Error>;

    fn mul(self, rhs: G2Scalar) -> (r: Result<G2Point, AltBn128Error>)
        ensures
            g2_outcome(r) == g2_multiplied(self@, rhs@),
            g2_closed(g2_outcome(r)),
    {
        let r = g2_mul(self, rhs);
        proof {
            lemma_g2_of_outcome(r);
        }
        r
    }
}

impl vstd::std_specs::ops::MulSpecImpl<G2Scalar> for G2Point {
    open spec fn obeys_mul_spec() -> bool {
        true
    }

    open spec fn mul_req(self, rhs: G2Scalar) -> bool {
        true
    }

    open spec fn mul_spec(self, rhs: G2Scalar) -> Result<G2Point, AltBn128Error> {
        g2_result(g2_multiplied(self@, rhs@))
    }
}

// ---- Byte order ---------------------------------------------------------------

/// A byte string with the order reversed inside each chunk of `c` bytes.
pub open spec fn chunks_reversed(s: Seq<u8>, c: int) -> Seq<u8> {
    Seq::new(s.len(), |i: int| s[(i / c) * c + (c - 1 - i % c)])
}

/// Reverse the byte order within each `CHUNK_SIZE`-byte chunk of `bytes`, converting a
/// coordinate between big- and little-endian. `ARRAY_SIZE` must be a multiple of
/// `CHUNK_SIZE` (e.g. `<32, 64>` for G1, `<64, 128>` for G2). The operation is its own
/// inverse, so it serves both directions.
pub fn convert_endianness<const CHUNK_SIZE: usize, const ARRAY_SIZE: usize>(
    bytes: &[u8; ARRAY_SIZE],
) -> (r: [u8; ARRAY_SIZE])
    requires
        ARRAY_SIZE == 0 || (CHUNK_SIZE > 0 && ARRAY_SIZE % CHUNK_SIZE == 0),
    ensures
        r@ == chunks_reversed(bytes@, CHUNK_SIZE as int),
{
    let mut reversed = [0u8; ARRAY_SIZE];
    let mut chunk: usize = 0;
    let ghost mut k: int = 0;
    let ghost c = CHUNK_SIZE as int;
    proof {
        assert(0 * c == 0) by (nonlinear_arith);
    }
    while chunk < ARRAY_SIZE
        invariant
            ARRAY_SIZE == 0 || (CHUNK_SIZE > 0 && ARRAY_SIZE % CHUNK_SIZE == 0),
            c == CHUNK_SIZE,
            chunk <= ARRAY_SIZE,
            k >= 0,
            chunk == k * c,
            forall|j: int|
                0 <= j < chunk ==> reversed@[j] == chunks_reversed(bytes@, c)[j],
        decreases ARRAY_SIZE - chunk,
    {
        proof {
            lemma_chunk_fits(k, c, ARRAY_SIZE as int);
        }
        let mut i: usize = 0;
        while i < CHUNK_SIZE
            invariant
                c == CHUNK_SIZE,
                c > 0,
                i <= CHUNK_SIZE,
                k >= 0,
                chunk == k * c,
                chunk + CHUNK_SIZE <= ARRAY_SIZE,
                forall|j: int|
                    0 <= j < chunk + i ==> reversed@[j] == chunks_reversed(bytes@, c)[j],
            decreases CHUNK_SIZE - i,
        {
            proof {
                lemma_chunk_index(k, c, i as int);
            }
            reversed[chunk + i] = bytes[chunk + CHUNK_SIZE - 1 - i];
            i += 1;
        }
        proof {
            assert(k * c + c == (k + 1) * c) by (nonlinear_arith);
            k = k + 1;
        }
        chunk += CHUNK_SIZE;
    }
    assert(reversed@ =~= chunks_reversed(bytes@, c));
    reversed
}

/// A chunk that starts inside a whole number of chunks ends inside it too.
pub(crate) proof fn lemma_chunk_fits(k: int, c: int, n: int)
    requires
        c > 0,
        n % c == 0,
        k * c < n,
    ensures
        k * c + c <= n,
{
    vstd::arithmetic::div_mod::lemma_fundamental_div_mod(n, c);
    let m = n / c;
    assert(k + 1 <= m) by (nonlinear_arith)
        requires
            k * c < n,
            n == c * m,
            c > 0,
    ;
    assert(k * c + c <= n) by (nonlinear_arith)
        requires
            k + 1 <= m,
            n == c * m,
            c > 0,
    ;
}

/// Quotient and remainder of a position inside chunk `k`.
pub(crate) proof fn lemma_chunk_index(k: int, c: int, i: int)
    requires
        c > 0,
        0 <= i < c,
    ensures
        (k * c + i) / c == k,
        (k * c + i) % c == i,
{
    vstd::arithmetic::div_mod::lemma_fundamental_div_mod_converse(k * c + i, c, k, i);
}

} // verus!

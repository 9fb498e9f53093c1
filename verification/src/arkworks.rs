//! The calls into Arkworks (`ark-bn254`, `ark-ec`, `ark-serialize`). Each function here
//! hands plain limbs or bytes to one Arkworks function and hands back what it
//! returned; what the contracts say of the results is taken from the Arkworks source
//! and is not proved.
use vstd::prelude::*;

use ark_bn254::Bn254;
use ark_bn254::{Fq as ArkFq, Fq2 as ArkFq2, G1Affine as ArkG1Affine, G2Affine as ArkG2Affine};
use ark_ec::pairing::Pairing;
use ark_ec::{AffineRepr, CurveGroup};
use ark_ff::{BigInt, Field, PrimeField};
use ark_serialize::{CanonicalDeserialize, CanonicalSerialize, SerializationError};

use crate::curve::{G1Affine, G2Affine};
#[allow(unused_imports)]
use crate::bytes::le_bytes;
#[allow(unused_imports)]
use crate::curve::{
    g1_on_curve, g1_sum, g1_times, g2_in_subgroup, g2_on_curve, g2_sum, g2_times, G1Value, G2Value,
};
use crate::field::{Fq, Fq2};
#[allow(unused_imports)]
use crate::field::limbs_value;
#[allow(unused_imports)]
use crate::wire::{
    fq2_bytes, g1_decode, g1_decompresses_to, g2_decode, g2_decompresses_to, g2_parse,
};

verus! {

/// `ark_serialize::SerializationError`, carried to the caller that maps it.
#[verifier::external_type_specification]
#[verifier::external_body]
pub struct ExSerializationError(ark_serialize::SerializationError);

/// `Affine::deserialize_uncompressed` on G1: two little-endian coordinates, refused
/// unless both are reduced, at most one flag bit is set, and the point is on the
/// curve. The infinity flag gives the identity, whatever the coordinates.
#[verifier::external_body]
pub(crate) fn g1_deserialize_uncompressed(bytes: &[u8; 64]) -> (r: Result<
    G1Affine,
    SerializationError,
>)
    ensures
        match r {
            Ok(p) => p.wf() && g1_decode(bytes@) == Some(p@),
            Err(_) => g1_decode(bytes@) is None,
        },
{
    let p = ArkG1Affine::deserialize_uncompressed(&bytes[..])?;
    Ok(
        G1Affine {
            x: Fq { limbs: p.x.into_bigint().0 },
            y: Fq { limbs: p.y.into_bigint().0 },
            infinity: p.infinity,
        },
    )
}

/// `Affine::deserialize_compressed_unchecked` on G1: the `y` over the given `x` that
/// the sign flag selects. It fails on an unreduced `x`, on both flags at once, and
/// where no `y` completes `x` to a point of the curve. In a field at most one `y`
/// fits the sign.
#[verifier::external_body]
pub(crate) fn g1_deserialize_compressed_unchecked(bytes: &[u8; 32]) -> (r: Result<
    G1Affine,
    SerializationError,
>)
    ensures
        match r {
            Ok(p) => p.wf() && g1_decompresses_to(bytes@, Some(p@)),
            Err(_) => g1_decompresses_to(bytes@, None),
        },
{
    let p = ArkG1Affine::deserialize_compressed_unchecked(&bytes[..])?;
    Ok(
        G1Affine {
            x: Fq { limbs: p.x.into_bigint().0 },
            y: Fq { limbs: p.y.into_bigint().0 },
            infinity: p.infinity,
        },
    )
}

/// `Affine + Affine` on G1, brought back to affine form: the group law.
#[verifier::external_body]
pub(crate) fn g1_affine_add(a: &G1Affine, b: &G1Affine) -> (r: G1Affine)
    requires
        a.wf() && g1_on_curve(a@),
        b.wf() && g1_on_curve(b@),
    ensures
        r.wf() && r@ == g1_sum(a@, b@),
{
    let [ax, ay, bx, by] = [a.x, a.y, b.x, b.y].map(|c| ArkFq::new(BigInt(c.limbs)));
    let p = ArkG1Affine { x: ax, y: ay, infinity: a.infinity };
    let q = ArkG1Affine { x: bx, y: by, infinity: b.infinity };
    let c = (p + q).into_affine();
    G1Affine {
        x: Fq { limbs: c.x.into_bigint().0 },
        y: Fq { limbs: c.y.into_bigint().0 },
        infinity: c.infinity,
    }
}

/// `AffineRepr::mul_bigint` on G1, brought back to affine form: as many copies of the
/// point as the limbs say, added up.
#[verifier::external_body]
pub(crate) fn g1_affine_mul(p: &G1Affine, limbs: [u64; 4]) -> (r: G1Affine)
    requires
        p.wf() && g1_on_curve(p@),
    ensures
        r.wf() && r@ == g1_times(limbs_value(limbs@), p@),
{
    let [x, y] = [p.x, p.y].map(|c| ArkFq::new(BigInt(c.limbs)));
    let c = ArkG1Affine { x, y, infinity: p.infinity }.mul_bigint(limbs).into_affine();
    G1Affine {
        x: Fq { limbs: c.x.into_bigint().0 },
        y: Fq { limbs: c.y.into_bigint().0 },
        infinity: c.infinity,
    }
}

/// `CanonicalSerialize::serialize_uncompressed` on `Fq`: the 32 little-endian bytes of
/// the element. The buffer holds exactly what is written, so the call succeeds.
#[verifier::external_body]
pub(crate) fn fq_serialize_uncompressed(a: &Fq) -> (r: Result<[u8; 32], SerializationError>)
    requires
        a.wf(),
    ensures
        r is Ok && r->Ok_0@ == le_bytes(a@, 32),
{
    let mut out = [0u8; 32];
    ArkFq::new(BigInt(a.limbs)).serialize_uncompressed(&mut out[..])?;
    Ok(out)
}

/// `CanonicalSerialize::serialize_compressed` on `Fq`, which writes the same bytes as
/// the uncompressed form. The buffer holds exactly what is written, so the call
/// succeeds.
#[verifier::external_body]
pub(crate) fn fq_serialize_compressed(a: &Fq) -> (r: Result<[u8; 32], SerializationError>)
    requires
        a.wf(),
    ensures
        r is Ok && r->Ok_0@ == le_bytes(a@, 32),
{
    let mut out = [0u8; 32];
    ArkFq::new(BigInt(a.limbs)).serialize_compressed(&mut out[..])?;
    Ok(out)
}

/// `Affine::deserialize_uncompressed` on G2: four little-endian coordinates, refused
/// unless all are reduced, at most one flag bit is set, and the point is on the curve
/// and in the prime-order subgroup. The infinity flag gives the identity, whatever
/// the coordinates.
#[verifier::external_body]
pub(crate) fn g2_deserialize_uncompressed(bytes: &[u8; 128]) -> (r: Result<
    G2Affine,
    SerializationError,
>)
    ensures
        match r {
            Ok(p) => p.wf() && g2_decode(bytes@) == Some(p@),
            Err(_) => g2_decode(bytes@) is None,
        },
{
    let p = ArkG2Affine::deserialize_uncompressed(&bytes[..])?;
    let [a, b, c, d] = [p.x.c0, p.x.c1, p.y.c0, p.y.c1].map(|c| Fq { limbs: c.into_bigint().0 });
    Ok(G2Affine { x: Fq2 { c0: a, c1: b }, y: Fq2 { c0: c, c1: d }, infinity: p.infinity })
}

/// `Affine::deserialize_uncompressed_unchecked` on G2: as the checked form, without
/// the test of the curve equation and of the subgroup.
#[verifier::external_body]
pub(crate) fn g2_deserialize_uncompressed_unchecked(bytes: &[u8; 128]) -> (r: Result<
    G2Affine,
    SerializationError,
>)
    ensures
        match r {
            Ok(p) => p.wf() && g2_parse(bytes@) == Some(p@),
            Err(_) => g2_parse(bytes@) is None,
        },
{
    let p = ArkG2Affine::deserialize_uncompressed_unchecked(&bytes[..])?;
    let [a, b, c, d] = [p.x.c0, p.x.c1, p.y.c0, p.y.c1].map(|c| Fq { limbs: c.into_bigint().0 });
    Ok(G2Affine { x: Fq2 { c0: a, c1: b }, y: Fq2 { c0: c, c1: d }, infinity: p.infinity })
}

/// `Affine::deserialize_compressed_unchecked` on G2: the `y` over the given `x` that
/// the sign flag selects, in the order on `Fq2` in which `c1` leads. It fails on an
/// unreduced `x`, on both flags at once, and where no `y` completes `x` to a point of
/// the curve. In a field at most one `y` fits the sign.
#[verifier::external_body]
pub(crate) fn g2_deserialize_compressed_unchecked(bytes: &[u8; 64]) -> (r: Result<
    G2Affine,
    SerializationError,
>)
    ensures
        match r {
            Ok(p) => p.wf() && g2_decompresses_to(bytes@, Some(p@)),
            Err(_) => g2_decompresses_to(bytes@, None),
        },
{
    let p = ArkG2Affine::deserialize_compressed_unchecked(&bytes[..])?;
    let [a, b, c, d] = [p.x.c0, p.x.c1, p.y.c0, p.y.c1].map(|c| Fq { limbs: c.into_bigint().0 });
    Ok(G2Affine { x: Fq2 { c0: a, c1: b }, y: Fq2 { c0: c, c1: d }, infinity: p.infinity })
}

/// `Affine::is_on_curve` on G2: the curve equation, which the identity satisfies.
#[verifier::external_body]
pub(crate) fn g2_affine_is_on_curve(p: &G2Affine) -> (r: bool)
    requires
        p.wf(),
    ensures
        r == g2_on_curve(p@),
{
    let [a, b, c, d] = [p.x.c0, p.x.c1, p.y.c0, p.y.c1].map(
        |c| ArkFq::new(BigInt(c.limbs)),
    );
    let (x, y) = (ArkFq2::new(a, b), ArkFq2::new(c, d));
    ArkG2Affine { x, y, infinity: p.infinity }.is_on_curve()
}

/// `Affine + Affine` on G2, brought back to affine form: the group law, which does not leave
/// the prime-order subgroup.
#[verifier::external_body]
pub(crate) fn g2_affine_add(a: &G2Affine, b: &G2Affine) -> (r: G2Affine)
    requires
        a.wf() && g2_on_curve(a@),
        b.wf() && g2_on_curve(b@),
    ensures
        r.wf() && r@ == g2_sum(a@, b@),
        g2_in_subgroup(a@) && g2_in_subgroup(b@) ==> g2_in_subgroup(r@),
{
    let [p, q] = [a, b].map(|s| {
        let e = |c: Fq2| ArkFq2::new(
            ArkFq::new(BigInt(c.c0.limbs)),
            ArkFq::new(BigInt(c.c1.limbs)),
        );
        ArkG2Affine { x: e(s.x), y: e(s.y), infinity: s.infinity }
    });
    let s = (p + q).into_affine();
    let [a, b, c, d] = [s.x.c0, s.x.c1, s.y.c0, s.y.c1].map(|c| Fq { limbs: c.into_bigint().0 });
    G2Affine { x: Fq2 { c0: a, c1: b }, y: Fq2 { c0: c, c1: d }, infinity: s.infinity }
}

/// `AffineRepr::mul_bigint` on G2, brought back to affine form: as many copies of the
/// point as the limbs say, added up, which does not leave the prime-order subgroup.
#[verifier::external_body]
pub(crate) fn g2_affine_mul(p: &G2Affine, limbs: [u64; 4]) -> (r: G2Affine)
    requires
        p.wf() && g2_on_curve(p@),
    ensures
        r.wf() && r@ == g2_times(limbs_value(limbs@), p@),
        g2_in_subgroup(p@) ==> g2_in_subgroup(r@),
{
    let [a, b, c, d] = [p.x.c0, p.x.c1, p.y.c0, p.y.c1].map(
        |c| ArkFq::new(BigInt(c.limbs)),
    );
    let (x, y) = (ArkFq2::new(a, b), ArkFq2::new(c, d));
    let s = ArkG2Affine { x, y, infinity: p.infinity }.mul_bigint(limbs).into_affine();
    let [a, b, c, d] = [s.x.c0, s.x.c1, s.y.c0, s.y.c1].map(|c| Fq { limbs: c.into_bigint().0 });
    G2Affine { x: Fq2 { c0: a, c1: b }, y: Fq2 { c0: c, c1: d }, infinity: s.infinity }
}

/// `CanonicalSerialize::serialize_uncompressed` on `Fq2`: `c0` then `c1`, 32 little-endian
/// bytes each. The buffer holds exactly what is written, so the call succeeds.
#[verifier::external_body]
pub(crate) fn fq2_serialize_uncompressed(a: &Fq2) -> (r: Result<[u8; 64], SerializationError>)
    requires
        a.wf(),
    ensures
        r is Ok && r->Ok_0@ == fq2_bytes(a@),
{
    let [c0, c1] = [a.c0, a.c1].map(|c| ArkFq::new(BigInt(c.limbs)));
    let mut out = [0u8; 64];
    ArkFq2::new(c0, c1).serialize_uncompressed(&mut out[..])?;
    Ok(out)
}

/// `CanonicalSerialize::serialize_compressed` on `Fq2`, which writes the same bytes as
/// the uncompressed form. The buffer holds exactly what is written, so the call
/// succeeds.
#[verifier::external_body]
pub(crate) fn fq2_serialize_compressed(a: &Fq2) -> (r: Result<[u8; 64], SerializationError>)
    requires
        a.wf(),
    ensures
        r is Ok && r->Ok_0@ == fq2_bytes(a@),
{
    let [c0, c1] = [a.c0, a.c1].map(|c| ArkFq::new(BigInt(c.limbs)));
    let mut out = [0u8; 64];
    ArkFq2::new(c0, c1).serialize_compressed(&mut out[..])?;
    Ok(out)
}

/// The product of the pairings of `ps[i]` with `qs[i]`, as the twelve `Fq` coefficients
/// of an element of the target field.
pub uninterp spec fn pairing_product(ps: Seq<G1Value>, qs: Seq<G2Value>) -> Seq<nat>;

/// The identity of the target field.
pub open spec fn target_one() -> Seq<nat> {
    Seq::new(12, |i: int| if i == 0 { 1nat } else { 0nat })
}

/// The points that a vector of affine G1 points holds.
pub open spec fn g1_values(ps: Seq<G1Affine>) -> Seq<G1Value> {
    Seq::new(ps.len(), |i: int| ps[i]@)
}

/// The points that a vector of affine G2 points holds.
pub open spec fn g2_values(qs: Seq<G2Affine>) -> Seq<G2Value> {
    Seq::new(qs.len(), |i: int| qs[i]@)
}

/// The coefficients that a vector of field elements holds.
pub open spec fn fq_values(cs: Seq<Fq>) -> Seq<nat> {
    Seq::new(cs.len(), |i: int| cs[i]@)
}

/// The sum of points of G1, from the left.
pub open spec fn g1_total(ps: Seq<G1Value>) -> G1Value
    decreases ps.len(),
{
    if ps.len() == 0 {
        G1Value::Infinity
    } else {
        g1_sum(g1_total(ps.drop_last()), ps.last())
    }
}

/// All points are one.
pub open spec fn all_are(qs: Seq<G2Value>, h: G2Value) -> bool {
    forall|i: int| 0 <= i < qs.len() ==> #[trigger] qs[i] == h
}

/// `order` lists the positions below `n`, each once.
pub open spec fn is_reordering(order: Seq<int>, n: nat) -> bool {
    &&& order.len() == n
    &&& order.no_duplicates()
    &&& forall|i: int| 0 <= i < n ==> 0 <= #[trigger] order[i] < n
    &&& forall|j: int| 0 <= j < n ==> #[trigger] order.contains(j)
}

/// The items at the listed positions.
pub open spec fn reordered<T>(s: Seq<T>, order: Seq<int>) -> Seq<T> {
    Seq::new(order.len(), |i: int| s[order[i]])
}

/// `Pairing::multi_pairing` on BN254. The result is a product in a field, so that the order of
/// the pairs is of no account. A pair with a point at infinity on either side is left out of
/// it, so that nothing but such pairs gives the identity. The pairing is linear in its first
/// argument, so that pairs with one second point, whose first points add up to infinity, give
/// the identity too. It is not degenerate: where the second point is finite, no other sum of
/// first points gives the identity.
#[verifier::external_body]
pub(crate) fn multi_pairing(ps: &Vec<G1Affine>, qs: &Vec<G2Affine>) -> (r: Vec<Fq>)
    requires
        ps@.len() == qs@.len(),
        forall|i: int| 0 <= i < ps@.len() ==> (#[trigger] ps@[i]).wf() && g1_on_curve(ps@[i]@),
        forall|i: int|
            0 <= i < qs@.len() ==> (#[trigger] qs@[i]).wf() && g2_on_curve(qs@[i]@)
                && g2_in_subgroup(qs@[i]@),
    ensures
        r@.len() == 12,
        forall|i: int| 0 <= i < 12 ==> (#[trigger] r@[i]).wf(),
        fq_values(r@) == pairing_product(g1_values(ps@), g2_values(qs@)),
        (forall|i: int|
            0 <= i < ps@.len() ==> (#[trigger] ps@[i]).infinity || qs@[i].infinity) ==> fq_values(
            r@,
        ) == target_one(),
        forall|order: Seq<int>|
            is_reordering(order, ps@.len()) ==> fq_values(r@) == pairing_product(
                #[trigger] reordered(g1_values(ps@), order),
                reordered(g2_values(qs@), order),
            ),
        forall|h: G2Value| #[trigger]
            all_are(g2_values(qs@), h) && g1_total(g1_values(ps@)) == G1Value::Infinity
                ==> fq_values(r@) == target_one(),
        forall|h: G2Value| #[trigger]
            all_are(g2_values(qs@), h) && qs@.len() > 0 && h is Affine && g1_total(g1_values(ps@))
                != G1Value::Infinity ==> fq_values(r@) != target_one(),
{
    let e = |c: &Fq| ArkFq::new(BigInt(c.limbs));
    let e2 = |c: &Fq2| ArkFq2::new(e(&c.c0), e(&c.c1));
    let ps = ps.iter().map(
        |p| ArkG1Affine { x: e(&p.x), y: e(&p.y), infinity: p.infinity },
    );
    let qs = qs.iter().map(
        |p| ArkG2Affine { x: e2(&p.x), y: e2(&p.y), infinity: p.infinity },
    );
    let f = Bn254::multi_pairing(ps, qs).0;
    f.to_base_prime_field_elements().map(|c| Fq { limbs: c.into_bigint().0 }).collect()
}

} // verus!

use solana_nostd_alt_bn128::{
    aggregate_g1, aggregate_g1_in_place, aggregate_g2, aggregate_g2_in_place, AltBn128Error,
    G1Point, G2Point,
};

/// The byte at position `i` of a big-endian hex string of 32 bytes.
fn hex_byte(hex: &str, i: usize) -> u8 {
    u8::from_str_radix(&hex[2 * i..2 * i + 2], 16).unwrap()
}

/// Big-endian hex words as little-endian 32-byte words, side by side.
fn words<const N: usize>(hex: &[&str]) -> [u8; N] {
    let mut out = [0u8; N];
    for (w, h) in hex.iter().enumerate() {
        for i in 0..32 {
            out[32 * w + i] = hex_byte(h, 31 - i);
        }
    }
    out
}

/// A small number as a 32-byte scalar.
fn scalar(n: u64) -> [u8; 32] {
    let mut out = [0u8; 32];
    out[..8].copy_from_slice(&n.to_le_bytes());
    out
}

const G: [&str; 2] = [
    "0000000000000000000000000000000000000000000000000000000000000001",
    "0000000000000000000000000000000000000000000000000000000000000002",
];

const TWO_G: [&str; 2] = [
    "030644e72e131a029b85045b68181585d97816a916871ca8d3c208c16d87cfd3",
    "15ed738c0e0a7c92e7845f96b2ae9c0a68a6a449e3538fc7ff3ebf7a5a18a2c4",
];

const THREE_G: [&str; 2] = [
    "0769bf9ac56bea3ff40232bcb1b6bd159315d84715b8e679f2d355961915abf0",
    "2ab799bee0489429554fdb7c8d086475319e63b40b9c5b57cdf1ff3dd9fe2261",
];

const H: [&str; 4] = [
    "1800deef121f1e76426a00665e5c4479674322d4f75edadd46debd5cd992f6ed",
    "198e9393920d483a7260bfb731fb5d25f1aa493335a9e71297e485b7aef312c2",
    "12c85ea5db8c6deb4aab71808dcb408fe3d1e7690c43d37b4ce6cc0166fa7daa",
    "090689d0585ff075ec9e99ad690c3395bc4b313370b38ef355acdadcd122975b",
];

const TWO_H: [&str; 4] = [
    "27dc7234fd11d3e8c36c59277c3e6f149d5cd3cfa9a62aee49f8130962b4b3b9",
    "203e205db4f19b37b60121b83a7333706db86431c6d835849957ed8c3928ad79",
    "04bb53b8977e5f92a0bc372742c4830944a59b4fe6b1c0466e2a6dad122b5d2e",
    "195e8aa5b7827463722b8c153931579d3505566b4edf48d498e185f0509de152",
];

const THREE_H: [&str; 4] = [
    "06064e784db10e9051e52826e192715e8d7e478cb09a5e0012defa0694fbc7f5",
    "1014772f57bb9742735191cd5dcfe4ebbc04156b6878a0a7c9824f32ffb66e85",
    "058e1d5681b5b9e0074b0f9c8d2c68a069b920d74521e79765036d57666c5597",
    "021e2335f3354bb7922ffcc2f38d3323dd9453ac49b55441452aeaca147711b2",
];

/// On the G2 curve, outside the prime-order subgroup.
const OUTSIDE: [&str; 4] = [
    "0000000000000000000000000000000000000000000000000000000000000001",
    "0000000000000000000000000000000000000000000000000000000000000000",
    "2869111d5381f072f8e2728fdb825a51aadd70e52c9830e9ab4b871c0531f1bb",
    "0d1271953ed9ea0836846e70a1934187998c7f790cb4d7511b7f8da82de048a4",
];

const TWO_OUTSIDE: [&str; 4] = [
    "1d73c7947bd0f6392bc364b0d7a5ac831d1797cfabb47bb7f1d6040c2389dd3d",
    "02962234ed23c17f94e2bedef0da557ed2b0d91dd73cd01f621c38ec08ec329d",
    "1a5a1d69a67e48e6b5596f23a1519890805a41f19a47be9f73ec6a0597f727f1",
    "2ffea3837d3c792ab180b2e09858a50a43f5875da74f9a8c5e3ae538d1c7ced5",
];

fn g1(hex: &[&str]) -> G1Point {
    G1Point(words(hex))
}

fn g2(hex: &[&str]) -> G2Point {
    G2Point(words(hex))
}

#[test]
fn aggregates_are_the_fold_with_add() {
    let points = [g1(&G), g1(&TWO_G), g1(&THREE_G), g1(&G)];
    let mut acc = points[0];
    for p in &points[1..] {
        acc = (acc + *p).unwrap();
    }
    assert_eq!(aggregate_g1(&points), Ok(acc));
    assert_eq!(aggregate_g1(&points), g1(&G) * scalar(7));
    let points = [g2(&H), g2(&TWO_H), g2(&THREE_H), g2(&H)];
    assert_eq!(aggregate_g2(&points), g2(&H) * scalar(7));
}

#[test]
fn in_place_gives_the_same_sum() {
    let points = [g1(&G), g1(&G), g1(&G)];
    let mut slots = points;
    assert_eq!(aggregate_g1_in_place(&mut slots), aggregate_g1(&points));
    let points = [g2(&H), g2(&H), g2(&H)];
    let mut slots = points;
    assert_eq!(aggregate_g2_in_place(&mut slots), aggregate_g2(&points));
}

#[test]
fn in_place_slides_the_running_sum() {
    let mut slots = [g1(&G), g1(&G), g1(&G)];
    assert_eq!(aggregate_g1_in_place(&mut slots), Ok(g1(&THREE_G)));
    assert_eq!(slots, [g1(&G), g1(&TWO_G), g1(&THREE_G)]);
    let mut slots = [g2(&H), g2(&H), g2(&H)];
    assert_eq!(aggregate_g2_in_place(&mut slots), Ok(g2(&THREE_H)));
    assert_eq!(slots, [g2(&H), g2(&TWO_H), g2(&THREE_H)]);
}

#[test]
fn sums_of_none_and_of_one() {
    assert_eq!(aggregate_g1(&[]), Ok(G1Point([0u8; 64])));
    assert_eq!(aggregate_g1_in_place(&mut []), Ok(G1Point([0u8; 64])));
    assert_eq!(aggregate_g2(&[]), Ok(G2Point([0u8; 128])));
    assert_eq!(aggregate_g2_in_place(&mut []), Ok(G2Point([0u8; 128])));
    assert_eq!(aggregate_g1(&[g1(&TWO_G)]), Ok(g1(&TWO_G)));
    assert_eq!(aggregate_g1_in_place(&mut [g1(&TWO_G)]), Ok(g1(&TWO_G)));
    assert_eq!(aggregate_g2(&[g2(&TWO_H)]), Ok(g2(&TWO_H)));
    assert_eq!(aggregate_g2_in_place(&mut [g2(&TWO_H)]), Ok(g2(&TWO_H)));
}

#[test]
fn g2_sums_take_points_outside_the_subgroup() {
    assert_eq!(aggregate_g2(&[g2(&OUTSIDE), g2(&OUTSIDE)]), Ok(g2(&TWO_OUTSIDE)));
}

#[test]
fn sums_pass_through_infinity() {
    let a = g1(&TWO_G);
    assert_eq!(aggregate_g1(&[a, -a, g1(&G)]), Ok(g1(&G)));
    let mut slots = [a, -a, g1(&G)];
    assert_eq!(aggregate_g1_in_place(&mut slots), Ok(g1(&G)));
    assert_eq!(slots, [a, G1Point([0u8; 64]), g1(&G)]);
    let a = g2(&TWO_H);
    assert_eq!(aggregate_g2(&[a, -a, g2(&H)]), Ok(g2(&H)));
}

#[test]
fn a_bad_point_fails_the_sum() {
    let refused = Err(AltBn128Error::GroupError);
    let bad = G1Point([1u8; 64]);
    assert_eq!(aggregate_g1(&[g1(&G), bad, g1(&G)]), refused);
    let mut slots = [g1(&G), g1(&G), bad, g1(&G)];
    assert_eq!(aggregate_g1_in_place(&mut slots), refused);
    assert_eq!(slots, [g1(&G), g1(&TWO_G), bad, g1(&G)]);
    let refused = Err(AltBn128Error::GroupError);
    let bad = G2Point([1u8; 128]);
    assert_eq!(aggregate_g2(&[bad, g2(&H)]), refused);
    let mut slots = [g2(&H), g2(&H), bad, g2(&H)];
    assert_eq!(aggregate_g2_in_place(&mut slots), refused);
    assert_eq!(slots, [g2(&H), g2(&TWO_H), bad, g2(&H)]);
}

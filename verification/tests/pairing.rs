use solana_nostd_alt_bn128::curve::{G1Affine, G2Affine};
use solana_nostd_alt_bn128::field::{Fq, Fq2};
use solana_nostd_alt_bn128::group_operations::{g1_encode, g2_encode, pairing_outcome};
use solana_nostd_alt_bn128::{pairing, AltBn128Error, G1Point, G2Point};

/// The byte at position `i` of a big-endian hex string of 32 bytes.
fn hex_byte(hex: &str, i: usize) -> u8 {
    u8::from_str_radix(&hex[2 * i..2 * i + 2], 16).unwrap()
}

/// Big-endian hex words as little-endian 32-byte words, side by side.
fn words<const N: usize>(hex: &[&str]) -> [u8; N] {
    let mut out = [0u8; N];
    for (w, h) in hex.iter().enumerate() {
        for i in 0..32 {
            out[32 * w + i] = hex_byte(h, 31 - i);
        }
    }
    out
}

/// A small number as a 32-byte scalar.
fn scalar(n: u64) -> [u8; 32] {
    let mut out = [0u8; 32];
    out[..8].copy_from_slice(&n.to_le_bytes());
    out
}

const G: [&str; 2] = [
    "0000000000000000000000000000000000000000000000000000000000000001",
    "0000000000000000000000000000000000000000000000000000000000000002",
];

const TWO_G: [&str; 2] = [
    "030644e72e131a029b85045b68181585d97816a916871ca8d3c208c16d87cfd3",
    "15ed738c0e0a7c92e7845f96b2ae9c0a68a6a449e3538fc7ff3ebf7a5a18a2c4",
];

const THREE_G: [&str; 2] = [
    "0769bf9ac56bea3ff40232bcb1b6bd159315d84715b8e679f2d355961915abf0",
    "2ab799bee0489429554fdb7c8d086475319e63b40b9c5b57cdf1ff3dd9fe2261",
];

const H: [&str; 4] = [
    "1800deef121f1e76426a00665e5c4479674322d4f75edadd46debd5cd992f6ed",
    "198e9393920d483a7260bfb731fb5d25f1aa493335a9e71297e485b7aef312c2",
    "12c85ea5db8c6deb4aab71808dcb408fe3d1e7690c43d37b4ce6cc0166fa7daa",
    "090689d0585ff075ec9e99ad690c3395bc4b313370b38ef355acdadcd122975b",
];

const TWO_H: [&str; 4] = [
    "27dc7234fd11d3e8c36c59277c3e6f149d5cd3cfa9a62aee49f8130962b4b3b9",
    "203e205db4f19b37b60121b83a7333706db86431c6d835849957ed8c3928ad79",
    "04bb53b8977e5f92a0bc372742c4830944a59b4fe6b1c0466e2a6dad122b5d2e",
    "195e8aa5b7827463722b8c153931579d3505566b4edf48d498e185f0509de152",
];

const THREE_H: [&str; 4] = [
    "06064e784db10e9051e52826e192715e8d7e478cb09a5e0012defa0694fbc7f5",
    "1014772f57bb9742735191cd5dcfe4ebbc04156b6878a0a7c9824f32ffb66e85",
    "058e1d5681b5b9e0074b0f9c8d2c68a069b920d74521e79765036d57666c5597",
    "021e2335f3354bb7922ffcc2f38d3323dd9453ac49b55441452aeaca147711b2",
];

/// On the G2 curve, outside the prime-order subgroup.
const OUTSIDE: [&str; 4] = [
    "0000000000000000000000000000000000000000000000000000000000000001",
    "0000000000000000000000000000000000000000000000000000000000000000",
    "2869111d5381f072f8e2728fdb825a51aadd70e52c9830e9ab4b871c0531f1bb",
    "0d1271953ed9ea0836846e70a1934187998c7f790cb4d7511b7f8da82de048a4",
];

fn g1(hex: &[&str]) -> G1Point {
    G1Point(words(hex))
}

fn g2(hex: &[&str]) -> G2Point {
    G2Point(words(hex))
}

fn fq(n: u64) -> Fq {
    Fq { limbs: [n, 0, 0, 0] }
}

#[test]
fn opposite_pairs_cancel() {
    let (p, q) = (g1(&G), g2(&H));
    assert_eq!(pairing(&[(p, q), (-p, q)]), Ok(scalar(1)));
    assert_eq!(pairing(&[(p, q), (p, -q)]), Ok(scalar(1)));
}

#[test]
fn scalars_move_between_the_groups() {
    let left = (g1(&TWO_G), g2(&THREE_H));
    let right = (-g1(&THREE_G), g2(&TWO_H));
    assert_eq!(pairing(&[left, right]), Ok(scalar(1)));
    assert_eq!(pairing(&[left, (-g1(&TWO_G), g2(&TWO_H))]), Ok(scalar(0)));
}

#[test]
fn three_pairs() {
    let pairs = [(g1(&G), g2(&H)), (g1(&TWO_G), g2(&H)), (-g1(&THREE_G), g2(&H))];
    assert_eq!(pairing(&pairs), Ok(scalar(1)));
}

#[test]
fn a_single_pair_is_not_the_identity() {
    assert_eq!(pairing(&[(g1(&G), g2(&H))]), Ok(scalar(0)));
    assert_eq!(pairing(&[(g1(&G), g2(&H)), (g1(&G), g2(&H))]), Ok(scalar(0)));
}

#[test]
fn no_pairs_give_the_identity() {
    assert_eq!(pairing::<0>(&[]), Ok(scalar(1)));
}

#[test]
fn pairs_with_infinity_give_the_identity() {
    let mut i1 = [0u8; 64];
    i1[63] = 0x40;
    let mut i2 = [0u8; 128];
    i2[127] = 0x40;
    let pairs = [(G1Point(i1), g2(&H)), (g1(&G), G2Point(i2))];
    assert_eq!(pairing(&pairs), Ok(scalar(1)));
    let pairs = [(G1Point([0u8; 64]), g2(&H)), (g1(&G), G2Point([0u8; 128]))];
    assert_eq!(pairing(&pairs), Ok(scalar(1)));
    assert_eq!(pairing(&[pairs[0], (g1(&G), g2(&H))]), Ok(scalar(0)));
}

#[test]
fn the_order_of_the_pairs_is_of_no_account() {
    let a = (g1(&TWO_G), g2(&THREE_H));
    let b = (-g1(&THREE_G), g2(&H));
    let c = (-g1(&THREE_G), g2(&H));
    assert_eq!(pairing(&[a, b, c]), Ok(scalar(1)));
    assert_eq!(pairing(&[c, a, b]), Ok(scalar(1)));
    assert_eq!(pairing(&[b, c, a]), Ok(scalar(1)));
    let bad = (G1Point([1u8; 64]), g2(&H));
    assert_eq!(pairing(&[a, bad]), pairing(&[bad, a]));
}

#[test]
fn the_pairing_is_linear_in_its_first_argument() {
    let (a, b, h) = (g1(&TWO_G), g1(&THREE_G), g2(&TWO_H));
    let c = (a + b).unwrap();
    assert_eq!(pairing(&[(a, h), (b, h), (-c, h)]), Ok(scalar(1)));
    assert_eq!(pairing(&[(a, h), (b, h), (c, h)]), Ok(scalar(0)));
    // A sum that is infinity drops out.
    let zero = (a - a).unwrap();
    assert_eq!(pairing(&[(a, h), (-a, h), (zero, h)]), Ok(scalar(1)));
}

#[test]
fn invalid_pairs_are_refused() {
    let refused = Err(AltBn128Error::GroupError);
    let good = (g1(&G), g2(&H));
    assert_eq!(pairing(&[good, (G1Point([1u8; 64]), g2(&H))]), refused);
    assert_eq!(pairing(&[(g1(&G), G2Point([1u8; 128])), good]), refused);
    assert_eq!(pairing(&[good, (g1(&G), g2(&OUTSIDE))]), refused);
}

#[test]
fn only_the_identity_gives_one() {
    let mut f = vec![fq(0); 12];
    assert_eq!(pairing_outcome(&f), scalar(0));
    f[0] = fq(1);
    assert_eq!(pairing_outcome(&f), scalar(1));
    f[0] = fq(2);
    assert_eq!(pairing_outcome(&f), scalar(0));
    f[0] = Fq { limbs: [1, 0, 0, 1] };
    assert_eq!(pairing_outcome(&f), scalar(0));
    f[0] = fq(1);
    f[11] = Fq { limbs: [0, 0, 1, 0] };
    assert_eq!(pairing_outcome(&f), scalar(0));
    assert_eq!(pairing_outcome(&vec![fq(1)]), scalar(0));
    assert_eq!(pairing_outcome(&Vec::new()), scalar(0));
}

#[test]
fn encoding_writes_the_coordinates_side_by_side() {
    let p = G1Affine { x: Fq { limbs: [1, 2, 3, 4] }, y: Fq { limbs: [5, 6, 7, 8] }, infinity: false };
    let mut expected = [0u8; 64];
    for i in 0..8 {
        expected[8 * i] = i as u8 + 1;
    }
    assert_eq!(g1_encode(&p), Ok(G1Point(expected)));
    let x = Fq2 { c0: fq(1), c1: fq(2) };
    let y = Fq2 { c0: fq(3), c1: fq(4) };
    let mut expected = [0u8; 128];
    for i in 0..4 {
        expected[32 * i] = i as u8 + 1;
    }
    assert_eq!(g2_encode(&G2Affine { x, y, infinity: false }), Ok(G2Point(expected)));
}

#[test]
fn encoding_infinity_gives_zeros() {
    let p = G1Affine { x: fq(0), y: fq(0), infinity: true };
    assert_eq!(g1_encode(&p), Ok(G1Point([0u8; 64])));
    let zero = Fq2 { c0: fq(0), c1: fq(0) };
    let p = G2Affine { x: zero, y: zero, infinity: true };
    assert_eq!(g2_encode(&p), Ok(G2Point([0u8; 128])));
}

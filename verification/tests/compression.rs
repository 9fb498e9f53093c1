use ark_bn254::{G1Affine, G2Affine};
use ark_serialize::{CanonicalDeserialize, CanonicalSerialize};
use solana_nostd_alt_bn128::compression::{g1_unpack, g2_unpack};
use solana_nostd_alt_bn128::curve::{G1Affine as G1Limbs, G2Affine as G2Limbs};
use solana_nostd_alt_bn128::field::{fq_gt_half, Fq, Fq2};
use solana_nostd_alt_bn128::{
    g1_compress, g1_decompress, g2_compress, g2_decompress, AltBn128Error, G1Point, G2Point,
    ALT_BN128_G1_COMPRESS, ALT_BN128_G1_DECOMPRESS, ALT_BN128_G2_COMPRESS, ALT_BN128_G2_DECOMPRESS,
};

/// The byte at position `i` of a big-endian hex string of 32 bytes.
fn hex_byte(hex: &str, i: usize) -> u8 {
    u8::from_str_radix(&hex[2 * i..2 * i + 2], 16).unwrap()
}

/// Big-endian hex words as little-endian 32-byte words, side by side.
fn words<const N: usize>(hex: &[&str]) -> [u8; N] {
    let mut out = [0u8; N];
    for (w, h) in hex.iter().enumerate() {
        for i in 0..32 {
            out[32 * w + i] = hex_byte(h, 31 - i);
        }
    }
    out
}

const G: [&str; 2] = [
    "0000000000000000000000000000000000000000000000000000000000000001",
    "0000000000000000000000000000000000000000000000000000000000000002",
];

const NEG_G: [&str; 2] = [
    "0000000000000000000000000000000000000000000000000000000000000001",
    "30644e72e131a029b85045b68181585d97816a916871ca8d3c208c16d87cfd45",
];

const TWO_G: [&str; 2] = [
    "030644e72e131a029b85045b68181585d97816a916871ca8d3c208c16d87cfd3",
    "15ed738c0e0a7c92e7845f96b2ae9c0a68a6a449e3538fc7ff3ebf7a5a18a2c4",
];

const THREE_G: [&str; 2] = [
    "0769bf9ac56bea3ff40232bcb1b6bd159315d84715b8e679f2d355961915abf0",
    "2ab799bee0489429554fdb7c8d086475319e63b40b9c5b57cdf1ff3dd9fe2261",
];

const H: [&str; 4] = [
    "1800deef121f1e76426a00665e5c4479674322d4f75edadd46debd5cd992f6ed",
    "198e9393920d483a7260bfb731fb5d25f1aa493335a9e71297e485b7aef312c2",
    "12c85ea5db8c6deb4aab71808dcb408fe3d1e7690c43d37b4ce6cc0166fa7daa",
    "090689d0585ff075ec9e99ad690c3395bc4b313370b38ef355acdadcd122975b",
];

const NEG_H: [&str; 4] = [
    "1800deef121f1e76426a00665e5c4479674322d4f75edadd46debd5cd992f6ed",
    "198e9393920d483a7260bfb731fb5d25f1aa493335a9e71297e485b7aef312c2",
    "1d9befcd05a5323e6da4d435f3b617cdb3af83285c2df711ef39c01571827f9d",
    "275dc4a288d1afb3cbb1ac09187524c7db36395df7be3b99e673b13a075a65ec",
];

const TWO_H: [&str; 4] = [
    "27dc7234fd11d3e8c36c59277c3e6f149d5cd3cfa9a62aee49f8130962b4b3b9",
    "203e205db4f19b37b60121b83a7333706db86431c6d835849957ed8c3928ad79",
    "04bb53b8977e5f92a0bc372742c4830944a59b4fe6b1c0466e2a6dad122b5d2e",
    "195e8aa5b7827463722b8c153931579d3505566b4edf48d498e185f0509de152",
];

/// On the G2 curve, outside the prime-order subgroup.
const OUTSIDE: [&str; 4] = [
    "0000000000000000000000000000000000000000000000000000000000000001",
    "0000000000000000000000000000000000000000000000000000000000000000",
    "2869111d5381f072f8e2728fdb825a51aadd70e52c9830e9ab4b871c0531f1bb",
    "0d1271953ed9ea0836846e70a1934187998c7f790cb4d7511b7f8da82de048a4",
];

/// The base field modulus.
const MODULUS: [&str; 1] = [
    "30644e72e131a029b85045b68181585d97816a916871ca8d3c208c16d87cfd47",
];

/// On the G2 curve, with `y.c1 = 0`.
const REAL_Y: [&str; 4] = [
    "2546ace32139a7a3c69640d9df58e150b88a42c976cafdef331b58675f396376",
    "2994b43083ae5696b5cceb1ac5215caea04df0465b26971adc5ce02d0eb9cf1e",
    "0000000000000000000000000000000000000000000000000000000000000004",
    "0000000000000000000000000000000000000000000000000000000000000000",
];

/// On the G2 curve, with `y.c0 = 0`.
const IMAGINARY_Y: [&str; 4] = [
    "0a0d4094608728f1b8f623b4cdf0ccb597eb4eb88cdc572e1dcc383891b6e830",
    "1162dbbba03b247009eeb574e73a5c682869a85a205124f4e630b6cab40a5efc",
    "0000000000000000000000000000000000000000000000000000000000000000",
    "0000000000000000000000000000000000000000000000000000000000000002",
];

fn g1(hex: &[&str]) -> G1Point {
    G1Point(words(hex))
}

fn g2(hex: &[&str]) -> G2Point {
    G2Point(words(hex))
}

/// The compressed form that Arkworks writes.
fn ark_g1(p: &G1Point) -> [u8; 32] {
    let p = G1Affine::deserialize_uncompressed_unchecked(&p.0[..]).unwrap();
    let mut out = [0u8; 32];
    p.serialize_compressed(&mut out[..]).unwrap();
    out
}

/// The compressed form that Arkworks writes.
fn ark_g2(p: &G2Point) -> [u8; 64] {
    let p = G2Affine::deserialize_uncompressed_unchecked(&p.0[..]).unwrap();
    let mut out = [0u8; 64];
    p.serialize_compressed(&mut out[..]).unwrap();
    out
}

const REFUSED_G1: Result<G1Point, AltBn128Error> = Err(AltBn128Error::CompressionError);
const REFUSED_G2: Result<G2Point, AltBn128Error> = Err(AltBn128Error::CompressionError);

#[test]
fn g1_compress_generator_and_negation() {
    let mut expected = [0u8; 32];
    expected[0] = 1;
    assert_eq!(g1_compress(&g1(&G)), expected);
    expected[31] = 0x80;
    assert_eq!(g1_compress(&g1(&NEG_G)), expected);
}

#[test]
fn g1_compress_matches_arkworks() {
    for p in [g1(&G), g1(&TWO_G), g1(&THREE_G)] {
        assert_eq!(g1_compress(&p), ark_g1(&p));
        assert_eq!(g1_compress(&-p), ark_g1(&-p));
    }
    let mut infinity = [0u8; 32];
    G1Affine::identity().serialize_compressed(&mut infinity[..]).unwrap();
    assert_eq!(g1_compress(&G1Point([0u8; 64])), infinity);
}

#[test]
fn g2_compress_matches_arkworks() {
    for p in [g2(&H), g2(&TWO_H), g2(&OUTSIDE), g2(&REAL_Y), g2(&IMAGINARY_Y)] {
        assert_eq!(g2_compress(&p), ark_g2(&p));
        assert_eq!(g2_compress(&-p), ark_g2(&-p));
    }
    let mut infinity = [0u8; 64];
    G2Affine::identity().serialize_compressed(&mut infinity[..]).unwrap();
    assert_eq!(g2_compress(&G2Point([0u8; 128])), infinity);
}

#[test]
fn compress_infinity_sets_the_flag_alone() {
    let mut expected = [0u8; 32];
    expected[31] = 0x40;
    assert_eq!(g1_compress(&G1Point([0u8; 64])), expected);
    let mut expected = [0u8; 64];
    expected[63] = 0x40;
    assert_eq!(g2_compress(&G2Point([0u8; 128])), expected);
}

#[test]
fn compress_does_not_check_the_curve() {
    let mut bytes = [7u8; 64];
    bytes[63] = 0x30;
    let mut expected = [7u8; 32];
    assert_eq!(g1_compress(&G1Point(bytes)), {
        expected[31] |= 0x80;
        expected
    });
    bytes[63] = 0;
    assert_eq!(g1_compress(&G1Point(bytes)), [7u8; 32]);
    // x = 0 with y > 0 is not the point at infinity.
    let mut bytes = [0u8; 64];
    bytes[32] = 1;
    assert_eq!(g1_compress(&G1Point(bytes)), [0u8; 32]);
}

#[test]
fn g2_sign_is_that_of_c1_unless_it_is_zero() {
    let mut bytes = [0u8; 128];
    bytes[95] = 0x30;
    assert_eq!(g2_compress(&G2Point(bytes))[63], 0x80);
    bytes[96] = 1;
    assert_eq!(g2_compress(&G2Point(bytes))[63], 0);
    bytes[127] = 0x30;
    bytes[95] = 0;
    assert_eq!(g2_compress(&G2Point(bytes))[63], 0x80);
}

#[test]
fn the_sign_changes_above_half_of_the_field() {
    let mut half = words::<32>(&[
        "183227397098d014dc2822db40c0ac2ecbc0b548b438e5469e10460b6c3e7ea3",
    ]);
    assert!(!fq_gt_half(&half));
    half[0] += 1;
    assert!(fq_gt_half(&half));
    assert!(!fq_gt_half(&[0u8; 32]));
    assert!(fq_gt_half(&[0xff; 32]));
}

#[test]
fn g1_round_trip() {
    for p in [g1(&G), g1(&NEG_G), g1(&TWO_G), -g1(&TWO_G), g1(&THREE_G), G1Point([0u8; 64])] {
        assert_eq!(g1_decompress(&g1_compress(&p)), Ok(p));
    }
}

#[test]
fn g2_round_trip() {
    let points = [
        g2(&H),
        g2(&NEG_H),
        g2(&TWO_H),
        g2(&OUTSIDE),
        -g2(&OUTSIDE),
        g2(&REAL_Y),
        -g2(&REAL_Y),
        g2(&IMAGINARY_Y),
        -g2(&IMAGINARY_Y),
        G2Point([0u8; 128]),
    ];
    for p in points {
        assert_eq!(g2_decompress(&g2_compress(&p)), Ok(p));
    }
}

#[test]
fn compressed_bytes_round_trip() {
    for sign in [0u8, 0x80] {
        let mut c = [0u8; 32];
        c[0] = 1;
        c[31] = sign;
        assert_eq!(g1_compress(&g1_decompress(&c).unwrap()), c);
        let mut c = [0u8; 64];
        c[0] = 1;
        c[63] = sign;
        assert_eq!(g2_compress(&g2_decompress(&c).unwrap()), c);
    }
}

#[test]
fn decompress_drops_what_stands_beside_the_infinity_flag() {
    let mut c = [0u8; 32];
    c[0] = 5;
    c[31] = 0x40;
    assert_eq!(g1_decompress(&c), Ok(G1Point([0u8; 64])));
    let mut c = [0u8; 64];
    c[0] = 5;
    c[63] = 0x40;
    assert_eq!(g2_decompress(&c), Ok(G2Point([0u8; 128])));
}

#[test]
fn decompress_refuses_an_x_without_a_point() {
    // 3 is no square in Fq, nor is the curve constant in Fq2.
    assert_eq!(g1_decompress(&[0u8; 32]), REFUSED_G1);
    assert_eq!(g2_decompress(&[0u8; 64]), REFUSED_G2);
}

#[test]
fn decompress_refuses_unreduced_x_and_both_flags() {
    let mut c = words::<32>(&MODULUS);
    c[0] += 1;
    assert_eq!(g1_decompress(&c), REFUSED_G1);
    let mut c = [0u8; 32];
    c[0] = 1;
    c[31] = 0xc0;
    assert_eq!(g1_decompress(&c), REFUSED_G1);
    let mut c = [0u8; 64];
    c[..32].copy_from_slice(&words::<32>(&MODULUS));
    c[0] += 1;
    assert_eq!(g2_decompress(&c), REFUSED_G2);
    let mut c = [0u8; 64];
    c[0] = 1;
    c[63] = 0xc0;
    assert_eq!(g2_decompress(&c), REFUSED_G2);
}

#[test]
fn decompressed_points_are_on_the_curve() {
    let mut c = [0u8; 64];
    c[0] = 1;
    let p = g2_decompress(&c).unwrap();
    assert!((p + p).is_ok());
    assert_eq!(p.check_prime_subgroup(), Err(AltBn128Error::GroupError));
}

#[test]
fn unpacking_writes_the_coordinates_side_by_side() {
    let fq = |n: u64| Fq { limbs: [n, 0, 0, n] };
    let mut expected = [0u8; 64];
    for i in 0..2 {
        expected[32 * i] = i as u8 + 1;
        expected[32 * i + 24] = i as u8 + 1;
    }
    let p = G1Limbs { x: fq(1), y: fq(2), infinity: false };
    assert_eq!(g1_unpack(&p), Ok(G1Point(expected)));
    let mut expected = [0u8; 128];
    for i in 0..4 {
        expected[32 * i] = i as u8 + 1;
        expected[32 * i + 24] = i as u8 + 1;
    }
    let p = G2Limbs {
        x: Fq2 { c0: fq(1), c1: fq(2) },
        y: Fq2 { c0: fq(3), c1: fq(4) },
        infinity: false,
    };
    assert_eq!(g2_unpack(&p), Ok(G2Point(expected)));
}

#[test]
fn compression_selectors() {
    assert_eq!(ALT_BN128_G1_COMPRESS, 0x80);
    assert_eq!(ALT_BN128_G1_DECOMPRESS, 0x81);
    assert_eq!(ALT_BN128_G2_COMPRESS, 0x82);
    assert_eq!(ALT_BN128_G2_DECOMPRESS, 0x83);
}

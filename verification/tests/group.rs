use solana_nostd_alt_bn128::{AltBn128Error, G1Point, G2Point};

/// The byte at position `i` of a big-endian hex string of 32 bytes.
fn hex_byte(hex: &str, i: usize) -> u8 {
    u8::from_str_radix(&hex[2 * i..2 * i + 2], 16).unwrap()
}

/// Big-endian hex words as little-endian 32-byte words, side by side.
fn words<const N: usize>(hex: &[&str]) -> [u8; N] {
    let mut out = [0u8; N];
    for (w, h) in hex.iter().enumerate() {
        for i in 0..32 {
            out[32 * w + i] = hex_byte(h, 31 - i);
        }
    }
    out
}

/// A small number as a 32-byte scalar.
fn scalar(n: u64) -> [u8; 32] {
    let mut out = [0u8; 32];
    out[..8].copy_from_slice(&n.to_le_bytes());
    out
}

const G: [&str; 2] = [
    "0000000000000000000000000000000000000000000000000000000000000001",
    "0000000000000000000000000000000000000000000000000000000000000002",
];

const NEG_G: [&str; 2] = [
    "0000000000000000000000000000000000000000000000000000000000000001",
    "30644e72e131a029b85045b68181585d97816a916871ca8d3c208c16d87cfd45",
];

const TWO_G: [&str; 2] = [
    "030644e72e131a029b85045b68181585d97816a916871ca8d3c208c16d87cfd3",
    "15ed738c0e0a7c92e7845f96b2ae9c0a68a6a449e3538fc7ff3ebf7a5a18a2c4",
];

const THREE_G: [&str; 2] = [
    "0769bf9ac56bea3ff40232bcb1b6bd159315d84715b8e679f2d355961915abf0",
    "2ab799bee0489429554fdb7c8d086475319e63b40b9c5b57cdf1ff3dd9fe2261",
];

const H: [&str; 4] = [
    "1800deef121f1e76426a00665e5c4479674322d4f75edadd46debd5cd992f6ed",
    "198e9393920d483a7260bfb731fb5d25f1aa493335a9e71297e485b7aef312c2",
    "12c85ea5db8c6deb4aab71808dcb408fe3d1e7690c43d37b4ce6cc0166fa7daa",
    "090689d0585ff075ec9e99ad690c3395bc4b313370b38ef355acdadcd122975b",
];

const NEG_H: [&str; 4] = [
    "1800deef121f1e76426a00665e5c4479674322d4f75edadd46debd5cd992f6ed",
    "198e9393920d483a7260bfb731fb5d25f1aa493335a9e71297e485b7aef312c2",
    "1d9befcd05a5323e6da4d435f3b617cdb3af83285c2df711ef39c01571827f9d",
    "275dc4a288d1afb3cbb1ac09187524c7db36395df7be3b99e673b13a075a65ec",
];

const TWO_H: [&str; 4] = [
    "27dc7234fd11d3e8c36c59277c3e6f149d5cd3cfa9a62aee49f8130962b4b3b9",
    "203e205db4f19b37b60121b83a7333706db86431c6d835849957ed8c3928ad79",
    "04bb53b8977e5f92a0bc372742c4830944a59b4fe6b1c0466e2a6dad122b5d2e",
    "195e8aa5b7827463722b8c153931579d3505566b4edf48d498e185f0509de152",
];

const THREE_H: [&str; 4] = [
    "06064e784db10e9051e52826e192715e8d7e478cb09a5e0012defa0694fbc7f5",
    "1014772f57bb9742735191cd5dcfe4ebbc04156b6878a0a7c9824f32ffb66e85",
    "058e1d5681b5b9e0074b0f9c8d2c68a069b920d74521e79765036d57666c5597",
    "021e2335f3354bb7922ffcc2f38d3323dd9453ac49b55441452aeaca147711b2",
];

/// On the G2 curve, outside the prime-order subgroup.
const OUTSIDE: [&str; 4] = [
    "0000000000000000000000000000000000000000000000000000000000000001",
    "0000000000000000000000000000000000000000000000000000000000000000",
    "2869111d5381f072f8e2728fdb825a51aadd70e52c9830e9ab4b871c0531f1bb",
    "0d1271953ed9ea0836846e70a1934187998c7f790cb4d7511b7f8da82de048a4",
];

const TWO_OUTSIDE: [&str; 4] = [
    "1d73c7947bd0f6392bc364b0d7a5ac831d1797cfabb47bb7f1d6040c2389dd3d",
    "02962234ed23c17f94e2bedef0da557ed2b0d91dd73cd01f621c38ec08ec329d",
    "1a5a1d69a67e48e6b5596f23a1519890805a41f19a47be9f73ec6a0597f727f1",
    "2ffea3837d3c792ab180b2e09858a50a43f5875da74f9a8c5e3ae538d1c7ced5",
];

const H_AND_OUTSIDE: [&str; 4] = [
    "0df5b6e07b95c8de8160ea9c0d05b57c6c28ba4014a140416f123e59afaf0716",
    "0a4e113f18c666e6599806e109b746f4fcf7125e641020e4aeb06d57556fc551",
    "21532f1a5b068c2abe8a76508ae477a6274e6d473ae797d0a8310600574e982b",
    "1170be53d7580ac018ff4e4427f3b978f0ecdcc035410f35aa711d702a13a0c2",
];

/// The generator `2^256 - 1` times.
const MAX_G: [&str; 2] = [
    "2f588cffe99db877a4434b598ab28f81e0522910ea52b45f0adaa772b2d5d352",
    "12f42fa8fd34fb1b33d8c6a718b6590198389b26fc9d8808d971f8b009777a97",
];

/// The generator `2^256 - 1` times.
const MAX_H: [&str; 4] = [
    "2fca16fc43f7283679e062bfc2bbf54f708772c60b0f4b45358613c3eca37113",
    "18c1beedba41ddf9af588015b878aca9dc39ab7c42f25492229ae1796076ab3f",
    "1edc0a927e4e6907abe201f714d3d89d7f0dbb7001293d37ff1233d208208404",
    "2c64a7dba9f4202c9a4bd4089bcf281c4c7c90c80efa266bbb36256e82047ceb",
];

/// The generator times the scalar whose bytes count from 1 to 32.
const COUNT_G: [&str; 2] = [
    "27d7a8a01d025ac54571cd595ac7f278337c10afa001758246019b22e7a5375e",
    "01143b1232b6878b07c7c58502d2bced21398c510b2bb8e95414abe05c3dcabe",
];

/// The generator times the scalar whose bytes count from 1 to 32.
const COUNT_H: [&str; 4] = [
    "2b8973890456b4ccf8325a5282b10b4b05a68f95d9bbf923e7f0d1d0c639773e",
    "1b8e6e2256e8c95ff72de21330fb157ca4f21c60b9fcfe125a55d479962c313a",
    "26d2c476bf89338aa66b9cdcbac0ff336642e929ff0c5a7dbda7e4e758952b3e",
    "223a90407f6e6b8c48e7f3dbad11325c445762c3debdf8244e43c76ec3b27eb7",
];

/// The order of both groups.
const ORDER: [&str; 1] = [
    "30644e72e131a029b85045b68181585d2833e84879b9709143e1f593f0000001",
];

/// The base field modulus.
const MODULUS: [&str; 1] = [
    "30644e72e131a029b85045b68181585d97816a916871ca8d3c208c16d87cfd47",
];

/// On the G2 curve, with `y.c1 = 0`.
const REAL_Y: [&str; 4] = [
    "2546ace32139a7a3c69640d9df58e150b88a42c976cafdef331b58675f396376",
    "2994b43083ae5696b5cceb1ac5215caea04df0465b26971adc5ce02d0eb9cf1e",
    "0000000000000000000000000000000000000000000000000000000000000004",
    "0000000000000000000000000000000000000000000000000000000000000000",
];

/// On the G2 curve, with `y.c0 = 0`.
const IMAGINARY_Y: [&str; 4] = [
    "0a0d4094608728f1b8f623b4cdf0ccb597eb4eb88cdc572e1dcc383891b6e830",
    "1162dbbba03b247009eeb574e73a5c682869a85a205124f4e630b6cab40a5efc",
    "0000000000000000000000000000000000000000000000000000000000000000",
    "0000000000000000000000000000000000000000000000000000000000000002",
];

fn g1(hex: &[&str]) -> G1Point {
    G1Point(words(hex))
}

fn g2(hex: &[&str]) -> G2Point {
    G2Point(words(hex))
}

/// `bytes` with the given bits set in the last byte.
fn flagged<const N: usize>(bytes: [u8; N], bits: u8) -> [u8; N] {
    let mut out = bytes;
    out[N - 1] |= bits;
    out
}

const REFUSED_G1: Result<G1Point, AltBn128Error> = Err(AltBn128Error::GroupError);
const REFUSED_G2: Result<G2Point, AltBn128Error> = Err(AltBn128Error::GroupError);

// ---- Negation ----

#[test]
fn g1_negate_generator() {
    assert_eq!(-g1(&G), g1(&NEG_G));
    assert_eq!(g1(&G).negate(), g1(&NEG_G));
}

#[test]
fn g2_negate_generator() {
    assert_eq!(-g2(&H), g2(&NEG_H));
    assert_eq!(g2(&H).negate(), g2(&NEG_H));
}

#[test]
fn negate_twice_gives_the_point_back() {
    assert_eq!(-(-g1(&TWO_G)), g1(&TWO_G));
    assert_eq!(-(-g2(&TWO_H)), g2(&TWO_H));
    assert_eq!(-(-g2(&OUTSIDE)), g2(&OUTSIDE));
}

#[test]
fn negate_keeps_infinity() {
    assert_eq!(-G1Point([0u8; 64]), G1Point([0u8; 64]));
    assert_eq!(-G2Point([0u8; 128]), G2Point([0u8; 128]));
}

#[test]
fn negate_keeps_x() {
    assert_eq!((-g1(&TWO_G)).0[..32], g1(&TWO_G).0[..32]);
    assert_eq!((-g2(&TWO_H)).0[..64], g2(&TWO_H).0[..64]);
}

#[test]
fn negate_treats_each_component_of_y_alone() {
    let real = -g2(&REAL_Y);
    assert_eq!(real.0[64], 0x43);
    assert_eq!(real.0[96..], [0u8; 32]);
    let imaginary = -g2(&IMAGINARY_Y);
    assert_eq!(imaginary.0[64..96], [0u8; 32]);
    assert_eq!(imaginary.0[96], 0x45);
}

#[test]
fn negate_wraps_above_the_modulus() {
    // y = q goes to 0, y = q + 1 wraps around to 2^256 - 1.
    let mut bytes = [0u8; 64];
    bytes[32..].copy_from_slice(&words::<32>(&MODULUS));
    assert_eq!(-G1Point(bytes), G1Point([0u8; 64]));
    bytes[32] += 1;
    let mut wrapped = [0u8; 64];
    wrapped[32..].copy_from_slice(&[0xff; 32]);
    assert_eq!(-G1Point(bytes), G1Point(wrapped));
}

#[test]
fn negation_of_a_sum_and_of_a_multiple() {
    let (a, b) = (g1(&G), g1(&TWO_G));
    assert_eq!((-a) + (-b), (a + b).map(|s| -s));
    assert_eq!((-b) * scalar(7), (b * scalar(7)).map(|s| -s));
    let (a, b) = (g2(&H), g2(&TWO_H));
    assert_eq!((-a) + (-b), (a + b).map(|s| -s));
    assert_eq!((-b) * scalar(7), (b * scalar(7)).map(|s| -s));
    let n = g2(&OUTSIDE);
    assert_eq!((-a) + (-n), (a + n).map(|s| -s));
}

// ---- Addition and subtraction ----

#[test]
fn g1_double_matches_scalar_two() {
    let g = g1(&G);
    assert_eq!(g + g, Ok(g1(&TWO_G)));
    assert_eq!(g * scalar(2), Ok(g1(&TWO_G)));
}

#[test]
fn g1_add_different_points() {
    assert_eq!(g1(&G) + g1(&TWO_G), Ok(g1(&THREE_G)));
    assert_eq!(g1(&TWO_G) + g1(&G), Ok(g1(&THREE_G)));
}

#[test]
fn g2_add_known_points() {
    assert_eq!(g2(&H) + g2(&H), Ok(g2(&TWO_H)));
    assert_eq!(g2(&H) + g2(&TWO_H), Ok(g2(&THREE_H)));
}

#[test]
fn g2_add_takes_points_outside_the_subgroup() {
    assert_eq!(g2(&OUTSIDE) + g2(&OUTSIDE), Ok(g2(&TWO_OUTSIDE)));
    assert_eq!(g2(&H) + g2(&OUTSIDE), Ok(g2(&H_AND_OUTSIDE)));
}

#[test]
fn sub_undoes_add() {
    assert_eq!(g1(&THREE_G) - g1(&TWO_G), Ok(g1(&G)));
    assert_eq!(g2(&THREE_H) - g2(&TWO_H), Ok(g2(&H)));
    assert_eq!(g2(&H_AND_OUTSIDE) - g2(&OUTSIDE), Ok(g2(&H)));
}

#[test]
fn sub_is_add_of_the_negation() {
    assert_eq!(g1(&G) - g1(&TWO_G), g1(&G) + (-g1(&TWO_G)));
    assert_eq!(g1(&G) - g1(&TWO_G), Ok(g1(&NEG_G)));
    assert_eq!(g2(&H) - g2(&TWO_H), g2(&H) + (-g2(&TWO_H)));
    assert_eq!(g2(&H) - g2(&TWO_H), Ok(g2(&NEG_H)));
}

#[test]
fn a_point_minus_itself_is_infinity() {
    assert_eq!(g1(&TWO_G) - g1(&TWO_G), Ok(G1Point([0u8; 64])));
    assert_eq!(g2(&TWO_H) - g2(&TWO_H), Ok(G2Point([0u8; 128])));
    assert_eq!(g2(&OUTSIDE) - g2(&OUTSIDE), Ok(G2Point([0u8; 128])));
}

#[test]
fn sums_and_differences_stay_in_the_subgroup() {
    let sum = (g2(&H) + g2(&TWO_H)).unwrap();
    assert_eq!(sum.check_prime_subgroup(), Ok(()));
    let difference = (g2(&H) - g2(&THREE_H)).unwrap();
    assert_eq!(difference.check_prime_subgroup(), Ok(()));
}

// ---- Operands that are refused, and flags ----

#[test]
fn off_curve_operands_are_refused() {
    let mut bytes = words::<64>(&G);
    bytes[32] = 3;
    let off = G1Point(bytes);
    assert_eq!(off + g1(&G), REFUSED_G1);
    assert_eq!(g1(&G) + off, REFUSED_G1);
    assert_eq!(off - g1(&G), REFUSED_G1);
    assert_eq!(g1(&G) - off, REFUSED_G1);
    assert_eq!(off * scalar(1), REFUSED_G1);
    let mut bytes = words::<128>(&H);
    bytes[64] ^= 1;
    let off = G2Point(bytes);
    assert_eq!(off + g2(&H), REFUSED_G2);
    assert_eq!(g2(&H) + off, REFUSED_G2);
    assert_eq!(g2(&H) - off, REFUSED_G2);
    assert_eq!(off * scalar(1), REFUSED_G2);
    assert_eq!(off.check_prime_subgroup(), Err(AltBn128Error::GroupError));
}

#[test]
fn unreduced_coordinates_are_refused() {
    // x = q + 1 is congruent to the generator's x.
    let mut bytes = words::<64>(&G);
    bytes[..32].copy_from_slice(&words::<32>(&MODULUS));
    bytes[0] += 1;
    assert_eq!(G1Point(bytes) + g1(&G), REFUSED_G1);
    let mut bytes = words::<128>(&OUTSIDE);
    bytes[32..64].copy_from_slice(&words::<32>(&MODULUS));
    assert_eq!(G2Point(bytes) + g2(&H), REFUSED_G2);
}

#[test]
fn zeros_are_the_identity() {
    let zero = G1Point([0u8; 64]);
    assert_eq!(g1(&G) + zero, Ok(g1(&G)));
    assert_eq!(zero + g1(&G), Ok(g1(&G)));
    assert_eq!(zero + zero, Ok(zero));
    assert_eq!(g1(&G) - zero, Ok(g1(&G)));
    assert_eq!(zero - g1(&G), Ok(g1(&NEG_G)));
    assert_eq!(zero * scalar(7), Ok(zero));
    let zero = G2Point([0u8; 128]);
    assert_eq!(g2(&H) + zero, Ok(g2(&H)));
    assert_eq!(zero + g2(&OUTSIDE), Ok(g2(&OUTSIDE)));
    assert_eq!(zero - g2(&H), Ok(g2(&NEG_H)));
    assert_eq!(zero * scalar(7), Ok(zero));
    assert_eq!(zero.check_prime_subgroup(), Ok(()));
}

#[test]
fn a_sum_that_is_infinity_can_be_added_to() {
    let zero = (g1(&TWO_G) - g1(&TWO_G)).unwrap();
    assert_eq!(zero + g1(&G), Ok(g1(&G)));
    let zero = (g2(&TWO_H) - g2(&TWO_H)).unwrap();
    assert_eq!(zero + g2(&H), Ok(g2(&H)));
    let zero = (g1(&TWO_G) * words(&ORDER)).unwrap();
    assert_eq!(zero + g1(&TWO_G), Ok(g1(&TWO_G)));
}

#[test]
fn only_all_zeros_is_infinity_without_a_flag() {
    let mut bytes = [0u8; 64];
    bytes[63] = 1;
    assert_eq!(G1Point(bytes) + g1(&G), REFUSED_G1);
    let mut bytes = [0u8; 128];
    bytes[0] = 1;
    assert_eq!(G2Point(bytes) + g2(&H), REFUSED_G2);
}

#[test]
fn add_does_not_depend_on_the_order() {
    let bad = G1Point([1u8; 64]);
    let points = [g1(&G), g1(&NEG_G), g1(&TWO_G), g1(&THREE_G), G1Point([0u8; 64]), bad];
    for a in points {
        for b in points {
            assert_eq!(a + b, b + a);
        }
    }
    let bad = G2Point([1u8; 128]);
    let points = [g2(&H), g2(&TWO_H), g2(&OUTSIDE), G2Point([0u8; 128]), bad];
    for a in points {
        for b in points {
            assert_eq!(a + b, b + a);
        }
    }
}

#[test]
fn sub_undoes_add_everywhere() {
    // Among the pairs are `a = b`, `a = -b`, and `a = -2b`, whose sum is `-b`.
    let points = [g1(&G), g1(&NEG_G), g1(&TWO_G), -g1(&TWO_G), G1Point([0u8; 64])];
    for a in points {
        for b in points {
            assert_eq!((a + b).unwrap() - b, Ok(a));
            assert_eq!((a - b).unwrap() + b, Ok(a));
        }
    }
    let points = [g2(&H), g2(&NEG_H), -g2(&TWO_H), g2(&OUTSIDE), G2Point([0u8; 128])];
    for a in points {
        for b in points {
            assert_eq!((a + b).unwrap() - b, Ok(a));
            assert_eq!((a - b).unwrap() + b, Ok(a));
        }
    }
}

#[test]
fn flagged_infinity_is_the_identity() {
    let infinity = G1Point(flagged([0u8; 64], 0x40));
    assert_eq!(infinity + g1(&TWO_G), Ok(g1(&TWO_G)));
    assert_eq!(g1(&TWO_G) + infinity, Ok(g1(&TWO_G)));
    assert_eq!(infinity * scalar(5), Ok(G1Point([0u8; 64])));
    let infinity = G2Point(flagged([0u8; 128], 0x40));
    assert_eq!(infinity + g2(&TWO_H), Ok(g2(&TWO_H)));
    assert_eq!(infinity * scalar(5), Ok(G2Point([0u8; 128])));
    assert_eq!(infinity.check_prime_subgroup(), Ok(()));
}

#[test]
fn flagged_infinity_ignores_the_coordinates() {
    assert_eq!(G1Point(flagged(words::<64>(&G), 0x40)) + g1(&TWO_G), Ok(g1(&TWO_G)));
    assert_eq!(G2Point(flagged(words::<128>(&H), 0x40)) + g2(&TWO_H), Ok(g2(&TWO_H)));
}

#[test]
fn flagged_infinity_has_no_negation() {
    let infinity = G1Point(flagged([0u8; 64], 0x40));
    assert_eq!(g1(&G) - infinity, REFUSED_G1);
    let infinity = G2Point(flagged([0u8; 128], 0x40));
    assert_eq!(g2(&H) - infinity, REFUSED_G2);
}

#[test]
fn sign_flag_on_y_says_nothing() {
    assert_eq!(G1Point(flagged(words::<64>(&G), 0x80)) + g1(&TWO_G), Ok(g1(&THREE_G)));
    assert_eq!(G2Point(flagged(words::<128>(&H), 0x80)) + g2(&TWO_H), Ok(g2(&THREE_H)));
}

#[test]
fn both_flags_are_refused() {
    assert_eq!(G1Point(flagged(words::<64>(&G), 0xc0)) + g1(&G), REFUSED_G1);
    assert_eq!(G2Point(flagged(words::<128>(&H), 0xc0)) + g2(&H), REFUSED_G2);
}

// ---- Multiplication ----

#[test]
fn mul_by_zero_one_and_the_order() {
    assert_eq!(g1(&TWO_G) * scalar(0), Ok(G1Point([0u8; 64])));
    assert_eq!(g1(&TWO_G) * scalar(1), Ok(g1(&TWO_G)));
    assert_eq!(g1(&TWO_G) * words(&ORDER), Ok(G1Point([0u8; 64])));
    assert_eq!(g2(&TWO_H) * scalar(0), Ok(G2Point([0u8; 128])));
    assert_eq!(g2(&TWO_H) * scalar(1), Ok(g2(&TWO_H)));
    assert_eq!(g2(&TWO_H) * words(&ORDER), Ok(G2Point([0u8; 128])));
}

#[test]
fn mul_one_more_is_add() {
    let five = (g1(&G) * scalar(5)).unwrap();
    assert_eq!(g1(&G) * scalar(6), five + g1(&G));
    let five = (g2(&H) * scalar(5)).unwrap();
    assert_eq!(g2(&H) * scalar(6), five + g2(&H));
}

#[test]
fn mul_uses_all_scalar_bytes_in_order() {
    let mut count = [0u8; 32];
    for i in 0..32 {
        count[i] = i as u8 + 1;
    }
    assert_eq!(g1(&G) * count, Ok(g1(&COUNT_G)));
    assert_eq!(g2(&H) * count, Ok(g2(&COUNT_H)));
}

#[test]
fn mul_takes_scalars_above_the_order() {
    assert_eq!(g1(&G) * [0xff; 32], Ok(g1(&MAX_G)));
    assert_eq!(g2(&H) * [0xff; 32], Ok(g2(&MAX_H)));
}

#[test]
fn g2_mul_refuses_points_outside_the_subgroup() {
    assert_eq!(g2(&OUTSIDE) * scalar(2), REFUSED_G2);
}

#[test]
fn check_prime_subgroup_tells_members() {
    assert_eq!(g2(&H).check_prime_subgroup(), Ok(()));
    assert_eq!(g2(&NEG_H).check_prime_subgroup(), Ok(()));
    let refused = Err(AltBn128Error::GroupError);
    assert_eq!(g2(&OUTSIDE).check_prime_subgroup(), refused);
    assert_eq!((-g2(&OUTSIDE)).check_prime_subgroup(), refused);
    assert_eq!(g2(&H_AND_OUTSIDE).check_prime_subgroup(), refused);
}

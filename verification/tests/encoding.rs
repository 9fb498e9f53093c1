use solana_nostd_alt_bn128::bytes::is_all_zero;
use solana_nostd_alt_bn128::errors::AltBn128Error;
use solana_nostd_alt_bn128::field::{limbs_from_le_bytes, negate_fq};
use solana_nostd_alt_bn128::syscall::{
    compression_status, g1_add_input, g1_mul_input, g2_add_input, g2_mul_input, group_status,
    pairing_input,
};
use solana_nostd_alt_bn128::{
    convert_endianness, G1Point, G2Point, ProgramError, ALT_BN128_ADD, ALT_BN128_G2_ADD,
    ALT_BN128_G2_MUL, ALT_BN128_MUL, ALT_BN128_PAIRING,
};



/// The bytes `from`, `from + 1`, and so on.
fn count<const N: usize>(from: u8) -> [u8; N] {
    let mut out = [0u8; N];
    for i in 0..N {
        out[i] = from.wrapping_add(i as u8);
    }
    out
}

#[test]
fn convert_endianness_reverses_each_chunk() {
    assert_eq!(convert_endianness::<2, 6>(&[1, 2, 3, 4, 5, 6]), [2, 1, 4, 3, 6, 5]);
    assert_eq!(convert_endianness::<6, 6>(&[1, 2, 3, 4, 5, 6]), [6, 5, 4, 3, 2, 1]);
    assert_eq!(convert_endianness::<1, 3>(&[1, 2, 3]), [1, 2, 3]);
    assert_eq!(convert_endianness::<4, 0>(&[]), []);
    assert_eq!(convert_endianness::<0, 0>(&[]), []);
}

#[test]
fn convert_endianness_is_its_own_inverse() {
    let bytes: [u8; 64] = count(0);
    assert_eq!(convert_endianness::<32, 64>(&convert_endianness::<32, 64>(&bytes)), bytes);
    let bytes: [u8; 128] = count(0);
    assert_eq!(convert_endianness::<64, 128>(&convert_endianness::<64, 128>(&bytes)), bytes);
}

#[test]
fn g1_big_endian_bytes() {
    let mut be = [0u8; 64];
    be[31] = 1;
    be[63] = 2;
    let p = G1Point::from_be_bytes(be);
    assert_eq!((p.0[0], p.0[32]), (1, 2));
    assert_eq!(p.to_be_bytes(), be);
    let p = G1Point::from_le_bytes(count(3));
    assert_eq!(G1Point::from_be_bytes(p.to_be_bytes()), p);
}

#[test]
fn g2_big_endian_bytes() {
    // Big-endian bytes hold the second component of a coordinate first.
    let mut be = [0u8; 128];
    be[31] = 1;
    be[63] = 2;
    be[95] = 3;
    be[127] = 4;
    let p = G2Point::from_be_bytes(be);
    assert_eq!((p.0[0], p.0[32], p.0[64], p.0[96]), (2, 1, 4, 3));
    assert_eq!(p.to_be_bytes(), be);
    let p = G2Point::from_le_bytes(count(3));
    assert_eq!(G2Point::from_be_bytes(p.to_be_bytes()), p);
}

#[test]
fn points_are_their_bytes() {
    let bytes: [u8; 64] = count(9);
    let p = G1Point::from(bytes);
    assert_eq!(p, G1Point::from_le_bytes(bytes));
    assert_eq!(p.to_le_bytes(), bytes);
    assert_eq!(<[u8; 64]>::from(p), bytes);
    assert_eq!(*p, bytes);
    assert!(p == bytes);
    assert!(p != [0u8; 64]);
    assert!(p != G1Point([0u8; 64]));
    let bytes: [u8; 128] = count(9);
    let p = G2Point::from(bytes);
    assert_eq!(p, G2Point::from_le_bytes(bytes));
    assert_eq!(p.to_le_bytes(), bytes);
    assert_eq!(<[u8; 128]>::from(p), bytes);
    assert_eq!(*p, bytes);
    assert!(p == bytes);
    assert!(p != [0u8; 128]);
    assert!(p != G2Point([0u8; 128]));
}

#[test]
fn zero_bytes_are_told_apart() {
    assert!(is_all_zero(&[]));
    assert!(is_all_zero(&[0u8; 64]));
    for i in 0..64 {
        let mut bytes = [0u8; 64];
        bytes[i] = 1;
        assert!(!is_all_zero(&bytes));
    }
}

#[test]
fn field_elements_negate_to_the_modulus() {
    let mut c = [0u8; 32];
    assert_eq!(negate_fq(c), c);
    c[0] = 1;
    let n = negate_fq(c);
    assert_eq!((n[0], n[1], n[31]), (0x46, 0xfd, 0x30));
    assert_eq!(negate_fq(n), c);
    c[1] = 0xff;
    assert_eq!(negate_fq(negate_fq(c)), c);
}

#[test]
fn limbs_are_little_endian() {
    let mut bytes = [0u8; 32];
    bytes[0] = 1;
    bytes[9] = 2;
    bytes[18] = 3;
    bytes[31] = 4;
    assert_eq!(limbs_from_le_bytes(&bytes), [1, 0x200, 0x30000, 0x0400_0000_0000_0000]);
    assert_eq!(limbs_from_le_bytes(&[0xff; 32]), [u64::MAX; 4]);
}

#[test]
fn operands_lie_side_by_side() {
    let (a, b) = (G1Point(count(1)), G1Point(count(101)));
    let s: [u8; 32] = count(201);
    assert_eq!(g1_add_input(&a, &b)[..64], a.0);
    assert_eq!(g1_add_input(&a, &b)[64..], b.0);
    assert_eq!(g1_mul_input(&a, &s)[..64], a.0);
    assert_eq!(g1_mul_input(&a, &s)[64..], s);
    let (c, d) = (G2Point(count(11)), G2Point(count(111)));
    assert_eq!(g2_add_input(&c, &d)[..128], c.0);
    assert_eq!(g2_add_input(&c, &d)[128..], d.0);
    assert_eq!(g2_mul_input(&c, &s)[..128], c.0);
    assert_eq!(g2_mul_input(&c, &s)[128..], s);
    let slots = pairing_input(&[(a, c), (b, d)]);
    assert_eq!(slots.len(), 2);
    assert_eq!(slots[0][..64], a.0);
    assert_eq!(slots[0][64..], c.0);
    assert_eq!(slots[1][..64], b.0);
    assert_eq!(slots[1][64..], d.0);
}

#[test]
fn status_zero_is_success() {
    assert_eq!(group_status(0), Ok(()));
    assert_eq!(group_status(1), Err(AltBn128Error::GroupError));
    assert_eq!(group_status(u64::MAX), Err(AltBn128Error::GroupError));
    assert_eq!(compression_status(0), Ok(()));
    assert_eq!(compression_status(1), Err(AltBn128Error::CompressionError));
}

#[test]
fn group_selectors() {
    assert_eq!(ALT_BN128_ADD, 0x80);
    assert_eq!(ALT_BN128_MUL, 0x82);
    assert_eq!(ALT_BN128_PAIRING, 0x83);
    assert_eq!(ALT_BN128_G2_ADD, 0x84);
    assert_eq!(ALT_BN128_G2_MUL, 0x86);
}

#[test]
fn errors_become_invalid_argument() {
    assert_eq!(ProgramError::from(AltBn128Error::GroupError), ProgramError::InvalidArgument);
    let e: ProgramError = AltBn128Error::CompressionError.into();
    assert_eq!(e, ProgramError::InvalidArgument);
}

fn entrypoint(a: G1Point) -> Result<G1Point, ProgramError> {
    Ok((a + a)?)
}

#[test]
fn errors_propagate_from_an_entrypoint() {
    assert_eq!(entrypoint(G1Point([1u8; 64])), Err(ProgramError::InvalidArgument));
}

#[test]
fn errors_have_a_message() {
    assert_eq!(AltBn128Error::GroupError.message(), "alt_bn128 group operation failed");
    assert_eq!(AltBn128Error::CompressionError.message(), "alt_bn128 (de)compression failed");
}

//! The requests that the SVM runtime takes for these operations: how the operands of a
//! `sol_alt_bn128_group_op` call are laid out in one buffer, and what its status, or that
//! of `sol_alt_bn128_compression`, means.
use vstd::prelude::*;

use crate::bytes::put;
use crate::errors::AltBn128Error;
use crate::group_operations::{G1Point, G1Scalar, G2Point, G2Scalar};

verus! {

/// The operands of a G1 addition, `a || b`.
pub fn g1_add_input(a: &G1Point, b: &G1Point) -> (r: [u8; 128])
    ensures
        r@ == a@ + b@,
{
    let buffer: [u8; 128] = put(put([0u8; 128], 0, &a.0), 64, &b.0);
    assert(buffer@ =~= a@ + b@);
    buffer
}

/// The operands of a G1 scalar multiplication, `point || scalar`.
pub fn g1_mul_input(point: &G1Point, scalar: &G1Scalar) -> (r: [u8; 96])
    ensures
        r@ == point@ + scalar@,
{
    let buffer: [u8; 96] = put(put([0u8; 96], 0, &point.0), 64, scalar);
    assert(buffer@ =~= point@ + scalar@);
    buffer
}

/// The operands of a G2 addition, `a || b`.
pub fn g2_add_input(a: &G2Point, b: &G2Point) -> (r: [u8; 256])
    ensures
        r@ == a@ + b@,
{
    let buffer: [u8; 256] = put(put([0u8; 256], 0, &a.0), 128, &b.0);
    assert(buffer@ =~= a@ + b@);
    buffer
}

/// The operands of a G2 scalar multiplication, `point || scalar`.
pub fn g2_mul_input(point: &G2Point, scalar: &G2Scalar) -> (r: [u8; 160])
    ensures
        r@ == point@ + scalar@,
{
    let buffer: [u8; 160] = put(put([0u8; 160], 0, &point.0), 128, scalar);
    assert(buffer@ =~= point@ + scalar@);
    buffer
}

/// The operands of a multi-pairing, one `G1 || G2` slot per pair.
pub fn pairing_input<const N: usize>(input: &[(G1Point, G2Point); N]) -> (r: [[u8; 192]; N])
    ensures
        forall|i: int| 0 <= i < N ==> (#[trigger] r@[i])@ == input@[i].0@ + input@[i].1@,
{
    let mut buffer = [[0u8; 192]; N];
    let mut i: usize = 0;
    while i < N
        invariant
            i <= N,
            forall|j: int|
                0 <= j < i ==> (#[trigger] buffer@[j])@ == input@[j].0@ + input@[j].1@,
        decreases N - i,
    {
        let (g1, g2) = input[i];
        let slot: [u8; 192] = put(put([0u8; 192], 0, &g1.0), 64, &g2.0);
        assert(slot@ =~= g1@ + g2@);
        buffer[i] = slot;
        i += 1;
    }
    buffer
}

/// The meaning of a `sol_alt_bn128_group_op` status: zero is success.
pub fn group_status(status: u64) -> (r: Result<(), AltBn128Error>)
    ensures
        status == 0 ==> r is Ok,
        status != 0 ==> r == Err::<(), AltBn128Error>(AltBn128Error::GroupError),
{
    match status {
        0 => Ok(()),
        _ => Err(AltBn128Error::GroupError),
    }
}

/// The meaning of a `sol_alt_bn128_compression` status: zero is success.
pub fn compression_status(status: u64) -> (r: Result<(), AltBn128Error>)
    ensures
        status == 0 ==> r is Ok,
        status != 0 ==> r == Err::<(), AltBn128Error>(AltBn128Error::CompressionError),
{
    match status {
        0 => Ok(()),
        _ => Err(AltBn128Error::CompressionError),
    }
}

} // verus!

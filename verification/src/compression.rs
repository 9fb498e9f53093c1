//! BN254 point (de)compression over the little-endian SVM wire format.
//!
//! Compression is pure byte re-encoding of the x-coordinate plus a sign flag.
//! Decompression needs a field square root, which Arkworks computes.
use vstd::prelude::*;

use crate::arkworks::{
    fq2_serialize_compressed, fq_serialize_compressed, g1_deserialize_compressed_unchecked,
    g2_deserialize_compressed_unchecked,
};
#[allow(unused_imports)]
use crate::bytes::{lemma_le_bytes_zero, lemma_le_value_zero, zeros};
use crate::bytes::{cut, is_all_zero, put};
use crate::curve::{G1Affine, G2Affine};
#[allow(unused_imports)]
use crate::curve::{G1Value, G2Value};
use crate::errors::AltBn128Error;
use crate::field::fq_gt_half;
use crate::group_operations::{G1CompressedPoint, G1Point, G2CompressedPoint, G2Point};
#[allow(unused_imports)]
use crate::group_operations::{g1_outcome, g2_outcome};
#[allow(unused_imports)]
use crate::wire::{
    g1_bytes, g1_compressed, g1_decompresses_to, g2_bytes, g2_compressed, g2_decompresses_to,
};

verus! {

// Compression operation selectors, LE-flagged (`| 0x80`) to match the little-endian wire
// format. Without the flag the runtime interprets operands as big-endian (EIP-197).

/// G1 point compression (little-endian operand).
pub const ALT_BN128_G1_COMPRESS: u64 = 0x80;

/// G1 point decompression (little-endian operand).
pub const ALT_BN128_G1_DECOMPRESS: u64 = 0x01 | 0x80;

/// G2 point compression (little-endian operand).
pub const ALT_BN128_G2_COMPRESS: u64 = 0x02 | 0x80;

/// G2 point decompression (little-endian operand).
pub const ALT_BN128_G2_DECOMPRESS: u64 = 0x03 | 0x80;

/// What decompressing 32 bytes answers: the bytes of the point they stand for, or an
/// error where they stand for none.
pub open spec fn g1_decompressed(c: Seq<u8>, r: Result<Seq<u8>, AltBn128Error>) -> bool {
    match r {
        Ok(s) => exists|p: G1Value| #[trigger] g1_decompresses_to(c, Some(p)) && s == g1_bytes(p),
        Err(e) => e == AltBn128Error::CompressionError && g1_decompresses_to(c, None),
    }
}

/// What decompressing 64 bytes answers: the bytes of the point they stand for, or an
/// error where they stand for none.
pub open spec fn g2_decompressed(c: Seq<u8>, r: Result<Seq<u8>, AltBn128Error>) -> bool {
    match r {
        Ok(s) => exists|p: G2Value| #[trigger] g2_decompresses_to(c, Some(p)) && s == g2_bytes(p),
        Err(e) => e == AltBn128Error::CompressionError && g2_decompresses_to(c, None),
    }
}

/// Compress a G1 point to its 32-byte form: the x-coordinate, with the y-sign flag in the
/// high byte (`0x80` when `y > -y`, `0x40` for the point at infinity), matching Arkworks'
/// compressed `SWFlags` encoding.
///
/// It does *not* check that the input is on-curve; it re-encodes whatever bytes it is
/// given.
pub fn g1_compress(g1: &G1Point) -> (r: G1CompressedPoint)
    ensures
        r@ == g1_compressed(g1@),
{
    if is_all_zero(&g1.0) {
        let mut out = [0u8; 32];
        assert(out@ =~= zeros(32));
        out[31] = 0x40;
        return out;
    }
    let mut out: [u8; 32] = cut(&g1.0, 0);
    let y: [u8; 32] = cut(&g1.0, 32);
    assert(out@ =~= g1@.take(32));
    if fq_gt_half(&y) {
        out[31] = out[31] | 0x80;
    }
    out
}

/// Write the coordinates of a decompressed G1 point side by side.
pub fn g1_unpack(p: &G1Affine) -> (r: Result<G1Point, AltBn128Error>)
    requires
        p.wf(),
    ensures
        g1_outcome(r) == Ok::<Seq<u8>, AltBn128Error>(g1_bytes(p@)),
{
    let x = match fq_serialize_compressed(&p.x) {
        Ok(x) => x,
        Err(_) => return Err(AltBn128Error::CompressionError),
    };
    let y = match fq_serialize_compressed(&p.y) {
        Ok(y) => y,
        Err(_) => return Err(AltBn128Error::CompressionError),
    };
    let out: [u8; 64] = put(put([0u8; 64], 0, &x), 32, &y);
    proof {
        lemma_le_bytes_zero(32);
        assert(out@ =~= x@ + y@);
        assert(zeros(32) + zeros(32) =~= zeros(64));
    }
    Ok(G1Point(out))
}

/// Decompress a 32-byte G1 point back to its 64-byte uncompressed form.
pub fn g1_decompress(g1: &G1CompressedPoint) -> (r: Result<G1Point, AltBn128Error>)
    ensures
        g1_decompressed(g1@, g1_outcome(r)),
{
    let point = match g1_deserialize_compressed_unchecked(g1) {
        Ok(p) => p,
        Err(_) => return Err(AltBn128Error::CompressionError),
    };
    g1_unpack(&point)
}

/// Compress a G2 point to its 64-byte form: the `Fq2` x-coordinate, with the y-sign flag
/// in the high byte. The `Fq2` sign follows Arkworks' ordering, `c1` first, then `c0`, so
/// the flag is set from `y.c1` unless it is zero, in which case `y.c0` decides. Pure byte
/// arithmetic; same caveats as [`g1_compress`].
pub fn g2_compress(g2: &G2Point) -> (r: G2CompressedPoint)
    ensures
        r@ == g2_compressed(g2@),
{
    if is_all_zero(&g2.0) {
        let mut out = [0u8; 64];
        assert(out@ =~= zeros(64));
        out[63] = 0x40;
        return out;
    }
    let mut out: [u8; 64] = cut(&g2.0, 0);
    let y0: [u8; 32] = cut(&g2.0, 64);
    let y1: [u8; 32] = cut(&g2.0, 96);
    proof {
        assert(out@ =~= g2@.take(64));
        lemma_le_value_zero(y1@);
    }
    let negative = if is_all_zero(&y1) {
        fq_gt_half(&y0)
    } else {
        fq_gt_half(&y1)
    };
    if negative {
        out[63] = out[63] | 0x80;
    }
    out
}

/// Write the coordinates of a decompressed G2 point side by side.
pub fn g2_unpack(p: &G2Affine) -> (r: Result<G2Point, AltBn128Error>)
    requires
        p.wf(),
    ensures
        g2_outcome(r) == Ok::<Seq<u8>, AltBn128Error>(g2_bytes(p@)),
{
    let x = match fq2_serialize_compressed(&p.x) {
        Ok(x) => x,
        Err(_) => return Err(AltBn128Error::CompressionError),
    };
    let y = match fq2_serialize_compressed(&p.y) {
        Ok(y) => y,
        Err(_) => return Err(AltBn128Error::CompressionError),
    };
    let out: [u8; 128] = put(put([0u8; 128], 0, &x), 64, &y);
    proof {
        lemma_le_bytes_zero(32);
        assert(out@ =~= x@ + y@);
        assert((zeros(32) + zeros(32)) + (zeros(32) + zeros(32)) =~= zeros(128));
    }
    Ok(G2Point(out))
}

/// Decompress a 64-byte G2 point back to its 128-byte uncompressed form. The result is on
/// the curve; it need not be in the prime-order subgroup.
pub fn g2_decompress(g2: &G2CompressedPoint) -> (r: Result<G2Point, AltBn128Error>)
    ensures
        g2_decompressed(g2@, g2_outcome(r)),
{
    let point = match g2_deserialize_compressed_unchecked(g2) {
        Ok(p) => p,
        Err(_) => return Err(AltBn128Error::CompressionError),
    };
    g2_unpack(&point)
}

} // verus!

//! The alt_bn128 (BN254) group and compression operations of the Solana SVM, over its
//! little-endian wire format, with proved contracts.
//!
//! A [`G1Point`] or [`G2Point`] is the bytes of a point, nothing more: any bytes can be
//! wrapped, and an operation that needs a point refuses bytes that stand for none. All zeros is
//! the point at infinity. Negation, byte order and compression are byte arithmetic and proved
//! in full. Field square roots, the group law and the pairing are those of Arkworks, called in
//! [`arkworks`] under contracts stated over the curves of [`curve`].
//!
//! [`field`] and [`curve`] are the mathematics, [`wire`] the byte formats, [`meaning`] what
//! each operation accepts and answers word by word, [`laws`] what holds across the operations,
//! and [`syscall`] the framing of the same operations for the runtime. [`prime`],
//! [`certificate`], [`algebra`], [`group_law`] and [`negation`] prove what the laws need of the
//! field and of the group law.
pub mod aggregation;
pub mod algebra;
pub mod arkworks;
pub mod bytes;
pub mod certificate;
pub mod compression;
pub mod curve;
pub mod errors;
pub mod field;
pub mod group_law;
pub mod group_operations;
pub mod laws;
pub mod meaning;
pub mod negation;
pub mod prime;
pub mod syscall;
pub mod wire;

pub use aggregation::{aggregate_g1, aggregate_g1_in_place, aggregate_g2, aggregate_g2_in_place};
pub use compression::{
    g1_compress, g1_decompress, g2_compress, g2_decompress, ALT_BN128_G1_COMPRESS,
    ALT_BN128_G1_DECOMPRESS, ALT_BN128_G2_COMPRESS, ALT_BN128_G2_DECOMPRESS,
};
pub use errors::AltBn128Error;
pub use group_operations::{
    convert_endianness, pairing, G1CompressedPoint, G1Point, G1Scalar, G2CompressedPoint, G2Point,
    G2Scalar, ALT_BN128_ADD, ALT_BN128_G2_ADD, ALT_BN128_G2_MUL, ALT_BN128_MUL, ALT_BN128_PAIRING,
};
pub use solana_program_error::ProgramError;

//! Error type for the alt_bn128 group and compression operations.
use vstd::prelude::*;

/// Re-export of the [`solana_program_error`] type that [`AltBn128Error`] converts
/// into, so callers can name it without an extra dependency.
pub use solana_program_error::ProgramError;

verus! {

/// `solana_program_error::ProgramError`, a plain enum with public variants.
#[verifier::external_type_specification]
pub struct ExProgramError(solana_program_error::ProgramError);

/// An alt_bn128 operation failure. Converts to [`ProgramError::InvalidArgument`] so
/// results are `?`-propagatable from a program entrypoint.
#[derive(Debug, Clone, Copy, PartialEq, Eq, Structural)]
pub enum AltBn128Error {
    /// A group operation (add / sub / mul / pairing) failed, or one of its operands
    /// is not a valid point.
    GroupError,
    /// A point (de)compression failed, or its operand is not a valid point.
    CompressionError,
}

/// What an error says of itself.
pub open spec fn error_message(e: AltBn128Error) -> Seq<char> {
    match e {
        AltBn128Error::GroupError => "alt_bn128 group operation failed"@,
        AltBn128Error::CompressionError => "alt_bn128 (de)compression failed"@,
    }
}

impl AltBn128Error {
    /// The text to show for this error.
    pub fn message(&self) -> (r: &'static str)
        ensures
            r@ == error_message(*self),
    {
        match self {
            AltBn128Error::GroupError => "alt_bn128 group operation failed",
            AltBn128Error::CompressionError => "alt_bn128 (de)compression failed",
        }
    }
}

impl From<AltBn128Error> for ProgramError {
    fn from(_error: AltBn128Error) -> (r: ProgramError) {
        ProgramError::InvalidArgument
    }
}

impl vstd::std_specs::convert::FromSpecImpl<AltBn128Error> for ProgramError {
    open spec fn obeys_from_spec() -> bool {
        true
    }

    open spec fn from_spec(_error: AltBn128Error) -> ProgramError {
        ProgramError::InvalidArgument
    }
}

} // verus!

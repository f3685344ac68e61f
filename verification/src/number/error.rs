//! The typed failures of parsing a Yolol number from its string form.

use vstd::prelude::*;

verus! {

/// Why parsing a decimal string into a Yolol number failed.
///
/// The first two variants are user errors: the input does not fit the
/// grammar. The remaining variants keep the historical surface of the
/// parser: defensive bookkeeping conditions that the parser's contract
/// shows to be unreachable, surfaced as typed failures rather than panics.
#[derive(Clone, Copy, Debug, PartialEq, Eq, Structural)]
pub enum FromStrError {
    /// The input is not in the expected structure for a Yolol number.
    InputVerificationFailure,
    /// A sign was matched but is not any expected character.
    InvalidSignMatched,
    /// The main digits (left of the decimal) do not fit the backing type.
    MainDigitsParseError,
    /// No main digits (left of the decimal) were matched.
    NoMainDigits,
    /// The count of decimal digits to extract fell out of its expected
    /// range.
    DecimalSliceLenLogicError,
    /// The power to shift extracted decimal digits by fell out of its
    /// expected range.
    DecimalShiftPowLogicError,
    /// The shift power does not fit the backing type.
    ShiftConversionFailure,
    /// The corrected decimal digits do not fit the backing type.
    DecimalDigitsParseError,
    /// The split parts could not be joined into one number.
    FromSplitCreationFailure,
}

impl FromStrError {
    /// A human-readable description of the failure.
    pub fn message(&self) -> &'static str {
        match self {
            FromStrError::InputVerificationFailure => "Input failed verification. Isn't in the expected structure for a Yolol number.",
            FromStrError::InvalidSignMatched => "A sign on the Yolol number was matched, but isn't any expected character.",
            FromStrError::MainDigitsParseError => "Failed to parse the main digits (left of the decimal) into the Yolol number backing type.",
            FromStrError::NoMainDigits => "No main digits (left of the decimal) were matched in verification.",
            FromStrError::DecimalSliceLenLogicError => "A logic error in calculating how many decimal digits (right of the decimal) to extract has occurred.",
            FromStrError::DecimalShiftPowLogicError => "A logic error in calculating the power to shift extracted decimal digits (right of the decimal) by has occurred.",
            FromStrError::ShiftConversionFailure => "Failed to convert the shift power into the Yolol number backing type.",
            FromStrError::DecimalDigitsParseError => "Failed to convert corrected decimal digits (right of the decimal) into the Yolol number backing type.",
            FromStrError::FromSplitCreationFailure => "Failed to convert the split number (left and right sides of the decimal) into one joined Yolol number.",
        }
    }
}

} // verus!

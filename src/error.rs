//! The ways a conversion can fail.
use vstd::prelude::*;

verus! {

/// Why a run stopped. Every failure ends the run.
#[derive(Debug, Clone, Copy, PartialEq, Eq, Structural)]
pub enum ErrorCode {
    /// The source number is not a numeral of the source base, or is too large.
    BaseConversionErr,
    /// A target base is not a decimal numeral.
    TargetBaseErr,
    /// No source number was given.
    InputBaseErr,
    /// The clipboard could not be read or written.
    ClipboardErr,
    /// A base lies outside 2 to 36.
    InvalidBase,
}

impl ErrorCode {
    /// A short description of the error for the user.
    pub fn message(&self) -> (r: &'static str)
        ensures
            r@ == match self {
                ErrorCode::BaseConversionErr => "Base Conversion Error"@,
                ErrorCode::TargetBaseErr => "Target Base Error"@,
                ErrorCode::InputBaseErr => "Input Base Error"@,
                ErrorCode::ClipboardErr => "Clipboard access Error"@,
                ErrorCode::InvalidBase => "Invalid Base. Base must be between 2 and 36 inclusive"@,
            },
    {
        let r = match self {
            ErrorCode::BaseConversionErr => "Base Conversion Error",
            ErrorCode::TargetBaseErr => "Target Base Error",
            ErrorCode::InputBaseErr => "Input Base Error",
            ErrorCode::ClipboardErr => "Clipboard access Error",
            ErrorCode::InvalidBase => "Invalid Base. Base must be between 2 and 36 inclusive",
        };
        r
    }
}

} // verus!

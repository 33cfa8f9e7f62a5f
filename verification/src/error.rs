use vstd::prelude::*;

verus! {

/// Why a date token failed to parse as a calendar date.
#[derive(Debug, PartialEq, Eq, Structural, Clone, Copy)]
pub enum DateParseError {
    InvalidYear,
    InvalidMonth,
    InvalidDay,
    InvalidFormat,
}

/// Which grammar construct failed to match at the current position.
#[derive(Debug, PartialEq, Eq, Structural, Clone, Copy)]
pub enum ParseErrorKind {
    /// A letter was required (start of an identifier).
    ExpectedAlpha,
    /// A specific character, such as the `:` after an identifier, was required.
    ExpectedChar,
    /// One of a fixed set of tags was required.
    ExpectedTag,
    /// At least one whitespace character was required.
    ExpectedSpace,
    /// A non-empty token of non-whitespace characters was required.
    ExpectedToken,
    /// The token ran past the 20-character bound.
    TokenTooLong,
    /// A field carried a label other than the one its position demands.
    ExpectedLabel,
    /// The `type` field held none of the four habit-type tags.
    UnknownHabitType,
    /// The `frequency` field held none of the four frequency tags.
    UnknownFrequency,
}

/// A recoverable parse failure: the unconsumed remainder of the input
/// together with a diagnostic code naming the construct that failed.
#[derive(Debug, PartialEq)]
pub struct ParseError {
    pub remainder: String,
    pub kind: ParseErrorKind,
}

impl View for ParseError {
    type V = (Seq<char>, ParseErrorKind);

    open spec fn view(&self) -> (Seq<char>, ParseErrorKind) {
        (self.remainder@, self.kind)
    }
}

} // verus!

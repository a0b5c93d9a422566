use vstd::prelude::*;
use vstd::string::*;

verus! {

/// Why a piece of text is not a signed decimal numeral that fits in an `i64`.
#[derive(Debug, PartialEq, Eq, Clone, Copy, Structural)]
pub enum NumeralError {
    /// The text has no characters at all.
    Empty,
    /// The text has a character that is not a decimal digit (a leading sign
    /// aside), or consists of a sign alone.
    InvalidDigit,
    /// The numeral is well formed and greater than `i64::MAX`.
    PosOverflow,
    /// The numeral is well formed and less than `i64::MIN`.
    NegOverflow,
}

/// Why a range could not be built.
#[non_exhaustive]
#[derive(Debug, PartialEq, Eq, Clone, Copy, Structural)]
pub enum Error {
    /// The range text has no characters.
    EmptyRange,
    /// Both bounds are finite and the start point is greater than the end
    /// point.
    StartGreaterThanEnd,
    /// The text before the `:` is neither empty, nor `~`, nor a numeral.
    ParseStartPoint(NumeralError),
    /// The text after the `:` (or the whole text, where there is no `:`) is
    /// not a numeral.
    ParseEndPoint(NumeralError),
}

impl NumeralError {
    /// The words that [`NumeralError::message`] gives.
    pub open spec fn message_spec(self) -> Seq<char> {
        match self {
            NumeralError::Empty => "cannot parse integer from empty string"@,
            NumeralError::InvalidDigit => "invalid digit found in string"@,
            NumeralError::PosOverflow => "number too large to fit in target type"@,
            NumeralError::NegOverflow => "number too small to fit in target type"@,
        }
    }

    /// Says in words what is wrong with the numeral.
    pub fn message(&self) -> (text: &'static str)
        ensures
            text@ == self.message_spec(),
    {
        match self {
            NumeralError::Empty => "cannot parse integer from empty string",
            NumeralError::InvalidDigit => "invalid digit found in string",
            NumeralError::PosOverflow => "number too large to fit in target type",
            NumeralError::NegOverflow => "number too small to fit in target type",
        }
    }
}

impl Error {
    /// The words that [`Error::message`] gives: a sentence for each kind of
    /// error, followed by the numeral's own error where a bound could not be
    /// read.
    pub open spec fn message_spec(self) -> Seq<char> {
        match self {
            Error::EmptyRange => "the range string must not be empty"@,
            Error::StartGreaterThanEnd => "the start point must be lesser than the end point"@,
            Error::ParseStartPoint(e) => "the start point could not be parsed as integer: "@
                + e.message_spec(),
            Error::ParseEndPoint(e) => "the end point could not be parsed as integer: "@
                + e.message_spec(),
        }
    }

    /// Says in words why the range could not be built.
    pub fn message(&self) -> (text: String)
        ensures
            text@ == self.message_spec(),
    {
        match self {
            Error::EmptyRange => String::from_str("the range string must not be empty"),
            Error::StartGreaterThanEnd => String::from_str(
                "the start point must be lesser than the end point",
            ),
            Error::ParseStartPoint(e) => {
                let mut text = String::from_str("the start point could not be parsed as integer: ");
                text.append(e.message());
                text
            },
            Error::ParseEndPoint(e) => {
                let mut text = String::from_str("the end point could not be parsed as integer: ");
                text.append(e.message());
                text
            },
        }
    }
}

} // verus!

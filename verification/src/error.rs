//! The ways in which a line can fail to decode.

use vstd::prelude::*;

verus! {

/// Why a line was rejected. Each of these is fatal for the connection.
#[derive(Clone, Copy, Debug, PartialEq, Eq, Structural)]
pub enum CodecError {
    /// The line is not valid UTF-8.
    InvalidEncoding,
    /// The line holds no token at all, so there is no message type.
    MissingMessageType,
    /// A field token does not hold exactly one `=`.
    MalformedField,
    /// The value of a decimal field is no decimal numeral that fits.
    InvalidInteger,
    /// The value of an address field is no hexadecimal numeral of 32 bits.
    InvalidHexInteger,
    /// The line is longer than the limit that the caller has set.
    LineTooLong,
}

impl CodecError {
    /// A short description of the failure.
    pub fn message(&self) -> (text: &'static str)
        ensures
            text@ == match *self {
                CodecError::InvalidEncoding => "invalid string"@,
                CodecError::MissingMessageType => "no message type"@,
                CodecError::MalformedField => "bad key/value pair"@,
                CodecError::InvalidInteger => "not an integer"@,
                CodecError::InvalidHexInteger => "not a hex integer"@,
                CodecError::LineTooLong => "line too long"@,
            },
    {
        match self {
            CodecError::InvalidEncoding => "invalid string",
            CodecError::MissingMessageType => "no message type",
            CodecError::MalformedField => "bad key/value pair",
            CodecError::InvalidInteger => "not an integer",
            CodecError::InvalidHexInteger => "not a hex integer",
            CodecError::LineTooLong => "line too long",
        }
    }
}

} // verus!

//! Errors.

use vstd::prelude::*;

verus! {

/// Errors from parsing or from checked construction.
#[derive(Debug, Clone, Copy, PartialEq, Eq, Structural, Hash)]
pub enum Utc2kError {
    /// The date/time could not be read.
    Invalid,
    /// The date/time falls after 2099.
    Overflow,
    /// The date/time falls before 2000.
    Underflow,
}

impl Utc2kError {
    /// The message for this error.
    pub open spec fn message(self) -> Seq<char> {
        match self {
            Utc2kError::Invalid => "Invalid date/time format."@,
            Utc2kError::Overflow => "Date/time is post-2099."@,
            Utc2kError::Underflow => "Date/time is pre-2000."@,
        }
    }

    /// The error as a string slice.
    pub fn as_str(self) -> (r: &'static str)
        ensures
            r@ == self.message(),
    {
        match self {
            Utc2kError::Invalid => "Invalid date/time format.",
            Utc2kError::Overflow => "Date/time is post-2099.",
            Utc2kError::Underflow => "Date/time is pre-2000.",
        }
    }
}

/// Errors from custom date/time formatting.
#[derive(Debug, Clone, Copy, PartialEq, Eq)]
pub enum Utc2kFormatError {
    /// A component was not closed with `]`.
    Eof,
    /// An unknown component.
    InvalidComponent,
    /// A modifier the component does not take; the message lists the ones it does.
    InvalidModifier(&'static str),
    /// The format string is not ASCII.
    NotAscii,
}

impl Utc2kFormatError {
    /// The error as a string slice.
    pub fn as_str(self) -> (r: &'static str)
        ensures
            self is Eof ==> r@ == "Expected ']'."@,
            self is InvalidComponent ==> r@ == "Expected [year | month | day | hour | minute | second | ordinal | period | unixtime]."@,
            self is NotAscii ==> r@ == "Date format strings must be ASCII."@,
            self matches Utc2kFormatError::InvalidModifier(s) ==> r == s,
    {
        match self {
            Utc2kFormatError::Eof => "Expected ']'.",
            Utc2kFormatError::InvalidComponent => "Expected [year | month | day | hour | minute | second | ordinal | period | unixtime].",
            Utc2kFormatError::InvalidModifier(s) => s,
            Utc2kFormatError::NotAscii => "Date format strings must be ASCII.",
        }
    }
}

} // verus!

//! The ways in which decoding a line can fail.
use vstd::prelude::*;

verus! {

/// Why a field could not be read as an unsigned integer.
#[derive(Clone, Copy, Debug, PartialEq, Eq, Structural)]
pub enum IntError {
    /// The trimmed field is empty.
    Empty,
    /// The field holds something other than an optional `+` and decimal digits.
    InvalidDigit,
    /// The value is larger than the field's type can hold.
    Overflow,
}

/// The failure of decoding one line.
#[derive(Clone, Debug, PartialEq)]
pub enum ParseError {
    /// The last character of the line is not a charge sign; holds the charge field.
    InvalidCharge(String),
    /// A coordinate or measurement text is not a number; holds that text.
    /// Decoding keeps those fields as text, and this is the error of reading
    /// them as numbers.
    InvalidFloat(String),
    /// An integer field could not be read.
    InvalidInt(IntError),
    /// The record keyword is not one of the known ones; holds the keyword.
    UnknownEntry(String),
    /// The deposition date is not a `DD-MON-YY` date; holds the trimmed field.
    InvalidDate(String),
}

/// The contents of a [`ParseError`].
pub enum ErrorView {
    InvalidCharge(Seq<char>),
    InvalidFloat(Seq<char>),
    InvalidInt(IntError),
    UnknownEntry(Seq<char>),
    InvalidDate(Seq<char>),
}

impl View for ParseError {
    type V = ErrorView;

    open spec fn view(&self) -> ErrorView {
        match self {
            ParseError::InvalidCharge(s) => ErrorView::InvalidCharge(s@),
            ParseError::InvalidFloat(s) => ErrorView::InvalidFloat(s@),
            ParseError::InvalidInt(e) => ErrorView::InvalidInt(*e),
            ParseError::UnknownEntry(s) => ErrorView::UnknownEntry(s@),
            ParseError::InvalidDate(s) => ErrorView::InvalidDate(s@),
        }
    }
}

} // verus!

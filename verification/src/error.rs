//! The errors of the library.

use vstd::prelude::*;

verus! {

/// The error that `core::str::from_utf8` reports; its contents are opaque here.
#[verifier::external_type_specification]
#[verifier::external_body]
pub struct ExUtf8Error(core::str::Utf8Error);

/// `Clone::clone` of `core::str::Utf8Error`; nothing is claimed of the copy.
pub assume_specification[ <core::str::Utf8Error as Clone>::clone ](
    e: &core::str::Utf8Error,
) -> (r: core::str::Utf8Error)
;

/// `PartialEq::eq` of `core::str::Utf8Error`; nothing is claimed of the answer.
pub assume_specification[ <core::str::Utf8Error as PartialEq>::eq ](
    a: &core::str::Utf8Error,
    b: &core::str::Utf8Error,
) -> (r: bool)
;

/// Everything that an operation of this library can report.
#[derive(Debug, Clone, PartialEq)]
pub enum AgronaError {
    /// A window of `length` bytes at `index` does not lie within `capacity` bytes.
    IndexOutOfBounds { index: usize, length: usize, capacity: usize },
    /// A buffer of this capacity cannot be made.
    InvalidCapacity { capacity: usize },
    /// A bulk encode of `attempted` bytes where only `available` can be taken.
    BufferOverflow { attempted: usize, available: usize },
    /// Text that is not the decimal number or the ASCII string it should be.
    AsciiNumberFormat(String),
    /// Bytes that are not UTF-8.
    Utf8Error(core::str::Utf8Error),
}

/// What an error says, as contracts speak of it: a message by its characters, and
/// of a UTF-8 error only that it is one.
pub enum Failure {
    IndexOutOfBounds { index: usize, length: usize, capacity: usize },
    InvalidCapacity { capacity: usize },
    BufferOverflow { attempted: usize, available: usize },
    AsciiNumberFormat(Seq<char>),
    Utf8Error,
}

impl View for AgronaError {
    type V = Failure;

    open spec fn view(&self) -> Failure {
        match self {
            AgronaError::IndexOutOfBounds { index, length, capacity } => Failure::IndexOutOfBounds {
                index: *index,
                length: *length,
                capacity: *capacity,
            },
            AgronaError::InvalidCapacity { capacity } => Failure::InvalidCapacity {
                capacity: *capacity,
            },
            AgronaError::BufferOverflow { attempted, available } => Failure::BufferOverflow {
                attempted: *attempted,
                available: *available,
            },
            AgronaError::AsciiNumberFormat(message) => Failure::AsciiNumberFormat(message@),
            AgronaError::Utf8Error(_) => Failure::Utf8Error,
        }
    }
}

/// Whether `r` is the value that `expected` gives, or an error that says what
/// `expected` says.
pub open spec fn agrees<T>(r: Result<T, AgronaError>, expected: Result<T, Failure>) -> bool {
    match expected {
        Ok(v) => r == Ok::<T, AgronaError>(v),
        Err(f) => r is Err && r->Err_0@ == f,
    }
}

impl AgronaError {
    /// A format error with the text of `message`.
    pub fn format(message: &str) -> (e: AgronaError)
        ensures
            e@ == Failure::AsciiNumberFormat(message@),
    {
        AgronaError::AsciiNumberFormat(message.to_string())
    }
}

} // verus!

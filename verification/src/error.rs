//! The taxonomy of resolution failures.

use vstd::prelude::*;

verus! {

/// Identifies which legality check a byte span failed.
#[derive(Clone, Copy, Debug, PartialEq, Eq, Structural)]
pub enum ValidationError {
    /// The span is not well-formed UTF-8 text.
    InvalidUtf8,
}

/// A failure to resolve an offset reference against a buffer.
///
/// Every failure is returned to the caller as a value; resolution never
/// panics on untrusted input.
#[derive(Clone, Copy, Debug, PartialEq, Eq, Structural)]
pub enum Error {
    /// The computed byte span ends past the buffer's length.
    OutOfBounds,
    /// Offset and count/length arithmetic would exceed the reference's size
    /// width or the native index width before a bounds check could be made.
    Overflow,
    /// The span's bytes are not a legal instance of the target unsized type.
    Validation(ValidationError),
}

} // verus!

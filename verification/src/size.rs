//! The integer width used to encode offsets and lengths inside reference
//! values, independent of the host's native address width, with
//! overflow-checked conversions to and from a native index.

use vstd::prelude::*;

use crate::error::Error;

verus! {

/// A word-width tag for the integers stored inside an offset reference.
///
/// Converting an encoded value to a native index never silently truncates:
/// overflow is reported as [`Error::Overflow`], not wrapped.
#[derive(Clone, Copy, Debug, PartialEq, Eq, Structural)]
pub enum Size {
    /// Offsets and lengths are 16-bit words.
    U16,
    /// Offsets and lengths are 32-bit words.
    U32,
    /// Offsets and lengths are 64-bit words.
    U64,
}

impl Size {
    /// The largest value this width can encode.
    pub open spec fn max_spec(self) -> int {
        match self {
            Size::U16 => 0xffff,
            Size::U32 => 0xffff_ffff,
            Size::U64 => 0xffff_ffff_ffff_ffff,
        }
    }

    /// The largest value this width can encode.
    pub fn max_value(self) -> (r: u64)
        ensures
            r == self.max_spec(),
    {
        match self {
            Size::U16 => 0xffff,
            Size::U32 => 0xffff_ffff,
            Size::U64 => 0xffff_ffff_ffff_ffff,
        }
    }
}

/// True when a computed span end can serve as a native index.
pub open spec fn fits_index(v: int) -> bool {
    v <= usize::MAX
}

/// Overflow-checked conversion from an encoded offset or length to a native
/// index.
pub fn to_index(v: u64) -> (r: Result<usize, Error>)
    ensures
        r == if fits_index(v as int) {
            Ok::<usize, Error>(v as usize)
        } else {
            Err::<usize, Error>(Error::Overflow)
        },
{
    if v <= usize::MAX as u64 {
        Ok(v as usize)
    } else {
        Err(Error::Overflow)
    }
}

/// Overflow-checked conversion from a native index into the given width.
pub fn from_index(v: usize, size: Size) -> (r: Result<u64, Error>)
    ensures
        r == if v as int <= size.max_spec() {
            Ok::<u64, Error>(v as u64)
        } else {
            Err::<u64, Error>(Error::Overflow)
        },
{
    if (v as u64) <= size.max_value() {
        Ok(v as u64)
    } else {
        Err(Error::Overflow)
    }
}

} // verus!

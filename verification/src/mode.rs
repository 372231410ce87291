//! Types that describe a mode of encoding.
//!
//! A mode is a marker type consulted by codecs that wrap a buffer: it is
//! threaded through encode and decode calls as an explicit parameter, never
//! as global state. This crate defines the contract and the default mode;
//! concrete wire formats define modes of their own.

use vstd::prelude::*;

verus! {

/// The trait for a mode.
pub trait Mode {
    /// Whether values encoded in this mode are human readable.
    spec fn human_readable_spec() -> bool;

    /// Indicate if the current mode is human readable.
    fn is_human_readable() -> (r: bool)
        ensures
            r == Self::human_readable_spec(),
    ;
}

/// The default encoding mode: a marker with no state of its own.
pub struct DefaultMode;

impl Mode for DefaultMode {
    open spec fn human_readable_spec() -> bool {
        false
    }

    fn is_human_readable() -> bool {
        false
    }
}

/// Use standard encoding of `std` types.
pub trait StandardMode {
    /// Whether values encoded in this mode are human readable.
    spec fn standard_human_readable_spec() -> bool;

    /// Indicate if the current mode is human readable.
    fn is_human_readable() -> (r: bool)
        ensures
            r == Self::standard_human_readable_spec(),
    ;
}

impl<M: StandardMode> Mode for M {
    open spec fn human_readable_spec() -> bool {
        M::standard_human_readable_spec()
    }

    fn is_human_readable() -> (r: bool) {
        <M as StandardMode>::is_human_readable()
    }
}

} // verus!

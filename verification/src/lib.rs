//! Typed, bounds-checked access to raw byte buffers through
//! position-independent offset references.
//!
//! A buffer ([`buf::Buf`]) is a plain byte region of known length. Values are
//! located inside it by offset references ([`refs::Ref`], [`refs::Slice`],
//! [`refs::Unsized`]) that store only integers, encoded in a chosen word width
//! ([`size::Size`]), so they stay meaningful when the buffer is copied or
//! reopened somewhere else. Resolving a reference ([`load::Load`],
//! [`load::LoadMut`]) checks the arithmetic and the bounds, validates
//! variable-length targets, and only then hands out a typed value; every
//! failure is reported as a typed error ([`error::Error`]), never a panic.
//!
//! Multi-byte scalars use one fixed byte order for the whole buffer:
//! little-endian.

pub mod buf;
pub mod composite;
pub mod error;
pub mod json;
pub mod laws;
pub mod load;
pub mod mode;
pub mod refs;
pub mod size;
pub mod text;
pub mod zero_copy;

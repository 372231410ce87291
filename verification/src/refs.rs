//! Position-independent offset references: compact descriptors of where a
//! typed value lives inside a buffer.
//!
//! Each reference stores only integers — an offset, and where relevant a
//! count or byte length — encoded in a chosen [`Size`] width, so it stays
//! meaningful after the buffer is copied, relocated, or reopened elsewhere.
//! Construction records the integers and validates nothing; every check is
//! deferred to resolution, whose exact outcome the `resolve_spec` and
//! `write_spec` functions here state.

use core::marker::PhantomData;

use vstd::prelude::*;

use crate::error::Error;
use crate::size::{fits_index, Size};
use crate::zero_copy::{UnsizedZeroCopy, ZeroCopy};

verus! {

/// A reference to a single fixed-size [`ZeroCopy`] value.
#[derive(Debug)]
#[verifier::reject_recursive_types(T)]
pub struct Ref<T> {
    /// Byte offset of the target from the start of the buffer.
    pub offset: u64,
    /// The word width the reference's integers are encoded with.
    pub size: Size,
    /// The target type; no value of it is stored.
    pub marker: PhantomData<T>,
}

impl<T> Clone for Ref<T> {
    /// A reference is plain integers: a clone is the same reference.
    fn clone(&self) -> (r: Self)
        ensures
            r == *self,
    {
        Ref { offset: self.offset, size: self.size, marker: PhantomData }
    }
}

impl<T> Copy for Ref<T> {

}

impl<T: ZeroCopy> Ref<T> {
    /// Records an offset; nothing is validated until the reference is loaded.
    pub fn new(offset: u64, size: Size) -> (r: Ref<T>)
        ensures
            r.offset == offset,
            r.size == size,
    {
        Ref { offset, size, marker: PhantomData }
    }

    /// The exclusive end of the target's byte span.
    pub open spec fn end_spec(self) -> int {
        self.offset + T::size_spec()
    }

    /// The exact outcome of loading this reference over the bytes `data`:
    /// overflow of the span arithmetic, then bounds, then the decoded value.
    pub open spec fn resolve_spec(self, data: Seq<u8>) -> Result<T, Error> {
        if self.end_spec() > self.size.max_spec() || !fits_index(self.end_spec()) {
            Err(Error::Overflow)
        } else if self.end_spec() > data.len() {
            Err(Error::OutOfBounds)
        } else {
            Ok(T::decode_spec(data.subrange(self.offset as int, self.end_spec())))
        }
    }

    /// The exact outcome of storing `v` through this reference: the same
    /// checks as a load, and on success the bytes of the span replaced by
    /// `v`'s encoding, every other byte unchanged.
    pub open spec fn write_spec(self, data: Seq<u8>, v: T) -> Result<Seq<u8>, Error> {
        if self.end_spec() > self.size.max_spec() || !fits_index(self.end_spec()) {
            Err(Error::Overflow)
        } else if self.end_spec() > data.len() {
            Err(Error::OutOfBounds)
        } else {
            Ok(data.take(self.offset as int) + v.encode_spec() + data.skip(self.end_spec()))
        }
    }
}

/// A reference to a contiguous run of fixed-size [`ZeroCopy`] values.
#[derive(Debug)]
#[verifier::reject_recursive_types(T)]
pub struct Slice<T> {
    /// Byte offset of the first element from the start of the buffer.
    pub offset: u64,
    /// How many elements the run holds.
    pub count: u64,
    /// The word width the reference's integers are encoded with.
    pub size: Size,
    /// The element type; no value of it is stored.
    pub marker: PhantomData<T>,
}

/// `data` with `value.len()` elements encoded contiguously from `offset`,
/// every byte outside that span unchanged.
pub open spec fn spliced_elems<T: ZeroCopy>(data: Seq<u8>, offset: int, value: Seq<T>) -> Seq<
    u8,
> {
    Seq::new(
        data.len(),
        |j: int|
            if offset <= j < offset + value.len() * T::size_spec() {
                value[(j - offset) / T::size_spec()].encode_spec()[(j - offset) % T::size_spec()]
            } else {
                data[j]
            },
    )
}

impl<T> Clone for Slice<T> {
    /// A reference is plain integers: a clone is the same reference.
    fn clone(&self) -> (r: Self)
        ensures
            r == *self,
    {
        Slice { offset: self.offset, count: self.count, size: self.size, marker: PhantomData }
    }
}

impl<T> Copy for Slice<T> {

}

impl<T: ZeroCopy> Slice<T> {
    /// Records an offset and a count; nothing is validated until the
    /// reference is loaded.
    pub fn new(offset: u64, count: u64, size: Size) -> (r: Slice<T>)
        ensures
            r.offset == offset,
            r.count == count,
            r.size == size,
    {
        Slice { offset, count, size, marker: PhantomData }
    }

    /// The byte length of the whole run.
    pub open spec fn byte_len_spec(self) -> int {
        self.count * T::size_spec()
    }

    /// The exclusive end of the run's byte span.
    pub open spec fn end_spec(self) -> int {
        self.offset + self.byte_len_spec()
    }

    /// The `i`-th element of the run as encoded in `data`.
    pub open spec fn elem_spec(self, data: Seq<u8>, i: int) -> T {
        T::decode_spec(
            data.subrange(
                self.offset + i * T::size_spec(),
                self.offset + (i + 1) * T::size_spec(),
            ),
        )
    }

    /// The exact outcome of loading this reference over the bytes `data`:
    /// overflow of the count arithmetic, then bounds, then exactly `count`
    /// contiguous elements decoded from the span.
    pub open spec fn resolve_spec(self, data: Seq<u8>) -> Result<Seq<T>, Error> {
        if self.end_spec() > self.size.max_spec() || !fits_index(self.end_spec()) {
            Err(Error::Overflow)
        } else if self.end_spec() > data.len() {
            Err(Error::OutOfBounds)
        } else {
            Ok(Seq::new(self.count as nat, |i: int| self.elem_spec(data, i)))
        }
    }

    /// The exact outcome of storing the `count` elements of `value` through
    /// this reference: the same checks as a load, and on success the run's
    /// bytes replaced element by element, every other byte unchanged.
    pub open spec fn write_spec(self, data: Seq<u8>, value: Seq<T>) -> Result<Seq<u8>, Error> {
        if self.end_spec() > self.size.max_spec() || !fits_index(self.end_spec()) {
            Err(Error::Overflow)
        } else if self.end_spec() > data.len() {
            Err(Error::OutOfBounds)
        } else {
            Ok(spliced_elems(data, self.offset as int, value))
        }
    }
}

/// A reference to a single variable-length [`UnsizedZeroCopy`] value.
#[derive(Debug)]
#[verifier::reject_recursive_types(T)]
pub struct Unsized<T> {
    /// Byte offset of the target from the start of the buffer.
    pub offset: u64,
    /// The byte length of the target.
    pub len: u64,
    /// The word width the reference's integers are encoded with.
    pub size: Size,
    /// The target type; no value of it is stored.
    pub marker: PhantomData<T>,
}

impl<T> Clone for Unsized<T> {
    /// A reference is plain integers: a clone is the same reference.
    fn clone(&self) -> (r: Self)
        ensures
            r == *self,
    {
        Unsized { offset: self.offset, len: self.len, size: self.size, marker: PhantomData }
    }
}

impl<T> Copy for Unsized<T> {

}

impl<T: UnsizedZeroCopy> Unsized<T> {
    /// Records an offset and a byte length; nothing is validated until the
    /// reference is loaded.
    pub fn new(offset: u64, len: u64, size: Size) -> (r: Unsized<T>)
        ensures
            r.offset == offset,
            r.len == len,
            r.size == size,
    {
        Unsized { offset, len, size, marker: PhantomData }
    }

    /// The exclusive end of the target's byte span.
    pub open spec fn end_spec(self) -> int {
        self.offset + self.len
    }

    /// The exact outcome of loading this reference over the bytes `data`:
    /// overflow of the span arithmetic, then bounds, then the target type's
    /// validation over the span, and only on success the decoded value (as
    /// its abstract view: a variable-length value is its bytes).
    pub open spec fn resolve_spec(self, data: Seq<u8>) -> Result<<T as DeepView>::V, Error> {
        if self.end_spec() > self.size.max_spec() || !fits_index(self.end_spec()) {
            Err(Error::Overflow)
        } else if self.end_spec() > data.len() {
            Err(Error::OutOfBounds)
        } else if !T::valid_spec(data.subrange(self.offset as int, self.end_spec())) {
            Err(
                Error::Validation(
                    T::invalid_error_spec(data.subrange(self.offset as int, self.end_spec())),
                ),
            )
        } else {
            Ok(T::decode_view_spec(data.subrange(self.offset as int, self.end_spec())))
        }
    }

    /// The exact outcome of storing `v` through this reference, for a `v`
    /// whose encoding has exactly the referenced byte length (an in-place
    /// overwrite cannot grow or shrink): the same arithmetic and bounds
    /// checks as a load, and on success the span's bytes replaced by `v`'s
    /// encoding, every other byte unchanged. No re-validation is needed: a
    /// value's own encoding is legal by [`UnsizedZeroCopy::lemma_decode_encode`].
    pub open spec fn write_spec(self, data: Seq<u8>, v: T) -> Result<Seq<u8>, Error> {
        if self.end_spec() > self.size.max_spec() || !fits_index(self.end_spec()) {
            Err(Error::Overflow)
        } else if self.end_spec() > data.len() {
            Err(Error::OutOfBounds)
        } else {
            Ok(data.take(self.offset as int) + v.encode_spec() + data.skip(self.end_spec()))
        }
    }
}

} // verus!

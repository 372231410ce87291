//! Loading any kind of offset reference: the uniform entry point that turns
//! a reference plus a buffer into a checked, typed value.
//!
//! The implementing set is closed by the [`Sealed`] marker — the reference
//! types of this crate, and shared references to them — so no foreign type
//! can bypass the validation contract by forging an implementation.

use vstd::prelude::*;

use crate::buf::Buf;
use crate::error::Error;
use crate::refs::{Ref, Slice, Unsized};
use crate::zero_copy::{UnsizedZeroCopy, ZeroCopy};

verus! {

/// Marker restricting [`Load`] and [`LoadMut`] to the closed set of
/// reference types of this crate.
pub trait Sealed {}

impl<T: ZeroCopy> Sealed for Ref<T> {

}

impl<T: ZeroCopy> Sealed for Slice<T> {

}

impl<T: UnsizedZeroCopy> Sealed for Unsized<T> {

}

impl<T: Sealed> Sealed for &T {

}

/// Trait used for loading any kind of reference: resolve the span with
/// overflow and bounds checks — and validation, for unsized targets — and
/// only then yield the typed value.
pub trait Load: Sealed {
    /// The target being read.
    type Target: DeepView;

    /// The exact outcome of the load over the bytes `data`, at the level of
    /// the target's abstract view.
    spec fn load_spec(&self, data: Seq<u8>) -> Result<<Self::Target as DeepView>::V, Error>;

    /// Validate the reference against `buf` and load its value.
    fn load(&self, buf: &Buf) -> (r: Result<Self::Target, Error>)
        ensures
            match r {
                Ok(v) => self.load_spec(buf@) == Ok::<<Self::Target as DeepView>::V, Error>(
                    v.deep_view(),
                ),
                Err(e) => self.load_spec(buf@) == Err::<<Self::Target as DeepView>::V, Error>(
                    e,
                ),
            },
    ;
}

/// Trait used for storing through any kind of reference, given exclusive
/// access to the buffer: the same checks as a load, then an in-place
/// overwrite of the resolved span. A failed check leaves the buffer
/// untouched.
pub trait LoadMut: Load {
    /// True when `value` fits the reference: a run must have exactly the
    /// referenced element count, a variable-length value exactly the
    /// referenced byte length, so an overwrite cannot grow or shrink.
    spec fn store_allowed_spec(&self, value: &Self::Target) -> bool;

    /// The exact outcome of the store over the bytes `data`: the same
    /// checks as a load, and on success the new bytes of the whole buffer.
    spec fn store_spec(&self, data: Seq<u8>, value: &Self::Target) -> Result<Seq<u8>, Error>;

    /// Validate the reference against `buf` and overwrite its span with
    /// `value`.
    fn load_mut(&self, buf: &mut Buf, value: &Self::Target) -> (r: Result<(), Error>)
        requires
            self.store_allowed_spec(value),
        ensures
            match r {
                Ok(()) => self.store_spec(old(buf)@, value) == Ok::<Seq<u8>, Error>(
                    final(buf)@,
                ),
                Err(e) => self.store_spec(old(buf)@, value) == Err::<Seq<u8>, Error>(e)
                    && final(buf)@ == old(buf)@,
            },
    ;
}

impl<T: ZeroCopy> Load for Ref<T> {
    type Target = T;

    open spec fn load_spec(&self, data: Seq<u8>) -> Result<<T as DeepView>::V, Error> {
        match self.resolve_spec(data) {
            Ok(v) => Ok(v.deep_view()),
            Err(e) => Err(e),
        }
    }

    fn load(&self, buf: &Buf) -> (r: Result<T, Error>) {
        buf.load_sized(*self)
    }
}

impl<T: ZeroCopy> LoadMut for Ref<T> {
    open spec fn store_allowed_spec(&self, value: &T) -> bool {
        true
    }

    open spec fn store_spec(&self, data: Seq<u8>, value: &T) -> Result<Seq<u8>, Error> {
        self.write_spec(data, *value)
    }

    fn load_mut(&self, buf: &mut Buf, value: &T) -> (r: Result<(), Error>) {
        buf.store_sized(*self, value)
    }
}

impl<T: ZeroCopy> Load for Slice<T> {
    type Target = Vec<T>;

    open spec fn load_spec(&self, data: Seq<u8>) -> Result<Seq<<T as DeepView>::V>, Error> {
        match self.resolve_spec(data) {
            Ok(s) => Ok(Seq::new(s.len(), |i: int| s[i].deep_view())),
            Err(e) => Err(e),
        }
    }

    fn load(&self, buf: &Buf) -> (r: Result<Vec<T>, Error>) {
        let r = buf.load_slice(*self);
        proof {
            if r is Ok {
                let v = r->Ok_0;
                let s = self.resolve_spec(buf@)->Ok_0;
                assert(v.deep_view() =~= Seq::new(s.len(), |i: int| s[i].deep_view()));
            }
        }
        r
    }
}

impl<T: ZeroCopy> LoadMut for Slice<T> {
    open spec fn store_allowed_spec(&self, value: &Vec<T>) -> bool {
        value@.len() == self.count
    }

    open spec fn store_spec(&self, data: Seq<u8>, value: &Vec<T>) -> Result<Seq<u8>, Error> {
        self.write_spec(data, value@)
    }

    fn load_mut(&self, buf: &mut Buf, value: &Vec<T>) -> (r: Result<(), Error>) {
        buf.store_slice(*self, value)
    }
}

impl<T: UnsizedZeroCopy> Load for Unsized<T> {
    type Target = T;

    open spec fn load_spec(&self, data: Seq<u8>) -> Result<<T as DeepView>::V, Error> {
        self.resolve_spec(data)
    }

    fn load(&self, buf: &Buf) -> (r: Result<T, Error>) {
        buf.load_unsized(*self)
    }
}

impl<T: UnsizedZeroCopy> LoadMut for Unsized<T> {
    open spec fn store_allowed_spec(&self, value: &T) -> bool {
        value.encode_spec().len() == self.len
    }

    open spec fn store_spec(&self, data: Seq<u8>, value: &T) -> Result<Seq<u8>, Error> {
        self.write_spec(data, *value)
    }

    fn load_mut(&self, buf: &mut Buf, value: &T) -> (r: Result<(), Error>) {
        buf.store_unsized(*self, value)
    }
}

impl<T: Load> Load for &T {
    type Target = T::Target;

    open spec fn load_spec(&self, data: Seq<u8>) -> Result<
        <T::Target as DeepView>::V,
        Error,
    > {
        T::load_spec(*self, data)
    }

    fn load(&self, buf: &Buf) -> (r: Result<T::Target, Error>) {
        T::load(*self, buf)
    }
}

} // verus!

//! Layout contracts a type must satisfy to be materialized from raw bytes.
//!
//! [`ZeroCopy`] covers fixed-size types for which every byte pattern of that
//! size is a legal value, so a load needs only bounds arithmetic.
//! [`UnsizedZeroCopy`] covers variable-length types whose raw bytes may be
//! illegal and therefore carry an explicit validation routine, run once at
//! load time. Multi-byte scalars use little-endian byte order throughout.

use vstd::prelude::*;

use crate::error::ValidationError;

verus! {

/// A fixed-size type whose byte representation is self-describing: every
/// byte pattern of [`ZeroCopy::size_spec`] bytes decodes to a legal value.
///
/// `decode_spec` and `encode_spec` give the mathematical meaning of a value's
/// bytes; the executable `decode_at` and `encode_at` are proved against them,
/// and `lemma_decode_encode` obliges every implementor to make them inverse,
/// so a value written into a buffer is read back bit-equal.
pub trait ZeroCopy: Sized + DeepView {
    /// The static byte size of every value of this type.
    spec fn size_spec() -> int;

    /// The value that a run of exactly `size_spec()` bytes stands for.
    spec fn decode_spec(bytes: Seq<u8>) -> Self;

    /// The canonical `size_spec()` bytes of this value.
    spec fn encode_spec(self) -> Seq<u8>;

    /// A value occupies at least one byte.
    proof fn lemma_size()
        ensures
            1 <= Self::size_spec(),
    ;

    /// The canonical encoding has exactly the static size.
    proof fn lemma_encode_len(self)
        ensures
            self.encode_spec().len() == Self::size_spec(),
    ;

    /// Decoding a value's own encoding yields the value back.
    proof fn lemma_decode_encode(self)
        ensures
            Self::decode_spec(self.encode_spec()) == self,
    ;

    /// The static byte size of every value of this type.
    fn size() -> (n: usize)
        ensures
            n == Self::size_spec(),
    ;

    /// Reads the value encoded at `offset`.
    fn decode_at(bytes: &Vec<u8>, offset: usize) -> (r: Self)
        requires
            offset + Self::size_spec() <= bytes@.len(),
        ensures
            r == Self::decode_spec(
                bytes@.subrange(offset as int, offset + Self::size_spec()),
            ),
    ;

    /// Writes the value's encoding at `offset`, leaving every byte outside
    /// `[offset, offset + size_spec())` unchanged.
    fn encode_at(&self, bytes: &mut Vec<u8>, offset: usize)
        requires
            offset + Self::size_spec() <= old(bytes)@.len(),
        ensures
            final(bytes)@.len() == old(bytes)@.len(),
            final(bytes)@.subrange(offset as int, offset + Self::size_spec())
                == self.encode_spec(),
            forall|i: int|
                0 <= i < old(bytes)@.len() && !(offset <= i < offset + Self::size_spec())
                    ==> final(bytes)@[i] == old(bytes)@[i],
    ;
}

/// A variable-length type whose raw bytes may or may not be legal; the
/// explicit `validate` routine certifies a byte span before it is exposed.
///
/// `valid_spec` is the mathematical legality predicate; `validate` decides it
/// exactly, and `decode_spec` / `encode_spec` relate legal spans to values as
/// for [`ZeroCopy`]. Validation is pure: it depends on the bytes alone.
pub trait UnsizedZeroCopy: Sized + DeepView {
    /// The value's own well-formedness: constructors and loads establish it,
    /// and it makes the value's encoding a legal span.
    spec fn wf_spec(self) -> bool;

    /// True when the bytes are a legal instance of this type.
    spec fn valid_spec(bytes: Seq<u8>) -> bool;

    /// The error reported for an illegal span of bytes.
    spec fn invalid_error_spec(bytes: Seq<u8>) -> ValidationError;

    /// The abstract value (the [`DeepView`] of a concrete one) that a legal
    /// run of bytes stands for.
    spec fn decode_view_spec(bytes: Seq<u8>) -> <Self as DeepView>::V;

    /// The bytes of this value; always a legal span.
    spec fn encode_spec(self) -> Seq<u8>;

    /// A well-formed value's own encoding is legal and decodes to the value
    /// back.
    proof fn lemma_decode_encode(self)
        requires
            self.wf_spec(),
        ensures
            Self::valid_spec(self.encode_spec()),
            Self::decode_view_spec(self.encode_spec()) == self.deep_view(),
    ;

    /// Decides legality of `bytes[offset .. offset + len)`, reporting which
    /// check failed.
    fn validate(bytes: &Vec<u8>, offset: usize, len: usize) -> (r: Result<
        (),
        ValidationError,
    >)
        requires
            offset + len <= bytes@.len(),
        ensures
            r == if Self::valid_spec(bytes@.subrange(offset as int, offset + len)) {
                Ok::<(), ValidationError>(())
            } else {
                Err::<(), ValidationError>(
                    Self::invalid_error_spec(bytes@.subrange(offset as int, offset + len)),
                )
            },
    ;

    /// Reads the value encoded by the legal span `bytes[offset .. offset + len)`.
    /// The decoded value's own encoding is that span back: the value is the
    /// bytes.
    fn decode_at(bytes: &Vec<u8>, offset: usize, len: usize) -> (r: Self)
        requires
            offset + len <= bytes@.len(),
            Self::valid_spec(bytes@.subrange(offset as int, offset + len)),
        ensures
            r.wf_spec(),
            r.deep_view() == Self::decode_view_spec(bytes@.subrange(offset as int, offset + len)),
            r.encode_spec() == bytes@.subrange(offset as int, offset + len),
    ;

    /// The byte length of this value's encoding.
    fn byte_len(&self) -> (n: usize)
        ensures
            n == self.encode_spec().len(),
    ;

    /// Writes the value's encoding at `offset`, leaving every byte outside
    /// the span unchanged. The span's length is the value's own byte length,
    /// so an in-place overwrite cannot grow or shrink.
    fn encode_at(&self, bytes: &mut Vec<u8>, offset: usize)
        requires
            offset + self.encode_spec().len() <= old(bytes)@.len(),
        ensures
            final(bytes)@.len() == old(bytes)@.len(),
            final(bytes)@.subrange(offset as int, offset + self.encode_spec().len())
                == self.encode_spec(),
            forall|i: int|
                0 <= i < old(bytes)@.len()
                    && !(offset <= i < offset + self.encode_spec().len())
                    ==> final(bytes)@[i] == old(bytes)@[i],
    ;
}

impl ZeroCopy for u8 {
    open spec fn size_spec() -> int {
        1
    }

    open spec fn decode_spec(bytes: Seq<u8>) -> u8 {
        bytes[0]
    }

    open spec fn encode_spec(self) -> Seq<u8> {
        seq![self]
    }

    proof fn lemma_size() {
    }

    proof fn lemma_encode_len(self) {
    }

    proof fn lemma_decode_encode(self) {
    }

    fn size() -> usize {
        1
    }

    fn decode_at(bytes: &Vec<u8>, offset: usize) -> (r: u8) {
        let r = bytes[offset];
        proof {
            assert(bytes@.subrange(offset as int, offset as int + 1)[0] == bytes@[offset as int]);
        }
        r
    }

    fn encode_at(&self, bytes: &mut Vec<u8>, offset: usize) {
        bytes[offset] = *self;
        proof {
            assert(bytes@.subrange(offset as int, offset as int + 1) =~= seq![*self]);
        }
    }
}

impl ZeroCopy for u16 {
    open spec fn size_spec() -> int {
        2
    }

    open spec fn decode_spec(bytes: Seq<u8>) -> u16 {
        (bytes[0] as u16) | ((bytes[1] as u16) << 8)
    }

    open spec fn encode_spec(self) -> Seq<u8> {
        seq![(self & 0xff) as u8, ((self >> 8) & 0xff) as u8]
    }

    proof fn lemma_size() {
    }

    proof fn lemma_encode_len(self) {
    }

    proof fn lemma_decode_encode(self) {
        let v = self;
        assert((((v & 0xff) as u8 as u16) | ((((v >> 8) & 0xff) as u8 as u16) << 8)) == v)
            by (bit_vector);
    }

    fn size() -> usize {
        2
    }

    fn decode_at(bytes: &Vec<u8>, offset: usize) -> (r: u16) {
        let n = bytes.len();
        proof {
            assert(offset + 2 <= n);
        }
        let b0 = bytes[offset];
        let b1 = bytes[offset + 1];
        let r = (b0 as u16) | ((b1 as u16) << 8);
        proof {
            let s = bytes@.subrange(offset as int, offset as int + 2);
            assert(s[0] == b0 && s[1] == b1);
        }
        r
    }

    fn encode_at(&self, bytes: &mut Vec<u8>, offset: usize) {
        let n = bytes.len();
        let v = *self;
        proof {
            assert(offset + 2 <= n);
            assert((v & 0xff) < 256 && ((v >> 8) & 0xff) < 256) by (bit_vector);
        }
        bytes[offset] = (v & 0xff) as u8;
        bytes[offset + 1] = ((v >> 8) & 0xff) as u8;
        proof {
            assert(bytes@.subrange(offset as int, offset as int + 2) =~= v.encode_spec());
        }
    }
}

impl ZeroCopy for u32 {
    open spec fn size_spec() -> int {
        4
    }

    open spec fn decode_spec(bytes: Seq<u8>) -> u32 {
        (bytes[0] as u32) | ((bytes[1] as u32) << 8) | ((bytes[2] as u32) << 16) | ((
        bytes[3] as u32) << 24)
    }

    open spec fn encode_spec(self) -> Seq<u8> {
        seq![
            (self & 0xff) as u8,
            ((self >> 8) & 0xff) as u8,
            ((self >> 16) & 0xff) as u8,
            ((self >> 24) & 0xff) as u8,
        ]
    }

    proof fn lemma_size() {
    }

    proof fn lemma_encode_len(self) {
    }

    proof fn lemma_decode_encode(self) {
        let v = self;
        assert((((v & 0xff) as u8 as u32) | ((((v >> 8) & 0xff) as u8 as u32) << 8) | ((((v
            >> 16) & 0xff) as u8 as u32) << 16) | ((((v >> 24) & 0xff) as u8 as u32) << 24))
            == v) by (bit_vector);
    }

    fn size() -> usize {
        4
    }

    fn decode_at(bytes: &Vec<u8>, offset: usize) -> (r: u32) {
        let n = bytes.len();
        proof {
            assert(offset + 4 <= n);
        }
        let b0 = bytes[offset];
        let b1 = bytes[offset + 1];
        let b2 = bytes[offset + 2];
        let b3 = bytes[offset + 3];
        let r = (b0 as u32) | ((b1 as u32) << 8) | ((b2 as u32) << 16) | ((b3 as u32) << 24);
        proof {
            let s = bytes@.subrange(offset as int, offset as int + 4);
            assert(s[0] == b0 && s[1] == b1 && s[2] == b2 && s[3] == b3);
        }
        r
    }

    fn encode_at(&self, bytes: &mut Vec<u8>, offset: usize) {
        let n = bytes.len();
        let v = *self;
        proof {
            assert(offset + 4 <= n);
            assert((v & 0xff) < 256 && ((v >> 8) & 0xff) < 256 && ((v >> 16) & 0xff) < 256
                && ((v >> 24) & 0xff) < 256) by (bit_vector);
        }
        bytes[offset] = (v & 0xff) as u8;
        bytes[offset + 1] = ((v >> 8) & 0xff) as u8;
        bytes[offset + 2] = ((v >> 16) & 0xff) as u8;
        bytes[offset + 3] = ((v >> 24) & 0xff) as u8;
        proof {
            assert(bytes@.subrange(offset as int, offset as int + 4) =~= v.encode_spec());
        }
    }
}

impl ZeroCopy for u64 {
    open spec fn size_spec() -> int {
        8
    }

    open spec fn decode_spec(bytes: Seq<u8>) -> u64 {
        (bytes[0] as u64) | ((bytes[1] as u64) << 8) | ((bytes[2] as u64) << 16) | ((
        bytes[3] as u64) << 24) | ((bytes[4] as u64) << 32) | ((bytes[5] as u64) << 40) | ((
        bytes[6] as u64) << 48) | ((bytes[7] as u64) << 56)
    }

    open spec fn encode_spec(self) -> Seq<u8> {
        seq![
            (self & 0xff) as u8,
            ((self >> 8) & 0xff) as u8,
            ((self >> 16) & 0xff) as u8,
            ((self >> 24) & 0xff) as u8,
            ((self >> 32) & 0xff) as u8,
            ((self >> 40) & 0xff) as u8,
            ((self >> 48) & 0xff) as u8,
            ((self >> 56) & 0xff) as u8,
        ]
    }

    proof fn lemma_size() {
    }

    proof fn lemma_encode_len(self) {
    }

    proof fn lemma_decode_encode(self) {
        let v = self;
        assert((((v & 0xff) as u8 as u64) | ((((v >> 8) & 0xff) as u8 as u64) << 8) | ((((v
            >> 16) & 0xff) as u8 as u64) << 16) | ((((v >> 24) & 0xff) as u8 as u64) << 24)
            | ((((v >> 32) & 0xff) as u8 as u64) << 32) | ((((v >> 40) & 0xff) as u8 as u64)
            << 40) | ((((v >> 48) & 0xff) as u8 as u64) << 48) | ((((v >> 56) & 0xff) as u8
            as u64) << 56)) == v) by (bit_vector);
    }

    fn size() -> usize {
        8
    }

    fn decode_at(bytes: &Vec<u8>, offset: usize) -> (r: u64) {
        let n = bytes.len();
        proof {
            assert(offset + 8 <= n);
        }
        let b0 = bytes[offset];
        let b1 = bytes[offset + 1];
        let b2 = bytes[offset + 2];
        let b3 = bytes[offset + 3];
        let b4 = bytes[offset + 4];
        let b5 = bytes[offset + 5];
        let b6 = bytes[offset + 6];
        let b7 = bytes[offset + 7];
        let r = (b0 as u64) | ((b1 as u64) << 8) | ((b2 as u64) << 16) | ((b3 as u64) << 24)
            | ((b4 as u64) << 32) | ((b5 as u64) << 40) | ((b6 as u64) << 48) | ((b7 as u64)
            << 56);
        proof {
            let s = bytes@.subrange(offset as int, offset as int + 8);
            assert(s[0] == b0 && s[1] == b1 && s[2] == b2 && s[3] == b3 && s[4] == b4
                && s[5] == b5 && s[6] == b6 && s[7] == b7);
        }
        r
    }

    fn encode_at(&self, bytes: &mut Vec<u8>, offset: usize) {
        let n = bytes.len();
        let v = *self;
        proof {
            assert(offset + 8 <= n);
            assert((v & 0xff) < 256 && ((v >> 8) & 0xff) < 256 && ((v >> 16) & 0xff) < 256
                && ((v >> 24) & 0xff) < 256 && ((v >> 32) & 0xff) < 256 && ((v >> 40) & 0xff)
                < 256 && ((v >> 48) & 0xff) < 256 && ((v >> 56) & 0xff) < 256) by (bit_vector);
        }
        bytes[offset] = (v & 0xff) as u8;
        bytes[offset + 1] = ((v >> 8) & 0xff) as u8;
        bytes[offset + 2] = ((v >> 16) & 0xff) as u8;
        bytes[offset + 3] = ((v >> 24) & 0xff) as u8;
        bytes[offset + 4] = ((v >> 32) & 0xff) as u8;
        bytes[offset + 5] = ((v >> 40) & 0xff) as u8;
        bytes[offset + 6] = ((v >> 48) & 0xff) as u8;
        bytes[offset + 7] = ((v >> 56) & 0xff) as u8;
        proof {
            assert(bytes@.subrange(offset as int, offset as int + 8) =~= v.encode_spec());
        }
    }
}

} // verus!

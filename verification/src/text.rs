//! Well-formed text as a variable-length zero-copy type.
//!
//! Not every byte sequence is legal text, so [`Text`] carries the explicit
//! validation routine that [`UnsizedZeroCopy`] demands: a span is legal
//! exactly when it is well-formed UTF-8, as [`is_utf8`] states it.

use vstd::prelude::*;

use crate::error::ValidationError;
use crate::zero_copy::UnsizedZeroCopy;

verus! {

/// True for a UTF-8 continuation byte (`0b10xxxxxx`).
pub open spec fn is_cont(b: u8) -> bool {
    0x80 <= b && b <= 0xbf
}

/// Well-formed UTF-8: a sequence of one- to four-byte encodings whose lead
/// byte determines the length and the legal range of the second byte, with
/// overlong forms, surrogates and code points past `U+10FFFF` excluded.
pub open spec fn is_utf8(s: Seq<u8>) -> bool
    decreases s.len(),
{
    if s.len() == 0 {
        true
    } else {
        let b0 = s[0];
        if b0 <= 0x7f {
            is_utf8(s.skip(1))
        } else if 0xc2 <= b0 && b0 <= 0xdf {
            &&& s.len() >= 2
            &&& is_cont(s[1])
            &&& is_utf8(s.skip(2))
        } else if b0 == 0xe0 {
            &&& s.len() >= 3
            &&& 0xa0 <= s[1] && s[1] <= 0xbf
            &&& is_cont(s[2])
            &&& is_utf8(s.skip(3))
        } else if b0 == 0xed {
            &&& s.len() >= 3
            &&& 0x80 <= s[1] && s[1] <= 0x9f
            &&& is_cont(s[2])
            &&& is_utf8(s.skip(3))
        } else if (0xe1 <= b0 && b0 <= 0xec) || b0 == 0xee || b0 == 0xef {
            &&& s.len() >= 3
            &&& is_cont(s[1])
            &&& is_cont(s[2])
            &&& is_utf8(s.skip(3))
        } else if b0 == 0xf0 {
            &&& s.len() >= 4
            &&& 0x90 <= s[1] && s[1] <= 0xbf
            &&& is_cont(s[2])
            &&& is_cont(s[3])
            &&& is_utf8(s.skip(4))
        } else if 0xf1 <= b0 && b0 <= 0xf3 {
            &&& s.len() >= 4
            &&& is_cont(s[1])
            &&& is_cont(s[2])
            &&& is_cont(s[3])
            &&& is_utf8(s.skip(4))
        } else if b0 == 0xf4 {
            &&& s.len() >= 4
            &&& 0x80 <= s[1] && s[1] <= 0x8f
            &&& is_cont(s[2])
            &&& is_cont(s[3])
            &&& is_utf8(s.skip(4))
        } else {
            false
        }
    }
}

/// A run of bytes that is well-formed UTF-8 text.
///
/// The value is its bytes: its abstract view is the byte sequence, and its
/// encoding in a buffer is that sequence unchanged.
#[derive(Debug)]
pub struct Text {
    bytes: Vec<u8>,
}

impl View for Text {
    type V = Seq<u8>;

    closed spec fn view(&self) -> Seq<u8> {
        self.bytes@
    }
}

impl DeepView for Text {
    type V = Seq<u8>;

    open spec fn deep_view(&self) -> Seq<u8> {
        self@
    }
}

impl Text {
    /// Wraps bytes as text, validating them first: returns the text exactly
    /// when the bytes are well-formed UTF-8, and the validation error
    /// otherwise.
    pub fn new(bytes: Vec<u8>) -> (r: Result<Text, ValidationError>)
        ensures
            match r {
                Ok(t) => is_utf8(bytes@) && t@ == bytes@,
                Err(e) => !is_utf8(bytes@) && e == ValidationError::InvalidUtf8,
            },
    {
        let n = bytes.len();
        match <Text as UnsizedZeroCopy>::validate(&bytes, 0, n) {
            Ok(()) => {
                proof {
                    assert(bytes@.subrange(0, n as int) =~= bytes@);
                }
                Ok(Text { bytes })
            },
            Err(e) => {
                proof {
                    assert(bytes@.subrange(0, n as int) =~= bytes@);
                }
                Err(e)
            },
        }
    }

    /// The text's bytes.
    pub fn as_bytes(&self) -> (r: &Vec<u8>)
        ensures
            r@ == self@,
    {
        &self.bytes
    }

    /// The text's length in bytes.
    pub fn len(&self) -> (n: usize)
        ensures
            n == self@.len(),
    {
        self.bytes.len()
    }
}

impl UnsizedZeroCopy for Text {
    open spec fn wf_spec(self) -> bool {
        is_utf8(self.deep_view())
    }

    open spec fn valid_spec(bytes: Seq<u8>) -> bool {
        is_utf8(bytes)
    }

    open spec fn invalid_error_spec(bytes: Seq<u8>) -> ValidationError {
        ValidationError::InvalidUtf8
    }

    open spec fn decode_view_spec(bytes: Seq<u8>) -> Seq<u8> {
        bytes
    }

    open spec fn encode_spec(self) -> Seq<u8> {
        self.deep_view()
    }

    proof fn lemma_decode_encode(self) {
    }

    fn validate(bytes: &Vec<u8>, offset: usize, len: usize) -> (r: Result<
        (),
        ValidationError,
    >) {
        let n = bytes.len();
        let ghost sub = bytes@.subrange(offset as int, offset + len);
        proof {
            assert(sub.skip(0) =~= sub);
        }
        let mut i: usize = 0;
        while i < len
            invariant
                i <= len,
                offset + len <= n,
                n == bytes@.len(),
                sub == bytes@.subrange(offset as int, offset + len),
                sub.len() == len,
                is_utf8(sub) <==> is_utf8(sub.skip(i as int)),
            decreases len - i,
        {
            let ghost t = sub.skip(i as int);
            let rem = len - i;
            let b0 = bytes[offset + i];
            proof {
                assert(t.len() == len - i);
                assert(t[0] == sub[i as int]);
                assert(sub[i as int] == bytes@[offset + i]);
            }
            if b0 <= 0x7f {
                proof {
                    assert(t.skip(1) =~= sub.skip(i as int + 1));
                }
                i += 1;
            } else if 0xc2 <= b0 && b0 <= 0xdf {
                if rem < 2 {
                    return Err(ValidationError::InvalidUtf8);
                }
                let b1 = bytes[offset + i + 1];
                proof {
                    assert(t[1] == sub[i as int + 1]);
                    assert(sub[i as int + 1] == bytes@[offset + i + 1]);
                }
                if !(0x80 <= b1 && b1 <= 0xbf) {
                    return Err(ValidationError::InvalidUtf8);
                }
                proof {
                    assert(t.skip(2) =~= sub.skip(i as int + 2));
                }
                i += 2;
            } else if 0xe0 <= b0 && b0 <= 0xef {
                if rem < 3 {
                    return Err(ValidationError::InvalidUtf8);
                }
                let b1 = bytes[offset + i + 1];
                let b2 = bytes[offset + i + 2];
                proof {
                    assert(t[1] == sub[i as int + 1]);
                    assert(sub[i as int + 1] == bytes@[offset + i + 1]);
                    assert(t[2] == sub[i as int + 2]);
                    assert(sub[i as int + 2] == bytes@[offset + i + 2]);
                }
                let second_ok = if b0 == 0xe0 {
                    0xa0 <= b1 && b1 <= 0xbf
                } else if b0 == 0xed {
                    0x80 <= b1 && b1 <= 0x9f
                } else {
                    0x80 <= b1 && b1 <= 0xbf
                };
                if !second_ok || !(0x80 <= b2 && b2 <= 0xbf) {
                    return Err(ValidationError::InvalidUtf8);
                }
                proof {
                    assert(t.skip(3) =~= sub.skip(i as int + 3));
                }
                i += 3;
            } else if 0xf0 <= b0 && b0 <= 0xf4 {
                if rem < 4 {
                    return Err(ValidationError::InvalidUtf8);
                }
                let b1 = bytes[offset + i + 1];
                let b2 = bytes[offset + i + 2];
                let b3 = bytes[offset + i + 3];
                proof {
                    assert(t[1] == sub[i as int + 1]);
                    assert(sub[i as int + 1] == bytes@[offset + i + 1]);
                    assert(t[2] == sub[i as int + 2]);
                    assert(sub[i as int + 2] == bytes@[offset + i + 2]);
                    assert(t[3] == sub[i as int + 3]);
                    assert(sub[i as int + 3] == bytes@[offset + i + 3]);
                }
                let second_ok = if b0 == 0xf0 {
                    0x90 <= b1 && b1 <= 0xbf
                } else if b0 == 0xf4 {
                    0x80 <= b1 && b1 <= 0x8f
                } else {
                    0x80 <= b1 && b1 <= 0xbf
                };
                if !second_ok || !(0x80 <= b2 && b2 <= 0xbf) || !(0x80 <= b3 && b3 <= 0xbf) {
                    return Err(ValidationError::InvalidUtf8);
                }
                proof {
                    assert(t.skip(4) =~= sub.skip(i as int + 4));
                }
                i += 4;
            } else {
                return Err(ValidationError::InvalidUtf8);
            }
        }
        proof {
            assert(sub.skip(len as int) =~= Seq::<u8>::empty());
        }
        Ok(())
    }

    fn decode_at(bytes: &Vec<u8>, offset: usize, len: usize) -> (r: Text) {
        let n = bytes.len();
        let mut out: Vec<u8> = Vec::new();
        let mut i: usize = 0;
        while i < len
            invariant
                i <= len,
                offset + len <= n,
                n == bytes@.len(),
                out@ == bytes@.subrange(offset as int, offset + i),
            decreases len - i,
        {
            let b = bytes[offset + i];
            out.push(b);
            proof {
                assert(out@ =~= bytes@.subrange(offset as int, offset + i + 1));
            }
            i += 1;
        }
        Text { bytes: out }
    }

    fn byte_len(&self) -> usize {
        self.bytes.len()
    }

    fn encode_at(&self, bytes: &mut Vec<u8>, offset: usize) {
        let n = bytes.len();
        let m = self.bytes.len();
        let mut k: usize = 0;
        while k < m
            invariant
                k <= m,
                m == self@.len(),
                offset + m <= n,
                n == bytes@.len(),
                bytes@.len() == old(bytes)@.len(),
                forall|j: int| 0 <= j < k ==> bytes@[offset + j] == self@[j],
                forall|j: int|
                    0 <= j < bytes@.len() && !(offset <= j < offset + k) ==> bytes@[j] == old(
                        bytes,
                    )@[j],
            decreases m - k,
        {
            let b = self.bytes[k];
            bytes[offset + k] = b;
            k += 1;
        }
        proof {
            assert(bytes@.subrange(offset as int, offset + self.encode_spec().len())
                =~= self.encode_spec());
        }
    }
}

} // verus!

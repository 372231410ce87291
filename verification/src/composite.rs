//! A composite fixed-size type: validity is inherited transitively.
//!
//! An aggregate whose every field is [`ZeroCopy`], laid out field after
//! field with no padding between them, is itself [`ZeroCopy`]: any byte
//! pattern of its size decodes field-wise to a legal value, so a load needs
//! no runtime check beyond bounds arithmetic. [`Pair`] shows the composition
//! rule on two 32-bit fields.

use vstd::prelude::*;

use crate::zero_copy::ZeroCopy;

verus! {

/// Two 32-bit values, laid out one after the other with no padding.
#[derive(Clone, Copy, Debug, PartialEq, Eq, Structural)]
pub struct Pair {
    /// The first field, at byte offset zero.
    pub a: u32,
    /// The second field, at byte offset four.
    pub b: u32,
}

impl DeepView for Pair {
    type V = Pair;

    open spec fn deep_view(&self) -> Pair {
        *self
    }
}

impl ZeroCopy for Pair {
    open spec fn size_spec() -> int {
        8
    }

    open spec fn decode_spec(bytes: Seq<u8>) -> Pair {
        Pair {
            a: <u32 as ZeroCopy>::decode_spec(bytes.subrange(0, 4)),
            b: <u32 as ZeroCopy>::decode_spec(bytes.subrange(4, 8)),
        }
    }

    open spec fn encode_spec(self) -> Seq<u8> {
        self.a.encode_spec() + self.b.encode_spec()
    }

    proof fn lemma_size() {
    }

    proof fn lemma_encode_len(self) {
        self.a.lemma_encode_len();
        self.b.lemma_encode_len();
    }

    proof fn lemma_decode_encode(self) {
        self.a.lemma_encode_len();
        self.b.lemma_encode_len();
        assert(self.encode_spec().subrange(0, 4) =~= self.a.encode_spec());
        assert(self.encode_spec().subrange(4, 8) =~= self.b.encode_spec());
        self.a.lemma_decode_encode();
        self.b.lemma_decode_encode();
    }

    fn size() -> usize {
        8
    }

    fn decode_at(bytes: &Vec<u8>, offset: usize) -> (r: Pair) {
        let n = bytes.len();
        proof {
            assert(offset + 8 <= n);
        }
        let a = <u32 as ZeroCopy>::decode_at(bytes, offset);
        let b = <u32 as ZeroCopy>::decode_at(bytes, offset + 4);
        proof {
            let s = bytes@.subrange(offset as int, offset as int + 8);
            assert(s.subrange(0, 4) =~= bytes@.subrange(offset as int, offset as int + 4));
            assert(s.subrange(4, 8) =~= bytes@.subrange(offset as int + 4, offset as int + 8));
        }
        Pair { a, b }
    }

    fn encode_at(&self, bytes: &mut Vec<u8>, offset: usize) {
        let n = bytes.len();
        proof {
            assert(offset + 8 <= n);
            self.a.lemma_encode_len();
            self.b.lemma_encode_len();
        }
        self.a.encode_at(bytes, offset);
        self.b.encode_at(bytes, offset + 4);
        proof {
            assert(bytes@.subrange(offset as int, offset as int + 8) =~= self.a.encode_spec()
                + self.b.encode_spec());
        }
    }
}

} // verus!

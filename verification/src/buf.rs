//! A bounds-checked view over a byte region: the sole gateway through which
//! any byte range is read or written.
//!
//! Every accessor rejects a range whose end exceeds the buffer length, and
//! no accessor ever touches bytes outside `[0, len)`. Reads and writes share
//! one bounds-checking routine; a failed check returns before any byte is
//! touched, so a failed write never partially mutates the buffer.

use vstd::arithmetic::mul::{lemma_mul_inequality, lemma_mul_is_distributive_add};
use vstd::prelude::*;

use crate::error::Error;
use crate::refs::{spliced_elems, Ref, Slice, Unsized};
use crate::size::{to_index, Size};
use crate::zero_copy::{UnsizedZeroCopy, ZeroCopy};

verus! {

/// A byte region of known length, read and written only through
/// bounds-checked accessors.
pub struct Buf {
    data: Vec<u8>,
}

impl View for Buf {
    type V = Seq<u8>;

    closed spec fn view(&self) -> Seq<u8> {
        self.data@
    }
}

impl Buf {
    /// Wraps a byte region.
    pub fn new(data: Vec<u8>) -> (r: Buf)
        ensures
            r@ == data@,
    {
        Buf { data }
    }

    /// The buffer's length in bytes.
    pub fn len(&self) -> (n: usize)
        ensures
            n == self@.len(),
    {
        self.data.len()
    }

    /// Gives the byte region back.
    pub fn into_vec(self) -> (r: Vec<u8>)
        ensures
            r@ == self@,
    {
        self.data
    }

    /// The shared bounds check: the span `[offset, offset + byte_len)` must
    /// end within the width `size`, within the native index range, and
    /// within the buffer. On success, the span's end as a native index.
    fn check_span(&self, offset: u64, byte_len: u64, size: Size) -> (r: Result<usize, Error>)
        ensures
            r == if offset + byte_len > size.max_spec() || !crate::size::fits_index(
                offset + byte_len,
            ) {
                Err::<usize, Error>(Error::Overflow)
            } else if offset + byte_len > self@.len() {
                Err::<usize, Error>(Error::OutOfBounds)
            } else {
                Ok::<usize, Error>((offset + byte_len) as usize)
            },
    {
        let max = size.max_value();
        match offset.checked_add(byte_len) {
            None => Err(Error::Overflow),
            Some(end) => {
                if end > max {
                    Err(Error::Overflow)
                } else {
                    match to_index(end) {
                        Err(e) => Err(e),
                        Ok(end_index) => {
                            if end_index > self.data.len() {
                                Err(Error::OutOfBounds)
                            } else {
                                Ok(end_index)
                            }
                        },
                    }
                }
            },
        }
    }

    /// Loads the single fixed-size value that `r` points at: bounds
    /// arithmetic only, since any byte pattern of the right size is legal.
    pub fn load_sized<T: ZeroCopy>(&self, r: Ref<T>) -> (res: Result<T, Error>)
        ensures
            res == r.resolve_spec(self@),
    {
        proof {
            T::lemma_size();
        }
        let es = T::size();
        match self.check_span(r.offset, es as u64, r.size) {
            Err(e) => Err(e),
            Ok(_end) => {
                let off = r.offset as usize;
                Ok(T::decode_at(&self.data, off))
            },
        }
    }

    /// Stores `v` at the span `r` points at, after the same checks as a
    /// load. A failed check leaves the buffer untouched.
    pub fn store_sized<T: ZeroCopy>(&mut self, r: Ref<T>, v: &T) -> (res: Result<(), Error>)
        ensures
            match res {
                Ok(()) => r.write_spec(old(self)@, *v) == Ok::<Seq<u8>, Error>(final(self)@),
                Err(e) => r.write_spec(old(self)@, *v) == Err::<Seq<u8>, Error>(e) && final(self)@ == old(self)@,
            },
    {
        proof {
            T::lemma_size();
            v.lemma_encode_len();
        }
        let es = T::size();
        match self.check_span(r.offset, es as u64, r.size) {
            Err(e) => Err(e),
            Ok(_end) => {
                let off = r.offset as usize;
                v.encode_at(&mut self.data, off);
                proof {
                    assert(self.data@ =~= old(self)@.take(off as int) + v.encode_spec() + old(
                        self,
                    )@.skip(off + T::size_spec()));
                }
                Ok(())
            },
        }
    }

    /// Loads the contiguous run of `r.count` fixed-size values that `r`
    /// points at; the count arithmetic is overflow-checked before the span
    /// is bounds-checked.
    pub fn load_slice<T: ZeroCopy>(&self, r: Slice<T>) -> (res: Result<Vec<T>, Error>)
        ensures
            match res {
                Ok(v) => r.resolve_spec(self@) == Ok::<Seq<T>, Error>(v@),
                Err(e) => r.resolve_spec(self@) == Err::<Seq<T>, Error>(e),
            },
    {
        proof {
            T::lemma_size();
        }
        let es = T::size();
        let byte_len = match r.count.checked_mul(es as u64) {
            None => {
                return Err(Error::Overflow);
            },
            Some(b) => b,
        };
        match self.check_span(r.offset, byte_len, r.size) {
            Err(e) => Err(e),
            Ok(_end) => {
                let off = r.offset as usize;
                proof {
                    assert(r.count * T::size_spec() >= r.count * 1) by (nonlinear_arith)
                        requires
                            T::size_spec() >= 1,
                            r.count >= 0,
                    ;
                }
                let cnt = r.count as usize;
                let buf_len = self.data.len();
                let mut out: Vec<T> = Vec::new();
                let mut i: usize = 0;
                while i < cnt
                    invariant
                        i <= cnt,
                        cnt == r.count,
                        es == T::size_spec(),
                        1 <= es,
                        off == r.offset,
                        self@.len() == buf_len,
                        off + cnt * es <= self@.len(),
                        out@.len() == i,
                        forall|j: int| 0 <= j < i ==> out@[j] == r.elem_spec(self@, j),
                    decreases cnt - i,
                {
                    proof {
                        lemma_mul_inequality(i as int + 1, cnt as int, es as int);
                        lemma_mul_is_distributive_add(es as int, i as int, 1);
                        assert(i * es <= (i + 1) * es) by (nonlinear_arith)
                            requires
                                es >= 1,
                                i >= 0,
                        ;
                    }
                    let pos = off + i * es;
                    let v = T::decode_at(&self.data, pos);
                    out.push(v);
                    i += 1;
                }
                proof {
                    assert(Seq::new(r.count as nat, |j: int| r.elem_spec(self@, j)) =~= out@);
                }
                Ok(out)
            },
        }
    }

    /// Stores the `r.count` elements of `value` contiguously at the span `r`
    /// points at, after the same checks as a load. A failed check leaves the
    /// buffer untouched.
    pub fn store_slice<T: ZeroCopy>(&mut self, r: Slice<T>, value: &Vec<T>) -> (res: Result<
        (),
        Error,
    >)
        requires
            value@.len() == r.count,
        ensures
            match res {
                Ok(()) => r.write_spec(old(self)@, value@) == Ok::<Seq<u8>, Error>(
                    final(self)@,
                ),
                Err(e) => r.write_spec(old(self)@, value@) == Err::<Seq<u8>, Error>(e) && final(self)@ == old(self)@,
            },
    {
        proof {
            T::lemma_size();
        }
        let es = T::size();
        let byte_len = match r.count.checked_mul(es as u64) {
            None => {
                return Err(Error::Overflow);
            },
            Some(b) => b,
        };
        match self.check_span(r.offset, byte_len, r.size) {
            Err(e) => Err(e),
            Ok(_end) => {
                let off = r.offset as usize;
                proof {
                    assert(r.count * T::size_spec() >= r.count * 1) by (nonlinear_arith)
                        requires
                            T::size_spec() >= 1,
                            r.count >= 0,
                    ;
                }
                let cnt = r.count as usize;
                let buf_len = self.data.len();
                let mut i: usize = 0;
                while i < cnt
                    invariant
                        i <= cnt,
                        cnt == r.count,
                        cnt == value@.len(),
                        es == T::size_spec(),
                        1 <= es,
                        off == r.offset,
                        self@.len() == buf_len,
                        off + cnt * es <= self@.len(),
                        self@.len() == old(self)@.len(),
                        forall|j: int|
                            0 <= j < self@.len() && !(off <= j < off + i * es) ==> self@[j]
                                == old(self)@[j],
                        forall|k: int|
                            0 <= k < i ==> self@.subrange(
                                off + k * es,
                                off + (k + 1) * es,
                            ) == value@[k].encode_spec(),
                    decreases cnt - i,
                {
                    proof {
                        lemma_mul_inequality(i as int + 1, cnt as int, es as int);
                        assert((i + 1) * es == i * es + es && 0 <= i * es) by (nonlinear_arith)
                            requires
                                es >= 1,
                                i >= 0,
                        ;
                        value@[i as int].lemma_encode_len();
                    }
                    let pos = off + i * es;
                    let ghost before = self.data@;
                    let elem = &value[i];
                    elem.encode_at(&mut self.data, pos);
                    proof {
                        assert forall|k: int| 0 <= k < i + 1 implies self@.subrange(
                            off + k * es,
                            off + (k + 1) * es,
                        ) == value@[k].encode_spec() by {
                            assert((k + 1) * es == k * es + es && 0 <= k * es) by (
                            nonlinear_arith)
                                requires
                                    es >= 1,
                                    0 <= k,
                            ;
                            value@[k].lemma_encode_len();
                            if k < i {
                                lemma_mul_inequality(k + 1, i as int, es as int);
                                assert(before.subrange(off + k * es, off + (k + 1) * es)
                                    == value@[k].encode_spec());
                                assert(self@.subrange(off + k * es, off + (k + 1) * es)
                                    =~= before.subrange(off + k * es, off + (k + 1) * es));
                            } else {
                                assert(self@.subrange(off + k * es, off + (k + 1) * es)
                                    =~= self@.subrange(pos as int, pos + es));
                            }
                        }
                        assert forall|j: int|
                            0 <= j < self@.len() && !(off <= j < off + (i + 1) * es) implies self@[j]
                            == old(self)@[j] by {
                            assert((i + 1) * es == i * es + es && 0 <= i * es) by (
                            nonlinear_arith)
                                requires
                                    es >= 1,
                                    i >= 0,
                            ;
                        }
                    }
                    i += 1;
                }
                proof {
                    lemma_spliced_from_pieces::<T>(old(self)@, self@, off as int, value@);
                }
                Ok(())
            },
        }
    }

    /// Loads the variable-length value that `r` points at: bounds
    /// arithmetic, then the target type's validation over the span, and only
    /// on success the decoded value.
    pub fn load_unsized<T: UnsizedZeroCopy>(&self, r: Unsized<T>) -> (res: Result<T, Error>)
        ensures
            match res {
                Ok(v) => r.resolve_spec(self@) == Ok::<<T as DeepView>::V, Error>(v.deep_view())
                    && v.encode_spec() == self@.subrange(r.offset as int, r.end_spec()),
                Err(e) => r.resolve_spec(self@) == Err::<<T as DeepView>::V, Error>(e),
            },
    {
        match self.check_span(r.offset, r.len, r.size) {
            Err(e) => Err(e),
            Ok(_end) => {
                let off = r.offset as usize;
                let len = r.len as usize;
                match T::validate(&self.data, off, len) {
                    Err(ve) => Err(Error::Validation(ve)),
                    Ok(()) => Ok(T::decode_at(&self.data, off, len)),
                }
            },
        }
    }

    /// Stores `v` over the span `r` points at, after the same checks as a
    /// load. The value's encoding must have exactly the referenced byte
    /// length: an in-place overwrite cannot grow or shrink. No re-validation
    /// runs: a value's own encoding is legal by construction.
    pub fn store_unsized<T: UnsizedZeroCopy>(&mut self, r: Unsized<T>, v: &T) -> (res: Result<
        (),
        Error,
    >)
        requires
            v.encode_spec().len() == r.len,
        ensures
            match res {
                Ok(()) => r.write_spec(old(self)@, *v) == Ok::<Seq<u8>, Error>(final(self)@),
                Err(e) => r.write_spec(old(self)@, *v) == Err::<Seq<u8>, Error>(e) && final(self)@ == old(self)@,
            },
    {
        match self.check_span(r.offset, r.len, r.size) {
            Err(e) => Err(e),
            Ok(_end) => {
                let off = r.offset as usize;
                v.encode_at(&mut self.data, off);
                proof {
                    assert(self.data@ =~= old(self)@.take(off as int) + v.encode_spec() + old(
                        self,
                    )@.skip(off + r.len));
                }
                Ok(())
            },
        }
    }
}

/// From per-element subrange equalities to the spliced whole: a byte region
/// whose element spans each hold the matching encoding and whose other bytes
/// are unchanged is exactly [`crate::refs::spliced_elems`].
proof fn lemma_spliced_from_pieces<T: ZeroCopy>(
    data: Seq<u8>,
    stored: Seq<u8>,
    off: int,
    value: Seq<T>,
)
    requires
        T::size_spec() >= 1,
        0 <= off,
        off + value.len() * T::size_spec() <= data.len(),
        stored.len() == data.len(),
        forall|j: int|
            0 <= j < stored.len() && !(off <= j < off + value.len() * T::size_spec())
                ==> stored[j] == data[j],
        forall|k: int|
            0 <= k < value.len() ==> stored.subrange(
                off + k * T::size_spec(),
                off + (k + 1) * T::size_spec(),
            ) == value[k].encode_spec(),
    ensures
        stored == spliced_elems(data, off, value),
{
    let es = T::size_spec();
    let n = value.len() as int;
    assert forall|j: int| 0 <= j < stored.len() implies stored[j] == spliced_elems(
        data,
        off,
        value,
    )[j] by {
        if off <= j < off + n * es {
            let k = (j - off) / es;
            let rem = (j - off) % es;
            vstd::arithmetic::div_mod::lemma_fundamental_div_mod(j - off, es);
            vstd::arithmetic::div_mod::lemma_div_pos_is_pos(j - off, es);
            assert(0 <= rem < es);
            assert(j - off == k * es + rem) by {
                vstd::arithmetic::mul::lemma_mul_is_commutative(es, k);
            }
            assert(k < n) by {
                if k >= n {
                    lemma_mul_inequality(n, k, es);
                    assert(n * es <= k * es);
                }
            }
            assert((k + 1) * es == k * es + es && 0 <= k * es) by (nonlinear_arith)
                requires
                    1 <= es,
                    0 <= k,
            ;
            lemma_mul_inequality(k + 1, n, es);
            value[k].lemma_encode_len();
            assert(stored.subrange(off + k * es, off + (k + 1) * es) == value[k].encode_spec());
            assert(stored.subrange(off + k * es, off + (k + 1) * es)[rem] == stored[off + k * es
                + rem]);
            assert(spliced_elems(data, off, value)[j] == value[k].encode_spec()[rem]);
        }
    }
    assert(stored =~= spliced_elems(data, off, value));
}

} // verus!

//! Crate-wide guarantees, stated and proved once over the resolution
//! specifications: what a load returns after a store, and which error each
//! failed check reports.

use vstd::arithmetic::div_mod::lemma_fundamental_div_mod_converse;
use vstd::arithmetic::mul::lemma_mul_inequality;
use vstd::prelude::*;

use crate::error::Error;
use crate::refs::{Ref, Slice, Unsized};
use crate::size::fits_index;
use crate::zero_copy::{UnsizedZeroCopy, ZeroCopy};

verus! {

/// Round trip for a single fixed-size value: wherever a store through `r`
/// succeeds over `data`, a load of `r` over the stored bytes returns a value
/// bit-equal to the one stored.
pub proof fn lemma_store_load_sized<T: ZeroCopy>(r: Ref<T>, data: Seq<u8>, v: T)
    requires
        r.end_spec() <= r.size.max_spec(),
        fits_index(r.end_spec()),
        r.end_spec() <= data.len(),
    ensures
        r.write_spec(data, v) is Ok,
        r.resolve_spec(r.write_spec(data, v)->Ok_0) == Ok::<T, Error>(v),
{
    let stored = r.write_spec(data, v)->Ok_0;
    T::lemma_size();
    v.lemma_encode_len();
    assert(stored.len() == data.len());
    assert(stored.subrange(r.offset as int, r.end_spec()) =~= v.encode_spec());
    v.lemma_decode_encode();
}

/// Round trip for a contiguous run: wherever a store of `count` elements
/// through `r` succeeds over `data`, a load of `r` over the stored bytes
/// returns exactly those elements, in order.
pub proof fn lemma_store_load_slice<T: ZeroCopy>(r: Slice<T>, data: Seq<u8>, value: Seq<T>)
    requires
        value.len() == r.count,
        r.end_spec() <= r.size.max_spec(),
        fits_index(r.end_spec()),
        r.end_spec() <= data.len(),
    ensures
        r.write_spec(data, value) is Ok,
        r.resolve_spec(r.write_spec(data, value)->Ok_0) == Ok::<Seq<T>, Error>(value),
{
    let stored = r.write_spec(data, value)->Ok_0;
    let es = T::size_spec();
    let off = r.offset as int;
    T::lemma_size();
    assert(stored.len() == data.len());
    assert forall|i: int| 0 <= i < value.len() implies #[trigger] r.elem_spec(stored, i)
        == value[i] by {
        value[i].lemma_encode_len();
        value[i].lemma_decode_encode();
        assert((i + 1) * es == i * es + es && 0 <= i * es) by (nonlinear_arith)
            requires
                es >= 1,
                0 <= i,
        ;
        lemma_mul_inequality(i + 1, value.len() as int, es);
        assert(stored.subrange(off + i * es, off + (i + 1) * es) =~= value[i].encode_spec())
            by {
            assert forall|k: int| 0 <= k < es implies stored.subrange(
                off + i * es,
                off + (i + 1) * es,
            )[k] == value[i].encode_spec()[k] by {
                lemma_fundamental_div_mod_converse(i * es + k, es, i, k);
                assert(stored[off + i * es + k] == value[i].encode_spec()[k]);
            }
        }
    }
    assert(r.resolve_spec(stored)->Ok_0 =~= value);
}

/// Round trip for a variable-length value: wherever a store of a well-formed
/// value through `r` succeeds over `data`, a load of `r` over the stored
/// bytes passes validation and returns that value back.
pub proof fn lemma_store_load_unsized<T: UnsizedZeroCopy>(r: Unsized<T>, data: Seq<u8>, v: T)
    requires
        v.wf_spec(),
        v.encode_spec().len() == r.len,
        r.end_spec() <= r.size.max_spec(),
        fits_index(r.end_spec()),
        r.end_spec() <= data.len(),
    ensures
        r.write_spec(data, v) is Ok,
        r.resolve_spec(r.write_spec(data, v)->Ok_0) == Ok::<<T as DeepView>::V, Error>(
            v.deep_view(),
        ),
{
    let stored = r.write_spec(data, v)->Ok_0;
    assert(stored.len() == data.len());
    assert(stored.subrange(r.offset as int, r.end_spec()) =~= v.encode_spec());
    v.lemma_decode_encode();
}

/// Overflow, not wraparound: wherever a reference's span arithmetic exceeds
/// its width or the native index range, resolution reports exactly
/// [`Error::Overflow`], for each of the three reference kinds.
pub proof fn lemma_overflow<T: ZeroCopy, U: UnsizedZeroCopy>(
    r: Ref<T>,
    s: Slice<T>,
    u: Unsized<U>,
    data: Seq<u8>,
)
    ensures
        r.end_spec() > r.size.max_spec() || !fits_index(r.end_spec()) ==> r.resolve_spec(data)
            == Err::<T, Error>(Error::Overflow),
        s.end_spec() > s.size.max_spec() || !fits_index(s.end_spec()) ==> s.resolve_spec(data)
            == Err::<Seq<T>, Error>(Error::Overflow),
        u.end_spec() > u.size.max_spec() || !fits_index(u.end_spec()) ==> u.resolve_spec(data)
            == Err::<<U as DeepView>::V, Error>(Error::Overflow),
{
}

/// Bounds before bytes: wherever a reference's span passes the arithmetic
/// checks but ends past the buffer's length, resolution reports exactly
/// [`Error::OutOfBounds`], for each of the three reference kinds.
pub proof fn lemma_out_of_bounds<T: ZeroCopy, U: UnsizedZeroCopy>(
    r: Ref<T>,
    s: Slice<T>,
    u: Unsized<U>,
    data: Seq<u8>,
)
    ensures
        r.end_spec() <= r.size.max_spec() && fits_index(r.end_spec()) && r.end_spec()
            > data.len() ==> r.resolve_spec(data) == Err::<T, Error>(Error::OutOfBounds),
        s.end_spec() <= s.size.max_spec() && fits_index(s.end_spec()) && s.end_spec()
            > data.len() ==> s.resolve_spec(data) == Err::<Seq<T>, Error>(Error::OutOfBounds),
        u.end_spec() <= u.size.max_spec() && fits_index(u.end_spec()) && u.end_spec()
            > data.len() ==> u.resolve_spec(data) == Err::<<U as DeepView>::V, Error>(
            Error::OutOfBounds,
        ),
{
}

/// Validation is never skipped: an in-bounds span that is not a legal
/// instance of the target unsized type resolves to exactly
/// [`Error::Validation`], never to a value.
pub proof fn lemma_validation_rejects<U: UnsizedZeroCopy>(u: Unsized<U>, data: Seq<u8>)
    requires
        u.end_spec() <= u.size.max_spec(),
        fits_index(u.end_spec()),
        u.end_spec() <= data.len(),
        !U::valid_spec(data.subrange(u.offset as int, u.end_spec())),
    ensures
        u.resolve_spec(data) == Err::<<U as DeepView>::V, Error>(
            Error::Validation(
                U::invalid_error_spec(data.subrange(u.offset as int, u.end_spec())),
            ),
        ),
{
}

/// Shared loads do not interfere: a load's outcome is a function of the
/// reference and the buffer's bytes alone, so any number of loads over the
/// same bytes observe the same result.
pub proof fn lemma_loads_agree<T: ZeroCopy>(
    r: Ref<T>,
    data: Seq<u8>,
    first: Result<T, Error>,
    second: Result<T, Error>,
)
    requires
        first == r.resolve_spec(data),
        second == r.resolve_spec(data),
    ensures
        first == second,
{
}

} // verus!

use musli_zerocopy::buf::Buf;
use musli_zerocopy::error::{Error, ValidationError};
use musli_zerocopy::load::{Load, LoadMut};
use musli_zerocopy::refs::{Ref, Slice, Unsized};
use musli_zerocopy::size::Size;
use musli_zerocopy::text::Text;

#[test]
fn load_u32_at_offset() {
    let buf = Buf::new(vec![0, 0, 0, 0, 42, 0, 0, 0]);
    let r: Ref<u32> = Ref::new(4, Size::U32);
    assert_eq!(r.load(&buf), Ok(42));
}

#[test]
fn slice_past_end_is_out_of_bounds() {
    let buf = Buf::new(vec![0, 0, 0, 0]);
    let s: Slice<u8> = Slice::new(0, 5, Size::U32);
    assert_eq!(s.load(&buf), Err(Error::OutOfBounds));
}

#[test]
fn invalid_text_is_rejected() {
    let buf = Buf::new(vec![0, 0, 0xff, 0xfe, 0xfd]);
    let u: Unsized<Text> = Unsized::new(2, 3, Size::U32);
    match u.load(&buf) {
        Err(Error::Validation(ValidationError::InvalidUtf8)) => {},
        other => panic!("expected a validation failure, got {:?}", other.map(|t| t.len())),
    }
}

#[test]
fn store_then_load_u32() {
    let mut buf = Buf::new(vec![0, 0, 0, 0]);
    let r: Ref<u32> = Ref::new(0, Size::U32);
    assert_eq!(r.load_mut(&mut buf, &7), Ok(()));
    assert_eq!(r.load(&buf), Ok(7));
}

#[test]
fn max_offset_overflows_not_wraps() {
    let buf = Buf::new(vec![0; 8]);
    let s: Slice<u8> = Slice::new(u32::MAX as u64, 1, Size::U32);
    assert_eq!(s.load(&buf), Err(Error::Overflow));
    let u: Unsized<Text> = Unsized::new(u32::MAX as u64, 1, Size::U32);
    assert_eq!(u.load(&buf).map(|t| t.len()), Err(Error::Overflow));
}

#[test]
fn little_endian_decoding() {
    let buf = Buf::new(vec![0x78, 0x56, 0x34, 0x12, 0x01, 0x02]);
    let r32: Ref<u32> = Ref::new(0, Size::U32);
    assert_eq!(r32.load(&buf), Ok(0x12345678));
    let r16: Ref<u16> = Ref::new(4, Size::U32);
    assert_eq!(r16.load(&buf), Ok(0x0201));
    let r8: Ref<u8> = Ref::new(5, Size::U32);
    assert_eq!(r8.load(&buf), Ok(0x02));
}

#[test]
fn round_trip_each_width() {
    let mut buf = Buf::new(vec![0; 15]);
    let r8: Ref<u8> = Ref::new(0, Size::U32);
    let r16: Ref<u16> = Ref::new(1, Size::U32);
    let r32: Ref<u32> = Ref::new(3, Size::U32);
    let r64: Ref<u64> = Ref::new(7, Size::U32);
    assert_eq!(r8.load_mut(&mut buf, &0xab), Ok(()));
    assert_eq!(r16.load_mut(&mut buf, &0xbeef), Ok(()));
    assert_eq!(r32.load_mut(&mut buf, &0xdeadbeef), Ok(()));
    assert_eq!(r64.load_mut(&mut buf, &0x0123456789abcdef), Ok(()));
    assert_eq!(r8.load(&buf), Ok(0xab));
    assert_eq!(r16.load(&buf), Ok(0xbeef));
    assert_eq!(r32.load(&buf), Ok(0xdeadbeef));
    assert_eq!(r64.load(&buf), Ok(0x0123456789abcdef));
}

#[test]
fn slice_loads_contiguous_elements() {
    let buf = Buf::new(vec![1, 0, 2, 0, 3, 0]);
    let s: Slice<u16> = Slice::new(0, 3, Size::U32);
    assert_eq!(s.load(&buf), Ok(vec![1, 2, 3]));
}

#[test]
fn slice_store_then_load() {
    let mut buf = Buf::new(vec![0; 8]);
    let s: Slice<u16> = Slice::new(2, 3, Size::U16);
    assert_eq!(s.load_mut(&mut buf, &vec![10, 20, 30]), Ok(()));
    assert_eq!(s.load(&buf), Ok(vec![10, 20, 30]));
    // bytes outside the run stay untouched
    let r0: Ref<u16> = Ref::new(0, Size::U16);
    assert_eq!(r0.load(&buf), Ok(0));
}

#[test]
fn slice_count_overflow() {
    let buf = Buf::new(vec![0; 8]);
    let s: Slice<u64> = Slice::new(0, u64::MAX, Size::U64);
    assert_eq!(s.load(&buf), Err(Error::Overflow));
}

#[test]
fn sized_ref_out_of_bounds() {
    let buf = Buf::new(vec![0, 0, 0]);
    let r: Ref<u32> = Ref::new(0, Size::U32);
    assert_eq!(r.load(&buf), Err(Error::OutOfBounds));
    let narrow: Ref<u32> = Ref::new(0xfffd, Size::U16);
    assert_eq!(narrow.load(&buf), Err(Error::Overflow));
}

#[test]
fn failed_store_leaves_buffer_unchanged() {
    let mut buf = Buf::new(vec![9, 9, 9]);
    let r: Ref<u32> = Ref::new(1, Size::U32);
    assert_eq!(r.load_mut(&mut buf, &5), Err(Error::OutOfBounds));
    assert_eq!(buf.into_vec(), vec![9, 9, 9]);
}

#[test]
fn repeated_loads_agree() {
    let buf = Buf::new(vec![4, 3, 2, 1]);
    let r: Ref<u32> = Ref::new(0, Size::U32);
    let first = r.load(&buf);
    let second = r.load(&buf);
    assert_eq!(first, second);
    assert_eq!(first, Ok(0x01020304));
}

#[test]
fn load_through_reference_wrapper() {
    let buf = Buf::new(vec![42, 0, 0, 0]);
    let r: Ref<u32> = Ref::new(0, Size::U32);
    let via_ref = &r;
    assert_eq!(via_ref.load(&buf), Ok(42));
}

#[test]
fn buffer_accessors() {
    let buf = Buf::new(vec![1, 2, 3]);
    assert_eq!(buf.len(), 3);
    assert_eq!(buf.into_vec(), vec![1, 2, 3]);
}

use musli_zerocopy::buf::Buf;
use musli_zerocopy::composite::Pair;
use musli_zerocopy::error::Error;
use musli_zerocopy::load::{Load, LoadMut};
use musli_zerocopy::refs::{Ref, Slice};
use musli_zerocopy::size::{from_index, to_index, Size};

#[test]
fn pair_round_trip() {
    let mut buf = Buf::new(vec![0; 8]);
    let r: Ref<Pair> = Ref::new(0, Size::U32);
    let v = Pair { a: 42, b: 84 };
    assert_eq!(r.load_mut(&mut buf, &v), Ok(()));
    assert_eq!(r.load(&buf), Ok(v));
}

#[test]
fn pair_fields_little_endian() {
    let buf = Buf::new(vec![42, 0, 0, 0, 84, 0, 0, 0]);
    let r: Ref<Pair> = Ref::new(0, Size::U32);
    assert_eq!(r.load(&buf), Ok(Pair { a: 42, b: 84 }));
}

#[test]
fn pair_slice_round_trip() {
    let mut buf = Buf::new(vec![0; 20]);
    let s: Slice<Pair> = Slice::new(4, 2, Size::U32);
    let run = vec![Pair { a: 1, b: 2 }, Pair { a: 3, b: 4 }];
    assert_eq!(s.load_mut(&mut buf, &run), Ok(()));
    assert_eq!(s.load(&buf), Ok(run));
}

#[test]
fn index_conversions_are_checked() {
    assert_eq!(to_index(7), Ok(7));
    assert_eq!(from_index(7, Size::U16), Ok(7));
    assert_eq!(from_index(0x10000, Size::U16), Err(Error::Overflow));
    assert_eq!(from_index(0x10000, Size::U32), Ok(0x10000));
}

#[test]
fn size_width_maxima() {
    assert_eq!(Size::U16.max_value(), 0xffff);
    assert_eq!(Size::U32.max_value(), 0xffff_ffff);
    assert_eq!(Size::U64.max_value(), u64::MAX);
}

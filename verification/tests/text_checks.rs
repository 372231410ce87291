use musli_zerocopy::buf::Buf;
use musli_zerocopy::error::{Error, ValidationError};
use musli_zerocopy::load::{Load, LoadMut};
use musli_zerocopy::refs::Unsized;
use musli_zerocopy::size::Size;
use musli_zerocopy::text::Text;

#[test]
fn ascii_text_loads() {
    let buf = Buf::new(vec![b'a', b'b', b'c']);
    let u: Unsized<Text> = Unsized::new(0, 3, Size::U32);
    let t = u.load(&buf).unwrap();
    assert_eq!(t.as_bytes(), &vec![b'a', b'b', b'c']);
    assert_eq!(t.len(), 3);
}

#[test]
fn multibyte_text_loads() {
    // "é" (two bytes), "€" (three bytes), then a four-byte emoji
    let bytes = vec![0xc3, 0xa9, 0xe2, 0x82, 0xac, 0xf0, 0x9f, 0x98, 0x80];
    let buf = Buf::new(bytes.clone());
    let u: Unsized<Text> = Unsized::new(0, 9, Size::U32);
    let t = u.load(&buf).unwrap();
    assert_eq!(t.as_bytes(), &bytes);
}

#[test]
fn empty_text_is_valid() {
    let buf = Buf::new(vec![7, 7]);
    let u: Unsized<Text> = Unsized::new(1, 0, Size::U32);
    assert_eq!(u.load(&buf).unwrap().len(), 0);
}

#[test]
fn overlong_encoding_is_rejected() {
    // 0xc0 0x80 is an overlong form of NUL and never legal
    assert_eq!(Text::new(vec![0xc0, 0x80]).map(|t| t.len()), Err(ValidationError::InvalidUtf8));
}

#[test]
fn surrogate_is_rejected() {
    // 0xed 0xa0 0x80 would encode a UTF-16 surrogate
    assert_eq!(
        Text::new(vec![0xed, 0xa0, 0x80]).map(|t| t.len()),
        Err(ValidationError::InvalidUtf8)
    );
}

#[test]
fn truncated_sequence_is_rejected() {
    assert_eq!(Text::new(vec![0xc3]).map(|t| t.len()), Err(ValidationError::InvalidUtf8));
    assert_eq!(Text::new(vec![0xf0, 0x9f, 0x98]).map(|t| t.len()), Err(ValidationError::InvalidUtf8));
}

#[test]
fn lone_continuation_is_rejected() {
    assert_eq!(Text::new(vec![0x80]).map(|t| t.len()), Err(ValidationError::InvalidUtf8));
}

#[test]
fn code_point_past_max_is_rejected() {
    // 0xf4 limits the second byte to 0x8f; 0x90 would pass U+10FFFF
    assert_eq!(
        Text::new(vec![0xf4, 0x90, 0x80, 0x80]).map(|t| t.len()),
        Err(ValidationError::InvalidUtf8)
    );
}

#[test]
fn text_store_then_load() {
    let mut buf = Buf::new(vec![0x20; 8]);
    let u: Unsized<Text> = Unsized::new(2, 3, Size::U32);
    let t = Text::new(vec![b'h', b'i', b'!']).unwrap();
    assert_eq!(u.load_mut(&mut buf, &t), Ok(()));
    assert_eq!(u.load(&buf).unwrap().as_bytes(), &vec![b'h', b'i', b'!']);
    // the spaces around the span stay untouched
    assert_eq!(buf.into_vec(), vec![0x20, 0x20, b'h', b'i', b'!', 0x20, 0x20, 0x20]);
}

#[test]
fn text_span_must_cover_whole_sequence() {
    // splitting a two-byte encoding mid-way leaves an illegal span
    let buf = Buf::new(vec![0xc3, 0xa9]);
    let u: Unsized<Text> = Unsized::new(0, 1, Size::U32);
    match u.load(&buf) {
        Err(Error::Validation(ValidationError::InvalidUtf8)) => {},
        other => panic!("expected a validation failure, got {:?}", other.map(|t| t.len())),
    }
}

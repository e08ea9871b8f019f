use mqtt::proto::{DecodeError, EncodeError, RemainingLengthCodec};

#[test]
fn remaining_length_encode() {
    remaining_length_encode_inner_ok(0x00, &[0x00]);
    remaining_length_encode_inner_ok(0x01, &[0x01]);

    remaining_length_encode_inner_ok(0x7F, &[0x7F]);
    remaining_length_encode_inner_ok(0x80, &[0x80, 0x01]);
    remaining_length_encode_inner_ok(0x3FFF, &[0xFF, 0x7F]);
    remaining_length_encode_inner_ok(0x4000, &[0x80, 0x80, 0x01]);
    remaining_length_encode_inner_ok(0x001F_FFFF, &[0xFF, 0xFF, 0x7F]);
    remaining_length_encode_inner_ok(0x0020_0000, &[0x80, 0x80, 0x80, 0x01]);
    remaining_length_encode_inner_ok(0x0FFF_FFFF, &[0xFF, 0xFF, 0xFF, 0x7F]);

    remaining_length_encode_inner_too_high(0x1000_0000);
    remaining_length_encode_inner_too_high(0xFFFF_FFFF);
    remaining_length_encode_inner_too_high(0xFFFF_FFFF_FFFF_FFFF);
}

fn remaining_length_encode_inner_ok(value: usize, expected: &[u8]) {
    let mut bytes = bytes::BytesMut::new();
    RemainingLengthCodec::default()
        .encode(value, &mut bytes)
        .unwrap();
    assert_eq!(&*bytes, expected);
}

fn remaining_length_encode_inner_too_high(value: usize) {
    let mut bytes = bytes::BytesMut::new();
    let err = RemainingLengthCodec::default()
        .encode(value, &mut bytes)
        .unwrap_err();
    if let EncodeError::RemainingLengthTooHigh(v) = err {
        assert_eq!(v, value);
    } else {
        panic!("{:?}", err);
    }
}

#[test]
fn remaining_length_decode() {
    remaining_length_decode_inner_ok(&[0x00], 0x00);
    remaining_length_decode_inner_ok(&[0x01], 0x01);

    remaining_length_decode_inner_ok(&[0x7F], 0x7F);
    remaining_length_decode_inner_ok(&[0x80, 0x01], 0x80);
    remaining_length_decode_inner_ok(&[0xFF, 0x7F], 0x3FFF);
    remaining_length_decode_inner_ok(&[0x80, 0x80, 0x01], 0x4000);
    remaining_length_decode_inner_ok(&[0xFF, 0xFF, 0x7F], 0x001F_FFFF);
    remaining_length_decode_inner_ok(&[0x80, 0x80, 0x80, 0x01], 0x0020_0000);
    remaining_length_decode_inner_ok(&[0xFF, 0xFF, 0xFF, 0x7F], 0x0FFF_FFFF);

    // Longer-than-necessary encodings are not disallowed by the spec
    remaining_length_decode_inner_ok(&[0x81, 0x00], 0x01);
    remaining_length_decode_inner_ok(&[0x81, 0x80, 0x00], 0x01);
    remaining_length_decode_inner_ok(&[0x81, 0x80, 0x80, 0x00], 0x01);

    remaining_length_decode_inner_too_high(&[0x80, 0x80, 0x80, 0x80]);
    remaining_length_decode_inner_too_high(&[0xFF, 0xFF, 0xFF, 0xFF]);

    remaining_length_decode_inner_incomplete_packet(&[0x80]);
    remaining_length_decode_inner_incomplete_packet(&[0x80, 0x80]);
    remaining_length_decode_inner_incomplete_packet(&[0x80, 0x80, 0x80]);
}

fn remaining_length_decode_inner_ok(bytes: &[u8], expected: usize) {
    let mut bytes = bytes::BytesMut::from(bytes);
    let actual = RemainingLengthCodec::default()
        .decode(&mut bytes)
        .unwrap()
        .unwrap();
    assert_eq!(actual, expected);
    assert!(bytes.is_empty());
}

fn remaining_length_decode_inner_too_high(bytes: &[u8]) {
    let mut bytes = bytes::BytesMut::from(bytes);
    let err = RemainingLengthCodec::default()
        .decode(&mut bytes)
        .unwrap_err();
    if let DecodeError::RemainingLengthTooHigh = err {
    } else {
        panic!("{:?}", err);
    }
}

fn remaining_length_decode_inner_incomplete_packet(bytes: &[u8]) {
    let mut bytes = bytes::BytesMut::from(bytes);
    assert_eq!(
        RemainingLengthCodec::default()
            .decode(&mut bytes)
            .unwrap(),
        None
    );
}

#[test]
fn remaining_length_decode_takes_up_where_it_left_off() {
    let mut codec = RemainingLengthCodec::default();
    let mut bytes = bytes::BytesMut::from(&[0xFF_u8, 0xFF][..]);
    assert_eq!(codec.decode(&mut bytes).unwrap(), None);
    assert!(bytes.is_empty());
    let mut bytes = bytes::BytesMut::from(&[0x7F_u8, 0x2A][..]);
    assert_eq!(codec.decode(&mut bytes).unwrap(), Some(0x001F_FFFF));
    assert_eq!(&*bytes, &[0x2A_u8][..]);
    // The decoder starts afresh after a number.
    assert_eq!(codec.decode(&mut bytes).unwrap(), Some(0x2A));
}

#[test]
fn remaining_length_too_high_leaves_buffer_as_it_is() {
    let mut bytes = bytes::BytesMut::from(&[0x01_u8, 0x02][..]);
    let err = RemainingLengthCodec::default()
        .encode(0x1000_0000, &mut bytes)
        .unwrap_err();
    assert!(matches!(err, EncodeError::RemainingLengthTooHigh(0x1000_0000)));
    assert_eq!(&*bytes, &[0x01_u8, 0x02][..]);
    RemainingLengthCodec::default()
        .encode(0x80, &mut bytes)
        .unwrap();
    assert_eq!(&*bytes, &[0x01_u8, 0x02, 0x80, 0x01][..]);
}

#[test]
fn remaining_length_too_high_takes_four_bytes() {
    let mut codec = RemainingLengthCodec::default();
    let mut bytes = bytes::BytesMut::from(&[0x80_u8, 0x80, 0x80, 0x80, 0x05][..]);
    assert!(matches!(
        codec.decode(&mut bytes),
        Err(DecodeError::RemainingLengthTooHigh)
    ));
    assert_eq!(&*bytes, &[0x05_u8][..]);
    assert_eq!(codec.decode(&mut bytes).unwrap(), Some(5));
}

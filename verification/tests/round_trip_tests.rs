use binbuf::buffer::FiniteBuffer;
use binbuf::bytes::BytesMut;
use binbuf::decode::DecoderBuffer;
use binbuf::encode::{EncoderBuffer, EncoderBufferExt};

fn round_trip_u8(value: u8) {
    let buffer = BytesMut::with_capacity(1);
    assert_eq!(buffer.encoding_len(&value), Ok(1));
    let (n, buffer) = buffer.encode(value).unwrap();
    assert_eq!(n, 1);
    assert_eq!(buffer.encoder_capacity(), 0);
    let (decoded, rest) = buffer.decode::<u8>().unwrap();
    assert_eq!(decoded, value);
    assert!(rest.is_empty());
}

#[test]
fn round_trip_u8_test() {
    for value in [
        0u8,
        1,
        u8::MIN,
        u8::MIN + 1,
        u8::MAX / 2,
        u8::MAX - 1,
        u8::MAX,
    ] {
        round_trip_u8(value);
    }
}

fn round_trip_i8(value: i8) {
    let buffer = BytesMut::with_capacity(1);
    assert_eq!(buffer.encoding_len(&value), Ok(1));
    let (n, buffer) = buffer.encode(value).unwrap();
    assert_eq!(n, 1);
    assert_eq!(buffer.encoder_capacity(), 0);
    let (decoded, rest) = buffer.decode::<i8>().unwrap();
    assert_eq!(decoded, value);
    assert!(rest.is_empty());
}

#[test]
fn round_trip_i8_test() {
    for value in [
        0i8,
        1,
        i8::MIN,
        i8::MIN + 1,
        i8::MAX / 2,
        i8::MAX - 1,
        i8::MAX,
    ] {
        round_trip_i8(value);
    }
}

fn round_trip_u16(value: u16) {
    let buffer = BytesMut::with_capacity(2);
    assert_eq!(buffer.encoding_len(&value), Ok(2));
    let (n, buffer) = buffer.encode(value).unwrap();
    assert_eq!(n, 2);
    assert_eq!(buffer.encoder_capacity(), 0);
    let (decoded, rest) = buffer.decode::<u16>().unwrap();
    assert_eq!(decoded, value);
    assert!(rest.is_empty());
}

#[test]
fn round_trip_u16_test() {
    for value in [
        0u16,
        1,
        u16::MIN,
        u16::MIN + 1,
        u16::MAX / 2,
        u16::MAX - 1,
        u16::MAX,
    ] {
        round_trip_u16(value);
    }
}

fn round_trip_i16(value: i16) {
    let buffer = BytesMut::with_capacity(2);
    assert_eq!(buffer.encoding_len(&value), Ok(2));
    let (n, buffer) = buffer.encode(value).unwrap();
    assert_eq!(n, 2);
    assert_eq!(buffer.encoder_capacity(), 0);
    let (decoded, rest) = buffer.decode::<i16>().unwrap();
    assert_eq!(decoded, value);
    assert!(rest.is_empty());
}

#[test]
fn round_trip_i16_test() {
    for value in [
        0i16,
        1,
        i16::MIN,
        i16::MIN + 1,
        i16::MAX / 2,
        i16::MAX - 1,
        i16::MAX,
    ] {
        round_trip_i16(value);
    }
}

fn round_trip_u32(value: u32) {
    let buffer = BytesMut::with_capacity(4);
    assert_eq!(buffer.encoding_len(&value), Ok(4));
    let (n, buffer) = buffer.encode(value).unwrap();
    assert_eq!(n, 4);
    assert_eq!(buffer.encoder_capacity(), 0);
    let (decoded, rest) = buffer.decode::<u32>().unwrap();
    assert_eq!(decoded, value);
    assert!(rest.is_empty());
}

#[test]
fn round_trip_u32_test() {
    for value in [
        0u32,
        1,
        u32::MIN,
        u32::MIN + 1,
        u32::MAX / 2,
        u32::MAX - 1,
        u32::MAX,
    ] {
        round_trip_u32(value);
    }
}

fn round_trip_i32(value: i32) {
    let buffer = BytesMut::with_capacity(4);
    assert_eq!(buffer.encoding_len(&value), Ok(4));
    let (n, buffer) = buffer.encode(value).unwrap();
    assert_eq!(n, 4);
    assert_eq!(buffer.encoder_capacity(), 0);
    let (decoded, rest) = buffer.decode::<i32>().unwrap();
    assert_eq!(decoded, value);
    assert!(rest.is_empty());
}

#[test]
fn round_trip_i32_test() {
    for value in [
        0i32,
        1,
        i32::MIN,
        i32::MIN + 1,
        i32::MAX / 2,
        i32::MAX - 1,
        i32::MAX,
    ] {
        round_trip_i32(value);
    }
}

fn round_trip_u64(value: u64) {
    let buffer = BytesMut::with_capacity(8);
    assert_eq!(buffer.encoding_len(&value), Ok(8));
    let (n, buffer) = buffer.encode(value).unwrap();
    assert_eq!(n, 8);
    assert_eq!(buffer.encoder_capacity(), 0);
    let (decoded, rest) = buffer.decode::<u64>().unwrap();
    assert_eq!(decoded, value);
    assert!(rest.is_empty());
}

#[test]
fn round_trip_u64_test() {
    for value in [
        0u64,
        1,
        u64::MIN,
        u64::MIN + 1,
        u64::MAX / 2,
        u64::MAX - 1,
        u64::MAX,
    ] {
        round_trip_u64(value);
    }
}

fn round_trip_i64(value: i64) {
    let buffer = BytesMut::with_capacity(8);
    assert_eq!(buffer.encoding_len(&value), Ok(8));
    let (n, buffer) = buffer.encode(value).unwrap();
    assert_eq!(n, 8);
    assert_eq!(buffer.encoder_capacity(), 0);
    let (decoded, rest) = buffer.decode::<i64>().unwrap();
    assert_eq!(decoded, value);
    assert!(rest.is_empty());
}

#[test]
fn round_trip_i64_test() {
    for value in [
        0i64,
        1,
        i64::MIN,
        i64::MIN + 1,
        i64::MAX / 2,
        i64::MAX - 1,
        i64::MAX,
    ] {
        round_trip_i64(value);
    }
}

fn round_trip_u128(value: u128) {
    let buffer = BytesMut::with_capacity(16);
    assert_eq!(buffer.encoding_len(&value), Ok(16));
    let (n, buffer) = buffer.encode(value).unwrap();
    assert_eq!(n, 16);
    assert_eq!(buffer.encoder_capacity(), 0);
    let (decoded, rest) = buffer.decode::<u128>().unwrap();
    assert_eq!(decoded, value);
    assert!(rest.is_empty());
}

#[test]
fn round_trip_u128_test() {
    for value in [
        0u128,
        1,
        u128::MIN,
        u128::MIN + 1,
        u128::MAX / 2,
        u128::MAX - 1,
        u128::MAX,
    ] {
        round_trip_u128(value);
    }
}


fn round_trip_i128(value: i128) {
    let buffer = BytesMut::with_capacity(16);
    assert_eq!(buffer.encoding_len(&value), Ok(16));
    let (n, buffer) = buffer.encode(value).unwrap();
    assert_eq!(n, 16);
    assert_eq!(buffer.encoder_capacity(), 0);
    let (decoded, rest) = buffer.decode::<i128>().unwrap();
    assert_eq!(decoded, value);
    assert!(rest.is_empty());
}

#[test]
fn round_trip_i128_test() {
    for value in [
        0i128,
        1,
        i128::MIN,
        i128::MIN + 1,
        i128::MAX / 2,
        i128::MAX - 1,
        i128::MAX,
    ] {
        round_trip_i128(value);
    }
}

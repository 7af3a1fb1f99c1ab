use binbuf::buffer::{BufferErrorReason, FiniteBuffer, SplittableBuffer};
use binbuf::bytes::Bytes;
use binbuf::decode::{DecoderBuffer, Skip};
use binbuf::endian::{Big, Endian, Little};
use binbuf::len::{DecodeLenPrefix, LenPrefix, LenPrefixed};

fn peek_check<D: FiniteBuffer + std::fmt::Debug>(d: D) {
    {
        let t = d.lookahead();
        let (_, t) = t.decode::<u8>().unwrap();
        let (_, t) = t.decode::<u8>().unwrap();
        let _ = t;
    }
    decode_check(d)
}

fn decode_check<S: FiniteBuffer + std::fmt::Debug>(s: S) {
    let (_, s) = s.decode::<u8>().unwrap();
    let (_, s) = s.decode::<u8>().unwrap();
    let _ = s;
}

#[test]
fn slice_test() {
    let i = [1u8, 2, 3];
    peek_check(&i[..]);
    peek_check(Bytes::from_vec(vec![1, 2, 3]));
}

#[test]
fn decode_len_prefix_test() {
    let buffer = &[2, 0, 1][..];
    let (value, _buffer) = buffer.decode_with(LenPrefix::new::<u8>()).unwrap();
    let value: u16 = value;
    assert_eq!(value, 1);
}

#[test]
fn decode_with_len_prefix_test() {
    let buffer = &[2, 0, 1][..];
    let (value, _buffer) = buffer.decode_with_len_prefix::<_, u8>().unwrap();
    let value: u16 = value;
    assert_eq!(value, 1);
}

#[test]
fn decode_value_len_prefix_test() {
    let buffer = &[2, 0, 1][..];
    let (value, _buffer) = buffer.decode::<LenPrefixed<_, u8>>().unwrap();
    let value: u16 = value.value;
    assert_eq!(value, 1);
}

#[test]
fn decode_len_prefix_wide_prefix_test() {
    let buffer = &[0, 2, 0, 1][..];
    let (value, rest) = buffer.decode::<LenPrefixed<u16, u16>>().unwrap();
    assert_eq!(value.len, 2);
    assert_eq!(value.value, 1);
    assert!(rest.is_empty());
}

#[test]
fn decode_len_prefix_eof_test() {
    let buffer = &[5, 0, 1][..];
    let err = buffer.decode_with_len_prefix::<u16, u8>().unwrap_err();
    assert!(matches!(
        err.reason,
        BufferErrorReason::UnexpectedEof { actual: 2, expected: 5 }
    ));
}

#[test]
fn decode_len_prefix_trailing_test() {
    // three payload bytes framed, but the value consumes only two
    let buffer = &[3, 0, 1, 9][..];
    let err = buffer.decode_with_len_prefix::<u16, u8>().unwrap_err();
    assert!(matches!(err.reason, BufferErrorReason::UnexpectedBytes { len: 1 }));
}

#[test]
fn decode_default_is_network_order_test() {
    let buffer = &[1, 2][..];
    let (value, _) = buffer.decode::<u16>().unwrap();
    assert_eq!(value, 0x0102);
}

#[test]
fn decode_endian_strategies_test() {
    let bytes = [1u8, 2, 3, 4];
    let (big, _) = (&bytes[..]).decode_with::<u32, _>(Big).unwrap();
    assert_eq!(big, 0x01020304);
    let (little, _) = (&bytes[..]).decode_with::<u32, _>(Little).unwrap();
    assert_eq!(little, 0x04030201);
    let (runtime, _) = (&bytes[..]).decode_with::<u32, _>(Endian::Little).unwrap();
    assert_eq!(runtime, 0x04030201);
}

#[test]
fn decode_signed_test() {
    let buffer = &[0xff, 0xfe][..];
    let (value, _) = buffer.decode::<i16>().unwrap();
    assert_eq!(value, -2);
}

#[test]
fn decode_eof_returns_buffer_test() {
    let buffer = &[1u8][..];
    let err = buffer.decode::<u16>().unwrap_err();
    assert!(matches!(
        err.reason,
        BufferErrorReason::UnexpectedEof { actual: 1, expected: 2 }
    ));
    // the buffer comes back byte-for-byte unchanged
    assert_eq!(err.buffer, &[1u8][..]);
}

#[test]
fn decode_tuple_test() {
    let buffer = &[7, 0, 1, 9][..];
    let (value, rest) = buffer.decode::<(u8, u16)>().unwrap();
    assert_eq!(value, (7, 1));
    assert_eq!(rest, &[9u8][..]);
}

#[test]
fn decode_triple_test() {
    let buffer = &[7, 0, 1, 9, 8][..];
    let (value, rest) = buffer.decode::<(u8, u16, u8)>().unwrap();
    assert_eq!(value, (7, 1, 9));
    assert_eq!(rest, &[8u8][..]);
}

#[test]
fn decode_option_test() {
    let empty = &[][..];
    let (value, _) = empty.decode::<Option<u16>>().unwrap();
    assert_eq!(value, None);

    let buffer = &[0, 5][..];
    let (value, _) = buffer.decode::<Option<u16>>().unwrap();
    assert_eq!(value, Some(5));
}

#[test]
fn decode_skip_test() {
    let buffer = &[1, 2, 3][..];
    let (value, rest) = buffer.decode::<Skip>().unwrap();
    assert_eq!(value.0, 3);
    assert!(rest.is_empty());
}

#[test]
fn consumed_decode_test() {
    let exact = &[0, 5][..];
    let (value, _) = exact.consumed_decode::<u16>().unwrap();
    assert_eq!(value, 5);

    let trailing = &[0, 5, 6][..];
    let err = trailing.consumed_decode::<u16>().unwrap_err();
    assert!(matches!(err.reason, BufferErrorReason::UnexpectedBytes { len: 1 }));
}

#[test]
fn checked_split_test() {
    let buffer = &[1, 2, 3, 4][..];
    let (head, rest) = buffer.checked_split(3).unwrap();
    assert_eq!(head, &[1u8, 2, 3][..]);
    assert_eq!(rest, &[4u8][..]);

    let err = rest.checked_split(2).unwrap_err();
    assert!(matches!(
        err.reason,
        BufferErrorReason::UnexpectedEof { actual: 1, expected: 2 }
    ));
    assert_eq!(err.buffer, &[4u8][..]);
}

#[test]
fn ensure_len_test() {
    let buffer = &[1, 2][..];
    let (len, buffer) = buffer.ensure_len(2).unwrap();
    assert_eq!(len, 2);
    let err = buffer.ensure_len(3).unwrap_err();
    assert!(matches!(
        err.reason,
        BufferErrorReason::UnexpectedEof { actual: 2, expected: 3 }
    ));
}

#[test]
fn ensure_empty_test() {
    let buffer = &[][..];
    let ((), _) = buffer.ensure_empty().unwrap();
    let buffer = &[1u8][..];
    let err = buffer.ensure_empty().unwrap_err();
    assert!(matches!(err.reason, BufferErrorReason::UnexpectedBytes { len: 1 }));
}

#[test]
fn peek_with_test() {
    let buffer = Bytes::from_vec(vec![2, 1]);
    let (value, _) = buffer.peek_with::<u16, _>(Little).unwrap();
    assert_eq!(value, 0x0102);
    assert_eq!(buffer.len(), 2);
}

#[test]
fn peek_does_not_consume_test() {
    let buffer = Bytes::from_vec(vec![0, 7, 9]);
    let (value, _) = buffer.peek::<u16>().unwrap();
    assert_eq!(value, 7);
    // the parent still holds all three bytes
    assert_eq!(buffer.len(), 3);
    let (value, _) = buffer.decode::<u16>().unwrap();
    assert_eq!(value, 7);
}

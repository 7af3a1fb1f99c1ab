use binbuf::buffer::{BufferError, BufferErrorReason, FiniteBuffer, SplittableMutBuffer};
use binbuf::bytes::BytesMut;
use binbuf::cursor::EncodeWithCursor;
use binbuf::decode::DecoderBuffer;
use binbuf::encode::{EncoderBuffer, EncoderBufferExt};
use binbuf::endian::{Big, Little};
use binbuf::estimator::LenEstimator;
use binbuf::len::LenPrefix;
use binbuf::tlv::TLV;

#[test]
fn encode_len_prefix_test() {
    let buffer = BytesMut::with_capacity(3);
    let (_, _) = buffer.encode_with(123u16, LenPrefix::new::<u8>()).unwrap();
    let buffer = BytesMut::with_capacity(3);
    let (_, _) = buffer.encode_with(&456u16, LenPrefix::new::<u8>()).unwrap();
    let buffer = BytesMut::with_capacity(3);
    let (_, _) = buffer.encode_with(&mut 789u16, LenPrefix::new::<u8>()).unwrap();
}

#[test]
#[should_panic]
fn encode_len_prefix_encoding_cap_test() {
    let buffer = BytesMut::with_capacity(512);
    let value = vec![1u8; 256];
    let (_, _) = buffer.encode_with(value, LenPrefix::new::<u8>()).unwrap();
}

#[test]
#[should_panic]
fn encode_len_prefix_cap_test() {
    let buffer = BytesMut::with_capacity(4);
    let value = vec![1u8; 16];
    let (_, _) = buffer.encode_with(value, LenPrefix::new::<u8>()).unwrap();
}

#[test]
fn encode_len_prefix_bytes_test() {
    // encoding 0x0001u16 behind an 8-bit length prefix into a 3-byte
    // destination yields [2, 0, 1]: the prefix counts the payload bytes
    let buffer = BytesMut::with_capacity(3);
    let (n, buffer) = buffer.encode_with(0x0001u16, LenPrefix::new::<u8>()).unwrap();
    assert_eq!(n, 3);
    assert_eq!(buffer.as_less_safe_slice(), &[2, 0, 1][..]);

    // and decoding that byte sequence reproduces the value
    let frozen = buffer.freeze();
    let (value, _) = frozen.decode_with(LenPrefix::new::<u8>()).unwrap();
    let value: u16 = value;
    assert_eq!(value, 1);
}

#[test]
fn tlv_round_trip_test() {
    // tag 7, 8-bit length prefix, payload 123456789u32
    let value = TLV { tag: 7u8, len: LenPrefix::new::<u8>(), value: 123456789u32 };
    let buffer = BytesMut::with_capacity(6);
    let (n, buffer) = buffer.encode(value).unwrap();
    assert_eq!(n, 6);
    assert_eq!(buffer.as_less_safe_slice(), &[7, 4, 0x07, 0x5B, 0xCD, 0x15][..]);

    let (decoded, rest) = buffer.decode::<TLV<u8, u8, u32>>().unwrap();
    assert_eq!(decoded.tag, 7);
    assert_eq!(decoded.value, 123456789);
    assert!(rest.is_empty());
}

#[test]
fn encoding_len_matches_real_encode_test() {
    // the dry run against the estimator reports exactly the bytes a real
    // encode writes, for the same capacity
    let value = TLV { tag: 7u8, len: LenPrefix::new::<u8>(), value: 123456789u32 };
    let estimated = LenEstimator::encoding_len(&value, 16).unwrap();

    let buffer = BytesMut::with_capacity(16);
    assert_eq!(buffer.encoding_len(&value).unwrap(), estimated);
    let (written, _) = buffer.encode(value).unwrap();
    assert_eq!(estimated, written);
}

#[test]
fn encoding_len_reports_eof_test() {
    let err = LenEstimator::encoding_len(&7u32, 2).unwrap_err();
    assert!(matches!(err, BufferErrorReason::UnexpectedEof { actual: 2, expected: 4 }));
}

#[test]
fn estimator_window_test() {
    let estimator = LenEstimator::with_capacity(5);
    assert_eq!(estimator.len(), 5);
    assert!(!estimator.is_empty());
    let (slice, rest) = binbuf::buffer::SplittableBuffer::checked_split(estimator, 2).unwrap();
    assert_eq!(FiniteBuffer::len(&slice), 2);
    assert_eq!(FiniteBuffer::len(&rest), 3);
    let exhausted = LenEstimator::with_capacity(0);
    assert!(exhausted.is_empty());
}

#[test]
fn encode_endian_strategies_test() {
    let buffer = BytesMut::with_capacity(4);
    let (_, buffer) = buffer.encode_with(0x01020304u32, Big).unwrap();
    assert_eq!(buffer.as_less_safe_slice(), &[1, 2, 3, 4][..]);

    let buffer = BytesMut::with_capacity(4);
    let (_, buffer) = buffer.encode_with(0x01020304u32, Little).unwrap();
    assert_eq!(buffer.as_less_safe_slice(), &[4, 3, 2, 1][..]);
}

#[test]
fn encode_eof_rolls_back_test() {
    let buffer = BytesMut::with_capacity(1);
    let (outcome, buffer) = buffer.try_encode(0x0102u16);
    let reason = outcome.unwrap_err();
    assert!(matches!(reason, BufferErrorReason::UnexpectedEof { actual: 1, expected: 2 }));
    assert_eq!(buffer.encoder_capacity(), 1);
    assert_eq!(buffer.len(), 0);
}

#[test]
fn encode_tuple_rolls_back_test() {
    // the first field fits, the second does not: nothing stays written
    let buffer = BytesMut::with_capacity(2);
    let err = buffer.encode((7u8, 0x0102u16)).unwrap_err();
    assert!(matches!(
        err.reason,
        BufferErrorReason::UnexpectedEof { actual: 1, expected: 2 }
    ));
    assert_eq!(err.buffer.encoder_capacity(), 2);
    assert_eq!(err.buffer.len(), 0);
}

#[test]
fn encode_triple_test() {
    let buffer = BytesMut::with_capacity(4);
    let (n, buffer) = buffer.encode((7u8, 0x0102u16, 9u8)).unwrap();
    assert_eq!(n, 4);
    assert_eq!(buffer.as_less_safe_slice(), &[7, 1, 2, 9][..]);
}

#[test]
fn encode_triple_rolls_back_test() {
    let buffer = BytesMut::with_capacity(3);
    let err = buffer.encode((7u8, 0x0102u16, 9u8)).unwrap_err();
    assert!(matches!(
        err.reason,
        BufferErrorReason::UnexpectedEof { actual: 0, expected: 1 }
    ));
    assert_eq!(err.buffer.encoder_capacity(), 3);
    assert_eq!(err.buffer.len(), 0);
}

#[test]
fn checkpoint_rollback_test() {
    // a checkpointed sequence that writes two bytes and then fails hands
    // back a buffer with the capacity it had before the checkpoint
    let buffer = BytesMut::with_capacity(4);
    let err = buffer
        .checkpoint(|b: BytesMut| {
            let (_, b) = b.encode_bytes(&[1, 2])?;
            Err(BufferError {
                reason: BufferErrorReason::InvalidValue { message: "rejected" },
                buffer: b,
            })
        })
        .unwrap_err();
    assert!(matches!(err.reason, BufferErrorReason::InvalidValue { message: "rejected" }));
    assert_eq!(err.buffer.encoder_capacity(), 4);
    assert_eq!(err.buffer.len(), 0);
}

#[test]
fn checkpoint_reports_consumed_test() {
    let buffer = BytesMut::with_capacity(4);
    let (n, buffer) = buffer
        .checkpoint(|b: BytesMut| {
            let (_, b) = b.encode_bytes(&[1, 2, 3])?;
            Ok(((), b))
        })
        .unwrap();
    assert_eq!(n, 3);
    assert_eq!(buffer.as_less_safe_slice(), &[1, 2, 3][..]);
}

#[test]
fn encode_repeated_test() {
    let buffer = BytesMut::with_capacity(4);
    let (n, buffer) = buffer.encode_repeated(0xABu8, 3).unwrap();
    assert_eq!(n, 3);
    assert_eq!(buffer.as_less_safe_slice(), &[0xAB, 0xAB, 0xAB][..]);
}

#[test]
fn encode_repeated_rolls_back_test() {
    let buffer = BytesMut::with_capacity(3);
    let err = buffer.encode_repeated(0x0102u16, 2).unwrap_err();
    assert!(matches!(
        err.reason,
        BufferErrorReason::UnexpectedEof { actual: 1, expected: 2 }
    ));
    assert_eq!(err.buffer.encoder_capacity(), 3);
}

#[test]
fn encode_repeated_ref_test() {
    let buffer = BytesMut::with_capacity(4);
    let (n, buffer) = buffer.encode_repeated_ref(&0x0102u16, 2).unwrap();
    assert_eq!(n, 4);
    assert_eq!(buffer.as_less_safe_slice(), &[1, 2, 1, 2][..]);
}

#[test]
fn ensure_encoder_capacity_test() {
    let buffer = BytesMut::with_capacity(2);
    let (cap, buffer) = buffer.ensure_encoder_capacity(2).unwrap();
    assert_eq!(cap, 2);
    let err = buffer.ensure_encoder_capacity(3).unwrap_err();
    assert!(matches!(
        err.reason,
        BufferErrorReason::UnexpectedEof { actual: 2, expected: 3 }
    ));
}

#[test]
fn encode_slice_and_freeze_test() {
    let buffer = BytesMut::from_vec(vec![0, 0, 0]);
    let (head, rest) = buffer.encode_slice(&[9, 8]).unwrap();
    assert_eq!(head.as_less_safe_slice(), &[9, 8][..]);
    assert_eq!(rest.as_less_safe_slice(), &[0][..]);
    let frozen = head.freeze();
    assert_eq!(frozen.len(), 2);
}

#[test]
fn cursor_encode_test() {
    let buffer = BytesMut::with_capacity(4);
    let (cursor, rest) = buffer.cursor_encode(&0x0102u16).unwrap();
    assert_eq!(rest.encoder_capacity(), 2);
    let held = cursor.into_buffer();
    assert_eq!(held.as_less_safe_slice(), &[1, 2][..]);
}

#[test]
fn cursor_encode_with_test() {
    let buffer = BytesMut::with_capacity(4);
    let (cursor, rest) = buffer.cursor_encode_with(&0x0102u16, Little).unwrap();
    assert_eq!(rest.encoder_capacity(), 2);
    assert_eq!(cursor.into_buffer().as_less_safe_slice(), &[2, 1][..]);
}

#[test]
fn cursor_encode_bytes_test() {
    let buffer = BytesMut::with_capacity(4);
    let (cursor, rest) = buffer.cursor_encode_bytes(&[5, 6, 7]).unwrap();
    assert_eq!(rest.encoder_capacity(), 1);
    assert_eq!(cursor.into_buffer().as_less_safe_slice(), &[5, 6, 7][..]);
}

#[test]
fn with_buffer_and_map_buffer_test() {
    let err = BufferError {
        buffer: 1u8,
        reason: BufferErrorReason::UnexpectedBytes { len: 3 },
    };
    let err = err.with_buffer(7u16);
    assert_eq!(err.buffer, 7u16);
    assert!(matches!(err.reason, BufferErrorReason::UnexpectedBytes { len: 3 }));
    let err = err.map_buffer(|b: u16| b + 1);
    assert_eq!(err.buffer, 8u16);
    assert!(matches!(err.reason, BufferErrorReason::UnexpectedBytes { len: 3 }));
}

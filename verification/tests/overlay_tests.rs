use binbuf::buffer::{BufferErrorReason, FiniteBuffer, SplittableBuffer};
use binbuf::bytes::{Bytes, BytesMut};
use binbuf::decode::DecoderBuffer;
use binbuf::zerocopy::{Deref, Mut, Ref};

#[test]
fn decode_unaligned_ref_test() {
    let buffer = &[0, 1, 2, 3][..];
    let (value, _buffer) = Ref::<[u8; 2], _>::decode_type(buffer).unwrap();
    assert_eq!(value, [0, 1]);
}

#[test]
fn decode_unaligned_mut_test() {
    let buffer = BytesMut::from_vec(vec![0, 1, 2, 3]);
    let (value, _buffer) = Mut::<[u8; 2], _>::decode_type(buffer).unwrap();
    assert_eq!(value, [0, 1]);
}

#[test]
fn decode_unaligned_deref_test() {
    let buffer = &[0, 1, 2, 3][..];
    let (value, _buffer) = buffer.decode_with(Deref).unwrap();
    let value: [u8; 2] = value;
    assert_eq!(value, [0, 1]);
}

#[test]
fn overlay_ref_bytes_and_rest_test() {
    let buffer = &[0, 1, 2, 3][..];
    let (value, rest) = Ref::<[u8; 2], _>::decode_type(buffer).unwrap();
    assert_eq!(value.as_bytes(), &[0, 1][..]);
    assert_eq!(*value.get(), [0, 1]);
    assert_eq!(rest, &[2u8, 3][..]);
}

#[test]
fn overlay_eof_test() {
    let buffer = &[9][..];
    let err = Ref::<[u8; 2], _>::decode_type(buffer).unwrap_err();
    assert!(matches!(
        err.reason,
        BufferErrorReason::UnexpectedEof { actual: 1, expected: 2 }
    ));
    assert_eq!(err.buffer, &[9u8][..]);
}

#[test]
fn decode_aligned_test() {
    // position 0 is a multiple of 4: the aligned 4-byte overlay succeeds
    let buffer = Bytes::from_vec(vec![4, 3, 2, 1, 9]);
    let (value, rest) = Ref::<u32, Bytes>::decode_aligned(buffer).unwrap();
    assert_eq!(value, 0x01020304u32);
    assert_eq!(rest.len(), 1);
}

#[test]
fn decode_misaligned_test() {
    // splitting one byte off moves the position to 1, which is not a
    // multiple of 4: the aligned overlay is refused with nothing consumed
    let buffer = Bytes::from_vec(vec![9, 4, 3, 2, 1]);
    let (_, buffer) = buffer.checked_split(1).unwrap();
    let err = Ref::<u32, Bytes>::decode_aligned(buffer).unwrap_err();
    assert!(matches!(
        err.reason,
        BufferErrorReason::UnexpectedAlignment { misalignment: 1, requirement: 4 }
    ));
    assert_eq!(err.buffer.len(), 4);
}

#[test]
fn decode_aligned_mut_test() {
    let buffer = BytesMut::from_vec(vec![4, 3, 2, 1]);
    let (value, _rest) = Mut::<u32, BytesMut>::decode_aligned(buffer).unwrap();
    assert_eq!(value, 0x01020304u32);
}

#[test]
fn overlay_set_writes_through_test() {
    let buffer = BytesMut::from_vec(vec![0, 1, 2, 3]);
    let (value, _rest) = Mut::<[u8; 2], _>::decode_type(buffer).unwrap();
    let value = value.set([9, 8]);
    assert_eq!(value, [9, 8]);
    assert_eq!(value.as_bytes(), &[9, 8][..]);
}

#[test]
fn overlay_encodes_its_bytes_test() {
    let buffer = &[0, 1, 2, 3][..];
    let (value, _) = Ref::<[u8; 2], _>::decode_type(buffer).unwrap();
    let out = BytesMut::with_capacity(2);
    let (n, out) = binbuf::encode::EncoderBufferExt::encode(out, value).unwrap();
    assert_eq!(n, 2);
    assert_eq!(out.as_less_safe_slice(), &[0, 1][..]);
}

#[test]
fn ensure_alignment_test() {
    let buffer = Bytes::from_vec(vec![1, 2, 3, 4, 5]);
    let ((), buffer) = buffer.ensure_alignment::<u32>().unwrap();
    let (_, rest) = buffer.checked_split(1).unwrap();
    let err = rest.ensure_alignment::<u32>().unwrap_err();
    assert!(matches!(
        err.reason,
        BufferErrorReason::UnexpectedAlignment { misalignment: 1, requirement: 4 }
    ));
    assert_eq!(err.buffer.len(), 4);
}

#[test]
fn overlay_mut_encodes_its_bytes_test() {
    let buffer = BytesMut::from_vec(vec![3, 4, 9]);
    let (value, _) = Mut::<[u8; 2], _>::decode_type(buffer).unwrap();
    let out = BytesMut::with_capacity(2);
    let (n, out) = binbuf::encode::EncoderBufferExt::encode(out, value).unwrap();
    assert_eq!(n, 2);
    assert_eq!(out.as_less_safe_slice(), &[3, 4][..]);
}

#[test]
fn overlay_u16_deref_test() {
    // the plain-value overlay strategy reads the in-memory (little-endian)
    // representation
    let buffer = &[1, 2][..];
    let (value, _) = buffer.decode_with(Deref).unwrap();
    let value: u16 = value;
    assert_eq!(value, 0x0201);
}

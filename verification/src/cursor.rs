//! Cursor-based encoding.
//!
//! A cursor pairs the bytes that were just encoded with the logical type
//! that produced them, so a caller can hold on to "what was just written"
//! without re-reading the destination.

use vstd::prelude::*;

use crate::buffer::{BufResult, BufferError, FiniteBuffer, SplittableBuffer};
use crate::bytes::{bytes_mut_written_is_sbytes, Bytes, BytesMut};
use crate::encode::{enc_appended, enc_rolled_back, Encoder, EncoderBuffer, TypeEncoder};
use core::marker::PhantomData;

verus! {

/// A typed handle to an encoded byte range.
pub struct EncoderCursor<T, B> {
    value: PhantomData<T>,
    buffer: B,
}

impl<T, B> EncoderCursor<T, B> {
    /// The encoded bytes the cursor points at.
    pub closed spec fn sbuffer(&self) -> B {
        self.buffer
    }

    /// Wraps the buffer holding the encoded bytes.
    pub fn new(buffer: B) -> (r: Self)
        ensures
            r.sbuffer() == buffer,
    {
        Self { value: PhantomData, buffer }
    }

    /// Hands the encoded bytes back.
    pub fn into_buffer(self) -> (r: B)
        ensures
            r == self.sbuffer(),
    {
        self.buffer
    }
}

/// Encoding that returns a cursor over what was just written.
pub trait EncodeWithCursor: EncoderBuffer {
    /// Encodes a value and returns a cursor holding exactly the bytes it
    /// produced, alongside the reduced-capacity remainder.
    fn cursor_encode<T: TypeEncoder<Self>>(self, value: &T) -> (r: BufResult<
        EncoderCursor<T, Bytes>,
        Self,
    >)
        ensures
            value.enc_ok(self.capacity()) ==> (match r {
                Ok((cursor, rest)) => {
                    &&& cursor.sbuffer().sbytes() == value.encoding()
                    &&& enc_appended(self, rest, value.encoding())
                },
                Err(_) => false,
            }),
            !value.enc_ok(self.capacity()) ==> (match r {
                Ok(_) => false,
                Err(e) => {
                    &&& enc_rolled_back(self, e.buffer)
                    &&& e.reason == value.enc_reason(self.capacity())
                },
            }),
    ;

    /// Encodes a value with an explicit strategy and returns a cursor
    /// holding exactly the bytes it produced.
    fn cursor_encode_with<T, E: Encoder<T, Self>>(self, value: &T, encoder: E) -> (r: BufResult<
        EncoderCursor<T, Bytes>,
        Self,
    >)
        ensures
            encoder.senc_ok(value, self.capacity()) ==> (match r {
                Ok((cursor, rest)) => {
                    &&& cursor.sbuffer().sbytes() == encoder.senc(value)
                    &&& enc_appended(self, rest, encoder.senc(value))
                },
                Err(_) => false,
            }),
            !encoder.senc_ok(value, self.capacity()) ==> (match r {
                Ok(_) => false,
                Err(e) => {
                    &&& enc_rolled_back(self, e.buffer)
                    &&& e.reason == encoder.senc_reason(value, self.capacity())
                },
            }),
    ;

    /// Writes raw bytes and returns a cursor holding them.
    fn cursor_encode_bytes<'a>(self, bytes: &'a [u8]) -> (r: BufResult<
        EncoderCursor<&'a [u8], Bytes>,
        Self,
    >)
        ensures
            bytes@.len() <= self.capacity() ==> (match r {
                Ok((cursor, rest)) => {
                    &&& cursor.sbuffer().sbytes() == bytes@
                    &&& enc_appended(self, rest, bytes@)
                },
                Err(_) => false,
            }),
            bytes@.len() > self.capacity() ==> (match r {
                Ok(_) => false,
                Err(e) => {
                    &&& enc_rolled_back(self, e.buffer)
                    &&& e.reason == (crate::buffer::BufferErrorReason::UnexpectedEof {
                        actual: self.capacity() as usize,
                        expected: bytes@.len() as usize,
                    })
                },
            }),
    ;
}

impl EncodeWithCursor for BytesMut {
    fn cursor_encode<T: TypeEncoder<Self>>(self, value: &T) -> (r: BufResult<
        EncoderCursor<T, Bytes>,
        Self,
    >) {
        proof {
            bytes_mut_written_is_sbytes(&self);
        }
        let before = self.len();
        match value.encode_type(self) {
            Ok(((), rest)) => {
                proof {
                    bytes_mut_written_is_sbytes(&rest);
                }
                let view = rest.as_less_safe_slice();
                let tail = vstd::slice::slice_subrange(view, before, view.len());
                proof {
                    assert(tail@ =~= value.encoding());
                }
                let cursor = EncoderCursor::new(Bytes::from_vec(vstd::slice::slice_to_vec(tail)));
                Ok((cursor, rest))
            },
            Err(e) => Err(e),
        }
    }

    fn cursor_encode_with<T, E: Encoder<T, Self>>(self, value: &T, encoder: E) -> (r: BufResult<
        EncoderCursor<T, Bytes>,
        Self,
    >) {
        proof {
            bytes_mut_written_is_sbytes(&self);
        }
        let before = self.len();
        match encoder.encode_into(value, self) {
            Ok(((), rest)) => {
                proof {
                    bytes_mut_written_is_sbytes(&rest);
                }
                let view = rest.as_less_safe_slice();
                let tail = vstd::slice::slice_subrange(view, before, view.len());
                proof {
                    assert(tail@ =~= encoder.senc(value));
                }
                let cursor = EncoderCursor::new(Bytes::from_vec(vstd::slice::slice_to_vec(tail)));
                Ok((cursor, rest))
            },
            Err(e) => Err(e),
        }
    }

    fn cursor_encode_bytes<'a>(self, bytes: &'a [u8]) -> (r: BufResult<
        EncoderCursor<&'a [u8], Bytes>,
        Self,
    >) {
        match self.encode_bytes(bytes) {
            Ok((_, rest)) => {
                let cursor = EncoderCursor::new(
                    Bytes::from_vec(vstd::slice::slice_to_vec(bytes)),
                );
                Ok((cursor, rest))
            },
            Err(e) => Err(e),
        }
    }
}

} // verus!

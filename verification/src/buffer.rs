//! The shared error model for buffer operations.
//!
//! Every fallible buffer operation has the shape
//! `(buffer) -> Result<(value, remainder), BufferError<buffer>>`: on success
//! the caller receives the decoded value together with the rest of the
//! buffer, and on failure the error hands the buffer back in a well-defined,
//! reusable state.

use vstd::prelude::*;

use crate::decode::{Decoder, DecoderSpec, TypeDecoder};

verus! {

/// The closed set of reasons a buffer operation can fail.
#[derive(Clone, Copy, Debug, PartialEq, Eq)]
pub enum BufferErrorReason {
    /// Fewer bytes (or less capacity) remained than the operation needed.
    UnexpectedEof { actual: usize, expected: usize },
    /// Bytes remained where none were expected.
    UnexpectedBytes { len: usize },
    /// The buffer's position does not satisfy a type's alignment requirement.
    UnexpectedAlignment { misalignment: usize, requirement: usize },
    /// A caller-supplied semantic rejection of an otherwise readable value.
    InvalidValue { message: &'static str },
}

/// A failure bundled with the buffer that was being operated on.
///
/// The embedded buffer always reflects a well-defined rollback point, never
/// a partially-invalidated handle.
#[derive(Clone, Copy, Debug)]
pub struct BufferError<B> {
    pub buffer: B,
    pub reason: BufferErrorReason,
}

impl<B> BufferError<B> {
    /// Replaces the embedded buffer, keeping the reason.
    pub fn with_buffer<NewB>(self, buffer: NewB) -> (r: BufferError<NewB>)
        ensures
            r.reason == self.reason,
            r.buffer == buffer,
    {
        BufferError { buffer, reason: self.reason }
    }

    /// Transforms the embedded buffer, keeping the reason.
    pub fn map_buffer<NewB, F: FnOnce(B) -> NewB>(self, map: F) -> (r: BufferError<NewB>)
        requires
            call_requires(map, (self.buffer,)),
        ensures
            r.reason == self.reason,
            call_ensures(map, (self.buffer,), r.buffer),
    {
        BufferError { buffer: map(self.buffer), reason: self.reason }
    }
}

/// The result of a buffer operation: a value plus the remainder buffer, or
/// an error carrying the original buffer.
pub type BufResult<T, B> = Result<(T, B), BufferError<B>>;

/// Split coverage: the two halves of a split together cover the original
/// bytes exactly once, with no overlap and no gap.
pub proof fn lemma_split_covers(bytes: Seq<u8>, len: int)
    requires
        0 <= len <= bytes.len(),
    ensures
        bytes.take(len) + bytes.skip(len) == bytes,
{
    assert(bytes.take(len) + bytes.skip(len) =~= bytes);
}

/// A buffer that can be partitioned into a head of a requested length and a
/// remainder, both independently owned.
///
/// `sbytes` is the abstract contents of the buffer. A buffer is
/// `materialized` when those bytes are actually stored somewhere; the
/// length-only estimator is the one backend that is not, and byte-level
/// access to it is ruled out by precondition rather than by a recoverable
/// error.
pub trait SplittableBuffer: Sized {
    /// The bytes this buffer stands for.
    spec fn sbytes(&self) -> Seq<u8>;

    /// Whether the bytes are really stored and may be read.
    spec fn materialized(&self) -> bool;

    /// Splits off exactly `len` bytes.
    ///
    /// Succeeds if and only if `len` bytes remain; on failure the buffer
    /// comes back unchanged inside the error.
    fn checked_split(self, len: usize) -> (r: BufResult<Self, Self>)
        ensures
            len <= self.sbytes().len() ==> (match r {
                Ok((slice, rest)) => {
                    &&& slice.sbytes() == self.sbytes().take(len as int)
                    &&& rest.sbytes() == self.sbytes().skip(len as int)
                    &&& slice.materialized() == self.materialized()
                    &&& rest.materialized() == self.materialized()
                },
                Err(_) => false,
            }),
            len > self.sbytes().len() ==> (match r {
                Ok(_) => false,
                Err(e) => {
                    &&& e.buffer == self
                    &&& e.reason == (BufferErrorReason::UnexpectedEof {
                        actual: self.sbytes().len() as usize,
                        expected: len,
                    })
                },
            }),
    ;
}

/// A buffer that knows its exact remaining length and whose bytes can be
/// borrowed as a slice.
pub trait FiniteBuffer: SplittableBuffer {
    /// Borrows the remaining bytes.
    ///
    /// The name records that the slice bypasses the move-based discipline:
    /// it is a read-only view, not a consumed buffer.
    fn as_less_safe_slice(&self) -> (r: &[u8])
        requires
            self.materialized(),
        ensures
            r@ == self.sbytes(),
    ;

    /// The exact number of bytes remaining.
    fn len(&self) -> (n: usize)
        ensures
            n == self.sbytes().len(),
    ;

    /// Whether any bytes remain.
    fn is_empty(&self) -> (b: bool)
        ensures
            b == (self.sbytes().len() == 0),
    {
        self.len() == 0
    }

    /// A cheap read-only view of the current bytes, itself a decodable
    /// buffer, used for speculative decoding that never shrinks `self`.
    fn lookahead<'a>(&'a self) -> (r: &'a [u8])
        requires
            self.materialized(),
        ensures
            r@ == self.sbytes(),
    {
        self.as_less_safe_slice()
    }

    /// Splits off everything that remains.
    fn consume(self) -> (r: (Self, Self))
        ensures
            r.0.sbytes() == self.sbytes(),
            r.1.sbytes() == Seq::<u8>::empty(),
            r.0.materialized() == self.materialized(),
            r.1.materialized() == self.materialized(),
    {
        let n = self.len();
        proof {
            assert(self.sbytes().take(self.sbytes().len() as int) =~= self.sbytes());
            assert(self.sbytes().skip(self.sbytes().len() as int) =~= Seq::<u8>::empty());
        }
        match self.checked_split(n) {
            Ok(pair) => pair,
            Err(_) => vstd::pervasive::unreached(),
        }
    }

    /// Decodes a `T` speculatively from a lookahead view, leaving `self`
    /// untouched.
    fn peek<'a, T: TypeDecoder<&'a [u8]>>(&'a self) -> (r: BufResult<T, &'a [u8]>)
        requires
            self.materialized(),
        ensures
            match T::sdecoded(self.sbytes()) {
                Some((v, n)) => (match r {
                    Ok((value, rest)) => value == v && rest@ == self.sbytes().skip(n as int),
                    Err(_) => false,
                }),
                None => (match r {
                    Ok(_) => false,
                    Err(e) => e.reason == T::sdec_reason(self.sbytes()),
                }),
            },
    {
        T::decode_type(self.lookahead())
    }

    /// Decodes speculatively with an explicit strategy, leaving `self`
    /// untouched.
    fn peek_with<'a, T, D: Decoder<T, &'a [u8]>>(&'a self, decoder: D) -> (r: BufResult<
        T,
        &'a [u8],
    >)
        requires
            self.materialized(),
        ensures
            match decoder.sdecode(self.sbytes()) {
                Some((v, n)) => (match r {
                    Ok((value, rest)) => value == v && rest@ == self.sbytes().skip(n as int),
                    Err(_) => false,
                }),
                None => (match r {
                    Ok(_) => false,
                    Err(e) => e.reason == decoder.sdecode_reason(self.sbytes()),
                }),
            },
    {
        decoder.decode_from(self.lookahead())
    }

    /// Decodes a `T` and then requires that the buffer was fully consumed,
    /// so that no trailing bytes go unnoticed.
    fn consumed_decode<T: TypeDecoder<Self>>(self) -> (r: BufResult<T, Self>)
        requires
            self.materialized(),
        ensures
            match T::sdecoded(self.sbytes()) {
                Some((v, n)) => {
                    if n == self.sbytes().len() {
                        match r {
                            Ok((value, rest)) => {
                                &&& value == v
                                &&& rest.sbytes() == Seq::<u8>::empty()
                                &&& rest.materialized()
                            },
                            Err(_) => false,
                        }
                    } else {
                        match r {
                            Ok(_) => false,
                            Err(e) => {
                                &&& e.reason == (BufferErrorReason::UnexpectedBytes {
                                    len: (self.sbytes().len() - n) as usize,
                                })
                                &&& e.buffer.sbytes() == self.sbytes().skip(n as int)
                                &&& e.buffer.materialized()
                            },
                        }
                    }
                },
                None => (match r {
                    Ok(_) => false,
                    Err(e) => {
                        &&& e.reason == T::sdec_reason(self.sbytes())
                        &&& e.buffer.sbytes() == self.sbytes().skip(
                            T::sdec_keep(self.sbytes()) as int,
                        )
                        &&& e.buffer.materialized()
                    },
                }),
            },
    {
        proof {
            T::sdec_props(self.sbytes());
        }
        let (value, buffer) = T::decode_type(self)?;
        let ((), buffer) = buffer.ensure_empty()?;
        Ok((value, buffer))
    }

    /// Checks that at least `expected` bytes remain.
    fn ensure_len(self, expected: usize) -> (r: BufResult<usize, Self>)
        ensures
            expected <= self.sbytes().len() ==> r == Ok::<_, BufferError<Self>>((
                self.sbytes().len() as usize,
                self,
            )),
            expected > self.sbytes().len() ==> r == Err::<(usize, Self), _>(BufferError {
                reason: BufferErrorReason::UnexpectedEof {
                    actual: self.sbytes().len() as usize,
                    expected,
                },
                buffer: self,
            }),
    {
        let actual = self.len();
        if actual >= expected {
            Ok((actual, self))
        } else {
            Err(BufferError {
                reason: BufferErrorReason::UnexpectedEof { actual, expected },
                buffer: self,
            })
        }
    }

    /// Checks that no bytes remain.
    fn ensure_empty(self) -> (r: BufResult<(), Self>)
        ensures
            self.sbytes().len() == 0 ==> r == Ok::<_, BufferError<Self>>(((), self)),
            self.sbytes().len() > 0 ==> r == Err::<((), Self), _>(BufferError {
                reason: BufferErrorReason::UnexpectedBytes { len: self.sbytes().len() as usize },
                buffer: self,
            }),
    {
        if self.is_empty() {
            Ok(((), self))
        } else {
            let len = self.len();
            Err(BufferError { reason: BufferErrorReason::UnexpectedBytes { len }, buffer: self })
        }
    }
}

/// A finite buffer whose contents can be overwritten in place.
pub trait FiniteMutBuffer: FiniteBuffer {
    /// Replaces the remaining bytes with `bytes`, which must have exactly
    /// the same length.
    fn overwrite(self, bytes: &[u8]) -> (r: Self)
        requires
            bytes@.len() == self.sbytes().len(),
        ensures
            r.materialized() == self.materialized(),
            r.sbytes().len() == self.sbytes().len(),
            self.materialized() ==> r.sbytes() == bytes@,
    ;
}

/// A splittable buffer whose split-off heads are writable, and which can be
/// frozen into an immutable counterpart.
pub trait SplittableMutBuffer: SplittableBuffer + FiniteMutBuffer {
    /// The immutable buffer this one freezes into.
    type FrozenSlice: FiniteBuffer;

    /// Writes `bytes` at the front, returning the written head and the
    /// remainder.
    fn encode_slice(self, bytes: &[u8]) -> (r: BufResult<Self, Self>)
        ensures
            bytes@.len() <= self.sbytes().len() ==> (match r {
                Ok((head, rest)) => {
                    &&& head.sbytes().len() == bytes@.len()
                    &&& (self.materialized() ==> head.sbytes() == bytes@)
                    &&& rest.sbytes() == self.sbytes().skip(bytes@.len() as int)
                    &&& head.materialized() == self.materialized()
                    &&& rest.materialized() == self.materialized()
                },
                Err(_) => false,
            }),
            bytes@.len() > self.sbytes().len() ==> (match r {
                Ok(_) => false,
                Err(e) => {
                    &&& e.buffer == self
                    &&& e.reason == (BufferErrorReason::UnexpectedEof {
                        actual: self.sbytes().len() as usize,
                        expected: bytes@.len() as usize,
                    })
                },
            }),
    {
        match self.checked_split(bytes.len()) {
            Ok((target, rest)) => {
                let target = target.overwrite(bytes);
                Ok((target, rest))
            },
            Err(e) => Err(e),
        }
    }

    /// Freezes this buffer into its immutable counterpart.
    fn freeze(self) -> (r: Self::FrozenSlice)
        ensures
            r.sbytes() == self.sbytes(),
            r.materialized() == self.materialized(),
    ;
}

/// A finite buffer that is itself a borrow and can be converted, by value,
/// into a byte slice tied to the external lifetime.
pub trait BorrowedBuffer<'a>: FiniteBuffer {
    /// Recovers the underlying borrowed slice.
    fn into_less_safe_slice(self) -> (r: &'a [u8])
        requires
            self.materialized(),
        ensures
            r@ == self.sbytes(),
    ;
}

} // verus!

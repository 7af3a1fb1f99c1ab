//! Dry-run encoding: a buffer that stores nothing.
//!
//! [`LenEstimator`] implements the full encoder-buffer contract over a
//! start/end byte-count window, so a value's encode logic can run once
//! against it to learn how many bytes a real encode would consume. Byte
//! access is a programming error, ruled out by precondition, never a
//! recoverable failure.

use vstd::prelude::*;

use crate::buffer::{
    BufResult, BufferError, BufferErrorReason, FiniteBuffer, FiniteMutBuffer, SplittableBuffer,
    SplittableMutBuffer,
};
use crate::encode::{EncoderBuffer, TypeEncoder};

verus! {

/// The outcome of a length estimate: the byte count an encode would
/// consume, or the reason it would fail.
pub type LenResult = Result<usize, BufferErrorReason>;

/// A non-materialized encoder buffer holding only a byte-count window.
///
/// Writing advances the start of the window; no bytes exist anywhere.
#[derive(Clone, Copy, Debug, PartialEq, Eq, Structural, Hash)]
pub struct LenEstimator {
    start: usize,
    end: usize,
}

#[verifier::type_invariant]
spec fn len_estimator_inv(e: LenEstimator) -> bool {
    e.start <= e.end
}

impl LenEstimator {
    /// A fresh estimation window of `capacity` bytes.
    pub fn with_capacity(capacity: usize) -> (r: LenEstimator)
        ensures
            r.capacity() == capacity,
            !r.wmat(),
            !r.materialized(),
            r.written().len() == 0,
            r.sbytes().len() == capacity,
    {
        LenEstimator { start: 0, end: capacity }
    }

    /// Runs `value`'s encode logic against a window of `capacity` bytes and
    /// reports how many bytes it would consume, or why it would fail.
    pub fn encoding_len<T: TypeEncoder<LenEstimator>>(value: &T, capacity: usize) -> (r: LenResult)
        ensures
            value.enc_ok(capacity as nat) ==> r == Ok::<_, BufferErrorReason>(
                value.encoding().len() as usize,
            ),
            !value.enc_ok(capacity as nat) ==> r == Err::<usize, _>(
                value.enc_reason(capacity as nat),
            ),
    {
        let estimator = LenEstimator::with_capacity(capacity);
        proof {
            value.enc_props(capacity as nat);
        }
        match value.encode_type(estimator) {
            Ok(((), rest)) => Ok(capacity - rest.encoder_capacity()),
            Err(e) => Err(e.reason),
        }
    }

    /// The remaining window length.
    pub fn len(&self) -> (n: usize)
        ensures
            n == self.capacity(),
    {
        proof {
            use_type_invariant(&self);
        }
        self.end - self.start
    }

    /// Whether the window is exhausted.
    pub fn is_empty(&self) -> (b: bool)
        ensures
            b == (self.capacity() == 0),
    {
        self.len() == 0
    }
}

impl EncoderBuffer for LenEstimator {
    closed spec fn written(&self) -> Seq<u8> {
        Seq::new(self.start as nat, |i: int| 0u8)
    }

    closed spec fn capacity(&self) -> nat {
        (self.end - self.start) as nat
    }

    closed spec fn wmat(&self) -> bool {
        false
    }

    fn encoder_capacity(&self) -> (n: usize) {
        self.len()
    }

    fn encode_bytes(self, bytes: &[u8]) -> (r: BufResult<usize, Self>) {
        proof {
            use_type_invariant(&self);
        }
        let len = bytes.len();
        if len <= self.end - self.start {
            Ok((len, LenEstimator { start: self.start + len, end: self.end }))
        } else {
            let actual = self.end - self.start;
            Err(BufferError {
                reason: BufferErrorReason::UnexpectedEof { actual, expected: len },
                buffer: self,
            })
        }
    }

    fn rollback(self, n: usize) -> (r: Self) {
        proof {
            use_type_invariant(&self);
            assert(Seq::new((self.start - n) as nat, |i: int| 0u8) =~= Seq::new(
                self.start as nat,
                |i: int| 0u8,
            ).take(self.start - n));
        }
        LenEstimator { start: self.start - n, end: self.end }
    }
}

impl SplittableBuffer for LenEstimator {
    closed spec fn sbytes(&self) -> Seq<u8> {
        Seq::new((self.end - self.start) as nat, |i: int| 0u8)
    }

    closed spec fn materialized(&self) -> bool {
        false
    }

    fn checked_split(self, len: usize) -> (r: BufResult<Self, Self>) {
        proof {
            use_type_invariant(&self);
        }
        if len <= self.end - self.start {
            let slice = LenEstimator { start: self.start, end: self.start + len };
            let rest = LenEstimator { start: self.start + len, end: self.end };
            proof {
                assert(slice.sbytes() =~= self.sbytes().take(len as int));
                assert(rest.sbytes() =~= self.sbytes().skip(len as int));
            }
            Ok((slice, rest))
        } else {
            let actual = self.end - self.start;
            Err(BufferError {
                reason: BufferErrorReason::UnexpectedEof { actual, expected: len },
                buffer: self,
            })
        }
    }
}

impl FiniteBuffer for LenEstimator {
    fn as_less_safe_slice(&self) -> (r: &[u8]) {
        vstd::pervasive::unreached()
    }

    fn len(&self) -> (n: usize) {
        LenEstimator::len(self)
    }
}

impl FiniteMutBuffer for LenEstimator {
    fn overwrite(self, bytes: &[u8]) -> (r: Self) {
        self
    }
}

impl SplittableMutBuffer for LenEstimator {
    type FrozenSlice = LenEstimator;

    fn freeze(self) -> (r: Self::FrozenSlice) {
        self
    }
}

} // verus!

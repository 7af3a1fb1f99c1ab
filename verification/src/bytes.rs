//! Owned byte-buffer backends.
//!
//! [`BytesMut`] is a growable owned buffer with a fixed capacity budget: it
//! serves as an encoder destination (bytes are appended at the back) and as
//! a decodable buffer (bytes are split off the front). [`Bytes`] is its
//! frozen, immutable counterpart.
//!
//! Both track the offset of their first byte from the origin of the region
//! they were split from; the zero-copy overlays use that offset as the
//! address for alignment checks.

use vstd::prelude::*;

use crate::buffer::{
    BufResult, BufferError, BufferErrorReason, FiniteBuffer, FiniteMutBuffer, SplittableBuffer,
    SplittableMutBuffer,
};
use crate::encode::EncoderBuffer;

verus! {

/// An immutable owned byte buffer.
#[derive(Debug)]
pub struct Bytes {
    data: Vec<u8>,
    base: usize,
}

#[verifier::type_invariant]
spec fn bytes_inv(b: Bytes) -> bool {
    b.base + b.data@.len() <= usize::MAX
}

/// A growable owned byte buffer with a fixed capacity budget.
#[derive(Debug)]
pub struct BytesMut {
    data: Vec<u8>,
    cap: usize,
    base: usize,
}

#[verifier::type_invariant]
spec fn bytes_mut_inv(b: BytesMut) -> bool {
    b.data@.len() <= b.cap && b.base + b.cap <= usize::MAX
}

impl Bytes {
    /// Wraps an owned byte vector.
    pub fn from_vec(data: Vec<u8>) -> (r: Bytes)
        ensures
            r.sbytes() == data@,
            r.pos() == 0,
    {
        let _len = data.len();
        Bytes { data, base: 0 }
    }

    /// The offset of this buffer's first byte from the origin of the region
    /// it was split from.
    pub fn position(&self) -> (n: usize)
        ensures
            n == self.pos(),
    {
        self.base
    }

    /// The offset of this buffer's first byte from the origin of the region
    /// it was split from.
    pub closed spec fn pos(&self) -> nat {
        self.base as nat
    }
}

impl BytesMut {
    /// An empty buffer that will accept up to `capacity` bytes.
    pub fn with_capacity(capacity: usize) -> (r: BytesMut)
        ensures
            r.written() == Seq::<u8>::empty(),
            r.capacity() == capacity,
            r.wmat(),
            r.sbytes() == Seq::<u8>::empty(),
            r.pos() == 0,
    {
        BytesMut { data: Vec::new(), cap: capacity, base: 0 }
    }

    /// Wraps an owned byte vector; the buffer is at full capacity.
    pub fn from_vec(data: Vec<u8>) -> (r: BytesMut)
        ensures
            r.sbytes() == data@,
            r.written() == data@,
            r.capacity() == 0,
            r.wmat(),
            r.pos() == 0,
    {
        let cap = data.len();
        BytesMut { data, cap, base: 0 }
    }

    /// The offset of this buffer's first byte from the origin of the region
    /// it was split from.
    pub fn position(&self) -> (n: usize)
        ensures
            n == self.pos(),
    {
        self.base
    }

    /// The offset of this buffer's first byte from the origin of the region
    /// it was split from.
    pub closed spec fn pos(&self) -> nat {
        self.base as nat
    }
}

/// An immutable owned buffer always holds real bytes.
pub proof fn bytes_is_materialized(b: &Bytes)
    ensures
        b.materialized(),
{
}

/// For the owned growable buffer, the bytes it holds for decoding and the
/// bytes written through it are one and the same.
pub proof fn bytes_mut_written_is_sbytes(b: &BytesMut)
    ensures
        b.written() == b.sbytes(),
        b.wmat(),
        b.materialized(),
{
}

impl SplittableBuffer for Bytes {
    closed spec fn sbytes(&self) -> Seq<u8> {
        self.data@
    }

    closed spec fn materialized(&self) -> bool {
        true
    }

    fn checked_split(self, len: usize) -> (r: BufResult<Self, Self>)
        ensures
            len <= self.sbytes().len() ==> (match r {
                Ok((slice, rest)) => slice.pos() == self.pos() && rest.pos() == self.pos() + len,
                Err(_) => false,
            }),
            len > self.sbytes().len() ==> (match r {
                Ok(_) => false,
                Err(e) => e.buffer.pos() == self.pos(),
            }),
    {
        proof {
            use_type_invariant(&self);
        }
        if len <= self.data.len() {
            let Bytes { mut data, base } = self;
            let tail = data.split_off(len);
            proof {
                assert(data@ =~= self.data@.take(len as int));
                assert(tail@ =~= self.data@.skip(len as int));
            }
            Ok((Bytes { data, base }, Bytes { data: tail, base: base + len }))
        } else {
            let actual = self.data.len();
            Err(BufferError {
                reason: BufferErrorReason::UnexpectedEof { actual, expected: len },
                buffer: self,
            })
        }
    }
}

impl FiniteBuffer for Bytes {
    fn as_less_safe_slice(&self) -> (r: &[u8]) {
        self.data.as_slice()
    }

    fn len(&self) -> (n: usize) {
        self.data.len()
    }
}

impl SplittableBuffer for BytesMut {
    closed spec fn sbytes(&self) -> Seq<u8> {
        self.data@
    }

    closed spec fn materialized(&self) -> bool {
        true
    }

    fn checked_split(self, len: usize) -> (r: BufResult<Self, Self>)
        ensures
            len <= self.sbytes().len() ==> (match r {
                Ok((slice, rest)) => slice.pos() == self.pos() && rest.pos() == self.pos() + len,
                Err(_) => false,
            }),
            len > self.sbytes().len() ==> (match r {
                Ok(_) => false,
                Err(e) => e.buffer.pos() == self.pos(),
            }),
    {
        proof {
            use_type_invariant(&self);
        }
        if len <= self.data.len() {
            let BytesMut { mut data, cap, base } = self;
            let tail = data.split_off(len);
            proof {
                assert(data@ =~= self.data@.take(len as int));
                assert(tail@ =~= self.data@.skip(len as int));
            }
            let head = BytesMut { data, cap: len, base };
            let rest = BytesMut { data: tail, cap: cap - len, base: base + len };
            Ok((head, rest))
        } else {
            let actual = self.data.len();
            Err(BufferError {
                reason: BufferErrorReason::UnexpectedEof { actual, expected: len },
                buffer: self,
            })
        }
    }
}

impl FiniteBuffer for BytesMut {
    fn as_less_safe_slice(&self) -> (r: &[u8]) {
        self.data.as_slice()
    }

    fn len(&self) -> (n: usize) {
        self.data.len()
    }
}

impl FiniteMutBuffer for BytesMut {
    fn overwrite(self, bytes: &[u8]) -> (r: Self)
        ensures
            r.pos() == self.pos(),
    {
        proof {
            use_type_invariant(&self);
        }
        let data = vstd::slice::slice_to_vec(bytes);
        BytesMut { data, cap: self.cap, base: self.base }
    }
}

impl SplittableMutBuffer for BytesMut {
    type FrozenSlice = Bytes;

    fn freeze(self) -> (r: Bytes)
        ensures
            r.pos() == self.pos(),
    {
        proof {
            use_type_invariant(&self);
        }
        Bytes { data: self.data, base: self.base }
    }
}

impl EncoderBuffer for BytesMut {
    closed spec fn written(&self) -> Seq<u8> {
        self.data@
    }

    closed spec fn capacity(&self) -> nat {
        (self.cap - self.data@.len()) as nat
    }

    closed spec fn wmat(&self) -> bool {
        true
    }

    fn encoder_capacity(&self) -> (n: usize) {
        proof {
            use_type_invariant(&self);
        }
        self.cap - self.data.len()
    }

    fn encode_bytes(self, bytes: &[u8]) -> (r: BufResult<usize, Self>) {
        proof {
            use_type_invariant(&self);
        }
        let len = bytes.len();
        if len <= self.cap - self.data.len() {
            let BytesMut { mut data, cap, base } = self;
            data.extend_from_slice(bytes);
            Ok((len, BytesMut { data, cap, base }))
        } else {
            let actual = self.cap - self.data.len();
            Err(BufferError {
                reason: BufferErrorReason::UnexpectedEof { actual, expected: len },
                buffer: self,
            })
        }
    }

    fn rollback(self, n: usize) -> (r: Self) {
        proof {
            use_type_invariant(&self);
        }
        let BytesMut { mut data, cap, base } = self;
        let keep = data.len() - n;
        data.truncate(keep);
        BytesMut { data, cap, base }
    }
}

} // verus!

//! Borrowed byte slices as buffers.
//!
//! A `&[u8]` is the simplest materialized backend: splitting produces two
//! subslices of the same borrow, and nothing is ever copied.

use vstd::prelude::*;

use crate::buffer::{
    BorrowedBuffer, BufResult, BufferError, BufferErrorReason, FiniteBuffer, SplittableBuffer,
};

verus! {

impl<'a> SplittableBuffer for &'a [u8] {
    open spec fn sbytes(&self) -> Seq<u8> {
        self@
    }

    open spec fn materialized(&self) -> bool {
        true
    }

    fn checked_split(self, len: usize) -> (r: BufResult<Self, Self>) {
        if len <= self.len() {
            let head = vstd::slice::slice_subrange(self, 0, len);
            let rest = vstd::slice::slice_subrange(self, len, self.len());
            proof {
                assert(head@ =~= self@.take(len as int));
                assert(rest@ =~= self@.skip(len as int));
            }
            Ok((head, rest))
        } else {
            Err(BufferError {
                reason: BufferErrorReason::UnexpectedEof { actual: self.len(), expected: len },
                buffer: self,
            })
        }
    }
}

impl<'a> FiniteBuffer for &'a [u8] {
    fn as_less_safe_slice(&self) -> (r: &[u8]) {
        self
    }

    fn len(&self) -> (n: usize) {
        <[u8]>::len(self)
    }
}

impl<'a> BorrowedBuffer<'a> for &'a [u8] {
    fn into_less_safe_slice(self) -> (r: &'a [u8]) {
        self
    }
}

} // verus!

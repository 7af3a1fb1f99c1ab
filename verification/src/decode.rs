//! The decode protocol.
//!
//! A type that can be parsed from bytes carries a specification of its own
//! wire format ([`Decodable`]) and an executable parser over any splittable
//! buffer ([`TypeDecoder`]). Strategy objects ([`Decoder`]) describe formats
//! that are chosen at the call site, such as a byte order.

use vstd::prelude::*;

use crate::buffer::{BufResult, BufferErrorReason, FiniteBuffer, SplittableBuffer};

verus! {

/// The wire-format specification of a decodable type, independent of any
/// particular buffer backend.
pub trait Decodable: Sized {
    /// What decoding from `bytes` yields: the value and the number of bytes
    /// consumed, or `None` when decoding fails.
    spec fn sdecoded(bytes: Seq<u8>) -> Option<(Self, nat)>;

    /// The failure reason when `sdecoded(bytes)` is `None`.
    spec fn sdec_reason(bytes: Seq<u8>) -> BufferErrorReason;

    /// How many leading bytes stay consumed when decoding fails: a composite
    /// decode surfaces the remainder as it stood after its successfully
    /// decoded fields.
    spec fn sdec_keep(bytes: Seq<u8>) -> nat;

    /// Decoding never consumes more bytes than were available.
    proof fn sdec_props(bytes: Seq<u8>)
        ensures
            Self::sdecoded(bytes) matches Some((v, n)) ==> n <= bytes.len(),
            Self::sdecoded(bytes) is None ==> Self::sdec_keep(bytes) <= bytes.len(),
    ;
}

/// Type-directed decoding over a splittable buffer.
pub trait TypeDecoder<B: SplittableBuffer>: Decodable {
    /// Decodes a value of `Self` from the front of `buffer`.
    fn decode_type(buffer: B) -> (r: BufResult<Self, B>)
        requires
            buffer.materialized(),
        ensures
            match Self::sdecoded(buffer.sbytes()) {
                Some((v, n)) => (match r {
                    Ok((value, rest)) => {
                        &&& value == v
                        &&& rest.sbytes() == buffer.sbytes().skip(n as int)
                        &&& rest.materialized()
                    },
                    Err(_) => false,
                }),
                None => (match r {
                    Ok(_) => false,
                    Err(e) => {
                        &&& e.reason == Self::sdec_reason(buffer.sbytes())
                        &&& e.buffer.sbytes() == buffer.sbytes().skip(
                            Self::sdec_keep(buffer.sbytes()) as int,
                        )
                        &&& e.buffer.materialized()
                    },
                }),
            },
    ;
}

/// The format specification carried by a decode strategy for values of type
/// `T`, independent of any particular buffer backend.
pub trait DecoderSpec<T>: Sized {
    /// What this strategy decodes from `bytes`: the value and the number of
    /// bytes consumed, or `None` when decoding fails.
    spec fn sdecode(&self, bytes: Seq<u8>) -> Option<(T, nat)>;

    /// The failure reason when `sdecode(bytes)` is `None`.
    spec fn sdecode_reason(&self, bytes: Seq<u8>) -> BufferErrorReason;

    /// How many leading bytes stay consumed when decoding fails.
    spec fn sdecode_keep(&self, bytes: Seq<u8>) -> nat;

    /// Decoding never consumes more bytes than were available.
    proof fn sdecode_props(&self, bytes: Seq<u8>)
        ensures
            self.sdecode(bytes) matches Some((v, n)) ==> n <= bytes.len(),
            self.sdecode(bytes) is None ==> self.sdecode_keep(bytes) <= bytes.len(),
    ;
}

/// A decode strategy: an object that knows how to parse a `T` from a
/// splittable buffer.
pub trait Decoder<T, B: SplittableBuffer>: DecoderSpec<T> {
    /// Decodes a value of `T` from the front of `buffer`.
    fn decode_from(self, buffer: B) -> (r: BufResult<T, B>)
        requires
            buffer.materialized(),
        ensures
            match self.sdecode(buffer.sbytes()) {
                Some((v, n)) => (match r {
                    Ok((value, rest)) => {
                        &&& value == v
                        &&& rest.sbytes() == buffer.sbytes().skip(n as int)
                        &&& rest.materialized()
                    },
                    Err(_) => false,
                }),
                None => (match r {
                    Ok(_) => false,
                    Err(e) => {
                        &&& e.reason == self.sdecode_reason(buffer.sbytes())
                        &&& e.buffer.sbytes() == buffer.sbytes().skip(
                            self.sdecode_keep(buffer.sbytes()) as int,
                        )
                        &&& e.buffer.materialized()
                    },
                }),
            },
    ;
}

/// Composite decode entry points available on every splittable buffer.
pub trait DecoderBuffer: SplittableBuffer {
    /// Decodes a `T` by its type-directed format.
    fn decode<T: TypeDecoder<Self>>(self) -> (r: BufResult<T, Self>)
        requires
            self.materialized(),
        ensures
            match T::sdecoded(self.sbytes()) {
                Some((v, n)) => (match r {
                    Ok((value, rest)) => {
                        &&& value == v
                        &&& rest.sbytes() == self.sbytes().skip(n as int)
                        &&& rest.materialized()
                    },
                    Err(_) => false,
                }),
                None => (match r {
                    Ok(_) => false,
                    Err(e) => {
                        &&& e.reason == T::sdec_reason(self.sbytes())
                        &&& e.buffer.sbytes() == self.sbytes().skip(
                            T::sdec_keep(self.sbytes()) as int,
                        )
                        &&& e.buffer.materialized()
                    },
                }),
            },
    {
        T::decode_type(self)
    }

    /// Decodes a `T` with an explicit strategy.
    fn decode_with<T, D: Decoder<T, Self>>(self, decoder: D) -> (r: BufResult<T, Self>)
        requires
            self.materialized(),
        ensures
            match decoder.sdecode(self.sbytes()) {
                Some((v, n)) => (match r {
                    Ok((value, rest)) => {
                        &&& value == v
                        &&& rest.sbytes() == self.sbytes().skip(n as int)
                        &&& rest.materialized()
                    },
                    Err(_) => false,
                }),
                None => (match r {
                    Ok(_) => false,
                    Err(e) => {
                        &&& e.reason == decoder.sdecode_reason(self.sbytes())
                        &&& e.buffer.sbytes() == self.sbytes().skip(
                            decoder.sdecode_keep(self.sbytes()) as int,
                        )
                        &&& e.buffer.materialized()
                    },
                }),
            },
    {
        decoder.decode_from(self)
    }
}

impl<B: SplittableBuffer> DecoderBuffer for B {

}

/// A decoded marker that records how many trailing bytes it skipped over.
#[derive(Clone, Copy, Debug, Default)]
pub struct Skip(pub usize);

impl Decodable for Skip {
    open spec fn sdecoded(bytes: Seq<u8>) -> Option<(Self, nat)> {
        Some((Skip(bytes.len() as usize), bytes.len()))
    }

    open spec fn sdec_reason(bytes: Seq<u8>) -> BufferErrorReason {
        BufferErrorReason::UnexpectedBytes { len: 0 }
    }

    open spec fn sdec_keep(bytes: Seq<u8>) -> nat {
        0
    }

    proof fn sdec_props(bytes: Seq<u8>) {
    }
}

impl<B: FiniteBuffer> TypeDecoder<B> for Skip {
    fn decode_type(buffer: B) -> (r: BufResult<Self, B>) {
        let ghost bytes = buffer.sbytes();
        let (slice, rest) = buffer.consume();
        let len = slice.len();
        proof {
            assert(rest.sbytes() =~= bytes.skip(bytes.len() as int));
        }
        Ok((Skip(len), rest))
    }
}

} // verus!

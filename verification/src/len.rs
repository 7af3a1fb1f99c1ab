//! Length-prefix framing.
//!
//! A length-prefixed value is laid out as `[prefix: L][value: exactly the
//! byte count named by the prefix]`. Decoding reads the prefix, splits off
//! exactly that many bytes, and requires the value to consume the whole
//! sub-buffer. Encoding resolves the circular dependency between the
//! prefix's value and the remaining capacity by two dry runs against the
//! [`LenEstimator`]: first to budget for the prefix itself, then to learn
//! the value's exact encoded length within what the prefix can represent.

use vstd::prelude::*;

use crate::buffer::{BufResult, BufferError, BufferErrorReason, FiniteBuffer};
use crate::decode::{Decodable, Decoder, DecoderSpec, TypeDecoder};
use crate::encode::{Encodable, Encoder, EncoderBuffer, EncoderSpec, TypeEncoder};
use crate::estimator::LenEstimator;
use crate::wire::{lemma_u16_wire, lemma_u32_wire};
use core::marker::PhantomData;

verus! {

/// An unsigned integer type usable as a length prefix: its values name byte
/// counts, it has a largest representable value, and every value encodes to
/// the same width.
pub trait UintLen: Decodable + Encodable + Copy + Sized {
    /// The byte count this value names.
    spec fn as_len(&self) -> nat;

    /// The largest representable byte count.
    spec fn max_spec() -> nat;

    /// The encoded width shared by every value of the type.
    spec fn width_spec() -> nat;

    /// The value naming `n`.
    spec fn of_len_spec(n: nat) -> Self;

    /// The facts the framing proofs rely on: values stay within the
    /// maximum, the maximum fits a `usize`, naming a representable count
    /// round-trips, and encoding succeeds exactly when the fixed width
    /// fits.
    proof fn uint_len_props(&self)
        ensures
            self.as_len() <= Self::max_spec(),
            Self::max_spec() <= usize::MAX,
            Self::width_spec() <= Self::max_spec(),
            forall|n: nat|
                n <= Self::max_spec() ==> (#[trigger] Self::of_len_spec(n)).as_len() == n,
            self.encoding().len() == Self::width_spec(),
            forall|cap: nat| #[trigger] self.enc_ok(cap) <==> Self::width_spec() <= cap,
            forall|cap: nat| #[trigger]
                self.enc_reason(cap) == (BufferErrorReason::UnexpectedEof {
                    actual: cap as usize,
                    expected: Self::width_spec() as usize,
                }),
            forall|tail: Seq<u8>| #[trigger]
                Self::sdecoded(self.encoding() + tail) == Some((*self, Self::width_spec())),
    ;

    /// The byte count this value names.
    fn to_len(&self) -> (n: usize)
        ensures
            n == self.as_len(),
    ;

    /// The value naming `n`.
    fn of_len(n: usize) -> (r: Self)
        requires
            n <= Self::max_spec(),
        ensures
            r == Self::of_len_spec(n as nat),
            r.as_len() == n,
    ;

    /// The value naming `n`, clamped to the largest representable count.
    fn clamp_len(n: usize) -> (r: Self)
        ensures
            r.as_len() == (if n <= Self::max_spec() {
                n as nat
            } else {
                Self::max_spec()
            }),
    ;

    /// The largest representable byte count.
    fn max_len() -> (n: usize)
        ensures
            n == Self::max_spec(),
    ;
}

impl UintLen for u8 {
    open spec fn as_len(&self) -> nat {
        *self as nat
    }

    open spec fn max_spec() -> nat {
        u8::MAX as nat
    }

    open spec fn width_spec() -> nat {
        1
    }

    open spec fn of_len_spec(n: nat) -> Self {
        n as u8
    }

    proof fn uint_len_props(&self) {
        assert forall|tail: Seq<u8>| #[trigger]
            Self::sdecoded(self.encoding() + tail) == Some((*self, Self::width_spec())) by {
            assert((self.encoding() + tail)[0] == *self);
        }
    }

    fn to_len(&self) -> (n: usize) {
        *self as usize
    }

    fn of_len(n: usize) -> (r: Self) {
        n as u8
    }

    fn clamp_len(n: usize) -> (r: Self) {
        if n <= u8::MAX as usize {
            n as u8
        } else {
            u8::MAX
        }
    }

    fn max_len() -> (n: usize) {
        u8::MAX as usize
    }
}

impl UintLen for u16 {
    open spec fn as_len(&self) -> nat {
        *self as nat
    }

    open spec fn max_spec() -> nat {
        u16::MAX as nat
    }

    open spec fn width_spec() -> nat {
        2
    }

    open spec fn of_len_spec(n: nat) -> Self {
        n as u16
    }

    proof fn uint_len_props(&self) {
        lemma_u16_wire(*self);
        assert forall|tail: Seq<u8>| #[trigger]
            Self::sdecoded(self.encoding() + tail) == Some((*self, Self::width_spec())) by {
            assert((self.encoding() + tail).take(2) =~= self.encoding());
            assert(self.encoding().take(2) =~= self.encoding());
        }
    }

    fn to_len(&self) -> (n: usize) {
        *self as usize
    }

    fn of_len(n: usize) -> (r: Self) {
        n as u16
    }

    fn clamp_len(n: usize) -> (r: Self) {
        if n <= u16::MAX as usize {
            n as u16
        } else {
            u16::MAX
        }
    }

    fn max_len() -> (n: usize) {
        u16::MAX as usize
    }
}

impl UintLen for u32 {
    open spec fn as_len(&self) -> nat {
        *self as nat
    }

    open spec fn max_spec() -> nat {
        u32::MAX as nat
    }

    open spec fn width_spec() -> nat {
        4
    }

    open spec fn of_len_spec(n: nat) -> Self {
        n as u32
    }

    proof fn uint_len_props(&self) {
        lemma_u32_wire(*self);
        assert forall|tail: Seq<u8>| #[trigger]
            Self::sdecoded(self.encoding() + tail) == Some((*self, Self::width_spec())) by {
            assert((self.encoding() + tail).take(4) =~= self.encoding());
            assert(self.encoding().take(4) =~= self.encoding());
        }
    }

    fn to_len(&self) -> (n: usize) {
        *self as usize
    }

    fn of_len(n: usize) -> (r: Self) {
        n as u32
    }

    fn clamp_len(n: usize) -> (r: Self) {
        if n <= u32::MAX as usize {
            n as u32
        } else {
            u32::MAX
        }
    }

    fn max_len() -> (n: usize) {
        u32::MAX as usize
    }
}

/// A decoded length-prefixed value together with the prefix that framed it.
#[derive(Clone, Copy, Debug, PartialEq, Eq, Hash)]
pub struct LenPrefixed<T, L> {
    pub len: L,
    pub value: T,
}

impl<T: Decodable, L: UintLen> Decodable for LenPrefixed<T, L> {
    open spec fn sdecoded(bytes: Seq<u8>) -> Option<(Self, nat)> {
        match L::sdecoded(bytes) {
            Some((l, w)) => {
                let rest = bytes.skip(w as int);
                let m = l.as_len();
                if m <= rest.len() {
                    match T::sdecoded(rest.take(m as int)) {
                        Some((v, n)) => if n == m {
                            Some((LenPrefixed { len: l, value: v }, (w + m) as nat))
                        } else {
                            None
                        },
                        None => None,
                    }
                } else {
                    None
                }
            },
            None => None,
        }
    }

    open spec fn sdec_reason(bytes: Seq<u8>) -> BufferErrorReason {
        match L::sdecoded(bytes) {
            Some((l, w)) => {
                let rest = bytes.skip(w as int);
                let m = l.as_len();
                if m <= rest.len() {
                    match T::sdecoded(rest.take(m as int)) {
                        Some((v, n)) => BufferErrorReason::UnexpectedBytes {
                            len: (m - n) as usize,
                        },
                        None => T::sdec_reason(rest.take(m as int)),
                    }
                } else {
                    BufferErrorReason::UnexpectedEof {
                        actual: rest.len() as usize,
                        expected: m as usize,
                    }
                }
            },
            None => L::sdec_reason(bytes),
        }
    }

    open spec fn sdec_keep(bytes: Seq<u8>) -> nat {
        match L::sdecoded(bytes) {
            Some((l, w)) => {
                let rest = bytes.skip(w as int);
                let m = l.as_len();
                if m <= rest.len() {
                    (w + m) as nat
                } else {
                    w
                }
            },
            None => L::sdec_keep(bytes),
        }
    }

    proof fn sdec_props(bytes: Seq<u8>) {
        L::sdec_props(bytes);
        match L::sdecoded(bytes) {
            Some((l, w)) => {
                let rest = bytes.skip(w as int);
                let m = l.as_len();
                if m <= rest.len() {
                    T::sdec_props(rest.take(m as int));
                }
            },
            None => (),
        }
    }
}

impl<Buf: FiniteBuffer, T: TypeDecoder<Buf>, L: TypeDecoder<Buf> + UintLen> TypeDecoder<
    Buf,
> for LenPrefixed<T, L> {
    fn decode_type(buffer: Buf) -> (r: BufResult<Self, Buf>) {
        let ghost bytes = buffer.sbytes();
        match L::decode_type(buffer) {
            Ok((l, rest1)) => {
                let ghost w = bytes.len() - rest1.sbytes().len();
                proof {
                    L::sdec_props(bytes);
                    assert(rest1.sbytes() == bytes.skip(w as int));
                    l.uint_len_props();
                }
                let m = l.to_len();
                match rest1.checked_split(m) {
                    Ok((slice, rest2)) => {
                        proof {
                            assert(bytes.skip(w as int).skip(m as int) =~= bytes.skip(w + m));
                        }
                        match slice.consumed_decode::<T>() {
                            Ok((value, _)) => Ok((LenPrefixed { len: l, value }, rest2)),
                            Err(e) => Err(BufferError { buffer: rest2, reason: e.reason }),
                        }
                    },
                    Err(e) => Err(e),
                }
            },
            Err(e) => Err(e),
        }
    }
}

/// The length-prefix framing strategy: decodes and encodes a bare `T`
/// behind an `L`-typed length prefix.
#[derive(Debug, PartialEq, Eq, Hash)]
pub struct LenPrefix<L>(PhantomData<L>);

impl<L> Clone for LenPrefix<L> {
    fn clone(&self) -> (r: Self)
        ensures
            r == *self,
    {
        LenPrefix(PhantomData)
    }
}

impl<L> Copy for LenPrefix<L> {

}

impl<L> LenPrefix<L> {
    /// The one value of the strategy type.
    pub closed spec fn spec_new() -> LenPrefix<L> {
        LenPrefix(PhantomData)
    }
}

impl<L> Default for LenPrefix<L> {
    fn default() -> (r: Self)
        ensures
            r == LenPrefix::<L>::spec_new(),
    {
        LenPrefix(PhantomData)
    }
}

impl LenPrefix<()> {
    /// The framing strategy with an `L`-typed prefix.
    pub fn new<L>() -> (r: LenPrefix<L>)
        ensures
            r == LenPrefix::<L>::spec_new(),
    {
        LenPrefix(PhantomData)
    }
}

impl<T: Decodable, L: UintLen> DecoderSpec<T> for LenPrefix<L> {
    open spec fn sdecode(&self, bytes: Seq<u8>) -> Option<(T, nat)> {
        match LenPrefixed::<T, L>::sdecoded(bytes) {
            Some((p, n)) => Some((p.value, n)),
            None => None,
        }
    }

    open spec fn sdecode_reason(&self, bytes: Seq<u8>) -> BufferErrorReason {
        LenPrefixed::<T, L>::sdec_reason(bytes)
    }

    open spec fn sdecode_keep(&self, bytes: Seq<u8>) -> nat {
        LenPrefixed::<T, L>::sdec_keep(bytes)
    }

    proof fn sdecode_props(&self, bytes: Seq<u8>) {
        LenPrefixed::<T, L>::sdec_props(bytes);
    }
}

impl<Buf: FiniteBuffer, T: TypeDecoder<Buf>, L: TypeDecoder<Buf> + UintLen> Decoder<
    T,
    Buf,
> for LenPrefix<L> {
    fn decode_from(self, buffer: Buf) -> (r: BufResult<T, Buf>) {
        match LenPrefixed::<T, L>::decode_type(buffer) {
            Ok((p, rest)) => Ok((p.value, rest)),
            Err(e) => Err(e),
        }
    }
}

/// The payload budget the framing offers `value` against capacity `cap`:
/// what is left after the prefix, bounded by what the prefix can name.
pub open spec fn len_prefix_budget<L: UintLen>(cap: nat) -> nat {
    if (cap - L::width_spec()) as nat <= L::max_spec() {
        (cap - L::width_spec()) as nat
    } else {
        L::max_spec()
    }
}

impl<T: Encodable, L: UintLen> EncoderSpec<T> for LenPrefix<L> {
    open spec fn senc(&self, value: &T) -> Seq<u8> {
        L::of_len_spec(value.encoding().len()).encoding() + value.encoding()
    }

    open spec fn senc_ok(&self, value: &T, cap: nat) -> bool {
        &&& L::width_spec() <= cap
        &&& value.enc_ok(len_prefix_budget::<L>(cap))
        &&& L::width_spec() <= len_prefix_budget::<L>(cap)
    }

    open spec fn senc_reason(&self, value: &T, cap: nat) -> BufferErrorReason {
        if L::width_spec() > cap {
            BufferErrorReason::UnexpectedEof {
                actual: cap as usize,
                expected: L::width_spec() as usize,
            }
        } else if !value.enc_ok(len_prefix_budget::<L>(cap)) {
            value.enc_reason(len_prefix_budget::<L>(cap))
        } else {
            BufferErrorReason::UnexpectedEof {
                actual: len_prefix_budget::<L>(cap) as usize,
                expected: L::width_spec() as usize,
            }
        }
    }

    proof fn senc_props(&self, value: &T, cap: nat) {
        if self.senc_ok(value, cap) {
            let budget = len_prefix_budget::<L>(cap);
            value.enc_props(budget);
            let prefix = L::of_len_spec(value.encoding().len());
            prefix.uint_len_props();
        }
    }

    proof fn senc_monotone(&self, value: &T, c1: nat, c2: nat) {
        if self.senc_ok(value, c1) {
            value.enc_monotone(len_prefix_budget::<L>(c1), len_prefix_budget::<L>(c2));
        }
    }
}

impl<Buf: EncoderBuffer, T, L> Encoder<T, Buf> for LenPrefix<L> where
    T: TypeEncoder<Buf> + TypeEncoder<LenEstimator>,
    L: TypeEncoder<Buf> + TypeEncoder<LenEstimator> + UintLen,
 {
    fn encode_into(self, value: &T, buffer: Buf) -> (r: BufResult<(), Buf>) {
        let ghost cap = buffer.capacity();
        let ghost w0 = buffer.written();
        let capacity = buffer.encoder_capacity();

        // the widest prefix the current capacity could call for
        let max_value: L = L::clamp_len(capacity);
        proof {
            max_value.uint_len_props();
        }

        // how many bytes the prefix itself needs
        let prefix_len = match LenEstimator::encoding_len(&max_value, capacity) {
            Ok(len) => len,
            Err(reason) => {
                return Err(BufferError { reason, buffer });
            },
        };

        // what is left for the payload, bounded by what the prefix can name
        let after_prefix = capacity - prefix_len;
        let lmax = L::max_len();
        let budget = if after_prefix < lmax {
            after_prefix
        } else {
            lmax
        };
        proof {
            assert(budget == len_prefix_budget::<L>(cap));
        }

        // the payload's exact encoded length within that budget
        let value_len = match LenEstimator::encoding_len(value, budget) {
            Ok(len) => len,
            Err(reason) => {
                return Err(BufferError { reason, buffer });
            },
        };
        proof {
            value.enc_props(budget as nat);
        }

        // the concrete prefix, and the width it actually needs
        let prefix: L = L::of_len(value_len);
        proof {
            prefix.uint_len_props();
        }
        let _prefix_len = match LenEstimator::encoding_len(&prefix, budget) {
            Ok(len) => len,
            Err(reason) => {
                return Err(BufferError { reason, buffer });
            },
        };

        // both writes are now known to fit: the prefix in the full
        // capacity, the payload in what remains after it
        proof {
            value.enc_monotone(budget as nat, (cap - L::width_spec()) as nat);
        }
        let buf1 = match prefix.encode_type(buffer) {
            Ok(((), buf1)) => buf1,
            Err(_) => vstd::pervasive::unreached(),
        };
        let buf2 = match value.encode_type(buf1) {
            Ok(((), buf2)) => buf2,
            Err(_) => vstd::pervasive::unreached(),
        };
        proof {
            assert(w0 + prefix.encoding() + value.encoding() =~= w0 + (prefix.encoding()
                + value.encoding()));
        }
        Ok(((), buf2))
    }
}

/// Length-prefixed decoding as a method on any finite buffer.
pub trait DecodeLenPrefix: FiniteBuffer {
    /// Decodes a `T` framed behind an `L`-typed length prefix, dropping the
    /// prefix itself from the result.
    fn decode_with_len_prefix<T: TypeDecoder<Self>, L: TypeDecoder<Self> + UintLen>(self) -> (r:
        BufResult<T, Self>)
        requires
            self.materialized(),
        ensures
            match LenPrefixed::<T, L>::sdecoded(self.sbytes()) {
                Some((p, n)) => (match r {
                    Ok((value, rest)) => {
                        &&& value == p.value
                        &&& rest.sbytes() == self.sbytes().skip(n as int)
                        &&& rest.materialized()
                    },
                    Err(_) => false,
                }),
                None => (match r {
                    Ok(_) => false,
                    Err(e) => {
                        &&& e.reason == LenPrefixed::<T, L>::sdec_reason(self.sbytes())
                        &&& e.buffer.sbytes() == self.sbytes().skip(
                            LenPrefixed::<T, L>::sdec_keep(self.sbytes()) as int,
                        )
                        &&& e.buffer.materialized()
                    },
                }),
            },
    {
        match LenPrefixed::<T, L>::decode_type(self) {
            Ok((p, rest)) => Ok((p.value, rest)),
            Err(e) => Err(e),
        }
    }
}

impl<B: FiniteBuffer> DecodeLenPrefix for B {

}

/// Length-prefix round trip: for any value whose own codec reproduces it
/// from exactly its encoding, and whose encoded length the prefix type can
/// name, decoding the framing's output yields the value back, consuming
/// the prefix and the payload exactly.
pub proof fn lemma_len_prefix_round_trip<T: Decodable + Encodable, L: UintLen>(
    strategy: LenPrefix<L>,
    value: &T,
)
    requires
        T::sdecoded(value.encoding()) == Some((*value, value.encoding().len() as nat)),
        value.encoding().len() <= L::max_spec(),
    ensures
        <LenPrefix<L> as DecoderSpec<T>>::sdecode(
            &strategy,
            <LenPrefix<L> as EncoderSpec<T>>::senc(&strategy, value),
        ) == Some((*value, (L::width_spec() + value.encoding().len()) as nat)),
        <LenPrefix<L> as EncoderSpec<T>>::senc(&strategy, value).len() == L::width_spec()
            + value.encoding().len(),
{
    let venc = value.encoding();
    let l = L::of_len_spec(venc.len());
    l.uint_len_props();
    let bytes = l.encoding() + venc;
    assert(L::sdecoded(bytes) == Some((l, L::width_spec())));
    assert(bytes.skip(L::width_spec() as int) =~= venc);
    assert(venc.take(venc.len() as int) =~= venc);
}

} // verus!

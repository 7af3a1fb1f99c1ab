//! Type-directed codecs for primitive values.
//!
//! Multi-byte integers default to network order (big-endian); explicit byte
//! orders are available through the strategies in [`crate::endian`].
//! Byte-sized integers are a single raw byte. Tuples compose field by field
//! in declared order, and `Option` encodes presence by whether any bytes
//! remain at all.

use vstd::prelude::*;

use crate::buffer::{BufResult, BufferError, BufferErrorReason, FiniteBuffer};
use crate::decode::{Decodable, Decoder, TypeDecoder};
use crate::encode::{Encodable, Encoder, EncoderBuffer, TypeEncoder};
use crate::endian::Big;
use crate::wire::{
    be_u128_at, be_u128_bytes, be_u16_at, be_u16_bytes, be_u32_at, be_u32_bytes, be_u64_at,
    be_u64_bytes, lemma_u128_wire, lemma_u16_wire, lemma_u32_wire, lemma_u64_wire,
};

verus! {

impl Decodable for u8 {
    open spec fn sdecoded(bytes: Seq<u8>) -> Option<(Self, nat)> {
        if bytes.len() >= 1 {
            Some((bytes[0], 1 as nat))
        } else {
            None
        }
    }

    open spec fn sdec_reason(bytes: Seq<u8>) -> BufferErrorReason {
        BufferErrorReason::UnexpectedEof { actual: bytes.len() as usize, expected: 1 }
    }

    open spec fn sdec_keep(bytes: Seq<u8>) -> nat {
        0
    }

    proof fn sdec_props(bytes: Seq<u8>) {
    }
}

impl<Buf: FiniteBuffer> TypeDecoder<Buf> for u8 {
    fn decode_type(buffer: Buf) -> (r: BufResult<Self, Buf>) {
        let n = buffer.len();
        if n >= 1 {
            let x = *vstd::slice::slice_index_get(buffer.as_less_safe_slice(), 0);
            match buffer.checked_split(1) {
                Ok((_, rest)) => Ok((x, rest)),
                Err(_) => vstd::pervasive::unreached(),
            }
        } else {
            proof {
                assert(buffer.sbytes().skip(0) =~= buffer.sbytes());
            }
            Err(BufferError {
                reason: BufferErrorReason::UnexpectedEof { actual: n, expected: 1 },
                buffer,
            })
        }
    }
}

impl Encodable for u8 {
    open spec fn encoding(&self) -> Seq<u8> {
        seq![*self]
    }

    open spec fn enc_ok(&self, cap: nat) -> bool {
        1 <= cap
    }

    open spec fn enc_reason(&self, cap: nat) -> BufferErrorReason {
        BufferErrorReason::UnexpectedEof { actual: cap as usize, expected: 1 }
    }

    proof fn enc_props(&self, cap: nat) {
    }

    proof fn enc_monotone(&self, c1: nat, c2: nat) {
    }
}

impl<Buf: EncoderBuffer> TypeEncoder<Buf> for u8 {
    fn encode_type(&self, buffer: Buf) -> (r: BufResult<(), Buf>) {
        let mut bytes: Vec<u8> = Vec::new();
        bytes.push(*self);
        proof {
            assert(bytes@ =~= seq![*self]);
        }
        match buffer.encode_bytes(bytes.as_slice()) {
            Ok((_, rest)) => Ok(((), rest)),
            Err(e) => Err(e),
        }
    }
}

impl Decodable for i8 {
    open spec fn sdecoded(bytes: Seq<u8>) -> Option<(Self, nat)> {
        if bytes.len() >= 1 {
            Some(((bytes[0] as i8), 1 as nat))
        } else {
            None
        }
    }

    open spec fn sdec_reason(bytes: Seq<u8>) -> BufferErrorReason {
        BufferErrorReason::UnexpectedEof { actual: bytes.len() as usize, expected: 1 }
    }

    open spec fn sdec_keep(bytes: Seq<u8>) -> nat {
        0
    }

    proof fn sdec_props(bytes: Seq<u8>) {
    }
}

impl<Buf: FiniteBuffer> TypeDecoder<Buf> for i8 {
    fn decode_type(buffer: Buf) -> (r: BufResult<Self, Buf>) {
        match <u8 as TypeDecoder<Buf>>::decode_type(buffer) {
            Ok((x, rest)) => Ok((x as i8, rest)),
            Err(e) => Err(e),
        }
    }
}

impl Encodable for i8 {
    open spec fn encoding(&self) -> Seq<u8> {
        seq![(*self as u8)]
    }

    open spec fn enc_ok(&self, cap: nat) -> bool {
        1 <= cap
    }

    open spec fn enc_reason(&self, cap: nat) -> BufferErrorReason {
        BufferErrorReason::UnexpectedEof { actual: cap as usize, expected: 1 }
    }

    proof fn enc_props(&self, cap: nat) {
    }

    proof fn enc_monotone(&self, c1: nat, c2: nat) {
    }
}

impl<Buf: EncoderBuffer> TypeEncoder<Buf> for i8 {
    fn encode_type(&self, buffer: Buf) -> (r: BufResult<(), Buf>) {
        let x = *self as u8;
        <u8 as TypeEncoder<Buf>>::encode_type(&x, buffer)
    }
}

impl Decodable for u16 {
    open spec fn sdecoded(bytes: Seq<u8>) -> Option<(Self, nat)> {
        if bytes.len() >= 2 {
            Some((be_u16_at(bytes), 2 as nat))
        } else {
            None
        }
    }

    open spec fn sdec_reason(bytes: Seq<u8>) -> BufferErrorReason {
        BufferErrorReason::UnexpectedEof { actual: bytes.len() as usize, expected: 2 }
    }

    open spec fn sdec_keep(bytes: Seq<u8>) -> nat {
        0
    }

    proof fn sdec_props(bytes: Seq<u8>) {
    }
}

impl<Buf: FiniteBuffer> TypeDecoder<Buf> for u16 {
    fn decode_type(buffer: Buf) -> (r: BufResult<Self, Buf>) {
        <Big as Decoder<u16, Buf>>::decode_from(Big, buffer)
    }
}

impl Encodable for u16 {
    open spec fn encoding(&self) -> Seq<u8> {
        be_u16_bytes(*self)
    }

    open spec fn enc_ok(&self, cap: nat) -> bool {
        2 <= cap
    }

    open spec fn enc_reason(&self, cap: nat) -> BufferErrorReason {
        BufferErrorReason::UnexpectedEof { actual: cap as usize, expected: 2 }
    }

    proof fn enc_props(&self, cap: nat) {
        lemma_u16_wire(*self);
    }

    proof fn enc_monotone(&self, c1: nat, c2: nat) {
    }
}

impl<Buf: EncoderBuffer> TypeEncoder<Buf> for u16 {
    fn encode_type(&self, buffer: Buf) -> (r: BufResult<(), Buf>) {
        <Big as Encoder<u16, Buf>>::encode_into(Big, self, buffer)
    }
}

impl Decodable for i16 {
    open spec fn sdecoded(bytes: Seq<u8>) -> Option<(Self, nat)> {
        if bytes.len() >= 2 {
            Some(((be_u16_at(bytes) as i16), 2 as nat))
        } else {
            None
        }
    }

    open spec fn sdec_reason(bytes: Seq<u8>) -> BufferErrorReason {
        BufferErrorReason::UnexpectedEof { actual: bytes.len() as usize, expected: 2 }
    }

    open spec fn sdec_keep(bytes: Seq<u8>) -> nat {
        0
    }

    proof fn sdec_props(bytes: Seq<u8>) {
    }
}

impl<Buf: FiniteBuffer> TypeDecoder<Buf> for i16 {
    fn decode_type(buffer: Buf) -> (r: BufResult<Self, Buf>) {
        <Big as Decoder<i16, Buf>>::decode_from(Big, buffer)
    }
}

impl Encodable for i16 {
    open spec fn encoding(&self) -> Seq<u8> {
        be_u16_bytes(*self as u16)
    }

    open spec fn enc_ok(&self, cap: nat) -> bool {
        2 <= cap
    }

    open spec fn enc_reason(&self, cap: nat) -> BufferErrorReason {
        BufferErrorReason::UnexpectedEof { actual: cap as usize, expected: 2 }
    }

    proof fn enc_props(&self, cap: nat) {
        lemma_u16_wire(*self as u16);
    }

    proof fn enc_monotone(&self, c1: nat, c2: nat) {
    }
}

impl<Buf: EncoderBuffer> TypeEncoder<Buf> for i16 {
    fn encode_type(&self, buffer: Buf) -> (r: BufResult<(), Buf>) {
        <Big as Encoder<i16, Buf>>::encode_into(Big, self, buffer)
    }
}

impl Decodable for u32 {
    open spec fn sdecoded(bytes: Seq<u8>) -> Option<(Self, nat)> {
        if bytes.len() >= 4 {
            Some((be_u32_at(bytes), 4 as nat))
        } else {
            None
        }
    }

    open spec fn sdec_reason(bytes: Seq<u8>) -> BufferErrorReason {
        BufferErrorReason::UnexpectedEof { actual: bytes.len() as usize, expected: 4 }
    }

    open spec fn sdec_keep(bytes: Seq<u8>) -> nat {
        0
    }

    proof fn sdec_props(bytes: Seq<u8>) {
    }
}

impl<Buf: FiniteBuffer> TypeDecoder<Buf> for u32 {
    fn decode_type(buffer: Buf) -> (r: BufResult<Self, Buf>) {
        <Big as Decoder<u32, Buf>>::decode_from(Big, buffer)
    }
}

impl Encodable for u32 {
    open spec fn encoding(&self) -> Seq<u8> {
        be_u32_bytes(*self)
    }

    open spec fn enc_ok(&self, cap: nat) -> bool {
        4 <= cap
    }

    open spec fn enc_reason(&self, cap: nat) -> BufferErrorReason {
        BufferErrorReason::UnexpectedEof { actual: cap as usize, expected: 4 }
    }

    proof fn enc_props(&self, cap: nat) {
        lemma_u32_wire(*self);
    }

    proof fn enc_monotone(&self, c1: nat, c2: nat) {
    }
}

impl<Buf: EncoderBuffer> TypeEncoder<Buf> for u32 {
    fn encode_type(&self, buffer: Buf) -> (r: BufResult<(), Buf>) {
        <Big as Encoder<u32, Buf>>::encode_into(Big, self, buffer)
    }
}

impl Decodable for i32 {
    open spec fn sdecoded(bytes: Seq<u8>) -> Option<(Self, nat)> {
        if bytes.len() >= 4 {
            Some(((be_u32_at(bytes) as i32), 4 as nat))
        } else {
            None
        }
    }

    open spec fn sdec_reason(bytes: Seq<u8>) -> BufferErrorReason {
        BufferErrorReason::UnexpectedEof { actual: bytes.len() as usize, expected: 4 }
    }

    open spec fn sdec_keep(bytes: Seq<u8>) -> nat {
        0
    }

    proof fn sdec_props(bytes: Seq<u8>) {
    }
}

impl<Buf: FiniteBuffer> TypeDecoder<Buf> for i32 {
    fn decode_type(buffer: Buf) -> (r: BufResult<Self, Buf>) {
        <Big as Decoder<i32, Buf>>::decode_from(Big, buffer)
    }
}

impl Encodable for i32 {
    open spec fn encoding(&self) -> Seq<u8> {
        be_u32_bytes(*self as u32)
    }

    open spec fn enc_ok(&self, cap: nat) -> bool {
        4 <= cap
    }

    open spec fn enc_reason(&self, cap: nat) -> BufferErrorReason {
        BufferErrorReason::UnexpectedEof { actual: cap as usize, expected: 4 }
    }

    proof fn enc_props(&self, cap: nat) {
        lemma_u32_wire(*self as u32);
    }

    proof fn enc_monotone(&self, c1: nat, c2: nat) {
    }
}

impl<Buf: EncoderBuffer> TypeEncoder<Buf> for i32 {
    fn encode_type(&self, buffer: Buf) -> (r: BufResult<(), Buf>) {
        <Big as Encoder<i32, Buf>>::encode_into(Big, self, buffer)
    }
}

impl Decodable for u64 {
    open spec fn sdecoded(bytes: Seq<u8>) -> Option<(Self, nat)> {
        if bytes.len() >= 8 {
            Some((be_u64_at(bytes), 8 as nat))
        } else {
            None
        }
    }

    open spec fn sdec_reason(bytes: Seq<u8>) -> BufferErrorReason {
        BufferErrorReason::UnexpectedEof { actual: bytes.len() as usize, expected: 8 }
    }

    open spec fn sdec_keep(bytes: Seq<u8>) -> nat {
        0
    }

    proof fn sdec_props(bytes: Seq<u8>) {
    }
}

impl<Buf: FiniteBuffer> TypeDecoder<Buf> for u64 {
    fn decode_type(buffer: Buf) -> (r: BufResult<Self, Buf>) {
        <Big as Decoder<u64, Buf>>::decode_from(Big, buffer)
    }
}

impl Encodable for u64 {
    open spec fn encoding(&self) -> Seq<u8> {
        be_u64_bytes(*self)
    }

    open spec fn enc_ok(&self, cap: nat) -> bool {
        8 <= cap
    }

    open spec fn enc_reason(&self, cap: nat) -> BufferErrorReason {
        BufferErrorReason::UnexpectedEof { actual: cap as usize, expected: 8 }
    }

    proof fn enc_props(&self, cap: nat) {
        lemma_u64_wire(*self);
    }

    proof fn enc_monotone(&self, c1: nat, c2: nat) {
    }
}

impl<Buf: EncoderBuffer> TypeEncoder<Buf> for u64 {
    fn encode_type(&self, buffer: Buf) -> (r: BufResult<(), Buf>) {
        <Big as Encoder<u64, Buf>>::encode_into(Big, self, buffer)
    }
}

impl Decodable for i64 {
    open spec fn sdecoded(bytes: Seq<u8>) -> Option<(Self, nat)> {
        if bytes.len() >= 8 {
            Some(((be_u64_at(bytes) as i64), 8 as nat))
        } else {
            None
        }
    }

    open spec fn sdec_reason(bytes: Seq<u8>) -> BufferErrorReason {
        BufferErrorReason::UnexpectedEof { actual: bytes.len() as usize, expected: 8 }
    }

    open spec fn sdec_keep(bytes: Seq<u8>) -> nat {
        0
    }

    proof fn sdec_props(bytes: Seq<u8>) {
    }
}

impl<Buf: FiniteBuffer> TypeDecoder<Buf> for i64 {
    fn decode_type(buffer: Buf) -> (r: BufResult<Self, Buf>) {
        <Big as Decoder<i64, Buf>>::decode_from(Big, buffer)
    }
}

impl Encodable for i64 {
    open spec fn encoding(&self) -> Seq<u8> {
        be_u64_bytes(*self as u64)
    }

    open spec fn enc_ok(&self, cap: nat) -> bool {
        8 <= cap
    }

    open spec fn enc_reason(&self, cap: nat) -> BufferErrorReason {
        BufferErrorReason::UnexpectedEof { actual: cap as usize, expected: 8 }
    }

    proof fn enc_props(&self, cap: nat) {
        lemma_u64_wire(*self as u64);
    }

    proof fn enc_monotone(&self, c1: nat, c2: nat) {
    }
}

impl<Buf: EncoderBuffer> TypeEncoder<Buf> for i64 {
    fn encode_type(&self, buffer: Buf) -> (r: BufResult<(), Buf>) {
        <Big as Encoder<i64, Buf>>::encode_into(Big, self, buffer)
    }
}

impl Decodable for u128 {
    open spec fn sdecoded(bytes: Seq<u8>) -> Option<(Self, nat)> {
        if bytes.len() >= 16 {
            Some((be_u128_at(bytes), 16 as nat))
        } else {
            None
        }
    }

    open spec fn sdec_reason(bytes: Seq<u8>) -> BufferErrorReason {
        BufferErrorReason::UnexpectedEof { actual: bytes.len() as usize, expected: 16 }
    }

    open spec fn sdec_keep(bytes: Seq<u8>) -> nat {
        0
    }

    proof fn sdec_props(bytes: Seq<u8>) {
    }
}

impl<Buf: FiniteBuffer> TypeDecoder<Buf> for u128 {
    fn decode_type(buffer: Buf) -> (r: BufResult<Self, Buf>) {
        <Big as Decoder<u128, Buf>>::decode_from(Big, buffer)
    }
}

impl Encodable for u128 {
    open spec fn encoding(&self) -> Seq<u8> {
        be_u128_bytes(*self)
    }

    open spec fn enc_ok(&self, cap: nat) -> bool {
        16 <= cap
    }

    open spec fn enc_reason(&self, cap: nat) -> BufferErrorReason {
        BufferErrorReason::UnexpectedEof { actual: cap as usize, expected: 16 }
    }

    proof fn enc_props(&self, cap: nat) {
        lemma_u128_wire(*self);
    }

    proof fn enc_monotone(&self, c1: nat, c2: nat) {
    }
}

impl<Buf: EncoderBuffer> TypeEncoder<Buf> for u128 {
    fn encode_type(&self, buffer: Buf) -> (r: BufResult<(), Buf>) {
        <Big as Encoder<u128, Buf>>::encode_into(Big, self, buffer)
    }
}

impl Decodable for i128 {
    open spec fn sdecoded(bytes: Seq<u8>) -> Option<(Self, nat)> {
        if bytes.len() >= 16 {
            Some(((be_u128_at(bytes) as i128), 16 as nat))
        } else {
            None
        }
    }

    open spec fn sdec_reason(bytes: Seq<u8>) -> BufferErrorReason {
        BufferErrorReason::UnexpectedEof { actual: bytes.len() as usize, expected: 16 }
    }

    open spec fn sdec_keep(bytes: Seq<u8>) -> nat {
        0
    }

    proof fn sdec_props(bytes: Seq<u8>) {
    }
}

impl<Buf: FiniteBuffer> TypeDecoder<Buf> for i128 {
    fn decode_type(buffer: Buf) -> (r: BufResult<Self, Buf>) {
        <Big as Decoder<i128, Buf>>::decode_from(Big, buffer)
    }
}

impl Encodable for i128 {
    open spec fn encoding(&self) -> Seq<u8> {
        be_u128_bytes(*self as u128)
    }

    open spec fn enc_ok(&self, cap: nat) -> bool {
        16 <= cap
    }

    open spec fn enc_reason(&self, cap: nat) -> BufferErrorReason {
        BufferErrorReason::UnexpectedEof { actual: cap as usize, expected: 16 }
    }

    proof fn enc_props(&self, cap: nat) {
        lemma_u128_wire(*self as u128);
    }

    proof fn enc_monotone(&self, c1: nat, c2: nat) {
    }
}

impl<Buf: EncoderBuffer> TypeEncoder<Buf> for i128 {
    fn encode_type(&self, buffer: Buf) -> (r: BufResult<(), Buf>) {
        <Big as Encoder<i128, Buf>>::encode_into(Big, self, buffer)
    }
}

/// Round trip: encoding a value and decoding the result reproduces it,
/// consuming exactly the value's byte width.
pub proof fn lemma_u128_round_trip(x: u128)
    ensures
        <u128 as Decodable>::sdecoded(x.encoding()) == Some((x, 16 as nat)),
        x.encoding().len() == 16,
{
    lemma_u128_wire(x);
}

/// Round trip: encoding a value and decoding the result reproduces it,
/// consuming exactly the value's byte width.
pub proof fn lemma_i128_round_trip(x: i128)
    ensures
        <i128 as Decodable>::sdecoded(x.encoding()) == Some((x, 16 as nat)),
        x.encoding().len() == 16,
{
    lemma_u128_wire(x as u128);
    assert(((x as u128) as i128) == x) by (bit_vector);
}

impl Decodable for () {
    open spec fn sdecoded(bytes: Seq<u8>) -> Option<(Self, nat)> {
        Some(((), 0 as nat))
    }

    open spec fn sdec_reason(bytes: Seq<u8>) -> BufferErrorReason {
        BufferErrorReason::UnexpectedBytes { len: 0 }
    }

    open spec fn sdec_keep(bytes: Seq<u8>) -> nat {
        0
    }

    proof fn sdec_props(bytes: Seq<u8>) {
    }
}

impl<Buf: FiniteBuffer> TypeDecoder<Buf> for () {
    fn decode_type(buffer: Buf) -> (r: BufResult<Self, Buf>) {
        proof {
            assert(buffer.sbytes().skip(0) =~= buffer.sbytes());
        }
        Ok(((), buffer))
    }
}

impl Encodable for () {
    open spec fn encoding(&self) -> Seq<u8> {
        Seq::<u8>::empty()
    }

    open spec fn enc_ok(&self, cap: nat) -> bool {
        true
    }

    open spec fn enc_reason(&self, cap: nat) -> BufferErrorReason {
        BufferErrorReason::UnexpectedBytes { len: 0 }
    }

    proof fn enc_props(&self, cap: nat) {
    }

    proof fn enc_monotone(&self, c1: nat, c2: nat) {
    }
}

impl<Buf: EncoderBuffer> TypeEncoder<Buf> for () {
    fn encode_type(&self, buffer: Buf) -> (r: BufResult<(), Buf>) {
        proof {
            assert(buffer.written() + Seq::<u8>::empty() =~= buffer.written());
        }
        Ok(((), buffer))
    }
}

impl<T: Decodable> Decodable for Option<T> {
    open spec fn sdecoded(bytes: Seq<u8>) -> Option<(Self, nat)> {
        if bytes.len() == 0 {
            Some((None, 0 as nat))
        } else {
            match T::sdecoded(bytes) {
                Some((v, n)) => Some((Some(v), n)),
                None => None,
            }
        }
    }

    open spec fn sdec_reason(bytes: Seq<u8>) -> BufferErrorReason {
        T::sdec_reason(bytes)
    }

    open spec fn sdec_keep(bytes: Seq<u8>) -> nat {
        T::sdec_keep(bytes)
    }

    proof fn sdec_props(bytes: Seq<u8>) {
        T::sdec_props(bytes);
    }
}

impl<Buf: FiniteBuffer, T: TypeDecoder<Buf>> TypeDecoder<Buf> for Option<T> {
    fn decode_type(buffer: Buf) -> (r: BufResult<Self, Buf>) {
        if buffer.is_empty() {
            proof {
                assert(buffer.sbytes().skip(0) =~= buffer.sbytes());
            }
            Ok((None, buffer))
        } else {
            match T::decode_type(buffer) {
                Ok((v, rest)) => Ok((Some(v), rest)),
                Err(e) => Err(e),
            }
        }
    }
}

impl<T: Encodable> Encodable for Option<T> {
    open spec fn encoding(&self) -> Seq<u8> {
        match self {
            Some(v) => v.encoding(),
            None => Seq::<u8>::empty(),
        }
    }

    open spec fn enc_ok(&self, cap: nat) -> bool {
        match self {
            Some(v) => v.enc_ok(cap),
            None => true,
        }
    }

    open spec fn enc_reason(&self, cap: nat) -> BufferErrorReason {
        match self {
            Some(v) => v.enc_reason(cap),
            None => BufferErrorReason::UnexpectedBytes { len: 0 },
        }
    }

    proof fn enc_props(&self, cap: nat) {
        match self {
            Some(v) => v.enc_props(cap),
            None => (),
        }
    }

    proof fn enc_monotone(&self, c1: nat, c2: nat) {
        match self {
            Some(v) => v.enc_monotone(c1, c2),
            None => (),
        }
    }
}

impl<Buf: EncoderBuffer, T: TypeEncoder<Buf>> TypeEncoder<Buf> for Option<T> {
    fn encode_type(&self, buffer: Buf) -> (r: BufResult<(), Buf>) {
        match self {
            Some(v) => v.encode_type(buffer),
            None => {
                proof {
                    assert(buffer.written() + Seq::<u8>::empty() =~= buffer.written());
                }
                Ok(((), buffer))
            },
        }
    }
}

impl<A: Decodable, B: Decodable> Decodable for (A, B) {
    open spec fn sdecoded(bytes: Seq<u8>) -> Option<(Self, nat)> {
        match A::sdecoded(bytes) {
            Some((a, n1)) => match B::sdecoded(bytes.skip(n1 as int)) {
                Some((b, n2)) => Some(((a, b), (n1 + n2) as nat)),
                None => None,
            },
            None => None,
        }
    }

    open spec fn sdec_reason(bytes: Seq<u8>) -> BufferErrorReason {
        match A::sdecoded(bytes) {
            Some((a, n1)) => B::sdec_reason(bytes.skip(n1 as int)),
            None => A::sdec_reason(bytes),
        }
    }

    open spec fn sdec_keep(bytes: Seq<u8>) -> nat {
        match A::sdecoded(bytes) {
            Some((a, n1)) => (n1 + B::sdec_keep(bytes.skip(n1 as int))) as nat,
            None => A::sdec_keep(bytes),
        }
    }

    proof fn sdec_props(bytes: Seq<u8>) {
        A::sdec_props(bytes);
        match A::sdecoded(bytes) {
            Some((a, n1)) => B::sdec_props(bytes.skip(n1 as int)),
            None => (),
        }
    }
}

impl<Buf: FiniteBuffer, A: TypeDecoder<Buf>, B: TypeDecoder<Buf>> TypeDecoder<Buf> for (A, B) {
    fn decode_type(buffer: Buf) -> (r: BufResult<Self, Buf>) {
        let ghost bytes = buffer.sbytes();
        match A::decode_type(buffer) {
            Ok((a, rest1)) => {
                let ghost n1 = bytes.len() - rest1.sbytes().len();
                proof {
                    A::sdec_props(bytes);
                    assert(rest1.sbytes() == bytes.skip(n1 as int));
                }
                match B::decode_type(rest1) {
                    Ok((b, rest2)) => {
                        let ghost n2 = rest1.sbytes().len() - rest2.sbytes().len();
                        proof {
                            B::sdec_props(bytes.skip(n1 as int));
                            assert(bytes.skip(n1 as int).skip(n2 as int) =~= bytes.skip(
                                n1 + n2,
                            ));
                        }
                        Ok(((a, b), rest2))
                    },
                    Err(e) => {
                        proof {
                            B::sdec_props(bytes.skip(n1 as int));
                            let keep = B::sdec_keep(bytes.skip(n1 as int));
                            assert(bytes.skip(n1 as int).skip(keep as int) =~= bytes.skip(
                                n1 + keep,
                            ));
                        }
                        Err(e)
                    },
                }
            },
            Err(e) => Err(e),
        }
    }
}

impl<A: Encodable, B: Encodable> Encodable for (A, B) {
    open spec fn encoding(&self) -> Seq<u8> {
        self.0.encoding() + self.1.encoding()
    }

    open spec fn enc_ok(&self, cap: nat) -> bool {
        self.0.enc_ok(cap) && self.1.enc_ok((cap - self.0.encoding().len()) as nat)
    }

    open spec fn enc_reason(&self, cap: nat) -> BufferErrorReason {
        if !self.0.enc_ok(cap) {
            self.0.enc_reason(cap)
        } else {
            self.1.enc_reason((cap - self.0.encoding().len()) as nat)
        }
    }

    proof fn enc_props(&self, cap: nat) {
        self.0.enc_props(cap);
        if self.0.enc_ok(cap) {
            self.1.enc_props((cap - self.0.encoding().len()) as nat);
        }
    }

    proof fn enc_monotone(&self, c1: nat, c2: nat) {
        self.0.enc_monotone(c1, c2);
        if self.0.enc_ok(c1) {
            self.0.enc_props(c1);
            self.1.enc_monotone(
                (c1 - self.0.encoding().len()) as nat,
                (c2 - self.0.encoding().len()) as nat,
            );
        }
    }
}

impl<Buf: EncoderBuffer, A: TypeEncoder<Buf>, B: TypeEncoder<Buf>> TypeEncoder<Buf> for (A, B) {
    fn encode_type(&self, buffer: Buf) -> (r: BufResult<(), Buf>) {
        let cap0 = buffer.encoder_capacity();
        let ghost w0 = buffer.written();
        proof {
            self.0.enc_props(buffer.capacity());
        }
        match self.0.encode_type(buffer) {
            Ok(((), buf1)) => {
                proof {
                    self.1.enc_props(buf1.capacity());
                }
                match self.1.encode_type(buf1) {
                    Ok(((), buf2)) => {
                        proof {
                            assert(w0 + self.0.encoding() + self.1.encoding() =~= w0 + (
                            self.0.encoding() + self.1.encoding()));
                        }
                        Ok(((), buf2))
                    },
                    Err(e) => {
                        let cap1 = e.buffer.encoder_capacity();
                        let written0 = cap0 - cap1;
                        let rolled = e.buffer.rollback(written0);
                        proof {
                            assert((w0 + self.0.encoding()).take(w0.len() as int) =~= w0);
                        }
                        Err(BufferError { buffer: rolled, reason: e.reason })
                    },
                }
            },
            Err(e) => Err(e),
        }
    }
}

impl Encodable for Vec<u8> {
    open spec fn encoding(&self) -> Seq<u8> {
        self@
    }

    open spec fn enc_ok(&self, cap: nat) -> bool {
        self@.len() <= cap
    }

    open spec fn enc_reason(&self, cap: nat) -> BufferErrorReason {
        BufferErrorReason::UnexpectedEof { actual: cap as usize, expected: self@.len() as usize }
    }

    proof fn enc_props(&self, cap: nat) {
    }

    proof fn enc_monotone(&self, c1: nat, c2: nat) {
    }
}

impl<Buf: EncoderBuffer> TypeEncoder<Buf> for Vec<u8> {
    fn encode_type(&self, buffer: Buf) -> (r: BufResult<(), Buf>) {
        match buffer.encode_bytes(self.as_slice()) {
            Ok((_, rest)) => Ok(((), rest)),
            Err(e) => Err(e),
        }
    }
}

impl<'a, T: Encodable> Encodable for &'a T {
    open spec fn encoding(&self) -> Seq<u8> {
        (**self).encoding()
    }

    open spec fn enc_ok(&self, cap: nat) -> bool {
        (**self).enc_ok(cap)
    }

    open spec fn enc_reason(&self, cap: nat) -> BufferErrorReason {
        (**self).enc_reason(cap)
    }

    proof fn enc_props(&self, cap: nat) {
        (**self).enc_props(cap);
    }

    proof fn enc_monotone(&self, c1: nat, c2: nat) {
        (**self).enc_monotone(c1, c2);
    }
}

impl<'a, Buf: EncoderBuffer, T: TypeEncoder<Buf>> TypeEncoder<Buf> for &'a T {
    fn encode_type(&self, buffer: Buf) -> (r: BufResult<(), Buf>) {
        (**self).encode_type(buffer)
    }
}

impl<'a, T: Encodable> Encodable for &'a mut T {
    open spec fn encoding(&self) -> Seq<u8> {
        (**self).encoding()
    }

    open spec fn enc_ok(&self, cap: nat) -> bool {
        (**self).enc_ok(cap)
    }

    open spec fn enc_reason(&self, cap: nat) -> BufferErrorReason {
        (**self).enc_reason(cap)
    }

    proof fn enc_props(&self, cap: nat) {
        (**self).enc_props(cap);
    }

    proof fn enc_monotone(&self, c1: nat, c2: nat) {
        (**self).enc_monotone(c1, c2);
    }
}

impl<'a, Buf: EncoderBuffer, T: TypeEncoder<Buf>> TypeEncoder<Buf> for &'a mut T {
    fn encode_type(&self, buffer: Buf) -> (r: BufResult<(), Buf>) {
        (**self).encode_type(buffer)
    }
}


impl<A: Decodable, B: Decodable, C: Decodable> Decodable for (A, B, C) {
    open spec fn sdecoded(bytes: Seq<u8>) -> Option<(Self, nat)> {
        match <(A, B)>::sdecoded(bytes) {
            Some(((a, b), n1)) => match C::sdecoded(bytes.skip(n1 as int)) {
                Some((c, n2)) => Some(((a, b, c), (n1 + n2) as nat)),
                None => None,
            },
            None => None,
        }
    }

    open spec fn sdec_reason(bytes: Seq<u8>) -> BufferErrorReason {
        match <(A, B)>::sdecoded(bytes) {
            Some((ab, n1)) => C::sdec_reason(bytes.skip(n1 as int)),
            None => <(A, B)>::sdec_reason(bytes),
        }
    }

    open spec fn sdec_keep(bytes: Seq<u8>) -> nat {
        match <(A, B)>::sdecoded(bytes) {
            Some((ab, n1)) => (n1 + C::sdec_keep(bytes.skip(n1 as int))) as nat,
            None => <(A, B)>::sdec_keep(bytes),
        }
    }

    proof fn sdec_props(bytes: Seq<u8>) {
        <(A, B)>::sdec_props(bytes);
        match <(A, B)>::sdecoded(bytes) {
            Some((ab, n1)) => C::sdec_props(bytes.skip(n1 as int)),
            None => (),
        }
    }
}

impl<
    Buf: FiniteBuffer,
    A: TypeDecoder<Buf>,
    B: TypeDecoder<Buf>,
    C: TypeDecoder<Buf>,
> TypeDecoder<Buf> for (A, B, C) {
    fn decode_type(buffer: Buf) -> (r: BufResult<Self, Buf>) {
        let ghost bytes = buffer.sbytes();
        match <(A, B)>::decode_type(buffer) {
            Ok(((a, b), rest1)) => {
                let ghost n1 = bytes.len() - rest1.sbytes().len();
                proof {
                    <(A, B)>::sdec_props(bytes);
                    assert(rest1.sbytes() == bytes.skip(n1 as int));
                }
                match C::decode_type(rest1) {
                    Ok((c, rest2)) => {
                        let ghost n2 = rest1.sbytes().len() - rest2.sbytes().len();
                        proof {
                            C::sdec_props(bytes.skip(n1 as int));
                            assert(bytes.skip(n1 as int).skip(n2 as int) =~= bytes.skip(
                                n1 + n2,
                            ));
                        }
                        Ok(((a, b, c), rest2))
                    },
                    Err(e) => {
                        proof {
                            C::sdec_props(bytes.skip(n1 as int));
                            let keep = C::sdec_keep(bytes.skip(n1 as int));
                            assert(bytes.skip(n1 as int).skip(keep as int) =~= bytes.skip(
                                n1 + keep,
                            ));
                        }
                        Err(e)
                    },
                }
            },
            Err(e) => Err(e),
        }
    }
}

impl<A: Encodable, B: Encodable, C: Encodable> Encodable for (A, B, C) {
    open spec fn encoding(&self) -> Seq<u8> {
        self.0.encoding() + self.1.encoding() + self.2.encoding()
    }

    open spec fn enc_ok(&self, cap: nat) -> bool {
        ((self.0, self.1)).enc_ok(cap) && self.2.enc_ok(
            (cap - self.0.encoding().len() - self.1.encoding().len()) as nat,
        )
    }

    open spec fn enc_reason(&self, cap: nat) -> BufferErrorReason {
        if !((self.0, self.1)).enc_ok(cap) {
            ((self.0, self.1)).enc_reason(cap)
        } else {
            self.2.enc_reason((cap - self.0.encoding().len() - self.1.encoding().len()) as nat)
        }
    }

    proof fn enc_props(&self, cap: nat) {
        ((self.0, self.1)).enc_props(cap);
        if ((self.0, self.1)).enc_ok(cap) {
            self.2.enc_props((cap - self.0.encoding().len() - self.1.encoding().len()) as nat);
        }
    }

    proof fn enc_monotone(&self, c1: nat, c2: nat) {
        ((self.0, self.1)).enc_monotone(c1, c2);
        if ((self.0, self.1)).enc_ok(c1) {
            ((self.0, self.1)).enc_props(c1);
            self.2.enc_monotone(
                (c1 - self.0.encoding().len() - self.1.encoding().len()) as nat,
                (c2 - self.0.encoding().len() - self.1.encoding().len()) as nat,
            );
        }
    }
}

impl<
    Buf: EncoderBuffer,
    A: TypeEncoder<Buf>,
    B: TypeEncoder<Buf>,
    C: TypeEncoder<Buf>,
> TypeEncoder<Buf> for (A, B, C) {
    fn encode_type(&self, buffer: Buf) -> (r: BufResult<(), Buf>) {
        let cap0 = buffer.encoder_capacity();
        let ghost w0 = buffer.written();
        proof {
            self.0.enc_props(buffer.capacity());
        }
        match self.0.encode_type(buffer) {
            Ok(((), buf1)) => {
                proof {
                    self.1.enc_props(buf1.capacity());
                }
                match self.1.encode_type(buf1) {
                    Ok(((), buf2)) => {
                        proof {
                            self.2.enc_props(buf2.capacity());
                        }
                        match self.2.encode_type(buf2) {
                            Ok(((), buf3)) => {
                                proof {
                                    assert(w0 + self.0.encoding() + self.1.encoding()
                                        + self.2.encoding() =~= w0 + (self.0.encoding()
                                        + self.1.encoding() + self.2.encoding()));
                                }
                                Ok(((), buf3))
                            },
                            Err(e) => {
                                let cap2 = e.buffer.encoder_capacity();
                                let written01 = cap0 - cap2;
                                let rolled = e.buffer.rollback(written01);
                                proof {
                                    assert((w0 + self.0.encoding() + self.1.encoding()).take(
                                        w0.len() as int,
                                    ) =~= w0);
                                }
                                Err(BufferError { buffer: rolled, reason: e.reason })
                            },
                        }
                    },
                    Err(e) => {
                        let cap1 = e.buffer.encoder_capacity();
                        let written0 = cap0 - cap1;
                        let rolled = e.buffer.rollback(written0);
                        proof {
                            assert((w0 + self.0.encoding()).take(w0.len() as int) =~= w0);
                        }
                        Err(BufferError { buffer: rolled, reason: e.reason })
                    },
                }
            },
            Err(e) => Err(e),
        }
    }
}

/// Round trip: encoding a value and decoding the result reproduces it,
/// consuming exactly the value's byte width.
pub proof fn lemma_u8_round_trip(x: u8)
    ensures
        <u8 as Decodable>::sdecoded(x.encoding()) == Some((x, 1 as nat)),
        x.encoding().len() == 1,
{
    assert(x.encoding()[0] == x);
}

/// Round trip: encoding a value and decoding the result reproduces it,
/// consuming exactly the value's byte width.
pub proof fn lemma_i8_round_trip(x: i8)
    ensures
        <i8 as Decodable>::sdecoded(x.encoding()) == Some((x, 1 as nat)),
        x.encoding().len() == 1,
{
    assert(x.encoding()[0] == x as u8);
    assert(((x as u8) as i8) == x) by (bit_vector);
}

/// Round trip: encoding a value and decoding the result reproduces it,
/// consuming exactly the value's byte width.
pub proof fn lemma_u16_round_trip(x: u16)
    ensures
        <u16 as Decodable>::sdecoded(x.encoding()) == Some((x, 2 as nat)),
        x.encoding().len() == 2,
{
    lemma_u16_wire(x);
}

/// Round trip: encoding a value and decoding the result reproduces it,
/// consuming exactly the value's byte width.
pub proof fn lemma_i16_round_trip(x: i16)
    ensures
        <i16 as Decodable>::sdecoded(x.encoding()) == Some((x, 2 as nat)),
        x.encoding().len() == 2,
{
    lemma_u16_wire(x as u16);
    assert(((x as u16) as i16) == x) by (bit_vector);
}

/// Round trip: encoding a value and decoding the result reproduces it,
/// consuming exactly the value's byte width.
pub proof fn lemma_u32_round_trip(x: u32)
    ensures
        <u32 as Decodable>::sdecoded(x.encoding()) == Some((x, 4 as nat)),
        x.encoding().len() == 4,
{
    lemma_u32_wire(x);
}

/// Round trip: encoding a value and decoding the result reproduces it,
/// consuming exactly the value's byte width.
pub proof fn lemma_i32_round_trip(x: i32)
    ensures
        <i32 as Decodable>::sdecoded(x.encoding()) == Some((x, 4 as nat)),
        x.encoding().len() == 4,
{
    lemma_u32_wire(x as u32);
    assert(((x as u32) as i32) == x) by (bit_vector);
}

/// Round trip: encoding a value and decoding the result reproduces it,
/// consuming exactly the value's byte width.
pub proof fn lemma_u64_round_trip(x: u64)
    ensures
        <u64 as Decodable>::sdecoded(x.encoding()) == Some((x, 8 as nat)),
        x.encoding().len() == 8,
{
    lemma_u64_wire(x);
}

/// Round trip: encoding a value and decoding the result reproduces it,
/// consuming exactly the value's byte width.
pub proof fn lemma_i64_round_trip(x: i64)
    ensures
        <i64 as Decodable>::sdecoded(x.encoding()) == Some((x, 8 as nat)),
        x.encoding().len() == 8,
{
    lemma_u64_wire(x as u64);
    assert(((x as u64) as i64) == x) by (bit_vector);
}

} // verus!

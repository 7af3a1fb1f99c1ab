//! Byte-order strategies for fixed-width integers.
//!
//! [`Big`] and [`Little`] are stateless strategy objects implementing the
//! decode and encode protocols for every supported multi-byte integer type;
//! [`Endian`] selects between them at run time. The default type-directed
//! codecs delegate to network order ([`NETWORK`], big-endian).

use vstd::prelude::*;

use crate::buffer::{BufResult, BufferError, BufferErrorReason, FiniteBuffer};
use crate::decode::{Decoder, DecoderSpec};
use crate::encode::{Encoder, EncoderBuffer, EncoderSpec};
use crate::wire::{
    be_u128_at, be_u128_bytes, be_u16_at, be_u16_bytes, be_u32_at, be_u32_bytes, be_u64_at,
    be_u64_bytes, get_be_u128, get_be_u16, get_be_u32, get_be_u64, get_le_u128, get_le_u16,
    get_le_u32, get_le_u64, le_u128_at, le_u128_bytes, le_u16_at, le_u16_bytes, le_u32_at,
    le_u32_bytes, le_u64_at, le_u64_bytes, lemma_u128_wire, lemma_u16_wire, lemma_u32_wire,
    lemma_u64_wire, put_be_u128, put_be_u16, put_be_u32, put_be_u64, put_le_u128, put_le_u16,
    put_le_u32, put_le_u64,
};

verus! {

/// The big-endian byte-order strategy.
#[derive(Clone, Copy, Debug, PartialEq, Eq, Structural, Hash)]
pub struct Big;

/// The little-endian byte-order strategy.
#[derive(Clone, Copy, Debug, PartialEq, Eq, Structural, Hash)]
pub struct Little;

/// A byte order selected at run time.
#[derive(Clone, Copy, Debug, PartialEq, Eq, Structural, Hash)]
pub enum Endian {
    Big,
    Little,
}

/// Network byte order is big-endian.
pub const NETWORK: Big = Big;

impl DecoderSpec<u16> for Big {
    open spec fn sdecode(&self, bytes: Seq<u8>) -> Option<(u16, nat)> {
        if bytes.len() >= 2 {
            Some((be_u16_at(bytes), 2 as nat))
        } else {
            None
        }
    }

    open spec fn sdecode_reason(&self, bytes: Seq<u8>) -> BufferErrorReason {
        BufferErrorReason::UnexpectedEof { actual: bytes.len() as usize, expected: 2 }
    }

    open spec fn sdecode_keep(&self, bytes: Seq<u8>) -> nat {
        0
    }

    proof fn sdecode_props(&self, bytes: Seq<u8>) {
    }
}

impl<B: FiniteBuffer> Decoder<u16, B> for Big {
    fn decode_from(self, buffer: B) -> (r: BufResult<u16, B>) {
        let n = buffer.len();
        if n >= 2 {
            let x = get_be_u16(buffer.as_less_safe_slice());
            match buffer.checked_split(2) {
                Ok((_, rest)) => Ok((x, rest)),
                Err(_) => vstd::pervasive::unreached(),
            }
        } else {
            proof {
                assert(buffer.sbytes().skip(0) =~= buffer.sbytes());
            }
            Err(BufferError {
                reason: BufferErrorReason::UnexpectedEof { actual: n, expected: 2 },
                buffer,
            })
        }
    }
}

impl EncoderSpec<u16> for Big {
    open spec fn senc(&self, value: &u16) -> Seq<u8> {
        be_u16_bytes(*value)
    }

    open spec fn senc_ok(&self, value: &u16, cap: nat) -> bool {
        2 <= cap
    }

    open spec fn senc_reason(&self, value: &u16, cap: nat) -> BufferErrorReason {
        BufferErrorReason::UnexpectedEof { actual: cap as usize, expected: 2 }
    }

    proof fn senc_props(&self, value: &u16, cap: nat) {
        lemma_u16_wire(*value);
    }

    proof fn senc_monotone(&self, value: &u16, c1: nat, c2: nat) {
    }
}

impl<B: EncoderBuffer> Encoder<u16, B> for Big {
    fn encode_into(self, value: &u16, buffer: B) -> (r: BufResult<(), B>) {
        proof {
            lemma_u16_wire(*value);
        }
        let bytes = put_be_u16(*value);
        match buffer.encode_bytes(bytes.as_slice()) {
            Ok((_, rest)) => Ok(((), rest)),
            Err(e) => Err(e),
        }
    }
}

impl DecoderSpec<u16> for Little {
    open spec fn sdecode(&self, bytes: Seq<u8>) -> Option<(u16, nat)> {
        if bytes.len() >= 2 {
            Some((le_u16_at(bytes), 2 as nat))
        } else {
            None
        }
    }

    open spec fn sdecode_reason(&self, bytes: Seq<u8>) -> BufferErrorReason {
        BufferErrorReason::UnexpectedEof { actual: bytes.len() as usize, expected: 2 }
    }

    open spec fn sdecode_keep(&self, bytes: Seq<u8>) -> nat {
        0
    }

    proof fn sdecode_props(&self, bytes: Seq<u8>) {
    }
}

impl<B: FiniteBuffer> Decoder<u16, B> for Little {
    fn decode_from(self, buffer: B) -> (r: BufResult<u16, B>) {
        let n = buffer.len();
        if n >= 2 {
            let x = get_le_u16(buffer.as_less_safe_slice());
            match buffer.checked_split(2) {
                Ok((_, rest)) => Ok((x, rest)),
                Err(_) => vstd::pervasive::unreached(),
            }
        } else {
            proof {
                assert(buffer.sbytes().skip(0) =~= buffer.sbytes());
            }
            Err(BufferError {
                reason: BufferErrorReason::UnexpectedEof { actual: n, expected: 2 },
                buffer,
            })
        }
    }
}

impl EncoderSpec<u16> for Little {
    open spec fn senc(&self, value: &u16) -> Seq<u8> {
        le_u16_bytes(*value)
    }

    open spec fn senc_ok(&self, value: &u16, cap: nat) -> bool {
        2 <= cap
    }

    open spec fn senc_reason(&self, value: &u16, cap: nat) -> BufferErrorReason {
        BufferErrorReason::UnexpectedEof { actual: cap as usize, expected: 2 }
    }

    proof fn senc_props(&self, value: &u16, cap: nat) {
        lemma_u16_wire(*value);
    }

    proof fn senc_monotone(&self, value: &u16, c1: nat, c2: nat) {
    }
}

impl<B: EncoderBuffer> Encoder<u16, B> for Little {
    fn encode_into(self, value: &u16, buffer: B) -> (r: BufResult<(), B>) {
        proof {
            lemma_u16_wire(*value);
        }
        let bytes = put_le_u16(*value);
        match buffer.encode_bytes(bytes.as_slice()) {
            Ok((_, rest)) => Ok(((), rest)),
            Err(e) => Err(e),
        }
    }
}

impl DecoderSpec<u32> for Big {
    open spec fn sdecode(&self, bytes: Seq<u8>) -> Option<(u32, nat)> {
        if bytes.len() >= 4 {
            Some((be_u32_at(bytes), 4 as nat))
        } else {
            None
        }
    }

    open spec fn sdecode_reason(&self, bytes: Seq<u8>) -> BufferErrorReason {
        BufferErrorReason::UnexpectedEof { actual: bytes.len() as usize, expected: 4 }
    }

    open spec fn sdecode_keep(&self, bytes: Seq<u8>) -> nat {
        0
    }

    proof fn sdecode_props(&self, bytes: Seq<u8>) {
    }
}

impl<B: FiniteBuffer> Decoder<u32, B> for Big {
    fn decode_from(self, buffer: B) -> (r: BufResult<u32, B>) {
        let n = buffer.len();
        if n >= 4 {
            let x = get_be_u32(buffer.as_less_safe_slice());
            match buffer.checked_split(4) {
                Ok((_, rest)) => Ok((x, rest)),
                Err(_) => vstd::pervasive::unreached(),
            }
        } else {
            proof {
                assert(buffer.sbytes().skip(0) =~= buffer.sbytes());
            }
            Err(BufferError {
                reason: BufferErrorReason::UnexpectedEof { actual: n, expected: 4 },
                buffer,
            })
        }
    }
}

impl EncoderSpec<u32> for Big {
    open spec fn senc(&self, value: &u32) -> Seq<u8> {
        be_u32_bytes(*value)
    }

    open spec fn senc_ok(&self, value: &u32, cap: nat) -> bool {
        4 <= cap
    }

    open spec fn senc_reason(&self, value: &u32, cap: nat) -> BufferErrorReason {
        BufferErrorReason::UnexpectedEof { actual: cap as usize, expected: 4 }
    }

    proof fn senc_props(&self, value: &u32, cap: nat) {
        lemma_u32_wire(*value);
    }

    proof fn senc_monotone(&self, value: &u32, c1: nat, c2: nat) {
    }
}

impl<B: EncoderBuffer> Encoder<u32, B> for Big {
    fn encode_into(self, value: &u32, buffer: B) -> (r: BufResult<(), B>) {
        proof {
            lemma_u32_wire(*value);
        }
        let bytes = put_be_u32(*value);
        match buffer.encode_bytes(bytes.as_slice()) {
            Ok((_, rest)) => Ok(((), rest)),
            Err(e) => Err(e),
        }
    }
}

impl DecoderSpec<u32> for Little {
    open spec fn sdecode(&self, bytes: Seq<u8>) -> Option<(u32, nat)> {
        if bytes.len() >= 4 {
            Some((le_u32_at(bytes), 4 as nat))
        } else {
            None
        }
    }

    open spec fn sdecode_reason(&self, bytes: Seq<u8>) -> BufferErrorReason {
        BufferErrorReason::UnexpectedEof { actual: bytes.len() as usize, expected: 4 }
    }

    open spec fn sdecode_keep(&self, bytes: Seq<u8>) -> nat {
        0
    }

    proof fn sdecode_props(&self, bytes: Seq<u8>) {
    }
}

impl<B: FiniteBuffer> Decoder<u32, B> for Little {
    fn decode_from(self, buffer: B) -> (r: BufResult<u32, B>) {
        let n = buffer.len();
        if n >= 4 {
            let x = get_le_u32(buffer.as_less_safe_slice());
            match buffer.checked_split(4) {
                Ok((_, rest)) => Ok((x, rest)),
                Err(_) => vstd::pervasive::unreached(),
            }
        } else {
            proof {
                assert(buffer.sbytes().skip(0) =~= buffer.sbytes());
            }
            Err(BufferError {
                reason: BufferErrorReason::UnexpectedEof { actual: n, expected: 4 },
                buffer,
            })
        }
    }
}

impl EncoderSpec<u32> for Little {
    open spec fn senc(&self, value: &u32) -> Seq<u8> {
        le_u32_bytes(*value)
    }

    open spec fn senc_ok(&self, value: &u32, cap: nat) -> bool {
        4 <= cap
    }

    open spec fn senc_reason(&self, value: &u32, cap: nat) -> BufferErrorReason {
        BufferErrorReason::UnexpectedEof { actual: cap as usize, expected: 4 }
    }

    proof fn senc_props(&self, value: &u32, cap: nat) {
        lemma_u32_wire(*value);
    }

    proof fn senc_monotone(&self, value: &u32, c1: nat, c2: nat) {
    }
}

impl<B: EncoderBuffer> Encoder<u32, B> for Little {
    fn encode_into(self, value: &u32, buffer: B) -> (r: BufResult<(), B>) {
        proof {
            lemma_u32_wire(*value);
        }
        let bytes = put_le_u32(*value);
        match buffer.encode_bytes(bytes.as_slice()) {
            Ok((_, rest)) => Ok(((), rest)),
            Err(e) => Err(e),
        }
    }
}

impl DecoderSpec<u64> for Big {
    open spec fn sdecode(&self, bytes: Seq<u8>) -> Option<(u64, nat)> {
        if bytes.len() >= 8 {
            Some((be_u64_at(bytes), 8 as nat))
        } else {
            None
        }
    }

    open spec fn sdecode_reason(&self, bytes: Seq<u8>) -> BufferErrorReason {
        BufferErrorReason::UnexpectedEof { actual: bytes.len() as usize, expected: 8 }
    }

    open spec fn sdecode_keep(&self, bytes: Seq<u8>) -> nat {
        0
    }

    proof fn sdecode_props(&self, bytes: Seq<u8>) {
    }
}

impl<B: FiniteBuffer> Decoder<u64, B> for Big {
    fn decode_from(self, buffer: B) -> (r: BufResult<u64, B>) {
        let n = buffer.len();
        if n >= 8 {
            let x = get_be_u64(buffer.as_less_safe_slice());
            match buffer.checked_split(8) {
                Ok((_, rest)) => Ok((x, rest)),
                Err(_) => vstd::pervasive::unreached(),
            }
        } else {
            proof {
                assert(buffer.sbytes().skip(0) =~= buffer.sbytes());
            }
            Err(BufferError {
                reason: BufferErrorReason::UnexpectedEof { actual: n, expected: 8 },
                buffer,
            })
        }
    }
}

impl EncoderSpec<u64> for Big {
    open spec fn senc(&self, value: &u64) -> Seq<u8> {
        be_u64_bytes(*value)
    }

    open spec fn senc_ok(&self, value: &u64, cap: nat) -> bool {
        8 <= cap
    }

    open spec fn senc_reason(&self, value: &u64, cap: nat) -> BufferErrorReason {
        BufferErrorReason::UnexpectedEof { actual: cap as usize, expected: 8 }
    }

    proof fn senc_props(&self, value: &u64, cap: nat) {
        lemma_u64_wire(*value);
    }

    proof fn senc_monotone(&self, value: &u64, c1: nat, c2: nat) {
    }
}

impl<B: EncoderBuffer> Encoder<u64, B> for Big {
    fn encode_into(self, value: &u64, buffer: B) -> (r: BufResult<(), B>) {
        proof {
            lemma_u64_wire(*value);
        }
        let bytes = put_be_u64(*value);
        match buffer.encode_bytes(bytes.as_slice()) {
            Ok((_, rest)) => Ok(((), rest)),
            Err(e) => Err(e),
        }
    }
}

impl DecoderSpec<u64> for Little {
    open spec fn sdecode(&self, bytes: Seq<u8>) -> Option<(u64, nat)> {
        if bytes.len() >= 8 {
            Some((le_u64_at(bytes), 8 as nat))
        } else {
            None
        }
    }

    open spec fn sdecode_reason(&self, bytes: Seq<u8>) -> BufferErrorReason {
        BufferErrorReason::UnexpectedEof { actual: bytes.len() as usize, expected: 8 }
    }

    open spec fn sdecode_keep(&self, bytes: Seq<u8>) -> nat {
        0
    }

    proof fn sdecode_props(&self, bytes: Seq<u8>) {
    }
}

impl<B: FiniteBuffer> Decoder<u64, B> for Little {
    fn decode_from(self, buffer: B) -> (r: BufResult<u64, B>) {
        let n = buffer.len();
        if n >= 8 {
            let x = get_le_u64(buffer.as_less_safe_slice());
            match buffer.checked_split(8) {
                Ok((_, rest)) => Ok((x, rest)),
                Err(_) => vstd::pervasive::unreached(),
            }
        } else {
            proof {
                assert(buffer.sbytes().skip(0) =~= buffer.sbytes());
            }
            Err(BufferError {
                reason: BufferErrorReason::UnexpectedEof { actual: n, expected: 8 },
                buffer,
            })
        }
    }
}

impl EncoderSpec<u64> for Little {
    open spec fn senc(&self, value: &u64) -> Seq<u8> {
        le_u64_bytes(*value)
    }

    open spec fn senc_ok(&self, value: &u64, cap: nat) -> bool {
        8 <= cap
    }

    open spec fn senc_reason(&self, value: &u64, cap: nat) -> BufferErrorReason {
        BufferErrorReason::UnexpectedEof { actual: cap as usize, expected: 8 }
    }

    proof fn senc_props(&self, value: &u64, cap: nat) {
        lemma_u64_wire(*value);
    }

    proof fn senc_monotone(&self, value: &u64, c1: nat, c2: nat) {
    }
}

impl<B: EncoderBuffer> Encoder<u64, B> for Little {
    fn encode_into(self, value: &u64, buffer: B) -> (r: BufResult<(), B>) {
        proof {
            lemma_u64_wire(*value);
        }
        let bytes = put_le_u64(*value);
        match buffer.encode_bytes(bytes.as_slice()) {
            Ok((_, rest)) => Ok(((), rest)),
            Err(e) => Err(e),
        }
    }
}

impl DecoderSpec<i16> for Big {
    open spec fn sdecode(&self, bytes: Seq<u8>) -> Option<(i16, nat)> {
        if bytes.len() >= 2 {
            Some(((be_u16_at(bytes) as i16), 2 as nat))
        } else {
            None
        }
    }

    open spec fn sdecode_reason(&self, bytes: Seq<u8>) -> BufferErrorReason {
        BufferErrorReason::UnexpectedEof { actual: bytes.len() as usize, expected: 2 }
    }

    open spec fn sdecode_keep(&self, bytes: Seq<u8>) -> nat {
        0
    }

    proof fn sdecode_props(&self, bytes: Seq<u8>) {
    }
}

impl<B: FiniteBuffer> Decoder<i16, B> for Big {
    fn decode_from(self, buffer: B) -> (r: BufResult<i16, B>) {
        match <Big as Decoder<u16, B>>::decode_from(Big, buffer) {
            Ok((x, rest)) => Ok((x as i16, rest)),
            Err(e) => Err(e),
        }
    }
}

impl EncoderSpec<i16> for Big {
    open spec fn senc(&self, value: &i16) -> Seq<u8> {
        be_u16_bytes(*value as u16)
    }

    open spec fn senc_ok(&self, value: &i16, cap: nat) -> bool {
        2 <= cap
    }

    open spec fn senc_reason(&self, value: &i16, cap: nat) -> BufferErrorReason {
        BufferErrorReason::UnexpectedEof { actual: cap as usize, expected: 2 }
    }

    proof fn senc_props(&self, value: &i16, cap: nat) {
        lemma_u16_wire(*value as u16);
    }

    proof fn senc_monotone(&self, value: &i16, c1: nat, c2: nat) {
    }
}

impl<B: EncoderBuffer> Encoder<i16, B> for Big {
    fn encode_into(self, value: &i16, buffer: B) -> (r: BufResult<(), B>) {
        <Big as Encoder<u16, B>>::encode_into(Big, &(*value as u16), buffer)
    }
}

impl DecoderSpec<i16> for Little {
    open spec fn sdecode(&self, bytes: Seq<u8>) -> Option<(i16, nat)> {
        if bytes.len() >= 2 {
            Some(((le_u16_at(bytes) as i16), 2 as nat))
        } else {
            None
        }
    }

    open spec fn sdecode_reason(&self, bytes: Seq<u8>) -> BufferErrorReason {
        BufferErrorReason::UnexpectedEof { actual: bytes.len() as usize, expected: 2 }
    }

    open spec fn sdecode_keep(&self, bytes: Seq<u8>) -> nat {
        0
    }

    proof fn sdecode_props(&self, bytes: Seq<u8>) {
    }
}

impl<B: FiniteBuffer> Decoder<i16, B> for Little {
    fn decode_from(self, buffer: B) -> (r: BufResult<i16, B>) {
        match <Little as Decoder<u16, B>>::decode_from(Little, buffer) {
            Ok((x, rest)) => Ok((x as i16, rest)),
            Err(e) => Err(e),
        }
    }
}

impl EncoderSpec<i16> for Little {
    open spec fn senc(&self, value: &i16) -> Seq<u8> {
        le_u16_bytes(*value as u16)
    }

    open spec fn senc_ok(&self, value: &i16, cap: nat) -> bool {
        2 <= cap
    }

    open spec fn senc_reason(&self, value: &i16, cap: nat) -> BufferErrorReason {
        BufferErrorReason::UnexpectedEof { actual: cap as usize, expected: 2 }
    }

    proof fn senc_props(&self, value: &i16, cap: nat) {
        lemma_u16_wire(*value as u16);
    }

    proof fn senc_monotone(&self, value: &i16, c1: nat, c2: nat) {
    }
}

impl<B: EncoderBuffer> Encoder<i16, B> for Little {
    fn encode_into(self, value: &i16, buffer: B) -> (r: BufResult<(), B>) {
        <Little as Encoder<u16, B>>::encode_into(Little, &(*value as u16), buffer)
    }
}

impl DecoderSpec<i32> for Big {
    open spec fn sdecode(&self, bytes: Seq<u8>) -> Option<(i32, nat)> {
        if bytes.len() >= 4 {
            Some(((be_u32_at(bytes) as i32), 4 as nat))
        } else {
            None
        }
    }

    open spec fn sdecode_reason(&self, bytes: Seq<u8>) -> BufferErrorReason {
        BufferErrorReason::UnexpectedEof { actual: bytes.len() as usize, expected: 4 }
    }

    open spec fn sdecode_keep(&self, bytes: Seq<u8>) -> nat {
        0
    }

    proof fn sdecode_props(&self, bytes: Seq<u8>) {
    }
}

impl<B: FiniteBuffer> Decoder<i32, B> for Big {
    fn decode_from(self, buffer: B) -> (r: BufResult<i32, B>) {
        match <Big as Decoder<u32, B>>::decode_from(Big, buffer) {
            Ok((x, rest)) => Ok((x as i32, rest)),
            Err(e) => Err(e),
        }
    }
}

impl EncoderSpec<i32> for Big {
    open spec fn senc(&self, value: &i32) -> Seq<u8> {
        be_u32_bytes(*value as u32)
    }

    open spec fn senc_ok(&self, value: &i32, cap: nat) -> bool {
        4 <= cap
    }

    open spec fn senc_reason(&self, value: &i32, cap: nat) -> BufferErrorReason {
        BufferErrorReason::UnexpectedEof { actual: cap as usize, expected: 4 }
    }

    proof fn senc_props(&self, value: &i32, cap: nat) {
        lemma_u32_wire(*value as u32);
    }

    proof fn senc_monotone(&self, value: &i32, c1: nat, c2: nat) {
    }
}

impl<B: EncoderBuffer> Encoder<i32, B> for Big {
    fn encode_into(self, value: &i32, buffer: B) -> (r: BufResult<(), B>) {
        <Big as Encoder<u32, B>>::encode_into(Big, &(*value as u32), buffer)
    }
}

impl DecoderSpec<i32> for Little {
    open spec fn sdecode(&self, bytes: Seq<u8>) -> Option<(i32, nat)> {
        if bytes.len() >= 4 {
            Some(((le_u32_at(bytes) as i32), 4 as nat))
        } else {
            None
        }
    }

    open spec fn sdecode_reason(&self, bytes: Seq<u8>) -> BufferErrorReason {
        BufferErrorReason::UnexpectedEof { actual: bytes.len() as usize, expected: 4 }
    }

    open spec fn sdecode_keep(&self, bytes: Seq<u8>) -> nat {
        0
    }

    proof fn sdecode_props(&self, bytes: Seq<u8>) {
    }
}

impl<B: FiniteBuffer> Decoder<i32, B> for Little {
    fn decode_from(self, buffer: B) -> (r: BufResult<i32, B>) {
        match <Little as Decoder<u32, B>>::decode_from(Little, buffer) {
            Ok((x, rest)) => Ok((x as i32, rest)),
            Err(e) => Err(e),
        }
    }
}

impl EncoderSpec<i32> for Little {
    open spec fn senc(&self, value: &i32) -> Seq<u8> {
        le_u32_bytes(*value as u32)
    }

    open spec fn senc_ok(&self, value: &i32, cap: nat) -> bool {
        4 <= cap
    }

    open spec fn senc_reason(&self, value: &i32, cap: nat) -> BufferErrorReason {
        BufferErrorReason::UnexpectedEof { actual: cap as usize, expected: 4 }
    }

    proof fn senc_props(&self, value: &i32, cap: nat) {
        lemma_u32_wire(*value as u32);
    }

    proof fn senc_monotone(&self, value: &i32, c1: nat, c2: nat) {
    }
}

impl<B: EncoderBuffer> Encoder<i32, B> for Little {
    fn encode_into(self, value: &i32, buffer: B) -> (r: BufResult<(), B>) {
        <Little as Encoder<u32, B>>::encode_into(Little, &(*value as u32), buffer)
    }
}

impl DecoderSpec<i64> for Big {
    open spec fn sdecode(&self, bytes: Seq<u8>) -> Option<(i64, nat)> {
        if bytes.len() >= 8 {
            Some(((be_u64_at(bytes) as i64), 8 as nat))
        } else {
            None
        }
    }

    open spec fn sdecode_reason(&self, bytes: Seq<u8>) -> BufferErrorReason {
        BufferErrorReason::UnexpectedEof { actual: bytes.len() as usize, expected: 8 }
    }

    open spec fn sdecode_keep(&self, bytes: Seq<u8>) -> nat {
        0
    }

    proof fn sdecode_props(&self, bytes: Seq<u8>) {
    }
}

impl<B: FiniteBuffer> Decoder<i64, B> for Big {
    fn decode_from(self, buffer: B) -> (r: BufResult<i64, B>) {
        match <Big as Decoder<u64, B>>::decode_from(Big, buffer) {
            Ok((x, rest)) => Ok((x as i64, rest)),
            Err(e) => Err(e),
        }
    }
}

impl EncoderSpec<i64> for Big {
    open spec fn senc(&self, value: &i64) -> Seq<u8> {
        be_u64_bytes(*value as u64)
    }

    open spec fn senc_ok(&self, value: &i64, cap: nat) -> bool {
        8 <= cap
    }

    open spec fn senc_reason(&self, value: &i64, cap: nat) -> BufferErrorReason {
        BufferErrorReason::UnexpectedEof { actual: cap as usize, expected: 8 }
    }

    proof fn senc_props(&self, value: &i64, cap: nat) {
        lemma_u64_wire(*value as u64);
    }

    proof fn senc_monotone(&self, value: &i64, c1: nat, c2: nat) {
    }
}

impl<B: EncoderBuffer> Encoder<i64, B> for Big {
    fn encode_into(self, value: &i64, buffer: B) -> (r: BufResult<(), B>) {
        <Big as Encoder<u64, B>>::encode_into(Big, &(*value as u64), buffer)
    }
}

impl DecoderSpec<i64> for Little {
    open spec fn sdecode(&self, bytes: Seq<u8>) -> Option<(i64, nat)> {
        if bytes.len() >= 8 {
            Some(((le_u64_at(bytes) as i64), 8 as nat))
        } else {
            None
        }
    }

    open spec fn sdecode_reason(&self, bytes: Seq<u8>) -> BufferErrorReason {
        BufferErrorReason::UnexpectedEof { actual: bytes.len() as usize, expected: 8 }
    }

    open spec fn sdecode_keep(&self, bytes: Seq<u8>) -> nat {
        0
    }

    proof fn sdecode_props(&self, bytes: Seq<u8>) {
    }
}

impl<B: FiniteBuffer> Decoder<i64, B> for Little {
    fn decode_from(self, buffer: B) -> (r: BufResult<i64, B>) {
        match <Little as Decoder<u64, B>>::decode_from(Little, buffer) {
            Ok((x, rest)) => Ok((x as i64, rest)),
            Err(e) => Err(e),
        }
    }
}

impl EncoderSpec<i64> for Little {
    open spec fn senc(&self, value: &i64) -> Seq<u8> {
        le_u64_bytes(*value as u64)
    }

    open spec fn senc_ok(&self, value: &i64, cap: nat) -> bool {
        8 <= cap
    }

    open spec fn senc_reason(&self, value: &i64, cap: nat) -> BufferErrorReason {
        BufferErrorReason::UnexpectedEof { actual: cap as usize, expected: 8 }
    }

    proof fn senc_props(&self, value: &i64, cap: nat) {
        lemma_u64_wire(*value as u64);
    }

    proof fn senc_monotone(&self, value: &i64, c1: nat, c2: nat) {
    }
}

impl<B: EncoderBuffer> Encoder<i64, B> for Little {
    fn encode_into(self, value: &i64, buffer: B) -> (r: BufResult<(), B>) {
        <Little as Encoder<u64, B>>::encode_into(Little, &(*value as u64), buffer)
    }
}

impl DecoderSpec<u16> for Endian {
    open spec fn sdecode(&self, bytes: Seq<u8>) -> Option<(u16, nat)> {
        match self {
            Endian::Big => Big.sdecode(bytes),
            Endian::Little => Little.sdecode(bytes),
        }
    }

    open spec fn sdecode_reason(&self, bytes: Seq<u8>) -> BufferErrorReason {
        match self {
            Endian::Big => <Big as DecoderSpec<u16>>::sdecode_reason(&Big, bytes),
            Endian::Little => <Little as DecoderSpec<u16>>::sdecode_reason(&Little, bytes),
        }
    }

    open spec fn sdecode_keep(&self, bytes: Seq<u8>) -> nat {
        0
    }

    proof fn sdecode_props(&self, bytes: Seq<u8>) {
    }
}

impl<B: FiniteBuffer> Decoder<u16, B> for Endian {
    fn decode_from(self, buffer: B) -> (r: BufResult<u16, B>) {
        match self {
            Endian::Big => <Big as Decoder<u16, B>>::decode_from(Big, buffer),
            Endian::Little => <Little as Decoder<u16, B>>::decode_from(Little, buffer),
        }
    }
}

impl DecoderSpec<i16> for Endian {
    open spec fn sdecode(&self, bytes: Seq<u8>) -> Option<(i16, nat)> {
        match self {
            Endian::Big => Big.sdecode(bytes),
            Endian::Little => Little.sdecode(bytes),
        }
    }

    open spec fn sdecode_reason(&self, bytes: Seq<u8>) -> BufferErrorReason {
        match self {
            Endian::Big => <Big as DecoderSpec<i16>>::sdecode_reason(&Big, bytes),
            Endian::Little => <Little as DecoderSpec<i16>>::sdecode_reason(&Little, bytes),
        }
    }

    open spec fn sdecode_keep(&self, bytes: Seq<u8>) -> nat {
        0
    }

    proof fn sdecode_props(&self, bytes: Seq<u8>) {
    }
}

impl<B: FiniteBuffer> Decoder<i16, B> for Endian {
    fn decode_from(self, buffer: B) -> (r: BufResult<i16, B>) {
        match self {
            Endian::Big => <Big as Decoder<i16, B>>::decode_from(Big, buffer),
            Endian::Little => <Little as Decoder<i16, B>>::decode_from(Little, buffer),
        }
    }
}

impl DecoderSpec<u32> for Endian {
    open spec fn sdecode(&self, bytes: Seq<u8>) -> Option<(u32, nat)> {
        match self {
            Endian::Big => Big.sdecode(bytes),
            Endian::Little => Little.sdecode(bytes),
        }
    }

    open spec fn sdecode_reason(&self, bytes: Seq<u8>) -> BufferErrorReason {
        match self {
            Endian::Big => <Big as DecoderSpec<u32>>::sdecode_reason(&Big, bytes),
            Endian::Little => <Little as DecoderSpec<u32>>::sdecode_reason(&Little, bytes),
        }
    }

    open spec fn sdecode_keep(&self, bytes: Seq<u8>) -> nat {
        0
    }

    proof fn sdecode_props(&self, bytes: Seq<u8>) {
    }
}

impl<B: FiniteBuffer> Decoder<u32, B> for Endian {
    fn decode_from(self, buffer: B) -> (r: BufResult<u32, B>) {
        match self {
            Endian::Big => <Big as Decoder<u32, B>>::decode_from(Big, buffer),
            Endian::Little => <Little as Decoder<u32, B>>::decode_from(Little, buffer),
        }
    }
}

impl DecoderSpec<i32> for Endian {
    open spec fn sdecode(&self, bytes: Seq<u8>) -> Option<(i32, nat)> {
        match self {
            Endian::Big => Big.sdecode(bytes),
            Endian::Little => Little.sdecode(bytes),
        }
    }

    open spec fn sdecode_reason(&self, bytes: Seq<u8>) -> BufferErrorReason {
        match self {
            Endian::Big => <Big as DecoderSpec<i32>>::sdecode_reason(&Big, bytes),
            Endian::Little => <Little as DecoderSpec<i32>>::sdecode_reason(&Little, bytes),
        }
    }

    open spec fn sdecode_keep(&self, bytes: Seq<u8>) -> nat {
        0
    }

    proof fn sdecode_props(&self, bytes: Seq<u8>) {
    }
}

impl<B: FiniteBuffer> Decoder<i32, B> for Endian {
    fn decode_from(self, buffer: B) -> (r: BufResult<i32, B>) {
        match self {
            Endian::Big => <Big as Decoder<i32, B>>::decode_from(Big, buffer),
            Endian::Little => <Little as Decoder<i32, B>>::decode_from(Little, buffer),
        }
    }
}

impl DecoderSpec<u64> for Endian {
    open spec fn sdecode(&self, bytes: Seq<u8>) -> Option<(u64, nat)> {
        match self {
            Endian::Big => Big.sdecode(bytes),
            Endian::Little => Little.sdecode(bytes),
        }
    }

    open spec fn sdecode_reason(&self, bytes: Seq<u8>) -> BufferErrorReason {
        match self {
            Endian::Big => <Big as DecoderSpec<u64>>::sdecode_reason(&Big, bytes),
            Endian::Little => <Little as DecoderSpec<u64>>::sdecode_reason(&Little, bytes),
        }
    }

    open spec fn sdecode_keep(&self, bytes: Seq<u8>) -> nat {
        0
    }

    proof fn sdecode_props(&self, bytes: Seq<u8>) {
    }
}

impl<B: FiniteBuffer> Decoder<u64, B> for Endian {
    fn decode_from(self, buffer: B) -> (r: BufResult<u64, B>) {
        match self {
            Endian::Big => <Big as Decoder<u64, B>>::decode_from(Big, buffer),
            Endian::Little => <Little as Decoder<u64, B>>::decode_from(Little, buffer),
        }
    }
}

impl DecoderSpec<i64> for Endian {
    open spec fn sdecode(&self, bytes: Seq<u8>) -> Option<(i64, nat)> {
        match self {
            Endian::Big => Big.sdecode(bytes),
            Endian::Little => Little.sdecode(bytes),
        }
    }

    open spec fn sdecode_reason(&self, bytes: Seq<u8>) -> BufferErrorReason {
        match self {
            Endian::Big => <Big as DecoderSpec<i64>>::sdecode_reason(&Big, bytes),
            Endian::Little => <Little as DecoderSpec<i64>>::sdecode_reason(&Little, bytes),
        }
    }

    open spec fn sdecode_keep(&self, bytes: Seq<u8>) -> nat {
        0
    }

    proof fn sdecode_props(&self, bytes: Seq<u8>) {
    }
}

impl<B: FiniteBuffer> Decoder<i64, B> for Endian {
    fn decode_from(self, buffer: B) -> (r: BufResult<i64, B>) {
        match self {
            Endian::Big => <Big as Decoder<i64, B>>::decode_from(Big, buffer),
            Endian::Little => <Little as Decoder<i64, B>>::decode_from(Little, buffer),
        }
    }
}

impl DecoderSpec<u128> for Big {
    open spec fn sdecode(&self, bytes: Seq<u8>) -> Option<(u128, nat)> {
        if bytes.len() >= 16 {
            Some((be_u128_at(bytes), 16 as nat))
        } else {
            None
        }
    }

    open spec fn sdecode_reason(&self, bytes: Seq<u8>) -> BufferErrorReason {
        BufferErrorReason::UnexpectedEof { actual: bytes.len() as usize, expected: 16 }
    }

    open spec fn sdecode_keep(&self, bytes: Seq<u8>) -> nat {
        0
    }

    proof fn sdecode_props(&self, bytes: Seq<u8>) {
    }
}

impl<B: FiniteBuffer> Decoder<u128, B> for Big {
    fn decode_from(self, buffer: B) -> (r: BufResult<u128, B>) {
        let n = buffer.len();
        if n >= 16 {
            let x = get_be_u128(buffer.as_less_safe_slice());
            match buffer.checked_split(16) {
                Ok((_, rest)) => Ok((x, rest)),
                Err(_) => vstd::pervasive::unreached(),
            }
        } else {
            proof {
                assert(buffer.sbytes().skip(0) =~= buffer.sbytes());
            }
            Err(BufferError {
                reason: BufferErrorReason::UnexpectedEof { actual: n, expected: 16 },
                buffer,
            })
        }
    }
}

impl EncoderSpec<u128> for Big {
    open spec fn senc(&self, value: &u128) -> Seq<u8> {
        be_u128_bytes(*value)
    }

    open spec fn senc_ok(&self, value: &u128, cap: nat) -> bool {
        16 <= cap
    }

    open spec fn senc_reason(&self, value: &u128, cap: nat) -> BufferErrorReason {
        BufferErrorReason::UnexpectedEof { actual: cap as usize, expected: 16 }
    }

    proof fn senc_props(&self, value: &u128, cap: nat) {
        lemma_u128_wire(*value);
    }

    proof fn senc_monotone(&self, value: &u128, c1: nat, c2: nat) {
    }
}

impl<B: EncoderBuffer> Encoder<u128, B> for Big {
    fn encode_into(self, value: &u128, buffer: B) -> (r: BufResult<(), B>) {
        proof {
            lemma_u128_wire(*value);
        }
        let bytes = put_be_u128(*value);
        match buffer.encode_bytes(bytes.as_slice()) {
            Ok((_, rest)) => Ok(((), rest)),
            Err(e) => Err(e),
        }
    }
}

impl DecoderSpec<u128> for Little {
    open spec fn sdecode(&self, bytes: Seq<u8>) -> Option<(u128, nat)> {
        if bytes.len() >= 16 {
            Some((le_u128_at(bytes), 16 as nat))
        } else {
            None
        }
    }

    open spec fn sdecode_reason(&self, bytes: Seq<u8>) -> BufferErrorReason {
        BufferErrorReason::UnexpectedEof { actual: bytes.len() as usize, expected: 16 }
    }

    open spec fn sdecode_keep(&self, bytes: Seq<u8>) -> nat {
        0
    }

    proof fn sdecode_props(&self, bytes: Seq<u8>) {
    }
}

impl<B: FiniteBuffer> Decoder<u128, B> for Little {
    fn decode_from(self, buffer: B) -> (r: BufResult<u128, B>) {
        let n = buffer.len();
        if n >= 16 {
            let x = get_le_u128(buffer.as_less_safe_slice());
            match buffer.checked_split(16) {
                Ok((_, rest)) => Ok((x, rest)),
                Err(_) => vstd::pervasive::unreached(),
            }
        } else {
            proof {
                assert(buffer.sbytes().skip(0) =~= buffer.sbytes());
            }
            Err(BufferError {
                reason: BufferErrorReason::UnexpectedEof { actual: n, expected: 16 },
                buffer,
            })
        }
    }
}

impl EncoderSpec<u128> for Little {
    open spec fn senc(&self, value: &u128) -> Seq<u8> {
        le_u128_bytes(*value)
    }

    open spec fn senc_ok(&self, value: &u128, cap: nat) -> bool {
        16 <= cap
    }

    open spec fn senc_reason(&self, value: &u128, cap: nat) -> BufferErrorReason {
        BufferErrorReason::UnexpectedEof { actual: cap as usize, expected: 16 }
    }

    proof fn senc_props(&self, value: &u128, cap: nat) {
        lemma_u128_wire(*value);
    }

    proof fn senc_monotone(&self, value: &u128, c1: nat, c2: nat) {
    }
}

impl<B: EncoderBuffer> Encoder<u128, B> for Little {
    fn encode_into(self, value: &u128, buffer: B) -> (r: BufResult<(), B>) {
        proof {
            lemma_u128_wire(*value);
        }
        let bytes = put_le_u128(*value);
        match buffer.encode_bytes(bytes.as_slice()) {
            Ok((_, rest)) => Ok(((), rest)),
            Err(e) => Err(e),
        }
    }
}

impl DecoderSpec<i128> for Big {
    open spec fn sdecode(&self, bytes: Seq<u8>) -> Option<(i128, nat)> {
        if bytes.len() >= 16 {
            Some(((be_u128_at(bytes) as i128), 16 as nat))
        } else {
            None
        }
    }

    open spec fn sdecode_reason(&self, bytes: Seq<u8>) -> BufferErrorReason {
        BufferErrorReason::UnexpectedEof { actual: bytes.len() as usize, expected: 16 }
    }

    open spec fn sdecode_keep(&self, bytes: Seq<u8>) -> nat {
        0
    }

    proof fn sdecode_props(&self, bytes: Seq<u8>) {
    }
}

impl<B: FiniteBuffer> Decoder<i128, B> for Big {
    fn decode_from(self, buffer: B) -> (r: BufResult<i128, B>) {
        match <Big as Decoder<u128, B>>::decode_from(Big, buffer) {
            Ok((x, rest)) => Ok((x as i128, rest)),
            Err(e) => Err(e),
        }
    }
}

impl EncoderSpec<i128> for Big {
    open spec fn senc(&self, value: &i128) -> Seq<u8> {
        be_u128_bytes(*value as u128)
    }

    open spec fn senc_ok(&self, value: &i128, cap: nat) -> bool {
        16 <= cap
    }

    open spec fn senc_reason(&self, value: &i128, cap: nat) -> BufferErrorReason {
        BufferErrorReason::UnexpectedEof { actual: cap as usize, expected: 16 }
    }

    proof fn senc_props(&self, value: &i128, cap: nat) {
        lemma_u128_wire(*value as u128);
    }

    proof fn senc_monotone(&self, value: &i128, c1: nat, c2: nat) {
    }
}

impl<B: EncoderBuffer> Encoder<i128, B> for Big {
    fn encode_into(self, value: &i128, buffer: B) -> (r: BufResult<(), B>) {
        <Big as Encoder<u128, B>>::encode_into(Big, &(*value as u128), buffer)
    }
}

impl DecoderSpec<i128> for Little {
    open spec fn sdecode(&self, bytes: Seq<u8>) -> Option<(i128, nat)> {
        if bytes.len() >= 16 {
            Some(((le_u128_at(bytes) as i128), 16 as nat))
        } else {
            None
        }
    }

    open spec fn sdecode_reason(&self, bytes: Seq<u8>) -> BufferErrorReason {
        BufferErrorReason::UnexpectedEof { actual: bytes.len() as usize, expected: 16 }
    }

    open spec fn sdecode_keep(&self, bytes: Seq<u8>) -> nat {
        0
    }

    proof fn sdecode_props(&self, bytes: Seq<u8>) {
    }
}

impl<B: FiniteBuffer> Decoder<i128, B> for Little {
    fn decode_from(self, buffer: B) -> (r: BufResult<i128, B>) {
        match <Little as Decoder<u128, B>>::decode_from(Little, buffer) {
            Ok((x, rest)) => Ok((x as i128, rest)),
            Err(e) => Err(e),
        }
    }
}

impl EncoderSpec<i128> for Little {
    open spec fn senc(&self, value: &i128) -> Seq<u8> {
        le_u128_bytes(*value as u128)
    }

    open spec fn senc_ok(&self, value: &i128, cap: nat) -> bool {
        16 <= cap
    }

    open spec fn senc_reason(&self, value: &i128, cap: nat) -> BufferErrorReason {
        BufferErrorReason::UnexpectedEof { actual: cap as usize, expected: 16 }
    }

    proof fn senc_props(&self, value: &i128, cap: nat) {
        lemma_u128_wire(*value as u128);
    }

    proof fn senc_monotone(&self, value: &i128, c1: nat, c2: nat) {
    }
}

impl<B: EncoderBuffer> Encoder<i128, B> for Little {
    fn encode_into(self, value: &i128, buffer: B) -> (r: BufResult<(), B>) {
        <Little as Encoder<u128, B>>::encode_into(Little, &(*value as u128), buffer)
    }
}

impl DecoderSpec<u128> for Endian {
    open spec fn sdecode(&self, bytes: Seq<u8>) -> Option<(u128, nat)> {
        match self {
            Endian::Big => Big.sdecode(bytes),
            Endian::Little => Little.sdecode(bytes),
        }
    }

    open spec fn sdecode_reason(&self, bytes: Seq<u8>) -> BufferErrorReason {
        match self {
            Endian::Big => <Big as DecoderSpec<u128>>::sdecode_reason(&Big, bytes),
            Endian::Little => <Little as DecoderSpec<u128>>::sdecode_reason(&Little, bytes),
        }
    }

    open spec fn sdecode_keep(&self, bytes: Seq<u8>) -> nat {
        0
    }

    proof fn sdecode_props(&self, bytes: Seq<u8>) {
    }
}

impl<B: FiniteBuffer> Decoder<u128, B> for Endian {
    fn decode_from(self, buffer: B) -> (r: BufResult<u128, B>) {
        match self {
            Endian::Big => <Big as Decoder<u128, B>>::decode_from(Big, buffer),
            Endian::Little => <Little as Decoder<u128, B>>::decode_from(Little, buffer),
        }
    }
}

impl DecoderSpec<i128> for Endian {
    open spec fn sdecode(&self, bytes: Seq<u8>) -> Option<(i128, nat)> {
        match self {
            Endian::Big => Big.sdecode(bytes),
            Endian::Little => Little.sdecode(bytes),
        }
    }

    open spec fn sdecode_reason(&self, bytes: Seq<u8>) -> BufferErrorReason {
        match self {
            Endian::Big => <Big as DecoderSpec<i128>>::sdecode_reason(&Big, bytes),
            Endian::Little => <Little as DecoderSpec<i128>>::sdecode_reason(&Little, bytes),
        }
    }

    open spec fn sdecode_keep(&self, bytes: Seq<u8>) -> nat {
        0
    }

    proof fn sdecode_props(&self, bytes: Seq<u8>) {
    }
}

impl<B: FiniteBuffer> Decoder<i128, B> for Endian {
    fn decode_from(self, buffer: B) -> (r: BufResult<i128, B>) {
        match self {
            Endian::Big => <Big as Decoder<i128, B>>::decode_from(Big, buffer),
            Endian::Little => <Little as Decoder<i128, B>>::decode_from(Little, buffer),
        }
    }
}

} // verus!

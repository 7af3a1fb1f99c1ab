//! Typed overlays over buffer bytes.
//!
//! An overlay presents a run of exactly `size` buffer bytes as a typed
//! value. Only types for which every byte pattern of that size is a valid
//! value can be overlaid; the mapping between values and bytes is fixed per
//! type. Aligned overlays additionally require the buffer's position --
//! its offset from the origin of the region it was split from -- to be a
//! multiple of the type's alignment, and refuse the decode without
//! consuming anything otherwise.
//!
//! Multi-byte integers overlay in little-endian byte order, the in-memory
//! order of the targets this library is built for.

use vstd::prelude::*;

use crate::buffer::{
    BufResult, BufferError, BufferErrorReason, FiniteBuffer, FiniteMutBuffer, SplittableBuffer,
};
use crate::bytes::{bytes_is_materialized, bytes_mut_written_is_sbytes, Bytes, BytesMut};
use crate::decode::{Decoder, DecoderSpec};
use crate::encode::{Encodable, EncoderBuffer, TypeEncoder};
use crate::wire::{le_u16_at, le_u16_bytes, le_u32_at, le_u32_bytes, lemma_u16_wire,
    lemma_u32_wire, get_le_u16, get_le_u32, put_le_u16, put_le_u32};

verus! {

broadcast use vstd::array::group_array_axioms;

/// Compares two byte slices.
fn bytes_eq(a: &[u8], b: &[u8]) -> (r: bool)
    ensures
        r == (a@ == b@),
{
    if a.len() != b.len() {
        proof {
            assert(a@.len() != b@.len() ==> a@ != b@);
        }
        return false;
    }
    let n = a.len();
    let mut i: usize = 0;
    while i < n
        invariant
            n == a@.len() == b@.len(),
            i <= n,
            forall|k: int| 0 <= k < i ==> a@[k] == b@[k],
        decreases n - i,
    {
        if *vstd::slice::slice_index_get(a, i) != *vstd::slice::slice_index_get(b, i) {
            return false;
        }
        i = i + 1;
    }
    proof {
        assert(a@ =~= b@);
    }
    true
}

/// A type whose values correspond one-for-one to byte patterns of a fixed
/// size, so that buffer bytes can be presented as a value of it.
pub trait Overlayable: Sized {
    /// The overlay's size in bytes.
    spec fn overlay_size() -> nat;

    /// The position alignment the aligned overlay variants require.
    spec fn overlay_align() -> nat;

    /// The value a run of `overlay_size()` bytes presents.
    spec fn from_overlay(bytes: Seq<u8>) -> Self;

    /// The byte pattern of this value.
    spec fn as_overlay(&self) -> Seq<u8>;

    /// The mapping is a bijection between values and byte patterns of the
    /// overlay size.
    proof fn overlay_props(&self, bytes: Seq<u8>)
        ensures
            Self::overlay_size() >= 1,
            Self::overlay_align() >= 1,
            self.as_overlay().len() == Self::overlay_size(),
            Self::from_overlay(self.as_overlay()) == *self,
            bytes.len() == Self::overlay_size() ==> Self::from_overlay(bytes).as_overlay()
                == bytes,
    ;

    /// Reads the value a byte run presents.
    fn read_overlay(bytes: &[u8]) -> (v: Self)
        requires
            bytes@.len() == Self::overlay_size(),
        ensures
            v == Self::from_overlay(bytes@),
    ;

    /// The byte pattern of this value.
    fn write_overlay(&self) -> (v: Vec<u8>)
        ensures
            v@ == self.as_overlay(),
    ;

    /// The overlay's size in bytes.
    fn overlay_size_hint() -> (n: usize)
        ensures
            n == Self::overlay_size(),
    ;

    /// The position alignment the aligned overlay variants require.
    fn overlay_align_hint() -> (n: usize)
        ensures
            n == Self::overlay_align(),
    ;
}

impl Overlayable for u16 {
    open spec fn overlay_size() -> nat {
        2
    }

    open spec fn overlay_align() -> nat {
        2
    }

    open spec fn from_overlay(bytes: Seq<u8>) -> Self {
        le_u16_at(bytes)
    }

    open spec fn as_overlay(&self) -> Seq<u8> {
        le_u16_bytes(*self)
    }

    proof fn overlay_props(&self, bytes: Seq<u8>) {
        lemma_u16_wire(*self);
        if bytes.len() == 2 {
            vstd::bytes::lemma_auto_spec_u16_to_from_le_bytes();
            assert(bytes.take(2) =~= bytes);
        }
    }

    fn read_overlay(bytes: &[u8]) -> (v: Self) {
        get_le_u16(bytes)
    }

    fn write_overlay(&self) -> (v: Vec<u8>) {
        put_le_u16(*self)
    }

    fn overlay_size_hint() -> (n: usize) {
        2
    }

    fn overlay_align_hint() -> (n: usize) {
        2
    }
}

impl Overlayable for u32 {
    open spec fn overlay_size() -> nat {
        4
    }

    open spec fn overlay_align() -> nat {
        4
    }

    open spec fn from_overlay(bytes: Seq<u8>) -> Self {
        le_u32_at(bytes)
    }

    open spec fn as_overlay(&self) -> Seq<u8> {
        le_u32_bytes(*self)
    }

    proof fn overlay_props(&self, bytes: Seq<u8>) {
        lemma_u32_wire(*self);
        if bytes.len() == 4 {
            vstd::bytes::lemma_auto_spec_u32_to_from_le_bytes();
            assert(bytes.take(4) =~= bytes);
        }
    }

    fn read_overlay(bytes: &[u8]) -> (v: Self) {
        get_le_u32(bytes)
    }

    fn write_overlay(&self) -> (v: Vec<u8>) {
        put_le_u32(*self)
    }

    fn overlay_size_hint() -> (n: usize) {
        4
    }

    fn overlay_align_hint() -> (n: usize) {
        4
    }
}

impl Overlayable for [u8; 2] {
    open spec fn overlay_size() -> nat {
        2
    }

    open spec fn overlay_align() -> nat {
        1
    }

    open spec fn from_overlay(bytes: Seq<u8>) -> Self {
        [bytes[0], bytes[1]]
    }

    open spec fn as_overlay(&self) -> Seq<u8> {
        self@
    }

    proof fn overlay_props(&self, bytes: Seq<u8>) {
        assert(Self::from_overlay(self.as_overlay()) =~= *self);
        if bytes.len() == 2 {
            assert(Self::from_overlay(bytes).as_overlay() =~= bytes);
        }
    }

    fn read_overlay(bytes: &[u8]) -> (v: Self) {
        let v = [*vstd::slice::slice_index_get(bytes, 0), *vstd::slice::slice_index_get(bytes, 1)];
        proof {
            assert(v =~= Self::from_overlay(bytes@));
        }
        v
    }

    fn write_overlay(&self) -> (v: Vec<u8>) {
        let mut v: Vec<u8> = Vec::new();
        v.push(*vstd::array::array_index_get(self, 0));
        v.push(*vstd::array::array_index_get(self, 1));
        proof {
            assert(v@ =~= self.as_overlay());
        }
        v
    }

    fn overlay_size_hint() -> (n: usize) {
        2
    }

    fn overlay_align_hint() -> (n: usize) {
        1
    }
}

impl Overlayable for [u8; 4] {
    open spec fn overlay_size() -> nat {
        4
    }

    open spec fn overlay_align() -> nat {
        1
    }

    open spec fn from_overlay(bytes: Seq<u8>) -> Self {
        [bytes[0], bytes[1], bytes[2], bytes[3]]
    }

    open spec fn as_overlay(&self) -> Seq<u8> {
        self@
    }

    proof fn overlay_props(&self, bytes: Seq<u8>) {
        assert(Self::from_overlay(self.as_overlay()) =~= *self);
        if bytes.len() == 4 {
            assert(Self::from_overlay(bytes).as_overlay() =~= bytes);
        }
    }

    fn read_overlay(bytes: &[u8]) -> (v: Self) {
        let v = [
            *vstd::slice::slice_index_get(bytes, 0),
            *vstd::slice::slice_index_get(bytes, 1),
            *vstd::slice::slice_index_get(bytes, 2),
            *vstd::slice::slice_index_get(bytes, 3),
        ];
        proof {
            assert(v =~= Self::from_overlay(bytes@));
        }
        v
    }

    fn write_overlay(&self) -> (v: Vec<u8>) {
        let mut v: Vec<u8> = Vec::new();
        v.push(*vstd::array::array_index_get(self, 0));
        v.push(*vstd::array::array_index_get(self, 1));
        v.push(*vstd::array::array_index_get(self, 2));
        v.push(*vstd::array::array_index_get(self, 3));
        proof {
            assert(v@ =~= self.as_overlay());
        }
        v
    }

    fn overlay_size_hint() -> (n: usize) {
        4
    }

    fn overlay_align_hint() -> (n: usize) {
        1
    }
}

/// A buffer whose length has been verified to match an overlay type's
/// size, so that presenting it as a typed value is in bounds.
#[derive(Debug)]
pub struct VerifiedBuffer<B> {
    buffer: B,
}

impl<B> VerifiedBuffer<B> {
    /// The buffer inside.
    pub closed spec fn sbuffer(&self) -> B {
        self.buffer
    }
}

/// A read-only overlay: a typed view of exactly `T::overlay_size()` bytes
/// split off a source buffer.
#[derive(Debug)]
pub struct Ref<T, B: FiniteBuffer> {
    buffer: VerifiedBuffer<B>,
    value: T,
}

#[verifier::type_invariant]
spec fn ref_inv<T, B: FiniteBuffer>(r: Ref<T, B>) -> bool {
    r.buffer.buffer.materialized()
}

impl<T, B: FiniteBuffer> Ref<T, B> {
    /// The bytes the overlay covers.
    pub closed spec fn overlay_bytes(&self) -> Seq<u8> {
        self.buffer.buffer.sbytes()
    }

    /// The value those bytes present.
    pub closed spec fn overlay_value(&self) -> T {
        self.value
    }
}

impl<T: Overlayable, B: FiniteBuffer> Ref<T, B> {
    /// Splits exactly `T::overlay_size()` bytes off `buffer` and presents
    /// them as a `T`.
    pub fn decode_type(buffer: B) -> (r: BufResult<Self, B>)
        requires
            buffer.materialized(),
        ensures
            T::overlay_size() <= buffer.sbytes().len() ==> (match r {
                Ok((overlay, rest)) => {
                    &&& overlay.overlay_bytes() == buffer.sbytes().take(
                        T::overlay_size() as int,
                    )
                    &&& overlay.overlay_value() == T::from_overlay(
                        buffer.sbytes().take(T::overlay_size() as int),
                    )
                    &&& rest.sbytes() == buffer.sbytes().skip(T::overlay_size() as int)
                    &&& rest.materialized()
                },
                Err(_) => false,
            }),
            T::overlay_size() > buffer.sbytes().len() ==> (match r {
                Ok(_) => false,
                Err(e) => {
                    &&& e.buffer == buffer
                    &&& e.reason == (BufferErrorReason::UnexpectedEof {
                        actual: buffer.sbytes().len() as usize,
                        expected: T::overlay_size() as usize,
                    })
                },
            }),
    {
        let size = T::overlay_size_hint();
        let n = buffer.len();
        if size <= n {
            let value = {
                let view = buffer.as_less_safe_slice();
                let head = vstd::slice::slice_subrange(view, 0, size);
                proof {
                    assert(head@ =~= buffer.sbytes().take(T::overlay_size() as int));
                }
                T::read_overlay(head)
            };
            match buffer.checked_split(size) {
                Ok((slice, rest)) => {
                    Ok((Ref { buffer: VerifiedBuffer { buffer: slice }, value }, rest))
                },
                Err(_) => vstd::pervasive::unreached(),
            }
        } else {
            Err(BufferError {
                reason: BufferErrorReason::UnexpectedEof { actual: n, expected: size },
                buffer,
            })
        }
    }

    /// The raw bytes backing the overlay.
    pub fn as_bytes(&self) -> (r: &[u8])
        ensures
            r@ == self.overlay_bytes(),
    {
        proof {
            use_type_invariant(&*self);
        }
        self.buffer.buffer.as_less_safe_slice()
    }

    /// The typed view of the bytes.
    pub fn get(&self) -> (r: &T)
        ensures
            *r == self.overlay_value(),
    {
        &self.value
    }
}

impl<T: Overlayable, B: FiniteBuffer> PartialEq<T> for Ref<T, B> {
    fn eq(&self, other: &T) -> (r: bool) {
        let mine = self.as_bytes();
        let theirs = other.write_overlay();
        bytes_eq(mine, theirs.as_slice())
    }
}

impl<T: Overlayable, B: FiniteBuffer> vstd::std_specs::cmp::PartialEqSpecImpl<T> for Ref<T, B> {
    open spec fn obeys_eq_spec() -> bool {
        true
    }

    open spec fn eq_spec(&self, other: &T) -> bool {
        self.overlay_bytes() == other.as_overlay()
    }
}

impl<T: Overlayable, B: FiniteBuffer> Encodable for Ref<T, B> {
    closed spec fn encoding(&self) -> Seq<u8> {
        self.buffer.buffer.sbytes()
    }

    closed spec fn enc_ok(&self, cap: nat) -> bool {
        self.buffer.buffer.sbytes().len() <= cap
    }

    closed spec fn enc_reason(&self, cap: nat) -> BufferErrorReason {
        BufferErrorReason::UnexpectedEof {
            actual: cap as usize,
            expected: self.buffer.buffer.sbytes().len() as usize,
        }
    }

    proof fn enc_props(&self, cap: nat) {
    }

    proof fn enc_monotone(&self, c1: nat, c2: nat) {
    }
}

impl<T: Overlayable, B: FiniteBuffer, E: EncoderBuffer> TypeEncoder<E> for Ref<T, B> {
    fn encode_type(&self, buffer: E) -> (r: BufResult<(), E>) {
        proof {
            use_type_invariant(&*self);
        }
        match buffer.encode_bytes(self.buffer.buffer.as_less_safe_slice()) {
            Ok((_, rest)) => Ok(((), rest)),
            Err(e) => Err(e),
        }
    }
}

/// A mutable overlay: like [`Ref`], over a writable buffer, with the
/// typed value replaceable in place.
#[derive(Debug)]
pub struct Mut<T, B: FiniteMutBuffer> {
    buffer: VerifiedBuffer<B>,
    value: T,
}

#[verifier::type_invariant]
spec fn mut_inv<T, B: FiniteMutBuffer>(m: Mut<T, B>) -> bool {
    m.buffer.buffer.materialized()
}

impl<T, B: FiniteMutBuffer> Mut<T, B> {
    /// The bytes the overlay covers.
    pub closed spec fn overlay_bytes(&self) -> Seq<u8> {
        self.buffer.buffer.sbytes()
    }

    /// The value those bytes present.
    pub closed spec fn overlay_value(&self) -> T {
        self.value
    }
}

impl<T: Overlayable, B: FiniteMutBuffer> Mut<T, B> {
    /// Splits exactly `T::overlay_size()` bytes off `buffer` and presents
    /// them as a writable `T`.
    pub fn decode_type(buffer: B) -> (r: BufResult<Self, B>)
        requires
            buffer.materialized(),
        ensures
            T::overlay_size() <= buffer.sbytes().len() ==> (match r {
                Ok((overlay, rest)) => {
                    &&& overlay.overlay_bytes() == buffer.sbytes().take(
                        T::overlay_size() as int,
                    )
                    &&& overlay.overlay_value() == T::from_overlay(
                        buffer.sbytes().take(T::overlay_size() as int),
                    )
                    &&& rest.sbytes() == buffer.sbytes().skip(T::overlay_size() as int)
                    &&& rest.materialized()
                },
                Err(_) => false,
            }),
            T::overlay_size() > buffer.sbytes().len() ==> (match r {
                Ok(_) => false,
                Err(e) => {
                    &&& e.buffer == buffer
                    &&& e.reason == (BufferErrorReason::UnexpectedEof {
                        actual: buffer.sbytes().len() as usize,
                        expected: T::overlay_size() as usize,
                    })
                },
            }),
    {
        let size = T::overlay_size_hint();
        let n = buffer.len();
        if size <= n {
            let value = {
                let view = buffer.as_less_safe_slice();
                let head = vstd::slice::slice_subrange(view, 0, size);
                proof {
                    assert(head@ =~= buffer.sbytes().take(T::overlay_size() as int));
                }
                T::read_overlay(head)
            };
            match buffer.checked_split(size) {
                Ok((slice, rest)) => {
                    Ok((Mut { buffer: VerifiedBuffer { buffer: slice }, value }, rest))
                },
                Err(_) => vstd::pervasive::unreached(),
            }
        } else {
            Err(BufferError {
                reason: BufferErrorReason::UnexpectedEof { actual: n, expected: size },
                buffer,
            })
        }
    }

    /// The raw bytes backing the overlay.
    pub fn as_bytes(&self) -> (r: &[u8])
        ensures
            r@ == self.overlay_bytes(),
    {
        proof {
            use_type_invariant(&*self);
        }
        self.buffer.buffer.as_less_safe_slice()
    }

    /// The typed view of the bytes.
    pub fn get(&self) -> (r: &T)
        ensures
            *r == self.overlay_value(),
    {
        &self.value
    }

    /// Replaces the typed value, writing its byte pattern through to the
    /// underlying bytes.
    pub fn set(self, value: T) -> (r: Self)
        requires
            self.overlay_bytes().len() == T::overlay_size(),
        ensures
            r.overlay_value() == value,
            r.overlay_bytes() == value.as_overlay(),
    {
        proof {
            use_type_invariant(&self);
            value.overlay_props(Seq::<u8>::empty());
        }
        let bytes = value.write_overlay();
        let inner = self.buffer.buffer.overwrite(bytes.as_slice());
        Mut { buffer: VerifiedBuffer { buffer: inner }, value }
    }
}

impl<T: Overlayable, B: FiniteMutBuffer> PartialEq<T> for Mut<T, B> {
    fn eq(&self, other: &T) -> (r: bool) {
        let mine = self.as_bytes();
        let theirs = other.write_overlay();
        bytes_eq(mine, theirs.as_slice())
    }
}

impl<T: Overlayable, B: FiniteMutBuffer> vstd::std_specs::cmp::PartialEqSpecImpl<T> for Mut<T, B> {
    open spec fn obeys_eq_spec() -> bool {
        true
    }

    open spec fn eq_spec(&self, other: &T) -> bool {
        self.overlay_bytes() == other.as_overlay()
    }
}

/// The plain-value overlay strategy: decodes through a read-only overlay
/// and immediately copies the value out, discarding the view.
#[derive(Clone, Copy, Debug)]
pub struct Deref;

impl<T: Overlayable> DecoderSpec<T> for Deref {
    open spec fn sdecode(&self, bytes: Seq<u8>) -> Option<(T, nat)> {
        if T::overlay_size() <= bytes.len() {
            Some((T::from_overlay(bytes.take(T::overlay_size() as int)), T::overlay_size()))
        } else {
            None
        }
    }

    open spec fn sdecode_reason(&self, bytes: Seq<u8>) -> BufferErrorReason {
        BufferErrorReason::UnexpectedEof {
            actual: bytes.len() as usize,
            expected: T::overlay_size() as usize,
        }
    }

    open spec fn sdecode_keep(&self, bytes: Seq<u8>) -> nat {
        0
    }

    proof fn sdecode_props(&self, bytes: Seq<u8>) {
    }
}

impl<T: Overlayable + Copy, B: FiniteBuffer> Decoder<T, B> for Deref {
    fn decode_from(self, buffer: B) -> (r: BufResult<T, B>) {
        proof {
            assert(buffer.sbytes().skip(0) =~= buffer.sbytes());
        }
        match Ref::<T, B>::decode_type(buffer) {
            Ok((overlay, rest)) => Ok((*overlay.get(), rest)),
            Err(e) => Err(e),
        }
    }
}

impl<T: Overlayable> Ref<T, Bytes> {
    /// Like [`Ref::decode_type`], additionally requiring the buffer's
    /// position to satisfy the overlay type's alignment; a misaligned
    /// buffer is refused whole, with nothing consumed.
    pub fn decode_aligned(buffer: Bytes) -> (r: BufResult<Self, Bytes>)
        ensures
            buffer.pos() % T::overlay_align() != 0 ==> (match r {
                Ok(_) => false,
                Err(e) => {
                    &&& e.buffer == buffer
                    &&& e.reason == (BufferErrorReason::UnexpectedAlignment {
                        misalignment: (buffer.pos() % T::overlay_align()) as usize,
                        requirement: T::overlay_align() as usize,
                    })
                },
            }),
            buffer.pos() % T::overlay_align() == 0 && T::overlay_size() <= buffer.sbytes().len()
                ==> (match r {
                Ok((overlay, rest)) => {
                    &&& overlay.overlay_bytes() == buffer.sbytes().take(
                        T::overlay_size() as int,
                    )
                    &&& overlay.overlay_value() == T::from_overlay(
                        buffer.sbytes().take(T::overlay_size() as int),
                    )
                    &&& rest.sbytes() == buffer.sbytes().skip(T::overlay_size() as int)
                    &&& rest.pos() == buffer.pos() + T::overlay_size()
                },
                Err(_) => false,
            }),
            buffer.pos() % T::overlay_align() == 0 && T::overlay_size() > buffer.sbytes().len()
                ==> (match r {
                Ok(_) => false,
                Err(e) => {
                    &&& e.buffer == buffer
                    &&& e.reason == (BufferErrorReason::UnexpectedEof {
                        actual: buffer.sbytes().len() as usize,
                        expected: T::overlay_size() as usize,
                    })
                },
            }),
    {
        let requirement = T::overlay_align_hint();
        proof {
            T::from_overlay(Seq::<u8>::empty()).overlay_props(Seq::<u8>::empty());
            bytes_is_materialized(&buffer);
        }
        let misalignment = buffer.position() % requirement;
        if misalignment != 0 {
            Err(BufferError {
                reason: BufferErrorReason::UnexpectedAlignment { misalignment, requirement },
                buffer,
            })
        } else {
            let size = T::overlay_size_hint();
            let n = buffer.len();
            if size <= n {
                let value = {
                    let view = buffer.as_less_safe_slice();
                    let head = vstd::slice::slice_subrange(view, 0, size);
                    proof {
                        assert(head@ =~= buffer.sbytes().take(T::overlay_size() as int));
                    }
                    T::read_overlay(head)
                };
                match buffer.checked_split(size) {
                    Ok((slice, rest)) => {
                        Ok((Ref { buffer: VerifiedBuffer { buffer: slice }, value }, rest))
                    },
                    Err(_) => vstd::pervasive::unreached(),
                }
            } else {
                Err(BufferError {
                    reason: BufferErrorReason::UnexpectedEof { actual: n, expected: size },
                    buffer,
                })
            }
        }
    }
}

impl<T: Overlayable> Mut<T, BytesMut> {
    /// Like [`Mut::decode_type`], additionally requiring the buffer's
    /// position to satisfy the overlay type's alignment; a misaligned
    /// buffer is refused whole, with nothing consumed.
    pub fn decode_aligned(buffer: BytesMut) -> (r: BufResult<Self, BytesMut>)
        ensures
            buffer.pos() % T::overlay_align() != 0 ==> (match r {
                Ok(_) => false,
                Err(e) => {
                    &&& e.buffer == buffer
                    &&& e.reason == (BufferErrorReason::UnexpectedAlignment {
                        misalignment: (buffer.pos() % T::overlay_align()) as usize,
                        requirement: T::overlay_align() as usize,
                    })
                },
            }),
            buffer.pos() % T::overlay_align() == 0 && T::overlay_size() <= buffer.sbytes().len()
                ==> (match r {
                Ok((overlay, rest)) => {
                    &&& overlay.overlay_bytes() == buffer.sbytes().take(
                        T::overlay_size() as int,
                    )
                    &&& overlay.overlay_value() == T::from_overlay(
                        buffer.sbytes().take(T::overlay_size() as int),
                    )
                    &&& rest.sbytes() == buffer.sbytes().skip(T::overlay_size() as int)
                    &&& rest.pos() == buffer.pos() + T::overlay_size()
                },
                Err(_) => false,
            }),
            buffer.pos() % T::overlay_align() == 0 && T::overlay_size() > buffer.sbytes().len()
                ==> (match r {
                Ok(_) => false,
                Err(e) => {
                    &&& e.buffer == buffer
                    &&& e.reason == (BufferErrorReason::UnexpectedEof {
                        actual: buffer.sbytes().len() as usize,
                        expected: T::overlay_size() as usize,
                    })
                },
            }),
    {
        let requirement = T::overlay_align_hint();
        proof {
            T::from_overlay(Seq::<u8>::empty()).overlay_props(Seq::<u8>::empty());
            bytes_mut_written_is_sbytes(&buffer);
        }
        let misalignment = buffer.position() % requirement;
        if misalignment != 0 {
            Err(BufferError {
                reason: BufferErrorReason::UnexpectedAlignment { misalignment, requirement },
                buffer,
            })
        } else {
            let size = T::overlay_size_hint();
            let n = buffer.len();
            if size <= n {
                let value = {
                    let view = buffer.as_less_safe_slice();
                    let head = vstd::slice::slice_subrange(view, 0, size);
                    proof {
                        assert(head@ =~= buffer.sbytes().take(T::overlay_size() as int));
                    }
                    T::read_overlay(head)
                };
                match buffer.checked_split(size) {
                    Ok((slice, rest)) => {
                        Ok((Mut { buffer: VerifiedBuffer { buffer: slice }, value }, rest))
                    },
                    Err(_) => vstd::pervasive::unreached(),
                }
            } else {
                Err(BufferError {
                    reason: BufferErrorReason::UnexpectedEof { actual: n, expected: size },
                    buffer,
                })
            }
        }
    }
}

impl Bytes {
    /// Checks that this buffer's position satisfies `T`'s alignment
    /// requirement, handing the buffer back either way.
    pub fn ensure_alignment<T: Overlayable>(self) -> (r: BufResult<(), Bytes>)
        ensures
            self.pos() % T::overlay_align() == 0 ==> r == Ok::<((), Bytes), BufferError<Bytes>>((
                (),
                self,
            )),
            self.pos() % T::overlay_align() != 0 ==> (match r {
                Ok(_) => false,
                Err(e) => {
                    &&& e.buffer == self
                    &&& e.reason == (BufferErrorReason::UnexpectedAlignment {
                        misalignment: (self.pos() % T::overlay_align()) as usize,
                        requirement: T::overlay_align() as usize,
                    })
                },
            }),
    {
        let requirement = T::overlay_align_hint();
        proof {
            T::from_overlay(Seq::<u8>::empty()).overlay_props(Seq::<u8>::empty());
        }
        let misalignment = self.position() % requirement;
        if misalignment == 0 {
            Ok(((), self))
        } else {
            Err(BufferError {
                reason: BufferErrorReason::UnexpectedAlignment { misalignment, requirement },
                buffer: self,
            })
        }
    }
}

impl BytesMut {
    /// Checks that this buffer's position satisfies `T`'s alignment
    /// requirement, handing the buffer back either way.
    pub fn ensure_alignment<T: Overlayable>(self) -> (r: BufResult<(), BytesMut>)
        ensures
            self.pos() % T::overlay_align() == 0 ==> r == Ok::<
                ((), BytesMut),
                BufferError<BytesMut>,
            >(((), self)),
            self.pos() % T::overlay_align() != 0 ==> (match r {
                Ok(_) => false,
                Err(e) => {
                    &&& e.buffer == self
                    &&& e.reason == (BufferErrorReason::UnexpectedAlignment {
                        misalignment: (self.pos() % T::overlay_align()) as usize,
                        requirement: T::overlay_align() as usize,
                    })
                },
            }),
    {
        let requirement = T::overlay_align_hint();
        proof {
            T::from_overlay(Seq::<u8>::empty()).overlay_props(Seq::<u8>::empty());
        }
        let misalignment = self.position() % requirement;
        if misalignment == 0 {
            Ok(((), self))
        } else {
            Err(BufferError {
                reason: BufferErrorReason::UnexpectedAlignment { misalignment, requirement },
                buffer: self,
            })
        }
    }
}

impl<T: Overlayable, B: FiniteMutBuffer> Encodable for Mut<T, B> {
    closed spec fn encoding(&self) -> Seq<u8> {
        self.buffer.buffer.sbytes()
    }

    closed spec fn enc_ok(&self, cap: nat) -> bool {
        self.buffer.buffer.sbytes().len() <= cap
    }

    closed spec fn enc_reason(&self, cap: nat) -> BufferErrorReason {
        BufferErrorReason::UnexpectedEof {
            actual: cap as usize,
            expected: self.buffer.buffer.sbytes().len() as usize,
        }
    }

    proof fn enc_props(&self, cap: nat) {
    }

    proof fn enc_monotone(&self, c1: nat, c2: nat) {
    }
}

impl<T: Overlayable, B: FiniteMutBuffer, E: EncoderBuffer> TypeEncoder<E> for Mut<T, B> {
    fn encode_type(&self, buffer: E) -> (r: BufResult<(), E>) {
        proof {
            use_type_invariant(&*self);
        }
        match buffer.encode_bytes(self.buffer.buffer.as_less_safe_slice()) {
            Ok((_, rest)) => Ok(((), rest)),
            Err(e) => Err(e),
        }
    }
}

/// What an overlay encodes as: exactly its backing bytes, whenever they
/// fit the remaining capacity.
pub proof fn lemma_ref_encoding<T: Overlayable, B: FiniteBuffer>(overlay: &Ref<T, B>, cap: nat)
    ensures
        overlay.encoding() == overlay.overlay_bytes(),
        overlay.enc_ok(cap) <==> overlay.overlay_bytes().len() <= cap,
{
}

/// What an overlay encodes as: exactly its backing bytes, whenever they
/// fit the remaining capacity.
pub proof fn lemma_mut_encoding<T: Overlayable, B: FiniteMutBuffer>(overlay: &Mut<T, B>, cap: nat)
    ensures
        overlay.encoding() == overlay.overlay_bytes(),
        overlay.enc_ok(cap) <==> overlay.overlay_bytes().len() <= cap,
{
}

} // verus!

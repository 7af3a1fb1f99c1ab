//! Tag-length-value framing.
//!
//! A TLV composes a tag codec with length-prefix framing of the value,
//! producing the standard `[tag][length prefix][value bytes]` wire layout.

use vstd::prelude::*;

use crate::buffer::{BufResult, BufferError, BufferErrorReason, FiniteBuffer};
use crate::decode::{Decodable, TypeDecoder};
use crate::encode::{Encodable, Encoder, EncoderBuffer, EncoderSpec, TypeEncoder};
use crate::estimator::LenEstimator;
use crate::len::{lemma_len_prefix_round_trip, LenPrefix, LenPrefixed, UintLen};

verus! {

/// A tagged, length-prefixed value.
#[derive(Clone, Copy, Debug)]
pub struct TLV<T, L, V> {
    pub tag: T,
    pub len: LenPrefix<L>,
    pub value: V,
}

impl<T: Decodable, L: UintLen, V: Decodable> Decodable for TLV<T, L, V> {
    open spec fn sdecoded(bytes: Seq<u8>) -> Option<(Self, nat)> {
        match T::sdecoded(bytes) {
            Some((tag, nt)) => match LenPrefixed::<V, L>::sdecoded(bytes.skip(nt as int)) {
                Some((p, nv)) => Some((
                    TLV { tag, len: LenPrefix::<L>::spec_new(), value: p.value },
                    (nt + nv) as nat,
                )),
                None => None,
            },
            None => None,
        }
    }

    open spec fn sdec_reason(bytes: Seq<u8>) -> BufferErrorReason {
        match T::sdecoded(bytes) {
            Some((tag, nt)) => LenPrefixed::<V, L>::sdec_reason(bytes.skip(nt as int)),
            None => T::sdec_reason(bytes),
        }
    }

    open spec fn sdec_keep(bytes: Seq<u8>) -> nat {
        match T::sdecoded(bytes) {
            Some((tag, nt)) => (nt + LenPrefixed::<V, L>::sdec_keep(bytes.skip(nt as int))) as nat,
            None => T::sdec_keep(bytes),
        }
    }

    proof fn sdec_props(bytes: Seq<u8>) {
        T::sdec_props(bytes);
        match T::sdecoded(bytes) {
            Some((tag, nt)) => LenPrefixed::<V, L>::sdec_props(bytes.skip(nt as int)),
            None => (),
        }
    }
}

impl<
    Buf: FiniteBuffer,
    T: TypeDecoder<Buf>,
    L: TypeDecoder<Buf> + UintLen,
    V: TypeDecoder<Buf>,
> TypeDecoder<Buf> for TLV<T, L, V> {
    fn decode_type(buffer: Buf) -> (r: BufResult<Self, Buf>) {
        let ghost bytes = buffer.sbytes();
        match T::decode_type(buffer) {
            Ok((tag, rest1)) => {
                let ghost nt = bytes.len() - rest1.sbytes().len();
                proof {
                    T::sdec_props(bytes);
                    assert(rest1.sbytes() == bytes.skip(nt as int));
                }
                match LenPrefixed::<V, L>::decode_type(rest1) {
                    Ok((p, rest2)) => {
                        let ghost nv = rest1.sbytes().len() - rest2.sbytes().len();
                        proof {
                            LenPrefixed::<V, L>::sdec_props(bytes.skip(nt as int));
                            assert(bytes.skip(nt as int).skip(nv as int) =~= bytes.skip(
                                nt + nv,
                            ));
                        }
                        Ok((TLV { tag, len: LenPrefix::new::<L>(), value: p.value }, rest2))
                    },
                    Err(e) => {
                        proof {
                            LenPrefixed::<V, L>::sdec_props(bytes.skip(nt as int));
                            let keep = LenPrefixed::<V, L>::sdec_keep(bytes.skip(nt as int));
                            assert(bytes.skip(nt as int).skip(keep as int) =~= bytes.skip(
                                nt + keep,
                            ));
                        }
                        Err(e)
                    },
                }
            },
            Err(e) => Err(e),
        }
    }
}

impl<T: Encodable, L: UintLen, V: Encodable> Encodable for TLV<T, L, V> {
    open spec fn encoding(&self) -> Seq<u8> {
        self.tag.encoding() + self.len.senc(&self.value)
    }

    open spec fn enc_ok(&self, cap: nat) -> bool {
        &&& self.tag.enc_ok(cap)
        &&& self.len.senc_ok(&self.value, (cap - self.tag.encoding().len()) as nat)
    }

    open spec fn enc_reason(&self, cap: nat) -> BufferErrorReason {
        if !self.tag.enc_ok(cap) {
            self.tag.enc_reason(cap)
        } else {
            self.len.senc_reason(&self.value, (cap - self.tag.encoding().len()) as nat)
        }
    }

    proof fn enc_props(&self, cap: nat) {
        self.tag.enc_props(cap);
        if self.tag.enc_ok(cap) {
            self.len.senc_props(&self.value, (cap - self.tag.encoding().len()) as nat);
        }
    }

    proof fn enc_monotone(&self, c1: nat, c2: nat) {
        self.tag.enc_monotone(c1, c2);
        if self.tag.enc_ok(c1) {
            self.tag.enc_props(c1);
            self.len.senc_monotone(
                &self.value,
                (c1 - self.tag.encoding().len()) as nat,
                (c2 - self.tag.encoding().len()) as nat,
            );
        }
    }
}

impl<Buf, T, L, V> TypeEncoder<Buf> for TLV<T, L, V> where
    Buf: EncoderBuffer,
    T: TypeEncoder<Buf>,
    L: TypeEncoder<Buf> + TypeEncoder<LenEstimator> + UintLen,
    V: TypeEncoder<Buf> + TypeEncoder<LenEstimator>,
 {
    fn encode_type(&self, buffer: Buf) -> (r: BufResult<(), Buf>) {
        let cap0 = buffer.encoder_capacity();
        let ghost w0 = buffer.written();
        proof {
            self.tag.enc_props(buffer.capacity());
        }
        match self.tag.encode_type(buffer) {
            Ok(((), buf1)) => {
                let strategy = self.len;
                match strategy.encode_into(&self.value, buf1) {
                    Ok(((), buf2)) => {
                        proof {
                            assert(w0 + self.tag.encoding() + self.len.senc(&self.value) =~= w0
                                + (self.tag.encoding() + self.len.senc(&self.value)));
                        }
                        Ok(((), buf2))
                    },
                    Err(e) => {
                        let cap1 = e.buffer.encoder_capacity();
                        let written0 = cap0 - cap1;
                        let rolled = e.buffer.rollback(written0);
                        proof {
                            assert((w0 + self.tag.encoding()).take(w0.len() as int) =~= w0);
                        }
                        Err(BufferError { buffer: rolled, reason: e.reason })
                    },
                }
            },
            Err(e) => Err(e),
        }
    }
}

/// Tag-length-value round trip: for a tag carried by a fixed-width
/// unsigned codec and a value whose own codec reproduces it from exactly
/// its encoding, decoding the TLV's output reproduces tag and value,
/// consuming the whole frame.
pub proof fn lemma_tlv_round_trip<T: UintLen, L: UintLen, V: Decodable + Encodable>(
    tlv: &TLV<T, L, V>,
)
    requires
        tlv.len == LenPrefix::<L>::spec_new(),
        V::sdecoded(tlv.value.encoding()) == Some((tlv.value, tlv.value.encoding().len() as nat)),
        tlv.value.encoding().len() <= L::max_spec(),
    ensures
        TLV::<T, L, V>::sdecoded(tlv.encoding()) == Some((
            *tlv,
            (T::width_spec() + L::width_spec() + tlv.value.encoding().len()) as nat,
        )),
        tlv.encoding().len() == T::width_spec() + L::width_spec() + tlv.value.encoding().len(),
{
    tlv.tag.uint_len_props();
    lemma_len_prefix_round_trip::<V, L>(tlv.len, &tlv.value);
    let framed = <LenPrefix<L> as EncoderSpec<V>>::senc(&tlv.len, &tlv.value);
    assert(T::sdecoded(tlv.tag.encoding() + framed) == Some((tlv.tag, T::width_spec())));
    assert((tlv.tag.encoding() + framed).skip(T::width_spec() as int) =~= framed);
}

} // verus!

//! The encode protocol.
//!
//! An encodable value carries a specification of the exact bytes it encodes
//! to ([`Encodable`]) and an executable encoder over any encoder buffer
//! ([`TypeEncoder`]). Encoder buffers track their remaining capacity, accept
//! raw bytes, and can roll written bytes back so that a failed composite
//! encode leaves no partial write behind.

use vstd::prelude::*;

use crate::buffer::{BufResult, BufferError, BufferErrorReason};
use crate::estimator::{LenEstimator, LenResult};

verus! {

/// Relates an encoder buffer before and after `bytes` were written: the
/// capacity shrank by the byte count and, for materialized buffers, exactly
/// those bytes were appended.
pub open spec fn enc_appended<B: EncoderBuffer>(pre: B, post: B, bytes: Seq<u8>) -> bool {
    &&& post.capacity() == pre.capacity() - bytes.len()
    &&& post.wmat() == pre.wmat()
    &&& post.written().len() == pre.written().len() + bytes.len()
    &&& (pre.wmat() ==> post.written() == pre.written() + bytes)
}

/// Relates an encoder buffer before an operation and after the operation
/// failed: capacity and written bytes are as they stood before.
pub open spec fn enc_rolled_back<B: EncoderBuffer>(pre: B, post: B) -> bool {
    &&& post.capacity() == pre.capacity()
    &&& post.wmat() == pre.wmat()
    &&& post.written().len() == pre.written().len()
    &&& (pre.wmat() ==> post.written() == pre.written())
}

/// The bytes that `count` back-to-back encodings of `value` produce.
pub open spec fn repeat_encoding<T: Encodable>(value: &T, count: nat) -> Seq<u8>
    decreases count,
{
    if count == 0 {
        Seq::<u8>::empty()
    } else {
        repeat_encoding(value, (count - 1) as nat) + value.encoding()
    }
}

/// Whether `count` back-to-back encodings of `value` succeed against `cap`
/// bytes of capacity.
pub open spec fn repeat_enc_ok<T: Encodable>(value: &T, cap: nat, count: nat) -> bool
    decreases count,
{
    count == 0 || (value.enc_ok(cap) && repeat_enc_ok(
        value,
        (cap - value.encoding().len()) as nat,
        (count - 1) as nat,
    ))
}

/// The failure reason of the first failing repetition.
pub open spec fn repeat_enc_reason<T: Encodable>(
    value: &T,
    cap: nat,
    count: nat,
) -> BufferErrorReason
    decreases count,
{
    if count == 0 {
        BufferErrorReason::UnexpectedBytes { len: 0 }
    } else if !value.enc_ok(cap) {
        value.enc_reason(cap)
    } else {
        repeat_enc_reason(value, (cap - value.encoding().len()) as nat, (count - 1) as nat)
    }
}

/// `count` repetitions occupy `count` times the single encoding's length.
pub proof fn lemma_repeat_encoding_len<T: Encodable>(value: &T, count: nat)
    ensures
        repeat_encoding(value, count).len() == count * value.encoding().len(),
    decreases count,
{
    if count == 0 {
        assert(count * value.encoding().len() == 0) by (nonlinear_arith)
            requires
                count == 0,
        ;
    } else {
        lemma_repeat_encoding_len(value, (count - 1) as nat);
        let n = count as int;
        let l = value.encoding().len() as int;
        assert((n - 1) * l + l == n * l) by (nonlinear_arith);
    }
}

/// The wire-format specification of an encodable value, independent of any
/// particular buffer backend.
pub trait Encodable {
    /// The exact bytes this value encodes to.
    spec fn encoding(&self) -> Seq<u8>;

    /// Whether encoding succeeds against a buffer with `cap` bytes of
    /// remaining capacity.
    spec fn enc_ok(&self, cap: nat) -> bool;

    /// The failure reason when `enc_ok(cap)` does not hold.
    spec fn enc_reason(&self, cap: nat) -> BufferErrorReason;

    /// A successful encoding always fits in the capacity it succeeded
    /// against.
    proof fn enc_props(&self, cap: nat)
        ensures
            self.enc_ok(cap) ==> self.encoding().len() <= cap,
    ;

    /// An encoding that succeeds against some capacity succeeds against any
    /// larger one.
    proof fn enc_monotone(&self, c1: nat, c2: nat)
        requires
            c1 <= c2,
        ensures
            self.enc_ok(c1) ==> self.enc_ok(c2),
    ;
}

/// Type-directed encoding into an encoder buffer.
pub trait TypeEncoder<B: EncoderBuffer>: Encodable {
    /// Encodes `self` at the buffer's write position.
    fn encode_type(&self, buffer: B) -> (r: BufResult<(), B>)
        ensures
            self.enc_ok(buffer.capacity()) ==> (match r {
                Ok(((), rest)) => enc_appended(buffer, rest, self.encoding()),
                Err(_) => false,
            }),
            !self.enc_ok(buffer.capacity()) ==> (match r {
                Ok(_) => false,
                Err(e) => {
                    &&& enc_rolled_back(buffer, e.buffer)
                    &&& e.reason == self.enc_reason(buffer.capacity())
                },
            }),
    ;
}

/// The format specification carried by an encode strategy for values of
/// type `T`, independent of any particular buffer backend.
pub trait EncoderSpec<T>: Sized {
    /// The exact bytes this strategy encodes `value` to.
    spec fn senc(&self, value: &T) -> Seq<u8>;

    /// Whether encoding succeeds against `cap` bytes of remaining capacity.
    spec fn senc_ok(&self, value: &T, cap: nat) -> bool;

    /// The failure reason when `senc_ok(value, cap)` does not hold.
    spec fn senc_reason(&self, value: &T, cap: nat) -> BufferErrorReason;

    /// A successful encoding always fits in the capacity it succeeded
    /// against.
    proof fn senc_props(&self, value: &T, cap: nat)
        ensures
            self.senc_ok(value, cap) ==> self.senc(value).len() <= cap,
    ;

    /// An encoding that succeeds against some capacity succeeds against any
    /// larger one.
    proof fn senc_monotone(&self, value: &T, c1: nat, c2: nat)
        requires
            c1 <= c2,
        ensures
            self.senc_ok(value, c1) ==> self.senc_ok(value, c2),
    ;
}

/// An encode strategy: an object that knows how to write a `T` into an
/// encoder buffer.
pub trait Encoder<T, B: EncoderBuffer>: EncoderSpec<T> {
    /// Encodes `value` at the buffer's write position.
    fn encode_into(self, value: &T, buffer: B) -> (r: BufResult<(), B>)
        ensures
            self.senc_ok(value, buffer.capacity()) ==> (match r {
                Ok(((), rest)) => enc_appended(buffer, rest, self.senc(value)),
                Err(_) => false,
            }),
            !self.senc_ok(value, buffer.capacity()) ==> (match r {
                Ok(_) => false,
                Err(e) => {
                    &&& enc_rolled_back(buffer, e.buffer)
                    &&& e.reason == self.senc_reason(value, buffer.capacity())
                },
            }),
    ;
}

/// A capacity-tracked destination for encoded bytes.
///
/// The buffer is consumed by every write and returned with its capacity
/// reduced; a failed write hands the buffer back rolled back to the state it
/// had before the operation began.
pub trait EncoderBuffer: Sized {
    /// The bytes accepted so far.
    spec fn written(&self) -> Seq<u8>;

    /// The remaining capacity in bytes.
    spec fn capacity(&self) -> nat;

    /// Whether written bytes are really stored; the length estimator only
    /// counts them.
    spec fn wmat(&self) -> bool;

    /// The remaining capacity.
    fn encoder_capacity(&self) -> (n: usize)
        ensures
            n == self.capacity(),
    ;

    /// Appends raw bytes, failing without effect when the capacity is
    /// insufficient.
    fn encode_bytes(self, bytes: &[u8]) -> (r: BufResult<usize, Self>)
        ensures
            bytes@.len() <= self.capacity() ==> (match r {
                Ok((n, rest)) => {
                    &&& n == bytes@.len()
                    &&& rest.capacity() == self.capacity() - bytes@.len()
                    &&& rest.wmat() == self.wmat()
                    &&& rest.written().len() == self.written().len() + bytes@.len()
                    &&& (self.wmat() ==> rest.written() == self.written() + bytes@)
                },
                Err(_) => false,
            }),
            bytes@.len() > self.capacity() ==> (match r {
                Ok(_) => false,
                Err(e) => {
                    &&& e.buffer == self
                    &&& e.reason == (BufferErrorReason::UnexpectedEof {
                        actual: self.capacity() as usize,
                        expected: bytes@.len() as usize,
                    })
                },
            }),
    ;

    /// Removes the last `n` written bytes, restoring the capacity they
    /// occupied. This is the rollback primitive behind checkpointed
    /// encoding.
    fn rollback(self, n: usize) -> (r: Self)
        requires
            n <= self.written().len(),
        ensures
            r.capacity() == self.capacity() + n,
            r.wmat() == self.wmat(),
            r.written() == self.written().take(self.written().len() - n),
    ;

    /// Checks that at least `expected` bytes of capacity remain.
    fn ensure_encoder_capacity(self, expected: usize) -> (r: BufResult<usize, Self>)
        ensures
            expected <= self.capacity() ==> r == Ok::<_, BufferError<Self>>((
                self.capacity() as usize,
                self,
            )),
            expected > self.capacity() ==> r == Err::<(usize, Self), _>(BufferError {
                reason: BufferErrorReason::UnexpectedEof {
                    actual: self.capacity() as usize,
                    expected,
                },
                buffer: self,
            }),
    {
        let actual = self.encoder_capacity();
        if actual >= expected {
            Ok((actual, self))
        } else {
            Err(BufferError {
                reason: BufferErrorReason::UnexpectedEof { actual, expected },
                buffer: self,
            })
        }
    }

    /// Brackets an encode sequence: on success it reports the number of
    /// bytes the sequence consumed, measured by capacity delta; on failure
    /// the buffer inside the error is rolled back to the state it had
    /// before the checkpoint began, however many bytes `f` wrote.
    ///
    /// `f` must be an encode sequence proper: whatever buffer it returns,
    /// in `Ok` or in `Err`, extends the written bytes of the buffer it was
    /// given and accounts for capacity one for one.
    fn checkpoint<F: FnOnce(Self) -> BufResult<(), Self>>(self, f: F) -> (r: BufResult<
        usize,
        Self,
    >)
        requires
            call_requires(f, (self,)),
            forall|pre: Self, out: BufResult<(), Self>| #[trigger]
                call_ensures(f, (pre, ), out) ==> (match out {
                    Ok(((), post)) => {
                        &&& post.capacity() <= pre.capacity()
                        &&& post.wmat() == pre.wmat()
                        &&& post.written().len() == pre.written().len() + (pre.capacity()
                            - post.capacity())
                        &&& (pre.wmat() ==> pre.written().is_prefix_of(post.written()))
                    },
                    Err(e) => {
                        &&& e.buffer.capacity() <= pre.capacity()
                        &&& e.buffer.wmat() == pre.wmat()
                        &&& e.buffer.written().len() == pre.written().len() + (pre.capacity()
                            - e.buffer.capacity())
                        &&& (pre.wmat() ==> pre.written().is_prefix_of(e.buffer.written()))
                    },
                }),
        ensures
            match r {
                Ok((n, rest)) => {
                    &&& call_ensures(f, (self, ), Ok::<((), Self), BufferError<Self>>((
                        (),
                        rest,
                    )))
                    &&& n == self.capacity() - rest.capacity()
                },
                Err(e) => {
                    &&& e.buffer.capacity() == self.capacity()
                    &&& e.buffer.wmat() == self.wmat()
                    &&& e.buffer.written().len() == self.written().len()
                    &&& (self.wmat() ==> e.buffer.written() == self.written())
                    &&& exists|inner: Self|
                        call_ensures(f, (self, ), Err::<((), Self), _>(BufferError {
                            buffer: inner,
                            reason: e.reason,
                        }))
                },
            },
    {
        let cap0 = self.encoder_capacity();
        let ghost pre = self;
        let res = f(self);
        proof {
            assert(call_ensures(f, (pre, ), res));
        }
        match res {
            Ok(pair) => {
                proof {
                    assert(res == Ok::<((), Self), BufferError<Self>>(pair));
                    assert(pair == (((), pair.1)));
                }
                let cap1 = pair.1.encoder_capacity();
                Ok((cap0 - cap1, pair.1))
            },
            Err(e) => {
                let BufferError { buffer, reason } = e;
                let cap1 = buffer.encoder_capacity();
                let wrote = cap0 - cap1;
                let rolled = buffer.rollback(wrote);
                proof {
                    assert(call_ensures(f, (pre, ), Err::<((), Self), _>(BufferError {
                        buffer,
                        reason,
                    })));
                    if pre.wmat() {
                        assert(buffer.written().take(pre.written().len() as int)
                            =~= pre.written());
                    }
                }
                Err(BufferError { buffer: rolled, reason })
            },
        }
    }
}

/// Composite encode entry points available on every encoder buffer.
pub trait EncoderBufferExt: EncoderBuffer {
    /// Encodes a value by its type-directed format, returning the number of
    /// bytes written.
    fn encode<T: TypeEncoder<Self>>(self, value: T) -> (r: BufResult<usize, Self>)
        ensures
            value.enc_ok(self.capacity()) ==> (match r {
                Ok((n, rest)) => {
                    &&& n == value.encoding().len()
                    &&& enc_appended(self, rest, value.encoding())
                },
                Err(_) => false,
            }),
            !value.enc_ok(self.capacity()) ==> (match r {
                Ok(_) => false,
                Err(e) => {
                    &&& enc_rolled_back(self, e.buffer)
                    &&& e.reason == value.enc_reason(self.capacity())
                },
            }),
    {
        let before = self.encoder_capacity();
        match value.encode_type(self) {
            Ok(((), rest)) => {
                let after = rest.encoder_capacity();
                Ok((before - after, rest))
            },
            Err(e) => Err(e),
        }
    }

    /// Encodes a value with an explicit strategy, returning the number of
    /// bytes written.
    fn encode_with<T, E: Encoder<T, Self>>(self, value: T, encoder: E) -> (r: BufResult<
        usize,
        Self,
    >)
        ensures
            encoder.senc_ok(&value, self.capacity()) ==> (match r {
                Ok((n, rest)) => {
                    &&& n == encoder.senc(&value).len()
                    &&& enc_appended(self, rest, encoder.senc(&value))
                },
                Err(_) => false,
            }),
            !encoder.senc_ok(&value, self.capacity()) ==> (match r {
                Ok(_) => false,
                Err(e) => {
                    &&& enc_rolled_back(self, e.buffer)
                    &&& e.reason == encoder.senc_reason(&value, self.capacity())
                },
            }),
    {
        let before = self.encoder_capacity();
        match encoder.encode_into(&value, self) {
            Ok(((), rest)) => {
                let after = rest.encoder_capacity();
                Ok((before - after, rest))
            },
            Err(e) => Err(e),
        }
    }

    /// Like [`Self::encode`], but hands the outcome and the buffer back
    /// separately, for callers that keep using the buffer either way.
    fn try_encode<T: TypeEncoder<Self>>(self, value: T) -> (r: (
        Result<usize, BufferErrorReason>,
        Self,
    ))
        ensures
            value.enc_ok(self.capacity()) ==> (match r.0 {
                Ok(n) => {
                    &&& n == value.encoding().len()
                    &&& enc_appended(self, r.1, value.encoding())
                },
                Err(_) => false,
            }),
            !value.enc_ok(self.capacity()) ==> (match r.0 {
                Ok(_) => false,
                Err(reason) => {
                    &&& enc_rolled_back(self, r.1)
                    &&& reason == value.enc_reason(self.capacity())
                },
            }),
    {
        match self.encode(value) {
            Ok((len, buffer)) => (Ok(len), buffer),
            Err(e) => (Err(e.reason), e.buffer),
        }
    }

    /// Like [`Self::encode_with`], but hands the outcome and the buffer
    /// back separately.
    fn try_encode_with<T, E: Encoder<T, Self>>(self, value: T, encoder: E) -> (r: (
        Result<usize, BufferErrorReason>,
        Self,
    ))
        ensures
            encoder.senc_ok(&value, self.capacity()) ==> (match r.0 {
                Ok(n) => {
                    &&& n == encoder.senc(&value).len()
                    &&& enc_appended(self, r.1, encoder.senc(&value))
                },
                Err(_) => false,
            }),
            !encoder.senc_ok(&value, self.capacity()) ==> (match r.0 {
                Ok(_) => false,
                Err(reason) => {
                    &&& enc_rolled_back(self, r.1)
                    &&& reason == encoder.senc_reason(&value, self.capacity())
                },
            }),
    {
        match self.encode_with(value, encoder) {
            Ok((len, buffer)) => (Ok(len), buffer),
            Err(e) => (Err(e.reason), e.buffer),
        }
    }

    /// How many bytes encoding `value` into this buffer would consume, or
    /// why it would not fit, computed by a dry run that writes nothing.
    fn encoding_len<T: TypeEncoder<LenEstimator>>(&self, value: &T) -> (r: LenResult)
        ensures
            value.enc_ok(self.capacity()) ==> r == Ok::<_, BufferErrorReason>(
                value.encoding().len() as usize,
            ),
            !value.enc_ok(self.capacity()) ==> r == Err::<usize, _>(
                value.enc_reason(self.capacity()),
            ),
    {
        LenEstimator::encoding_len(value, self.encoder_capacity())
    }

    /// Encodes `value` `count` times back to back; a failure part way
    /// through rolls every repetition back.
    fn encode_repeated<T: TypeEncoder<Self> + Copy>(self, value: T, count: usize) -> (r:
        BufResult<usize, Self>)
        ensures
            repeat_enc_ok(&value, self.capacity(), count as nat) ==> (match r {
                Ok((n, rest)) => {
                    &&& n == repeat_encoding(&value, count as nat).len()
                    &&& enc_appended(self, rest, repeat_encoding(&value, count as nat))
                },
                Err(_) => false,
            }),
            !repeat_enc_ok(&value, self.capacity(), count as nat) ==> (match r {
                Ok(_) => false,
                Err(e) => {
                    &&& enc_rolled_back(self, e.buffer)
                    &&& e.reason == repeat_enc_reason(&value, self.capacity(), count as nat)
                },
            }),
    {
        self.encode_repeated_ref(&value, count)
    }

    /// The by-reference analogue of [`Self::encode_repeated`] for values
    /// that cannot be copied.
    #[verifier::loop_isolation(false)]
    fn encode_repeated_ref<T: TypeEncoder<Self>>(self, value: &T, count: usize) -> (r: BufResult<
        usize,
        Self,
    >)
        ensures
            repeat_enc_ok(value, self.capacity(), count as nat) ==> (match r {
                Ok((n, rest)) => {
                    &&& n == repeat_encoding(value, count as nat).len()
                    &&& enc_appended(self, rest, repeat_encoding(value, count as nat))
                },
                Err(_) => false,
            }),
            !repeat_enc_ok(value, self.capacity(), count as nat) ==> (match r {
                Ok(_) => false,
                Err(e) => {
                    &&& enc_rolled_back(self, e.buffer)
                    &&& e.reason == repeat_enc_reason(value, self.capacity(), count as nat)
                },
            }),
    {
        let cap0 = self.encoder_capacity();
        let ghost pre = self;
        let ghost w0 = self.written();
        let mut buf = self;
        let mut i: usize = 0;
        while i < count
            invariant
                i <= count,
                cap0 == pre.capacity(),
                w0 == pre.written(),
                buf.wmat() == pre.wmat(),
                buf.capacity() == pre.capacity() - repeat_encoding(value, i as nat).len(),
                buf.written().len() == w0.len() + repeat_encoding(value, i as nat).len(),
                pre.wmat() ==> buf.written() == w0 + repeat_encoding(value, i as nat),
                repeat_enc_ok(value, pre.capacity(), count as nat) <==> repeat_enc_ok(
                    value,
                    buf.capacity(),
                    (count - i) as nat,
                ),
                !repeat_enc_ok(value, pre.capacity(), count as nat) ==> repeat_enc_reason(
                    value,
                    pre.capacity(),
                    count as nat,
                ) == repeat_enc_reason(value, buf.capacity(), (count - i) as nat),
            decreases count - i,
        {
            proof {
                value.enc_props(buf.capacity());
            }
            match value.encode_type(buf) {
                Ok(((), next)) => {
                    proof {
                        assert(w0 + repeat_encoding(value, i as nat) + value.encoding() =~= w0
                            + repeat_encoding(value, (i + 1) as nat));
                    }
                    buf = next;
                    i = i + 1;
                },
                Err(e) => {
                    let cap_now = e.buffer.encoder_capacity();
                    let wrote = cap0 - cap_now;
                    let rolled = e.buffer.rollback(wrote);
                    proof {
                        if pre.wmat() {
                            assert((w0 + repeat_encoding(value, i as nat)).take(
                                w0.len() as int,
                            ) =~= w0);
                        }
                    }
                    return Err(BufferError { buffer: rolled, reason: e.reason });
                },
            }
        }
        let cap_end = buf.encoder_capacity();
        Ok((cap0 - cap_end, buf))
    }
}

impl<B: EncoderBuffer> EncoderBufferExt for B {

}

} // verus!

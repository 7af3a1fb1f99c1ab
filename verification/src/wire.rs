//! Byte-level wire formats for fixed-width integers.
//!
//! Big-endian sequences are specified as the reverse of the little-endian
//! sequences from `vstd::bytes`, and every conversion used by the codecs is
//! a verified function over those specifications.

use vstd::bytes::{
    lemma_auto_spec_u128_to_from_le_bytes, lemma_auto_spec_u16_to_from_le_bytes,
    lemma_auto_spec_u32_to_from_le_bytes, lemma_auto_spec_u64_to_from_le_bytes,
    spec_u128_from_le_bytes, spec_u128_to_le_bytes, spec_u16_from_le_bytes, spec_u16_to_le_bytes,
    spec_u32_from_le_bytes, spec_u32_to_le_bytes, spec_u64_from_le_bytes, spec_u64_to_le_bytes,
    u128_from_le_bytes, u128_to_le_bytes, u16_from_le_bytes, u16_to_le_bytes, u32_from_le_bytes,
    u32_to_le_bytes, u64_from_le_bytes, u64_to_le_bytes,
};
use vstd::prelude::*;

verus! {

/// The little-endian encoding of `x`.
pub open spec fn le_u16_bytes(x: u16) -> Seq<u8> {
    spec_u16_to_le_bytes(x)
}

/// The big-endian (network order) encoding of `x`.
pub open spec fn be_u16_bytes(x: u16) -> Seq<u8> {
    spec_u16_to_le_bytes(x).reverse()
}

/// The value of the first two bytes of `s` read little-endian.
pub open spec fn le_u16_at(s: Seq<u8>) -> u16 {
    spec_u16_from_le_bytes(s.take(2))
}

/// The value of the first two bytes of `s` read big-endian.
pub open spec fn be_u16_at(s: Seq<u8>) -> u16 {
    spec_u16_from_le_bytes(s.take(2).reverse())
}

/// The little-endian encoding of `x`.
pub open spec fn le_u32_bytes(x: u32) -> Seq<u8> {
    spec_u32_to_le_bytes(x)
}

/// The big-endian (network order) encoding of `x`.
pub open spec fn be_u32_bytes(x: u32) -> Seq<u8> {
    spec_u32_to_le_bytes(x).reverse()
}

/// The value of the first four bytes of `s` read little-endian.
pub open spec fn le_u32_at(s: Seq<u8>) -> u32 {
    spec_u32_from_le_bytes(s.take(4))
}

/// The value of the first four bytes of `s` read big-endian.
pub open spec fn be_u32_at(s: Seq<u8>) -> u32 {
    spec_u32_from_le_bytes(s.take(4).reverse())
}

/// The little-endian encoding of `x`.
pub open spec fn le_u64_bytes(x: u64) -> Seq<u8> {
    spec_u64_to_le_bytes(x)
}

/// The big-endian (network order) encoding of `x`.
pub open spec fn be_u64_bytes(x: u64) -> Seq<u8> {
    spec_u64_to_le_bytes(x).reverse()
}

/// The value of the first eight bytes of `s` read little-endian.
pub open spec fn le_u64_at(s: Seq<u8>) -> u64 {
    spec_u64_from_le_bytes(s.take(8))
}

/// The value of the first eight bytes of `s` read big-endian.
pub open spec fn be_u64_at(s: Seq<u8>) -> u64 {
    spec_u64_from_le_bytes(s.take(8).reverse())
}

/// Each width's encodings are the stated length and decode back to the
/// encoded value, in both byte orders.
pub proof fn lemma_u16_wire(x: u16)
    ensures
        le_u16_bytes(x).len() == 2,
        be_u16_bytes(x).len() == 2,
        le_u16_at(le_u16_bytes(x)) == x,
        be_u16_at(be_u16_bytes(x)) == x,
{
    lemma_auto_spec_u16_to_from_le_bytes();
    let le = spec_u16_to_le_bytes(x);
    assert(le.take(2) =~= le);
    assert(le.reverse().take(2) =~= le.reverse());
    assert(le.reverse().reverse() =~= le);
}

/// Each width's encodings are the stated length and decode back to the
/// encoded value, in both byte orders.
pub proof fn lemma_u32_wire(x: u32)
    ensures
        le_u32_bytes(x).len() == 4,
        be_u32_bytes(x).len() == 4,
        le_u32_at(le_u32_bytes(x)) == x,
        be_u32_at(be_u32_bytes(x)) == x,
{
    lemma_auto_spec_u32_to_from_le_bytes();
    let le = spec_u32_to_le_bytes(x);
    assert(le.take(4) =~= le);
    assert(le.reverse().take(4) =~= le.reverse());
    assert(le.reverse().reverse() =~= le);
}

/// Each width's encodings are the stated length and decode back to the
/// encoded value, in both byte orders.
pub proof fn lemma_u64_wire(x: u64)
    ensures
        le_u64_bytes(x).len() == 8,
        be_u64_bytes(x).len() == 8,
        le_u64_at(le_u64_bytes(x)) == x,
        be_u64_at(be_u64_bytes(x)) == x,
{
    lemma_auto_spec_u64_to_from_le_bytes();
    let le = spec_u64_to_le_bytes(x);
    assert(le.take(8) =~= le);
    assert(le.reverse().take(8) =~= le.reverse());
    assert(le.reverse().reverse() =~= le);
}

/// Reverses an owned byte vector.
fn reverse_vec(v: Vec<u8>) -> (r: Vec<u8>)
    ensures
        r@ == v@.reverse(),
{
    let mut r: Vec<u8> = Vec::new();
    let mut i: usize = v.len();
    while i > 0
        invariant
            i <= v@.len(),
            r@.len() == v@.len() - i,
            forall|k: int| 0 <= k < r@.len() ==> r@[k] == v@[v@.len() - 1 - k],
        decreases i,
    {
        i = i - 1;
        r.push(v[i]);
    }
    proof {
        assert(r@ =~= v@.reverse());
    }
    r
}

/// Reads the first two bytes of `s` as a little-endian value.
pub fn get_le_u16(s: &[u8]) -> (x: u16)
    requires
        s@.len() >= 2,
    ensures
        x == le_u16_at(s@),
{
    let head = vstd::slice::slice_subrange(s, 0, 2);
    proof {
        assert(head@ =~= s@.take(2));
    }
    u16_from_le_bytes(head)
}

/// Reads the first two bytes of `s` as a big-endian value.
pub fn get_be_u16(s: &[u8]) -> (x: u16)
    requires
        s@.len() >= 2,
    ensures
        x == be_u16_at(s@),
{
    let head = vstd::slice::slice_subrange(s, 0, 2);
    let rev = reverse_vec(vstd::slice::slice_to_vec(head));
    proof {
        assert(head@ =~= s@.take(2));
    }
    u16_from_le_bytes(rev.as_slice())
}

/// The little-endian bytes of `x`.
pub fn put_le_u16(x: u16) -> (v: Vec<u8>)
    ensures
        v@ == le_u16_bytes(x),
{
    u16_to_le_bytes(x)
}

/// The big-endian bytes of `x`.
pub fn put_be_u16(x: u16) -> (v: Vec<u8>)
    ensures
        v@ == be_u16_bytes(x),
{
    reverse_vec(u16_to_le_bytes(x))
}

/// Reads the first four bytes of `s` as a little-endian value.
pub fn get_le_u32(s: &[u8]) -> (x: u32)
    requires
        s@.len() >= 4,
    ensures
        x == le_u32_at(s@),
{
    let head = vstd::slice::slice_subrange(s, 0, 4);
    proof {
        assert(head@ =~= s@.take(4));
    }
    u32_from_le_bytes(head)
}

/// Reads the first four bytes of `s` as a big-endian value.
pub fn get_be_u32(s: &[u8]) -> (x: u32)
    requires
        s@.len() >= 4,
    ensures
        x == be_u32_at(s@),
{
    let head = vstd::slice::slice_subrange(s, 0, 4);
    let rev = reverse_vec(vstd::slice::slice_to_vec(head));
    proof {
        assert(head@ =~= s@.take(4));
    }
    u32_from_le_bytes(rev.as_slice())
}

/// The little-endian bytes of `x`.
pub fn put_le_u32(x: u32) -> (v: Vec<u8>)
    ensures
        v@ == le_u32_bytes(x),
{
    u32_to_le_bytes(x)
}

/// The big-endian bytes of `x`.
pub fn put_be_u32(x: u32) -> (v: Vec<u8>)
    ensures
        v@ == be_u32_bytes(x),
{
    reverse_vec(u32_to_le_bytes(x))
}

/// Reads the first eight bytes of `s` as a little-endian value.
pub fn get_le_u64(s: &[u8]) -> (x: u64)
    requires
        s@.len() >= 8,
    ensures
        x == le_u64_at(s@),
{
    let head = vstd::slice::slice_subrange(s, 0, 8);
    proof {
        assert(head@ =~= s@.take(8));
    }
    u64_from_le_bytes(head)
}

/// Reads the first eight bytes of `s` as a big-endian value.
pub fn get_be_u64(s: &[u8]) -> (x: u64)
    requires
        s@.len() >= 8,
    ensures
        x == be_u64_at(s@),
{
    let head = vstd::slice::slice_subrange(s, 0, 8);
    let rev = reverse_vec(vstd::slice::slice_to_vec(head));
    proof {
        assert(head@ =~= s@.take(8));
    }
    u64_from_le_bytes(rev.as_slice())
}

/// The little-endian bytes of `x`.
pub fn put_le_u64(x: u64) -> (v: Vec<u8>)
    ensures
        v@ == le_u64_bytes(x),
{
    u64_to_le_bytes(x)
}

/// The big-endian bytes of `x`.
pub fn put_be_u64(x: u64) -> (v: Vec<u8>)
    ensures
        v@ == be_u64_bytes(x),
{
    reverse_vec(u64_to_le_bytes(x))
}

/// The little-endian encoding of `x`.
pub open spec fn le_u128_bytes(x: u128) -> Seq<u8> {
    spec_u128_to_le_bytes(x)
}

/// The big-endian (network order) encoding of `x`.
pub open spec fn be_u128_bytes(x: u128) -> Seq<u8> {
    spec_u128_to_le_bytes(x).reverse()
}

/// The value of the first sixteen bytes of `s` read little-endian.
pub open spec fn le_u128_at(s: Seq<u8>) -> u128 {
    spec_u128_from_le_bytes(s.take(16))
}

/// The value of the first sixteen bytes of `s` read big-endian.
pub open spec fn be_u128_at(s: Seq<u8>) -> u128 {
    spec_u128_from_le_bytes(s.take(16).reverse())
}

/// Each width's encodings are the stated length and decode back to the
/// encoded value, in both byte orders.
pub proof fn lemma_u128_wire(x: u128)
    ensures
        le_u128_bytes(x).len() == 16,
        be_u128_bytes(x).len() == 16,
        le_u128_at(le_u128_bytes(x)) == x,
        be_u128_at(be_u128_bytes(x)) == x,
{
    lemma_auto_spec_u128_to_from_le_bytes();
    let le = spec_u128_to_le_bytes(x);
    assert(le.take(16) =~= le);
    assert(le.reverse().take(16) =~= le.reverse());
    assert(le.reverse().reverse() =~= le);
}

/// Reads the first sixteen bytes of `s` as a little-endian value.
pub fn get_le_u128(s: &[u8]) -> (x: u128)
    requires
        s@.len() >= 16,
    ensures
        x == le_u128_at(s@),
{
    let head = vstd::slice::slice_subrange(s, 0, 16);
    proof {
        assert(head@ =~= s@.take(16));
    }
    u128_from_le_bytes(head)
}

/// Reads the first sixteen bytes of `s` as a big-endian value.
pub fn get_be_u128(s: &[u8]) -> (x: u128)
    requires
        s@.len() >= 16,
    ensures
        x == be_u128_at(s@),
{
    let head = vstd::slice::slice_subrange(s, 0, 16);
    let rev = reverse_vec(vstd::slice::slice_to_vec(head));
    proof {
        assert(head@ =~= s@.take(16));
    }
    u128_from_le_bytes(rev.as_slice())
}

/// The little-endian bytes of `x`.
pub fn put_le_u128(x: u128) -> (v: Vec<u8>)
    ensures
        v@ == le_u128_bytes(x),
{
    u128_to_le_bytes(x)
}

/// The big-endian bytes of `x`.
pub fn put_be_u128(x: u128) -> (v: Vec<u8>)
    ensures
        v@ == be_u128_bytes(x),
{
    reverse_vec(u128_to_le_bytes(x))
}

} // verus!

//! Fixed-width wire encodings.

use crate::types::Digest;
use commonware_codec::{ReadExt, Write};
use vstd::prelude::*;
use vstd::slice::slice_subrange;

verus! {

/// The encoded size of a `u64`.
pub const U64_SIZE: usize = 8;

/// The encoded size of a digest.
pub const DIGEST_SIZE: usize = 32;

/// The eight bytes of a number, most significant first.
#[verifier::opaque]
pub open spec fn be_bytes(value: u64) -> Seq<u8> {
    seq![
        (value / 0x100_0000_0000_0000) as u8,
        (value / 0x1_0000_0000_0000 % 0x100) as u8,
        (value / 0x100_0000_0000 % 0x100) as u8,
        (value / 0x1_0000_0000 % 0x100) as u8,
        (value / 0x100_0000 % 0x100) as u8,
        (value / 0x1_0000 % 0x100) as u8,
        (value / 0x100 % 0x100) as u8,
        (value % 0x100) as u8,
    ]
}

/// The number that the first eight bytes spell, most significant first.
#[verifier::opaque]
pub open spec fn be_value(bytes: Seq<u8>) -> int {
    bytes[0] * 0x100_0000_0000_0000 + bytes[1] * 0x1_0000_0000_0000 + bytes[2] * 0x100_0000_0000
        + bytes[3] * 0x1_0000_0000 + bytes[4] * 0x100_0000 + bytes[5] * 0x1_0000 + bytes[6] * 0x100
        + bytes[7]
}

/// Dividing by a power of 256 is dividing by 256 that many times.
proof fn lemma_be_quotients(v: int)
    ensures
        v / 0x1_0000 == v / 0x100 / 0x100,
        v / 0x100_0000 == v / 0x100 / 0x100 / 0x100,
        v / 0x1_0000_0000 == v / 0x100 / 0x100 / 0x100 / 0x100,
        v / 0x100_0000_0000 == v / 0x100 / 0x100 / 0x100 / 0x100 / 0x100,
        v / 0x1_0000_0000_0000 == v / 0x100 / 0x100 / 0x100 / 0x100 / 0x100 / 0x100,
        v / 0x100_0000_0000_0000 == v / 0x100 / 0x100 / 0x100 / 0x100 / 0x100 / 0x100 / 0x100,
{
}

/// A number has eight bytes.
pub broadcast proof fn lemma_be_len(value: u64)
    ensures
        #[trigger] be_bytes(value).len() == U64_SIZE,
{
    reveal(be_bytes);
}

/// Reading the bytes of a number gives the number back, whatever follows them.
pub proof fn lemma_be_round_trip(value: u64, rest: Seq<u8>)
    ensures
        be_bytes(value).len() == U64_SIZE,
        be_value(be_bytes(value) + rest) == value,
{
    reveal(be_bytes);
    reveal(be_value);
    let b = be_bytes(value) + rest;
    let v0 = value as int;
    let v1 = v0 / 0x100;
    let v2 = v1 / 0x100;
    let v3 = v2 / 0x100;
    let v4 = v3 / 0x100;
    let v5 = v4 / 0x100;
    let v6 = v5 / 0x100;
    let v7 = v6 / 0x100;
    lemma_be_quotients(v0);
    assert(b[0] == v7 && b[1] == v6 % 0x100 && b[2] == v5 % 0x100 && b[3] == v4 % 0x100 && b[4]
        == v3 % 0x100 && b[5] == v2 % 0x100 && b[6] == v1 % 0x100 && b[7] == v0 % 0x100);
}

/// Two numbers with the same bytes are the same number.
pub proof fn lemma_be_injective(a: u64, b: u64)
    requires
        be_bytes(a) == be_bytes(b),
    ensures
        a == b,
{
    lemma_be_round_trip(a, Seq::empty());
    lemma_be_round_trip(b, Seq::empty());
}

/// Eight bytes spell a number that fits in a `u64`, and writing it gives them back.
pub proof fn lemma_be_exact(bytes: Seq<u8>)
    requires
        bytes.len() >= U64_SIZE,
    ensures
        0 <= be_value(bytes) <= u64::MAX,
        be_bytes(be_value(bytes) as u64) == bytes.subrange(0, 8),
{
    reveal(be_bytes);
    reveal(be_value);
    let v7 = bytes[0] as int;
    let v6 = v7 * 0x100 + bytes[1];
    let v5 = v6 * 0x100 + bytes[2];
    let v4 = v5 * 0x100 + bytes[3];
    let v3 = v4 * 0x100 + bytes[4];
    let v2 = v3 * 0x100 + bytes[5];
    let v1 = v2 * 0x100 + bytes[6];
    let v0 = v1 * 0x100 + bytes[7];
    assert(be_value(bytes) == v0);
    assert(0 <= v0 <= u64::MAX);
    assert(v6 / 0x100 == v7 && v5 / 0x100 == v6 && v4 / 0x100 == v5 && v3 / 0x100 == v4);
    assert(v2 / 0x100 == v3 && v1 / 0x100 == v2 && v0 / 0x100 == v1);
    lemma_be_quotients(v0);
    let b = be_bytes(v0 as u64);
    assert(b =~= bytes.subrange(0, 8));
}

/// `<u64 as commonware_codec::Write>::write` into a `Vec<u8>`: appends the eight
/// bytes of the number, most significant first, and leaves what was there.
#[verifier::external_body]
fn codec_write_u64(buf: &mut Vec<u8>, value: u64)
    ensures
        final(buf)@ == old(buf)@ + be_bytes(value),
{
    value.write(buf);
}

/// `<u64 as commonware_codec::ReadExt>::read` on a slice, without its error: succeeds
/// exactly when eight bytes are there, with the number that the first eight spell, most
/// significant first.
#[verifier::external_body]
fn codec_read_u64(bytes: &[u8]) -> (value: Option<u64>)
    ensures
        value is Some <==> bytes@.len() >= U64_SIZE,
        value matches Some(v) ==> v == be_value(bytes@),
{
    let mut reader: &[u8] = bytes;
    u64::read(&mut reader).ok()
}

/// `<commonware_cryptography::sha256::Digest as commonware_codec::Write>::write` into
/// a `Vec<u8>`: appends the 32 bytes of the digest as they are.
#[verifier::external_body]
fn codec_write_digest(buf: &mut Vec<u8>, digest: &Digest)
    ensures
        final(buf)@ == old(buf)@ + digest@,
{
    commonware_cryptography::sha256::Digest(*digest).write(buf);
}

/// `<commonware_cryptography::sha256::Digest as commonware_codec::ReadExt>::read` on a
/// slice, without its error: succeeds exactly when 32 bytes are there, with the first 32
/// as they are.
#[verifier::external_body]
fn codec_read_digest(bytes: &[u8]) -> (digest: Option<Digest>)
    ensures
        digest is Some <==> bytes@.len() >= DIGEST_SIZE,
        digest matches Some(d) ==> d@ == bytes@.subrange(0, DIGEST_SIZE as int),
{
    let mut reader: &[u8] = bytes;
    commonware_cryptography::sha256::Digest::read(&mut reader).ok().map(|digest| digest.0)
}

/// Appends the encoding of a number.
pub fn write_u64(buf: &mut Vec<u8>, value: u64)
    ensures
        final(buf)@ == old(buf)@ + be_bytes(value),
{
    codec_write_u64(buf, value)
}

/// Reads a number at an offset; `None` when fewer than eight bytes are left there.
pub fn read_u64(bytes: &[u8], at: usize) -> (value: Option<u64>)
    requires
        at <= bytes@.len(),
    ensures
        value == if bytes@.len() - at >= U64_SIZE {
            Some(be_value(bytes@.skip(at as int)) as u64)
        } else {
            None
        },
{
    let tail = slice_subrange(bytes, at, bytes.len());
    proof {
        assert(tail@ =~= bytes@.skip(at as int));
        if tail@.len() >= U64_SIZE {
            lemma_be_exact(tail@);
        }
    }
    codec_read_u64(tail)
}

/// Appends the encoding of a digest.
pub fn write_digest(buf: &mut Vec<u8>, digest: &Digest)
    ensures
        final(buf)@ == old(buf)@ + digest@,
{
    codec_write_digest(buf, digest)
}

/// Reads a digest at an offset; `None` when fewer than 32 bytes are left there.
pub fn read_digest(bytes: &[u8], at: usize) -> (digest: Option<Digest>)
    requires
        at <= bytes@.len(),
    ensures
        digest is Some <==> bytes@.len() - at >= DIGEST_SIZE,
        digest matches Some(d) ==> d@ == bytes@.subrange(at as int, at + DIGEST_SIZE),
{
    let tail = slice_subrange(bytes, at, bytes.len());
    match codec_read_digest(tail) {
        Some(digest) => {
            assert(digest@ =~= bytes@.subrange(at as int, at + DIGEST_SIZE));
            Some(digest)
        },
        None => None,
    }
}

/// Two digests with the same bytes are the same digest.
pub proof fn lemma_digest_ext(a: Digest, b: Digest)
    requires
        a@ == b@,
    ensures
        a == b,
{
    assert forall|i: int| 0 <= i < 32 implies a[i] == b[i] by {
        assert(a@[i] == b@[i]);
    }
    assert(a =~= b);
}

} // verus!

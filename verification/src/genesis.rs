//! The first block of a chain.

use crate::codec::lemma_digest_ext;
use crate::crypto::{ed25519_public, ed25519_seeded, sha256, sha256_digest, PrivateKey};
use crate::types::{BlockHeader, Context, PublicKey, Round};
use vstd::prelude::*;
use vstd::utf8::encode_utf8;

verus! {

/// Whether a header is that of the genesis block of an epoch for a genesis message: the
/// first view of the epoch, led by the key of seed zero, with nothing before it; its
/// parent is the digest of the message, its height and its timestamp are zero.
pub open spec fn is_genesis(header: BlockHeader, epoch: u64, message: Seq<char>) -> bool {
    &&& header.context.round == (Round { epoch, view: 0 })
    &&& header.context.leader@ == ed25519_public(ed25519_seeded(0))
    &&& header.context.parent.0 == 0
    &&& header.context.parent.1@ == Seq::new(32, |i: int| 0u8)
    &&& header.parent@ == sha256_digest(encode_utf8(message))
    &&& header.height == 0
    &&& header.timestamp == 0
}

/// The header of the genesis block.
pub fn genesis_header(epoch: u64, message: &str) -> (header: BlockHeader)
    ensures
        is_genesis(header, epoch, message@),
{
    let context = Context {
        round: Round { epoch, view: 0 },
        leader: PrivateKey::from_seed(0).public_key(),
        parent: (0, [0u8; 32]),
    };
    assert(context.parent.1@ =~= Seq::new(32, |i: int| 0u8));
    BlockHeader { context, parent: sha256(message.as_bytes()), height: 0, timestamp: 0 }
}

/// A genesis header is the first of its epoch, led by the key of seed zero, on the digest
/// of its message and with nothing before it.
pub proof fn law_genesis_header_has_nothing_before_it(
    epoch: u64,
    message: &str,
    header: BlockHeader,
    key: PrivateKey,
    leader: PublicKey,
    i: int,
)
    requires
        call_ensures(genesis_header, (epoch, message), header),
        call_ensures(PrivateKey::from_seed, (0,), key),
        call_ensures(PrivateKey::public_key, (&key,), leader),
        0 <= i < 32,
    ensures
        header.context.round.epoch == epoch,
        header.context.round.view == 0,
        header.context.leader@ == leader@,
        header.context.parent.0 == 0,
        header.context.parent.1@[i] == 0,
        header.parent@ == sha256_digest(encode_utf8(message@)),
        header.height == 0,
        header.timestamp == 0,
{
}

/// An epoch has one genesis header for each message.
pub proof fn law_genesis_header_is_unique(
    a: BlockHeader,
    b: BlockHeader,
    epoch: u64,
    message: Seq<char>,
)
    requires
        is_genesis(a, epoch, message),
        is_genesis(b, epoch, message),
    ensures
        a == b,
{
    lemma_digest_ext(a.context.leader, b.context.leader);
    lemma_digest_ext(a.context.parent.1, b.context.parent.1);
    lemma_digest_ext(a.parent, b.parent);
}

} // verus!

//! The chain's plain data: digests, keys, consensus context and blocks.

use vstd::prelude::*;

verus! {

/// A SHA-256 digest.
pub type Digest = [u8; 32];

/// An ed25519 public key in its wire encoding.
pub type PublicKey = [u8; 32];

/// The consensus round in which a block was proposed.
#[derive(Clone, Copy, Debug, PartialEq, Eq)]
pub struct Round {
    pub epoch: u64,
    pub view: u64,
}

/// What consensus knows of a block when it is proposed: the round, the leader
/// and the view and digest of the parent.
#[derive(Clone, Copy, Debug, PartialEq, Eq)]
pub struct Context {
    pub round: Round,
    pub leader: PublicKey,
    pub parent: (u64, Digest),
}

/// Everything a block commits to. Sealing a header with its digest gives a [`Block`].
#[derive(Clone, Copy, Debug, PartialEq, Eq)]
pub struct BlockHeader {
    pub context: Context,
    pub parent: Digest,
    pub height: u64,
    pub timestamp: u64,
}

impl BlockHeader {
    /// The block that these fields and this digest make.
    pub open spec fn sealed(self, digest: Digest) -> Block {
        Block {
            context: self.context,
            parent: self.parent,
            height: self.height,
            timestamp: self.timestamp,
            digest,
        }
    }

    /// Completes the header with the digest computed over its encoding.
    pub fn seal(self, digest: Digest) -> (block: Block)
        ensures
            block == self.sealed(digest),
    {
        Block {
            context: self.context,
            parent: self.parent,
            height: self.height,
            timestamp: self.timestamp,
            digest,
        }
    }
}

/// A block together with the digest that identifies it.
#[derive(Clone, Copy, Debug, PartialEq, Eq)]
pub struct Block {
    pub context: Context,
    pub parent: Digest,
    pub height: u64,
    pub timestamp: u64,
    pub digest: Digest,
}

/// A namespace of the data availability layer.
pub type NamespaceId = [u8; 29];

/// Where a published payload lies in the data availability layer.
#[derive(Clone, Copy, Debug, PartialEq, Eq)]
pub struct BlobRef {
    pub height: u64,
    pub namespace: NamespaceId,
    pub commitment: [u8; 32],
}

/// A published batch: its number, where it lies and the hash of its payload.
#[derive(Clone, Copy, Debug, PartialEq, Eq)]
pub struct BatchCursor {
    pub sequence: u64,
    pub blob_ref: BlobRef,
    pub payload_hash: Digest,
}

/// What came back from a store or a service outside.
#[derive(Debug, PartialEq, Eq)]
pub enum Fetched<T> {
    /// What was asked for.
    Found(T),
    /// There is no such thing.
    Nothing,
    /// The store or service failed.
    Failed,
}

/// Whether two 32-byte values are the same.
pub fn digest_eq(a: &Digest, b: &Digest) -> (same: bool)
    ensures
        same == (*a == *b),
{
    let mut i: usize = 0;
    while i < 32
        invariant
            i <= 32,
            forall|j: int| 0 <= j < i ==> a[j] == b[j],
        decreases 32 - i,
    {
        if a[i] != b[i] {
            return false;
        }
        i += 1;
    }
    assert(*a =~= *b);
    true
}

/// Sealing a header keeps all its fields and adds the digest.
pub proof fn law_sealing_keeps_the_header(header: BlockHeader, digest: Digest, block: Block)
    requires
        call_ensures(BlockHeader::seal, (header, digest), block),
    ensures
        block.context == header.context,
        block.parent == header.parent,
        block.height == header.height,
        block.timestamp == header.timestamp,
        block.digest == digest,
{
}

} // verus!

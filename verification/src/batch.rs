//! Batches of blocks: their metadata and their wire format.
//!
//! A batch payload is the number of its blocks followed by each encoded block behind its
//! length; numbers take eight bytes, most significant first.

use crate::codec::{
    be_bytes, be_value, lemma_be_exact, lemma_be_injective, lemma_be_round_trip, lemma_digest_ext, read_digest,
    read_u64, write_digest, write_u64, U64_SIZE,
};
use crate::types::{Block, Digest};
use vstd::prelude::*;
use vstd::slice::{slice_subrange, slice_to_vec};

verus! {

broadcast use crate::codec::lemma_be_len;

/// What is kept of a block once it was applied.
#[derive(Clone, Copy, Debug, PartialEq, Eq)]
pub struct BlockMeta {
    pub height: u64,
    pub digest: Digest,
    pub timestamp: u64,
}

/// The encoded size of a [`BlockMeta`].
pub const BLOCK_META_SIZE: usize = 48;

/// What is kept of a batch: its ends and how many blocks it has.
#[derive(Clone, Copy, Debug, PartialEq, Eq)]
pub struct BatchMeta {
    pub first_height: u64,
    pub last_height: u64,
    pub block_count: u64,
    pub first_digest: Digest,
    pub last_digest: Digest,
    pub first_timestamp: u64,
    pub last_timestamp: u64,
}

/// The encoded size of a [`BatchMeta`].
pub const BATCH_META_SIZE: usize = 104;

impl BlockMeta {
    /// The metadata of a block.
    pub open spec fn of(block: Block) -> BlockMeta {
        BlockMeta { height: block.height, digest: block.digest, timestamp: block.timestamp }
    }

    /// The metadata of a block.
    pub fn from_block(block: &Block) -> (meta: BlockMeta)
        ensures
            meta == BlockMeta::of(*block),
    {
        BlockMeta { height: block.height, digest: block.digest, timestamp: block.timestamp }
    }

    /// The encoding: height, digest, timestamp.
    pub open spec fn bytes(self) -> Seq<u8> {
        be_bytes(self.height) + self.digest@ + be_bytes(self.timestamp)
    }

    /// Appends the encoding.
    pub fn write(&self, buf: &mut Vec<u8>)
        ensures
            final(buf)@ == old(buf)@ + self.bytes(),
    {
        let ghost before = buf@;
        write_u64(buf, self.height);
        write_digest(buf, &self.digest);
        write_u64(buf, self.timestamp);
        assert(buf@ =~= before + self.bytes());
    }

    /// Whether reading bytes gives this outcome: the metadata that their front encodes, and
    /// nothing exactly when they end too early.
    pub open spec fn reads_as(bytes: Seq<u8>, meta: Option<BlockMeta>) -> bool {
        &&& meta is Some <==> bytes.len() >= BLOCK_META_SIZE
        &&& meta matches Some(found) ==> found.bytes() == bytes.subrange(0, BLOCK_META_SIZE as int)
    }

    /// Reads the encoding from the front of `bytes`; `None` when they end too early.
    pub fn read(bytes: &[u8]) -> (meta: Option<BlockMeta>)
        ensures
            BlockMeta::reads_as(bytes@, meta),
    {
        if bytes.len() < BLOCK_META_SIZE {
            return None;
        }
        let height = read_u64(bytes, 0)?;
        let digest = read_digest(bytes, 8)?;
        let timestamp = read_u64(bytes, 40)?;
        let meta = BlockMeta { height, digest, timestamp };
        proof {
            lemma_be_exact(bytes@.skip(0));
            lemma_be_exact(bytes@.skip(40));
            assert(meta.bytes() =~= bytes@.subrange(0, BLOCK_META_SIZE as int));
        }
        Some(meta)
    }

    /// The encoding always has the same size, and reading what was written gives it back,
    /// whatever follows it.
    pub proof fn law_round_trip(written: BlockMeta, rest: Seq<u8>, read: Option<BlockMeta>)
        requires
            BlockMeta::reads_as(written.bytes() + rest, read),
        ensures
            written.bytes().len() == BLOCK_META_SIZE,
            read == Some(written),
    {
        let found = read->0;
        assert((written.bytes() + rest).subrange(0, BLOCK_META_SIZE as int) =~= written.bytes());
        lemma_block_meta_fields(written);
        lemma_block_meta_fields(found);
        lemma_be_injective(written.height, found.height);
        lemma_digest_ext(written.digest, found.digest);
        lemma_be_injective(written.timestamp, found.timestamp);
    }
}

impl BatchMeta {
    /// The metadata of a batch.
    pub open spec fn of(blocks: Seq<Block>) -> BatchMeta {
        BatchMeta {
            first_height: blocks.first().height,
            last_height: blocks.last().height,
            block_count: blocks.len() as u64,
            first_digest: blocks.first().digest,
            last_digest: blocks.last().digest,
            first_timestamp: blocks.first().timestamp,
            last_timestamp: blocks.last().timestamp,
        }
    }

    /// The metadata of a batch.
    pub fn from_blocks(blocks: &Vec<Block>) -> (meta: BatchMeta)
        requires
            blocks@.len() > 0,
        ensures
            meta == BatchMeta::of(blocks@),
    {
        let first = &blocks[0];
        let last = &blocks[blocks.len() - 1];
        BatchMeta {
            first_height: first.height,
            last_height: last.height,
            block_count: blocks.len() as u64,
            first_digest: first.digest,
            last_digest: last.digest,
            first_timestamp: first.timestamp,
            last_timestamp: last.timestamp,
        }
    }

    /// The encoding: first and last height, block count, first and last digest, first
    /// and last timestamp.
    pub open spec fn bytes(self) -> Seq<u8> {
        be_bytes(self.first_height) + be_bytes(self.last_height) + be_bytes(self.block_count)
            + self.first_digest@ + self.last_digest@ + be_bytes(self.first_timestamp) + be_bytes(
            self.last_timestamp,
        )
    }

    /// Appends the encoding.
    pub fn write(&self, buf: &mut Vec<u8>)
        ensures
            final(buf)@ == old(buf)@ + self.bytes(),
    {
        let ghost before = buf@;
        write_u64(buf, self.first_height);
        write_u64(buf, self.last_height);
        write_u64(buf, self.block_count);
        write_digest(buf, &self.first_digest);
        write_digest(buf, &self.last_digest);
        write_u64(buf, self.first_timestamp);
        write_u64(buf, self.last_timestamp);
        assert(buf@ =~= before + self.bytes());
    }

    /// Whether reading bytes gives this outcome: the metadata that their front encodes, and
    /// nothing exactly when they end too early.
    pub open spec fn reads_as(bytes: Seq<u8>, meta: Option<BatchMeta>) -> bool {
        &&& meta is Some <==> bytes.len() >= BATCH_META_SIZE
        &&& meta matches Some(found) ==> found.bytes() == bytes.subrange(0, BATCH_META_SIZE as int)
    }

    /// Reads the encoding from the front of `bytes`; `None` when they end too early.
    pub fn read(bytes: &[u8]) -> (meta: Option<BatchMeta>)
        ensures
            BatchMeta::reads_as(bytes@, meta),
    {
        if bytes.len() < BATCH_META_SIZE {
            return None;
        }
        let first_height = read_u64(bytes, 0)?;
        let last_height = read_u64(bytes, 8)?;
        let block_count = read_u64(bytes, 16)?;
        let first_digest = read_digest(bytes, 24)?;
        let last_digest = read_digest(bytes, 56)?;
        let first_timestamp = read_u64(bytes, 88)?;
        let last_timestamp = read_u64(bytes, 96)?;
        let meta = BatchMeta {
            first_height,
            last_height,
            block_count,
            first_digest,
            last_digest,
            first_timestamp,
            last_timestamp,
        };
        proof {
            lemma_be_exact(bytes@.skip(0));
            lemma_be_exact(bytes@.skip(8));
            lemma_be_exact(bytes@.skip(16));
            lemma_be_exact(bytes@.skip(88));
            lemma_be_exact(bytes@.skip(96));
            assert(bytes@.skip(0).subrange(0, 8) =~= bytes@.subrange(0, 8));
            assert(bytes@.skip(8).subrange(0, 8) =~= bytes@.subrange(8, 16));
            assert(bytes@.skip(16).subrange(0, 8) =~= bytes@.subrange(16, 24));
            assert(bytes@.skip(88).subrange(0, 8) =~= bytes@.subrange(88, 96));
            assert(bytes@.skip(96).subrange(0, 8) =~= bytes@.subrange(96, 104));
            assert(meta.bytes() =~= bytes@.subrange(0, 8) + bytes@.subrange(8, 16)
                + bytes@.subrange(16, 24) + bytes@.subrange(24, 56) + bytes@.subrange(56, 88)
                + bytes@.subrange(88, 96) + bytes@.subrange(96, 104));
            assert(meta.bytes() =~= bytes@.subrange(0, BATCH_META_SIZE as int));
        }
        Some(meta)
    }

    /// The encoding always has the same size, and reading what was written gives it back,
    /// whatever follows it.
    pub proof fn law_round_trip(written: BatchMeta, rest: Seq<u8>, read: Option<BatchMeta>)
        requires
            BatchMeta::reads_as(written.bytes() + rest, read),
        ensures
            written.bytes().len() == BATCH_META_SIZE,
            read == Some(written),
    {
        let found = read->0;
        assert((written.bytes() + rest).subrange(0, BATCH_META_SIZE as int) =~= written.bytes());
        lemma_batch_meta_fields(written);
        lemma_batch_meta_fields(found);
        lemma_be_injective(written.first_height, found.first_height);
        lemma_be_injective(written.last_height, found.last_height);
        lemma_be_injective(written.block_count, found.block_count);
        lemma_be_injective(written.first_timestamp, found.first_timestamp);
        lemma_be_injective(written.last_timestamp, found.last_timestamp);
        lemma_digest_ext(written.first_digest, found.first_digest);
        lemma_digest_ext(written.last_digest, found.last_digest);
    }
}

/// Where the fields of block metadata stand in its encoding.
proof fn lemma_block_meta_fields(meta: BlockMeta)
    ensures
        meta.bytes().subrange(0, 8) == be_bytes(meta.height),
        meta.bytes().subrange(8, 40) == meta.digest@,
        meta.bytes().subrange(40, 48) == be_bytes(meta.timestamp),
{
    assert(meta.bytes().subrange(0, 8) =~= be_bytes(meta.height));
    assert(meta.bytes().subrange(8, 40) =~= meta.digest@);
    assert(meta.bytes().subrange(40, 48) =~= be_bytes(meta.timestamp));
}

/// Where the fields of batch metadata stand in its encoding.
proof fn lemma_batch_meta_fields(meta: BatchMeta)
    ensures
        meta.bytes().subrange(0, 8) == be_bytes(meta.first_height),
        meta.bytes().subrange(8, 16) == be_bytes(meta.last_height),
        meta.bytes().subrange(16, 24) == be_bytes(meta.block_count),
        meta.bytes().subrange(24, 56) == meta.first_digest@,
        meta.bytes().subrange(56, 88) == meta.last_digest@,
        meta.bytes().subrange(88, 96) == be_bytes(meta.first_timestamp),
        meta.bytes().subrange(96, 104) == be_bytes(meta.last_timestamp),
{
    assert(meta.bytes().subrange(0, 8) =~= be_bytes(meta.first_height));
    assert(meta.bytes().subrange(8, 16) =~= be_bytes(meta.last_height));
    assert(meta.bytes().subrange(16, 24) =~= be_bytes(meta.block_count));
    assert(meta.bytes().subrange(24, 56) =~= meta.first_digest@);
    assert(meta.bytes().subrange(56, 88) =~= meta.last_digest@);
    assert(meta.bytes().subrange(88, 96) =~= be_bytes(meta.first_timestamp));
    assert(meta.bytes().subrange(96, 104) =~= be_bytes(meta.last_timestamp));
}

/// Why bytes are no batch of blocks.
#[derive(Debug)]
pub enum DecodeError {
    /// The bytes end inside a number.
    EndOfBuffer,
    /// The number of blocks does not fit in memory.
    CountTooLarge,
    /// The length of a block does not fit in memory.
    LengthTooLarge,
    /// The bytes end inside a block.
    EndedEarly,
    /// Bytes are left behind the last block.
    TrailingBytes,
    /// The bytes of a block are no block, for the reason given.
    Block(String),
}

impl DecodeError {
    /// The reason in words.
    pub open spec fn text(self) -> Seq<char> {
        match self {
            DecodeError::EndOfBuffer =>
                "Unexpected End-of-Buffer: Not enough bytes remaining to read data"@,
            DecodeError::CountTooLarge => "encoded Alto block batch count does not fit usize"@,
            DecodeError::LengthTooLarge => "encoded Alto block length does not fit usize"@,
            DecodeError::EndedEarly => "encoded Alto block batch ended early"@,
            DecodeError::TrailingBytes => "encoded Alto block batch has trailing bytes"@,
            DecodeError::Block(reason) => reason@,
        }
    }

    /// The reason in words.
    pub fn message(&self) -> (message: String)
        ensures
            message@ == self.text(),
    {
        match self {
            DecodeError::EndOfBuffer =>
                "Unexpected End-of-Buffer: Not enough bytes remaining to read data".to_owned(),
            DecodeError::CountTooLarge =>
                "encoded Alto block batch count does not fit usize".to_owned(),
            DecodeError::LengthTooLarge =>
                "encoded Alto block length does not fit usize".to_owned(),
            DecodeError::EndedEarly => "encoded Alto block batch ended early".to_owned(),
            DecodeError::TrailingBytes => "encoded Alto block batch has trailing bytes".to_owned(),
            DecodeError::Block(reason) => reason.clone(),
        }
    }
}

/// The bytes of each of several byte vectors.
pub open spec fn views(parts: Seq<Vec<u8>>) -> Seq<Seq<u8>> {
    parts.map_values(|part: Vec<u8>| part@)
}

/// Encoded blocks one after the other, each behind its length.
pub open spec fn framed(parts: Seq<Seq<u8>>) -> Seq<u8>
    decreases parts.len(),
{
    if parts.len() == 0 {
        Seq::empty()
    } else {
        framed(parts.drop_last()) + be_bytes(parts.last().len() as u64) + parts.last()
    }
}

/// The payload of a batch of encoded blocks.
pub open spec fn batch_bytes(parts: Seq<Seq<u8>>) -> Seq<u8> {
    be_bytes(parts.len() as u64) + framed(parts)
}

/// The encoded blocks that bytes hold, given how many they are: each behind its length,
/// and nothing after the last.
pub open spec fn unframed(bytes: Seq<u8>, count: int) -> Result<Seq<Seq<u8>>, DecodeError>
    decreases count,
{
    if count <= 0 {
        if bytes.len() == 0 {
            Ok(Seq::empty())
        } else {
            Err(DecodeError::TrailingBytes)
        }
    } else if bytes.len() < U64_SIZE {
        Err(DecodeError::EndOfBuffer)
    } else {
        let len = be_value(bytes);
        if len > usize::MAX {
            Err(DecodeError::LengthTooLarge)
        } else if bytes.len() - U64_SIZE < len {
            Err(DecodeError::EndedEarly)
        } else {
            match unframed(bytes.skip(U64_SIZE + len), count - 1) {
                Ok(rest) => Ok(seq![bytes.subrange(U64_SIZE as int, U64_SIZE + len)] + rest),
                Err(error) => Err(error),
            }
        }
    }
}

/// The encoded blocks that the payload of a batch holds.
pub open spec fn batch_parts(payload: Seq<u8>) -> Result<Seq<Seq<u8>>, DecodeError> {
    if payload.len() < U64_SIZE {
        Err(DecodeError::EndOfBuffer)
    } else if be_value(payload) > usize::MAX {
        Err(DecodeError::CountTooLarge)
    } else {
        unframed(payload.skip(U64_SIZE as int), be_value(payload))
    }
}

/// Whether an encoder of blocks may give these bytes for a block.
pub open spec fn encodes_to<E: Fn(&Block) -> Vec<u8>>(
    encode: E,
    block: Block,
    bytes: Seq<u8>,
) -> bool {
    exists|encoded: Vec<u8>| #[trigger] encoded@ == bytes && call_ensures(encode, (&block,), encoded)
}

/// Whether a decoder of blocks may give this outcome for some bytes.
pub open spec fn decodes_to<D: Fn(&Vec<u8>) -> Result<Block, String>>(
    decode: D,
    bytes: Seq<u8>,
    outcome: Result<Block, String>,
) -> bool {
    exists|encoded: Vec<u8>| #[trigger] encoded@ == bytes && call_ensures(
        decode,
        (&encoded,),
        outcome,
    )
}

/// Whether a decoder gives back each of some blocks from what an encoder may give for it.
/// The encoder and the decoder of blocks are handed in, so this is theirs to keep.
pub open spec fn inverse<E: Fn(&Block) -> Vec<u8>, D: Fn(&Vec<u8>) -> Result<Block, String>>(
    encode: E,
    decode: D,
    blocks: Seq<Block>,
) -> bool {
    forall|i: int, bytes: Seq<u8>, found: Result<Block, String>|
        0 <= i < blocks.len() && #[trigger] encodes_to(encode, blocks[i], bytes)
            && #[trigger] decodes_to(decode, bytes, found) ==> found == Ok::<Block, String>(
            blocks[i],
        )
}

/// Whether an encoder never gives the same bytes for two blocks.
pub open spec fn distinguishes<E: Fn(&Block) -> Vec<u8>>(encode: E) -> bool {
    forall|a: Block, b: Block, bytes: Seq<u8>| #[trigger]
        encodes_to(encode, a, bytes) && #[trigger] encodes_to(encode, b, bytes) ==> a == b
}

/// Whether a payload is that of a batch of blocks, as an encoder gives their bytes.
pub open spec fn batch_encodes<E: Fn(&Block) -> Vec<u8>>(
    encode: E,
    blocks: Seq<Block>,
    payload: Seq<u8>,
) -> bool {
    exists|parts: Seq<Seq<u8>>|
        {
            &&& payload == #[trigger] batch_bytes(parts)
            &&& parts.len() == blocks.len()
            &&& forall|i: int| 0 <= i < blocks.len() ==> encodes_to(encode, blocks[i], #[trigger] parts[i])
        }
}

/// Whether a decoder gives a block for each of some encoded blocks.
pub open spec fn parts_decode<D: Fn(&Vec<u8>) -> Result<Block, String>>(
    decode: D,
    parts: Seq<Seq<u8>>,
    blocks: Seq<Block>,
) -> bool {
    &&& blocks.len() == parts.len()
    &&& forall|i: int| 0 <= i < parts.len() ==> decodes_to(decode, parts[i], Ok(#[trigger] blocks[i]))
}

/// Whether a decoder gives blocks for the first of some encoded blocks and then fails on
/// one, with this reason.
pub open spec fn parts_fail<D: Fn(&Vec<u8>) -> Result<Block, String>>(
    decode: D,
    parts: Seq<Seq<u8>>,
    reason: String,
) -> bool {
    exists|blocks: Seq<Block>|
        {
            &&& blocks.len() < parts.len()
            &&& #[trigger] parts_decode(decode, parts.take(blocks.len() as int), blocks)
            &&& decodes_to(decode, parts[blocks.len() as int], Err(reason))
        }
}

/// Whether an outcome is what decoding encoded blocks one by one comes to: all blocks, or
/// the reason why the first that fails does.
pub open spec fn parts_outcome<D: Fn(&Vec<u8>) -> Result<Block, String>>(
    decode: D,
    parts: Seq<Seq<u8>>,
    outcome: Result<Vec<Block>, DecodeError>,
) -> bool {
    match outcome {
        Ok(blocks) => parts_decode(decode, parts, blocks@),
        Err(DecodeError::Block(reason)) => parts_fail(decode, parts, reason),
        Err(_) => false,
    }
}

/// Whether an outcome is what decoding the payload of a batch comes to.
pub open spec fn batch_outcome<D: Fn(&Vec<u8>) -> Result<Block, String>>(
    decode: D,
    payload: Seq<u8>,
    outcome: Result<Vec<Block>, DecodeError>,
) -> bool {
    match batch_parts(payload) {
        Ok(parts) => parts_outcome(decode, parts, outcome),
        Err(error) => outcome == Err::<Vec<Block>, DecodeError>(error),
    }
}

/// Encodes a batch of blocks into one payload.
pub fn encode_block_batch<E: Fn(&Block) -> Vec<u8>>(blocks: &Vec<Block>, encode: &E) -> (payload:
    Vec<u8>)
    requires
        forall|block: &Block| call_requires(*encode, (block,)),
    ensures
        batch_encodes(*encode, blocks@, payload@),
{
    let mut payload: Vec<u8> = Vec::new();
    write_u64(&mut payload, blocks.len() as u64);
    let ghost mut parts: Seq<Seq<u8>> = Seq::empty();
    assert(payload@ =~= be_bytes(blocks@.len() as u64) + framed(parts));
    let mut i: usize = 0;
    while i < blocks.len()
        invariant
            i <= blocks@.len(),
            forall|block: &Block| call_requires(*encode, (block,)),
            parts.len() == i,
            payload@ == be_bytes(blocks@.len() as u64) + framed(parts),
            forall|j: int| 0 <= j < i ==> encodes_to(*encode, blocks@[j], #[trigger] parts[j]),
        decreases blocks@.len() - i,
    {
        let mut encoded = encode(&blocks[i]);
        let ghost bytes = encoded@;
        let ghost before = parts;
        proof {
            assert(encodes_to(*encode, blocks@[i as int], bytes));
            parts = parts.push(bytes);
            assert(parts.drop_last() =~= before);
        }
        write_u64(&mut payload, encoded.len() as u64);
        payload.append(&mut encoded);
        assert(payload@ =~= be_bytes(blocks@.len() as u64) + framed(parts));
        i += 1;
    }
    assert(payload@ == batch_bytes(parts));
    payload
}

/// Cuts the payload of a batch into its encoded blocks.
pub fn decode_block_payloads(payload: &Vec<u8>) -> (parts: Result<Vec<Vec<u8>>, DecodeError>)
    ensures
        match batch_parts(payload@) {
            Ok(expected) => parts matches Ok(found) && views(found@) == expected,
            Err(error) => parts == Err::<Vec<Vec<u8>>, DecodeError>(error),
        },
{
    let bytes = payload.as_slice();
    let count = match read_u64(bytes, 0) {
        Some(count) => count,
        None => {
            return Err(DecodeError::EndOfBuffer);
        },
    };
    proof {
        assert(bytes@.skip(0) =~= payload@);
        lemma_be_exact(payload@);
    }
    if count > usize::MAX as u64 {
        return Err(DecodeError::CountTooLarge);
    }
    let mut parts: Vec<Vec<u8>> = Vec::new();
    let mut at: usize = 8;
    let mut left: u64 = count;
    let ghost expected = unframed(payload@.skip(8), count as int);
    assert(views(parts@) =~= Seq::<Seq<u8>>::empty());
    assert(expected matches Ok(all) ==> all == views(parts@) + all);
    while left > 0
        invariant
            bytes@ == payload@,
            at <= payload@.len(),
            match unframed(payload@.skip(at as int), left as int) {
                Ok(rest) => expected == Ok::<Seq<Seq<u8>>, DecodeError>(views(parts@) + rest),
                Err(error) => expected == Err::<Seq<Seq<u8>>, DecodeError>(error),
            },
            batch_parts(payload@) == expected,
        decreases left,
    {
        let ghost tail = payload@.skip(at as int);
        let len = match read_u64(bytes, at) {
            Some(len) => len,
            None => {
                return Err(DecodeError::EndOfBuffer);
            },
        };
        proof {
            lemma_be_exact(tail);
        }
        if len > usize::MAX as u64 {
            return Err(DecodeError::LengthTooLarge);
        }
        let len = len as usize;
        if bytes.len() - at - 8 < len {
            return Err(DecodeError::EndedEarly);
        }
        let part = slice_to_vec(slice_subrange(bytes, at + 8, at + 8 + len));
        let ghost before = views(parts@);
        proof {
            assert(part@ =~= tail.subrange(8, 8 + len));
            assert(tail.skip(8 + len) =~= payload@.skip(at + 8 + len));
        }
        parts.push(part);
        proof {
            assert(views(parts@) =~= before.push(part@));
            match unframed(payload@.skip(at + 8 + len), left - 1) {
                Ok(rest) => {
                    assert(before + (seq![part@] + rest) =~= views(parts@) + rest);
                },
                Err(_) => {},
            }
        }
        at = at + 8 + len;
        left -= 1;
    }
    if at < bytes.len() {
        assert(payload@.skip(at as int).len() > 0);
        return Err(DecodeError::TrailingBytes);
    }
    assert(payload@.skip(at as int) =~= Seq::<u8>::empty());
    assert(views(parts@) + Seq::<Seq<u8>>::empty() =~= views(parts@));
    Ok(parts)
}

/// Decodes encoded blocks one by one, up to the first that fails.
pub fn decode_blocks<D: Fn(&Vec<u8>) -> Result<Block, String>>(
    parts: &Vec<Vec<u8>>,
    decode: &D,
) -> (blocks: Result<Vec<Block>, DecodeError>)
    requires
        forall|encoded: &Vec<u8>| call_requires(*decode, (encoded,)),
    ensures
        parts_outcome(*decode, views(parts@), blocks),
{
    let mut blocks: Vec<Block> = Vec::new();
    let mut i: usize = 0;
    while i < parts.len()
        invariant
            i <= parts@.len(),
            forall|encoded: &Vec<u8>| call_requires(*decode, (encoded,)),
            parts_decode(*decode, views(parts@).take(i as int), blocks@),
        decreases parts@.len() - i,
    {
        let ghost whole = views(parts@);
        match decode(&parts[i]) {
            Ok(block) => {
                proof {
                    assert(parts@[i as int]@ == whole[i as int]);
                    assert(decodes_to(*decode, whole[i as int], Ok(block)));
                    let sooner = blocks@;
                    assert forall|j: int| 0 <= j < i + 1 implies decodes_to(
                        *decode,
                        whole.take(i + 1)[j],
                        Ok(#[trigger] sooner.push(block)[j]),
                    ) by {
                        if j < i {
                            assert(whole.take(i as int)[j] == whole.take(i + 1)[j]);
                            assert(decodes_to(*decode, whole.take(i as int)[j], Ok(sooner[j])));
                        }
                    }
                }
                blocks.push(block);
            },
            Err(reason) => {
                proof {
                    assert(parts@[i as int]@ == whole[i as int]);
                    assert(decodes_to(*decode, whole[i as int], Err(reason)));
                    assert(parts_decode(*decode, whole.take(blocks@.len() as int), blocks@));
                    assert(parts_fail(*decode, whole, reason));
                }
                return Err(DecodeError::Block(reason));
            },
        }
        i += 1;
    }
    assert(views(parts@).take(i as int) =~= views(parts@));
    Ok(blocks)
}

/// Decodes the payload of a batch into its blocks.
pub fn decode_block_batch<D: Fn(&Vec<u8>) -> Result<Block, String>>(
    payload: &Vec<u8>,
    decode: &D,
) -> (blocks: Result<Vec<Block>, DecodeError>)
    requires
        forall|encoded: &Vec<u8>| call_requires(*decode, (encoded,)),
    ensures
        batch_outcome(*decode, payload@, blocks),
{
    match decode_block_payloads(payload) {
        Ok(parts) => decode_blocks(&parts, decode),
        Err(error) => Err(error),
    }
}

/// Cutting off the last block of a framed sequence: what was framed is read back, and
/// reading goes on behind it.
proof fn lemma_unframe(parts: Seq<Seq<u8>>, rest: Seq<u8>, count: int)
    requires
        count >= 0,
        forall|i: int| 0 <= i < parts.len() ==> (#[trigger] parts[i]).len() <= usize::MAX,
    ensures
        unframed(framed(parts) + rest, parts.len() + count) == match unframed(rest, count) {
            Ok(more) => Ok::<Seq<Seq<u8>>, DecodeError>(parts + more),
            Err(error) => Err(error),
        },
    decreases parts.len(),
{
    if parts.len() == 0 {
        assert(framed(parts) + rest =~= rest);
        match unframed(rest, count) {
            Ok(more) => {
                assert(parts + more =~= more);
            },
            Err(_) => {},
        }
    } else {
        let sooner = parts.drop_last();
        let last = parts.last();
        let n = last.len() as int;
        let one = be_bytes(n as u64) + last + rest;
        assert forall|i: int| 0 <= i < sooner.len() implies (#[trigger] sooner[i]).len()
            <= usize::MAX by {
            assert(sooner[i] == parts[i]);
        }
        assert(parts[parts.len() - 1].len() <= usize::MAX);
        assert(framed(parts) + rest =~= framed(sooner) + one);
        lemma_unframe(sooner, one, count + 1);
        lemma_be_round_trip(n as u64, last + rest);
        assert(one =~= be_bytes(n as u64) + (last + rest));
        assert(be_value(one) == n);
        assert(one.subrange(8, 8 + n) =~= last);
        assert(one.skip(8 + n) =~= rest);
        match unframed(rest, count) {
            Ok(more) => {
                assert(sooner + (seq![last] + more) =~= parts + more);
            },
            Err(_) => {},
        }
    }
}

/// Cutting a payload gives back the encoded blocks that it was made of.
pub proof fn law_payload_round_trip(parts: Seq<Seq<u8>>)
    requires
        parts.len() <= usize::MAX,
        forall|i: int| 0 <= i < parts.len() ==> (#[trigger] parts[i]).len() <= usize::MAX,
    ensures
        batch_parts(batch_bytes(parts)) == Ok::<Seq<Seq<u8>>, DecodeError>(parts),
{
    let payload = batch_bytes(parts);
    lemma_be_round_trip(parts.len() as u64, framed(parts));
    assert(payload.skip(8) =~= framed(parts) + Seq::<u8>::empty());
    lemma_unframe(parts, Seq::empty(), 0);
    assert(parts + Seq::<Seq<u8>>::empty() =~= parts);
}

/// A payload that can be cut is the payload of what it was cut into: no two payloads
/// hold the same encoded blocks.
pub proof fn law_payload_is_canonical(payload: Seq<u8>)
    requires
        batch_parts(payload) is Ok,
    ensures
        payload == batch_bytes(batch_parts(payload)->Ok_0),
{
    lemma_be_exact(payload);
    let count = be_value(payload);
    lemma_reframe(payload.skip(8), count);
    assert(payload =~= be_bytes(count as u64) + payload.skip(8));
}

/// Framing what was unframed gives the bytes back.
proof fn lemma_reframe(bytes: Seq<u8>, count: int)
    requires
        unframed(bytes, count) is Ok,
        count >= 0,
    ensures
        unframed(bytes, count)->Ok_0.len() == count,
        framed(unframed(bytes, count)->Ok_0) == bytes,
    decreases count,
{
    let parts = unframed(bytes, count)->Ok_0;
    if count > 0 {
        lemma_be_exact(bytes);
        let n = be_value(bytes);
        let tail = bytes.skip(8 + n);
        let rest = unframed(tail, count - 1)->Ok_0;
        lemma_reframe(tail, count - 1);
        let first = bytes.subrange(8, 8 + n);
        assert(parts == seq![first] + rest);
        lemma_framed_first(first, rest);
        assert(bytes =~= be_bytes(n as u64) + first + tail);
    } else {
        assert(bytes =~= Seq::<u8>::empty());
    }
}

/// A framed sequence begins with its first block behind its length.
proof fn lemma_framed_first(first: Seq<u8>, rest: Seq<Seq<u8>>)
    ensures
        framed(seq![first] + rest) == be_bytes(first.len() as u64) + first + framed(rest),
    decreases rest.len(),
{
    let parts = seq![first] + rest;
    if rest.len() == 0 {
        assert(parts =~= seq![first]);
        assert(parts.drop_last() =~= Seq::<Seq<u8>>::empty());
        assert(framed(parts.drop_last()) =~= Seq::<u8>::empty());
        assert(framed(parts) =~= be_bytes(first.len() as u64) + first + framed(rest));
    } else {
        assert(parts.drop_last() =~= seq![first] + rest.drop_last());
        lemma_framed_first(first, rest.drop_last());
        assert(framed(parts) =~= be_bytes(first.len() as u64) + first + framed(rest));
    }
}

/// What encoded blocks decode to, where they are those of some blocks: the blocks.
proof fn lemma_parts_decode_back<
    E: Fn(&Block) -> Vec<u8>,
    D: Fn(&Vec<u8>) -> Result<Block, String>,
>(encode: E, decode: D, blocks: Seq<Block>, parts: Seq<Seq<u8>>, found: Seq<Block>)
    requires
        inverse(encode, decode, blocks),
        parts.len() == blocks.len(),
        forall|i: int| 0 <= i < blocks.len() ==> encodes_to(encode, blocks[i], #[trigger] parts[i]),
        parts_decode(decode, parts, found),
    ensures
        found == blocks,
{
    assert forall|i: int| 0 <= i < blocks.len() implies found[i] == blocks[i] by {
        assert(encodes_to(encode, blocks[i], parts[i]));
        assert(decodes_to(decode, parts[i], Ok(found[i])));
    }
    assert(found =~= blocks);
}

/// Decoding does not fail on encoded blocks that are those of some blocks.
proof fn lemma_parts_do_not_fail<
    E: Fn(&Block) -> Vec<u8>,
    D: Fn(&Vec<u8>) -> Result<Block, String>,
>(encode: E, decode: D, blocks: Seq<Block>, parts: Seq<Seq<u8>>, reason: String)
    requires
        inverse(encode, decode, blocks),
        parts.len() == blocks.len(),
        forall|i: int| 0 <= i < blocks.len() ==> encodes_to(encode, blocks[i], #[trigger] parts[i]),
    ensures
        !parts_fail(decode, parts, reason),
{
    if parts_fail(decode, parts, reason) {
        let sooner = choose|sooner: Seq<Block>|
            {
                &&& sooner.len() < parts.len()
                &&& #[trigger] parts_decode(decode, parts.take(sooner.len() as int), sooner)
                &&& decodes_to(decode, parts[sooner.len() as int], Err(reason))
            };
        let k = sooner.len() as int;
        assert(encodes_to(encode, blocks[k], parts[k]));
        assert(decodes_to(decode, parts[k], Err(reason)));
    }
}

/// The encoded blocks of a payload, where it is that of some blocks.
pub proof fn lemma_encoded_parts<E: Fn(&Block) -> Vec<u8>>(
    encode: E,
    blocks: Seq<Block>,
    payload: Seq<u8>,
) -> (parts: Seq<Seq<u8>>)
    requires
        blocks.len() <= usize::MAX,
        batch_encodes(encode, blocks, payload),
    ensures
        batch_parts(payload) == Ok::<Seq<Seq<u8>>, DecodeError>(parts),
        parts.len() == blocks.len(),
        forall|i: int| 0 <= i < blocks.len() ==> encodes_to(encode, blocks[i], #[trigger] parts[i]),
{
    let parts = choose|parts: Seq<Seq<u8>>|
        {
            &&& payload == #[trigger] batch_bytes(parts)
            &&& parts.len() == blocks.len()
            &&& forall|i: int| 0 <= i < blocks.len() ==> encodes_to(encode, blocks[i], #[trigger] parts[i])
        };
    assert forall|i: int| 0 <= i < parts.len() implies (#[trigger] parts[i]).len() <= usize::MAX by {
        assert(encodes_to(encode, blocks[i], parts[i]));
        let encoded = choose|encoded: Vec<u8>| #[trigger]
            encoded@ == parts[i] && call_ensures(encode, (&blocks[i],), encoded);
        assert(encoded@.len() == encoded.len());
    }
    law_payload_round_trip(parts);
    parts
}

/// What decoding the encoded blocks of a batch comes to, as long as decoding an encoded
/// block gives the block back: the blocks.
pub proof fn law_encoded_blocks_decode_back<
    E: Fn(&Block) -> Vec<u8>,
    D: Fn(&Vec<u8>) -> Result<Block, String>,
>(
    encode: E,
    decode: D,
    blocks: Seq<Block>,
    parts: Seq<Seq<u8>>,
    found: Seq<Block>,
    reason: String,
)
    requires
        inverse(encode, decode, blocks),
        parts.len() == blocks.len(),
        forall|i: int| 0 <= i < blocks.len() ==> encodes_to(encode, blocks[i], #[trigger] parts[i]),
    ensures
        parts_decode(decode, parts, found) ==> found == blocks,
        !parts_fail(decode, parts, reason),
{
    lemma_parts_do_not_fail(encode, decode, blocks, parts, reason);
    if parts_decode(decode, parts, found) {
        lemma_parts_decode_back(encode, decode, blocks, parts, found);
    }
}

/// Decoding an encoded batch gives its blocks back, as long as decoding an encoded block
/// gives the block back.
pub proof fn law_batch_round_trip<
    E: Fn(&Block) -> Vec<u8>,
    D: Fn(&Vec<u8>) -> Result<Block, String>,
>(
    encode: E,
    decode: D,
    blocks: Seq<Block>,
    payload: Seq<u8>,
    outcome: Result<Vec<Block>, DecodeError>,
)
    requires
        blocks.len() <= usize::MAX,
        inverse(encode, decode, blocks),
        batch_encodes(encode, blocks, payload),
        batch_outcome(decode, payload, outcome),
    ensures
        outcome matches Ok(found) && found@ == blocks,
{
    let parts = lemma_encoded_parts(encode, blocks, payload);
    match outcome {
        Ok(found) => {
            lemma_parts_decode_back(encode, decode, blocks, parts, found@);
        },
        Err(DecodeError::Block(reason)) => {
            lemma_parts_do_not_fail(encode, decode, blocks, parts, reason);
        },
        Err(_) => {},
    }
}

/// Two lists of blocks with the same payload are the same, in the same order, as long as no
/// two blocks have the same encoding.
pub proof fn law_batch_encoding_is_injective<E: Fn(&Block) -> Vec<u8>>(
    encode: E,
    a: Seq<Block>,
    b: Seq<Block>,
    payload: Seq<u8>,
)
    requires
        a.len() <= usize::MAX,
        b.len() <= usize::MAX,
        distinguishes(encode),
        batch_encodes(encode, a, payload),
        batch_encodes(encode, b, payload),
    ensures
        a == b,
{
    let parts = lemma_encoded_parts(encode, a, payload);
    let same = lemma_encoded_parts(encode, b, payload);
    assert(parts == same);
    assert forall|i: int| 0 <= i < a.len() implies a[i] == b[i] by {
        assert(encodes_to(encode, a[i], parts[i]));
        assert(encodes_to(encode, b[i], parts[i]));
    }
    assert(a =~= b);
}

/// The metadata of a block is the block's own: its height, the digest that identifies it
/// and its timestamp.
pub proof fn law_block_metadata_is_its_own(block: Block, meta: BlockMeta)
    requires
        call_ensures(BlockMeta::from_block, (&block,), meta),
    ensures
        meta.height == block.height,
        meta.digest == block.digest,
        meta.timestamp == block.timestamp,
{
}

/// The metadata of a batch names its ends: what is kept of its first and of its last block
/// agrees with the metadata of these blocks, and the count is that of its blocks.
pub proof fn law_batch_metadata_names_its_ends(
    blocks: Vec<Block>,
    meta: BatchMeta,
    first: BlockMeta,
    last: BlockMeta,
)
    requires
        blocks@.len() > 0,
        call_ensures(BatchMeta::from_blocks, (&blocks,), meta),
        call_ensures(BlockMeta::from_block, (&blocks@.first(),), first),
        call_ensures(BlockMeta::from_block, (&blocks@.last(),), last),
    ensures
        meta.first_height == first.height == blocks@[0].height,
        meta.first_digest == first.digest,
        first.digest == blocks@[0].digest,
        meta.first_timestamp == first.timestamp == blocks@[0].timestamp,
        meta.last_height == last.height == blocks@[blocks@.len() - 1].height,
        meta.last_digest == last.digest,
        last.digest == blocks@[blocks@.len() - 1].digest,
        meta.last_timestamp == last.timestamp == blocks@[blocks@.len() - 1].timestamp,
        meta.block_count == blocks@.len(),
{
    assert(blocks@.len() == blocks.len());
}

/// The metadata of two batches put together begins as that of the first, ends as that of
/// the second and counts the blocks of both.
pub proof fn law_batch_metadata_composes(first: Seq<Block>, second: Seq<Block>)
    requires
        first.len() > 0,
        second.len() > 0,
        first.len() + second.len() <= u64::MAX,
    ensures
        ({
            let whole = BatchMeta::of(first + second);
            let a = BatchMeta::of(first);
            let b = BatchMeta::of(second);
            &&& whole.first_height == a.first_height == first[0].height
            &&& whole.first_digest == a.first_digest
            &&& a.first_digest == first[0].digest
            &&& whole.first_timestamp == a.first_timestamp == first[0].timestamp
            &&& whole.last_height == b.last_height == second.last().height
            &&& whole.last_digest == b.last_digest
            &&& b.last_digest == second.last().digest
            &&& whole.last_timestamp == b.last_timestamp == second.last().timestamp
            &&& whole.block_count == a.block_count + b.block_count
            &&& a.block_count == first.len()
        }),
{
    assert((first + second).last() == second.last());
}

/// How the metadata of a block is written behind what was there: eight bytes of its
/// height, its digest, eight bytes of its timestamp.
pub proof fn law_block_metadata_layout(meta: BlockMeta, buf: &mut Vec<u8>)
    requires
        call_ensures(BlockMeta::write, (&meta, buf), ()),
    ensures
        ({
            let n = old(buf)@.len() as int;
            &&& final(buf)@.len() == n + 48
            &&& final(buf)@.take(n) == old(buf)@
            &&& final(buf)@.subrange(n, n + 8) == be_bytes(meta.height)
            &&& final(buf)@.subrange(n + 8, n + 40) == meta.digest@
            &&& final(buf)@.subrange(n + 40, n + 48) == be_bytes(meta.timestamp)
        }),
{
    let n = old(buf)@.len() as int;
    let bytes = meta.bytes();
    lemma_block_meta_fields(meta);
    assert(bytes.len() == 48);
    assert(final(buf)@.take(n) =~= old(buf)@);
    assert(final(buf)@.subrange(n, n + 8) =~= bytes.subrange(0, 8));
    assert(final(buf)@.subrange(n + 8, n + 40) =~= bytes.subrange(8, 40));
    assert(final(buf)@.subrange(n + 40, n + 48) =~= bytes.subrange(40, 48));
}

/// How the metadata of a batch is written behind what was there: first and last height and
/// count in eight bytes each, first and last digest, first and last timestamp in eight
/// bytes each.
pub proof fn law_batch_metadata_layout(meta: BatchMeta, buf: &mut Vec<u8>)
    requires
        call_ensures(BatchMeta::write, (&meta, buf), ()),
    ensures
        ({
            let n = old(buf)@.len() as int;
            &&& final(buf)@.len() == n + 104
            &&& final(buf)@.take(n) == old(buf)@
            &&& final(buf)@.subrange(n, n + 8) == be_bytes(meta.first_height)
            &&& final(buf)@.subrange(n + 8, n + 16) == be_bytes(meta.last_height)
            &&& final(buf)@.subrange(n + 16, n + 24) == be_bytes(meta.block_count)
            &&& final(buf)@.subrange(n + 24, n + 56) == meta.first_digest@
            &&& final(buf)@.subrange(n + 56, n + 88) == meta.last_digest@
            &&& final(buf)@.subrange(n + 88, n + 96) == be_bytes(meta.first_timestamp)
            &&& final(buf)@.subrange(n + 96, n + 104) == be_bytes(meta.last_timestamp)
        }),
{
    let n = old(buf)@.len() as int;
    let bytes = meta.bytes();
    lemma_batch_meta_fields(meta);
    assert(bytes.len() == 104);
    assert(final(buf)@.take(n) =~= old(buf)@);
    assert(final(buf)@.subrange(n, n + 8) =~= bytes.subrange(0, 8));
    assert(final(buf)@.subrange(n + 8, n + 16) =~= bytes.subrange(8, 16));
    assert(final(buf)@.subrange(n + 16, n + 24) =~= bytes.subrange(16, 24));
    assert(final(buf)@.subrange(n + 24, n + 56) =~= bytes.subrange(24, 56));
    assert(final(buf)@.subrange(n + 56, n + 88) =~= bytes.subrange(56, 88));
    assert(final(buf)@.subrange(n + 88, n + 96) =~= bytes.subrange(88, 96));
    assert(final(buf)@.subrange(n + 96, n + 104) =~= bytes.subrange(96, 104));
}

/// Metadata of a block that was written is read back by the reader, and too few bytes are
/// nothing.
pub proof fn law_block_metadata_is_read_as_written(
    meta: BlockMeta,
    buf: &mut Vec<u8>,
    bytes: &[u8],
    rest: Seq<u8>,
    read: Option<BlockMeta>,
)
    requires
        old(buf)@.len() == 0,
        call_ensures(BlockMeta::write, (&meta, buf), ()),
        call_ensures(BlockMeta::read, (bytes,), read),
    ensures
        bytes@ == final(buf)@ + rest ==> read == Some(meta),
        bytes@.len() < 48 <==> read is None,
{
    if bytes@ == final(buf)@ + rest {
        assert(final(buf)@ =~= meta.bytes());
        BlockMeta::law_round_trip(meta, rest, read);
    }
}

/// Metadata of a batch that was written is read back by the reader, and too few bytes are
/// nothing.
pub proof fn law_batch_metadata_is_read_as_written(
    meta: BatchMeta,
    buf: &mut Vec<u8>,
    bytes: &[u8],
    rest: Seq<u8>,
    read: Option<BatchMeta>,
)
    requires
        old(buf)@.len() == 0,
        call_ensures(BatchMeta::write, (&meta, buf), ()),
        call_ensures(BatchMeta::read, (bytes,), read),
    ensures
        bytes@ == final(buf)@ + rest ==> read == Some(meta),
        bytes@.len() < 104 <==> read is None,
{
    if bytes@ == final(buf)@ + rest {
        assert(final(buf)@ =~= meta.bytes());
        BatchMeta::law_round_trip(meta, rest, read);
    }
}

/// How a payload is laid out: the count in eight bytes, and each further encoded block
/// behind eight bytes of its length, after those before it.
pub proof fn law_payload_layout(parts: Seq<Seq<u8>>, part: Seq<u8>)
    ensures
        batch_bytes(Seq::empty()) == be_bytes(0),
        batch_bytes(parts).len() >= 8,
        batch_bytes(parts).take(8) == be_bytes(parts.len() as u64),
        batch_bytes(parts.push(part)).skip(8) == batch_bytes(parts).skip(8) + be_bytes(
            part.len() as u64,
        ) + part,
{
    assert(batch_bytes(Seq::empty()) =~= be_bytes(0));
    assert(batch_bytes(parts).take(8) =~= be_bytes(parts.len() as u64));
    assert(batch_bytes(parts).skip(8) =~= framed(parts));
    assert(parts.push(part).drop_last() =~= parts);
    assert(batch_bytes(parts.push(part)).skip(8) =~= framed(parts.push(part)));
}

/// The payload of a batch holds what the encoder gives for each of its blocks, in their
/// order.
pub proof fn law_payload_holds_the_encoded_blocks<E: Fn(&Block) -> Vec<u8>>(
    blocks: Vec<Block>,
    encode: E,
    payload: Vec<u8>,
)
    requires
        call_ensures(encode_block_batch::<E>, (&blocks, &encode), payload),
    ensures
        exists|parts: Seq<Seq<u8>>| #[trigger]
            batch_bytes(parts) == payload@ && parts.len() == blocks@.len() && forall|i: int|
                0 <= i < parts.len() ==> exists|encoded: Vec<u8>| #[trigger]
                    encoded@ == #[trigger] parts[i] && call_ensures(encode, (&blocks@[i],), encoded),
{
    let parts = choose|parts: Seq<Seq<u8>>|
        {
            &&& payload@ == #[trigger] batch_bytes(parts)
            &&& parts.len() == blocks@.len()
            &&& forall|i: int|
                0 <= i < blocks@.len() ==> encodes_to(encode, blocks@[i], #[trigger] parts[i])
        };
    assert forall|i: int| 0 <= i < parts.len() implies exists|encoded: Vec<u8>| #[trigger]
        encoded@ == #[trigger] parts[i] && call_ensures(encode, (&blocks@[i],), encoded) by {
        assert(encodes_to(encode, blocks@[i], parts[i]));
    }
    assert(batch_bytes(parts) == payload@);
}

/// Cutting a payload gives parts that it is the payload of, and bytes behind a payload are
/// noticed.
pub proof fn law_cut_payloads_are_whole(
    payload: Vec<u8>,
    cut: Result<Vec<Vec<u8>>, DecodeError>,
    extended: Vec<u8>,
    more: Result<Vec<Vec<u8>>, DecodeError>,
    rest: Seq<u8>,
)
    requires
        call_ensures(decode_block_payloads, (&payload,), cut),
        call_ensures(decode_block_payloads, (&extended,), more),
        extended@ == payload@ + rest,
        rest.len() > 0,
    ensures
        cut matches Ok(parts) ==> {
            &&& payload@ == batch_bytes(views(parts@))
            &&& more == Err::<Vec<Vec<u8>>, DecodeError>(DecodeError::TrailingBytes)
        },
        payload@.len() < 8 ==> cut == Err::<Vec<Vec<u8>>, DecodeError>(DecodeError::EndOfBuffer),
{
    if let Ok(parts) = cut {
        law_payload_is_canonical(payload@);
        lemma_be_prefix(payload@, rest);
        let count = be_value(payload@);
        lemma_be_exact(payload@);
        assert(extended@.skip(8) =~= payload@.skip(8) + rest);
        lemma_trailing_bytes(payload@.skip(8), rest, count);
    }
}

/// The number at the front of bytes does not depend on what follows it.
proof fn lemma_be_prefix(bytes: Seq<u8>, rest: Seq<u8>)
    requires
        bytes.len() >= 8,
    ensures
        be_value(bytes + rest) == be_value(bytes),
{
    reveal(be_value);
}

/// Bytes behind what can be cut are noticed.
proof fn lemma_trailing_bytes(bytes: Seq<u8>, rest: Seq<u8>, count: int)
    requires
        unframed(bytes, count) is Ok,
        rest.len() > 0,
    ensures
        unframed(bytes + rest, count) == Err::<Seq<Seq<u8>>, DecodeError>(
            DecodeError::TrailingBytes,
        ),
    decreases count,
{
    if count > 0 {
        let len = be_value(bytes);
        lemma_be_prefix(bytes, rest);
        lemma_be_exact(bytes);
        assert((bytes + rest).skip(8 + len) =~= bytes.skip(8 + len) + rest);
        lemma_trailing_bytes(bytes.skip(8 + len), rest, count - 1);
    }
}

/// A payload that was cut short is never cut into blocks.
pub proof fn law_short_payloads_are_refused(
    payload: Vec<u8>,
    cut: Result<Vec<Vec<u8>>, DecodeError>,
    short: Vec<u8>,
    less: Result<Vec<Vec<u8>>, DecodeError>,
    rest: Seq<u8>,
)
    requires
        call_ensures(decode_block_payloads, (&payload,), cut),
        call_ensures(decode_block_payloads, (&short,), less),
        payload@ == short@ + rest,
        rest.len() > 0,
        cut is Ok,
    ensures
        less is Err,
{
    if less is Ok {
        law_cut_payloads_are_whole(short, less, payload, cut, rest);
    }
}

/// Whether a decoder may give a block for some bytes.
pub open spec fn may_decode<D: Fn(&Vec<u8>) -> Result<Block, String>>(
    decode: D,
    bytes: Seq<u8>,
) -> bool {
    exists|block: Block| #[trigger] decodes_to(decode, bytes, Ok::<Block, String>(block))
}

/// Decoding encoded blocks: each block that comes back is what the decoder gave for its
/// part, in their order; a failure is that of the first part that the decoder refused,
/// with its reason.
pub proof fn law_blocks_decode_one_by_one<D: Fn(&Vec<u8>) -> Result<Block, String>>(
    parts: Vec<Vec<u8>>,
    decode: D,
    decoded: Result<Vec<Block>, DecodeError>,
    i: int,
)
    requires
        call_ensures(decode_blocks::<D>, (&parts, &decode), decoded),
        0 <= i < parts@.len(),
    ensures
        decoded matches Ok(blocks) ==> blocks@.len() == parts@.len() && exists|encoded: Vec<u8>|
            #[trigger] encoded@ == parts@[i]@ && call_ensures(decode, (&encoded,), Ok(blocks@[i])),
        decoded matches Err(error) ==> error is Block,
        decoded matches Err(DecodeError::Block(reason)) ==> exists|k: int|
            {
                &&& 0 <= k < parts@.len()
                &&& decodes_to(decode, (#[trigger] parts@[k])@, Err(reason))
                &&& forall|j: int| 0 <= j < k ==> may_decode(decode, (#[trigger] parts@[j])@)
            },
{
    let all = views(parts@);
    match decoded {
        Ok(blocks) => {
            assert(decodes_to(decode, all[i], Ok(blocks@[i])));
            assert(all[i] == parts@[i]@);
        },
        Err(DecodeError::Block(reason)) => {
            let sooner = choose|sooner: Seq<Block>|
                {
                    &&& sooner.len() < all.len()
                    &&& #[trigger] parts_decode(decode, all.take(sooner.len() as int), sooner)
                    &&& decodes_to(decode, all[sooner.len() as int], Err(reason))
                };
            let k = sooner.len() as int;
            assert(parts_fail(decode, all, reason));
            assert(all[k] == parts@[k]@);
            assert(decodes_to(decode, parts@[k]@, Err(reason)));
            assert forall|j: int| 0 <= j < k implies may_decode(decode, (#[trigger] parts@[j])@) by {
                assert(decodes_to(decode, all.take(k)[j], Ok(sooner[j])));
                assert(all.take(k)[j] == parts@[j]@);
            }
        },
        Err(_) => {},
    }
}

/// Decoding a payload fails with what cutting it fails with, and otherwise comes to what
/// decoding its parts comes to.
pub proof fn law_decoding_cuts_first<D: Fn(&Vec<u8>) -> Result<Block, String>>(
    payload: Vec<u8>,
    decode: D,
    cut: Result<Vec<Vec<u8>>, DecodeError>,
    decoded: Result<Vec<Block>, DecodeError>,
    i: int,
)
    requires
        call_ensures(decode_block_payloads, (&payload,), cut),
        call_ensures(decode_block_batch::<D>, (&payload, &decode), decoded),
    ensures
        match cut {
            Err(error) => decoded == Err::<Vec<Block>, DecodeError>(error),
            Ok(parts) => decoded matches Ok(blocks) ==> {
                &&& blocks@.len() == parts@.len()
                &&& 0 <= i < parts@.len() ==> exists|encoded: Vec<u8>| #[trigger]
                    encoded@ == parts@[i]@ && call_ensures(decode, (&encoded,), Ok(blocks@[i]))
            },
        },
{
    if let Ok(parts) = cut {
        if let Ok(blocks) = decoded {
            let all = views(parts@);
            if 0 <= i < parts@.len() {
                assert(decodes_to(decode, all[i], Ok(blocks@[i])));
                assert(all[i] == parts@[i]@);
            }
        }
    }
}

/// What is said of a payload that ends too early, behind blocks that are whole: inside the
/// length of the next block, or inside the block.
pub proof fn law_early_ends_are_told_apart(
    parts: Seq<Seq<u8>>,
    more: u64,
    len: u64,
    rest: Seq<u8>,
    payload: Vec<u8>,
    cut: Result<Vec<Vec<u8>>, DecodeError>,
)
    requires
        more > 0,
        parts.len() + more <= usize::MAX,
        forall|i: int| 0 <= i < parts.len() ==> (#[trigger] parts[i]).len() <= usize::MAX,
        call_ensures(decode_block_payloads, (&payload,), cut),
    ensures
        payload@ == be_bytes((parts.len() + more) as u64) + framed(parts) + rest && rest.len() < 8
            ==> cut == Err::<Vec<Vec<u8>>, DecodeError>(DecodeError::EndOfBuffer),
        payload@ == be_bytes((parts.len() + more) as u64) + framed(parts) + be_bytes(len) + rest
            && rest.len() < len <= usize::MAX ==> cut == Err::<Vec<Vec<u8>>, DecodeError>(
            DecodeError::EndedEarly,
        ),
{
    let count = (parts.len() + more) as u64;
    if payload@ == be_bytes(count) + framed(parts) + rest {
        lemma_be_round_trip(count, framed(parts) + rest);
        assert(payload@ =~= be_bytes(count) + (framed(parts) + rest));
        assert(payload@.skip(8) =~= framed(parts) + rest);
        lemma_unframe(parts, rest, more as int);
    }
    let tail = be_bytes(len) + rest;
    if payload@ == be_bytes(count) + framed(parts) + be_bytes(len) + rest {
        lemma_be_round_trip(count, framed(parts) + tail);
        assert(payload@ =~= be_bytes(count) + (framed(parts) + tail));
        assert(payload@.skip(8) =~= framed(parts) + tail);
        lemma_be_round_trip(len, rest);
        lemma_unframe(parts, tail, more as int);
    }
}

/// A payload that can be cut fails to decode only for a part that the decoder refuses, with
/// the decoder's reason.
pub proof fn law_decoding_fails_only_with_the_decoder<D: Fn(&Vec<u8>) -> Result<Block, String>>(
    payload: Vec<u8>,
    decode: D,
    cut: Result<Vec<Vec<u8>>, DecodeError>,
    decoded: Result<Vec<Block>, DecodeError>,
)
    requires
        call_ensures(decode_block_payloads, (&payload,), cut),
        call_ensures(decode_block_batch::<D>, (&payload, &decode), decoded),
    ensures
        cut matches Ok(parts) ==> (decoded matches Err(error) ==> (error matches DecodeError::Block(
            reason,
        ) && exists|k: int|
            0 <= k < parts@.len() && decodes_to(
                decode,
                (#[trigger] parts@[k])@,
                Err::<Block, String>(reason),
            ))),
{
    if let Ok(parts) = cut {
        if let Err(DecodeError::Block(reason)) = decoded {
            let k = lemma_refused_part(decode, views(parts@), reason);
            assert(views(parts@)[k] == parts@[k]@);
        }
    }
}

/// The part that a decoder refused.
pub proof fn lemma_refused_part<D: Fn(&Vec<u8>) -> Result<Block, String>>(
    decode: D,
    parts: Seq<Seq<u8>>,
    reason: String,
) -> (k: int)
    requires
        parts_fail(decode, parts, reason),
    ensures
        0 <= k < parts.len(),
        decodes_to(decode, parts[k], Err::<Block, String>(reason)),
{
    let sooner = choose|sooner: Seq<Block>|
        {
            &&& sooner.len() < parts.len()
            &&& #[trigger] parts_decode(decode, parts.take(sooner.len() as int), sooner)
            &&& decodes_to(decode, parts[sooner.len() as int], Err(reason))
        };
    sooner.len() as int
}

} // verus!

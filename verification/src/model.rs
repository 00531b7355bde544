//! Building batches on the sequencer and applying them on a replica.

use crate::batch::{
    batch_encodes, batch_outcome, decode_block_batch, encode_block_batch, inverse,
    law_batch_round_trip, BatchMeta, BlockMeta, DecodeError,
};
use crate::chain::{
    law_accepted_blocks_are_continuous, law_timestamps_grow, lemma_accepted, ChainState,
    Discontinuity, GENESIS,
};
use crate::clock::{now_millis, timestamp_of, ClockError};
use crate::genesis::{is_genesis, law_genesis_header_is_unique};
use crate::text::{decimal, push_decimal};
use crate::types::{Block, BlockHeader, Digest, PublicKey};
use vstd::prelude::*;
use vstd::string::*;

verus! {

/// Why a batch was refused.
#[derive(Debug)]
pub enum EngineError {
    Decode(DecodeError),
    HeightMismatch { chain: u64, got: u64 },
    ParentMismatch,
    TimestampNotAdvanced,
    EmptyBatch,
}

impl EngineError {
    /// The reason in words.
    pub open spec fn text(self) -> Seq<char> {
        match self {
            EngineError::Decode(error) => "block decode failed: "@ + error.text(),
            EngineError::HeightMismatch { chain, got } => "block height "@ + decimal(got as nat)
                + " does not extend chain height "@ + decimal(chain as nat),
            EngineError::ParentMismatch => "block parent does not match chain head"@,
            EngineError::TimestampNotAdvanced => "block timestamp did not advance"@,
            EngineError::EmptyBatch => "empty Alto block batch"@,
        }
    }

    /// The reason in words.
    pub fn message(&self) -> (message: String)
        ensures
            message@ == self.text(),
    {
        match self {
            EngineError::Decode(error) => {
                let mut message = "block decode failed: ".to_owned();
                let reason = error.message();
                message.append(reason.as_str());
                message
            },
            EngineError::HeightMismatch { chain, got } => {
                let mut message = "block height ".to_owned();
                push_decimal(&mut message, *got);
                message.append(" does not extend chain height ");
                push_decimal(&mut message, *chain);
                message
            },
            EngineError::ParentMismatch => "block parent does not match chain head".to_owned(),
            EngineError::TimestampNotAdvanced => "block timestamp did not advance".to_owned(),
            EngineError::EmptyBatch => "empty Alto block batch".to_owned(),
        }
    }

    /// The error for a block that does not extend the chain.
    pub open spec fn of(why: Discontinuity) -> EngineError {
        match why {
            Discontinuity::Height { chain, got } => EngineError::HeightMismatch { chain, got },
            Discontinuity::Parent => EngineError::ParentMismatch,
            Discontinuity::Timestamp => EngineError::TimestampNotAdvanced,
        }
    }

    /// The error for a block that does not extend the chain.
    pub fn from_discontinuity(why: Discontinuity) -> (error: EngineError)
        ensures
            error == EngineError::of(why),
    {
        match why {
            Discontinuity::Height { chain, got } => EngineError::HeightMismatch { chain, got },
            Discontinuity::Parent => EngineError::ParentMismatch,
            Discontinuity::Timestamp => EngineError::TimestampNotAdvanced,
        }
    }
}

/// Why a chain refuses a batch, if it does: because it is empty, or because of its first
/// block that does not extend what is before it.
pub open spec fn refusal(chain: ChainState, blocks: Seq<Block>) -> Option<EngineError> {
    let n = chain.accepted(blocks);
    if blocks.len() == 0 {
        Some(EngineError::EmptyBatch)
    } else if n < blocks.len() {
        Some(
            EngineError::of(
                chain.after(blocks, n as int).discontinuity(blocks[n as int])->0,
            ),
        )
    } else {
        None
    }
}

/// A built batch.
pub struct ExecutedBatch {
    pub payload: Vec<u8>,
    pub metadata: BatchMeta,
}

/// An applied batch: its metadata and that of its last block.
pub struct AppliedBatch {
    pub metadata: BatchMeta,
    pub output: BlockMeta,
}

/// Whether an outcome is what building a batch comes to: the payload and metadata of the
/// blocks, or the reason for refusing them.
pub open spec fn build_outcome<E: Fn(&Block) -> Vec<u8>>(
    encode: E,
    chain: ChainState,
    blocks: Seq<Block>,
    outcome: Result<ExecutedBatch, EngineError>,
) -> bool {
    match refusal(chain, blocks) {
        Some(error) => outcome == Err::<ExecutedBatch, EngineError>(error),
        None => {
            &&& outcome matches Ok(batch)
            &&& batch.metadata == BatchMeta::of(blocks)
            &&& batch_encodes(encode, blocks, batch.payload@)
        },
    }
}

/// What applying decoded blocks comes to: the metadata of the batch and of its last
/// block, or the reason for refusing them.
pub open spec fn apply_result(chain: ChainState, blocks: Seq<Block>) -> Result<
    AppliedBatch,
    EngineError,
> {
    match refusal(chain, blocks) {
        Some(error) => Err(error),
        None => Ok(
            AppliedBatch {
                metadata: BatchMeta::of(blocks),
                output: BlockMeta::of(blocks.last()),
            },
        ),
    }
}

/// The header of the next block of a chain for a leader, at the current time.
pub fn next_block(chain: &ChainState, epoch: u64, leader: &PublicKey) -> (header: Result<
    BlockHeader,
    ClockError,
>)
    requires
        chain.height < u64::MAX,
    ensures
        exists|elapsed: Option<u128>|
            header == match #[trigger] timestamp_of(elapsed) {
                Ok(now) => Ok::<BlockHeader, ClockError>(chain.next_header(epoch, *leader, now)),
                Err(error) => Err(error),
            },
{
    match now_millis() {
        Ok(now) => Ok(chain.next_block(epoch, *leader, now)),
        Err(error) => Err(error),
    }
}

/// Builds batches: holds the chain that they extend.
pub struct BlockBuilder {
    pub chain: ChainState,
}

impl BlockBuilder {
    /// A builder at the genesis block, whose digest `seal` computes.
    pub fn new<F: Fn(&BlockHeader) -> Digest>(epoch: u64, seal: F) -> (builder: BlockBuilder)
        requires
            forall|header: &BlockHeader| call_requires(seal, (header,)),
        ensures
            builder.chain.height == 0,
            builder.chain.timestamp == 0,
            exists|header: BlockHeader|
                #[trigger] is_genesis(header, epoch, GENESIS@) && call_ensures(
                    seal,
                    (&header,),
                    builder.chain.parent,
                ),
    {
        BlockBuilder { chain: ChainState::genesis(epoch, seal) }
    }

    /// Builds a batch of blocks. The chain advances over the blocks that extend it, also
    /// when a later block is refused.
    pub fn execute_batch<E: Fn(&Block) -> Vec<u8>>(&mut self, txs: &Vec<Block>, encode: &E) -> (batch:
        Result<ExecutedBatch, EngineError>)
        requires
            forall|block: &Block| call_requires(*encode, (block,)),
        ensures
            final(self).chain == old(self).chain.after(
                txs@,
                old(self).chain.accepted(txs@) as int,
            ),
            build_outcome(*encode, old(self).chain, txs@, batch),
    {
        if txs.len() == 0 {
            return Err(EngineError::EmptyBatch);
        }
        if let Some(why) = self.chain.advance_all(txs) {
            return Err(EngineError::from_discontinuity(why));
        }
        let metadata = BatchMeta::from_blocks(txs);
        let payload = encode_block_batch(txs, encode);
        Ok(ExecutedBatch { payload, metadata })
    }
}

/// Applies batches: holds the chain that they extend.
pub struct BlockApplier {
    pub chain: ChainState,
}

impl BlockApplier {
    /// An applier at the genesis block, whose digest `seal` computes.
    pub fn new<F: Fn(&BlockHeader) -> Digest>(epoch: u64, seal: F) -> (applier: BlockApplier)
        requires
            forall|header: &BlockHeader| call_requires(seal, (header,)),
        ensures
            applier.chain.height == 0,
            applier.chain.timestamp == 0,
            exists|header: BlockHeader|
                #[trigger] is_genesis(header, epoch, GENESIS@) && call_ensures(
                    seal,
                    (&header,),
                    applier.chain.parent,
                ),
    {
        BlockApplier { chain: ChainState::genesis(epoch, seal) }
    }

    /// Applies the blocks of a batch. The chain advances over the blocks that extend it,
    /// also when a later block is refused.
    pub fn apply_blocks(&mut self, blocks: &Vec<Block>) -> (applied: Result<
        AppliedBatch,
        EngineError,
    >)
        ensures
            final(self).chain == old(self).chain.after(
                blocks@,
                old(self).chain.accepted(blocks@) as int,
            ),
            applied == apply_result(old(self).chain, blocks@),
    {
        if blocks.len() == 0 {
            return Err(EngineError::EmptyBatch);
        }
        if let Some(why) = self.chain.advance_all(blocks) {
            return Err(EngineError::from_discontinuity(why));
        }
        let metadata = BatchMeta::from_blocks(blocks);
        let output = BlockMeta::from_block(&blocks[blocks.len() - 1]);
        Ok(AppliedBatch { metadata, output })
    }

    /// Applies the payload of a batch. Nothing changes when it cannot be decoded.
    pub fn apply_batch<D: Fn(&Vec<u8>) -> Result<Block, String>>(
        &mut self,
        payload: &Vec<u8>,
        decode: &D,
    ) -> (applied: Result<AppliedBatch, EngineError>)
        requires
            forall|encoded: &Vec<u8>| call_requires(*decode, (encoded,)),
        ensures
            exists|decoded: Result<Vec<Block>, DecodeError>|
                {
                    &&& #[trigger] batch_outcome(*decode, payload@, decoded)
                    &&& match decoded {
                        Ok(blocks) => {
                            &&& final(self).chain == old(self).chain.after(
                                blocks@,
                                old(self).chain.accepted(blocks@) as int,
                            )
                            &&& applied == apply_result(old(self).chain, blocks@)
                        },
                        Err(error) => {
                            &&& final(self).chain == old(self).chain
                            &&& applied == Err::<AppliedBatch, EngineError>(
                                EngineError::Decode(error),
                            )
                        },
                    }
                },
    {
        let decoded = decode_block_batch(payload, decode);
        assert(batch_outcome(*decode, payload@, decoded));
        match decoded {
            Ok(blocks) => self.apply_blocks(&blocks),
            Err(error) => Err(EngineError::Decode(error)),
        }
    }
}

/// A replica follows the sequencer: from the same chain and for the same blocks, both
/// refuse for the same reason or both take the batch with the same metadata, and the
/// last block applied is the last one built.
pub proof fn law_replica_follows_sequencer<E: Fn(&Block) -> Vec<u8>>(
    encode: E,
    chain: ChainState,
    blocks: Seq<Block>,
    built: Result<ExecutedBatch, EngineError>,
)
    requires
        build_outcome(encode, chain, blocks, built),
    ensures
        match (built, apply_result(chain, blocks)) {
            (Ok(batch), Ok(applied)) => {
                &&& batch.metadata == applied.metadata
                &&& applied.output == BlockMeta::of(blocks.last())
                &&& chain.after(blocks, blocks.len() as int) == ChainState::at(blocks.last())
            },
            (Err(a), Err(b)) => a == b,
            _ => false,
        },
{
}

/// A replica applies what the sequencer built: the payload of a built batch decodes to the
/// batch, is taken with the same metadata, and leads to the same chain, as long as
/// decoding an encoded block gives the block back.
pub proof fn law_replica_applies_what_was_built<
    E: Fn(&Block) -> Vec<u8>,
    D: Fn(&Vec<u8>) -> Result<Block, String>,
>(
    encode: E,
    decode: D,
    chain: ChainState,
    blocks: Seq<Block>,
    batch: ExecutedBatch,
    decoded: Result<Vec<Block>, DecodeError>,
)
    requires
        blocks.len() <= usize::MAX,
        inverse(encode, decode, blocks),
        build_outcome(encode, chain, blocks, Ok(batch)),
        batch_outcome(decode, batch.payload@, decoded),
    ensures
        decoded matches Ok(found) && {
            &&& found@ == blocks
            &&& apply_result(chain, found@) == Ok::<AppliedBatch, EngineError>(
                AppliedBatch {
                    metadata: batch.metadata,
                    output: BlockMeta::of(blocks.last()),
                },
            )
            &&& chain.after(found@, chain.accepted(found@) as int) == chain.after(
                blocks,
                chain.accepted(blocks) as int,
            )
        },
{
    law_batch_round_trip(encode, decode, blocks, batch.payload@, decoded);
}

/// The metadata of a batch that was taken fits the chain: it begins one above the chain,
/// holds as many blocks as its heights say and ends later than it begins.
pub proof fn law_batch_metadata_is_continuous(chain: ChainState, blocks: Seq<Block>)
    requires
        refusal(chain, blocks) is None,
        blocks.len() <= u64::MAX,
    ensures
        BatchMeta::of(blocks).first_height == chain.height + 1,
        BatchMeta::of(blocks).last_height == chain.height + BatchMeta::of(blocks).block_count,
        BatchMeta::of(blocks).first_timestamp > chain.timestamp,
        BatchMeta::of(blocks).last_timestamp >= BatchMeta::of(blocks).first_timestamp,
{
    lemma_accepted(chain, blocks);
    law_accepted_blocks_are_continuous(chain, blocks, 0);
    law_accepted_blocks_are_continuous(chain, blocks, blocks.len() - 1);
    if blocks.len() > 1 {
        law_timestamps_grow(chain, blocks, 0, blocks.len() - 1);
    }
}

/// The metadata of a batch that was taken names its ends: its first digest is that of its
/// first block, whose parent is the head of the chain, and its last digest is the parent
/// that the chain then asks of the next block.
pub proof fn law_batch_metadata_links_to_the_chain(chain: ChainState, blocks: Seq<Block>)
    requires
        refusal(chain, blocks) is None,
    ensures
        BatchMeta::of(blocks).first_digest == blocks[0].digest,
        blocks[0].parent == chain.parent,
        BatchMeta::of(blocks).last_digest == chain.after(blocks, blocks.len() as int).parent,
        BatchMeta::of(blocks).last_height == chain.after(blocks, blocks.len() as int).height,
        BatchMeta::of(blocks).last_timestamp == chain.after(
            blocks,
            blocks.len() as int,
        ).timestamp,
{
    lemma_accepted(chain, blocks);
    law_accepted_blocks_are_continuous(chain, blocks, 0);
}

/// What building a batch says of it, and the chain that it leads to: the batch begins one
/// above the chain, ends where the chain then is, and counts the heights between.
pub proof fn law_built_batch_ends_where_the_chain_does<E: Fn(&Block) -> Vec<u8>>(
    builder: &mut BlockBuilder,
    txs: Vec<Block>,
    encode: E,
    built: Result<ExecutedBatch, EngineError>,
)
    requires
        call_ensures(BlockBuilder::execute_batch::<E>, (builder, &txs, &encode), built),
    ensures
        built matches Ok(batch) ==> {
            &&& txs@.len() > 0
            &&& batch.metadata.first_height == old(builder).chain.height + 1
            &&& batch.metadata.first_digest == txs@[0].digest
            &&& batch.metadata.first_timestamp == txs@[0].timestamp
            &&& txs@[0].parent == old(builder).chain.parent
            &&& batch.metadata.last_height == final(builder).chain.height
            &&& batch.metadata.last_digest == final(builder).chain.parent
            &&& batch.metadata.last_timestamp == final(builder).chain.timestamp
            &&& final(builder).chain.parent == txs@.last().digest
            &&& batch.metadata.block_count == txs@.len()
            &&& final(builder).chain.height - old(builder).chain.height == txs@.len()
        },
        txs@.len() == 0 ==> built == Err::<ExecutedBatch, EngineError>(EngineError::EmptyBatch)
            && final(builder).chain == old(builder).chain,
{
    assert(txs@.len() == txs.len());
    if built is Ok {
        law_batch_metadata_is_continuous(old(builder).chain, txs@);
        law_batch_metadata_links_to_the_chain(old(builder).chain, txs@);
        lemma_accepted(old(builder).chain, txs@);
    }
}

/// What applying a batch says of it, and the chain that it leads to, as in building it; the
/// output is that of the last block.
pub proof fn law_applied_batch_ends_where_the_chain_does(
    applier: &mut BlockApplier,
    blocks: Vec<Block>,
    result: Result<AppliedBatch, EngineError>,
)
    requires
        call_ensures(BlockApplier::apply_blocks, (applier, &blocks), result),
    ensures
        result matches Ok(batch) ==> {
            &&& blocks@.len() > 0
            &&& batch.metadata.first_height == old(applier).chain.height + 1
            &&& batch.metadata.first_digest == blocks@[0].digest
            &&& batch.metadata.first_timestamp == blocks@[0].timestamp
            &&& blocks@[0].parent == old(applier).chain.parent
            &&& batch.metadata.last_height == final(applier).chain.height
            &&& batch.metadata.last_digest == final(applier).chain.parent
            &&& batch.metadata.last_timestamp == final(applier).chain.timestamp
            &&& final(applier).chain.parent == blocks@.last().digest
            &&& batch.metadata.block_count == blocks@.len()
            &&& batch.output.height == batch.metadata.last_height
            &&& batch.output.digest == batch.metadata.last_digest
            &&& batch.output.timestamp == batch.metadata.last_timestamp
        },
        blocks@.len() == 0 ==> result == Err::<AppliedBatch, EngineError>(EngineError::EmptyBatch)
            && final(applier).chain == old(applier).chain,
{
    assert(blocks@.len() == blocks.len());
    if result is Ok {
        law_batch_metadata_is_continuous(old(applier).chain, blocks@);
        law_batch_metadata_links_to_the_chain(old(applier).chain, blocks@);
        lemma_accepted(old(applier).chain, blocks@);
    }
}

/// The first block of the batch that is built after another names the last digest of that
/// one as its parent, and is one higher and later.
pub proof fn law_built_batches_follow_each_other<E: Fn(&Block) -> Vec<u8>>(
    builder: &mut BlockBuilder,
    later: &mut BlockBuilder,
    first: Vec<Block>,
    second: Vec<Block>,
    encode: E,
    a: ExecutedBatch,
    b: ExecutedBatch,
)
    requires
        call_ensures(BlockBuilder::execute_batch::<E>, (builder, &first, &encode), Ok(a)),
        *old(later) == *final(builder),
        call_ensures(BlockBuilder::execute_batch::<E>, (later, &second, &encode), Ok(b)),
    ensures
        second@[0].parent == a.metadata.last_digest,
        b.metadata.first_height == a.metadata.last_height + 1,
        b.metadata.first_timestamp > a.metadata.last_timestamp,
{
    law_built_batch_ends_where_the_chain_does(builder, first, encode, Ok(a));
    law_built_batch_ends_where_the_chain_does(later, second, encode, Ok(b));
    lemma_accepted(old(later).chain, second@);
    law_accepted_blocks_are_continuous(old(later).chain, second@, 0);
}

/// A batch that is not empty is refused exactly where some block does not continue what is
/// before it, and then for what is wrong with the first such block, by height, by parent or
/// by timestamp; the chain ends at the block before it.
pub proof fn law_refused_batches_name_the_gap<E: Fn(&Block) -> Vec<u8>>(
    builder: &mut BlockBuilder,
    txs: Vec<Block>,
    encode: E,
    built: Result<ExecutedBatch, EngineError>,
)
    requires
        txs@.len() > 0,
        call_ensures(BlockBuilder::execute_batch::<E>, (builder, &txs, &encode), built),
    ensures
        built matches Err(error) ==> exists|n: int|
            {
                let end = final(builder).chain;
                let start = old(builder).chain;
                &&& 0 <= n < txs@.len()
                &&& n == 0 ==> end == start
                &&& n > 0 ==> end.height == txs@[n - 1].height && end.parent == txs@[n
                    - 1].digest && end.timestamp == txs@[n - 1].timestamp
                &&& match error {
                    EngineError::HeightMismatch { chain, got } => chain == end.height && got == (
                    #[trigger] txs@[n]).height && got != chain + 1,
                    EngineError::ParentMismatch => txs@[n].height == end.height + 1
                        && txs@[n].parent != end.parent,
                    EngineError::TimestampNotAdvanced => txs@[n].height == end.height + 1
                        && txs@[n].parent == end.parent && txs@[n].timestamp <= end.timestamp,
                    _ => false,
                }
            },
        built is Ok <==> forall|i: int|
            0 <= i < txs@.len() ==> {
                let before = if i == 0 {
                    (
                        old(builder).chain.height,
                        old(builder).chain.parent,
                        old(builder).chain.timestamp,
                    )
                } else {
                    (txs@[i - 1].height, txs@[i - 1].digest, txs@[i - 1].timestamp)
                };
                &&& (#[trigger] txs@[i]).height == before.0 + 1
                &&& txs@[i].parent == before.1
                &&& txs@[i].timestamp > before.2
            },
{
    let start = old(builder).chain;
    let n = start.accepted(txs@) as int;
    lemma_accepted(start, txs@);
    if n < txs@.len() {
        assert(txs@[n] == txs@[n]);
        assert(!start.after(txs@, n).accepts(txs@[n]));
    }
    assert forall|i: int| 0 <= i < n implies start.after(txs@, i).accepts(#[trigger] txs@[i]) by {
        assert(start.after(txs@, i).accepts(txs@[i]));
    }
}

/// Building and applying go together: from the same chain, for the same blocks, they refuse
/// for the same reason or agree on the metadata, and the chains end alike.
pub proof fn law_building_and_applying_agree<E: Fn(&Block) -> Vec<u8>>(
    builder: &mut BlockBuilder,
    applier: &mut BlockApplier,
    blocks: Vec<Block>,
    encode: E,
    built: Result<ExecutedBatch, EngineError>,
    applied: Result<AppliedBatch, EngineError>,
)
    requires
        old(builder).chain == old(applier).chain,
        call_ensures(BlockBuilder::execute_batch::<E>, (builder, &blocks, &encode), built),
        call_ensures(BlockApplier::apply_blocks, (applier, &blocks), applied),
    ensures
        final(builder).chain == final(applier).chain,
        match (built, applied) {
            (Ok(batch), Ok(taken)) => batch.metadata == taken.metadata,
            (Err(a), Err(b)) => a == b,
            _ => false,
        },
{
}

/// A payload that cannot be decoded changes nothing on a replica and is refused with the
/// reason; one that can is taken as its blocks are.
pub proof fn law_undecodable_batches_change_nothing<D: Fn(&Vec<u8>) -> Result<Block, String>>(
    applier: &mut BlockApplier,
    payload: Vec<u8>,
    decode: D,
    applied: Result<AppliedBatch, EngineError>,
)
    requires
        call_ensures(BlockApplier::apply_batch::<D>, (applier, &payload, &decode), applied),
    ensures
        applied matches Err(EngineError::Decode(_)) ==> final(applier).chain == old(applier).chain,
        applied matches Err(EngineError::EmptyBatch) ==> final(applier).chain
            == old(applier).chain,
        applied matches Ok(batch) ==> {
            &&& final(applier).chain.height == old(applier).chain.height
                + batch.metadata.block_count
            &&& batch.metadata.first_height == old(applier).chain.height + 1
            &&& batch.metadata.last_height == final(applier).chain.height == batch.output.height
            &&& batch.metadata.last_digest == final(applier).chain.parent
            &&& batch.output.digest == final(applier).chain.parent
            &&& batch.metadata.last_timestamp == final(applier).chain.timestamp
            &&& batch.output.timestamp == final(applier).chain.timestamp
            &&& batch.metadata.first_timestamp > old(applier).chain.timestamp
        },
{
    let chain = old(applier).chain;
    let decoded = choose|decoded: Result<Vec<Block>, DecodeError>|
        {
            &&& #[trigger] batch_outcome(decode, payload@, decoded)
            &&& match decoded {
                Ok(blocks) => {
                    &&& final(applier).chain == chain.after(
                        blocks@,
                        chain.accepted(blocks@) as int,
                    )
                    &&& applied == apply_result(chain, blocks@)
                },
                Err(error) => {
                    &&& final(applier).chain == chain
                    &&& applied == Err::<AppliedBatch, EngineError>(EngineError::Decode(error))
                },
            }
        };
    if let Ok(blocks) = decoded {
        assert(blocks@.len() == blocks.len());
        if applied is Ok {
            law_batch_metadata_is_continuous(chain, blocks@);
            law_batch_metadata_links_to_the_chain(chain, blocks@);
            lemma_accepted(chain, blocks@);
        }
    }
}

/// The next block at the current time continues the chain for its leader and epoch, and is
/// later than its head, unless no later time exists.
pub proof fn law_next_block_now_continues_the_chain(
    chain: ChainState,
    epoch: u64,
    leader: PublicKey,
    header: BlockHeader,
)
    requires
        chain.height < u64::MAX,
        call_ensures(next_block, (&chain, epoch, &leader), Ok(header)),
    ensures
        header.height == chain.height + 1,
        header.parent == chain.parent,
        header.context.round.epoch == epoch,
        header.context.round.view == header.height,
        header.context.leader == leader,
        header.context.parent.0 == chain.height,
        header.context.parent.1 == chain.parent,
        header.timestamp > chain.timestamp || header.timestamp == u64::MAX,
{
}

/// A payload that decodes to some blocks and nothing else is applied as these blocks are.
pub proof fn law_payloads_are_applied_as_their_blocks<D: Fn(&Vec<u8>) -> Result<Block, String>>(
    applier: &mut BlockApplier,
    other: &mut BlockApplier,
    payload: Vec<u8>,
    blocks: Vec<Block>,
    decode: D,
    applied: Result<AppliedBatch, EngineError>,
    expected: Result<AppliedBatch, EngineError>,
)
    requires
        old(applier).chain == old(other).chain,
        forall|decoded: Result<Vec<Block>, DecodeError>| #[trigger]
            batch_outcome(decode, payload@, decoded) ==> (decoded matches Ok(found) && found@
                == blocks@),
        call_ensures(BlockApplier::apply_batch::<D>, (applier, &payload, &decode), applied),
        call_ensures(BlockApplier::apply_blocks, (other, &blocks), expected),
    ensures
        final(applier).chain == final(other).chain,
        applied == expected,
{
}

/// What a sequencer built a replica takes, from the same chain, to the same chain and with
/// the same metadata, as long as decoding an encoded block gives the block back.
pub proof fn law_replica_takes_what_was_built<
    E: Fn(&Block) -> Vec<u8>,
    D: Fn(&Vec<u8>) -> Result<Block, String>,
>(
    builder: &mut BlockBuilder,
    applier: &mut BlockApplier,
    blocks: Vec<Block>,
    encode: E,
    decode: D,
    batch: ExecutedBatch,
    applied: Result<AppliedBatch, EngineError>,
)
    requires
        inverse(encode, decode, blocks@),
        old(builder).chain == old(applier).chain,
        call_ensures(BlockBuilder::execute_batch::<E>, (builder, &blocks, &encode), Ok(batch)),
        call_ensures(BlockApplier::apply_batch::<D>, (applier, &batch.payload, &decode), applied),
    ensures
        applied matches Ok(taken) && taken.metadata == batch.metadata && taken.output.digest
            == blocks@.last().digest,
        final(applier).chain == final(builder).chain,
{
    let chain = old(applier).chain;
    let decoded = choose|decoded: Result<Vec<Block>, DecodeError>|
        {
            &&& #[trigger] batch_outcome(decode, batch.payload@, decoded)
            &&& match decoded {
                Ok(found) => {
                    &&& final(applier).chain == chain.after(
                        found@,
                        chain.accepted(found@) as int,
                    )
                    &&& applied == apply_result(chain, found@)
                },
                Err(error) => {
                    &&& final(applier).chain == chain
                    &&& applied == Err::<AppliedBatch, EngineError>(EngineError::Decode(error))
                },
            }
        };
    assert(blocks@.len() == blocks.len());
    law_replica_applies_what_was_built(encode, decode, chain, blocks@, batch, decoded);
}

/// A sequencer and a replica of one epoch begin at the same chain, as long as sealing a
/// header always gives the same digest.
pub proof fn law_sequencer_and_replica_begin_alike<F: Fn(&BlockHeader) -> Digest>(
    epoch: u64,
    seal: F,
    builder: BlockBuilder,
    applier: BlockApplier,
    chain: ChainState,
)
    requires
        forall|header: BlockHeader, a: Digest, b: Digest| #[trigger]
            call_ensures(seal, (&header,), a) && #[trigger] call_ensures(seal, (&header,), b) ==> a
                == b,
        call_ensures(BlockBuilder::new::<F>, (epoch, seal), builder),
        call_ensures(BlockApplier::new::<F>, (epoch, seal), applier),
        call_ensures(ChainState::genesis::<F>, (epoch, seal), chain),
    ensures
        builder.chain == chain,
        applier.chain == chain,
{
    let a = choose|header: BlockHeader|
        #[trigger] is_genesis(header, epoch, GENESIS@) && call_ensures(
            seal,
            (&header,),
            builder.chain.parent,
        );
    let b = choose|header: BlockHeader|
        #[trigger] is_genesis(header, epoch, GENESIS@) && call_ensures(
            seal,
            (&header,),
            applier.chain.parent,
        );
    let c = choose|header: BlockHeader|
        #[trigger] is_genesis(header, epoch, GENESIS@) && call_ensures(
            seal,
            (&header,),
            chain.parent,
        );
    law_genesis_header_is_unique(a, c, epoch, GENESIS@);
    law_genesis_header_is_unique(b, c, epoch, GENESIS@);
}

/// The reason for a refusal names the height that came and the height of the chain, each in
/// its place.
pub proof fn law_refusals_name_both_heights(
    chain: u64,
    got: u64,
    error: EngineError,
    message: String,
)
    requires
        error == (EngineError::HeightMismatch { chain, got }),
        call_ensures(EngineError::message, (&error,), message),
    ensures
        message@ == "block height "@ + decimal(got as nat) + " does not extend chain height "@
            + decimal(chain as nat),
{
}

} // verus!

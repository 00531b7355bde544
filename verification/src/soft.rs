//! Soft confirmations: archived batches held in memory, block by block, with what is
//! known of their publication.

use crate::batch::{
    batch_encodes, batch_parts, decode_block_payloads, decode_blocks, decodes_to, encodes_to, inverse,
    law_encoded_blocks_decode_back, lemma_encoded_parts, lemma_refused_part, parts_decode, parts_fail,
    views, BatchMeta, BlockMeta, DecodeError,
};
use crate::clock::{now_millis, ClockError};
use crate::types::{Block, Digest};
use std::collections::BTreeMap;
use vstd::prelude::*;

verus! {

/// A batch as the archive holds it.
#[derive(Debug)]
pub struct ArchivedBatch {
    pub sequence: u64,
    pub payload: Vec<u8>,
    pub payload_hash: Digest,
    pub metadata: BatchMeta,
}

/// One block of a soft-confirmed batch with its encoding.
#[derive(Debug)]
pub struct SoftBatchBlock {
    pub metadata: BlockMeta,
    pub payload: Vec<u8>,
}

/// A soft-confirmed batch.
#[derive(Debug)]
pub struct SoftBatch {
    pub sequence: u64,
    pub payload: Vec<u8>,
    pub payload_hash: Digest,
    pub metadata: BatchMeta,
    pub blocks: Vec<SoftBatchBlock>,
    pub soft_confirmed_at: u64,
}

/// How and when a block was published.
#[derive(Debug)]
pub struct SoftCommit {
    pub tx_hash: String,
    pub pfb_broadcasted_at_ms: u64,
    pub celestia_committed_at_ms: u64,
    pub celestia_block_time_ms: Option<u64>,
    pub publish_latency_ms: Option<u64>,
    pub backend_commit_latency_ms: u64,
    pub batch_wait_ms: u64,
    pub soft_to_pfb_broadcast_ms: u64,
    pub broadcast_latency_ms: u64,
    pub confirmation_wait_ms: u64,
}

/// A soft-confirmed block, with its publication once there is one.
#[derive(Debug)]
pub struct SoftBlock {
    pub sequence: u64,
    pub metadata: BlockMeta,
    pub payload: Vec<u8>,
    pub soft_confirmed_at: u64,
    pub commit: Option<SoftCommit>,
}

/// What a [`SoftBatchBlock`] holds.
#[verifier::ext_equal]
pub struct SoftBatchBlockView {
    pub metadata: BlockMeta,
    pub payload: Seq<u8>,
}

impl View for SoftBatchBlock {
    type V = SoftBatchBlockView;

    open spec fn view(&self) -> SoftBatchBlockView {
        SoftBatchBlockView { metadata: self.metadata, payload: self.payload@ }
    }
}

/// What a [`SoftBatch`] holds.
#[verifier::ext_equal]
pub struct SoftBatchView {
    pub sequence: u64,
    pub payload: Seq<u8>,
    pub payload_hash: Digest,
    pub metadata: BatchMeta,
    pub blocks: Seq<SoftBatchBlockView>,
    pub soft_confirmed_at: u64,
}

impl View for SoftBatch {
    type V = SoftBatchView;

    open spec fn view(&self) -> SoftBatchView {
        SoftBatchView {
            sequence: self.sequence,
            payload: self.payload@,
            payload_hash: self.payload_hash,
            metadata: self.metadata,
            blocks: self.blocks@.map_values(|block: SoftBatchBlock| block@),
            soft_confirmed_at: self.soft_confirmed_at,
        }
    }
}

/// What a [`SoftCommit`] holds.
#[verifier::ext_equal]
pub struct SoftCommitView {
    pub tx_hash: Seq<char>,
    pub pfb_broadcasted_at_ms: u64,
    pub celestia_committed_at_ms: u64,
    pub celestia_block_time_ms: Option<u64>,
    pub publish_latency_ms: Option<u64>,
    pub backend_commit_latency_ms: u64,
    pub batch_wait_ms: u64,
    pub soft_to_pfb_broadcast_ms: u64,
    pub broadcast_latency_ms: u64,
    pub confirmation_wait_ms: u64,
}

impl View for SoftCommit {
    type V = SoftCommitView;

    open spec fn view(&self) -> SoftCommitView {
        SoftCommitView {
            tx_hash: self.tx_hash@,
            pfb_broadcasted_at_ms: self.pfb_broadcasted_at_ms,
            celestia_committed_at_ms: self.celestia_committed_at_ms,
            celestia_block_time_ms: self.celestia_block_time_ms,
            publish_latency_ms: self.publish_latency_ms,
            backend_commit_latency_ms: self.backend_commit_latency_ms,
            batch_wait_ms: self.batch_wait_ms,
            soft_to_pfb_broadcast_ms: self.soft_to_pfb_broadcast_ms,
            broadcast_latency_ms: self.broadcast_latency_ms,
            confirmation_wait_ms: self.confirmation_wait_ms,
        }
    }
}

/// What a [`SoftBlock`] holds.
#[verifier::ext_equal]
pub struct SoftBlockView {
    pub sequence: u64,
    pub metadata: BlockMeta,
    pub payload: Seq<u8>,
    pub soft_confirmed_at: u64,
    pub commit: Option<SoftCommitView>,
}

impl View for SoftBlock {
    type V = SoftBlockView;

    open spec fn view(&self) -> SoftBlockView {
        SoftBlockView {
            sequence: self.sequence,
            metadata: self.metadata,
            payload: self.payload@,
            soft_confirmed_at: self.soft_confirmed_at,
            commit: match self.commit {
                Some(commit) => Some(commit@),
                None => None,
            },
        }
    }
}

/// The blocks of a soft-confirmed batch: each decoded block's metadata with its encoding.
pub open spec fn paired(blocks: Seq<Block>, parts: Seq<Seq<u8>>) -> Seq<SoftBatchBlockView> {
    Seq::new(
        blocks.len(),
        |i: int| SoftBatchBlockView { metadata: BlockMeta::of(blocks[i]), payload: parts[i] },
    )
}

/// Whether an outcome is what soft-confirming an archived batch at a time comes to: the
/// batch with its blocks, or the reason why its payload cannot be decoded.
pub open spec fn soft_outcome<D: Fn(&Vec<u8>) -> Result<Block, String>>(
    decode: D,
    archived: ArchivedBatch,
    now: u64,
    outcome: Result<SoftBatch, DecodeError>,
) -> bool {
    match batch_parts(archived.payload@) {
        Err(error) => outcome == Err::<SoftBatch, DecodeError>(error),
        Ok(parts) => match outcome {
            Ok(batch) => {
                &&& batch.sequence == archived.sequence
                &&& batch.payload@ == archived.payload@
                &&& batch.payload_hash == archived.payload_hash
                &&& batch.metadata == archived.metadata
                &&& batch.soft_confirmed_at == now
                &&& exists|blocks: Seq<Block>| #[trigger]
                    parts_decode(decode, parts, blocks) && batch@.blocks == paired(blocks, parts)
            },
            Err(DecodeError::Block(reason)) => parts_fail(decode, parts, reason),
            Err(_) => false,
        },
    }
}

/// Whether an archived batch can be soft-confirmed.
pub open spec fn may_be_confirmed<D: Fn(&Vec<u8>) -> Result<Block, String>>(
    decode: D,
    archived: ArchivedBatch,
) -> bool {
    exists|soft: SoftBatch| #[trigger]
        soft_outcome(decode, archived, 0, Ok::<SoftBatch, DecodeError>(soft))
}

/// Why an archived batch was not soft-confirmed.
#[derive(Debug)]
pub enum SoftError {
    Decode(DecodeError),
    Clock(ClockError),
}

impl SoftBatch {
    /// Soft-confirms an archived batch at a given time.
    pub fn from_archived<D: Fn(&Vec<u8>) -> Result<Block, String>>(
        archived: ArchivedBatch,
        decode: &D,
        now: u64,
    ) -> (batch: Result<SoftBatch, DecodeError>)
        requires
            forall|encoded: &Vec<u8>| call_requires(*decode, (encoded,)),
        ensures
            soft_outcome(*decode, archived, now, batch),
    {
        let payloads = match decode_block_payloads(&archived.payload) {
            Ok(payloads) => payloads,
            Err(error) => {
                return Err(error);
            },
        };
        let decoded = match decode_blocks(&payloads, decode) {
            Ok(decoded) => decoded,
            Err(error) => {
                return Err(error);
            },
        };
        let ghost parts = views(payloads@);
        let mut blocks: Vec<SoftBatchBlock> = Vec::new();
        let mut i: usize = 0;
        while i < decoded.len()
            invariant
                i <= decoded@.len() == payloads@.len(),
                parts == views(payloads@),
                blocks@.len() == i,
                forall|j: int|
                    0 <= j < i ==> (#[trigger] blocks@[j])@ == paired(decoded@, parts)[j],
            decreases decoded@.len() - i,
        {
            let metadata = BlockMeta::from_block(&decoded[i]);
            let payload = payloads[i].clone();
            assert(payload@ =~= parts[i as int]);
            blocks.push(SoftBatchBlock { metadata, payload });
            i += 1;
        }
        let batch = SoftBatch {
            sequence: archived.sequence,
            payload: archived.payload,
            payload_hash: archived.payload_hash,
            metadata: archived.metadata,
            blocks,
            soft_confirmed_at: now,
        };
        proof {
            assert(batch@.blocks =~= paired(decoded@, parts));
            assert(parts_decode(*decode, parts, decoded@));
        }
        Ok(batch)
    }

    /// Soft-confirms an archived batch now.
    pub fn try_from_archived<D: Fn(&Vec<u8>) -> Result<Block, String>>(
        archived: ArchivedBatch,
        decode: &D,
    ) -> (batch: Result<SoftBatch, SoftError>)
        requires
            forall|encoded: &Vec<u8>| call_requires(*decode, (encoded,)),
        ensures
            match batch {
                Ok(soft) => soft_outcome(
                    *decode,
                    archived,
                    soft.soft_confirmed_at,
                    Ok::<SoftBatch, DecodeError>(soft),
                ),
                Err(SoftError::Decode(error)) => soft_outcome(
                    *decode,
                    archived,
                    0,
                    Err::<SoftBatch, DecodeError>(error),
                ),
                Err(SoftError::Clock(_)) => may_be_confirmed(*decode, archived),
            },
    {
        let mut batch = match SoftBatch::from_archived(archived, decode, 0) {
            Ok(batch) => batch,
            Err(error) => {
                return Err(SoftError::Decode(error));
            },
        };
        let ghost confirmed = batch@;
        match now_millis() {
            Ok(now) => {
                batch.soft_confirmed_at = now;
                assert(batch@.blocks == confirmed.blocks);
                Ok(batch)
            },
            Err(error) => Err(SoftError::Clock(error)),
        }
    }
}

/// The soft-confirmed blocks by height.
pub struct SoftStatusIndex {
    blocks: BTreeMap<u64, SoftBlock>,
}

impl View for SoftStatusIndex {
    type V = Map<u64, SoftBlockView>;

    closed spec fn view(&self) -> Map<u64, SoftBlockView> {
        Map::new(|height: u64| self.blocks@.contains_key(height), |height: u64| self.blocks@[height]@)
    }
}

/// The entry of the index for a block of a batch: not yet published.
pub open spec fn unpublished(batch: SoftBatchView, i: int) -> SoftBlockView {
    SoftBlockView {
        sequence: batch.sequence,
        metadata: batch.blocks[i].metadata,
        payload: batch.blocks[i].payload,
        soft_confirmed_at: batch.soft_confirmed_at,
        commit: None,
    }
}

/// The index after the first `n` blocks of a batch were filed one after the other, each
/// under its height in place of what was there.
pub open spec fn with_archived(
    index: Map<u64, SoftBlockView>,
    batch: SoftBatchView,
    n: int,
) -> Map<u64, SoftBlockView>
    decreases n,
{
    if n <= 0 {
        index
    } else {
        with_archived(index, batch, n - 1).insert(
            batch.blocks[n - 1].metadata.height,
            unpublished(batch, n - 1),
        )
    }
}

/// The index after a height was published: an entry that is there gets the publication.
pub open spec fn with_commit(
    index: Map<u64, SoftBlockView>,
    height: u64,
    commit: SoftCommitView,
) -> Map<u64, SoftBlockView> {
    if index.contains_key(height) {
        index.insert(height, SoftBlockView { commit: Some(commit), ..index[height] })
    } else {
        index
    }
}

/// Whether a height is the highest of some heights, or there are none.
pub open spec fn is_highest(head: Option<u64>, heights: Set<u64>) -> bool {
    match head {
        None => heights == Set::<u64>::empty(),
        Some(height) => heights.contains(height) && forall|other: u64| #[trigger]
            heights.contains(other) ==> other <= height,
    }
}

/// The heights that are published.
pub open spec fn published_heights(index: Map<u64, SoftBlockView>) -> Set<u64> {
    Set::new(|height: u64| index.contains_key(height) && index[height].commit is Some)
}

/// Whether every block is filed under its own height.
pub open spec fn filed_by_height(index: Map<u64, SoftBlockView>) -> bool {
    forall|height: u64| #[trigger] index.contains_key(height) ==> index[height].metadata.height == height
}

impl SoftStatusIndex {
    /// An index without blocks.
    pub fn new() -> (index: SoftStatusIndex)
        ensures
            index@ == Map::<u64, SoftBlockView>::empty(),
    {
        let index = SoftStatusIndex { blocks: BTreeMap::new() };
        assert(index@ =~= Map::<u64, SoftBlockView>::empty());
        index
    }

    /// Files the blocks of a soft-confirmed batch.
    pub fn archive(&mut self, batch: &SoftBatch)
        ensures
            final(self)@ == with_archived(old(self)@, batch@, batch@.blocks.len() as int),
    {
        let ghost start = self@;
        let mut i: usize = 0;
        while i < batch.blocks.len()
            invariant
                i <= batch.blocks@.len(),
                start == old(self)@,
                self@ == with_archived(start, batch@, i as int),
            decreases batch.blocks@.len() - i,
        {
            let block = &batch.blocks[i];
            let payload = block.payload.clone();
            let entry = SoftBlock {
                sequence: batch.sequence,
                metadata: block.metadata,
                payload,
                soft_confirmed_at: batch.soft_confirmed_at,
                commit: None,
            };
            let ghost held = self@;
            let height: u64 = block.metadata.height;
            self.blocks.insert(height, entry);
            proof {
                assert(entry@ == unpublished(batch@, i as int));
                assert(self@ =~= held.insert(height, entry@));
            }
            i += 1;
        }
    }

    /// Notes the publication of a height; nothing happens for a height without a block.
    pub fn publish_height(&mut self, height: u64, commit: SoftCommit)
        ensures
            final(self)@ == with_commit(old(self)@, height, commit@),
    {
        let ghost held = self@;
        match self.blocks.remove(&height) {
            Some(mut block) => {
                block.commit = Some(commit);
                self.blocks.insert(height, block);
                assert(self@ =~= with_commit(held, height, commit@));
            },
            None => {
                assert(self@ =~= held);
            },
        }
    }

    /// The block at a height.
    pub fn soft_block(&self, height: u64) -> (block: Option<&SoftBlock>)
        ensures
            match block {
                Some(found) => self@.contains_key(height) && self@[height] == found@,
                None => !self@.contains_key(height),
            },
    {
        self.blocks.get(&height)
    }

    /// The publication of the block at a height.
    pub fn commit_height(&self, height: u64) -> (commit: Option<&SoftCommit>)
        ensures
            match commit {
                Some(found) => self@.contains_key(height) && self@[height].commit == Some(found@),
                None => !self@.contains_key(height) || self@[height].commit is None,
            },
    {
        match self.soft_block(height) {
            Some(block) => block.commit.as_ref(),
            None => None,
        }
    }

    /// The highest height with a block.
    pub fn archived_head(&self) -> (head: Option<u64>)
        ensures
            is_highest(head, self@.dom()),
    {
        let mut head: Option<u64> = None;
        for (height, _block) in it: self.blocks.iter()
            invariant
                forall|j: int|
                    0 <= j < it.seq().len() ==> self.blocks@.contains_key(
                        *(#[trigger] it.seq()[j]).0,
                    ),
                forall|other: u64| #[trigger]
                    self.blocks@.contains_key(other) ==> (head is Some && other <= head->0) || exists|
                        j: int,
                    |
                        it.index() <= j < it.seq().len() && *(#[trigger] it.seq()[j]).0 == other,
                head matches Some(h) ==> self.blocks@.contains_key(h),
        {
            assert(*it.seq()[it.index()].0 == *height);
            match head {
                Some(h) if *height <= h => {},
                _ => {
                    head = Some(*height);
                },
            }
        }
        proof {
            match head {
                None => {
                    assert(self@.dom() =~= Set::<u64>::empty());
                },
                Some(_) => {},
            }
        }
        head
    }

    /// The highest height that is published.
    pub fn published_head(&self) -> (head: Option<u64>)
        ensures
            is_highest(head, published_heights(self@)),
    {
        let mut head: Option<u64> = None;
        for (height, block) in it: self.blocks.iter()
            invariant
                forall|j: int|
                    0 <= j < it.seq().len() ==> {
                        &&& self.blocks@.contains_key(*(#[trigger] it.seq()[j]).0)
                        &&& self.blocks@[*it.seq()[j].0] == *it.seq()[j].1
                    },
                forall|other: u64| #[trigger]
                    published_heights(self@).contains(other) ==> (head is Some && other <= head->0)
                        || exists|j: int|
                        it.index() <= j < it.seq().len() && *(#[trigger] it.seq()[j]).0 == other,
                head matches Some(h) ==> published_heights(self@).contains(h),
        {
            assert(*it.seq()[it.index()].0 == *height);
            if block.commit.is_some() {
                match head {
                    Some(h) if *height <= h => {},
                    _ => {
                        head = Some(*height);
                    },
                }
            }
        }
        proof {
            match head {
                None => {
                    assert(published_heights(self@) =~= Set::<u64>::empty());
                },
                Some(_) => {},
            }
        }
        head
    }

    /// The batch that the block at a height belongs to.
    pub fn batch_for_height(&self, height: u64) -> (sequence: Option<u64>)
        ensures
            sequence == if self@.contains_key(height) {
                Some(self@[height].sequence)
            } else {
                None
            },
    {
        match self.soft_block(height) {
            Some(block) => Some(block.sequence),
            None => None,
        }
    }

    /// The encoding of the block at a height.
    pub fn block_payload(&self, height: u64) -> (payload: Option<&Vec<u8>>)
        ensures
            match payload {
                Some(found) => self@.contains_key(height) && self@[height].payload == found@,
                None => !self@.contains_key(height),
            },
    {
        match self.soft_block(height) {
            Some(block) => Some(&block.payload),
            None => None,
        }
    }
}

impl Default for SoftStatusIndex {
    fn default() -> (index: SoftStatusIndex)
        ensures
            index@ == Map::<u64, SoftBlockView>::empty(),
    {
        SoftStatusIndex::new()
    }
}

/// What filing a batch changes: exactly the heights of its blocks get entries of that
/// batch, unpublished; every other height keeps what it had.
pub proof fn law_archive_changes_only_its_heights(
    index: Map<u64, SoftBlockView>,
    batch: SoftBatchView,
    n: int,
    height: u64,
)
    requires
        0 <= n <= batch.blocks.len(),
    ensures
        (exists|i: int| 0 <= i < n && (#[trigger] batch.blocks[i]).metadata.height == height) ==> {
            &&& with_archived(index, batch, n).contains_key(height)
            &&& with_archived(index, batch, n)[height].sequence == batch.sequence
            &&& with_archived(index, batch, n)[height].commit is None
            &&& with_archived(index, batch, n)[height].metadata.height == height
        },
        (forall|i: int| 0 <= i < n ==> (#[trigger] batch.blocks[i]).metadata.height != height) ==> {
            &&& with_archived(index, batch, n).contains_key(height) == index.contains_key(height)
            &&& with_archived(index, batch, n)[height] == index[height]
        },
    decreases n,
{
    if n > 0 {
        law_archive_changes_only_its_heights(index, batch, n - 1, height);
        let last = batch.blocks[n - 1].metadata.height;
        if last != height {
            if exists|i: int| 0 <= i < n && (#[trigger] batch.blocks[i]).metadata.height == height {
                let i = choose|i: int|
                    0 <= i < n && (#[trigger] batch.blocks[i]).metadata.height == height;
                assert(i < n - 1);
            }
        } else {
            assert(batch.blocks[n - 1].metadata.height == height);
        }
    }
}

/// Where the heights of a batch differ, each of its blocks can be read back from the
/// index as it was filed.
pub proof fn law_archived_block_is_read_back(
    index: Map<u64, SoftBlockView>,
    batch: SoftBatchView,
    n: int,
    i: int,
)
    requires
        0 <= i < n <= batch.blocks.len(),
        forall|a: int, b: int|
            0 <= a < b < batch.blocks.len() ==> (#[trigger] batch.blocks[a]).metadata.height != (
            #[trigger] batch.blocks[b]).metadata.height,
    ensures
        with_archived(index, batch, n).contains_key(batch.blocks[i].metadata.height),
        with_archived(index, batch, n)[batch.blocks[i].metadata.height] == unpublished(batch, i),
    decreases n,
{
    if i < n - 1 {
        law_archived_block_is_read_back(index, batch, n - 1, i);
        assert(batch.blocks[i].metadata.height != batch.blocks[n - 1].metadata.height);
    }
}

/// Publishing changes only what is known of the publication: the heights stay, with
/// their batches, their blocks and their encodings, and only a height with a block is
/// published.
pub proof fn law_publish_keeps_the_blocks(
    index: Map<u64, SoftBlockView>,
    height: u64,
    commit: SoftCommitView,
)
    ensures
        with_commit(index, height, commit).dom() == index.dom(),
        forall|h: u64| #[trigger]
            index.contains_key(h) ==> {
                let after = with_commit(index, height, commit)[h];
                &&& after.sequence == index[h].sequence
                &&& after.metadata == index[h].metadata
                &&& after.payload == index[h].payload
                &&& after.soft_confirmed_at == index[h].soft_confirmed_at
                &&& after.commit == if h == height {
                    Some(commit)
                } else {
                    index[h].commit
                }
            },
        published_heights(with_commit(index, height, commit)) == if index.contains_key(height) {
            published_heights(index).insert(height)
        } else {
            published_heights(index)
        },
{
    let after = with_commit(index, height, commit);
    assert(after.dom() =~= index.dom());
    if index.contains_key(height) {
        assert(published_heights(after) =~= published_heights(index).insert(height));
    }
}

/// The published head never runs ahead of the archived head.
pub proof fn law_published_head_is_archived(
    index: Map<u64, SoftBlockView>,
    archived: Option<u64>,
    published: Option<u64>,
)
    requires
        is_highest(archived, index.dom()),
        is_highest(published, published_heights(index)),
    ensures
        published matches Some(height) ==> index.contains_key(height) && archived is Some && height
            <= archived->0,
{
    match published {
        Some(height) => {
            assert(published_heights(index).contains(height));
            assert(index.dom().contains(height));
        },
        None => {},
    }
}

/// Every block stays filed under its own height, whatever is archived and published.
pub proof fn law_blocks_stay_filed_by_height(
    index: Map<u64, SoftBlockView>,
    batch: SoftBatchView,
    n: int,
    height: u64,
    commit: SoftCommitView,
)
    requires
        filed_by_height(index),
        0 <= n <= batch.blocks.len(),
    ensures
        filed_by_height(Map::<u64, SoftBlockView>::empty()),
        filed_by_height(with_archived(index, batch, n)),
        filed_by_height(with_commit(index, height, commit)),
    decreases n,
{
    if n > 0 {
        law_blocks_stay_filed_by_height(index, batch, n - 1, height, commit);
    }
}

/// A batch that was built is soft-confirmed with its own blocks, as long as decoding an
/// encoded block gives the block back.
pub proof fn law_built_batch_is_soft_confirmed<
    E: Fn(&Block) -> Vec<u8>,
    D: Fn(&Vec<u8>) -> Result<Block, String>,
>(
    encode: E,
    decode: D,
    blocks: Seq<Block>,
    archived: ArchivedBatch,
    now: u64,
    outcome: Result<SoftBatch, DecodeError>,
)
    requires
        blocks.len() <= usize::MAX,
        inverse(encode, decode, blocks),
        batch_encodes(encode, blocks, archived.payload@),
        soft_outcome(decode, archived, now, outcome),
    ensures
        outcome matches Ok(batch) && {
            &&& batch@.blocks.len() == blocks.len()
            &&& forall|i: int|
                0 <= i < blocks.len() ==> {
                    &&& (#[trigger] batch@.blocks[i]).metadata == BlockMeta::of(blocks[i])
                    &&& encodes_to(encode, blocks[i], batch@.blocks[i].payload)
                }
        },
{
    let parts = lemma_encoded_parts(encode, blocks, archived.payload@);
    match outcome {
        Ok(batch) => {
            let found = choose|found: Seq<Block>| #[trigger]
                parts_decode(decode, parts, found) && batch@.blocks == paired(found, parts);
            law_encoded_blocks_decode_back(
                encode,
                decode,
                blocks,
                parts,
                found,
                arbitrary::<String>(),
            );
        },
        Err(DecodeError::Block(reason)) => {
            law_encoded_blocks_decode_back(encode, decode, blocks, parts, blocks, reason);
        },
        Err(_) => {},
    }
}

/// A soft-confirmed batch is the archived one with its blocks: its number, payload, payload
/// hash and metadata are those of the archive, it is confirmed at the given time, and each
/// of its blocks is a part of the payload with the metadata of what that part decodes to.
pub proof fn law_soft_batch_is_the_archived_one<D: Fn(&Vec<u8>) -> Result<Block, String>>(
    archived: ArchivedBatch,
    decode: D,
    now: u64,
    outcome: Result<SoftBatch, DecodeError>,
    cut: Result<Vec<Vec<u8>>, DecodeError>,
    i: int,
)
    requires
        call_ensures(SoftBatch::from_archived::<D>, (archived, &decode, now), outcome),
        call_ensures(decode_block_payloads, (&archived.payload,), cut),
    ensures
        outcome matches Ok(batch) ==> {
            &&& batch.sequence == archived.sequence
            &&& batch.payload@ == archived.payload@
            &&& batch.payload_hash == archived.payload_hash
            &&& batch.metadata == archived.metadata
            &&& batch.soft_confirmed_at == now
            &&& cut matches Ok(parts) && {
                &&& batch.blocks@.len() == parts@.len()
                &&& 0 <= i < parts@.len() ==> {
                    &&& batch.blocks@[i].payload@ == parts@[i]@
                    &&& exists|block: Block| #[trigger]
                        decodes_to(decode, parts@[i]@, Ok(block)) && batch.blocks@[i].metadata.height
                            == block.height && batch.blocks@[i].metadata.digest == block.digest
                            && batch.blocks@[i].metadata.timestamp == block.timestamp
                }
            }
        },
        cut matches Err(error) ==> outcome == Err::<SoftBatch, DecodeError>(error),
{
    if let Ok(batch) = outcome {
        let parts = cut->Ok_0;
        let all = views(parts@);
        let blocks = choose|blocks: Seq<Block>| #[trigger]
            parts_decode(decode, all, blocks) && batch@.blocks == paired(blocks, all);
        assert(batch@.blocks.len() == batch.blocks@.len());
        if 0 <= i < parts@.len() {
            assert(decodes_to(decode, all[i], Ok(blocks[i])));
            assert(all[i] == parts@[i]@);
            assert(batch@.blocks[i] == batch.blocks@[i]@);
            assert(batch@.blocks[i] == paired(blocks, all)[i]);
        }
    }
}

/// Soft-confirming now is soft-confirming at the time that it then carries.
pub proof fn law_soft_batch_now_is_the_archived_one<D: Fn(&Vec<u8>) -> Result<Block, String>>(
    archived: ArchivedBatch,
    decode: D,
    batch: SoftBatch,
    cut: Result<Vec<Vec<u8>>, DecodeError>,
    i: int,
)
    requires
        call_ensures(SoftBatch::try_from_archived::<D>, (archived, &decode), Ok(batch)),
        call_ensures(decode_block_payloads, (&archived.payload,), cut),
    ensures
        batch.sequence == archived.sequence,
        batch.payload@ == archived.payload@,
        batch.payload_hash == archived.payload_hash,
        batch.metadata == archived.metadata,
        cut matches Ok(parts) && {
            &&& batch.blocks@.len() == parts@.len()
            &&& 0 <= i < parts@.len() ==> batch.blocks@[i].payload@ == parts@[i]@
        },
{
    let parts = cut->Ok_0;
    let all = views(parts@);
    let blocks = choose|blocks: Seq<Block>| #[trigger]
        parts_decode(decode, all, blocks) && batch@.blocks == paired(blocks, all);
    assert(batch@.blocks.len() == batch.blocks@.len());
    if 0 <= i < parts@.len() {
        assert(all[i] == parts@[i]@);
        assert(batch@.blocks[i] == batch.blocks@[i]@);
        assert(batch@.blocks[i] == paired(blocks, all)[i]);
    }
}

/// Filing a batch whose heights differ: each of its blocks is then found at its height, with
/// the number of the batch, its own metadata and encoding, the time at which the batch was
/// confirmed and no publication; every other height keeps what it had.
pub proof fn law_filed_blocks_are_found(
    index: &mut SoftStatusIndex,
    batch: SoftBatch,
    i: int,
    height: u64,
)
    requires
        call_ensures(SoftStatusIndex::archive, (index, &batch), ()),
        0 <= i < batch.blocks@.len(),
        forall|a: int, b: int|
            0 <= a < b < batch@.blocks.len() ==> (#[trigger] batch@.blocks[a]).metadata.height != (
            #[trigger] batch@.blocks[b]).metadata.height,
    ensures
        ({
            let found = final(index)@[batch.blocks@[i].metadata.height];
            &&& final(index)@.contains_key(batch.blocks@[i].metadata.height)
            &&& found.sequence == batch.sequence
            &&& found.metadata == batch.blocks@[i].metadata
            &&& found.payload == batch.blocks@[i].payload@
            &&& found.soft_confirmed_at == batch.soft_confirmed_at
            &&& found.commit is None
        }),
        (forall|k: int|
            0 <= k < batch@.blocks.len() ==> (#[trigger] batch@.blocks[k]).metadata.height
                != height) ==> final(index)@.contains_key(height) == old(index)@.contains_key(height)
            && final(index)@[height] == old(index)@[height],
{
    let n = batch@.blocks.len() as int;
    assert(batch@.blocks[i] == batch.blocks@[i]@);
    law_archived_block_is_read_back(old(index)@, batch@, n, i);
    law_archive_changes_only_its_heights(old(index)@, batch@, n, height);
}

/// Publishing a height: a block that is there gets the publication and keeps everything
/// else, a height without a block stays without, and other heights stay as they are.
pub proof fn law_published_height_gets_the_commit(
    index: &mut SoftStatusIndex,
    height: u64,
    commit: SoftCommit,
    other: u64,
)
    requires
        call_ensures(SoftStatusIndex::publish_height, (index, height, commit), ()),
    ensures
        final(index)@.contains_key(other) == old(index)@.contains_key(other),
        other != height && old(index)@.contains_key(other) ==> final(index)@[other]
            == old(index)@[other],
        old(index)@.contains_key(height) ==> {
            &&& final(index)@[height].commit == Some(commit@)
            &&& final(index)@[height].sequence == old(index)@[height].sequence
            &&& final(index)@[height].metadata == old(index)@[height].metadata
            &&& final(index)@[height].payload == old(index)@[height].payload
            &&& final(index)@[height].soft_confirmed_at == old(index)@[height].soft_confirmed_at
        },
{
}

/// The heads are the highest heights: none without blocks, otherwise one that is there, and
/// none above it; the published head among those that have a publication, so that it never
/// runs ahead.
pub proof fn law_heads_are_the_highest(
    index: SoftStatusIndex,
    archived: Option<u64>,
    published: Option<u64>,
    other: u64,
)
    requires
        call_ensures(SoftStatusIndex::archived_head, (&index,), archived),
        call_ensures(SoftStatusIndex::published_head, (&index,), published),
    ensures
        index@.contains_key(other) ==> archived is Some && other <= archived->0,
        archived matches Some(head) ==> index@.contains_key(head),
        index@.contains_key(other) && index@[other].commit is Some ==> published is Some && other
            <= published->0,
        published matches Some(head) ==> {
            &&& index@.contains_key(head)
            &&& index@[head].commit is Some
            &&& archived is Some && head <= archived->0
        },
{
    if index@.contains_key(other) {
        assert(index@.dom().contains(other));
        if index@[other].commit is Some {
            assert(published_heights(index@).contains(other));
        }
    }
    if let Some(head) = published {
        assert(published_heights(index@).contains(head));
        assert(index@.dom().contains(head));
    }
}

/// What is asked of one height fits together: its block, the batch that the block belongs
/// to, its encoding and its publication.
pub proof fn law_answers_for_a_height_agree(
    index: SoftStatusIndex,
    height: u64,
    block: Option<&SoftBlock>,
    sequence: Option<u64>,
    payload: Option<&Vec<u8>>,
    commit: Option<&SoftCommit>,
)
    requires
        call_ensures(SoftStatusIndex::soft_block, (&index, height), block),
        call_ensures(SoftStatusIndex::batch_for_height, (&index, height), sequence),
        call_ensures(SoftStatusIndex::block_payload, (&index, height), payload),
        call_ensures(SoftStatusIndex::commit_height, (&index, height), commit),
    ensures
        block is Some <==> index@.contains_key(height),
        block is Some <==> sequence is Some,
        block is Some <==> payload is Some,
        block matches Some(found) ==> {
            &&& found@ == index@[height]
            &&& sequence == Some(found.sequence)
            &&& payload->0@ == found.payload@
            &&& commit is Some <==> found.commit is Some
            &&& commit is Some ==> commit->0@ == found.commit->0@
        },
        block is None ==> commit is None,
{
}

/// A batch whose payload cannot be cut is not soft-confirmed, whatever the clock says.
pub proof fn law_broken_payloads_are_not_confirmed<D: Fn(&Vec<u8>) -> Result<Block, String>>(
    archived: ArchivedBatch,
    decode: D,
    outcome: Result<SoftBatch, SoftError>,
    cut: Result<Vec<Vec<u8>>, DecodeError>,
)
    requires
        call_ensures(SoftBatch::try_from_archived::<D>, (archived, &decode), outcome),
        call_ensures(decode_block_payloads, (&archived.payload,), cut),
    ensures
        cut matches Err(error) ==> outcome == Err::<SoftBatch, SoftError>(
            SoftError::Decode(error),
        ),
{
}

/// A payload that can be cut is soft-confirmed unless the decoder refuses one of its parts,
/// with the decoder's reason.
pub proof fn law_confirming_fails_only_with_the_decoder<
    D: Fn(&Vec<u8>) -> Result<Block, String>,
>(
    archived: ArchivedBatch,
    decode: D,
    now: u64,
    outcome: Result<SoftBatch, DecodeError>,
    cut: Result<Vec<Vec<u8>>, DecodeError>,
)
    requires
        call_ensures(SoftBatch::from_archived::<D>, (archived, &decode, now), outcome),
        call_ensures(decode_block_payloads, (&archived.payload,), cut),
    ensures
        cut matches Ok(parts) ==> (outcome matches Err(error) ==> (error matches DecodeError::Block(
            reason,
        ) && exists|k: int|
            0 <= k < parts@.len() && decodes_to(
                decode,
                (#[trigger] parts@[k])@,
                Err::<Block, String>(reason),
            ))),
{
    if let Ok(parts) = cut {
        if let Err(DecodeError::Block(reason)) = outcome {
            let k = lemma_refused_part(decode, views(parts@), reason);
            assert(views(parts@)[k] == parts@[k]@);
        }
    }
}

/// A new index holds no height.
pub proof fn law_new_index_is_empty(index: SoftStatusIndex, height: u64)
    requires
        call_ensures(SoftStatusIndex::new, (), index),
    ensures
        !index@.contains_key(height),
{
}

} // verus!

//! The answers of the history server.
//!
//! Each function says what a request is answered with, given what the archive came back
//! with for it.

use crate::batch::{
    batch_parts, decode_block_payloads, decode_blocks, decodes_to, parts_decode, parts_outcome,
    views, DecodeError,
};
use crate::codec::{be_bytes, be_value, lemma_be_round_trip, read_u64};
use crate::hex::{from_hex, hex, hex29, hex32, hex_bytes, hex_text, law_hex_round_trip};
use crate::soft::{
    is_highest, law_archived_block_is_read_back, published_heights, with_archived, SoftBatchView,
    SoftBlock, SoftBlockView, SoftCommit, SoftCommitView, SoftStatusIndex,
};
use crate::text::{decimal, decimal_u64, law_decimal_round_trip, parse_decimal, same_text};
use crate::types::{BatchCursor, Block, Fetched};
use vstd::prelude::*;

verus! {

broadcast use crate::codec::lemma_be_len;

/// How a request is answered.
#[derive(Debug, PartialEq, Eq)]
pub enum Reply<T> {
    Body(T),
    NotFound,
    BadRequest,
    InternalError,
}

/// Where a batch stands.
#[derive(Clone, Copy, Debug, PartialEq, Eq)]
pub enum BatchStatus {
    Archived,
    Published(BatchCursor),
}

/// The answer to a question for a head.
#[derive(Clone, Copy, Debug, PartialEq, Eq)]
pub struct HeadResponse {
    pub head: Option<u64>,
}

/// Where a published payload lies, in text.
#[derive(Debug)]
pub struct BlobRefResponse {
    pub height: u64,
    pub namespace: String,
    pub commitment: String,
}

/// A published batch, in text.
#[derive(Debug)]
pub struct CursorResponse {
    pub sequence: u64,
    pub blob_ref: BlobRefResponse,
    pub payload_hash: String,
}

/// When a block was soft-confirmed.
#[derive(Clone, Copy, Debug, PartialEq, Eq)]
pub struct SoftConfirmResponse {
    pub block_timestamp_ms: u64,
    pub soft_confirmed_at_ms: u64,
    pub soft_latency_ms: u64,
}

/// How and when a block was published.
#[derive(Debug)]
pub struct CommitResponse {
    pub tx_hash: String,
    pub pfb_broadcasted_at_ms: u64,
    pub celestia_committed_at_ms: u64,
    pub celestia_block_time_ms: Option<u64>,
    pub publish_latency_ms: Option<u64>,
    pub backend_commit_latency_ms: u64,
    pub batch_wait_ms: u64,
    pub soft_to_pfb_broadcast_ms: u64,
    pub broadcast_latency_ms: u64,
    pub confirmation_wait_ms: u64,
}

/// Where a batch or a block stands.
#[derive(Debug)]
pub enum StatusResponse {
    Archived { soft: Option<SoftConfirmResponse> },
    Published {
        cursor: CursorResponse,
        soft: Option<SoftConfirmResponse>,
        commit: Option<CommitResponse>,
    },
}

impl CursorResponse {
    /// Whether this says in text what a cursor holds.
    pub open spec fn tells(self, cursor: BatchCursor) -> bool {
        &&& self.sequence == cursor.sequence
        &&& self.blob_ref.height == cursor.blob_ref.height
        &&& self.blob_ref.namespace@ == hex_text(cursor.blob_ref.namespace@)
        &&& self.blob_ref.commitment@ == hex_text(cursor.blob_ref.commitment@)
        &&& self.payload_hash@ == hex_text(cursor.payload_hash@)
    }

    /// A cursor in text.
    pub fn from(cursor: BatchCursor) -> (response: CursorResponse)
        ensures
            response.tells(cursor),
    {
        CursorResponse {
            sequence: cursor.sequence,
            blob_ref: BlobRefResponse {
                height: cursor.blob_ref.height,
                namespace: hex29(cursor.blob_ref.namespace),
                commitment: hex32(cursor.blob_ref.commitment),
            },
            payload_hash: hex(cursor.payload_hash.as_slice()),
        }
    }
}

impl SoftConfirmResponse {
    /// When a block of the index was soft-confirmed.
    pub open spec fn of(block: SoftBlockView) -> SoftConfirmResponse {
        SoftConfirmResponse {
            block_timestamp_ms: block.metadata.timestamp,
            soft_confirmed_at_ms: block.soft_confirmed_at,
            soft_latency_ms: if block.soft_confirmed_at >= block.metadata.timestamp {
                (block.soft_confirmed_at - block.metadata.timestamp) as u64
            } else {
                0
            },
        }
    }

    /// When a block was soft-confirmed.
    pub fn from(block: &SoftBlock) -> (response: SoftConfirmResponse)
        ensures
            response == SoftConfirmResponse::of(block@),
    {
        SoftConfirmResponse {
            block_timestamp_ms: block.metadata.timestamp,
            soft_confirmed_at_ms: block.soft_confirmed_at,
            soft_latency_ms: block.soft_confirmed_at.saturating_sub(block.metadata.timestamp),
        }
    }
}

impl CommitResponse {
    /// Whether this says what a publication holds.
    pub open spec fn tells(self, commit: SoftCommitView) -> bool {
        &&& self.tx_hash@ == commit.tx_hash
        &&& self.pfb_broadcasted_at_ms == commit.pfb_broadcasted_at_ms
        &&& self.celestia_committed_at_ms == commit.celestia_committed_at_ms
        &&& self.celestia_block_time_ms == commit.celestia_block_time_ms
        &&& self.publish_latency_ms == commit.publish_latency_ms
        &&& self.backend_commit_latency_ms == commit.backend_commit_latency_ms
        &&& self.batch_wait_ms == commit.batch_wait_ms
        &&& self.soft_to_pfb_broadcast_ms == commit.soft_to_pfb_broadcast_ms
        &&& self.broadcast_latency_ms == commit.broadcast_latency_ms
        &&& self.confirmation_wait_ms == commit.confirmation_wait_ms
    }

    /// How and when a block was published.
    pub fn from(commit: &SoftCommit) -> (response: CommitResponse)
        ensures
            response.tells(commit@),
    {
        CommitResponse {
            tx_hash: commit.tx_hash.clone(),
            pfb_broadcasted_at_ms: commit.pfb_broadcasted_at_ms,
            celestia_committed_at_ms: commit.celestia_committed_at_ms,
            celestia_block_time_ms: commit.celestia_block_time_ms,
            publish_latency_ms: commit.publish_latency_ms,
            backend_commit_latency_ms: commit.backend_commit_latency_ms,
            batch_wait_ms: commit.batch_wait_ms,
            soft_to_pfb_broadcast_ms: commit.soft_to_pfb_broadcast_ms,
            broadcast_latency_ms: commit.broadcast_latency_ms,
            confirmation_wait_ms: commit.confirmation_wait_ms,
        }
    }
}

impl StatusResponse {
    /// Whether this says where a batch stands.
    pub open spec fn tells(self, status: BatchStatus) -> bool {
        match status {
            BatchStatus::Archived => self == (StatusResponse::Archived { soft: None }),
            BatchStatus::Published(published) => {
                &&& self matches StatusResponse::Published { cursor, soft, commit }
                &&& cursor.tells(published)
                &&& soft is None
                &&& commit is None
            },
        }
    }

    /// Where a batch stands.
    pub fn from(status: BatchStatus) -> (response: StatusResponse)
        ensures
            response.tells(status),
    {
        match status {
            BatchStatus::Archived => StatusResponse::Archived { soft: None },
            BatchStatus::Published(cursor) => StatusResponse::Published {
                cursor: CursorResponse::from(cursor),
                soft: None,
                commit: None,
            },
        }
    }

    /// Whether this says where a block of the index stands in a batch: published only
    /// once the publication of the block itself is known.
    pub open spec fn tells_block(self, status: BatchStatus, block: Option<SoftBlockView>) -> bool {
        let confirmed = match block {
            Some(found) => Some(SoftConfirmResponse::of(found)),
            None => None,
        };
        match (status, block) {
            (
                BatchStatus::Published(published),
                Some(SoftBlockView { commit: Some(known), .. }),
            ) => {
                &&& self matches StatusResponse::Published { cursor, soft, commit }
                &&& cursor.tells(published)
                &&& soft == confirmed
                &&& commit matches Some(told) && told.tells(known)
            },
            _ => self == (StatusResponse::Archived { soft: confirmed }),
        }
    }
}

/// The answer with the head of published batches.
pub fn history_head(head: Fetched<u64>) -> (reply: Reply<HeadResponse>)
    ensures
        reply == match head {
            Fetched::Found(sequence) => Reply::Body(HeadResponse { head: Some(sequence) }),
            Fetched::Nothing => Reply::Body(HeadResponse { head: None }),
            Fetched::Failed => Reply::InternalError,
        },
{
    match head {
        Fetched::Found(sequence) => Reply::Body(HeadResponse { head: Some(sequence) }),
        Fetched::Nothing => Reply::Body(HeadResponse { head: None }),
        Fetched::Failed => Reply::InternalError,
    }
}

/// The answer with the head of archived batches.
pub fn history_archived_head(head: Fetched<u64>) -> (reply: Reply<HeadResponse>)
    ensures
        reply == match head {
            Fetched::Found(sequence) => Reply::Body(HeadResponse { head: Some(sequence) }),
            Fetched::Nothing => Reply::Body(HeadResponse { head: None }),
            Fetched::Failed => Reply::InternalError,
        },
{
    history_head(head)
}

/// The answer with the highest archived block: by height where blocks are indexed, and by
/// batch otherwise.
pub fn block_archived_head(index: Option<&SoftStatusIndex>, head: Fetched<u64>) -> (reply: Reply<
    HeadResponse,
>)
    ensures
        match index {
            Some(blocks) => reply matches Reply::Body(response) && is_highest(
                response.head,
                blocks@.dom(),
            ),
            None => reply == match head {
                Fetched::Found(sequence) => Reply::Body(HeadResponse { head: Some(sequence) }),
                Fetched::Nothing => Reply::Body(HeadResponse { head: None }),
                Fetched::Failed => Reply::InternalError,
            },
        },
{
    match index {
        Some(blocks) => Reply::Body(HeadResponse { head: blocks.archived_head() }),
        None => history_archived_head(head),
    }
}

/// The answer with the highest published block: by height where blocks are indexed, and
/// by batch otherwise.
pub fn block_published_head(index: Option<&SoftStatusIndex>, head: Fetched<u64>) -> (reply: Reply<
    HeadResponse,
>)
    ensures
        match index {
            Some(blocks) => reply matches Reply::Body(response) && is_highest(
                response.head,
                published_heights(blocks@),
            ),
            None => reply == match head {
                Fetched::Found(sequence) => Reply::Body(HeadResponse { head: Some(sequence) }),
                Fetched::Nothing => Reply::Body(HeadResponse { head: None }),
                Fetched::Failed => Reply::InternalError,
            },
        },
{
    match index {
        Some(blocks) => Reply::Body(HeadResponse { head: blocks.published_head() }),
        None => history_head(head),
    }
}

/// The answer with the status of a batch.
pub fn history_status(status: Fetched<BatchStatus>) -> (reply: Reply<StatusResponse>)
    ensures
        match status {
            Fetched::Found(found) => reply matches Reply::Body(response) && response.tells(found),
            Fetched::Nothing => reply is NotFound,
            Fetched::Failed => reply is InternalError,
        },
{
    match status {
        Fetched::Found(found) => Reply::Body(StatusResponse::from(found)),
        Fetched::Nothing => Reply::NotFound,
        Fetched::Failed => Reply::InternalError,
    }
}

/// The batch whose status answers a question for the status of a block: the one with the
/// block where blocks are indexed, and the one with the number asked for otherwise.
pub fn block_status_batch(index: Option<&SoftStatusIndex>, height: u64) -> (sequence: Option<u64>)
    ensures
        sequence == match index {
            Some(blocks) => if blocks@.contains_key(height) {
                Some(blocks@[height].sequence)
            } else {
                None
            },
            None => Some(height),
        },
{
    match index {
        Some(blocks) => blocks.batch_for_height(height),
        None => Some(height),
    }
}

/// The entry of an index for a height.
pub open spec fn entry_at(index: Map<u64, SoftBlockView>, height: u64) -> Option<SoftBlockView> {
    if index.contains_key(height) {
        Some(index[height])
    } else {
        None
    }
}

/// The answer with the status of a block, given the status of the batch that
/// [`block_status_batch`] names.
pub fn block_status(
    index: Option<&SoftStatusIndex>,
    height: u64,
    status: Fetched<BatchStatus>,
) -> (reply: Reply<StatusResponse>)
    ensures
        match (index, status) {
            (Some(blocks), Fetched::Found(found)) => if blocks@.contains_key(height) {
                reply matches Reply::Body(response) && response.tells_block(
                    found,
                    entry_at(blocks@, height),
                )
            } else {
                reply is NotFound
            },
            (None, Fetched::Found(found)) => reply matches Reply::Body(response) && response.tells(
                found,
            ),
            (Some(blocks), Fetched::Failed) => if blocks@.contains_key(height) {
                reply is InternalError
            } else {
                reply is NotFound
            },
            (None, Fetched::Failed) => reply is InternalError,
            (_, Fetched::Nothing) => reply is NotFound,
        },
{
    let blocks = match index {
        Some(blocks) => blocks,
        None => {
            return history_status(status);
        },
    };
    let block = match blocks.soft_block(height) {
        Some(block) => block,
        None => {
            return Reply::NotFound;
        },
    };
    let found = match status {
        Fetched::Found(found) => found,
        Fetched::Nothing => {
            return Reply::NotFound;
        },
        Fetched::Failed => {
            return Reply::InternalError;
        },
    };
    let soft = Some(SoftConfirmResponse::from(block));
    let response = match (found, &block.commit) {
        (BatchStatus::Published(cursor), Some(commit)) => StatusResponse::Published {
            cursor: CursorResponse::from(cursor),
            soft,
            commit: Some(CommitResponse::from(commit)),
        },
        _ => StatusResponse::Archived { soft },
    };
    Reply::Body(response)
}

/// The answer with the cursor of a batch.
pub fn history_cursor(cursor: Fetched<BatchCursor>) -> (reply: Reply<CursorResponse>)
    ensures
        match cursor {
            Fetched::Found(found) => reply matches Reply::Body(response) && response.tells(found),
            Fetched::Nothing => reply is NotFound,
            Fetched::Failed => reply is InternalError,
        },
{
    match cursor {
        Fetched::Found(found) => Reply::Body(CursorResponse::from(found)),
        Fetched::Nothing => Reply::NotFound,
        Fetched::Failed => Reply::InternalError,
    }
}

/// The answer with the payload of a batch: there is none where payloads are not served.
pub fn history_payload(serve_payloads: bool, payload: Fetched<Vec<u8>>) -> (reply: Reply<Vec<u8>>)
    ensures
        reply == match (serve_payloads, payload) {
            (true, Fetched::Found(bytes)) => Reply::Body(bytes),
            (true, Fetched::Failed) => Reply::InternalError,
            _ => Reply::NotFound,
        },
{
    if !serve_payloads {
        return Reply::NotFound;
    }
    match payload {
        Fetched::Found(bytes) => Reply::Body(bytes),
        Fetched::Nothing => Reply::NotFound,
        Fetched::Failed => Reply::InternalError,
    }
}

/// The query for the newest block.
pub const LATEST: &'static str = "latest";

/// The height that a query names: in decimal, or else as the eight bytes of the number in
/// hexadecimal.
pub open spec fn queried_height(query: Seq<char>) -> Option<u64> {
    match decimal_u64(query) {
        Some(height) => Some(height),
        None => match hex_bytes(query) {
            Some(bytes) if bytes.len() == 8 => Some(be_value(bytes) as u64),
            _ => None,
        },
    }
}

/// The number that a query names.
pub fn parse_u64_query(query: &str) -> (value: Option<u64>)
    ensures
        value == queried_height(query@),
{
    if let Some(value) = parse_decimal(query) {
        return Some(value);
    }
    let raw = match from_hex(query) {
        Some(raw) => raw,
        None => {
            return None;
        },
    };
    if raw.len() != 8 {
        return None;
    }
    assert(raw@.skip(0) =~= raw@);
    read_u64(raw.as_slice(), 0)
}

/// Whether a query asks for the newest block.
pub fn is_latest(query: &str) -> (latest: bool)
    ensures
        latest == (query@ == LATEST@),
{
    same_text(query, LATEST)
}

/// The height that a query asks for where blocks are indexed.
pub fn block_height_query(index: &SoftStatusIndex, query: &str) -> (height: Option<u64>)
    ensures
        if query@ == LATEST@ {
            is_highest(height, index@.dom())
        } else {
            height == queried_height(query@)
        },
{
    if is_latest(query) {
        return index.archived_head();
    }
    parse_u64_query(query)
}

/// The batch that a query asks for where blocks are not indexed, with the reason for a
/// refusal: the archived head for the newest block, and otherwise the batch of a height,
/// which is one less as each batch holds one block and heights begin at one.
pub open spec fn queried_batch(query: Seq<char>, head: Fetched<u64>) -> Reply<u64> {
    if query == LATEST@ {
        match head {
            Fetched::Found(sequence) => Reply::Body(sequence),
            Fetched::Nothing => Reply::NotFound,
            Fetched::Failed => Reply::BadRequest,
        }
    } else {
        match queried_height(query) {
            Some(height) if height > 0 => Reply::Body((height - 1) as u64),
            _ => Reply::NotFound,
        }
    }
}

/// The batch that a query asks for where blocks are not indexed, given the archived head.
pub fn payload_sequence(query: &str, head: Fetched<u64>) -> (sequence: Reply<u64>)
    ensures
        sequence == queried_batch(query@, head),
{
    if is_latest(query) {
        return match head {
            Fetched::Found(sequence) => Reply::Body(sequence),
            Fetched::Nothing => Reply::NotFound,
            Fetched::Failed => Reply::BadRequest,
        };
    }
    match parse_u64_query(query) {
        Some(height) => if height == 0 {
            Reply::NotFound
        } else {
            Reply::Body(height - 1)
        },
        None => Reply::NotFound,
    }
}

/// The answer with an encoded block where blocks are indexed.
pub fn block_get<'a>(serve_payloads: bool, index: &'a SoftStatusIndex, query: &str) -> (reply: Reply<
    &'a Vec<u8>,
>)
    ensures
        !serve_payloads ==> reply is NotFound,
        serve_payloads ==> exists|height: Option<u64>|
            {
                &&& if query@ == LATEST@ {
                    is_highest(height, index@.dom())
                } else {
                    height == queried_height(query@)
                }
                &&& match #[trigger] indexed_payload(index@, height) {
                    Some(bytes) => reply matches Reply::Body(found) && found@ == bytes,
                    None => reply is NotFound,
                }
            },
{
    if !serve_payloads {
        return Reply::NotFound;
    }
    let height = block_height_query(index, query);
    assert(indexed_payload(index@, height) is Some ==> height is Some);
    match height {
        Some(height) => match index.block_payload(height) {
            Some(payload) => Reply::Body(payload),
            None => Reply::NotFound,
        },
        None => Reply::NotFound,
    }
}

/// The encoding of the block that an index has at a height.
pub open spec fn indexed_payload(index: Map<u64, SoftBlockView>, height: Option<u64>) -> Option<
    Seq<u8>,
> {
    match height {
        Some(h) if index.contains_key(h) => Some(index[h].payload),
        _ => None,
    }
}

/// The position of the first block with a height, or the number of blocks.
pub open spec fn position_of(blocks: Seq<Block>, height: u64) -> int
    decreases blocks.len(),
{
    if blocks.len() == 0 || blocks[0].height == height {
        0
    } else {
        1 + position_of(blocks.drop_first(), height)
    }
}

/// Whether a reply is the encoding of the block with a height among encoded blocks.
pub open spec fn picks_height<D: Fn(&Vec<u8>) -> Result<Block, String>>(
    decode: D,
    parts: Seq<Seq<u8>>,
    height: u64,
    reply: Reply<Vec<u8>>,
) -> bool {
    exists|outcome: Result<Vec<Block>, DecodeError>|
        {
            &&& #[trigger] parts_outcome(decode, parts, outcome)
            &&& match outcome {
                Err(_) => reply is InternalError,
                Ok(blocks) => if position_of(blocks@, height) < blocks@.len() {
                    reply matches Reply::Body(bytes) && bytes@ == parts[position_of(
                        blocks@,
                        height,
                    )]
                } else {
                    reply is NotFound
                },
            }
        }
}

/// Whether a reply is the encoded block that a query asks for in the payload of the batch
/// that it leads to: the last one for the newest block, and otherwise the one with the
/// height. A payload that is no batch is an error.
pub open spec fn picks_block<D: Fn(&Vec<u8>) -> Result<Block, String>>(
    decode: D,
    query: Seq<char>,
    payload: Seq<u8>,
    reply: Reply<Vec<u8>>,
) -> bool {
    match batch_parts(payload) {
        Err(_) => reply is InternalError,
        Ok(parts) => if query == LATEST@ {
            if parts.len() == 0 {
                reply is NotFound
            } else {
                reply matches Reply::Body(bytes) && bytes@ == parts.last()
            }
        } else {
            match queried_height(query) {
                Some(height) => picks_height(decode, parts, height, reply),
                None => reply is NotFound,
            }
        },
    }
}

fn find_height(blocks: &Vec<Block>, height: u64) -> (at: usize)
    ensures
        at == position_of(blocks@, height),
        at <= blocks@.len(),
{
    let mut i: usize = 0;
    assert(blocks@.skip(0) =~= blocks@);
    while i < blocks.len() && blocks[i].height != height
        invariant
            i <= blocks@.len(),
            position_of(blocks@, height) == i + position_of(blocks@.skip(i as int), height),
        decreases blocks@.len() - i,
    {
        assert(blocks@.skip(i as int).drop_first() =~= blocks@.skip(i + 1));
        i += 1;
    }
    i
}

fn pick_block<D: Fn(&Vec<u8>) -> Result<Block, String>>(
    query: &str,
    payload: &Vec<u8>,
    decode: &D,
) -> (reply: Reply<Vec<u8>>)
    requires
        forall|encoded: &Vec<u8>| call_requires(*decode, (encoded,)),
    ensures
        picks_block(*decode, query@, payload@, reply),
{
    let mut parts = match decode_block_payloads(payload) {
        Ok(parts) => parts,
        Err(_) => {
            return Reply::InternalError;
        },
    };
    let ghost expected = views(parts@);
    if is_latest(query) {
        return match parts.pop() {
            Some(part) => {
                assert(expected.last() == part@);
                Reply::Body(part)
            },
            None => Reply::NotFound,
        };
    }
    let height = match parse_u64_query(query) {
        Some(height) => height,
        None => {
            return Reply::NotFound;
        },
    };
    let outcome = decode_blocks(&parts, decode);
    assert(parts_outcome(*decode, expected, outcome));
    match outcome {
        Ok(blocks) => {
            let at = find_height(&blocks, height);
            if at < blocks.len() {
                let part = parts[at].clone();
                assert(part@ =~= expected[at as int]);
                Reply::Body(part)
            } else {
                Reply::NotFound
            }
        },
        Err(_) => Reply::InternalError,
    }
}

/// The answer with an encoded block where blocks are not indexed, given what the archive
/// has as the payload of the batch that [`payload_sequence`] names.
pub fn archived_block_get<D: Fn(&Vec<u8>) -> Result<Block, String>>(
    serve_payloads: bool,
    query: &str,
    payload: Fetched<Vec<u8>>,
    decode: &D,
) -> (reply: Reply<Vec<u8>>)
    requires
        forall|encoded: &Vec<u8>| call_requires(*decode, (encoded,)),
    ensures
        match (serve_payloads, payload) {
            (false, _) => reply is NotFound,
            (true, Fetched::Nothing) => reply is NotFound,
            (true, Fetched::Failed) => reply is InternalError,
            (true, Fetched::Found(bytes)) => picks_block(*decode, query@, bytes@, reply),
        },
{
    if !serve_payloads {
        return Reply::NotFound;
    }
    match payload {
        Fetched::Found(bytes) => pick_block(query, &bytes, decode),
        Fetched::Nothing => Reply::NotFound,
        Fetched::Failed => Reply::InternalError,
    }
}

/// Once a batch is filed, each of its blocks is served under its height as it was encoded,
/// where the heights of the batch differ.
pub proof fn law_archived_block_is_served(
    index: Map<u64, SoftBlockView>,
    batch: SoftBatchView,
    i: int,
)
    requires
        0 <= i < batch.blocks.len(),
        forall|a: int, b: int|
            0 <= a < b < batch.blocks.len() ==> (#[trigger] batch.blocks[a]).metadata.height != (
            #[trigger] batch.blocks[b]).metadata.height,
    ensures
        indexed_payload(
            with_archived(index, batch, batch.blocks.len() as int),
            Some(batch.blocks[i].metadata.height),
        ) == Some(batch.blocks[i].payload),
{
    law_archived_block_is_read_back(index, batch, batch.blocks.len() as int, i);
}

/// A height is found by its decimal notation, and by the hexadecimal notation of its
/// eight bytes unless that reads as a decimal number.
pub proof fn law_height_query_round_trip(height: u64)
    ensures
        queried_height(decimal(height as nat)) == Some(height),
        decimal_u64(hex_text(be_bytes(height))) is None ==> queried_height(
            hex_text(be_bytes(height)),
        ) == Some(height),
{
    law_decimal_round_trip(height);
    law_hex_round_trip(be_bytes(height));
    lemma_be_round_trip(height, Seq::empty());
    assert(be_bytes(height) + Seq::<u8>::empty() =~= be_bytes(height));
}

/// A reply for a height holds the encoding of a block with that height, as the decoder
/// of blocks sees it.
pub proof fn law_block_reply_has_the_height<D: Fn(&Vec<u8>) -> Result<Block, String>>(
    decode: D,
    parts: Seq<Seq<u8>>,
    height: u64,
    reply: Reply<Vec<u8>>,
)
    requires
        picks_height(decode, parts, height, reply),
    ensures
        reply matches Reply::Body(bytes) ==> exists|block: Block| #[trigger]
            decodes_to(decode, bytes@, Ok(block)) && block.height == height,
{
    let outcome = choose|outcome: Result<Vec<Block>, DecodeError>|
        {
            &&& #[trigger] parts_outcome(decode, parts, outcome)
            &&& match outcome {
                Err(_) => reply is InternalError,
                Ok(blocks) => if position_of(blocks@, height) < blocks@.len() {
                    reply matches Reply::Body(bytes) && bytes@ == parts[position_of(
                        blocks@,
                        height,
                    )]
                } else {
                    reply is NotFound
                },
            }
        };
    if let Ok(blocks) = outcome {
        if reply is Body {
            lemma_position_of(blocks@, height);
            let at = position_of(blocks@, height);
            assert(parts_decode(decode, parts, blocks@));
            assert(decodes_to(decode, parts[at], Ok(blocks@[at])));
        }
    }
}

proof fn lemma_position_of(blocks: Seq<Block>, height: u64)
    ensures
        0 <= position_of(blocks, height) <= blocks.len(),
        position_of(blocks, height) < blocks.len() ==> blocks[position_of(blocks, height)].height
            == height,
    decreases blocks.len(),
{
    if blocks.len() > 0 && blocks[0].height != height {
        lemma_position_of(blocks.drop_first(), height);
    }
}

/// A cursor in text can be read back: its hexadecimal texts are those of the namespace, the
/// commitment and the payload hash, each in its place.
pub proof fn law_cursor_text_is_read_back(cursor: BatchCursor, response: CursorResponse)
    requires
        call_ensures(CursorResponse::from, (cursor,), response),
    ensures
        response.sequence == cursor.sequence,
        response.blob_ref.height == cursor.blob_ref.height,
        hex_bytes(response.blob_ref.namespace@) == Some(cursor.blob_ref.namespace@),
        hex_bytes(response.blob_ref.commitment@) == Some(cursor.blob_ref.commitment@),
        hex_bytes(response.payload_hash@) == Some(cursor.payload_hash@),
{
    law_hex_round_trip(cursor.blob_ref.namespace@);
    law_hex_round_trip(cursor.blob_ref.commitment@);
    law_hex_round_trip(cursor.payload_hash@);
}

/// The latency of a soft confirmation reaches from the block's own timestamp to the
/// confirmation; it is zero where the clock went back.
pub proof fn law_soft_latency_adds_up(block: SoftBlock, response: SoftConfirmResponse)
    requires
        call_ensures(SoftConfirmResponse::from, (&block,), response),
    ensures
        response.block_timestamp_ms == block.metadata.timestamp,
        response.soft_confirmed_at_ms == block.soft_confirmed_at,
        response.block_timestamp_ms <= response.soft_confirmed_at_ms ==> response.block_timestamp_ms
            + response.soft_latency_ms == response.soft_confirmed_at_ms,
        response.block_timestamp_ms > response.soft_confirmed_at_ms ==> response.soft_latency_ms
            == 0,
{
}

/// What is served of a publication is what was filed for it, figure by figure.
pub proof fn law_commit_is_served_as_filed(commit: SoftCommit, response: CommitResponse)
    requires
        call_ensures(CommitResponse::from, (&commit,), response),
    ensures
        response.tx_hash@ == commit.tx_hash@,
        response.pfb_broadcasted_at_ms == commit.pfb_broadcasted_at_ms,
        response.celestia_committed_at_ms == commit.celestia_committed_at_ms,
        response.celestia_block_time_ms == commit.celestia_block_time_ms,
        response.publish_latency_ms == commit.publish_latency_ms,
        response.backend_commit_latency_ms == commit.backend_commit_latency_ms,
        response.batch_wait_ms == commit.batch_wait_ms,
        response.soft_to_pfb_broadcast_ms == commit.soft_to_pfb_broadcast_ms,
        response.broadcast_latency_ms == commit.broadcast_latency_ms,
        response.confirmation_wait_ms == commit.confirmation_wait_ms,
{
}

/// A head is served as it came back: a number, that there is none, or an error, and the two
/// heads of the archive are served alike.
pub proof fn law_heads_are_served(
    head: Fetched<u64>,
    published: Reply<HeadResponse>,
    archived: Reply<HeadResponse>,
)
    requires
        call_ensures(history_head, (head,), published),
        call_ensures(history_archived_head, (head,), archived),
    ensures
        published == archived,
        published is InternalError <==> head is Failed,
        published is Body <==> !(head is Failed),
        published matches Reply::Body(response) ==> (response.head matches Some(sequence) ==> head
            == Fetched::Found(sequence)),
        published matches Reply::Body(response) ==> (response.head is None <==> head is Nothing),
{
}

/// Where blocks are indexed the heads are the highest heights with a block and with a
/// publication, whatever the archive says; otherwise they are those of the archive.
pub proof fn law_block_heads_are_the_highest(
    index: SoftStatusIndex,
    head: Fetched<u64>,
    archived: Reply<HeadResponse>,
    published: Reply<HeadResponse>,
    plain: Reply<HeadResponse>,
    unindexed: Reply<HeadResponse>,
    unindexed_published: Reply<HeadResponse>,
    other: u64,
)
    requires
        call_ensures(block_archived_head, (Some(&index), head), archived),
        call_ensures(block_published_head, (Some(&index), head), published),
        call_ensures(history_head, (head,), plain),
        call_ensures(block_archived_head, (None, head), unindexed),
        call_ensures(block_published_head, (None, head), unindexed_published),
    ensures
        unindexed == plain,
        unindexed_published == plain,
        archived matches Reply::Body(response) && {
            &&& response.head matches Some(height) ==> index@.contains_key(height)
            &&& index@.contains_key(other) ==> response.head is Some && other <= response.head->0
        },
        published matches Reply::Body(response) && {
            &&& response.head matches Some(height) ==> index@.contains_key(height)
                && index@[height].commit is Some
            &&& index@.contains_key(other) && index@[other].commit is Some ==> response.head is Some
                && other <= response.head->0
        },
{
    if index@.contains_key(other) {
        assert(index@.dom().contains(other));
        if index@[other].commit is Some {
            assert(published_heights(index@).contains(other));
        }
    }
    if let Reply::Body(response) = published {
        if let Some(height) = response.head {
            assert(published_heights(index@).contains(height));
        }
    }
    if let Reply::Body(response) = archived {
        if let Some(height) = response.head {
            assert(index@.dom().contains(height));
        }
    }
}

/// The status of a batch says that it is published exactly where it is, and then where; a
/// batch that is not there is not found, and a failure is an error.
pub proof fn law_batch_status_is_served(status: Fetched<BatchStatus>, reply: Reply<StatusResponse>)
    requires
        call_ensures(history_status, (status,), reply),
    ensures
        reply is NotFound <==> status is Nothing,
        reply is InternalError <==> status is Failed,
        reply is Body <==> status is Found,
        reply matches Reply::Body(StatusResponse::Published { cursor, soft, commit }) ==> {
            &&& status matches Fetched::Found(BatchStatus::Published(published))
            &&& cursor.sequence == published.sequence
            &&& cursor.blob_ref.height == published.blob_ref.height
            &&& hex_bytes(cursor.blob_ref.namespace@) == Some(published.blob_ref.namespace@)
            &&& hex_bytes(cursor.blob_ref.commitment@) == Some(published.blob_ref.commitment@)
            &&& hex_bytes(cursor.payload_hash@) == Some(published.payload_hash@)
            &&& soft is None && commit is None
        },
        reply matches Reply::Body(StatusResponse::Archived { soft }) ==> status == Fetched::Found(
            BatchStatus::Archived,
        ) && soft is None,
{
    if let Fetched::Found(BatchStatus::Published(published)) = status {
        law_hex_round_trip(published.blob_ref.namespace@);
        law_hex_round_trip(published.blob_ref.commitment@);
        law_hex_round_trip(published.payload_hash@);
    }
}

/// Where blocks are indexed the status of a height is that of its own block: it is not found
/// without one, it is published only once both the batch and the block itself are, and it
/// carries the block's own times and figures.
pub proof fn law_block_status_is_its_own(
    index: SoftStatusIndex,
    height: u64,
    status: Fetched<BatchStatus>,
    reply: Reply<StatusResponse>,
    sequence: Option<u64>,
)
    requires
        call_ensures(block_status_batch, (Some(&index), height), sequence),
        call_ensures(block_status, (Some(&index), height, status), reply),
    ensures
        sequence is Some <==> index@.contains_key(height),
        sequence is Some ==> index@[height].sequence == sequence->0,
        reply is NotFound <==> !index@.contains_key(height) || status is Nothing,
        reply is InternalError <==> index@.contains_key(height) && status is Failed,
        reply matches Reply::Body(StatusResponse::Published { cursor, soft, commit }) ==> {
            &&& status matches Fetched::Found(BatchStatus::Published(published))
            &&& cursor.sequence == published.sequence
            &&& cursor.blob_ref.height == published.blob_ref.height
            &&& hex_bytes(cursor.payload_hash@) == Some(published.payload_hash@)
            &&& index@[height].commit matches Some(filed)
            &&& soft matches Some(times) && times.block_timestamp_ms
                == index@[height].metadata.timestamp && times.soft_confirmed_at_ms
                == index@[height].soft_confirmed_at
            &&& commit matches Some(told) && told.batch_wait_ms == filed.batch_wait_ms
                && told.confirmation_wait_ms == filed.confirmation_wait_ms
                && told.broadcast_latency_ms == filed.broadcast_latency_ms
                && told.soft_to_pfb_broadcast_ms == filed.soft_to_pfb_broadcast_ms
                && told.publish_latency_ms == filed.publish_latency_ms
                && told.backend_commit_latency_ms == filed.backend_commit_latency_ms
                && told.celestia_committed_at_ms == filed.celestia_committed_at_ms
                && told.celestia_block_time_ms == filed.celestia_block_time_ms
                && told.pfb_broadcasted_at_ms == filed.pfb_broadcasted_at_ms && told.tx_hash@
                == filed.tx_hash
        },
        reply matches Reply::Body(StatusResponse::Archived { soft }) ==> {
            &&& index@[height].commit is None || status == Fetched::Found(BatchStatus::Archived)
            &&& soft matches Some(times) && times.block_timestamp_ms
                == index@[height].metadata.timestamp && times.soft_confirmed_at_ms
                == index@[height].soft_confirmed_at
        },
{
    if let Fetched::Found(BatchStatus::Published(published)) = status {
        law_hex_round_trip(published.payload_hash@);
    }
}

/// Where blocks are not indexed the status of a height is that of the batch with its
/// number.
pub proof fn law_unindexed_block_status_is_the_batch(
    height: u64,
    status: Fetched<BatchStatus>,
    reply: Reply<StatusResponse>,
    sequence: Option<u64>,
)
    requires
        call_ensures(block_status_batch, (None, height), sequence),
        call_ensures(block_status, (None, height, status), reply),
    ensures
        sequence == Some(height),
        reply is NotFound <==> status is Nothing,
        reply is InternalError <==> status is Failed,
        reply matches Reply::Body(StatusResponse::Published { cursor, soft, commit }) ==> (status
            matches Fetched::Found(BatchStatus::Published(published)) && cursor.sequence
            == published.sequence && cursor.blob_ref.height == published.blob_ref.height),
        reply matches Reply::Body(StatusResponse::Archived { .. }) ==> status == Fetched::Found(
            BatchStatus::Archived,
        ),
{
}

/// A cursor is served where there is one, and names the batch and its place.
pub proof fn law_cursor_is_served(cursor: Fetched<BatchCursor>, reply: Reply<CursorResponse>)
    requires
        call_ensures(history_cursor, (cursor,), reply),
    ensures
        reply is NotFound <==> cursor is Nothing,
        reply is InternalError <==> cursor is Failed,
        reply matches Reply::Body(response) ==> {
            &&& cursor matches Fetched::Found(found)
            &&& response.sequence == found.sequence
            &&& response.blob_ref.height == found.blob_ref.height
            &&& hex_bytes(response.blob_ref.namespace@) == Some(found.blob_ref.namespace@)
            &&& hex_bytes(response.blob_ref.commitment@) == Some(found.blob_ref.commitment@)
            &&& hex_bytes(response.payload_hash@) == Some(found.payload_hash@)
        },
        reply is BadRequest ==> cursor is Failed,
{
    if let Fetched::Found(found) = cursor {
        law_hex_round_trip(found.blob_ref.namespace@);
        law_hex_round_trip(found.blob_ref.commitment@);
        law_hex_round_trip(found.payload_hash@);
    }
}

/// A payload is served as it is, and only where payloads are served at all.
pub proof fn law_payloads_are_served_as_they_are(
    serve: bool,
    payload: Fetched<Vec<u8>>,
    reply: Reply<Vec<u8>>,
)
    requires
        call_ensures(history_payload, (serve, payload), reply),
    ensures
        reply matches Reply::Body(bytes) ==> serve && payload == Fetched::Found(bytes),
        !serve ==> reply is NotFound,
        serve && payload is Found ==> reply is Body,
        serve && payload is Nothing ==> reply is NotFound,
        serve && payload is Failed ==> reply is InternalError,
{
}

/// A number is found by its decimal notation, and eight bytes in hexadecimal that read as no
/// decimal number name the number that they spell; everything else names none.
pub proof fn law_queries_name_numbers(query: &str, value: Option<u64>, n: u64)
    requires
        call_ensures(parse_u64_query, (query,), value),
    ensures
        query@ == decimal(n as nat) ==> value == Some(n),
        decimal_u64(query@) is None && hex_bytes(query@) == Some(be_bytes(n)) ==> value == Some(n),
        value is None ==> decimal_u64(query@) is None && (hex_bytes(query@) is None || hex_bytes(
            query@,
        )->0.len() != 8),
{
    law_decimal_round_trip(n);
    lemma_be_round_trip(n, Seq::empty());
    assert(be_bytes(n) + Seq::<u8>::empty() =~= be_bytes(n));
}

/// The newest block is that of the archived head, and a block of any other height lies in
/// the batch whose number is one less; there is none for what names no height above zero.
pub proof fn law_batches_hold_one_height_each(
    query: &str,
    head: Fetched<u64>,
    sequence: Reply<u64>,
    n: u64,
)
    requires
        call_ensures(payload_sequence, (query, head), sequence),
    ensures
        query@ == "latest"@ ==> {
            &&& sequence is BadRequest <==> head is Failed
            &&& sequence is NotFound <==> head is Nothing
            &&& sequence matches Reply::Body(found) ==> head == Fetched::Found(found)
        },
        query@ != "latest"@ && query@ == decimal(n as nat) && n > 0 ==> (sequence matches Reply::Body(
            found,
        ) && found + 1 == n),
        query@ != "latest"@ && query@ == decimal(0) ==> sequence is NotFound,
        query@ != "latest"@ ==> sequence is Body || sequence is NotFound,
{
    law_decimal_round_trip(n);
    law_decimal_round_trip(0);
}

/// Where blocks are indexed the newest block is the highest one, and any other query asks
/// for the height that it names.
pub proof fn law_block_queries_ask_for_heights(
    index: SoftStatusIndex,
    query: &str,
    height: Option<u64>,
    value: Option<u64>,
    other: u64,
)
    requires
        call_ensures(block_height_query, (&index, query), height),
        call_ensures(parse_u64_query, (query,), value),
    ensures
        query@ == "latest"@ ==> {
            &&& height matches Some(h) ==> index@.contains_key(h)
            &&& index@.contains_key(other) ==> height is Some && other <= height->0
        },
        query@ != "latest"@ ==> height == value,
{
    if query@ == "latest"@ {
        if index@.contains_key(other) {
            assert(index@.dom().contains(other));
        }
        if let Some(h) = height {
            assert(index@.dom().contains(h));
        }
    }
}

/// An indexed block is served with the encoding that the index holds for its height, and
/// nothing else is; the newest one is the highest.
pub proof fn law_indexed_blocks_are_served(
    index: SoftStatusIndex,
    query: &str,
    reply: Reply<&Vec<u8>>,
    hidden: Reply<&Vec<u8>>,
    n: u64,
)
    requires
        call_ensures(block_get, (true, &index, query), reply),
        call_ensures(block_get, (false, &index, query), hidden),
    ensures
        hidden is NotFound,
        reply is Body || reply is NotFound,
        query@ != "latest"@ && query@ == decimal(n as nat) ==> {
            &&& reply is Body <==> index@.contains_key(n)
            &&& reply matches Reply::Body(bytes) ==> bytes@ == index@[n].payload
        },
        query@ == "latest"@ && index@.contains_key(n) && (forall|other: u64| #[trigger]
            index@.contains_key(other) ==> other <= n) ==> (reply matches Reply::Body(bytes)
            && bytes@ == index@[n].payload),
{
    law_decimal_round_trip(n);
    let height = choose|height: Option<u64>|
        {
            &&& if query@ == LATEST@ {
                is_highest(height, index@.dom())
            } else {
                height == queried_height(query@)
            }
            &&& match #[trigger] indexed_payload(index@, height) {
                Some(bytes) => reply matches Reply::Body(found) && found@ == bytes,
                None => reply is NotFound,
            }
        };
    assert(indexed_payload(index@, height) is Some || reply is NotFound);
    if query@ == "latest"@ && index@.contains_key(n) && (forall|other: u64| #[trigger]
        index@.contains_key(other) ==> other <= n) {
        assert(index@.dom().contains(n));
        assert(height is Some);
        assert(index@.contains_key(height->0));
        assert(height == Some(n));
    }
}

/// The position of the first block with a height.
proof fn lemma_first_position(blocks: Seq<Block>, height: u64, i: int)
    ensures
        0 <= i < position_of(blocks, height) && i < blocks.len() ==> blocks[i].height != height,
    decreases blocks.len(),
{
    if blocks.len() > 0 && blocks[0].height != height && i > 0 {
        lemma_first_position(blocks.drop_first(), height, i - 1);
    }
}

/// A block of an archived batch is served as a part of its payload: the last part for the
/// newest block, and otherwise a part that decodes to a block with the height that the query
/// names. Nothing is served from a batch that is not there, that is no batch or where
/// payloads are not served.
pub proof fn law_archived_blocks_are_parts_of_the_payload<
    D: Fn(&Vec<u8>) -> Result<Block, String>,
>(
    serve: bool,
    query: &str,
    payload: Fetched<Vec<u8>>,
    decode: D,
    reply: Reply<Vec<u8>>,
    bytes: Vec<u8>,
    cut: Result<Vec<Vec<u8>>, DecodeError>,
    value: Option<u64>,
)
    requires
        call_ensures(archived_block_get::<D>, (serve, query, payload, &decode), reply),
        call_ensures(decode_block_payloads, (&bytes,), cut),
        call_ensures(parse_u64_query, (query,), value),
        payload is Found ==> payload == Fetched::Found(bytes),
    ensures
        !serve ==> reply is NotFound,
        serve && payload is Nothing ==> reply is NotFound,
        serve && payload is Failed ==> reply is InternalError,
        serve && payload is Found && cut is Err ==> reply is InternalError,
        serve && payload is Found && query@ == "latest"@ ==> (cut matches Ok(parts) ==> {
            &&& parts@.len() == 0 ==> reply is NotFound
            &&& parts@.len() > 0 ==> (reply matches Reply::Body(found) && found@
                == parts@.last()@)
        }),
        serve && payload is Found && cut is Ok && query@ != "latest"@ && value is None
            ==> reply is NotFound,
        serve && payload is Found && query@ != "latest"@ ==> (reply matches Reply::Body(found)
            ==> value is Some && exists|block: Block| #[trigger]
            decodes_to(decode, found@, Ok(block)) && block.height == value->0),
        reply is Body ==> serve && payload is Found && cut is Ok,
{
    if serve && payload is Found {
        if let Ok(parts) = cut {
            let all = views(parts@);
            assert(batch_parts(bytes@) == Ok::<Seq<Seq<u8>>, DecodeError>(all));
            if query@ == LATEST@ {
                if parts@.len() > 0 {
                    assert(all.last() == parts@.last()@);
                }
            } else if value is Some {
                law_block_reply_has_the_height(decode, all, value->0, reply);
            }
        }
    }
}

/// Where all parts decode, the first block with the height that a query names is found, and
/// none is found exactly where no block has it.
pub proof fn law_blocks_are_picked_by_height<D: Fn(&Vec<u8>) -> Result<Block, String>>(
    decode: D,
    parts: Seq<Seq<u8>>,
    blocks: Seq<Block>,
    height: u64,
    reply: Reply<Vec<u8>>,
    i: int,
)
    requires
        picks_height(decode, parts, height, reply),
        forall|outcome: Result<Vec<Block>, DecodeError>| #[trigger]
            parts_outcome(decode, parts, outcome) ==> (outcome matches Ok(found) && found@
                == blocks),
        0 <= i < blocks.len(),
        parts.len() == blocks.len(),
    ensures
        blocks[i].height == height && (forall|j: int|
            0 <= j < i ==> (#[trigger] blocks[j]).height != height) ==> (reply matches Reply::Body(
            bytes,
        ) && bytes@ == parts[i]),
        (forall|j: int| 0 <= j < blocks.len() ==> (#[trigger] blocks[j]).height != height)
            ==> reply is NotFound,
{
    let at = position_of(blocks, height);
    lemma_position_of(blocks, height);
    lemma_first_position(blocks, height, i);
    if at < blocks.len() {
        assert(blocks[at].height == height);
    }
}

/// A block of an archived batch whose parts all decode is found by its height: the first
/// part whose block has it is served, and none is found exactly where no block has it.
pub proof fn law_archived_blocks_are_found<D: Fn(&Vec<u8>) -> Result<Block, String>>(
    query: &str,
    payload: Vec<u8>,
    decode: D,
    reply: Reply<Vec<u8>>,
    cut: Result<Vec<Vec<u8>>, DecodeError>,
    blocks: Seq<Block>,
    value: Option<u64>,
    i: int,
)
    requires
        query@ != "latest"@,
        call_ensures(parse_u64_query, (query,), value),
        value is Some,
        call_ensures(
            archived_block_get::<D>,
            (true, query, Fetched::Found(payload), &decode),
            reply,
        ),
        call_ensures(decode_block_payloads, (&payload,), cut),
        cut matches Ok(parts) && parts@.len() == blocks.len() && forall|
            outcome: Result<Vec<Block>, DecodeError>,
        | #[trigger]
            parts_outcome(decode, views(parts@), outcome) ==> (outcome matches Ok(found) && found@
                == blocks),
        0 <= i < blocks.len(),
    ensures
        blocks[i].height == value->0 && (forall|j: int|
            0 <= j < i ==> (#[trigger] blocks[j]).height != value->0) ==> (reply matches Reply::Body(
            bytes,
        ) && bytes@ == cut->Ok_0@[i]@),
        (forall|j: int| 0 <= j < blocks.len() ==> (#[trigger] blocks[j]).height != value->0)
            ==> reply is NotFound,
{
    let parts = views(cut->Ok_0@);
    assert(parts[i] == cut->Ok_0@[i]@);
    law_blocks_are_picked_by_height(decode, parts, blocks, value->0, reply, i);
}

} // verus!

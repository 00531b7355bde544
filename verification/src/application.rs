//! The validator's application: which blocks it proposes and which it votes for.

use crate::backfiller::{Entry, State};
use crate::crypto::sha256_digest;
use crate::genesis::{genesis_header, is_genesis};
use crate::types::{Block, BlockHeader, Context, Digest};
use vstd::prelude::*;
use vstd::utf8::encode_utf8;

verus! {

/// The message that the genesis block commits to.
pub const GENESIS: &'static str = "commonware is neat";

/// Fixed consensus cutoff for block timestamps: 2200-01-01T00:00:00Z.
///
/// Different platforms have different limits on time, so a fixed timestamp ensures that
/// block validity rules apply everywhere alike.
pub const MAX_BLOCK_TIMESTAMP_MS: u64 = 7_258_118_400_000;

/// The timestamp of a proposal at a time: the time, or one more than the parent's where
/// the clock is not past it.
pub open spec fn proposed_timestamp(parent: u64, now: u64) -> int {
    if now <= parent {
        parent + 1
    } else {
        now as int
    }
}

/// Why no block can be proposed on a parent.
#[derive(Clone, Copy, Debug, PartialEq, Eq)]
pub enum ProposeError {
    /// There is no timestamp after that of the parent.
    ParentTimestampOverflow,
    /// The timestamp would lie behind the cutoff.
    TimestampExceeded,
    /// There is no height above that of the parent.
    HeightOverflow,
}

impl ProposeError {
    /// The reason in words.
    pub open spec fn text(self) -> Seq<char> {
        match self {
            ProposeError::ParentTimestampOverflow => "parent timestamp overflowed"@,
            ProposeError::TimestampExceeded => "proposed timestamp exceeded maximum"@,
            ProposeError::HeightOverflow => "height overflow"@,
        }
    }

    /// The reason in words.
    pub fn message(&self) -> (message: String)
        ensures
            message@ == self.text(),
    {
        match self {
            ProposeError::ParentTimestampOverflow => "parent timestamp overflowed".to_owned(),
            ProposeError::TimestampExceeded => "proposed timestamp exceeded maximum".to_owned(),
            ProposeError::HeightOverflow => "height overflow".to_owned(),
        }
    }
}

/// Why no block can be proposed on a parent at a time, if none can.
pub open spec fn propose_error(parent: Block, now: u64) -> Option<ProposeError> {
    let timestamp = proposed_timestamp(parent.timestamp, now);
    if timestamp > u64::MAX {
        Some(ProposeError::ParentTimestampOverflow)
    } else if timestamp > MAX_BLOCK_TIMESTAMP_MS {
        Some(ProposeError::TimestampExceeded)
    } else if parent.height == u64::MAX {
        Some(ProposeError::HeightOverflow)
    } else {
        None
    }
}

/// The header of the block that is proposed on a parent at a time.
pub open spec fn proposal(context: Context, parent: Block, now: u64) -> BlockHeader {
    BlockHeader {
        context,
        parent: parent.digest,
        height: (parent.height + 1) as u64,
        timestamp: proposed_timestamp(parent.timestamp, now) as u64,
    }
}

/// What to do about a block.
#[derive(Clone, Copy, Debug, PartialEq, Eq)]
pub enum Verdict {
    /// Do not vote for it.
    Reject,
    /// Vote for it once this time has come.
    AcceptAt(u64),
}

/// Whether a block may follow its parent: it is later than the parent and not behind the
/// cutoff. Its height and its parent's digest are checked elsewhere.
pub open spec fn is_valid(block: Block, parent: Block) -> bool {
    parent.timestamp < block.timestamp <= MAX_BLOCK_TIMESTAMP_MS
}

/// What is reported to the application.
#[derive(Clone, Copy, Debug, PartialEq, Eq)]
pub enum Update {
    /// The chain is known to reach this height.
    Tip(u64),
    /// This block is final.
    Block(Block),
}

/// What follows a report.
#[derive(Clone, Copy, Debug, PartialEq, Eq)]
pub struct Reported {
    /// The entry to put into the backfill queue first.
    pub enqueue: Option<Entry>,
    /// Whether to acknowledge the report then.
    pub acknowledge: bool,
}

/// The validator's application.
pub struct Application {
    genesis: Block,
    backfiller: bool,
}

impl Application {
    /// The genesis block.
    pub closed spec fn genesis_block(self) -> Block {
        self.genesis
    }

    /// Whether final blocks are recorded for backfilling.
    pub closed spec fn backfills(self) -> bool {
        self.backfiller
    }

    /// An application without a backfiller; `seal` computes the digest of the genesis
    /// block.
    pub fn new<F: Fn(&BlockHeader) -> Digest>(epoch: u64, seal: F) -> (application: Application)
        requires
            forall|header: &BlockHeader| call_requires(seal, (header,)),
        ensures
            !application.backfills(),
            exists|header: BlockHeader|
                {
                    &&& #[trigger] is_genesis(header, epoch, GENESIS@)
                    &&& call_ensures(seal, (&header,), application.genesis_block().digest)
                    &&& application.genesis_block() == header.sealed(
                        application.genesis_block().digest,
                    )
                },
    {
        let header = genesis_header(epoch, GENESIS);
        let digest = seal(&header);
        Application { genesis: header.seal(digest), backfiller: false }
    }

    /// The application with a backfiller.
    pub fn with_backfiller(self) -> (application: Application)
        ensures
            application.backfills(),
            application.genesis_block() == self.genesis_block(),
    {
        Application { genesis: self.genesis, backfiller: true }
    }

    /// The genesis block.
    pub fn genesis(&self) -> (block: Block)
        ensures
            block == self.genesis_block(),
    {
        self.genesis
    }

    /// The header of the block to propose at a time, given the newest ancestor where there
    /// is one; an error when there can be none.
    pub fn try_propose(&self, context: Context, ancestor: Option<&Block>, now: u64) -> (header: Result<
        Option<BlockHeader>,
        ProposeError,
    >)
        ensures
            header == match ancestor {
                None => Ok(None),
                Some(parent) => match propose_error(*parent, now) {
                    Some(error) => Err(error),
                    None => Ok(Some(proposal(context, *parent, now))),
                },
            },
    {
        let parent = match ancestor {
            Some(parent) => parent,
            None => {
                return Ok(None);
            },
        };
        let mut current: u64 = now;
        if current <= parent.timestamp {
            if parent.timestamp == u64::MAX {
                return Err(ProposeError::ParentTimestampOverflow);
            }
            current = parent.timestamp + 1;
        }
        if current > MAX_BLOCK_TIMESTAMP_MS {
            return Err(ProposeError::TimestampExceeded);
        }
        if parent.height == u64::MAX {
            return Err(ProposeError::HeightOverflow);
        }
        Ok(
            Some(
                BlockHeader {
                    context,
                    parent: parent.digest,
                    height: parent.height + 1,
                    timestamp: current,
                },
            ),
        )
    }

    /// The header of the block to propose at a time, given the newest ancestor where there
    /// is one.
    pub fn propose(&self, context: Context, ancestor: Option<&Block>, now: u64) -> (header: Option<
        BlockHeader,
    >)
        requires
            ancestor matches Some(parent) ==> propose_error(*parent, now) is None,
        ensures
            header == match ancestor {
                None => None,
                Some(parent) => Some(proposal(context, *parent, now)),
            },
    {
        self.try_propose(context, ancestor, now).unwrap()
    }

    /// What to do about a block, given it and its parent where they are known.
    pub fn verify(&self, block: Option<&Block>, parent: Option<&Block>) -> (verdict: Verdict)
        ensures
            verdict == match (block, parent) {
                (Some(block), Some(parent)) => if is_valid(*block, *parent) {
                    Verdict::AcceptAt(block.timestamp)
                } else {
                    Verdict::Reject
                },
                _ => Verdict::Reject,
            },
    {
        let block = match block {
            Some(block) => block,
            None => {
                return Verdict::Reject;
            },
        };
        let parent = match parent {
            Some(parent) => parent,
            None => {
                return Verdict::Reject;
            },
        };
        if block.timestamp <= parent.timestamp || block.timestamp > MAX_BLOCK_TIMESTAMP_MS {
            return Verdict::Reject;
        }
        Verdict::AcceptAt(block.timestamp)
    }

    /// Takes a report. With a backfiller a final block is recorded in the upload state
    /// before it is acknowledged.
    pub fn report(&self, uploads: &mut State, update: &Update) -> (reported: Reported)
        requires
            old(uploads).wf(),
        ensures
            final(uploads).wf(),
            match *update {
                Update::Block(block) if self.backfills() => {
                    &&& final(uploads)@ == old(uploads)@.recorded(block)
                    &&& reported == (Reported {
                        enqueue: if old(uploads)@.finalized(block.height).uploaded.contains_key(
                            block.digest,
                        ) {
                            None
                        } else {
                            Some(Entry { height: block.height, digest: block.digest })
                        },
                        acknowledge: true,
                    })
                },
                _ => {
                    &&& final(uploads)@ == old(uploads)@
                    &&& reported == (Reported { enqueue: None, acknowledge: update is Block })
                },
            },
    {
        match update {
            Update::Tip(_) => Reported { enqueue: None, acknowledge: false },
            Update::Block(block) => {
                let enqueue = if self.backfiller {
                    uploads.record(block)
                } else {
                    None
                };
                Reported { enqueue, acknowledge: true }
            },
        }
    }
}

/// What is proposed on a parent, once sealed, is voted for: it commits to the context that
/// it was asked for, follows the parent by one in height, names it, is later, and does not
/// lie behind the cutoff.
pub proof fn law_proposals_are_valid(context: Context, parent: Block, now: u64, digest: Digest)
    requires
        propose_error(parent, now) is None,
    ensures
        is_valid(proposal(context, parent, now).sealed(digest), parent),
        proposal(context, parent, now).context == context,
        proposal(context, parent, now).height == parent.height + 1,
        proposal(context, parent, now).parent == parent.digest,
        proposal(context, parent, now).timestamp >= now,
        parent.timestamp < proposal(context, parent, now).timestamp <= MAX_BLOCK_TIMESTAMP_MS,
{
}

/// The cutoff is the first moment of the year 2200: 230 years after the epoch, 56 of them
/// leap years.
pub proof fn law_cutoff_is_the_year_2200()
    ensures
        MAX_BLOCK_TIMESTAMP_MS == (230 * 365 + 56) * 24 * 60 * 60 * 1000,
{
}

/// Whatever is voted for is later than its parent, does not lie behind the cutoff and is
/// voted for at its own time; nothing that is both is refused.
pub proof fn law_votes_go_to_later_blocks(
    app: Application,
    block: Option<&Block>,
    parent: Option<&Block>,
    verdict: Verdict,
)
    requires
        call_ensures(Application::verify, (&app, block, parent), verdict),
    ensures
        verdict matches Verdict::AcceptAt(at) ==> {
            &&& block is Some && parent is Some
            &&& parent->0.timestamp < block->0.timestamp
            &&& block->0.timestamp <= MAX_BLOCK_TIMESTAMP_MS
            &&& at == block->0.timestamp
        },
        verdict is Reject ==> {
            ||| block is None
            ||| parent is None
            ||| block->0.timestamp <= parent->0.timestamp
            ||| block->0.timestamp > MAX_BLOCK_TIMESTAMP_MS
        },
{
}

/// Timestamps strictly grow along any chain of blocks that were voted for, each on the one
/// before it.
pub proof fn law_timestamps_grow_along_votes(
    app: Application,
    blocks: Seq<Block>,
    verdicts: Seq<Verdict>,
    i: int,
    j: int,
)
    requires
        0 <= i < j < blocks.len() == verdicts.len(),
        forall|k: int|
            0 < k < blocks.len() ==> call_ensures(
                Application::verify,
                (&app, Some(&blocks[k]), Some(&blocks[k - 1])),
                #[trigger] verdicts[k],
            ) && verdicts[k] is AcceptAt,
    ensures
        blocks[i].timestamp < blocks[j].timestamp,
        blocks[j].timestamp - blocks[i].timestamp >= j - i,
    decreases j,
{
    law_votes_go_to_later_blocks(app, Some(&blocks[j]), Some(&blocks[j - 1]), verdicts[j]);
    if i < j - 1 {
        law_timestamps_grow_along_votes(app, blocks, verdicts, i, j - 1);
    }
}

/// A proposal commits to the consensus context that it was asked for and continues its
/// parent, at the earliest time `t` that is later than the parent and not before the clock;
/// none is made exactly when there is no ancestor, and it fails exactly when no such time
/// lies before the cutoff or no such height exists.
pub proof fn law_proposals_continue_the_parent(
    app: Application,
    context: Context,
    ancestor: Option<&Block>,
    now: u64,
    proposed: Result<Option<BlockHeader>, ProposeError>,
    t: u64,
)
    requires
        call_ensures(Application::try_propose, (&app, context, ancestor, now), proposed),
    ensures
        ancestor is None <==> proposed == Ok::<Option<BlockHeader>, ProposeError>(None),
        proposed matches Ok(Some(header)) ==> {
            let parent = ancestor->0;
            &&& header.context == context
            &&& header.parent == parent.digest
            &&& header.height == parent.height + 1
            &&& parent.timestamp < header.timestamp <= MAX_BLOCK_TIMESTAMP_MS
            &&& now <= header.timestamp
            &&& parent.timestamp < t && now <= t ==> header.timestamp <= t
        },
        proposed matches Err(error) ==> {
            let parent = ancestor->0;
            &&& parent.timestamp < t && now <= t <= MAX_BLOCK_TIMESTAMP_MS ==> parent.height
                == u64::MAX
            &&& error is ParentTimestampOverflow <==> parent.timestamp == u64::MAX
            &&& error is TimestampExceeded ==> parent.timestamp < u64::MAX && (now
                > MAX_BLOCK_TIMESTAMP_MS || parent.timestamp >= MAX_BLOCK_TIMESTAMP_MS)
            &&& error is HeightOverflow ==> parent.height == u64::MAX && now
                <= MAX_BLOCK_TIMESTAMP_MS && parent.timestamp < MAX_BLOCK_TIMESTAMP_MS
        },
{
}

/// Proposing and trying to propose give the same, where the latter gives anything.
pub proof fn law_propose_is_try_propose(
    app: Application,
    context: Context,
    ancestor: Option<&Block>,
    now: u64,
    proposed: Option<BlockHeader>,
    tried: Option<BlockHeader>,
)
    requires
        call_ensures(Application::propose, (&app, context, ancestor, now), proposed),
        call_ensures(Application::try_propose, (&app, context, ancestor, now), Ok(tried)),
    ensures
        proposed == tried,
{
}

/// What one validator proposes another votes for, once its time has come, whatever digest
/// it is sealed with.
pub proof fn law_proposals_are_voted_for(
    proposer: Application,
    voter: Application,
    context: Context,
    parent: Block,
    now: u64,
    header: BlockHeader,
    digest: Digest,
    block: Block,
    verdict: Verdict,
)
    requires
        call_ensures(
            Application::try_propose,
            (&proposer, context, Some(&parent), now),
            Ok(Some(header)),
        ),
        call_ensures(BlockHeader::seal, (header, digest), block),
        call_ensures(Application::verify, (&voter, Some(&block), Some(&parent)), verdict),
    ensures
        verdict == Verdict::AcceptAt(header.timestamp),
        block.digest == digest,
        block.context == context,
        block.parent == parent.digest,
        block.height == parent.height + 1,
{
}

/// The genesis block is the first of its epoch and commits to the message: it has nothing
/// before it, and its digest is what `seal` gives for its own fields.
pub proof fn law_genesis_block_is_the_first<F: Fn(&BlockHeader) -> Digest>(
    epoch: u64,
    seal: F,
    app: Application,
    block: Block,
)
    requires
        call_ensures(Application::new::<F>, (epoch, seal), app),
        call_ensures(Application::genesis, (&app,), block),
    ensures
        block.height == 0,
        block.timestamp == 0,
        block.context.round.epoch == epoch,
        block.context.round.view == 0,
        block.parent@ == sha256_digest(encode_utf8("commonware is neat"@)),
        exists|header: BlockHeader|
            {
                &&& header.context == block.context
                &&& header.parent == block.parent
                &&& header.height == block.height
                &&& header.timestamp == block.timestamp
                &&& #[trigger] call_ensures(seal, (&header,), block.digest)
            },
{
    let header = choose|header: BlockHeader|
        {
            &&& #[trigger] is_genesis(header, epoch, GENESIS@)
            &&& call_ensures(seal, (&header,), app.genesis_block().digest)
            &&& app.genesis_block() == header.sealed(app.genesis_block().digest)
        };
    assert(call_ensures(seal, (&header,), block.digest));
}

/// A tip changes nothing and is not acknowledged; a final block always is. Without a
/// backfiller nothing is recorded for it; with one the block is, and it either is known to
/// be uploaded or is cached and gets an entry of its own in the queue.
pub proof fn law_reported_blocks_are_queued_or_uploaded(
    app: Application,
    uploads: &mut State,
    update: Update,
    reported: Reported,
)
    requires
        call_ensures(Application::report, (&app, uploads, &update), reported),
    ensures
        reported.acknowledge <==> update is Block,
        update is Tip || !app.backfills() ==> final(uploads)@ == old(uploads)@
            && reported.enqueue is None,
        app.backfills() ==> (update matches Update::Block(block) ==> {
            &&& final(uploads)@.latest_finalized >= block.height
            &&& reported.enqueue is None <==> final(uploads)@.uploaded.contains_key(block.digest)
            &&& reported.enqueue matches Some(entry) ==> {
                &&& entry.height == block.height
                &&& entry.digest == block.digest
                &&& final(uploads)@.cached.contains_key(block.digest)
            }
        }),
{
}

/// Only an application that was given a backfiller records final blocks, and it keeps its
/// genesis block.
pub proof fn law_backfilling_is_opt_in<F: Fn(&BlockHeader) -> Digest>(
    epoch: u64,
    seal: F,
    app: Application,
    with: Application,
)
    requires
        call_ensures(Application::new::<F>, (epoch, seal), app),
        call_ensures(Application::with_backfiller, (app,), with),
    ensures
        !app.backfills(),
        with.backfills(),
        with.genesis_block() == app.genesis_block(),
{
}

/// Reporting a final block to an application with a backfiller is recording it.
pub proof fn law_reporting_is_recording(
    app: Application,
    uploads: &mut State,
    other: &mut State,
    block: Block,
    reported: Reported,
    entry: Option<Entry>,
)
    requires
        app.backfills(),
        old(uploads)@ == old(other)@,
        call_ensures(Application::report, (&app, uploads, &Update::Block(block)), reported),
        call_ensures(State::record, (other, &block), entry),
    ensures
        final(uploads)@ == final(other)@,
        reported.enqueue == entry,
        reported.acknowledge,
{
}

/// What may follow its parent is later than it and not behind the cutoff, nothing may follow
/// itself, and of two blocks at most one may follow the other.
pub proof fn law_valid_blocks_are_later(block: Block, parent: Block)
    ensures
        is_valid(block, parent) ==> parent.timestamp < block.timestamp <= MAX_BLOCK_TIMESTAMP_MS,
        parent.timestamp < block.timestamp <= MAX_BLOCK_TIMESTAMP_MS ==> is_valid(block, parent),
        !is_valid(block, block),
        is_valid(block, parent) ==> !is_valid(parent, block),
{
}

} // verus!

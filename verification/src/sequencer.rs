//! The decisions of the sequencer's loops: what follows each answer from outside.

use crate::batch::{decode_block_payloads, decodes_to, lemma_refused_part, views, DecodeError};
use crate::chain::{advance_submitted_block, ChainState};
use crate::config::{ConfirmationMode, SequencerFile};
use crate::soft::{soft_outcome, with_archived, ArchivedBatch, SoftBatch, SoftStatusIndex};
use crate::types::{BatchCursor, Block, Fetched};
use vstd::prelude::*;

verus! {

/// How long to wait before something that failed is tried again.
pub const RETRY_MS: u64 = 1_000;

/// What a sequencer runs with, by its settings.
#[derive(Clone, Copy, Debug, PartialEq, Eq)]
pub struct Plan {
    pub mode: ConfirmationMode,
    /// The length of the publication queue; nothing is queued in canonical mode.
    pub publish_queue: Option<usize>,
    /// How many publications may be in flight; none are in canonical mode.
    pub publish_concurrency: Option<usize>,
    pub block_time_ms: u64,
    pub serve_payloads: bool,
    /// Whether blocks are served by height from memory.
    pub soft_status: bool,
}

pub open spec fn at_least_one(n: usize) -> usize {
    if n == 0 {
        1
    } else {
        n
    }
}

/// What a sequencer runs with: in soft mode there is a publication pipeline, each of its
/// limits at least one.
pub fn plan(config: &SequencerFile) -> (plan: Plan)
    ensures
        plan.mode == config.confirmation_mode,
        plan.publish_queue == match config.confirmation_mode {
            ConfirmationMode::Soft => Some(at_least_one(config.publish_queue)),
            ConfirmationMode::Canonical => None,
        },
        plan.publish_concurrency == match config.confirmation_mode {
            ConfirmationMode::Soft => Some(at_least_one(config.publish_concurrency)),
            ConfirmationMode::Canonical => None,
        },
        plan.block_time_ms == config.block_time_ms,
        plan.serve_payloads == config.serve_payloads,
        plan.soft_status == (config.confirmation_mode == ConfirmationMode::Soft),
{
    let (publish_queue, publish_concurrency, soft_status) = match config.confirmation_mode {
        ConfirmationMode::Soft => (
            Some(
                if config.publish_queue == 0 {
                    1
                } else {
                    config.publish_queue
                },
            ),
            Some(
                if config.publish_concurrency == 0 {
                    1
                } else {
                    config.publish_concurrency
                },
            ),
            true,
        ),
        ConfirmationMode::Canonical => (None, None, false),
    };
    Plan {
        mode: config.confirmation_mode,
        publish_queue,
        publish_concurrency,
        block_time_ms: config.block_time_ms,
        serve_payloads: config.serve_payloads,
        soft_status,
    }
}

/// A step of starting a sequencer.
#[derive(Clone, Copy, Debug, PartialEq, Eq)]
pub enum StartupStep {
    /// Finish what was being published before.
    Recover,
    /// Restore the chain that batches are built on.
    RestoreBuilder,
    /// Restore the chain that new blocks are produced on.
    RestoreProducer,
    /// Serve the history.
    ServeHistory,
    /// Run the publication pipeline.
    RunPublisher,
    /// Confirm and publish the batches that were archived before and are not published yet.
    ReplayUnpublished,
    /// Archive, confirm and publish what was submitted before and is not archived yet.
    ArchivePending,
    /// Produce blocks.
    Produce,
}

/// The steps of starting a sequencer in a mode, in their order.
pub open spec fn startup_steps(mode: ConfirmationMode) -> Seq<StartupStep> {
    match mode {
        ConfirmationMode::Soft => seq![
            StartupStep::RestoreBuilder,
            StartupStep::RestoreProducer,
            StartupStep::ServeHistory,
            StartupStep::RunPublisher,
            StartupStep::ArchivePending,
            StartupStep::RestoreProducer,
            StartupStep::Produce,
        ],
        ConfirmationMode::Canonical => seq![
            StartupStep::Recover,
            StartupStep::RestoreBuilder,
            StartupStep::RestoreProducer,
            StartupStep::ServeHistory,
            StartupStep::Produce,
        ],
    }
}

/// The steps of starting a sequencer in a mode, in their order. Blocks that were soft-confirmed
/// but not published before a restart are not recovered.
pub fn startup(mode: ConfirmationMode) -> (steps: Vec<StartupStep>)
    ensures
        steps@ == startup_steps(mode),
        !steps@.contains(StartupStep::ReplayUnpublished),
{
    match mode {
        ConfirmationMode::Soft => vec![
            StartupStep::RestoreBuilder,
            StartupStep::RestoreProducer,
            StartupStep::ServeHistory,
            StartupStep::RunPublisher,
            StartupStep::ArchivePending,
            StartupStep::RestoreProducer,
            StartupStep::Produce,
        ],
        ConfirmationMode::Canonical => vec![
            StartupStep::Recover,
            StartupStep::RestoreBuilder,
            StartupStep::RestoreProducer,
            StartupStep::ServeHistory,
            StartupStep::Produce,
        ],
    }
}

/// A sequencer that starts does not replay what was left unpublished; its history is served
/// and its chains are restored before it produces blocks, which is the last step.
pub proof fn law_startup_does_not_replay(mode: ConfirmationMode)
    ensures
        !startup_steps(mode).contains(StartupStep::ReplayUnpublished),
        startup_steps(mode).last() == StartupStep::Produce,
        startup_steps(mode).drop_last().contains(StartupStep::ServeHistory),
        startup_steps(mode).drop_last().contains(StartupStep::RestoreBuilder),
        startup_steps(mode).drop_last().contains(StartupStep::RestoreProducer),
        startup_steps(mode).contains(StartupStep::RunPublisher) <==> mode == ConfirmationMode::Soft,
        startup_steps(mode).contains(StartupStep::Recover) <==> mode == ConfirmationMode::Canonical,
{
    let steps = startup_steps(mode);
    let sooner = steps.drop_last();
    match mode {
        ConfirmationMode::Soft => {
            assert(sooner[0] == StartupStep::RestoreBuilder);
            assert(sooner[1] == StartupStep::RestoreProducer);
            assert(sooner[2] == StartupStep::ServeHistory);
            assert(steps[3] == StartupStep::RunPublisher);
        },
        ConfirmationMode::Canonical => {
            assert(steps[0] == StartupStep::Recover);
            assert(sooner[1] == StartupStep::RestoreBuilder);
            assert(sooner[2] == StartupStep::RestoreProducer);
            assert(sooner[3] == StartupStep::ServeHistory);
        },
    }
}

/// Why a batch is taken from the archive.
#[derive(Clone, Copy, Debug, PartialEq, Eq)]
pub enum Occasion {
    /// It was archived before and is not published yet.
    Unpublished,
    /// It was left unarchived before a restart.
    Pending,
    /// It was just produced.
    Produced,
}

/// What a loop over archived batches does next.
pub enum Next {
    /// Send the batch to be published.
    Publish(SoftBatch),
    /// Go on to the next batch.
    Continue,
    /// End the loop.
    Stop,
}

/// What follows where there is no batch to publish: archiving what is pending ends with
/// the first time that there is none, the other loops go on.
pub open spec fn without_batch(occasion: Occasion) -> Next {
    match occasion {
        Occasion::Pending => Next::Stop,
        Occasion::Unpublished => Next::Continue,
        Occasion::Produced => Next::Continue,
    }
}

/// Soft-confirms an archived batch at a given time and files its blocks.
pub fn confirm<D: Fn(&Vec<u8>) -> Result<Block, String>>(
    index: &mut SoftStatusIndex,
    archived: ArchivedBatch,
    decode: &D,
    now: u64,
) -> (batch: Result<SoftBatch, DecodeError>)
    requires
        forall|encoded: &Vec<u8>| call_requires(*decode, (encoded,)),
    ensures
        soft_outcome(*decode, archived, now, batch),
        final(index)@ == match batch {
            Ok(soft) => with_archived(old(index)@, soft@, soft@.blocks.len() as int),
            Err(_) => old(index)@,
        },
{
    match SoftBatch::from_archived(archived, decode, now) {
        Ok(batch) => {
            index.archive(&batch);
            Ok(batch)
        },
        Err(error) => Err(error),
    }
}

/// Takes what the archive gave at a given time: a batch that can be decoded is filed and
/// goes on to be published.
pub fn ingest<D: Fn(&Vec<u8>) -> Result<Block, String>>(
    occasion: Occasion,
    index: &mut SoftStatusIndex,
    archived: Fetched<ArchivedBatch>,
    decode: &D,
    now: u64,
) -> (next: Next)
    requires
        forall|encoded: &Vec<u8>| call_requires(*decode, (encoded,)),
    ensures
        match archived {
            Fetched::Found(batch) => exists|outcome: Result<SoftBatch, DecodeError>|
                {
                    &&& #[trigger] soft_outcome(*decode, batch, now, outcome)
                    &&& match outcome {
                        Ok(soft) => {
                            &&& next == Next::Publish(soft)
                            &&& final(index)@ == with_archived(
                                old(index)@,
                                soft@,
                                soft@.blocks.len() as int,
                            )
                        },
                        Err(_) => {
                            &&& next == without_batch(occasion)
                            &&& final(index)@ == old(index)@
                        },
                    }
                },
            Fetched::Nothing => {
                &&& next == without_batch(occasion)
                &&& final(index)@ == old(index)@
            },
            Fetched::Failed => {
                &&& next == without_batch(occasion)
                &&& final(index)@ == old(index)@
            },
        },
{
    if let Fetched::Found(batch) = archived {
        let outcome = confirm(index, batch, decode, now);
        assert(soft_outcome(*decode, batch, now, outcome));
        if let Ok(soft) = outcome {
            return Next::Publish(soft);
        }
    }
    match occasion {
        Occasion::Pending => Next::Stop,
        Occasion::Unpublished => Next::Continue,
        Occasion::Produced => Next::Continue,
    }
}

/// What follows once a batch was sent to be published, or could not be because the
/// queue is closed.
pub fn after_send(sent: bool) -> (next: Next)
    ensures
        next == if sent {
            Next::Continue
        } else {
            Next::Stop
        },
{
    if sent {
        Next::Continue
    } else {
        Next::Stop
    }
}

/// What follows the submission of a block.
#[derive(Clone, Copy, Debug, PartialEq, Eq)]
pub enum AfterSubmit {
    /// Ask whether a batch is ready to be archived.
    Archive,
    /// Publish what was submitted and wait for it.
    Flush,
    /// Wait for the next tick.
    AwaitTick,
    /// Wait so many milliseconds, then for the next tick.
    PauseThenTick(u64),
}

/// What follows the submission of a block. The chain advances over a block that was
/// taken, where it extends it.
pub fn after_submit(mode: ConfirmationMode, chain: &mut ChainState, block: &Block, taken: bool) -> (next:
    AfterSubmit)
    ensures
        *final(chain) == if taken && old(chain).links(*block) {
            ChainState::at(*block)
        } else {
            *old(chain)
        },
        next == match (mode, taken) {
            (ConfirmationMode::Soft, true) => AfterSubmit::Archive,
            (ConfirmationMode::Soft, false) => AfterSubmit::AwaitTick,
            (ConfirmationMode::Canonical, true) => AfterSubmit::Flush,
            (ConfirmationMode::Canonical, false) => AfterSubmit::PauseThenTick(RETRY_MS),
        },
{
    if taken {
        advance_submitted_block(chain, block);
    }
    match (mode, taken) {
        (ConfirmationMode::Soft, true) => AfterSubmit::Archive,
        (ConfirmationMode::Soft, false) => AfterSubmit::AwaitTick,
        (ConfirmationMode::Canonical, true) => AfterSubmit::Flush,
        (ConfirmationMode::Canonical, false) => AfterSubmit::PauseThenTick(RETRY_MS),
    }
}

/// What follows publishing and waiting.
#[derive(Clone, Copy, Debug, PartialEq, Eq)]
pub enum AfterFlush {
    /// Report where the batch was published.
    Report(BatchCursor),
    /// Wait for the next tick.
    AwaitTick,
    /// Wait so many milliseconds, then recover.
    PauseThenRecover(u64),
}

/// What follows publishing and waiting.
pub fn after_flush(flushed: Fetched<BatchCursor>) -> (next: AfterFlush)
    ensures
        next == match flushed {
            Fetched::Found(cursor) => AfterFlush::Report(cursor),
            Fetched::Nothing => AfterFlush::AwaitTick,
            Fetched::Failed => AfterFlush::PauseThenRecover(RETRY_MS),
        },
{
    match flushed {
        Fetched::Found(cursor) => AfterFlush::Report(cursor),
        Fetched::Nothing => AfterFlush::AwaitTick,
        Fetched::Failed => AfterFlush::PauseThenRecover(RETRY_MS),
    }
}

/// What follows an attempt to recover.
#[derive(Clone, Copy, Debug, PartialEq, Eq)]
pub enum AfterRecovery {
    /// Report the batches that were published by it, then wait for the next tick.
    Report,
    /// Wait so many milliseconds, then recover again.
    PauseThenRecover(u64),
}

/// What follows an attempt to recover, which is repeated until it succeeds.
pub fn after_recovery(recovered: bool) -> (next: AfterRecovery)
    ensures
        next == if recovered {
            AfterRecovery::Report
        } else {
            AfterRecovery::PauseThenRecover(RETRY_MS)
        },
{
    if recovered {
        AfterRecovery::Report
    } else {
        AfterRecovery::PauseThenRecover(RETRY_MS)
    }
}

/// A plan follows its settings: payloads, times and the mode as configured, and a pipeline
/// with room for at least one batch exactly in soft mode.
pub proof fn law_plan_follows_the_settings(config: SequencerFile, plan: Plan)
    requires
        call_ensures(self::plan, (&config,), plan),
    ensures
        plan.mode == config.confirmation_mode,
        plan.block_time_ms == config.block_time_ms,
        plan.serve_payloads == config.serve_payloads,
        plan.soft_status <==> config.confirmation_mode is Soft,
        plan.publish_queue is Some <==> config.confirmation_mode is Soft,
        plan.publish_concurrency is Some <==> config.confirmation_mode is Soft,
        plan.publish_queue matches Some(queue) ==> queue >= 1 && (config.publish_queue >= 1 ==> queue
            == config.publish_queue) && (config.publish_queue == 0 ==> queue == 1),
        plan.publish_concurrency matches Some(many) ==> many >= 1 && (config.publish_concurrency
            >= 1 ==> many == config.publish_concurrency) && (config.publish_concurrency == 0
            ==> many == 1),
{
}

/// What follows a submission: the chain moves exactly over a block that was taken and is the
/// next one on it; a batch is asked for only where the block was taken, and a refused block
/// is waited over, in canonical mode for a second more.
pub proof fn law_taken_blocks_move_the_chain(
    mode: ConfirmationMode,
    chain: &mut ChainState,
    block: Block,
    taken: bool,
    next: AfterSubmit,
)
    requires
        call_ensures(after_submit, (mode, chain, &block, taken), next),
    ensures
        taken && block.height == old(chain).height + 1 && block.parent == old(chain).parent ==> {
            &&& final(chain).height == block.height
            &&& final(chain).parent == block.digest
            &&& final(chain).timestamp == block.timestamp
        },
        !taken || block.height != old(chain).height + 1 || block.parent != old(chain).parent
            ==> *final(chain) == *old(chain),
        next is Archive <==> taken && mode is Soft,
        next is Flush <==> taken && mode is Canonical,
        next is AwaitTick <==> !taken && mode is Soft,
        next matches AfterSubmit::PauseThenTick(pause) ==> !taken && mode is Canonical && pause
            == 1_000,
{
}

/// What follows a flush and a recovery: what was published is reported, and a failure is
/// recovered from after a second, as often as recovering fails.
pub proof fn law_failures_are_recovered_from(
    flushed: Fetched<BatchCursor>,
    next: AfterFlush,
    recovered: bool,
    after: AfterRecovery,
)
    requires
        call_ensures(after_flush, (flushed,), next),
        call_ensures(after_recovery, (recovered,), after),
    ensures
        next matches AfterFlush::Report(cursor) ==> flushed == Fetched::Found(cursor),
        next is AwaitTick <==> flushed is Nothing,
        next is PauseThenRecover <==> flushed is Failed,
        next matches AfterFlush::PauseThenRecover(pause) ==> pause == 1_000,
        after is Report <==> recovered,
        after matches AfterRecovery::PauseThenRecover(pause) ==> pause == 1_000,
{
}

/// Soft-confirming files a batch as it was confirmed: a batch goes on to be published
/// exactly where it was found and could be decoded, with the number, payload, payload hash
/// and metadata of the archived one and the given time, and is filed; otherwise nothing
/// changes, and only archiving what is pending stops.
pub proof fn law_confirmed_batches_are_filed_and_published<
    D: Fn(&Vec<u8>) -> Result<Block, String>,
>(
    occasion: Occasion,
    index: &mut SoftStatusIndex,
    other: &mut SoftStatusIndex,
    archived: Fetched<ArchivedBatch>,
    decode: D,
    now: u64,
    next: Next,
)
    requires
        call_ensures(ingest::<D>, (occasion, index, archived, &decode, now), next),
    ensures
        next matches Next::Publish(batch) ==> {
            &&& archived matches Fetched::Found(found)
            &&& batch.sequence == found.sequence
            &&& batch.payload@ == found.payload@
            &&& batch.payload_hash == found.payload_hash
            &&& batch.metadata == found.metadata
            &&& batch.soft_confirmed_at == now
            &&& *old(other) == *old(index) && call_ensures(
                SoftStatusIndex::archive,
                (other, &batch),
                (),
            ) ==> final(index)@ == final(other)@
        },
        !(next is Publish) ==> final(index)@ == old(index)@ && (next is Stop <==> occasion
            is Pending),
        !(archived is Found) ==> !(next is Publish),
{
}

/// The same of confirming a batch that is there.
pub proof fn law_confirmed_batches_are_filed<D: Fn(&Vec<u8>) -> Result<Block, String>>(
    index: &mut SoftStatusIndex,
    other: &mut SoftStatusIndex,
    archived: ArchivedBatch,
    decode: D,
    now: u64,
    outcome: Result<SoftBatch, DecodeError>,
)
    requires
        call_ensures(confirm::<D>, (index, archived, &decode, now), outcome),
    ensures
        outcome is Err ==> final(index)@ == old(index)@,
        outcome matches Ok(batch) ==> {
            &&& batch.sequence == archived.sequence
            &&& batch.payload@ == archived.payload@
            &&& batch.payload_hash == archived.payload_hash
            &&& batch.metadata == archived.metadata
            &&& batch.soft_confirmed_at == now
            &&& *old(other) == *old(index) && call_ensures(
                SoftStatusIndex::archive,
                (other, &batch),
                (),
            ) ==> final(index)@ == final(other)@
        },
{
}

/// A queue that is closed ends the loop that sends to it, and nothing else does.
pub proof fn law_closed_queues_end_the_loop(sent: bool, next: Next)
    requires
        call_ensures(after_send, (sent,), next),
    ensures
        next is Stop <==> !sent,
        next is Continue <==> sent,
{
}

/// The steps that a starting sequencer is given: its chains are restored and its history is
/// served before it produces, in that order; nothing that was left unpublished is replayed;
/// what is pending is archived only once the publisher runs, and the chain of the producer
/// is restored again after it.
pub proof fn law_startup_is_in_order(mode: ConfirmationMode, steps: Vec<StartupStep>, i: int)
    requires
        call_ensures(startup, (mode,), steps),
    ensures
        steps@.len() > 0,
        steps@.last() == StartupStep::Produce,
        0 <= i < steps@.len() - 1 ==> steps@[i] != StartupStep::Produce && steps@[i]
            != StartupStep::ReplayUnpublished,
        mode is Canonical ==> steps@[0] == StartupStep::Recover,
        mode is Soft ==> {
            &&& exists|a: int, b: int, c: int|
                0 <= a < b < c < steps@.len() && #[trigger] steps@[a] == StartupStep::RunPublisher
                    && #[trigger] steps@[b] == StartupStep::ArchivePending && #[trigger] steps@[c]
                    == StartupStep::RestoreProducer
            &&& 0 <= i < steps@.len() ==> steps@[i] != StartupStep::Recover
        },
        mode is Canonical && 0 <= i < steps@.len() ==> steps@[i] != StartupStep::RunPublisher
            && steps@[i] != StartupStep::ArchivePending,
        exists|a: int, b: int, c: int|
            0 <= a < b < c < steps@.len() && #[trigger] steps@[a] == StartupStep::RestoreBuilder
                && #[trigger] steps@[b] == StartupStep::RestoreProducer && #[trigger] steps@[c]
                == StartupStep::ServeHistory,
{
    match mode {
        ConfirmationMode::Soft => {
            assert(steps@[0] == StartupStep::RestoreBuilder);
            assert(steps@[1] == StartupStep::RestoreProducer);
            assert(steps@[2] == StartupStep::ServeHistory);
            assert(steps@[3] == StartupStep::RunPublisher);
            assert(steps@[4] == StartupStep::ArchivePending);
            assert(steps@[5] == StartupStep::RestoreProducer);
        },
        ConfirmationMode::Canonical => {
            assert(steps@[1] == StartupStep::RestoreBuilder);
            assert(steps@[2] == StartupStep::RestoreProducer);
            assert(steps@[3] == StartupStep::ServeHistory);
        },
    }
}

/// A batch that is there and whose payload can be cut goes on to be published unless the
/// decoder refuses one of its parts; one whose payload cannot be cut never does.
pub proof fn law_decodable_batches_are_published<D: Fn(&Vec<u8>) -> Result<Block, String>>(
    occasion: Occasion,
    index: &mut SoftStatusIndex,
    archived: ArchivedBatch,
    decode: D,
    now: u64,
    next: Next,
    cut: Result<Vec<Vec<u8>>, DecodeError>,
)
    requires
        call_ensures(
            ingest::<D>,
            (occasion, index, Fetched::Found(archived), &decode, now),
            next,
        ),
        call_ensures(decode_block_payloads, (&archived.payload,), cut),
    ensures
        cut is Err ==> !(next is Publish),
        cut matches Ok(parts) ==> next is Publish || exists|k: int|
            0 <= k < parts@.len() && may_refuse(decode, (#[trigger] parts@[k])@),
{
    if let Ok(parts) = cut {
        if !(next is Publish) {
            let outcome = choose|outcome: Result<SoftBatch, DecodeError>|
                {
                    &&& #[trigger] soft_outcome(decode, archived, now, outcome)
                    &&& match outcome {
                        Ok(soft) => {
                            &&& next == Next::Publish(soft)
                            &&& final(index)@ == with_archived(
                                old(index)@,
                                soft@,
                                soft@.blocks.len() as int,
                            )
                        },
                        Err(_) => {
                            &&& next == without_batch(occasion)
                            &&& final(index)@ == old(index)@
                        },
                    }
                };
            if let Err(DecodeError::Block(reason)) = outcome {
                let k = lemma_refused_part(decode, views(parts@), reason);
                assert(views(parts@)[k] == parts@[k]@);
                assert(may_refuse(decode, parts@[k]@));
            }
        }
    }
}

/// Whether a decoder may refuse some bytes.
pub open spec fn may_refuse<D: Fn(&Vec<u8>) -> Result<Block, String>>(
    decode: D,
    bytes: Seq<u8>,
) -> bool {
    exists|reason: String| #[trigger] decodes_to(decode, bytes, Err::<Block, String>(reason))
}

} // verus!

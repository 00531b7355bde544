//! Publishing soft-confirmed batches: broadcasting, confirming and recording.

use crate::hex::{hex, hex_text};
use crate::sequencer::RETRY_MS;
use crate::soft::{
    law_publish_keeps_the_blocks, published_heights, with_commit, SoftBatch, SoftBatchView,
    SoftBlockView, SoftCommit, SoftCommitView, SoftStatusIndex,
};
use crate::types::{BatchCursor, BlobRef, NamespaceId};
use std::collections::HashMap;
use vstd::prelude::*;

verus! {

/// How long to wait for the time of a block of the data availability layer.
pub const BLOCK_TIME_TIMEOUT_MS: u64 = 2_000;

/// The limits of the publication pipeline.
#[derive(Clone, Copy, Debug, PartialEq, Eq)]
pub struct PublishLimits {
    /// How many broadcasts may be in flight.
    pub broadcasts: usize,
    /// How many confirmations may be in flight.
    pub confirmations: usize,
    /// How many broadcast batches may wait for their confirmation to begin.
    pub confirm_queue: usize,
}

pub open spec fn at_most_max(n: int) -> usize {
    if n <= usize::MAX {
        n as usize
    } else {
        usize::MAX
    }
}

fn times(n: usize, factor: usize) -> (product: usize)
    ensures
        product == at_most_max(n * factor),
{
    match n.checked_mul(factor) {
        Some(product) => product,
        None => usize::MAX,
    }
}

impl PublishLimits {
    /// The limits for a number of publications in flight, which counts as one when it is
    /// zero: four times as many confirmations, and a queue of 64 times as many.
    pub open spec fn of(concurrency: usize) -> PublishLimits {
        let broadcasts = if concurrency == 0 {
            1
        } else {
            concurrency
        };
        PublishLimits {
            broadcasts,
            confirmations: at_most_max(broadcasts * 4),
            confirm_queue: at_most_max(broadcasts * 64),
        }
    }

    /// The limits for a number of publications in flight.
    pub fn new(publish_concurrency: usize) -> (limits: PublishLimits)
        ensures
            limits == PublishLimits::of(publish_concurrency),
            limits.broadcasts >= 1,
            limits.confirmations >= 1,
            limits.confirm_queue >= 1,
    {
        let broadcasts: usize = if publish_concurrency == 0 {
            1
        } else {
            publish_concurrency
        };
        PublishLimits {
            broadcasts,
            confirmations: times(broadcasts, 4),
            confirm_queue: times(broadcasts, 64),
        }
    }
}

/// Whether another task may start, given how many are in flight and how many may be.
pub fn may_start(in_flight: usize, limit: usize) -> (may: bool)
    ensures
        may == (in_flight < limit),
{
    in_flight < limit
}

/// A batch that was broadcast.
#[derive(Debug)]
pub struct Broadcast {
    /// When the broadcast began.
    pub started_at: u64,
    /// When the broadcast was accepted.
    pub accepted_at: u64,
    /// The hash of its transaction, in hexadecimal.
    pub tx_hash: String,
}

/// A batch whose transaction was confirmed.
#[derive(Debug)]
pub struct Confirmation {
    pub broadcast: Broadcast,
    /// The height of the block with the transaction.
    pub height: u64,
    /// When the confirmation came.
    pub committed_at: u64,
    /// When the block with the transaction was read back, or the confirmation came as long
    /// as it was not.
    pub ended_at: u64,
    /// The time of the block with the transaction, where it is known.
    pub block_time_ms: Option<u64>,
}

/// Where the publication of a batch stands.
#[derive(Debug)]
pub enum Phase {
    /// Its blob is being broadcast.
    Broadcasting,
    /// Its transaction waits to be confirmed.
    Confirming(Broadcast),
    /// It is confirmed; the block is being read back for its time.
    Timing(Confirmation),
    /// Its cursor is being recorded.
    Recording(Confirmation),
    /// It is over.
    Finished,
}

/// What comes back from outside.
#[derive(Debug)]
pub enum Event {
    /// The broadcast that began at one time was accepted at another, with this
    /// transaction hash.
    BroadcastAccepted { started_at: u64, at: u64, hash: Vec<u8> },
    /// The broadcast failed.
    BroadcastFailed,
    /// The transaction was confirmed at a time, in the block of this height.
    Confirmed { at: u64, height: u64 },
    /// The confirmation failed.
    ConfirmationFailed,
    /// The block was read back at a time, with its own time where it could be had.
    BlockTime { at: u64, time: Option<u64> },
    /// The cursor was recorded, or not.
    Recorded(bool),
}

/// What to do outside.
#[derive(Clone, Copy, Debug, PartialEq, Eq)]
pub enum Action {
    /// Broadcast the blob after so many milliseconds.
    Broadcast { after_ms: u64 },
    /// Wait for the confirmation of the transaction.
    Confirm,
    /// Look up the time of a block, for so many milliseconds at most.
    LookUpTime { height: u64, timeout_ms: u64 },
    /// Record the cursor.
    Record(BatchCursor),
    /// Nothing more.
    Finish,
}

/// What identifies the blob of a batch.
#[derive(Clone, Copy, Debug, PartialEq, Eq)]
pub struct BlobId {
    pub namespace: NamespaceId,
    pub commitment: [u8; 32],
}

/// The cursor of a batch whose blob lies at a height.
pub open spec fn cursor_at(batch: SoftBatchView, blob: BlobId, height: u64) -> BatchCursor {
    BatchCursor {
        sequence: batch.sequence,
        blob_ref: BlobRef { height, namespace: blob.namespace, commitment: blob.commitment },
        payload_hash: batch.payload_hash,
    }
}

/// The action that an event leads to. An event that does not fit the phase ends the
/// publication.
pub open spec fn action_after(
    batch: SoftBatchView,
    blob: BlobId,
    phase: Phase,
    event: Event,
) -> Action {
    match (phase, event) {
        (Phase::Broadcasting, Event::BroadcastAccepted { .. }) => Action::Confirm,
        (Phase::Broadcasting, Event::BroadcastFailed) => Action::Broadcast {
            after_ms: RETRY_MS,
        },
        (Phase::Confirming(_), Event::Confirmed { height, .. }) => Action::LookUpTime {
            height,
            timeout_ms: BLOCK_TIME_TIMEOUT_MS,
        },
        (Phase::Confirming(_), Event::ConfirmationFailed) => Action::Broadcast {
            after_ms: RETRY_MS,
        },
        (Phase::Timing(confirmed), Event::BlockTime { .. }) => Action::Record(
            cursor_at(batch, blob, confirmed.height),
        ),
        _ => Action::Finish,
    }
}

/// Whether a phase is the one that an event leads to.
pub open spec fn phase_follows(before: Phase, event: Event, after: Phase) -> bool {
    match (before, event) {
        (Phase::Broadcasting, Event::BroadcastAccepted { started_at, at, hash }) => {
            &&& after matches Phase::Confirming(broadcast)
            &&& broadcast.started_at == started_at
            &&& broadcast.accepted_at == at
            &&& broadcast.tx_hash@ == hex_text(hash@)
        },
        (Phase::Broadcasting, Event::BroadcastFailed) => after == Phase::Broadcasting,
        (Phase::Confirming(broadcast), Event::Confirmed { at, height }) => after == Phase::Timing(
            Confirmation { broadcast, height, committed_at: at, ended_at: at, block_time_ms: None },
        ),
        (Phase::Confirming(_), Event::ConfirmationFailed) => after == Phase::Broadcasting,
        (Phase::Timing(confirmed), Event::BlockTime { at, time }) => after == Phase::Recording(
            Confirmation { ended_at: at, block_time_ms: time, ..confirmed },
        ),
        _ => after == Phase::Finished,
    }
}

pub open spec fn less(a: u64, b: u64) -> u64 {
    if a >= b {
        (a - b) as u64
    } else {
        0
    }
}

/// How long after a block's own timestamp the block that published it came.
pub open spec fn publish_latency(block_time: Option<u64>, timestamp: u64) -> Option<u64> {
    match block_time {
        Some(time) => Some(less(time, timestamp)),
        None => None,
    }
}

/// What is kept of the publication of a block with a timestamp, in a batch that was
/// soft-confirmed at a time.
pub open spec fn commit_of(confirmed: Confirmation, soft_confirmed_at: u64, timestamp: u64) -> SoftCommitView {
    let broadcast = confirmed.broadcast;
    SoftCommitView {
        tx_hash: broadcast.tx_hash@,
        pfb_broadcasted_at_ms: broadcast.accepted_at,
        celestia_committed_at_ms: confirmed.committed_at,
        celestia_block_time_ms: confirmed.block_time_ms,
        publish_latency_ms: publish_latency(confirmed.block_time_ms, timestamp),
        backend_commit_latency_ms: less(confirmed.committed_at, timestamp),
        batch_wait_ms: less(broadcast.started_at, soft_confirmed_at),
        soft_to_pfb_broadcast_ms: less(broadcast.accepted_at, soft_confirmed_at),
        broadcast_latency_ms: less(broadcast.accepted_at, broadcast.started_at),
        confirmation_wait_ms: less(confirmed.committed_at, broadcast.accepted_at),
    }
}

/// The index after the first `n` blocks of a batch were published.
pub open spec fn with_publication(
    index: Map<u64, SoftBlockView>,
    batch: SoftBatchView,
    confirmed: Confirmation,
    n: int,
) -> Map<u64, SoftBlockView>
    decreases n,
{
    if n <= 0 {
        index
    } else {
        let metadata = batch.blocks[n - 1].metadata;
        with_commit(
            with_publication(index, batch, confirmed, n - 1),
            metadata.height,
            commit_of(confirmed, batch.soft_confirmed_at, metadata.timestamp),
        )
    }
}

/// The index after an event: recording the cursor publishes the blocks of the batch.
pub open spec fn index_after(
    index: Map<u64, SoftBlockView>,
    batch: SoftBatchView,
    phase: Phase,
    event: Event,
) -> Map<u64, SoftBlockView> {
    match (phase, event) {
        (Phase::Recording(confirmed), Event::Recorded(true)) => with_publication(
            index,
            batch,
            confirmed,
            batch.blocks.len() as int,
        ),
        _ => index,
    }
}

/// How long after a block's own timestamp the block that published it came.
fn find_latency(block_time: Option<u64>, timestamp: u64) -> (latency: Option<u64>)
    ensures
        latency == publish_latency(block_time, timestamp),
{
    match block_time {
        Some(time) => Some(time.saturating_sub(timestamp)),
        None => None,
    }
}

/// What is kept of the publication of a block.
pub fn soft_commit(confirmed: &Confirmation, soft_confirmed_at: u64, timestamp: u64) -> (commit:
    SoftCommit)
    ensures
        commit@ == commit_of(*confirmed, soft_confirmed_at, timestamp),
{
    let broadcast = &confirmed.broadcast;
    SoftCommit {
        tx_hash: broadcast.tx_hash.clone(),
        pfb_broadcasted_at_ms: broadcast.accepted_at,
        celestia_committed_at_ms: confirmed.committed_at,
        celestia_block_time_ms: confirmed.block_time_ms,
        publish_latency_ms: find_latency(confirmed.block_time_ms, timestamp),
        backend_commit_latency_ms: confirmed.committed_at.saturating_sub(timestamp),
        batch_wait_ms: broadcast.started_at.saturating_sub(soft_confirmed_at),
        soft_to_pfb_broadcast_ms: broadcast.accepted_at.saturating_sub(soft_confirmed_at),
        broadcast_latency_ms: broadcast.accepted_at.saturating_sub(broadcast.started_at),
        confirmation_wait_ms: confirmed.committed_at.saturating_sub(broadcast.accepted_at),
    }
}

/// Notes the publication of every block of a batch.
pub fn record_publication(index: &mut SoftStatusIndex, batch: &SoftBatch, confirmed: &Confirmation)
    ensures
        final(index)@ == with_publication(
            old(index)@,
            batch@,
            *confirmed,
            batch@.blocks.len() as int,
        ),
{
    let mut i: usize = 0;
    while i < batch.blocks.len()
        invariant
            i <= batch.blocks@.len(),
            index@ == with_publication(old(index)@, batch@, *confirmed, i as int),
        decreases batch.blocks@.len() - i,
    {
        let metadata = batch.blocks[i].metadata;
        let commit = soft_commit(confirmed, batch.soft_confirmed_at, metadata.timestamp);
        index.publish_height(metadata.height, commit);
        assert(batch@.blocks[i as int].metadata == metadata);
        i += 1;
    }
}

/// The publication of one batch.
#[derive(Debug)]
pub struct Publication {
    pub batch: SoftBatch,
    pub blob: BlobId,
    /// When the task that publishes the batch began.
    pub started_at: u64,
    pub phase: Phase,
}

impl Publication {
    /// The publication of a batch by a task that began at a time, which first broadcasts at
    /// once.
    pub fn new(batch: SoftBatch, blob: BlobId, started_at: u64) -> (publication: (
        Publication,
        Action,
    ))
        ensures
            publication.0.batch == batch,
            publication.0.blob == blob,
            publication.0.started_at == started_at,
            publication.0.phase == Phase::Broadcasting,
            publication.1 == (Action::Broadcast { after_ms: 0 }),
    {
        (
            Publication { batch, blob, started_at, phase: Phase::Broadcasting },
            Action::Broadcast { after_ms: 0 },
        )
    }

    /// Takes an event: what to do next, and where the publication then stands.
    pub fn step(self, index: &mut SoftStatusIndex, event: Event) -> (next: (Publication, Action))
        ensures
            next.0.batch == self.batch,
            next.0.blob == self.blob,
            next.0.started_at == self.started_at,
            phase_follows(self.phase, event, next.0.phase),
            next.1 == action_after(self.batch@, self.blob, self.phase, event),
            final(index)@ == index_after(old(index)@, self.batch@, self.phase, event),
    {
        let batch = self.batch;
        let blob = self.blob;
        let started_at = self.started_at;
        let (phase, action) = match (self.phase, event) {
            (Phase::Broadcasting, Event::BroadcastAccepted { started_at, at, hash }) => {
                let tx_hash = hex(hash.as_slice());
                (
                    Phase::Confirming(Broadcast { started_at, accepted_at: at, tx_hash }),
                    Action::Confirm,
                )
            },
            (Phase::Broadcasting, Event::BroadcastFailed) => (
                Phase::Broadcasting,
                Action::Broadcast { after_ms: RETRY_MS },
            ),
            (Phase::Confirming(broadcast), Event::Confirmed { at, height }) => (
                Phase::Timing(
                    Confirmation {
                        broadcast,
                        height,
                        committed_at: at,
                        ended_at: at,
                        block_time_ms: None,
                    },
                ),
                Action::LookUpTime { height, timeout_ms: BLOCK_TIME_TIMEOUT_MS },
            ),
            (Phase::Confirming(_), Event::ConfirmationFailed) => (
                Phase::Broadcasting,
                Action::Broadcast { after_ms: RETRY_MS },
            ),
            (Phase::Timing(confirmed), Event::BlockTime { at, time }) => {
                let cursor = BatchCursor {
                    sequence: batch.sequence,
                    blob_ref: BlobRef {
                        height: confirmed.height,
                        namespace: blob.namespace,
                        commitment: blob.commitment,
                    },
                    payload_hash: batch.payload_hash,
                };
                (
                    Phase::Recording(
                        Confirmation {
                            broadcast: confirmed.broadcast,
                            height: confirmed.height,
                            committed_at: confirmed.committed_at,
                            ended_at: at,
                            block_time_ms: time,
                        },
                    ),
                    Action::Record(cursor),
                )
            },
            (Phase::Recording(confirmed), Event::Recorded(recorded)) => {
                if recorded {
                    record_publication(index, &batch, &confirmed);
                }
                (Phase::Finished, Action::Finish)
            },
            _ => (Phase::Finished, Action::Finish),
        };
        (Publication { batch, blob, started_at, phase }, action)
    }
}

/// The figures of a publication, from the oldest and the newest block of its batch.
#[derive(Clone, Copy, Debug, PartialEq, Eq)]
pub struct PublicationReport {
    pub first_height: u64,
    pub last_height: u64,
    pub block_count: usize,
    pub oldest_publish_latency_ms: Option<u64>,
    pub newest_publish_latency_ms: Option<u64>,
    /// From the timestamp of the oldest block until the publishing task began.
    pub oldest_queued_for_ms: u64,
    /// From the timestamp of the newest block until the publishing task began.
    pub newest_queued_for_ms: u64,
    /// What broadcasting, confirming and reading back took, from when the task began.
    pub publish_roundtrip_ms: u64,
    /// From the last broadcast until its confirmation came.
    pub commit_latency_ms: u64,
    pub confirmation_wait_ms: u64,
}

/// The figures of a confirmed publication by a task that began at a time; none for a batch
/// without blocks.
pub open spec fn report_of(
    batch: SoftBatchView,
    started_at: u64,
    confirmed: Confirmation,
) -> Option<PublicationReport> {
    if batch.blocks.len() == 0 {
        None
    } else {
        let first = batch.blocks.first().metadata;
        let last = batch.blocks.last().metadata;
        let broadcast = confirmed.broadcast;
        Some(
            PublicationReport {
                first_height: first.height,
                last_height: last.height,
                block_count: batch.blocks.len() as usize,
                oldest_publish_latency_ms: publish_latency(confirmed.block_time_ms, first.timestamp),
                newest_publish_latency_ms: publish_latency(confirmed.block_time_ms, last.timestamp),
                oldest_queued_for_ms: less(started_at, first.timestamp),
                newest_queued_for_ms: less(started_at, last.timestamp),
                publish_roundtrip_ms: less(confirmed.ended_at, started_at),
                commit_latency_ms: less(confirmed.committed_at, broadcast.started_at),
                confirmation_wait_ms: less(confirmed.committed_at, broadcast.accepted_at),
            },
        )
    }
}

/// The figures of a publication whose blob was confirmed and read back; none in any other
/// phase and none for a batch without blocks.
pub fn publication_report(publication: &Publication) -> (report: Option<PublicationReport>)
    ensures
        report == match publication.phase {
            Phase::Recording(confirmed) => report_of(
                publication.batch@,
                publication.started_at,
                confirmed,
            ),
            _ => None,
        },
{
    let confirmed = match &publication.phase {
        Phase::Recording(confirmed) => confirmed,
        _ => {
            return None;
        },
    };
    let batch = &publication.batch;
    let started_at = publication.started_at;
    let count = batch.blocks.len();
    if count == 0 {
        return None;
    }
    let first = batch.blocks[0].metadata;
    let last = batch.blocks[count - 1].metadata;
    let committed_at = confirmed.committed_at;
    Some(
        PublicationReport {
            first_height: first.height,
            last_height: last.height,
            block_count: count,
            oldest_publish_latency_ms: find_latency(confirmed.block_time_ms, first.timestamp),
            newest_publish_latency_ms: find_latency(confirmed.block_time_ms, last.timestamp),
            oldest_queued_for_ms: started_at.saturating_sub(first.timestamp),
            newest_queued_for_ms: started_at.saturating_sub(last.timestamp),
            publish_roundtrip_ms: confirmed.ended_at.saturating_sub(started_at),
            commit_latency_ms: committed_at.saturating_sub(confirmed.broadcast.started_at),
            confirmation_wait_ms: committed_at.saturating_sub(confirmed.broadcast.accepted_at),
        },
    )
}

/// The whole milliseconds of a number of nanoseconds, rounded towards zero, where they
/// are not negative and fit in 64 bits.
pub open spec fn millis_of(nanos: i128) -> Option<u64> {
    if nanos <= -1_000_000 {
        None
    } else if nanos < 0 {
        Some(0)
    } else if nanos as int / 1_000_000 <= u64::MAX {
        Some((nanos as int / 1_000_000) as u64)
    } else {
        None
    }
}

/// The whole milliseconds of a number of nanoseconds, where they are a timestamp.
pub fn whole_millis(nanos: i128) -> (millis: Option<u64>)
    ensures
        millis == millis_of(nanos),
{
    if nanos <= -1_000_000 {
        return None;
    }
    if nanos < 0 {
        return Some(0);
    }
    let millis: u128 = nanos as u128 / 1_000_000;
    if millis <= u64::MAX as u128 {
        Some(millis as u64)
    } else {
        None
    }
}

/// The known times of blocks of the data availability layer, by height.
pub struct HeaderTimes {
    times: HashMap<u64, u64>,
}

impl View for HeaderTimes {
    type V = Map<u64, u64>;

    closed spec fn view(&self) -> Map<u64, u64> {
        self.times@
    }
}

impl HeaderTimes {
    /// No times are known.
    pub fn new() -> (times: HeaderTimes)
        ensures
            times@ == Map::<u64, u64>::empty(),
    {
        HeaderTimes { times: HashMap::new() }
    }

    /// The time of the block at a height, where it is known.
    pub fn known(&self, height: u64) -> (time: Option<u64>)
        ensures
            time == if self@.contains_key(height) {
                Some(self@[height])
            } else {
                None
            },
    {
        match self.times.get(&height) {
            Some(time) => Some(*time),
            None => None,
        }
    }

    /// Takes the time of a block as nanoseconds since the Unix epoch; gives it in
    /// milliseconds and keeps it, where it is a timestamp.
    pub fn learn(&mut self, height: u64, nanos: i128) -> (time: Option<u64>)
        ensures
            time == millis_of(nanos),
            final(self)@ == match millis_of(nanos) {
                Some(millis) => old(self)@.insert(height, millis),
                None => old(self)@,
            },
    {
        match whole_millis(nanos) {
            Some(millis) => {
                self.times.insert(height, millis);
                Some(millis)
            },
            None => None,
        }
    }
}

/// Whether an event is one that a phase waits for.
pub open spec fn awaited(phase: Phase, event: Event) -> bool {
    match phase {
        Phase::Broadcasting => event is BroadcastAccepted || event is BroadcastFailed,
        Phase::Confirming(_) => event is Confirmed || event is ConfirmationFailed,
        Phase::Timing(_) => event is BlockTime,
        Phase::Recording(_) => event is Recorded,
        Phase::Finished => false,
    }
}

/// A batch is not given up before its cursor was offered for recording: as long as the
/// answers are those that were waited for, failures lead back to a broadcast, and the
/// publication ends only after the answer to recording.
pub proof fn law_publication_goes_on_until_recorded(
    batch: SoftBatchView,
    blob: BlobId,
    before: Phase,
    event: Event,
    after: Phase,
)
    requires
        awaited(before, event),
        phase_follows(before, event, after),
    ensures
        action_after(batch, blob, before, event) == Action::Finish <==> before is Recording,
        after is Finished <==> before is Recording,
        event is BroadcastFailed || event is ConfirmationFailed ==> after is Broadcasting
            && action_after(batch, blob, before, event) == (Action::Broadcast {
            after_ms: RETRY_MS,
        }),
{
}

/// Waiting and publishing add up: where the clock did not go back, the time that a block
/// waited for its task and the round trip together reach from its timestamp to the end.
pub proof fn law_queueing_and_round_trip_add_up(
    batch: SoftBatchView,
    started_at: u64,
    confirmed: Confirmation,
)
    requires
        batch.blocks.len() > 0,
        batch.blocks.first().metadata.timestamp <= started_at,
        batch.blocks.last().metadata.timestamp <= started_at,
        started_at <= confirmed.ended_at,
    ensures
        report_of(batch, started_at, confirmed) matches Some(report) && {
            &&& report.oldest_queued_for_ms + report.publish_roundtrip_ms == confirmed.ended_at
                - batch.blocks.first().metadata.timestamp
            &&& report.newest_queued_for_ms + report.publish_roundtrip_ms == confirmed.ended_at
                - batch.blocks.last().metadata.timestamp
        },
{
}

/// Nothing is published before the cursor was recorded.
pub proof fn law_index_changes_only_when_recorded(
    index: Map<u64, SoftBlockView>,
    batch: SoftBatchView,
    phase: Phase,
    event: Event,
)
    ensures
        index_after(index, batch, phase, event) != index ==> phase is Recording && event
            == Event::Recorded(true),
{
}

/// Publishing a batch publishes the blocks of the batch that the index holds and no
/// others: every height keeps its block, the heights of the batch become published, and
/// what is known of other heights stays.
pub proof fn law_publication_covers_the_batch(
    index: Map<u64, SoftBlockView>,
    batch: SoftBatchView,
    confirmed: Confirmation,
    n: int,
    height: u64,
)
    requires
        0 <= n <= batch.blocks.len(),
    ensures
        with_publication(index, batch, confirmed, n).dom() == index.dom(),
        index.contains_key(height) ==> with_publication(index, batch, confirmed, n)[height].metadata
            == index[height].metadata,
        index.contains_key(height) ==> with_publication(index, batch, confirmed, n)[height].payload
            == index[height].payload,
        index.contains_key(height) && (exists|i: int|
            0 <= i < n && (#[trigger] batch.blocks[i]).metadata.height == height)
            ==> published_heights(with_publication(index, batch, confirmed, n)).contains(height),
        (forall|i: int| 0 <= i < n ==> (#[trigger] batch.blocks[i]).metadata.height != height)
            ==> with_publication(index, batch, confirmed, n)[height] == index[height],
    decreases n,
{
    if n > 0 {
        law_publication_covers_the_batch(index, batch, confirmed, n - 1, height);
        let sooner = with_publication(index, batch, confirmed, n - 1);
        let metadata = batch.blocks[n - 1].metadata;
        let commit = commit_of(confirmed, batch.soft_confirmed_at, metadata.timestamp);
        law_publish_keeps_the_blocks(sooner, metadata.height, commit);
        if metadata.height != height {
            if exists|i: int| 0 <= i < n && (#[trigger] batch.blocks[i]).metadata.height == height {
                let i = choose|i: int|
                    0 <= i < n && (#[trigger] batch.blocks[i]).metadata.height == height;
                assert(i < n - 1);
            }
        } else {
            assert(batch.blocks[n - 1].metadata.height == height);
        }
    }
}

/// The figures of a commit add up along the timeline: from the soft confirmation over the
/// beginning of the broadcast and its acceptance to the confirmation, and from the block's
/// own timestamp to what came of it. Where the clock went back a figure is zero.
pub proof fn law_commit_figures_add_up(
    confirmed: Confirmation,
    soft_confirmed_at: u64,
    timestamp: u64,
    commit: SoftCommit,
)
    requires
        call_ensures(soft_commit, (&confirmed, soft_confirmed_at, timestamp), commit),
    ensures
        ({
            let started_at = confirmed.broadcast.started_at;
            let accepted_at = confirmed.broadcast.accepted_at;
            let committed_at = confirmed.committed_at;
            &&& commit.tx_hash@ == confirmed.broadcast.tx_hash@
            &&& commit.pfb_broadcasted_at_ms == accepted_at
            &&& commit.celestia_committed_at_ms == committed_at
            &&& commit.celestia_block_time_ms == confirmed.block_time_ms
            &&& soft_confirmed_at <= started_at ==> soft_confirmed_at + commit.batch_wait_ms
                == started_at
            &&& soft_confirmed_at > started_at ==> commit.batch_wait_ms == 0
            &&& started_at <= accepted_at ==> started_at + commit.broadcast_latency_ms
                == commit.pfb_broadcasted_at_ms
            &&& started_at > accepted_at ==> commit.broadcast_latency_ms == 0
            &&& accepted_at <= committed_at ==> commit.pfb_broadcasted_at_ms
                + commit.confirmation_wait_ms == commit.celestia_committed_at_ms
            &&& accepted_at > committed_at ==> commit.confirmation_wait_ms == 0
            &&& soft_confirmed_at <= accepted_at ==> soft_confirmed_at
                + commit.soft_to_pfb_broadcast_ms == commit.pfb_broadcasted_at_ms
            &&& soft_confirmed_at > accepted_at ==> commit.soft_to_pfb_broadcast_ms == 0
            &&& timestamp <= committed_at ==> timestamp + commit.backend_commit_latency_ms
                == commit.celestia_committed_at_ms
            &&& timestamp > committed_at ==> commit.backend_commit_latency_ms == 0
            &&& commit.publish_latency_ms is Some <==> commit.celestia_block_time_ms is Some
            &&& commit.celestia_block_time_ms matches Some(time) ==> {
                &&& timestamp <= time ==> timestamp + commit.publish_latency_ms->0 == time
                &&& timestamp > time ==> commit.publish_latency_ms->0 == 0
            }
            &&& soft_confirmed_at <= started_at <= accepted_at <= committed_at ==> {
                &&& soft_confirmed_at + commit.batch_wait_ms + commit.broadcast_latency_ms
                    == commit.pfb_broadcasted_at_ms
                &&& commit.batch_wait_ms + commit.broadcast_latency_ms
                    == commit.soft_to_pfb_broadcast_ms
                &&& soft_confirmed_at + commit.soft_to_pfb_broadcast_ms
                    + commit.confirmation_wait_ms == commit.celestia_committed_at_ms
            }
        }),
{
}

/// The figures that are filed for a block add up along the timeline, as those of a commit
/// do.
pub proof fn law_filed_figures_add_up(
    confirmed: Confirmation,
    soft_confirmed_at: u64,
    timestamp: u64,
)
    requires
        soft_confirmed_at <= confirmed.broadcast.started_at,
        confirmed.broadcast.started_at <= confirmed.broadcast.accepted_at,
        confirmed.broadcast.accepted_at <= confirmed.committed_at,
        timestamp <= soft_confirmed_at,
    ensures
        ({
            let commit = commit_of(confirmed, soft_confirmed_at, timestamp);
            &&& commit.pfb_broadcasted_at_ms == confirmed.broadcast.accepted_at
            &&& commit.celestia_committed_at_ms == confirmed.committed_at
            &&& soft_confirmed_at + commit.batch_wait_ms == confirmed.broadcast.started_at
            &&& soft_confirmed_at + commit.batch_wait_ms + commit.broadcast_latency_ms
                == commit.pfb_broadcasted_at_ms
            &&& commit.batch_wait_ms + commit.broadcast_latency_ms
                == commit.soft_to_pfb_broadcast_ms
            &&& commit.pfb_broadcasted_at_ms + commit.confirmation_wait_ms
                == commit.celestia_committed_at_ms
            &&& timestamp + commit.backend_commit_latency_ms == commit.celestia_committed_at_ms
        }),
{
}

/// What is filed for a published height of a batch whose heights differ.
proof fn lemma_filed(
    index: Map<u64, SoftBlockView>,
    batch: SoftBatchView,
    confirmed: Confirmation,
    n: int,
    i: int,
)
    requires
        0 <= i < n <= batch.blocks.len(),
        index.contains_key(batch.blocks[i].metadata.height),
        forall|a: int, b: int|
            0 <= a < b < batch.blocks.len() ==> (#[trigger] batch.blocks[a]).metadata.height != (
            #[trigger] batch.blocks[b]).metadata.height,
    ensures
        with_publication(index, batch, confirmed, n).contains_key(batch.blocks[i].metadata.height),
        with_publication(index, batch, confirmed, n)[batch.blocks[i].metadata.height].commit
            == Some(
            commit_of(confirmed, batch.soft_confirmed_at, batch.blocks[i].metadata.timestamp),
        ),
    decreases n,
{
    let height = batch.blocks[i].metadata.height;
    law_publication_covers_the_batch(index, batch, confirmed, n, height);
    law_publication_covers_the_batch(index, batch, confirmed, n - 1, height);
    if i < n - 1 {
        lemma_filed(index, batch, confirmed, n - 1, i);
        assert(batch.blocks[i].metadata.height != batch.blocks[n - 1].metadata.height);
    }
}

/// Recording a publication files for each block of the batch that is indexed what
/// [`soft_commit`] gives for it, with the block's own timestamp and the time at which the
/// batch was soft-confirmed; other heights, and what else is known of a block, stay.
pub proof fn law_recorded_publications_are_filed(
    index: &mut SoftStatusIndex,
    batch: SoftBatch,
    confirmed: Confirmation,
    i: int,
    commit: SoftCommit,
    height: u64,
)
    requires
        call_ensures(record_publication, (index, &batch, &confirmed), ()),
        0 <= i < batch.blocks@.len(),
        forall|a: int, b: int|
            0 <= a < b < batch@.blocks.len() ==> (#[trigger] batch@.blocks[a]).metadata.height != (
            #[trigger] batch@.blocks[b]).metadata.height,
        call_ensures(
            soft_commit,
            (&confirmed, batch.soft_confirmed_at, batch.blocks@[i].metadata.timestamp),
            commit,
        ),
    ensures
        final(index)@.dom() == old(index)@.dom(),
        old(index)@.contains_key(batch.blocks@[i].metadata.height)
            ==> final(index)@[batch.blocks@[i].metadata.height].commit == Some(commit@),
        (forall|k: int|
            0 <= k < batch@.blocks.len() ==> (#[trigger] batch@.blocks[k]).metadata.height
                != height) ==> final(index)@[height] == old(index)@[height],
        old(index)@.contains_key(height) ==> {
            &&& final(index)@[height].metadata == old(index)@[height].metadata
            &&& final(index)@[height].payload == old(index)@[height].payload
        },
{
    let n = batch@.blocks.len() as int;
    assert(batch@.blocks[i].metadata == batch.blocks@[i].metadata);
    if old(index)@.contains_key(batch.blocks@[i].metadata.height) {
        lemma_filed(old(index)@, batch@, confirmed, n, i);
    }
    law_publication_covers_the_batch(old(index)@, batch@, confirmed, n, height);
}

/// What is offered for recording is where the batch lies: its own number and payload hash,
/// its own blob, and the height that its confirmation named.
pub proof fn law_cursor_is_where_the_batch_lies(
    publication: Publication,
    index: &mut SoftStatusIndex,
    event: Event,
    next: (Publication, Action),
)
    requires
        call_ensures(Publication::step, (publication, index, event), next),
    ensures
        next.1 matches Action::Record(cursor) ==> {
            &&& cursor.sequence == publication.batch.sequence
            &&& cursor.payload_hash == publication.batch.payload_hash
            &&& cursor.blob_ref.namespace == publication.blob.namespace
            &&& cursor.blob_ref.commitment == publication.blob.commitment
            &&& publication.phase matches Phase::Timing(confirmed) && cursor.blob_ref.height
                == confirmed.height
        },
        next.1 matches Action::LookUpTime { height, .. } ==> (event matches Event::Confirmed {
            height: named,
            ..
        } && named == height),
        next.0.batch == publication.batch,
        next.0.blob == publication.blob,
        next.0.started_at == publication.started_at,
{
}

/// The way of a batch from its broadcast to its record, when all goes well: the times and
/// the height that come back on the way are what is filed for its blocks and offered for
/// recording, each in its place.
pub proof fn law_publication_files_what_came_back(
    batch: SoftBatch,
    blob: BlobId,
    began_at: u64,
    p0: (Publication, Action),
    p1: (Publication, Action),
    p2: (Publication, Action),
    p3: (Publication, Action),
    p4: (Publication, Action),
    i1: &mut SoftStatusIndex,
    i2: &mut SoftStatusIndex,
    i3: &mut SoftStatusIndex,
    i4: &mut SoftStatusIndex,
    started_at: u64,
    accepted_at: u64,
    hash: Vec<u8>,
    committed_at: u64,
    height: u64,
    read_at: u64,
    time: Option<u64>,
    k: int,
    report: Option<PublicationReport>,
)
    requires
        call_ensures(Publication::new, (batch, blob, began_at), p0),
        call_ensures(
            Publication::step,
            (p0.0, i1, Event::BroadcastAccepted { started_at, at: accepted_at, hash }),
            p1,
        ),
        *old(i2) == *final(i1),
        call_ensures(
            Publication::step,
            (p1.0, i2, Event::Confirmed { at: committed_at, height }),
            p2,
        ),
        *old(i3) == *final(i2),
        call_ensures(
            Publication::step,
            (p2.0, i3, Event::BlockTime { at: read_at, time }),
            p3,
        ),
        call_ensures(publication_report, (&p3.0,), report),
        *old(i4) == *final(i3),
        call_ensures(Publication::step, (p3.0, i4, Event::Recorded(true)), p4),
        0 <= k < batch@.blocks.len(),
        forall|a: int, b: int|
            0 <= a < b < batch@.blocks.len() ==> (#[trigger] batch@.blocks[a]).metadata.height != (
            #[trigger] batch@.blocks[b]).metadata.height,
        old(i1)@.contains_key(batch@.blocks[k].metadata.height),
    ensures
        p0.1 == (Action::Broadcast { after_ms: 0 }),
        p1.1 == Action::Confirm,
        p2.1 matches Action::LookUpTime { height: asked, timeout_ms } && asked == height
            && timeout_ms == 2_000,
        p3.1 matches Action::Record(cursor) && cursor.blob_ref.height == height && cursor.sequence
            == batch.sequence && cursor.payload_hash == batch.payload_hash
            && cursor.blob_ref.namespace == blob.namespace && cursor.blob_ref.commitment
            == blob.commitment,
        p4.1 == Action::Finish,
        final(i3)@ == old(i1)@,
        final(i4)@[batch@.blocks[k].metadata.height].commit matches Some(commit) && {
            let timestamp = batch@.blocks[k].metadata.timestamp;
            let soft = batch.soft_confirmed_at;
            &&& commit.tx_hash == hex_text(hash@)
            &&& commit.pfb_broadcasted_at_ms == accepted_at
            &&& commit.celestia_committed_at_ms == committed_at
            &&& commit.celestia_block_time_ms == time
            &&& soft <= started_at ==> soft + commit.batch_wait_ms == started_at
            &&& started_at <= accepted_at ==> started_at + commit.broadcast_latency_ms
                == accepted_at
            &&& soft <= accepted_at ==> soft + commit.soft_to_pfb_broadcast_ms == accepted_at
            &&& accepted_at <= committed_at ==> accepted_at + commit.confirmation_wait_ms
                == committed_at
            &&& timestamp <= committed_at ==> timestamp + commit.backend_commit_latency_ms
                == committed_at
            &&& time is Some && timestamp <= time->0 ==> commit.publish_latency_ms is Some
                && timestamp + commit.publish_latency_ms->0 == time->0
        },
        report matches Some(figures) && {
            let first = batch@.blocks.first().metadata;
            let last = batch@.blocks.last().metadata;
            &&& figures.first_height == first.height
            &&& figures.last_height == last.height
            &&& figures.block_count == batch@.blocks.len()
            &&& first.timestamp <= began_at ==> first.timestamp + figures.oldest_queued_for_ms
                == began_at
            &&& last.timestamp <= began_at ==> last.timestamp + figures.newest_queued_for_ms
                == began_at
            &&& began_at <= read_at ==> began_at + figures.publish_roundtrip_ms == read_at
            &&& started_at <= committed_at ==> started_at + figures.commit_latency_ms
                == committed_at
            &&& accepted_at <= committed_at ==> accepted_at + figures.confirmation_wait_ms
                == committed_at
            &&& figures.oldest_publish_latency_ms is Some <==> time is Some
            &&& figures.newest_publish_latency_ms is Some <==> time is Some
            &&& time is Some && first.timestamp <= time->0 ==> first.timestamp
                + figures.oldest_publish_latency_ms->0 == time->0
            &&& time is Some && last.timestamp <= time->0 ==> last.timestamp
                + figures.newest_publish_latency_ms->0 == time->0
        },
{
    let n = batch@.blocks.len() as int;
    assert(batch@.blocks.len() == batch.blocks@.len());
    assert(batch.blocks@.len() == batch.blocks.len());
    let confirmed = p3.0.phase->Recording_0;
    lemma_filed(old(i4)@, batch@, confirmed, n, k);
}

/// A failed broadcast and a failed confirmation are tried again after a second, and leave
/// the index as it was.
pub proof fn law_failures_are_tried_again(
    publication: Publication,
    index: &mut SoftStatusIndex,
    event: Event,
    next: (Publication, Action),
)
    requires
        call_ensures(Publication::step, (publication, index, event), next),
        publication.phase is Broadcasting && event is BroadcastFailed || publication.phase
            is Confirming && event is ConfirmationFailed,
    ensures
        next.1 == (Action::Broadcast { after_ms: 1_000 }),
        next.0.phase is Broadcasting,
        final(index)@ == old(index)@,
{
}

/// A batch whose cursor could not be recorded is not published, and its publication is
/// over; so is one to which something comes back that it did not wait for.
pub proof fn law_unrecorded_batches_stay_unpublished(
    publication: Publication,
    index: &mut SoftStatusIndex,
    event: Event,
    next: (Publication, Action),
)
    requires
        call_ensures(Publication::step, (publication, index, event), next),
    ensures
        event != Event::Recorded(true) || !(publication.phase is Recording) ==> final(index)@
            == old(index)@,
        next.1 == Action::Finish <==> next.0.phase is Finished,
{
}

/// The limits of the pipeline grow with the publications in flight: four confirmations and
/// 64 places in the queue for each broadcast, as far as they can be counted, and always
/// room for one.
pub proof fn law_limits_grow_together(concurrency: usize, limits: PublishLimits)
    requires
        call_ensures(PublishLimits::new, (concurrency,), limits),
    ensures
        concurrency > 0 ==> limits.broadcasts == concurrency,
        concurrency == 0 ==> limits.broadcasts == 1,
        limits.broadcasts * 4 <= usize::MAX ==> limits.confirmations == limits.broadcasts * 4,
        limits.broadcasts * 4 > usize::MAX ==> limits.confirmations == usize::MAX,
        limits.broadcasts * 64 <= usize::MAX ==> limits.confirm_queue == limits.confirmations * 16,
        limits.broadcasts * 64 > usize::MAX ==> limits.confirm_queue == usize::MAX,
{
}

/// A limit is reached by as many tasks as it says and by no fewer.
pub proof fn law_tasks_start_up_to_the_limit(in_flight: usize, limit: usize, may: bool)
    requires
        call_ensures(may_start, (in_flight, limit), may),
    ensures
        may ==> in_flight + 1 <= limit,
        !may ==> limit <= in_flight,
{
}

/// Nanoseconds are rounded towards zero: a timestamp in milliseconds lies less than one
/// millisecond before them, and there is none exactly where they are a whole millisecond or
/// more before the epoch or too many.
pub proof fn law_millis_round_towards_zero(nanos: i128, millis: Option<u64>)
    requires
        call_ensures(whole_millis, (nanos,), millis),
    ensures
        millis matches Some(found) ==> {
            &&& nanos >= 0 ==> found * 1_000_000 <= nanos < (found + 1) * 1_000_000
            &&& nanos < 0 ==> found == 0 && nanos > -1_000_000
        },
        millis is None ==> nanos <= -1_000_000 || nanos >= (u64::MAX + 1) * 1_000_000,
{
}

/// The time of a block is known once it was learned and is then what was learned; other
/// heights keep what is known of them.
pub proof fn law_learned_times_are_known(
    times: &mut HeaderTimes,
    height: u64,
    nanos: i128,
    learned: Option<u64>,
    other: u64,
    before: Option<u64>,
    after: Option<u64>,
    millis: Option<u64>,
)
    requires
        call_ensures(whole_millis, (nanos,), millis),
        call_ensures(HeaderTimes::known, (&*old(times), other), before),
        call_ensures(HeaderTimes::learn, (times, height, nanos), learned),
        call_ensures(HeaderTimes::known, (&*final(times), other), after),
    ensures
        learned == millis,
        other == height && learned is Some ==> after == learned,
        other != height || learned is None ==> after == before,
{
}

/// What comes back without being waited for ends the publication and changes nothing.
pub proof fn law_unexpected_events_end_the_publication(
    publication: Publication,
    index: &mut SoftStatusIndex,
    event: Event,
    next: (Publication, Action),
)
    requires
        call_ensures(Publication::step, (publication, index, event), next),
        !awaited(publication.phase, event),
    ensures
        next.1 == Action::Finish,
        next.0.phase is Finished,
        final(index)@ == old(index)@,
{
}

} // verus!

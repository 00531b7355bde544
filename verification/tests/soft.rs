use alto_coro::batch::{encode_block_batch, BatchMeta, BlockMeta, DecodeError};
use alto_coro::chain::ChainState;
use alto_coro::codec::{read_digest, read_u64, write_u64};
use alto_coro::config::{BatchConfig, CelestiaConfig, ConfirmationMode, SequencerFile};
use alto_coro::crypto::sha256;
use alto_coro::hex::hex;
use alto_coro::history::{
    archived_block_get, block_archived_head, block_get, block_height_query, block_published_head,
    block_status, block_status_batch, history_archived_head, history_cursor, history_head,
    history_payload, history_status, parse_u64_query, payload_sequence, BatchStatus,
    CursorResponse, HeadResponse, Reply, SoftConfirmResponse, StatusResponse,
};
use alto_coro::publish::{
    may_start, publication_report, whole_millis, Action, BlobId, Event, HeaderTimes, Phase,
    Publication, PublishLimits,
};
use alto_coro::sequencer::{
    after_flush, after_recovery, after_send, after_submit, ingest, plan, startup, AfterFlush,
    AfterRecovery, AfterSubmit, Next, Occasion, StartupStep,
};
use alto_coro::soft::{ArchivedBatch, SoftBatch, SoftCommit, SoftError, SoftStatusIndex};
use alto_coro::types::{BatchCursor, BlobRef, Block, Context, Fetched, Round};

fn block(height: u64, timestamp: u64) -> Block {
    Block {
        context: Context {
            round: Round { epoch: 0, view: height },
            leader: [0u8; 32],
            parent: (height.saturating_sub(1), [0u8; 32]),
        },
        parent: sha256(&height.saturating_sub(1).to_be_bytes()),
        height,
        timestamp,
        digest: sha256(&height.to_be_bytes()),
    }
}

fn encode(block: &Block) -> Vec<u8> {
    let mut bytes = Vec::new();
    write_u64(&mut bytes, block.height);
    write_u64(&mut bytes, block.timestamp);
    bytes.extend_from_slice(&block.digest);
    bytes
}

fn decode(bytes: &Vec<u8>) -> Result<Block, String> {
    match (read_u64(bytes, 0), bytes.len()) {
        (Some(height), 48) => {
            let found = block(height, read_u64(bytes, 8).unwrap());
            assert_eq!(read_digest(bytes, 16), Some(found.digest));
            Ok(found)
        }
        _ => Err("no block".to_string()),
    }
}

fn archived(sequence: u64, blocks: &[Block]) -> ArchivedBatch {
    let blocks = blocks.to_vec();
    let payload = encode_block_batch(&blocks, &encode);
    ArchivedBatch {
        sequence,
        payload_hash: sha256(&payload),
        payload,
        metadata: BatchMeta::from_blocks(&blocks),
    }
}

fn soft(sequence: u64, blocks: &[Block], now: u64) -> SoftBatch {
    SoftBatch::from_archived(archived(sequence, blocks), &decode, now).unwrap()
}

fn commit(hash: &str) -> SoftCommit {
    SoftCommit {
        tx_hash: hash.to_string(),
        pfb_broadcasted_at_ms: 1,
        celestia_committed_at_ms: 2,
        celestia_block_time_ms: Some(3),
        publish_latency_ms: Some(4),
        backend_commit_latency_ms: 5,
        batch_wait_ms: 6,
        soft_to_pfb_broadcast_ms: 7,
        broadcast_latency_ms: 8,
        confirmation_wait_ms: 9,
    }
}

fn cursor(sequence: u64) -> BatchCursor {
    BatchCursor {
        sequence,
        blob_ref: BlobRef { height: 77, namespace: [0x0a; 29], commitment: [0x0b; 32] },
        payload_hash: [0x0c; 32],
    }
}

#[test]
fn archived_batches_are_soft_confirmed() {
    let blocks = [block(1, 10), block(2, 20)];
    let batch = soft(5, &blocks, 1_234);
    assert_eq!(batch.sequence, 5);
    assert_eq!(batch.payload, archived(5, &blocks).payload);
    assert_eq!(batch.payload_hash, sha256(&batch.payload));
    assert_eq!(batch.metadata, BatchMeta::from_blocks(&blocks.to_vec()));
    assert_eq!(batch.soft_confirmed_at, 1_234);
    assert_eq!(batch.blocks.len(), 2);
    for (found, block) in batch.blocks.iter().zip(&blocks) {
        assert_eq!(found.metadata, BlockMeta::from_block(block));
        assert_eq!(found.payload, encode(block));
    }
    let now = SoftBatch::try_from_archived(archived(5, &blocks), &decode).unwrap();
    assert!(now.soft_confirmed_at > 1_600_000_000_000);
    assert_eq!(now.blocks.len(), 2);
}

#[test]
fn undecodable_batches_are_not_soft_confirmed() {
    let mut cut = archived(5, &[block(1, 10)]);
    cut.payload.pop();
    assert!(matches!(
        SoftBatch::from_archived(cut, &decode, 0),
        Err(DecodeError::EndedEarly)
    ));
    let mut strange = archived(5, &[block(1, 10)]);
    strange.payload = vec![0, 0, 0, 0, 0, 0, 0, 1, 0, 0, 0, 0, 0, 0, 0, 1, 9];
    match SoftBatch::try_from_archived(strange, &decode) {
        Err(SoftError::Decode(error)) => assert_eq!(error.message(), "no block"),
        _ => panic!("expected an error"),
    }
}

#[test]
fn index_files_blocks_by_height() {
    let mut index = SoftStatusIndex::new();
    assert_eq!(index.archived_head(), None);
    assert_eq!(index.published_head(), None);
    index.archive(&soft(0, &[block(1, 10), block(2, 20)], 100));
    index.archive(&soft(1, &[block(3, 30)], 200));
    assert_eq!(index.archived_head(), Some(3));
    assert_eq!(index.published_head(), None);
    assert_eq!(index.batch_for_height(2), Some(0));
    assert_eq!(index.batch_for_height(3), Some(1));
    assert_eq!(index.batch_for_height(4), None);
    assert_eq!(index.block_payload(2), Some(&encode(&block(2, 20))));
    assert_eq!(index.block_payload(9), None);
    let found = index.soft_block(3).unwrap();
    assert_eq!(found.metadata, BlockMeta::from_block(&block(3, 30)));
    assert_eq!(found.soft_confirmed_at, 200);
    assert!(found.commit.is_none());
    assert!(index.soft_block(0).is_none());
    assert!(SoftStatusIndex::default().soft_block(1).is_none());
}

#[test]
fn publishing_marks_only_known_heights() {
    let mut index = SoftStatusIndex::new();
    index.archive(&soft(0, &[block(1, 10), block(2, 20), block(3, 30)], 100));
    index.publish_height(2, commit("two"));
    index.publish_height(9, commit("nine"));
    assert_eq!(index.published_head(), Some(2));
    assert_eq!(index.archived_head(), Some(3));
    assert_eq!(index.commit_height(2).unwrap().tx_hash, "two");
    assert!(index.commit_height(1).is_none());
    assert!(index.commit_height(9).is_none());
    assert!(index.soft_block(9).is_none());
    assert_eq!(index.block_payload(2), Some(&encode(&block(2, 20))));
    index.publish_height(1, commit("one"));
    assert_eq!(index.published_head(), Some(2));
    index.archive(&soft(7, &[block(2, 21)], 300));
    assert_eq!(index.published_head(), Some(1));
    assert_eq!(index.batch_for_height(2), Some(7));
}

fn ingest_step(
    occasion: Occasion,
    index: &mut SoftStatusIndex,
    archived: Fetched<ArchivedBatch>,
) -> Next {
    ingest(occasion, index, archived, &decode, 500)
}

#[test]
fn archived_batches_go_on_to_be_published() {
    for occasion in [Occasion::Unpublished, Occasion::Pending, Occasion::Produced] {
        let mut index = SoftStatusIndex::new();
        let batch = archived(4, &[block(8, 80)]);
        match ingest_step(occasion, &mut index, Fetched::Found(batch)) {
            Next::Publish(batch) => {
                assert_eq!(batch.sequence, 4);
                assert_eq!(batch.soft_confirmed_at, 500);
            }
            _ => panic!("expected a batch to publish"),
        }
        assert_eq!(index.archived_head(), Some(8));
    }
}

#[test]
fn only_pending_batches_end_their_loop() {
    for occasion in [Occasion::Unpublished, Occasion::Pending, Occasion::Produced] {
        let mut index = SoftStatusIndex::new();
        let mut broken = archived(4, &[block(8, 80)]);
        broken.payload.push(0);
        for given in [Fetched::Nothing, Fetched::Failed, Fetched::Found(broken)] {
            let next = ingest_step(occasion, &mut index, given);
            match occasion {
                Occasion::Pending => assert!(matches!(next, Next::Stop)),
                _ => assert!(matches!(next, Next::Continue)),
            }
        }
        assert_eq!(index.archived_head(), None);
    }
    assert!(matches!(after_send(true), Next::Continue));
    assert!(matches!(after_send(false), Next::Stop));
}

#[test]
fn submissions_advance_the_chain_when_taken() {
    let start = ChainState { height: 0, parent: block(1, 0).parent, timestamp: 0 };
    let next = block(1, 10);
    let ended = ChainState { height: 1, parent: next.digest, timestamp: 10 };
    for (mode, taken, expected) in [
        (ConfirmationMode::Soft, true, AfterSubmit::Archive),
        (ConfirmationMode::Soft, false, AfterSubmit::AwaitTick),
        (ConfirmationMode::Canonical, true, AfterSubmit::Flush),
        (ConfirmationMode::Canonical, false, AfterSubmit::PauseThenTick(1_000)),
    ] {
        let mut chain = start;
        assert_eq!(after_submit(mode, &mut chain, &next, taken), expected);
        assert_eq!(chain, if taken { ended } else { start });
    }
    let mut chain = start;
    after_submit(ConfirmationMode::Soft, &mut chain, &block(2, 20), true);
    assert_eq!(chain, start);
}

#[test]
fn flushes_are_reported_or_recovered() {
    assert_eq!(
        after_flush(Fetched::Found(cursor(3))),
        AfterFlush::Report(cursor(3))
    );
    assert_eq!(after_flush(Fetched::Nothing), AfterFlush::AwaitTick);
    assert_eq!(after_flush(Fetched::Failed), AfterFlush::PauseThenRecover(1_000));
    assert_eq!(after_recovery(true), AfterRecovery::Report);
    assert_eq!(after_recovery(false), AfterRecovery::PauseThenRecover(1_000));
}

#[test]
fn unpublished_batches_are_not_replayed_at_startup() {
    assert_eq!(
        startup(ConfirmationMode::Soft),
        vec![
            StartupStep::RestoreBuilder,
            StartupStep::RestoreProducer,
            StartupStep::ServeHistory,
            StartupStep::RunPublisher,
            StartupStep::ArchivePending,
            StartupStep::RestoreProducer,
            StartupStep::Produce,
        ]
    );
    assert_eq!(
        startup(ConfirmationMode::Canonical),
        vec![
            StartupStep::Recover,
            StartupStep::RestoreBuilder,
            StartupStep::RestoreProducer,
            StartupStep::ServeHistory,
            StartupStep::Produce,
        ]
    );
    for mode in [ConfirmationMode::Soft, ConfirmationMode::Canonical] {
        assert!(!startup(mode).contains(&StartupStep::ReplayUnpublished));
    }
}

fn sequencer_file(mode: ConfirmationMode, queue: usize, concurrency: usize) -> SequencerFile {
    SequencerFile {
        storage_dir: String::new(),
        partition_prefix: String::new(),
        worker_threads: 2,
        log_level: String::new(),
        history_listen: String::new(),
        signer_seed: 0,
        private_key: None,
        batch: BatchConfig::default(),
        celestia: CelestiaConfig::default(),
        block_time_ms: 500,
        confirmation_mode: mode,
        publish_queue: queue,
        publish_concurrency: concurrency,
        serve_payloads: true,
    }
}

#[test]
fn plans_have_a_pipeline_in_soft_mode_only() {
    let soft = plan(&sequencer_file(ConfirmationMode::Soft, 1024, 8));
    assert_eq!(soft.publish_queue, Some(1024));
    assert_eq!(soft.publish_concurrency, Some(8));
    assert!(soft.soft_status && soft.serve_payloads);
    assert_eq!(soft.block_time_ms, 500);
    let least = plan(&sequencer_file(ConfirmationMode::Soft, 0, 0));
    assert_eq!(least.publish_queue, Some(1));
    assert_eq!(least.publish_concurrency, Some(1));
    let canonical = plan(&sequencer_file(ConfirmationMode::Canonical, 1024, 8));
    assert_eq!(canonical.publish_queue, None);
    assert_eq!(canonical.publish_concurrency, None);
    assert!(!canonical.soft_status);
    assert_eq!(canonical.mode, ConfirmationMode::Canonical);
}

#[test]
fn limits_grow_with_concurrency() {
    assert_eq!(
        PublishLimits::new(8),
        PublishLimits { broadcasts: 8, confirmations: 32, confirm_queue: 512 }
    );
    assert_eq!(
        PublishLimits::new(0),
        PublishLimits { broadcasts: 1, confirmations: 4, confirm_queue: 64 }
    );
    assert_eq!(
        PublishLimits::new(usize::MAX / 4 + 1),
        PublishLimits {
            broadcasts: usize::MAX / 4 + 1,
            confirmations: usize::MAX,
            confirm_queue: usize::MAX
        }
    );
    assert!(may_start(7, 8));
    assert!(!may_start(8, 8));
}

const BLOB: BlobId = BlobId { namespace: [0x0a; 29], commitment: [0x0b; 32] };

#[test]
fn publications_run_until_they_are_recorded() {
    let blocks = [block(1, 10), block(2, 20)];
    let mut index = SoftStatusIndex::new();
    index.archive(&soft(6, &blocks, 100));

    let (task, action) = Publication::new(soft(6, &blocks, 100), BLOB, 125);
    assert_eq!(action, Action::Broadcast { after_ms: 0 });
    let (task, action) = task.step(&mut index, Event::BroadcastFailed);
    assert_eq!(action, Action::Broadcast { after_ms: 1_000 });
    let (task, action) = task.step(
        &mut index,
        Event::BroadcastAccepted { started_at: 130, at: 150, hash: vec![0xaa] },
    );
    assert_eq!(action, Action::Confirm);
    let (task, action) = task.step(&mut index, Event::ConfirmationFailed);
    assert_eq!(action, Action::Broadcast { after_ms: 1_000 });
    let (task, action) = task.step(
        &mut index,
        Event::BroadcastAccepted { started_at: 160, at: 190, hash: vec![0x01, 0xff] },
    );
    assert_eq!(action, Action::Confirm);
    let (task, action) = task.step(&mut index, Event::Confirmed { at: 250, height: 77 });
    assert_eq!(action, Action::LookUpTime { height: 77, timeout_ms: 2_000 });
    assert_eq!(publication_report(&task), None);
    let (task, action) = task.step(&mut index, Event::BlockTime { at: 260, time: Some(240) });
    assert_eq!(
        action,
        Action::Record(BatchCursor {
            sequence: 6,
            blob_ref: BlobRef { height: 77, namespace: [0x0a; 29], commitment: [0x0b; 32] },
            payload_hash: soft(6, &blocks, 100).payload_hash,
        })
    );
    assert_eq!(index.published_head(), None);
    let report = publication_report(&task).unwrap();
    assert_eq!((report.first_height, report.last_height), (1, 2));
    assert_eq!(report.block_count, 2);
    assert_eq!(report.oldest_publish_latency_ms, Some(230));
    assert_eq!(report.newest_publish_latency_ms, Some(220));
    assert_eq!(report.oldest_queued_for_ms, 115);
    assert_eq!(report.newest_queued_for_ms, 105);
    assert_eq!(report.publish_roundtrip_ms, 135);
    assert_eq!(report.oldest_queued_for_ms + report.publish_roundtrip_ms, 260 - 10);
    assert_eq!(report.newest_queued_for_ms + report.publish_roundtrip_ms, 260 - 20);
    assert_eq!(report.commit_latency_ms, 90);
    assert_eq!(report.confirmation_wait_ms, 60);
    let (task, action) = task.step(&mut index, Event::Recorded(true));
    assert_eq!(action, Action::Finish);
    assert!(matches!(task.phase, Phase::Finished));

    assert_eq!(index.published_head(), Some(2));
    let first = index.commit_height(1).unwrap();
    assert_eq!(first.tx_hash, "01ff");
    assert_eq!(first.pfb_broadcasted_at_ms, 190);
    assert_eq!(first.celestia_committed_at_ms, 250);
    assert_eq!(first.celestia_block_time_ms, Some(240));
    assert_eq!(first.publish_latency_ms, Some(230));
    assert_eq!(first.backend_commit_latency_ms, 240);
    assert_eq!(first.batch_wait_ms, 60);
    assert_eq!(first.soft_to_pfb_broadcast_ms, 90);
    assert_eq!(first.broadcast_latency_ms, 30);
    assert_eq!(first.confirmation_wait_ms, 60);
    let second = index.commit_height(2).unwrap();
    assert_eq!(second.publish_latency_ms, Some(220));
    assert_eq!(second.backend_commit_latency_ms, 230);
}

#[test]
fn unrecorded_publications_publish_nothing() {
    let blocks = [block(5, 5_000)];
    let mut index = SoftStatusIndex::new();
    index.archive(&soft(6, &blocks, 9_000));
    let (task, _) = Publication::new(soft(6, &blocks, 9_000), BLOB, 4_999);
    let accepted = Event::BroadcastAccepted { started_at: 10, at: 9, hash: vec![] };
    let (task, _) = task.step(&mut index, accepted);
    let (task, _) = task.step(&mut index, Event::Confirmed { at: 8, height: 1 });
    let (task, _) = task.step(&mut index, Event::BlockTime { at: 7, time: None });
    let report = publication_report(&task).unwrap();
    assert_eq!(report.oldest_publish_latency_ms, None);
    assert_eq!(report.oldest_queued_for_ms, 0);
    assert_eq!(report.publish_roundtrip_ms, 0);
    assert_eq!(report.commit_latency_ms, 0);
    let (task, action) = task.step(&mut index, Event::Recorded(false));
    assert_eq!(action, Action::Finish);
    assert_eq!(publication_report(&task), None);
    assert!(index.commit_height(5).is_none());
    let (_, action) = task.step(&mut index, Event::Recorded(true));
    assert_eq!(action, Action::Finish);
    assert!(index.commit_height(5).is_none());
}

#[test]
fn unexpected_events_end_a_publication() {
    let mut index = SoftStatusIndex::new();
    let (task, _) = Publication::new(soft(6, &[block(1, 1)], 0), BLOB, 0);
    let (task, action) = task.step(&mut index, Event::Confirmed { at: 1, height: 1 });
    assert_eq!(action, Action::Finish);
    assert!(matches!(task.phase, Phase::Finished));
}

#[test]
fn header_times_are_kept_in_milliseconds() {
    let mut times = HeaderTimes::new();
    assert_eq!(times.known(5), None);
    assert_eq!(times.learn(5, 1_700_000_000_123_456_789), Some(1_700_000_000_123));
    assert_eq!(times.known(5), Some(1_700_000_000_123));
    assert_eq!(times.learn(6, -1_000_000), None);
    assert_eq!(times.known(6), None);
    assert_eq!(times.learn(7, -999_999), Some(0));
    assert_eq!(times.known(7), Some(0));
    for nanos in [-5_000_000i128, -1, 0, 999_999, 1_000_000, i128::MAX, i128::MIN] {
        assert_eq!(whole_millis(nanos), u64::try_from(nanos / 1_000_000).ok());
    }
}

fn index_with(blocks: &[Block], published: &[u64]) -> SoftStatusIndex {
    let mut index = SoftStatusIndex::new();
    index.archive(&soft(4, blocks, 100));
    for height in published {
        index.publish_height(*height, commit("tx"));
    }
    index
}

#[test]
fn heads_are_answered() {
    let head = |head| Reply::Body(HeadResponse { head });
    assert_eq!(history_head(Fetched::Found(3)), head(Some(3)));
    assert_eq!(history_head(Fetched::Nothing), head(None));
    assert_eq!(history_head(Fetched::Failed), Reply::InternalError);
    assert_eq!(history_archived_head(Fetched::Found(3)), head(Some(3)));
    assert_eq!(history_archived_head(Fetched::Failed), Reply::InternalError);
    let index = index_with(&[block(7, 70), block(8, 80)], &[7]);
    assert_eq!(block_archived_head(Some(&index), Fetched::Nothing), head(Some(8)));
    assert_eq!(block_published_head(Some(&index), Fetched::Nothing), head(Some(7)));
    assert_eq!(block_archived_head(None, Fetched::Found(3)), head(Some(3)));
    assert_eq!(block_archived_head(None, Fetched::Failed), Reply::InternalError);
    assert_eq!(block_published_head(None, Fetched::Found(2)), head(Some(2)));
    assert_eq!(block_published_head(None, Fetched::Failed), Reply::InternalError);
}

#[test]
fn batch_statuses_are_answered() {
    assert!(matches!(
        history_status(Fetched::Found(BatchStatus::Archived)),
        Reply::Body(StatusResponse::Archived { soft: None })
    ));
    match history_status(Fetched::Found(BatchStatus::Published(cursor(4)))) {
        Reply::Body(StatusResponse::Published { cursor, soft: None, commit: None }) => {
            assert_eq!(cursor.sequence, 4);
            assert_eq!(cursor.blob_ref.height, 77);
            assert_eq!(cursor.blob_ref.namespace, "0a".repeat(29));
            assert_eq!(cursor.blob_ref.commitment, "0b".repeat(32));
            assert_eq!(cursor.payload_hash, "0c".repeat(32));
        }
        _ => panic!("expected a published batch"),
    }
    assert!(matches!(history_status(Fetched::Nothing), Reply::NotFound));
    assert!(matches!(history_status(Fetched::Failed), Reply::InternalError));
    assert!(matches!(
        history_cursor(Fetched::Found(cursor(9))),
        Reply::Body(CursorResponse { sequence: 9, .. })
    ));
    assert!(matches!(history_cursor(Fetched::Nothing), Reply::NotFound));
    assert!(matches!(history_cursor(Fetched::Failed), Reply::InternalError));
}

#[test]
fn block_statuses_are_answered() {
    let index = index_with(&[block(7, 70), block(8, 180)], &[7]);
    assert_eq!(block_status_batch(Some(&index), 7), Some(4));
    assert_eq!(block_status_batch(Some(&index), 9), None);
    assert_eq!(block_status_batch(None, 9), Some(9));

    let published = || Fetched::Found(BatchStatus::Published(cursor(4)));
    match block_status(Some(&index), 7, published()) {
        Reply::Body(StatusResponse::Published { cursor, soft, commit }) => {
            assert_eq!(cursor.sequence, 4);
            assert_eq!(
                soft,
                Some(SoftConfirmResponse {
                    block_timestamp_ms: 70,
                    soft_confirmed_at_ms: 100,
                    soft_latency_ms: 30
                })
            );
            let commit = commit.unwrap();
            assert_eq!(commit.tx_hash, "tx");
            assert_eq!(commit.pfb_broadcasted_at_ms, 1);
            assert_eq!(commit.celestia_committed_at_ms, 2);
            assert_eq!(commit.celestia_block_time_ms, Some(3));
            assert_eq!(commit.publish_latency_ms, Some(4));
            assert_eq!(commit.backend_commit_latency_ms, 5);
            assert_eq!(commit.batch_wait_ms, 6);
            assert_eq!(commit.soft_to_pfb_broadcast_ms, 7);
            assert_eq!(commit.broadcast_latency_ms, 8);
            assert_eq!(commit.confirmation_wait_ms, 9);
        }
        _ => panic!("expected a published block"),
    }
    match block_status(Some(&index), 8, published()) {
        Reply::Body(StatusResponse::Archived { soft }) => {
            assert_eq!(soft.unwrap().soft_latency_ms, 0);
        }
        _ => panic!("expected an archived block"),
    }
    assert!(matches!(
        block_status(Some(&index), 7, Fetched::Found(BatchStatus::Archived)),
        Reply::Body(StatusResponse::Archived { soft: Some(_) })
    ));
    assert!(matches!(
        block_status(Some(&index), 9, published()),
        Reply::NotFound
    ));
    assert!(matches!(
        block_status(Some(&index), 7, Fetched::Nothing),
        Reply::NotFound
    ));
    assert!(matches!(
        block_status(Some(&index), 7, Fetched::Failed),
        Reply::InternalError
    ));
    assert!(matches!(
        block_status(None, 9, published()),
        Reply::Body(StatusResponse::Published { soft: None, commit: None, .. })
    ));
    assert!(matches!(block_status(None, 9, Fetched::Failed), Reply::InternalError));
}

#[test]
fn payloads_are_served_where_they_are_to_be() {
    assert_eq!(
        history_payload(true, Fetched::Found(vec![1, 2])),
        Reply::Body(vec![1, 2])
    );
    assert_eq!(history_payload(true, Fetched::Nothing), Reply::NotFound);
    assert_eq!(history_payload(true, Fetched::Failed), Reply::InternalError);
    assert_eq!(
        history_payload(false, Fetched::Found(vec![1, 2])),
        Reply::NotFound
    );
    assert_eq!(history_payload(false, Fetched::Failed), Reply::NotFound);
}

#[test]
fn heights_are_queried_in_decimal_or_hexadecimal() {
    assert_eq!(parse_u64_query("0"), Some(0));
    assert_eq!(parse_u64_query("18446744073709551615"), Some(u64::MAX));
    assert_eq!(parse_u64_query("18446744073709551616"), None);
    assert_eq!(parse_u64_query("0x0000000000000010"), Some(16));
    assert_eq!(parse_u64_query("000000000000001f"), Some(31));
    assert_eq!(parse_u64_query("0000000000000010"), Some(10));
    assert_eq!(parse_u64_query("1f"), None);
    assert_eq!(parse_u64_query("latest"), None);
    for height in [0u64, 7, 0xdead_beef, u64::MAX] {
        assert_eq!(parse_u64_query(&height.to_string()), Some(height));
        let text = hex(&height.to_be_bytes());
        if text.parse::<u64>().is_err() {
            assert_eq!(parse_u64_query(&text), Some(height));
        }
    }
}

#[test]
fn indexed_blocks_are_served() {
    let index = index_with(&[block(7, 70), block(8, 80)], &[]);
    assert_eq!(block_height_query(&index, "latest"), Some(8));
    assert_eq!(block_height_query(&index, "7"), Some(7));
    assert_eq!(block_height_query(&index, "seven"), None);
    assert_eq!(
        block_get(true, &index, "latest"),
        Reply::Body(&encode(&block(8, 80)))
    );
    assert_eq!(block_get(true, &index, "7"), Reply::Body(&encode(&block(7, 70))));
    assert_eq!(block_get(true, &index, "9"), Reply::NotFound);
    assert_eq!(block_get(true, &index, "seven"), Reply::NotFound);
    assert_eq!(block_get(false, &index, "7"), Reply::NotFound);
    assert_eq!(
        block_get(true, &SoftStatusIndex::new(), "latest"),
        Reply::NotFound
    );
}

#[test]
fn queries_lead_to_batches_where_blocks_are_not_indexed() {
    assert_eq!(payload_sequence("latest", Fetched::Found(5)), Reply::Body(5));
    assert_eq!(payload_sequence("latest", Fetched::Nothing), Reply::NotFound);
    assert_eq!(payload_sequence("latest", Fetched::Failed), Reply::BadRequest);
    assert_eq!(payload_sequence("1", Fetched::Failed), Reply::Body(0));
    assert_eq!(payload_sequence("8", Fetched::Nothing), Reply::Body(7));
    assert_eq!(payload_sequence("0", Fetched::Found(5)), Reply::NotFound);
    assert_eq!(payload_sequence("seven", Fetched::Found(5)), Reply::NotFound);
}

#[test]
fn archived_blocks_are_served_as_encoded_blocks() {
    let payload = || Fetched::Found(archived(6, &[block(7, 70), block(8, 80)]).payload);
    assert_eq!(
        archived_block_get(true, "latest", payload(), &decode),
        Reply::Body(encode(&block(8, 80)))
    );
    assert_eq!(
        archived_block_get(true, "7", payload(), &decode),
        Reply::Body(encode(&block(7, 70)))
    );
    assert_eq!(archived_block_get(true, "9", payload(), &decode), Reply::NotFound);
    assert_eq!(archived_block_get(true, "seven", payload(), &decode), Reply::NotFound);
    assert_eq!(archived_block_get(false, "7", payload(), &decode), Reply::NotFound);
    assert_eq!(
        archived_block_get(true, "7", Fetched::Nothing, &decode),
        Reply::NotFound
    );
    assert_eq!(
        archived_block_get(true, "7", Fetched::Failed, &decode),
        Reply::InternalError
    );
    assert_eq!(
        archived_block_get(true, "latest", Fetched::Found(vec![1]), &decode),
        Reply::InternalError
    );
    let empty = encode_block_batch(&vec![], &encode);
    assert_eq!(
        archived_block_get(true, "latest", Fetched::Found(empty), &decode),
        Reply::NotFound
    );
    let strange = vec![0, 0, 0, 0, 0, 0, 0, 1, 0, 0, 0, 0, 0, 0, 0, 1, 9];
    assert_eq!(
        archived_block_get(true, "7", Fetched::Found(strange), &decode),
        Reply::InternalError
    );
}

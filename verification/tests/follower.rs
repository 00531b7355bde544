use alto_coro::application::Update;
use alto_coro::archive::{
    layout, prune_target, Collection, ImmutableLayout, Layout, PrunableLayout,
};
use alto_coro::crypto::sha256;
use alto_coro::engine::engine_settings;
use alto_coro::feeder::{
    handle_message, process_stream, try_handle_message, try_process_stream, AfterStream,
    Certificate, Error, Handled, InvalidSignature, Message, Streamed,
};
use alto_coro::follower::{
    checkpoint, try_checkpoint, Config, InvalidCheckpoint, Newest, Start,
};
use alto_coro::progress::{format_eta, format_eta_maybe, Processed, Progress};
use alto_coro::resolver::{Fetcher, Key, Query, Response};
use alto_coro::types::{Block, Context, Round};

/// The whole seconds that the remaining work takes at a rate, where it gives any.
fn seconds(remaining: u64, rate: f64) -> Option<u64> {
    if !rate.is_finite() || rate <= 0.0 {
        return None;
    }
    Some((remaining as f64 / rate) as u64)
}

fn block(height: u64) -> Block {
    Block {
        context: Context {
            round: Round { epoch: 0, view: height },
            leader: [0u8; 32],
            parent: (height.saturating_sub(1), [0u8; 32]),
        },
        parent: [0u8; 32],
        height,
        timestamp: height * 100,
        digest: sha256(&height.to_be_bytes()),
    }
}

#[test]
fn eta_is_unknown_when_rate_is_zero_and_remaining_non_zero() {
    assert_eq!(format_eta(42, seconds(42, 0.0)), "unknown");
}

#[test]
fn eta_is_zero_when_no_remaining_work() {
    assert_eq!(format_eta(0, seconds(0, 0.0)), "0s");
}

#[test]
fn eta_is_unknown_when_remaining_is_unknown() {
    assert_eq!(format_eta_maybe(None, seconds(0, 123.0)), "unknown");
}

#[test]
fn eta_leaves_out_units_that_are_zero() {
    let eta = |secs: u64| format_eta_maybe(Some(1), Some(secs));
    assert_eq!(eta(0), "0s");
    assert_eq!(eta(59), "59s");
    assert_eq!(eta(60), "1m00s");
    assert_eq!(eta(3_599), "59m59s");
    assert_eq!(eta(3_600), "1h00m00s");
    assert_eq!(eta(3_661), "1h01m01s");
    assert_eq!(eta(360_000), "100h00m00s");
    assert_eq!(eta(u64::MAX), "5124095576030431h00m15s");
    assert_eq!(format_eta(600, seconds(600, 0.5)), "20m00s");
}

#[test]
fn progress_counts_up_to_the_tip() {
    let mut progress = Progress::new(None);
    assert_eq!(
        progress.handle(&Update::Block(block(4))),
        Some(Processed { height: 4, remaining: None, prune_to: None })
    );
    assert_eq!(progress.handle(&Update::Tip(10)), None);
    assert_eq!(progress.tip, Some(10));
    let remaining = |progress: &mut Progress, height| {
        progress.handle(&Update::Block(block(height))).unwrap().remaining
    };
    assert_eq!(remaining(&mut progress, 4), Some(6));
    assert_eq!(remaining(&mut progress, 10), Some(0));
    assert_eq!(remaining(&mut progress, 11), Some(0));
}

#[test]
fn pruning_keeps_the_configured_depth() {
    let prune = |depth, height| {
        Progress::new(depth).handle(&Update::Block(block(height))).unwrap().prune_to
    };
    assert_eq!(prune(Some(100), 20_000), Some(19_900));
    assert_eq!(prune(Some(100), 20_001), None);
    assert_eq!(prune(Some(10_000), 10_000), None);
    assert_eq!(prune(Some(50_000), 10_000), None);
    assert_eq!(prune(Some(0), 10_000), Some(10_000));
    assert_eq!(prune(Some(0), 0), None);
    assert_eq!(prune(None, 20_000), None);
}

fn certified(certificate: Certificate, verified: bool) -> Message {
    Message::Certified {
        certificate,
        round: Round { epoch: 0, view: 1 },
        block: block(1),
        verified,
    }
}

#[test]
fn certificates_are_taken_when_they_verify() {
    for certificate in [Certificate::Notarization, Certificate::Finalization] {
        let expected = Handled::CacheAndReport {
            certificate,
            round: Round { epoch: 0, view: 1 },
            block: block(1),
        };
        assert_eq!(handle_message(&certified(certificate, true)), expected);
        assert_eq!(try_handle_message(&certified(certificate, true)), Ok(expected));
        assert_eq!(
            try_handle_message(&certified(certificate, false)),
            Err(InvalidSignature { certificate, height: 1 })
        );
    }
    assert_eq!(handle_message(&Message::Seed { view: 3 }), Handled::Ignore);
    assert_eq!(try_handle_message(&Message::Seed { view: 3 }), Ok(Handled::Ignore));
}

#[test]
fn invalid_certificates_are_named() {
    let message = |certificate| InvalidSignature { certificate, height: 1 }.message();
    assert_eq!(
        message(Certificate::Notarization),
        "invalid notarization signature for height 1"
    );
    assert_eq!(
        message(Certificate::Finalization),
        "invalid finalization signature for height 1"
    );
}

#[test]
fn streams_are_opened_again() {
    let reconnect = |streamed| match process_stream(streamed) {
        AfterStream::Reconnect { error, after_ms } => {
            assert_eq!(after_ms, 1_000);
            error.map(|error| error.message())
        }
        _ => panic!("expected to reconnect"),
    };
    assert_eq!(
        reconnect(Streamed::NotConnected("refused".to_string())).as_deref(),
        Some("failed to connect: refused")
    );
    assert_eq!(
        reconnect(Streamed::Broken("reset".to_string())).as_deref(),
        Some("stream error: reset")
    );
    assert_eq!(reconnect(Streamed::Ended), None);
    assert!(matches!(
        process_stream(Streamed::Item(certified(Certificate::Finalization, true))),
        AfterStream::Read(Handled::CacheAndReport { .. })
    ));
    assert!(matches!(
        process_stream(Streamed::Item(Message::Seed { view: 1 })),
        AfterStream::Read(Handled::Ignore)
    ));
    assert!(matches!(
        try_process_stream(Streamed::Item(certified(Certificate::Finalization, true))),
        Ok(AfterStream::Read(Handled::CacheAndReport { .. }))
    ));
    assert!(matches!(
        try_process_stream(Streamed::Ended),
        Ok(AfterStream::Reconnect { error: None, after_ms: 1_000 })
    ));
    assert_eq!(
        try_process_stream(Streamed::Item(certified(Certificate::Finalization, false))).err(),
        Some(InvalidSignature { certificate: Certificate::Finalization, height: 1 })
    );
    assert!(matches!(Error::Connect(String::new()), Error::Connect(_)));
}

#[test]
fn keys_are_asked_for_and_answered_in_kind() {
    let fetcher = Fetcher::new("client");
    assert_eq!(fetcher.0, "client");
    let digest = sha256(b"block");
    let by_digest = Key::Block(digest);
    let by_height = Key::Finalized { height: 5 };
    let by_round = Key::Notarized { round: Round { epoch: 9, view: 3 } };
    assert_eq!(fetcher.query(&by_digest), Query::BlockByDigest(digest));
    assert_eq!(fetcher.query(&by_height), Query::BlockByIndex(5));
    assert_eq!(fetcher.query(&by_round), Query::NotarizedByIndex(3));

    let responses: [fn() -> Response; 4] = [
        || Response::Block(vec![1]),
        || Response::Finalized(vec![2]),
        || Response::Notarized(vec![3]),
        || Response::Failed,
    ];
    for (key, kind, value) in [(by_digest, 0, 1), (by_height, 1, 2), (by_round, 2, 3)] {
        for (i, response) in responses.iter().enumerate() {
            let expected = if i == kind { Some(vec![value]) } else { None };
            assert_eq!(fetcher.value(&key, response()), expected);
        }
    }
}

fn config() -> Config {
    Config {
        source: "http://source".to_string(),
        identity: "0aff".to_string(),
        directory: "dir".to_string(),
        worker_threads: 2,
        signature_threads: 2,
        log_level: "info".to_string(),
        metrics_port: 9090,
        mailbox_size: 16,
        max_repair: 256,
        fetch_retry_timeout_ms: 100,
        tip: true,
        pruning_depth: None,
    }
}

#[test]
fn configurations_need_some_of_everything() {
    assert!(config().is_valid());
    assert!(!Config { worker_threads: 0, ..config() }.is_valid());
    assert!(!Config { signature_threads: 0, ..config() }.is_valid());
    assert!(!Config { mailbox_size: 0, ..config() }.is_valid());
    assert!(!Config { max_repair: 0, ..config() }.is_valid());
    assert_eq!(config().identity_bytes(), vec![0x0a, 0xff]);
    assert_eq!(config().try_identity_bytes(), Some(vec![0x0a, 0xff]));
    let wrong = Config { identity: "identity".to_string(), ..config() };
    assert_eq!(wrong.try_identity_bytes(), None);
}

#[test]
fn only_a_fresh_follower_starts_from_the_tip() {
    assert!(config().starts_from_tip(None));
    assert!(config().starts_from_tip(Some(0)));
    assert!(!config().starts_from_tip(Some(1)));
    let backfilling = Config { tip: false, ..config() };
    assert!(!backfilling.starts_from_tip(None));
    assert_eq!(checkpoint(Newest::Finalized { verified: true }), Start::FromFloor);
    assert_eq!(checkpoint(Newest::Unavailable), Start::Backfill);
    assert_eq!(
        try_checkpoint(Newest::Finalized { verified: true }),
        Ok(Start::FromFloor)
    );
    assert_eq!(
        try_checkpoint(Newest::Finalized { verified: false }),
        Err(InvalidCheckpoint)
    );
    assert_eq!(try_checkpoint(Newest::Unavailable), Ok(Start::Backfill));
}

fn prunable(collection: Collection) -> PrunableLayout {
    match layout(collection, Some(1)) {
        Layout::Prunable(layout) => layout,
        Layout::Immutable(_) => panic!("expected a prunable archive"),
    }
}

fn immutable(collection: Collection) -> ImmutableLayout {
    match layout(collection, None) {
        Layout::Immutable(layout) => layout,
        Layout::Prunable(_) => panic!("expected an immutable archive"),
    }
}

#[test]
fn archives_are_prunable_when_pruning_is_enabled() {
    let certificates = prunable(Collection::Certificates);
    assert_eq!(
        certificates.key_partition,
        "follower-prunable-finalizations-by-height-key"
    );
    assert_eq!(certificates.items_per_section, 4_096);
    assert_eq!(certificates.compression, Some(3));
    assert_eq!(certificates.replay_buffer, 8 * 1024 * 1024);
    let blocks = immutable(Collection::Blocks);
    assert_eq!(
        blocks.freezer_value_partition,
        "follower-immutable-finalized-blocks-value"
    );
    assert_eq!(blocks.freezer_table_initial_size, 2u32.pow(14));
    assert_eq!(blocks.freezer_table_resize_chunk_size, 2u32.pow(16));
    assert_eq!(blocks.freezer_table_resize_frequency, 4);
    assert_eq!(blocks.freezer_value_target_size, 1 << 30);
    assert_eq!(blocks.items_per_section, 262_144);
    assert_eq!(prune_target(&Layout::Prunable(certificates), 9), Some(9));
    assert_eq!(prune_target(&Layout::Immutable(blocks), 9), None);
}

#[test]
fn no_two_archives_share_a_partition() {
    let mut partitions = Vec::new();
    for collection in [Collection::Certificates, Collection::Blocks] {
        let p = prunable(collection);
        partitions.extend([p.key_partition, p.value_partition]);
        let i = immutable(collection);
        partitions.extend([
            i.metadata_partition,
            i.freezer_table_partition,
            i.freezer_key_partition,
            i.freezer_value_partition,
            i.ordinal_partition,
        ]);
    }
    let count = partitions.len();
    partitions.sort();
    partitions.dedup();
    assert_eq!(partitions.len(), count);
}

#[test]
fn engines_are_set_up_by_the_configuration() {
    let settings = engine_settings(16, 256, Some(50));
    assert_eq!(settings.buffer.mailbox_size, 16);
    assert_eq!(settings.buffer.deque_size, 10);
    assert!(!settings.buffer.priority);
    assert!(matches!(settings.certificates, Layout::Prunable(_)));
    assert!(matches!(settings.blocks, Layout::Prunable(_)));
    assert_eq!(settings.marshal.partition_prefix, "follower-marshal");
    assert_eq!(settings.marshal.mailbox_size, 16);
    assert_eq!(settings.marshal.max_repair, 256);
    assert_eq!(settings.marshal.max_pending_acks, 1_024);
    assert_eq!(settings.marshal.view_retention_timeout, 2_560);
    assert_eq!(settings.pruning_depth, Some(50));
    assert!(matches!(
        engine_settings(16, 256, None).blocks,
        Layout::Immutable(_)
    ));
}

use alto_coro::application::{Application, ProposeError, Reported, Update, Verdict, MAX_BLOCK_TIMESTAMP_MS};
use alto_coro::backfiller::{Decision, Entry, State, ENTRY_SIZE};
use alto_coro::crypto::{polynomial_bytes, sha256, share_bytes, KeyError, PrivateKey};
use alto_coro::hex::hex32;
use alto_coro::types::{Block, BlockHeader, Context, Digest, Round};
use alto_coro::validator::{
    load_peers, messages_per_second, pool_parallelism, try_pool_parallelism, PeersError, PoolError,
    PoolParallelism, BROADCASTER_CHANNEL, MARSHAL_CHANNEL, PENDING_CHANNEL, RECOVERED_CHANNEL,
    RESOLVER_CHANNEL,
};

const EPOCH: u64 = 0;

fn seal(header: &BlockHeader) -> Digest {
    let mut bytes = Vec::new();
    bytes.extend_from_slice(&header.context.round.epoch.to_be_bytes());
    bytes.extend_from_slice(&header.context.round.view.to_be_bytes());
    bytes.extend_from_slice(&header.context.leader);
    bytes.extend_from_slice(&header.context.parent.0.to_be_bytes());
    bytes.extend_from_slice(&header.context.parent.1);
    bytes.extend_from_slice(&header.parent);
    bytes.extend_from_slice(&header.height.to_be_bytes());
    bytes.extend_from_slice(&header.timestamp.to_be_bytes());
    sha256(&bytes)
}

fn new_block(context: Context, parent: Digest, height: u64, timestamp: u64) -> Block {
    let header = BlockHeader { context, parent, height, timestamp };
    header.seal(seal(&header))
}

fn test_context(view: u64, parent: (u64, Digest)) -> Context {
    Context {
        round: Round { epoch: EPOCH, view },
        leader: PrivateKey::from_seed(view).public_key(),
        parent,
    }
}

fn test_block(view: u64, height: u64, label: &[u8]) -> Block {
    new_block(
        Context {
            round: Round { epoch: EPOCH, view },
            leader: PrivateKey::from_seed(view).public_key(),
            parent: (
                view.saturating_sub(1),
                sha256(format!("parent-{view}").as_bytes()),
            ),
        },
        sha256(label),
        height,
        height,
    )
}

fn application() -> Application {
    Application::new(EPOCH, seal)
}

const NOW: u64 = 1_700_000_000_000;

fn parent_at(timestamp: u64) -> Block {
    new_block(test_context(1, (0, [0u8; 32])), sha256(b"genesis"), 1, timestamp)
}

fn child_of(parent: &Block, timestamp: u64) -> Block {
    new_block(
        test_context(2, (1, parent.digest)),
        parent.digest,
        parent.height + 1,
        timestamp,
    )
}

#[test]
fn verify_waits_for_far_future_block_timestamp() {
    let now = NOW;
    let parent = parent_at(now);
    let block = child_of(&parent, now + 5_000);
    let verdict = application().verify(Some(&block), Some(&parent));
    match verdict {
        Verdict::AcceptAt(finished) => {
            assert!(finished > now);
            assert!(finished >= block.timestamp);
        }
        Verdict::Reject => panic!("rejected"),
    }
    assert_eq!(verdict, Verdict::AcceptAt(now + 5_000));
}

#[test]
fn verify_rejects_equal_parent_timestamp() {
    let now = NOW;
    let parent = parent_at(now);
    let block = child_of(&parent, now);
    assert_eq!(
        application().verify(Some(&block), Some(&parent)),
        Verdict::Reject
    );
}

#[test]
fn verify_returns_immediately_for_mature_block_timestamp() {
    let now = NOW + 10;
    let parent = parent_at(now - 1);
    let block = child_of(&parent, now);
    match application().verify(Some(&block), Some(&parent)) {
        Verdict::AcceptAt(deadline) => assert!(deadline.saturating_sub(now) < 10),
        Verdict::Reject => panic!("rejected"),
    }
}

#[test]
fn propose_uses_parent_timestamp_plus_one_when_clock_is_behind() {
    let now = NOW;
    let parent = parent_at(now + 5_000);
    let proposal = application()
        .propose(test_context(2, (1, parent.digest)), Some(&parent), now)
        .expect("expected proposal");
    assert_eq!(proposal.parent, parent.digest);
    assert_eq!(proposal.height, parent.height + 1);
    assert_eq!(proposal.timestamp, parent.timestamp + 1);
}

#[test]
fn verify_rejects_timestamp_above_maximum() {
    let parent = parent_at(NOW);
    let block = child_of(&parent, MAX_BLOCK_TIMESTAMP_MS + 1);
    assert_eq!(
        application().verify(Some(&block), Some(&parent)),
        Verdict::Reject
    );
}

#[test]
#[should_panic(expected = "proposed timestamp exceeded maximum")]
fn propose_panics_when_parent_timestamp_is_maximum() {
    let parent = parent_at(MAX_BLOCK_TIMESTAMP_MS);
    let proposal =
        application().try_propose(test_context(2, (1, parent.digest)), Some(&parent), NOW);
    if let Err(error) = proposal {
        panic!("{}", error.message());
    }
}

#[test]
fn proposals_fail_only_where_no_valid_block_exists() {
    let application = application();
    let context = test_context(2, (1, [0u8; 32]));
    assert_eq!(application.try_propose(context, None, NOW), Ok(None));
    assert_eq!(
        application.try_propose(context, Some(&parent_at(u64::MAX)), NOW),
        Err(ProposeError::ParentTimestampOverflow)
    );
    assert_eq!(
        ProposeError::ParentTimestampOverflow.message(),
        "parent timestamp overflowed"
    );
    assert_eq!(
        application.try_propose(context, Some(&parent_at(NOW)), MAX_BLOCK_TIMESTAMP_MS + 1),
        Err(ProposeError::TimestampExceeded)
    );
    let mut highest = parent_at(NOW);
    highest.height = u64::MAX;
    assert_eq!(
        application.try_propose(context, Some(&highest), NOW),
        Err(ProposeError::HeightOverflow)
    );
    assert_eq!(ProposeError::HeightOverflow.message(), "height overflow");
    let last = application
        .propose(context, Some(&parent_at(MAX_BLOCK_TIMESTAMP_MS - 1)), NOW)
        .expect("expected proposal");
    assert_eq!(last.timestamp, MAX_BLOCK_TIMESTAMP_MS);
}

#[test]
fn proposals_are_voted_for() {
    let application = application();
    for now in [0, NOW - 1, NOW, NOW + 1] {
        let parent = parent_at(NOW);
        let context = test_context(2, (1, parent.digest));
        let header = application.propose(context, Some(&parent), now).unwrap();
        let block = header.seal(seal(&header));
        assert_eq!(
            application.verify(Some(&block), Some(&parent)),
            Verdict::AcceptAt(block.timestamp)
        );
        assert!(block.timestamp >= now);
    }
}

#[test]
fn verify_needs_the_block_and_its_parent() {
    let application = application();
    let parent = parent_at(NOW);
    let block = child_of(&parent, NOW + 1);
    assert_eq!(application.verify(None, Some(&parent)), Verdict::Reject);
    assert_eq!(application.verify(Some(&block), None), Verdict::Reject);
}

#[test]
fn genesis_commits_to_its_message() {
    let genesis = application().genesis();
    assert_eq!(genesis.height, 0);
    assert_eq!(genesis.timestamp, 0);
    assert_eq!(genesis.parent, sha256(b"commonware is neat"));
    assert_eq!(genesis.context.round, Round { epoch: EPOCH, view: 0 });
    assert_eq!(genesis.context.leader, PrivateKey::from_seed(0).public_key());
    assert_eq!(genesis.context.parent, (0, [0u8; 32]));
    let header = BlockHeader {
        context: genesis.context,
        parent: genesis.parent,
        height: 0,
        timestamp: 0,
    };
    assert_eq!(genesis.digest, seal(&header));
}

#[test]
fn final_blocks_are_recorded_before_they_are_acknowledged() {
    let block = test_block(10, 10, b"view-10");
    let entry = Entry { height: 10, digest: block.digest };
    let mut uploads = State::new();

    let plain = application();
    assert_eq!(
        plain.report(&mut uploads, &Update::Block(block)),
        Reported { enqueue: None, acknowledge: true }
    );
    assert!(uploads.cached_block(&block.digest).is_none());

    let backfilling = application().with_backfiller();
    assert_eq!(backfilling.genesis(), plain.genesis());
    assert_eq!(
        backfilling.report(&mut uploads, &Update::Tip(11)),
        Reported { enqueue: None, acknowledge: false }
    );
    assert_eq!(
        backfilling.report(&mut uploads, &Update::Block(block)),
        Reported { enqueue: Some(entry), acknowledge: true }
    );
    assert!(uploads.cached_block(&block.digest).is_some());
    uploads.mark_uploaded(block.digest, 10);
    assert_eq!(
        backfilling.report(&mut uploads, &Update::Block(block)),
        Reported { enqueue: None, acknowledge: true }
    );
}

#[test]
fn test_upload_state_prunes_only_after_queue_floor_progress() {
    let mut uploads = State::new();

    let digest_10 = sha256(b"view-10");
    let digest_11 = sha256(b"view-11");
    let digest_12 = sha256(b"view-12");

    uploads.mark_uploaded(digest_11, 11);
    uploads.mark_uploaded(digest_12, 12);

    assert!(uploads.is_uploaded(&digest_11));
    assert!(uploads.is_uploaded(&digest_12));

    uploads.mark_uploaded(digest_10, 10);
    uploads.advance_queue_floor(10);

    assert!(uploads.is_uploaded(&digest_10));
    assert!(uploads.is_uploaded(&digest_11));
    assert!(uploads.is_uploaded(&digest_12));

    uploads.advance_queue_floor(12);

    assert!(!uploads.is_uploaded(&digest_10));
    assert!(!uploads.is_uploaded(&digest_11));
    assert!(uploads.is_uploaded(&digest_12));
}

#[test]
fn test_upload_state_allows_duplicate_pending_entries() {
    let mut uploads = State::new();
    let block = test_block(10, 10, b"view-10");
    let entry = Entry { height: block.height, digest: block.digest };

    assert!(uploads.record(&block).is_some());
    assert!(uploads.record(&block).is_some());
    uploads.mark_uploaded(entry.digest, entry.height);
    assert!(uploads.record(&block).is_none());
}

#[test]
fn test_upload_state_does_not_recache_already_uploaded_blocks() {
    let mut uploads = State::new();
    let block = test_block(7, 7, b"view-7");
    let digest = block.digest;

    assert!(uploads.record(&block).is_some());
    uploads.mark_uploaded(digest, block.height);
    assert!(uploads.cached_block(&digest).is_none());
    assert!(uploads.record(&block).is_none());
    assert!(uploads.cached_block(&digest).is_none());
}

#[test]
fn test_upload_state_eventually_drops_cached_block_after_failed_certificate_upload() {
    let mut uploads = State::new();
    let block = test_block(7, 7, b"view-7");
    let digest = block.digest;

    uploads.start_certificate_upload(digest);
    uploads.cache_block(block);
    uploads.finish_certificate_upload(&digest, None);

    assert!(uploads.cached_block(&digest).is_some());

    uploads.observe_finalization(8);
    assert!(uploads.cached_block(&digest).is_none());
}

#[test]
fn test_upload_state_prunes_cached_block_after_newer_finalization() {
    let mut uploads = State::new();
    let block = test_block(7, 7, b"view-7");
    let digest = block.digest;

    uploads.cache_block(block);
    assert!(uploads.cached_block(&digest).is_some());

    uploads.observe_finalization(8);
    assert!(uploads.cached_block(&digest).is_none());
}

#[test]
fn decisions_follow_uploads_and_certificates() {
    let mut uploads = State::new();
    let digest = sha256(b"view-3");
    assert_eq!(uploads.should_upload(&digest), Decision::Proceed);
    uploads.start_certificate_upload(digest);
    uploads.start_certificate_upload(digest);
    assert_eq!(uploads.should_upload(&digest), Decision::Wait);
    uploads.finish_certificate_upload(&digest, None);
    assert_eq!(uploads.should_upload(&digest), Decision::Wait);
    uploads.finish_certificate_upload(&digest, Some(3));
    assert_eq!(uploads.should_upload(&digest), Decision::Skip);
    assert!(uploads.is_uploaded(&digest));
}

#[test]
fn in_flight_block_keeps_itself_and_newer_blocks_cached() {
    let mut uploads = State::new();
    let old = test_block(4, 4, b"view-4");
    let flying = test_block(5, 5, b"view-5");
    let newer = test_block(6, 6, b"view-6");
    for block in [old, flying, newer] {
        uploads.cache_block(block);
    }
    uploads.start_certificate_upload(flying.digest);
    uploads.observe_finalization(9);
    assert!(uploads.cached_block(&old.digest).is_none());
    assert_eq!(uploads.cached_block(&flying.digest), Some(flying));
    assert_eq!(uploads.cached_block(&newer.digest), Some(newer));
    uploads.finish_certificate_upload(&flying.digest, Some(5));
    assert!(uploads.cached_block(&flying.digest).is_none());
    assert!(uploads.cached_block(&newer.digest).is_none());
}

#[test]
fn a_new_priority_takes_the_place_of_the_old_one() {
    let mut uploads = State::new();
    let digest = sha256(b"view-1");
    uploads.mark_uploaded(digest, 1);
    uploads.mark_uploaded(digest, 20);
    uploads.advance_queue_floor(10);
    assert!(uploads.is_uploaded(&digest));
    uploads.advance_queue_floor(21);
    assert!(!uploads.is_uploaded(&digest));
}

#[test]
fn uploads_below_the_floor_are_forgotten_in_any_order() {
    let mut uploads = State::new();
    for height in [5u64, 1, 9, 3, 7, 3] {
        uploads.mark_uploaded(sha256(&height.to_be_bytes()), height);
    }
    uploads.advance_queue_floor(6);
    for height in [1u64, 3, 5] {
        assert!(!uploads.is_uploaded(&sha256(&height.to_be_bytes())));
    }
    for height in [7u64, 9] {
        assert!(uploads.is_uploaded(&sha256(&height.to_be_bytes())));
    }
    uploads.advance_queue_floor(2);
    assert!(uploads.is_uploaded(&sha256(&7u64.to_be_bytes())));
}

#[test]
fn entries_are_written_and_read_back() {
    let entry = Entry { height: 0x0102_0304_0506_0708, digest: sha256(b"entry") };
    let mut bytes = vec![0xff];
    entry.write(&mut bytes);
    assert_eq!(bytes.len(), 1 + ENTRY_SIZE);
    assert_eq!(bytes[..9], [0xff, 1, 2, 3, 4, 5, 6, 7, 8]);
    assert_eq!(bytes[9..], entry.digest);
    assert_eq!(Entry::read(&bytes[1..]), Some(entry));
    assert_eq!(Entry::read(&bytes[2..]), None);
    bytes.push(7);
    assert_eq!(Entry::read(&bytes[1..]), Some(entry));
}

fn key_name(seed: u64) -> String {
    hex32(PrivateKey::from_seed(seed).public_key())
}

#[test]
fn peers_are_loaded_by_their_keys() {
    let own = PrivateKey::from_seed(2).public_key();
    let names = vec![key_name(1), key_name(2), key_name(1).to_uppercase(), key_name(3)];
    let peers = load_peers(&names, &vec![key_name(3), key_name(1)], &own)
        .ok()
        .expect("expected peers");
    let mut keys = peers.keys.clone();
    keys.sort();
    let mut expected = vec![
        PrivateKey::from_seed(1).public_key(),
        own,
        PrivateKey::from_seed(3).public_key(),
    ];
    expected.sort();
    assert_eq!(keys, expected);
    assert_eq!(
        peers.bootstrappers,
        vec![
            (PrivateKey::from_seed(3).public_key(), 3),
            (PrivateKey::from_seed(1).public_key(), 2)
        ]
    );
    assert_eq!(peers.own, 1);
}

fn peers_error(names: Vec<String>, bootstrappers: Vec<String>) -> PeersError {
    let own = PrivateKey::from_seed(2).public_key();
    match load_peers(&names, &bootstrappers, &own) {
        Ok(_) => panic!("expected an error"),
        Err(error) => error,
    }
}

#[test]
fn peers_fail_with_the_first_reason() {
    let good = vec![key_name(1), key_name(2)];
    let not_hex = "zz".to_string();
    let short = "00ff".to_string();
    assert_eq!(
        peers_error(vec![key_name(1), not_hex.clone(), short.clone()], vec![]),
        PeersError::PeerNotHex
    );
    assert_eq!(
        peers_error(vec![short.clone(), not_hex.clone()], vec![]),
        PeersError::PeerInvalid
    );
    assert_eq!(
        peers_error(good.clone(), vec![not_hex.clone()]),
        PeersError::BootstrapperNotHex
    );
    assert_eq!(
        peers_error(good.clone(), vec![key_name(1), short]),
        PeersError::BootstrapperInvalid
    );
    assert_eq!(
        peers_error(good, vec![key_name(9), not_hex]),
        PeersError::BootstrapperMissing
    );
    assert_eq!(
        peers_error(vec![key_name(1)], vec![key_name(1)]),
        PeersError::SelfMissing
    );
    assert_eq!(PeersError::PeerNotHex.message(), "Could not parse peer key");
    assert_eq!(PeersError::PeerInvalid.message(), "Peer key is invalid");
    assert_eq!(
        PeersError::BootstrapperNotHex.message(),
        "Could not parse bootstrapper key"
    );
    assert_eq!(
        PeersError::BootstrapperInvalid.message(),
        "Bootstrapper key is invalid"
    );
    assert_eq!(
        PeersError::BootstrapperMissing.message(),
        "Could not find bootstrapper in IPs"
    );
    assert_eq!(PeersError::SelfMissing.message(), "Could not find self in IPs");
}

#[test]
fn pools_count_the_threads_that_use_them() {
    assert_eq!(
        pool_parallelism(2, 3, 4, None, None),
        PoolParallelism { network: 5, storage: 9 }
    );
    assert_eq!(
        pool_parallelism(2, 3, 4, Some(7), None),
        PoolParallelism { network: 7, storage: 9 }
    );
    assert_eq!(
        try_pool_parallelism(2, 3, 4, None, None),
        Ok(PoolParallelism { network: 5, storage: 9 })
    );
    assert_eq!(
        try_pool_parallelism(2, 3, 4, Some(7), Some(8)),
        Ok(PoolParallelism { network: 7, storage: 8 })
    );
    assert_eq!(
        try_pool_parallelism(usize::MAX, 1, 0, Some(7), Some(8)),
        Err(PoolError::NetworkOverflow)
    );
    assert_eq!(
        try_pool_parallelism(usize::MAX - 1, 1, 1, None, None),
        Err(PoolError::StorageOverflow)
    );
    assert_eq!(try_pool_parallelism(0, 0, 3, Some(1), Some(1)), Err(PoolError::Zero));
    assert_eq!(
        PoolError::NetworkOverflow.message(),
        "network buffer pool parallelism overflowed"
    );
    assert_eq!(
        PoolError::StorageOverflow.message(),
        "storage buffer pool parallelism overflowed"
    );
    assert_eq!(PoolError::Zero.message(), "value must be non-zero");
}

#[test]
fn channels_that_carry_blocks_are_slower() {
    assert_eq!(messages_per_second(PENDING_CHANNEL), 128);
    assert_eq!(messages_per_second(RECOVERED_CHANNEL), 128);
    assert_eq!(messages_per_second(RESOLVER_CHANNEL), 128);
    assert_eq!(messages_per_second(BROADCASTER_CHANNEL), 8);
    assert_eq!(messages_per_second(MARSHAL_CHANNEL), 8);
}

#[test]
fn shares_are_read_from_text() {
    let mut share = vec![0u8; 33];
    share[32] = 1;
    let text = format!("00{}", hex32(share[1..].try_into().unwrap()));
    assert_eq!(share_bytes(&text), Ok(share));
    assert_eq!(share_bytes("not hex"), Err(KeyError::NotHex));
    assert_eq!(share_bytes(""), Err(KeyError::Invalid));
    assert_eq!(share_bytes(&"00".repeat(33)), Err(KeyError::Invalid));
    assert_eq!(share_bytes(&format!("{text}00")), Err(KeyError::Invalid));
}

#[test]
fn polynomials_are_read_for_a_number_of_participants() {
    // The constant polynomial that is the generator, shared between three.
    let generator = [
        "93e02b6052719f607dacd3a088274f65596bd0d09920b61ab5da61bbdc7f5049",
        "334cf11213945d57e5ac7d055d042b7e024aa2b2f08f0a91260805272dc51051",
        "c6e47ad4fa403b02b4510b647ae3d1770bac0326a805bbefd48056c8c121bdb8",
    ]
    .concat();
    let text = format!("000000000301{generator}");
    let found = polynomial_bytes(&text, 3).unwrap();
    assert_eq!(found.len(), 1 + 4 + 1 + 96);
    assert_eq!(found[..7], [0, 0, 0, 0, 3, 1, 0x93]);
    assert_eq!(polynomial_bytes(&text, 4), Ok(found));
    assert_eq!(polynomial_bytes(&text, 2), Err(KeyError::Invalid));
    assert_eq!(polynomial_bytes(&text[2..], 3), Err(KeyError::Invalid));
    assert_eq!(polynomial_bytes("0g", 3), Err(KeyError::NotHex));
}

#[test]
fn decisions_follow_the_history_of_calls() {
    let mut uploads = State::new();
    let digest = [7u8; 32];
    uploads.mark_uploaded(digest, 20);
    uploads.advance_queue_floor(10);
    assert_eq!(uploads.should_upload(&digest), Decision::Skip);
    // The last height counts, not the greatest one.
    uploads.mark_uploaded(digest, 5);
    assert_eq!(uploads.should_upload(&digest), Decision::Proceed);
    uploads.start_certificate_upload(digest);
    uploads.start_certificate_upload(digest);
    uploads.finish_certificate_upload(&digest, None);
    assert_eq!(uploads.should_upload(&digest), Decision::Wait);
    uploads.finish_certificate_upload(&digest, Some(10));
    assert_eq!(uploads.should_upload(&digest), Decision::Skip);
    // A floor that goes back changes nothing.
    uploads.advance_queue_floor(3);
    assert_eq!(uploads.should_upload(&digest), Decision::Skip);
    uploads.advance_queue_floor(11);
    assert_eq!(uploads.should_upload(&digest), Decision::Proceed);
}

#[test]
fn pruning_keeps_what_is_needed_and_nothing_else() {
    let mut uploads = State::new();
    let (old, held, new) =
        (test_block(1, 4, b"old"), test_block(2, 5, b"held"), test_block(3, 9, b"new"));
    uploads.start_certificate_upload(held.digest);
    for block in [old, held, new] {
        uploads.cache_block(block);
    }
    uploads.observe_finalization(9);
    assert_eq!(uploads.cached_block(&old.digest), None);
    assert_eq!(uploads.cached_block(&held.digest), Some(held));
    assert_eq!(uploads.cached_block(&new.digest), Some(new));
    uploads.prune();
    assert_eq!(uploads.cached_block(&held.digest), Some(held));
    uploads.finish_certificate_upload(&held.digest, None);
    assert_eq!(uploads.cached_block(&held.digest), None);
    assert_eq!(uploads.cached_block(&new.digest), Some(new));
}

use alto_coro::batch::{
    decode_block_batch, decode_block_payloads, encode_block_batch, BatchMeta, BlockMeta,
    DecodeError, BATCH_META_SIZE, BLOCK_META_SIZE,
};
use alto_coro::chain::{advance_submitted_block, ChainState, Discontinuity};
use alto_coro::clock::{now_millis, timestamp, try_timestamp, ClockError};
use alto_coro::codec::{read_digest, read_u64, write_digest, write_u64};
use alto_coro::crypto::{sha256, PrivateKey};
use alto_coro::model::{next_block, BlockApplier, BlockBuilder, EngineError};
use alto_coro::restore::{restore_batch, restore_blocks, start_restore, Abandoned, RestoreStep};
use alto_coro::types::{digest_eq, Block, BlockHeader, Context, Digest, Fetched, PublicKey, Round};

const EPOCH: u64 = 0;
const BLOCK_SIZE: usize = 8 + 8 + 32 + 8 + 32 + 32 + 8 + 8;

fn header_bytes(header: &BlockHeader) -> Vec<u8> {
    let mut bytes = Vec::new();
    write_u64(&mut bytes, header.context.round.epoch);
    write_u64(&mut bytes, header.context.round.view);
    bytes.extend_from_slice(&header.context.leader);
    write_u64(&mut bytes, header.context.parent.0);
    write_digest(&mut bytes, &header.context.parent.1);
    write_digest(&mut bytes, &header.parent);
    write_u64(&mut bytes, header.height);
    write_u64(&mut bytes, header.timestamp);
    bytes
}

fn seal(header: &BlockHeader) -> Digest {
    sha256(&header_bytes(header))
}

fn encode(block: &Block) -> Vec<u8> {
    header_bytes(&BlockHeader {
        context: block.context,
        parent: block.parent,
        height: block.height,
        timestamp: block.timestamp,
    })
}

fn decode(bytes: &Vec<u8>) -> Result<Block, String> {
    if bytes.len() != BLOCK_SIZE {
        return Err(format!("{} bytes are no block", bytes.len()));
    }
    let header = BlockHeader {
        context: Context {
            round: Round {
                epoch: read_u64(bytes, 0).unwrap(),
                view: read_u64(bytes, 8).unwrap(),
            },
            leader: read_digest(bytes, 16).unwrap(),
            parent: (read_u64(bytes, 48).unwrap(), read_digest(bytes, 56).unwrap()),
        },
        parent: read_digest(bytes, 88).unwrap(),
        height: read_u64(bytes, 120).unwrap(),
        timestamp: read_u64(bytes, 128).unwrap(),
    };
    Ok(header.seal(seal(&header)))
}

fn leader() -> PublicKey {
    PrivateKey::from_seed(0).public_key()
}

fn extend(chain: &mut ChainState, timestamp: u64) -> Block {
    let header = chain.next_block(EPOCH, leader(), timestamp);
    let block = header.seal(seal(&header));
    chain.advance(&block);
    block
}

fn some_blocks(count: u64) -> Vec<Block> {
    let mut chain = ChainState::genesis(EPOCH, seal);
    (0..count).map(|i| extend(&mut chain, 1_000 + 10 * i)).collect()
}

#[test]
fn numbers_are_written_most_significant_byte_first() {
    let mut bytes = vec![9];
    write_u64(&mut bytes, 0x0102_0304_0506_0708);
    assert_eq!(bytes, vec![9, 1, 2, 3, 4, 5, 6, 7, 8]);
    assert_eq!(read_u64(&bytes, 1), Some(0x0102_0304_0506_0708));
    assert_eq!(read_u64(&bytes, 2), None);
    write_u64(&mut bytes, u64::MAX);
    assert_eq!(read_u64(&bytes, 9), Some(u64::MAX));
}

#[test]
fn digests_are_written_as_they_are() {
    let digest = sha256(b"abc");
    assert_eq!(
        digest[..8],
        [0xba, 0x78, 0x16, 0xbf, 0x8f, 0x01, 0xcf, 0xea]
    );
    let mut bytes = vec![1, 2];
    write_digest(&mut bytes, &digest);
    assert_eq!(bytes[2..], digest);
    assert_eq!(read_digest(&bytes, 2), Some(digest));
    assert_eq!(read_digest(&bytes, 3), None);
    assert!(digest_eq(&digest, &sha256(b"abc")));
    let mut other = digest;
    other[31] ^= 1;
    assert!(!digest_eq(&digest, &other));
}

#[test]
fn genesis_is_the_sealed_genesis_header() {
    let chain = ChainState::genesis(EPOCH, seal);
    let header = BlockHeader {
        context: Context {
            round: Round { epoch: EPOCH, view: 0 },
            leader: leader(),
            parent: (0, [0u8; 32]),
        },
        parent: sha256(b"alto-coro-genesis"),
        height: 0,
        timestamp: 0,
    };
    assert_eq!(
        chain,
        ChainState { height: 0, parent: seal(&header), timestamp: 0 }
    );
    assert_eq!(BlockBuilder::new(EPOCH, seal).chain, chain);
    assert_eq!(BlockApplier::new(EPOCH, seal).chain, chain);
}

#[test]
fn next_block_follows_the_head() {
    let chain = ChainState { height: 4, parent: sha256(b"head"), timestamp: 100 };
    let header = chain.next_block(7, leader(), 250);
    assert_eq!(header.height, 5);
    assert_eq!(header.parent, chain.parent);
    assert_eq!(header.context.round, Round { epoch: 7, view: 5 });
    assert_eq!(header.context.parent, (4, chain.parent));
    assert_eq!(header.context.leader, leader());
    assert_eq!(header.timestamp, 250);
    assert_eq!(chain.next_block(7, leader(), 100).timestamp, 101);
    assert_eq!(chain.next_block(7, leader(), 0).timestamp, 101);
    let late = ChainState { timestamp: u64::MAX, ..chain };
    assert_eq!(late.next_block(7, leader(), 5).timestamp, u64::MAX);
}

#[test]
fn next_blocks_are_accepted() {
    let mut chain = ChainState::genesis(EPOCH, seal);
    for timestamp in [5, 5, 3, 900] {
        let header = chain.next_block(EPOCH, leader(), timestamp);
        let block = header.seal(seal(&header));
        assert_eq!(chain.find_discontinuity(&block), None);
        chain.advance(&block);
    }
    assert_eq!(chain.height, 4);
    assert_eq!(chain.timestamp, 900);
}

#[test]
fn next_block_at_the_current_time() {
    let chain = ChainState::genesis(EPOCH, seal);
    let before = now_millis().unwrap();
    let header = next_block(&chain, EPOCH, &leader()).unwrap();
    let after = now_millis().unwrap();
    assert!(before <= header.timestamp && header.timestamp <= after);
    assert_eq!(header, chain.next_block(EPOCH, leader(), header.timestamp));
}

#[test]
fn timestamps_are_whole_milliseconds_since_the_epoch() {
    let latest = u64::MAX as u128 * 1_000_000 + 999_999;
    assert_eq!(timestamp(Some(999_999)), 0);
    assert_eq!(timestamp(Some(5_000_000)), 5);
    assert_eq!(timestamp(Some(5_999_999)), 5);
    assert_eq!(timestamp(Some(latest)), u64::MAX);
    assert_eq!(try_timestamp(None), Err(ClockError::BeforeEpoch));
    assert_eq!(try_timestamp(Some(5_999_999)), Ok(5));
    assert_eq!(try_timestamp(Some(latest)), Ok(u64::MAX));
    assert_eq!(try_timestamp(Some(latest + 1)), Err(ClockError::TooLate));
    assert!(now_millis().unwrap() > 1_600_000_000_000);
}

#[test]
fn submitted_blocks_advance_the_chain_where_they_link() {
    let mut chain = ChainState::genesis(EPOCH, seal);
    let blocks = some_blocks(2);
    let genesis = chain;
    advance_submitted_block(&mut chain, &blocks[1]);
    assert_eq!(chain, genesis);
    let mut stranger = blocks[0];
    stranger.parent = sha256(b"stranger");
    advance_submitted_block(&mut chain, &stranger);
    assert_eq!(chain, genesis);
    advance_submitted_block(&mut chain, &blocks[0]);
    assert_eq!(
        chain,
        ChainState { height: 1, parent: blocks[0].digest, timestamp: blocks[0].timestamp }
    );
    let full = ChainState { height: u64::MAX, ..chain };
    let mut unmoved = full;
    let mut wrapped = blocks[0];
    wrapped.height = 0;
    wrapped.parent = full.parent;
    advance_submitted_block(&mut unmoved, &wrapped);
    assert_eq!(unmoved, full);
}

#[test]
fn discontinuities_are_found_in_order() {
    let chain = ChainState { height: 1, parent: sha256(b"head"), timestamp: 50 };
    let good = chain.next_block(EPOCH, leader(), 60).seal(sha256(b"next"));
    assert_eq!(chain.find_discontinuity(&good), None);
    let mut block = good;
    block.timestamp = 50;
    assert_eq!(
        chain.find_discontinuity(&block),
        Some(Discontinuity::Timestamp)
    );
    block.parent = sha256(b"other");
    assert_eq!(chain.find_discontinuity(&block), Some(Discontinuity::Parent));
    block.height = 3;
    assert_eq!(
        chain.find_discontinuity(&block),
        Some(Discontinuity::Height { chain: 1, got: 3 })
    );
}

#[test]
fn block_metadata_round_trips() {
    let meta = BlockMeta { height: 3, digest: sha256(b"block"), timestamp: 77 };
    let mut bytes = Vec::new();
    meta.write(&mut bytes);
    assert_eq!(bytes.len(), BLOCK_META_SIZE);
    assert_eq!(bytes[..8], [0, 0, 0, 0, 0, 0, 0, 3]);
    assert_eq!(bytes[8..40], meta.digest);
    assert_eq!(bytes[40..], [0, 0, 0, 0, 0, 0, 0, 77]);
    assert_eq!(BlockMeta::read(&bytes), Some(meta));
    assert_eq!(BlockMeta::read(&bytes[..BLOCK_META_SIZE - 1]), None);
}

#[test]
fn batch_metadata_round_trips() {
    let meta = BatchMeta::from_blocks(&some_blocks(3));
    assert_eq!(meta.first_height, 1);
    assert_eq!(meta.last_height, 3);
    assert_eq!(meta.block_count, 3);
    assert_eq!(meta.first_timestamp, 1_000);
    assert_eq!(meta.last_timestamp, 1_020);
    let mut bytes = Vec::new();
    meta.write(&mut bytes);
    assert_eq!(bytes.len(), BATCH_META_SIZE);
    assert_eq!(bytes[16..24], [0, 0, 0, 0, 0, 0, 0, 3]);
    assert_eq!(bytes[24..56], meta.first_digest);
    assert_eq!(bytes[56..88], meta.last_digest);
    assert_eq!(BatchMeta::read(&bytes), Some(meta));
    assert_eq!(BatchMeta::read(&bytes[..BATCH_META_SIZE - 1]), None);
}

#[test]
fn batches_round_trip() {
    for count in 0..4 {
        let blocks = some_blocks(count);
        let payload = encode_block_batch(&blocks, &encode);
        assert_eq!(payload.len(), 8 + count as usize * (8 + BLOCK_SIZE));
        assert_eq!(decode_block_batch(&payload, &decode).unwrap(), blocks);
        let parts = decode_block_payloads(&payload).unwrap();
        assert_eq!(parts, blocks.iter().map(encode).collect::<Vec<_>>());
    }
}

#[test]
fn payloads_have_one_form() {
    let payload = vec![0, 0, 0, 0, 0, 0, 0, 2, 0, 0, 0, 0, 0, 0, 0, 1, 42, 0, 0, 0, 0, 0, 0, 0, 0];
    let parts = decode_block_payloads(&payload).unwrap();
    assert_eq!(parts, vec![vec![42], vec![]]);
}

fn decode_error(payload: Vec<u8>) -> String {
    match decode_block_batch(&payload, &decode) {
        Ok(_) => panic!("expected an error"),
        Err(error) => error.message(),
    }
}

#[test]
fn payloads_that_are_no_batch_are_refused() {
    let end = "Unexpected End-of-Buffer: Not enough bytes remaining to read data";
    assert_eq!(decode_error(vec![]), end);
    assert_eq!(decode_error(vec![0; 7]), end);
    assert_eq!(decode_error(vec![0, 0, 0, 0, 0, 0, 0, 1]), end);
    assert_eq!(decode_error(vec![0xff; 8]), end);
    assert_eq!(
        decode_error(vec![0, 0, 0, 0, 0, 0, 0, 1, 0, 0, 0, 0, 0, 0, 0, 2, 7]),
        "encoded Alto block batch ended early"
    );
    assert_eq!(
        decode_error(vec![0, 0, 0, 0, 0, 0, 0, 1, 0xff, 0xff, 0xff, 0xff, 0xff, 0xff, 0xff, 0xff]),
        "encoded Alto block batch ended early"
    );
    assert_eq!(
        decode_error(vec![0, 0, 0, 0, 0, 0, 0, 0, 1]),
        "encoded Alto block batch has trailing bytes"
    );
    assert_eq!(
        decode_error(vec![0, 0, 0, 0, 0, 0, 0, 1, 0, 0, 0, 0, 0, 0, 0, 1, 7]),
        "1 bytes are no block"
    );
    assert_eq!(
        DecodeError::CountTooLarge.message(),
        "encoded Alto block batch count does not fit usize"
    );
    assert_eq!(
        DecodeError::LengthTooLarge.message(),
        "encoded Alto block length does not fit usize"
    );
}

#[test]
fn end_of_buffer_is_worded_like_the_codec_words_it() {
    let error = commonware_codec::Error::EndOfBuffer;
    assert_eq!(error.to_string(), DecodeError::EndOfBuffer.message());
}

#[test]
fn replica_follows_the_sequencer() {
    let blocks = some_blocks(5);
    let mut builder = BlockBuilder::new(EPOCH, seal);
    let mut applier = BlockApplier::new(EPOCH, seal);
    for batch in [&blocks[..2], &blocks[2..3], &blocks[3..]] {
        let built = builder.execute_batch(&batch.to_vec(), &encode).ok().unwrap();
        let applied = applier.apply_batch(&built.payload, &decode).ok().unwrap();
        assert_eq!(built.metadata, applied.metadata);
        assert_eq!(applied.output, BlockMeta::from_block(batch.last().unwrap()));
        assert_eq!(builder.chain, applier.chain);
    }
    assert_eq!(builder.chain.height, 5);
    assert_eq!(builder.chain.parent, blocks[4].digest);
}

#[test]
fn cutting_batches_differently_changes_nothing() {
    let blocks = some_blocks(4);
    let mut whole = BlockApplier::new(EPOCH, seal);
    whole.apply_blocks(&blocks).ok().unwrap();
    let mut cut = BlockApplier::new(EPOCH, seal);
    cut.apply_blocks(&blocks[..1].to_vec()).ok().unwrap();
    cut.apply_blocks(&blocks[1..].to_vec()).ok().unwrap();
    assert_eq!(whole.chain, cut.chain);
}

fn build_error(builder: &mut BlockBuilder, blocks: Vec<Block>) -> String {
    match builder.execute_batch(&blocks, &encode) {
        Ok(_) => panic!("expected an error"),
        Err(error) => error.message(),
    }
}

#[test]
fn batches_are_refused_with_the_first_reason() {
    let blocks = some_blocks(3);
    let mut builder = BlockBuilder::new(EPOCH, seal);
    let genesis = builder.chain;
    assert_eq!(build_error(&mut builder, vec![]), "empty Alto block batch");
    assert_eq!(
        build_error(&mut builder, vec![blocks[1]]),
        "block height 2 does not extend chain height 0"
    );
    let mut stranger = blocks[0];
    stranger.parent = sha256(b"stranger");
    assert_eq!(
        build_error(&mut builder, vec![stranger]),
        "block parent does not match chain head"
    );
    let mut early = blocks[0];
    early.timestamp = 0;
    assert_eq!(
        build_error(&mut builder, vec![early]),
        "block timestamp did not advance"
    );
    assert_eq!(builder.chain, genesis);
    assert_eq!(
        build_error(&mut builder, vec![blocks[0], blocks[2]]),
        "block height 3 does not extend chain height 1"
    );
    assert_eq!(builder.chain.height, 1);
}

#[test]
fn replicas_refuse_like_the_sequencer() {
    let blocks = some_blocks(3);
    let mut applier = BlockApplier::new(EPOCH, seal);
    let genesis = applier.chain;
    let refused = |applier: &mut BlockApplier, payload: &Vec<u8>| match applier
        .apply_batch(payload, &decode)
    {
        Ok(_) => panic!("expected an error"),
        Err(error) => error,
    };
    let error = refused(&mut applier, &encode_block_batch(&vec![], &encode));
    assert!(matches!(error, EngineError::EmptyBatch));
    let error = refused(&mut applier, &vec![1]);
    assert_eq!(
        error.message(),
        "block decode failed: Unexpected End-of-Buffer: Not enough bytes remaining to read data"
    );
    assert_eq!(applier.chain, genesis);
    let gap = vec![blocks[0], blocks[2]];
    let error = refused(&mut applier, &encode_block_batch(&gap, &encode));
    assert!(matches!(
        error,
        EngineError::HeightMismatch { chain: 1, got: 3 }
    ));
    assert_eq!(applier.chain.height, 1);
}

#[test]
fn metadata_fits_the_default_limits() {
    let limits = alto_coro::config::BatchConfig::default();
    assert!(BATCH_META_SIZE <= limits.max_metadata_bytes);
    assert!(BLOCK_META_SIZE <= limits.max_output_bytes);
}

fn restore(chain: &mut ChainState, archive: &[Vec<u8>]) -> RestoreStep {
    let head = archive.len().checked_sub(1).map(|head| head as u64);
    let mut step = start_restore(head);
    while let RestoreStep::Load(sequence) = step {
        let loaded = match archive.get(sequence as usize) {
            Some(payload) => Fetched::Found(payload.clone()),
            None => Fetched::Nothing,
        };
        step = restore_batch(chain, head.unwrap(), sequence, &loaded, &decode);
    }
    step
}

#[test]
fn restoring_rebuilds_the_chain() {
    let blocks = some_blocks(5);
    let mut builder = BlockBuilder::new(EPOCH, seal);
    let mut archive = Vec::new();
    for batch in [&blocks[..2], &blocks[2..3], &blocks[3..]] {
        let built = builder.execute_batch(&batch.to_vec(), &encode).ok().unwrap();
        archive.push(built.payload);
    }
    let mut chain = ChainState::genesis(EPOCH, seal);
    assert!(matches!(restore(&mut chain, &archive), RestoreStep::Complete));
    assert_eq!(chain, builder.chain);

    let restored = chain;
    assert!(matches!(
        restore(&mut chain, &archive),
        RestoreStep::Abandon(Abandoned::Broken { chain: 5, got: 1 })
    ));
    assert_eq!(chain, restored);

    let mut partial = ChainState::genesis(EPOCH, seal);
    let holed = vec![archive[0].clone(), archive[2].clone(), archive[1].clone()];
    assert!(matches!(
        restore(&mut partial, &holed),
        RestoreStep::Abandon(Abandoned::Broken { chain: 2, got: 4 })
    ));
    assert_eq!(partial.height, 2);

    let mut untouched = ChainState::genesis(EPOCH, seal);
    let genesis = untouched;
    assert!(matches!(restore(&mut untouched, &[]), RestoreStep::Complete));
    assert_eq!(untouched, genesis);
}

#[test]
fn restoring_does_not_ask_for_later_timestamps() {
    let mut blocks = some_blocks(2);
    blocks[1].timestamp = 0;
    let mut chain = ChainState::genesis(EPOCH, seal);
    assert!(matches!(
        restore_blocks(&mut chain, 4, 3, &blocks),
        RestoreStep::Load(4)
    ));
    assert_eq!(chain.height, 2);
    assert_eq!(chain.timestamp, 0);
}

#[test]
fn restoring_is_given_up_for_a_reason() {
    let mut chain = ChainState::genesis(EPOCH, seal);
    let genesis = chain;
    assert!(matches!(
        restore_batch(&mut chain, 3, 1, &Fetched::Nothing, &decode),
        RestoreStep::Abandon(Abandoned::Missing)
    ));
    assert!(matches!(
        restore_batch(&mut chain, 3, 1, &Fetched::Failed, &decode),
        RestoreStep::Abandon(Abandoned::Unreadable)
    ));
    assert!(matches!(
        restore_batch(&mut chain, 3, 1, &Fetched::Found(vec![0; 3]), &decode),
        RestoreStep::Abandon(Abandoned::Undecodable(DecodeError::EndOfBuffer))
    ));
    assert_eq!(chain, genesis);
    let blocks = some_blocks(3);
    let payload = encode_block_batch(&vec![blocks[0], blocks[2]], &encode);
    assert!(matches!(
        restore_batch(&mut chain, 3, 1, &Fetched::Found(payload), &decode),
        RestoreStep::Abandon(Abandoned::Broken { chain: 1, got: 3 })
    ));
    assert_eq!(chain.height, 1);
}

#[test]
fn different_batches_have_different_payloads() {
    let blocks = some_blocks(2);
    let batches = [
        vec![],
        vec![blocks[0]],
        vec![blocks[1]],
        vec![blocks[0], blocks[1]],
        vec![blocks[1], blocks[0]],
    ];
    for (i, a) in batches.iter().enumerate() {
        for (j, b) in batches.iter().enumerate() {
            let same = encode_block_batch(a, &encode) == encode_block_batch(b, &encode);
            assert_eq!(same, i == j);
        }
    }
}

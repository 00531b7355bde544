//! Upload bookkeeping shared by the live certificate path and the backfiller.
//!
//! Finalized blocks are queued durably and uploaded by whichever path gets there
//! first. [`State`] remembers what was uploaded, which blocks are still worth
//! caching and which digests the live path is working on, so that neither path
//! repeats or races the other.

use crate::codec::{
    be_bytes, be_value, lemma_be_exact, lemma_be_round_trip, lemma_digest_ext, read_digest,
    read_u64, write_digest, write_u64,
};
use crate::digest_map::DigestMap;
use crate::types::{Block, Digest};
use commonware_utils::PrioritySet;
use vstd::prelude::*;

verus! {

broadcast use crate::codec::lemma_be_len;

/// The priority set of `commonware_utils`, carried as it is.
#[verifier::external_type_specification]
#[verifier::external_body]
#[verifier::reject_recursive_types(I)]
#[verifier::reject_recursive_types(P)]
pub struct ExPrioritySet<I: Ord + std::hash::Hash + Clone, P: Ord + Copy>(PrioritySet<I, P>);

/// What a priority set holds: the priority of each of its items.
pub uninterp spec fn priorities(set: PrioritySet<Digest, u64>) -> Map<Digest, u64>;

/// The contents of an empty set.
pub open spec fn nothing_held() -> Map<Digest, u64> {
    Map::empty()
}

/// `PrioritySet::new`: the set holds nothing.
#[verifier::external_body]
fn priority_set_new() -> (set: PrioritySet<Digest, u64>)
    ensures
        priorities(set) == nothing_held(),
{
    PrioritySet::new()
}

/// `PrioritySet::put`: the item has the new priority, in place of the one it had;
/// nothing else changes.
#[verifier::external_body]
fn priority_set_put(set: &mut PrioritySet<Digest, u64>, item: Digest, priority: u64)
    ensures
        priorities(*final(set)) == priorities(*old(set)).insert(item, priority),
{
    set.put(item, priority)
}

/// `PrioritySet::contains`: whether the item is in the set.
#[verifier::external_body]
fn priority_set_contains(set: &PrioritySet<Digest, u64>, item: &Digest) -> (found: bool)
    ensures
        found == priorities(*set).contains_key(*item),
{
    set.contains(item)
}

/// `PrioritySet::peek`: an item of least priority, with that priority, and nothing
/// exactly when the set is empty. Which of several such items is not said.
#[verifier::external_body]
fn priority_set_peek(set: &PrioritySet<Digest, u64>) -> (least: Option<(Digest, u64)>)
    ensures
        least is None <==> priorities(*set) == nothing_held(),
        least matches Some((item, priority)) ==> is_least(priorities(*set), item, priority),
{
    set.peek().map(|(item, priority)| (*item, *priority))
}

/// `PrioritySet::pop`: takes out an item of least priority and returns it with that
/// priority, and returns nothing exactly when the set is empty. Which of several
/// such items leaves is not said.
#[verifier::external_body]
fn priority_set_pop(set: &mut PrioritySet<Digest, u64>) -> (least: Option<(Digest, u64)>)
    ensures
        least is None <==> priorities(*old(set)) == nothing_held(),
        least is None ==> priorities(*final(set)) == priorities(*old(set)),
        least matches Some((item, priority)) ==> {
            &&& is_least(priorities(*old(set)), item, priority)
            &&& priorities(*final(set)) == priorities(*old(set)).remove(item)
        },
{
    set.pop()
}

/// Whether `item` is held with `priority` and nothing is held with a smaller one.
pub open spec fn is_least(held: Map<Digest, u64>, item: Digest, priority: u64) -> bool {
    &&& held.contains_key(item)
    &&& held[item] == priority
    &&& forall|other: Digest| #[trigger] held.contains_key(other) ==> priority <= held[other]
}

/// What the backfiller should do next for a digest.
#[derive(Clone, Copy, Debug, PartialEq, Eq)]
pub enum Decision {
    /// The block is already uploaded, so the queue entry can be skipped.
    Skip,
    /// The live certificate path is still handling this digest, so the backfiller
    /// should wait instead of racing it.
    Wait,
    /// The backfiller should proceed with a block upload attempt.
    Proceed,
}

/// Entry stored in the backfill queue.
#[derive(Clone, Copy, Debug, PartialEq, Eq)]
pub struct Entry {
    pub height: u64,
    pub digest: Digest,
}

/// The encoded size of an [`Entry`].
pub const ENTRY_SIZE: usize = 40;

impl Entry {
    /// The bytes of an entry: the height, then the digest.
    pub open spec fn bytes(self) -> Seq<u8> {
        be_bytes(self.height) + self.digest@
    }

    /// Appends the encoding of the entry.
    pub fn write(&self, buf: &mut Vec<u8>)
        ensures
            final(buf)@ == old(buf)@ + self.bytes(),
    {
        let ghost before = buf@;
        write_u64(buf, self.height);
        write_digest(buf, &self.digest);
        assert(buf@ =~= before + self.bytes());
    }

    /// Whether reading bytes gives this outcome: the entry that their front encodes, and
    /// nothing exactly when they end too early.
    pub open spec fn reads_as(bytes: Seq<u8>, entry: Option<Entry>) -> bool {
        &&& entry is Some <==> bytes.len() >= ENTRY_SIZE
        &&& entry matches Some(found) ==> found.bytes() == bytes.subrange(0, ENTRY_SIZE as int)
    }

    /// Reads an entry from the front of `bytes`; `None` when they end too early.
    pub fn read(bytes: &[u8]) -> (entry: Option<Entry>)
        ensures
            Entry::reads_as(bytes@, entry),
    {
        let height = match read_u64(bytes, 0) {
            Some(height) => height,
            None => {
                return None;
            },
        };
        let digest = match read_digest(bytes, 8) {
            Some(digest) => digest,
            None => {
                return None;
            },
        };
        let entry = Entry { height, digest };
        proof {
            assert(bytes@.skip(0) =~= bytes@);
            lemma_be_exact(bytes@);
            assert(entry.bytes() =~= bytes@.subrange(0, ENTRY_SIZE as int));
        }
        Some(entry)
    }

    /// The bytes of an entry are always [`ENTRY_SIZE`] many, and reading what was written
    /// gives the entry back, whatever follows it.
    pub proof fn law_round_trip(written: Entry, rest: Seq<u8>, read: Option<Entry>)
        requires
            Entry::reads_as(written.bytes() + rest, read),
        ensures
            written.bytes().len() == ENTRY_SIZE,
            read == Some(written),
    {
        let found = read->0;
        assert((written.bytes() + rest).subrange(0, ENTRY_SIZE as int) =~= written.bytes());
        lemma_be_round_trip(written.height, written.digest@);
        lemma_be_round_trip(found.height, found.digest@);
        assert(written.digest@ =~= written.bytes().subrange(8, 40));
        assert(found.digest@ =~= found.bytes().subrange(8, 40));
        lemma_digest_ext(written.digest, found.digest);
    }
}

/// Tracks block uploads and the oldest finalized height that still needs them.
///
/// Duplicate finalize notifications may enqueue multiple queue entries for the
/// same digest until one upload succeeds. The queue itself remains the durable
/// source of truth for pending work; this state only keeps recent upload and
/// cache metadata around it.
pub struct State {
    // Successfully uploaded digests stay in the dedupe set until contiguous
    // queue retirement has advanced far enough that older heights are no longer
    // needed for dedupe.
    uploaded: PrioritySet<Digest, u64>,
    // Conservative height watermark derived from contiguous queue-floor
    // progress. Heights below this can be forgotten from the uploaded set.
    acked_through: u64,
    // Highest finalized height observed from the live application stream.
    latest_finalized: u64,
    // Blocks cached for the live certificate upload path and the backfiller.
    cached_blocks: DigestMap<Block>,
    // Number of in-flight certificate uploads per digest so the backfiller can
    // wait for the live path instead of racing it.
    certificate_uploads: DigestMap<usize>,
}

/// What a [`State`] holds.
#[verifier::ext_equal]
pub struct StateView {
    /// The digests known to be uploaded, each with its height.
    pub uploaded: Map<Digest, u64>,
    /// Uploads below this height are forgotten.
    pub acked_through: u64,
    /// The highest finalized height seen.
    pub latest_finalized: u64,
    /// The cached blocks, by digest.
    pub cached: Map<Digest, Block>,
    /// How many certificate uploads are in flight for each digest.
    pub in_flight: Map<Digest, usize>,
}

pub open spec fn max(a: u64, b: u64) -> u64 {
    if a >= b {
        a
    } else {
        b
    }
}

impl StateView {
    /// The state before anything happened.
    pub open spec fn initial() -> StateView {
        StateView {
            uploaded: Map::empty(),
            acked_through: 0,
            latest_finalized: 0,
            cached: Map::empty(),
            in_flight: Map::empty(),
        }
    }

    /// Cached blocks are filed under their own digests, and a digest has a count
    /// only while certificate uploads are in flight for it.
    pub open spec fn valid(self) -> bool {
        &&& self.uploaded.dom().finite()
        &&& forall|d: Digest| #[trigger] self.cached.contains_key(d) ==> self.cached[d].digest == d
        &&& forall|d: Digest| #[trigger] self.in_flight.contains_key(d) ==> self.in_flight[d] > 0
    }

    /// Whether a cached block at this height is still worth keeping: it is not older
    /// than the latest finalized block, or not older than some cached block whose
    /// certificate upload is in flight.
    pub open spec fn keeps_height(self, height: u64) -> bool {
        ||| height >= self.latest_finalized
        ||| exists|d: Digest|
            #![trigger self.cached.contains_key(d)]
            self.in_flight.contains_key(d) && self.cached.contains_key(d) && self.cached[d].height
                <= height
    }

    /// The state without the uploads below the acknowledged height and without the
    /// cached blocks that are not worth keeping.
    pub open spec fn pruned(self) -> StateView {
        StateView {
            uploaded: Map::new(
                |d: Digest| self.uploaded.contains_key(d) && self.uploaded[d] >= self.acked_through,
                |d: Digest| self.uploaded[d],
            ),
            cached: Map::new(
                |d: Digest|
                    self.cached.contains_key(d) && self.keeps_height(self.cached[d].height),
                |d: Digest| self.cached[d],
            ),
            ..self
        }
    }

    /// The state after a finalized height was seen.
    pub open spec fn finalized(self, height: u64) -> StateView {
        (StateView { latest_finalized: max(self.latest_finalized, height), ..self }).pruned()
    }

    /// The state after a block was offered to the cache: a block cached before under
    /// the same digest stays.
    pub open spec fn caching(self, block: Block) -> StateView {
        if self.cached.contains_key(block.digest) {
            self
        } else {
            StateView { cached: self.cached.insert(block.digest, block), ..self }
        }
    }

    /// The state after a finalized block was recorded: the height counts as seen, and
    /// the block is cached unless it is already uploaded.
    pub open spec fn recorded(self, block: Block) -> StateView {
        let seen = self.finalized(block.height);
        if seen.uploaded.contains_key(block.digest) {
            seen
        } else {
            seen.caching(block)
        }
    }

    /// The state after the queue floor reached a height.
    pub open spec fn floor_advanced(self, height: u64) -> StateView {
        (StateView { acked_through: max(self.acked_through, height), ..self }).pruned()
    }

    /// The state with a digest uploaded and out of the cache, before pruning.
    pub open spec fn uploading(self, digest: Digest, height: u64) -> StateView {
        StateView {
            uploaded: self.uploaded.insert(digest, height),
            cached: self.cached.remove(digest),
            ..self
        }
    }

    /// The state after a digest was uploaded.
    pub open spec fn marked_uploaded(self, digest: Digest, height: u64) -> StateView {
        self.uploading(digest, height).pruned()
    }

    /// The number of certificate uploads in flight for a digest.
    pub open spec fn count(self, digest: Digest) -> int {
        if self.in_flight.contains_key(digest) {
            self.in_flight[digest] as int
        } else {
            0
        }
    }

    /// The state after a certificate upload began.
    pub open spec fn upload_started(self, digest: Digest) -> StateView {
        StateView {
            in_flight: self.in_flight.insert(digest, (self.count(digest) + 1) as usize),
            ..self
        }
    }

    /// The state with one certificate upload fewer in flight.
    pub open spec fn upload_ended(self, digest: Digest) -> StateView {
        StateView {
            in_flight: if self.count(digest) == 1 {
                self.in_flight.remove(digest)
            } else {
                self.in_flight.insert(digest, (self.count(digest) - 1) as usize)
            },
            ..self
        }
    }

    /// The state after a certificate upload ended: with the block uploaded at a
    /// height, or without.
    pub open spec fn upload_finished(self, digest: Digest, uploaded: Option<u64>) -> StateView {
        match uploaded {
            Some(height) => self.upload_ended(digest).uploading(digest, height).pruned(),
            None => self.upload_ended(digest).pruned(),
        }
    }

    proof fn lemma_pruned(self)
        requires
            self.valid(),
        ensures
            self.pruned().valid(),
    {
        assert(self.pruned().uploaded.dom() =~= self.uploaded.dom().filter(
            |d: Digest| self.uploaded[d] >= self.acked_through,
        ));
        self.uploaded.dom().lemma_len_filter(|d: Digest| self.uploaded[d] >= self.acked_through);
    }

    proof fn lemma_uploading(self, digest: Digest, height: u64)
        requires
            self.valid(),
        ensures
            self.uploading(digest, height).valid(),
    {
        let after = self.uploading(digest, height);
        assert forall|d: Digest| #[trigger] after.cached.contains_key(d) implies after.cached[d].digest
            == d by {
            assert(self.cached.contains_key(d));
        }
    }

    proof fn lemma_caching(self, block: Block)
        requires
            self.valid(),
        ensures
            self.caching(block).valid(),
    {
        let after = self.caching(block);
        assert forall|d: Digest| #[trigger] after.cached.contains_key(d) implies after.cached[d].digest
            == d by {
            assert(d == block.digest || self.cached.contains_key(d));
        }
    }

    proof fn lemma_upload_started(self, digest: Digest)
        requires
            self.valid(),
            self.count(digest) < usize::MAX,
        ensures
            self.upload_started(digest).valid(),
    {
        let after = self.upload_started(digest);
        assert forall|d: Digest| #[trigger] after.in_flight.contains_key(d) implies after.in_flight[d]
            > 0 by {
            assert(d == digest || self.in_flight.contains_key(d));
        }
    }

    proof fn lemma_upload_ended(self, digest: Digest)
        requires
            self.valid(),
            self.in_flight.contains_key(digest),
        ensures
            self.upload_ended(digest).valid(),
    {
        let after = self.upload_ended(digest);
        assert forall|d: Digest| #[trigger] after.in_flight.contains_key(d) implies after.in_flight[d]
            > 0 by {
            assert(self.in_flight.contains_key(d));
        }
    }

    /// What the backfiller should do about a digest.
    pub open spec fn decision(self, digest: Digest) -> Decision {
        if self.uploaded.contains_key(digest) {
            Decision::Skip
        } else if self.in_flight.contains_key(digest) {
            Decision::Wait
        } else {
            Decision::Proceed
        }
    }
}

impl View for State {
    type V = StateView;

    closed spec fn view(&self) -> StateView {
        StateView {
            uploaded: priorities(self.uploaded),
            acked_through: self.acked_through,
            latest_finalized: self.latest_finalized,
            cached: self.cached_blocks@,
            in_flight: self.certificate_uploads@,
        }
    }
}

impl State {
    /// The parts are well formed and what they hold is valid.
    pub closed spec fn wf(&self) -> bool {
        &&& self.cached_blocks.wf()
        &&& self.certificate_uploads.wf()
        &&& self@.valid()
    }

    /// A well-formed state holds valid contents.
    pub proof fn law_contents_are_valid(&self)
        requires
            self.wf(),
        ensures
            self@.valid(),
    {
    }

    /// A state that has seen nothing.
    pub fn new() -> (state: Self)
        ensures
            state.wf(),
            state@ == StateView::initial(),
    {
        State {
            uploaded: priority_set_new(),
            acked_through: 0,
            latest_finalized: 0,
            cached_blocks: DigestMap::new(),
            certificate_uploads: DigestMap::new(),
        }
    }

    /// Whether a digest is known to be uploaded.
    pub fn is_uploaded(&self, digest: &Digest) -> (uploaded: bool)
        ensures
            uploaded == self@.uploaded.contains_key(*digest),
    {
        priority_set_contains(&self.uploaded, digest)
    }

    /// Records a finalized block. Returns the entry to queue for it, unless the block
    /// is already uploaded.
    pub fn record(&mut self, block: &Block) -> (entry: Option<Entry>)
        requires
            old(self).wf(),
        ensures
            final(self).wf(),
            final(self)@ == old(self)@.recorded(*block),
            entry == if old(self)@.finalized(block.height).uploaded.contains_key(block.digest) {
                None
            } else {
                Some(Entry { height: block.height, digest: block.digest })
            },
    {
        let entry = Entry { height: block.height, digest: block.digest };
        self.observe_finalization(entry.height);
        if self.is_uploaded(&entry.digest) {
            return None;
        }
        self.cache_block(*block);
        Some(entry)
    }

    /// Notes that everything queued below `height` is retired.
    pub fn advance_queue_floor(&mut self, height: u64)
        requires
            old(self).wf(),
        ensures
            final(self).wf(),
            final(self)@ == old(self)@.floor_advanced(height),
    {
        let ghost before = self@;
        if self.acked_through < height {
            self.acked_through = height;
        }
        assert(self@ == (StateView { acked_through: self.acked_through, ..before }));
        self.prune();
    }

    /// Notes that the block with this digest was uploaded.
    pub fn mark_uploaded(&mut self, digest: Digest, height: u64)
        requires
            old(self).wf(),
        ensures
            final(self).wf(),
            final(self)@ == old(self)@.marked_uploaded(digest, height),
    {
        let ghost before = self@;
        self.cached_blocks.remove(&digest);
        priority_set_put(&mut self.uploaded, digest, height);
        assert(self@ == before.uploading(digest, height));
        proof {
            before.lemma_uploading(digest, height);
        }
        self.prune();
    }

    /// Offers a block to the cache.
    pub fn cache_block(&mut self, block: Block)
        requires
            old(self).wf(),
        ensures
            final(self).wf(),
            final(self)@ == old(self)@.caching(block),
    {
        if !self.cached_blocks.contains_key(&block.digest) {
            let ghost before = self@;
            self.cached_blocks.insert(block.digest, block);
            assert(self@ == before.caching(block));
            proof {
                before.lemma_caching(block);
            }
        }
    }

    /// The cached block with this digest.
    pub fn cached_block(&self, digest: &Digest) -> (block: Option<Block>)
        requires
            self.wf(),
        ensures
            block == if self@.cached.contains_key(*digest) {
                Some(self@.cached[*digest])
            } else {
                None
            },
    {
        match self.cached_blocks.get(digest) {
            Some(block) => Some(*block),
            None => None,
        }
    }

    /// What the backfiller should do about a digest.
    pub fn should_upload(&self, digest: &Digest) -> (decision: Decision)
        ensures
            decision == self@.decision(*digest),
    {
        if self.is_uploaded(digest) {
            Decision::Skip
        } else if self.certificate_uploads.contains_key(digest) {
            Decision::Wait
        } else {
            Decision::Proceed
        }
    }

    /// Notes that the live path began to upload a certificate for a digest.
    pub fn start_certificate_upload(&mut self, digest: Digest)
        requires
            old(self).wf(),
            old(self)@.count(digest) < usize::MAX,
        ensures
            final(self).wf(),
            final(self)@ == old(self)@.upload_started(digest),
    {
        let ghost before = self@;
        let count: usize = match self.certificate_uploads.get(&digest) {
            Some(count) => *count,
            None => 0,
        };
        self.certificate_uploads.insert(digest, count + 1);
        assert(self@ == before.upload_started(digest));
        proof {
            before.lemma_upload_started(digest);
        }
    }

    /// Notes that the live path is done with a certificate upload that it began. With
    /// `uploaded_height` the block went with it.
    pub fn finish_certificate_upload(&mut self, digest: &Digest, uploaded_height: Option<u64>)
        requires
            old(self).wf(),
            old(self)@.in_flight.contains_key(*digest),
        ensures
            final(self).wf(),
            final(self)@ == old(self)@.upload_finished(*digest, uploaded_height),
    {
        let ghost before = self@;
        let count: usize = *self.certificate_uploads.get(digest).unwrap();
        if count == 1 {
            self.certificate_uploads.remove(digest);
        } else {
            self.certificate_uploads.insert(*digest, count - 1);
        }
        let ghost ended = self@;
        assert(ended == before.upload_ended(*digest));
        proof {
            before.lemma_upload_ended(*digest);
        }
        if let Some(height) = uploaded_height {
            self.cached_blocks.remove(digest);
            priority_set_put(&mut self.uploaded, *digest, height);
            assert(self@ == ended.uploading(*digest, height));
            proof {
                ended.lemma_uploading(*digest, height);
            }
        }
        self.prune();
    }

    /// Notes that a height was finalized.
    pub fn observe_finalization(&mut self, height: u64)
        requires
            old(self).wf(),
        ensures
            final(self).wf(),
            final(self)@ == old(self)@.finalized(height),
    {
        let ghost before = self@;
        if self.latest_finalized < height {
            self.latest_finalized = height;
        }
        assert(self@ == (StateView { latest_finalized: self.latest_finalized, ..before }));
        self.prune();
    }

    /// Forgets uploads that the queue floor has passed and cached blocks that no one
    /// waits for any more.
    pub fn prune(&mut self)
        requires
            old(self).wf(),
        ensures
            final(self).wf(),
            final(self)@ == old(self)@.pruned(),
    {
        let ghost start = self@;
        self.prune_uploaded();
        let ghost mid = self@;
        let floor = self.cache_floor();
        self.cached_blocks.retain_from(floor);
        proof {
            assert(mid.cached == start.cached && mid.in_flight == start.in_flight);
            assert forall|height: u64| #[trigger] start.keeps_height(height) <==> height
                >= floor by {
                assert(mid.keeps_height(height) == start.keeps_height(height));
            }
            assert(self@.cached =~= start.pruned().cached);
            assert(self@ =~= start.pruned());
            start.lemma_pruned();
        }
    }

    /// Forgets uploads below the acknowledged height, lowest first.
    fn prune_uploaded(&mut self)
        requires
            old(self).wf(),
        ensures
            final(self).wf(),
            final(self)@ == (StateView { uploaded: old(self)@.pruned().uploaded, ..old(self)@ }),
    {
        let ghost start = self@;
        proof {
            start.lemma_pruned();
        }
        loop
            invariant
                self.wf(),
                self@ == (StateView { uploaded: self@.uploaded, ..start }),
                self@.uploaded.dom().finite(),
                forall|d: Digest| #[trigger]
                    self@.uploaded.contains_key(d) ==> start.uploaded.contains_key(d)
                        && self@.uploaded[d] == start.uploaded[d],
                forall|d: Digest| #[trigger]
                    start.uploaded.contains_key(d) && start.uploaded[d] >= start.acked_through
                        ==> self@.uploaded.contains_key(d),
            ensures
                self.wf(),
                self@ == (StateView { uploaded: self@.uploaded, ..start }),
                forall|d: Digest| #[trigger]
                    self@.uploaded.contains_key(d) ==> start.uploaded.contains_key(d)
                        && self@.uploaded[d] == start.uploaded[d],
                forall|d: Digest| #[trigger]
                    start.uploaded.contains_key(d) && start.uploaded[d] >= start.acked_through
                        ==> self@.uploaded.contains_key(d),
                forall|d: Digest| #[trigger]
                    self@.uploaded.contains_key(d) ==> self@.uploaded[d] >= start.acked_through,
            decreases self@.uploaded.dom().len(),
        {
            match priority_set_peek(&self.uploaded) {
                Some((_, height)) => {
                    if height >= self.acked_through {
                        break;
                    }
                },
                None => {
                    break;
                },
            }
            let ghost here = self@;
            priority_set_pop(&mut self.uploaded);
            proof {
                assert(self@ == (StateView { uploaded: self@.uploaded, ..here }));
            }
        }
        assert(self@.uploaded =~= start.pruned().uploaded);
    }

    /// The height below which cached blocks are dropped: the latest finalized height,
    /// or the height of an older cached block whose certificate upload is in flight.
    fn cache_floor(&self) -> (floor: u64)
        requires
            self.wf(),
        ensures
            is_cache_floor(self@, floor),
            forall|height: u64| #[trigger] self@.keeps_height(height) <==> height >= floor,
    {
        let mut floor: u64 = self.latest_finalized;
        let mut i: usize = 0;
        let ghost mut lowest: Option<Digest> = None;
        while i < self.certificate_uploads.len()
            invariant
                self.wf(),
                i <= self.certificate_uploads.keys().len(),
                floor <= self@.latest_finalized,
                match lowest {
                    Some(d) => self@.in_flight.contains_key(d) && self@.cached.contains_key(d)
                        && self@.cached[d].height == floor,
                    None => floor == self@.latest_finalized,
                },
                forall|j: int|
                    #![trigger self.certificate_uploads.keys()[j]]
                    0 <= j < i ==> {
                        let d = self.certificate_uploads.keys()[j];
                        self@.cached.contains_key(d) ==> floor <= self@.cached[d].height
                    },
            decreases self.certificate_uploads.keys().len() - i,
        {
            let digest = self.certificate_uploads.key_at(i);
            proof {
                self.certificate_uploads.lemma_keys();
                assert(self.certificate_uploads.keys().contains(digest));
            }
            if let Some(block) = self.cached_blocks.get(&digest) {
                if block.height < floor {
                    floor = block.height;
                    proof {
                        lowest = Some(digest);
                    }
                }
            }
            i += 1;
        }
        proof {
            self.certificate_uploads.lemma_keys();
            assert forall|height: u64| #[trigger] self@.keeps_height(height) implies height
                >= floor by {
                if height < self@.latest_finalized {
                    let d = choose|d: Digest|
                        #![trigger self@.cached.contains_key(d)]
                        self@.in_flight.contains_key(d) && self@.cached.contains_key(d)
                            && self@.cached[d].height <= height;
                    assert(self.certificate_uploads.keys().contains(d));
                    let j = choose|j: int|
                        0 <= j < self.certificate_uploads.keys().len()
                            && self.certificate_uploads.keys()[j] == d;
                    assert(floor <= self@.cached[self.certificate_uploads.keys()[j]].height);
                }
            }
            assert forall|d: Digest| #[trigger]
                self@.cached.contains_key(d) && self@.in_flight.contains_key(d) implies floor
                <= self@.cached[d].height by {
                assert(self@.keeps_height(self@.cached[d].height));
            }
            assert forall|height: u64| height >= floor implies #[trigger] self@.keeps_height(
                height,
            ) by {
                match lowest {
                    Some(d) => {
                        assert(self@.cached.contains_key(d));
                    },
                    None => {},
                }
            }
        }
        floor
    }
}

/// Whether a height is the least of the latest finalized height and the heights of the
/// cached blocks whose certificate uploads are in flight.
pub open spec fn is_cache_floor(s: StateView, floor: u64) -> bool {
    &&& floor <= s.latest_finalized
    &&& forall|d: Digest| #[trigger]
        s.cached.contains_key(d) && s.in_flight.contains_key(d) ==> floor <= s.cached[d].height
    &&& floor == s.latest_finalized || exists|d: Digest| #[trigger]
        s.cached.contains_key(d) && s.in_flight.contains_key(d) && floor == s.cached[d].height
}

/// What pruning keeps: exactly the uploads at or above the acknowledged height, and exactly
/// the cached blocks at or above the least of the latest finalized height and the heights
/// of the cached blocks whose certificate uploads are in flight. Nothing else changes.
pub proof fn law_prune_keeps_what_is_needed(s: StateView, floor: u64)
    requires
        is_cache_floor(s, floor),
    ensures
        forall|d: Digest| #[trigger]
            s.pruned().uploaded.contains_key(d) <==> s.uploaded.contains_key(d) && s.uploaded[d]
                >= s.acked_through,
        forall|d: Digest| #[trigger]
            s.pruned().uploaded.contains_key(d) ==> s.pruned().uploaded[d] == s.uploaded[d],
        forall|d: Digest| #[trigger]
            s.pruned().cached.contains_key(d) <==> s.cached.contains_key(d) && s.cached[d].height
                >= floor,
        forall|d: Digest| #[trigger]
            s.pruned().cached.contains_key(d) ==> s.pruned().cached[d] == s.cached[d],
        s.pruned().acked_through == s.acked_through,
        s.pruned().latest_finalized == s.latest_finalized,
        s.pruned().in_flight == s.in_flight,
{
    assert forall|height: u64| #[trigger] s.keeps_height(height) <==> height >= floor by {
        if s.keeps_height(height) && height < s.latest_finalized {
            let d = choose|d: Digest|
                #![trigger s.cached.contains_key(d)]
                s.in_flight.contains_key(d) && s.cached.contains_key(d) && s.cached[d].height
                    <= height;
            assert(s.cached.contains_key(d) && s.in_flight.contains_key(d));
        }
        if height >= floor && floor != s.latest_finalized {
            let d = choose|d: Digest| #[trigger]
                s.cached.contains_key(d) && s.in_flight.contains_key(d) && floor
                    == s.cached[d].height;
            assert(s.cached.contains_key(d));
        }
    }
}

/// Pruning again changes nothing.
pub proof fn law_prune_is_idempotent(s: StateView)
    ensures
        s.pruned().pruned() == s.pruned(),
{
    let t = s.pruned();
    assert forall|d: Digest| #[trigger] t.cached.contains_key(d) implies t.keeps_height(
        t.cached[d].height,
    ) by {
        let height = s.cached[d].height;
        assert(s.keeps_height(height));
        if height < s.latest_finalized {
            let e = choose|e: Digest|
                #![trigger s.cached.contains_key(e)]
                s.in_flight.contains_key(e) && s.cached.contains_key(e) && s.cached[e].height
                    <= height;
            law_in_flight_block_stays_cached(s, e);
            assert(t.cached.contains_key(e));
        }
    }
    assert(t.pruned().cached =~= t.cached);
    assert(t.pruned().uploaded =~= t.uploaded);
}

/// A cached block whose certificate upload is in flight is never pruned.
pub proof fn law_in_flight_block_stays_cached(s: StateView, digest: Digest)
    requires
        s.in_flight.contains_key(digest),
        s.cached.contains_key(digest),
    ensures
        s.pruned().cached.contains_key(digest),
        s.pruned().cached[digest] == s.cached[digest],
{
    assert(s.keeps_height(s.cached[digest].height));
}

/// A block at or above the latest finalized height is never pruned.
pub proof fn law_unfinalized_block_stays_cached(s: StateView, digest: Digest)
    requires
        s.cached.contains_key(digest),
        s.cached[digest].height >= s.latest_finalized,
    ensures
        s.pruned().cached.contains_key(digest),
        s.pruned().cached[digest] == s.cached[digest],
{
}

/// With no certificate upload in flight, a newer finalization drops every cached block
/// below it, whatever became of its own upload.
pub proof fn law_newer_finalization_drops_older_blocks(s: StateView, height: u64, digest: Digest)
    requires
        s.in_flight == Map::<Digest, usize>::empty(),
        s.cached.contains_key(digest),
        s.cached[digest].height < height,
    ensures
        !s.finalized(height).cached.contains_key(digest),
{
}

/// An upload at or above the acknowledged height is remembered by every operation. Only
/// a queue floor that passes it makes it forgotten.
pub proof fn law_upload_is_remembered_until_the_floor_passes(
    s: StateView,
    digest: Digest,
    block: Block,
    other: Digest,
    height: u64,
)
    requires
        s.uploaded.contains_key(digest),
        s.uploaded[digest] >= s.acked_through,
    ensures
        s.finalized(height).uploaded.contains_key(digest),
        s.recorded(block).uploaded.contains_key(digest),
        s.caching(block).uploaded.contains_key(digest),
        s.upload_started(other).uploaded.contains_key(digest),
        s.upload_finished(other, None).uploaded.contains_key(digest),
        other != digest ==> s.upload_finished(other, Some(height)).uploaded.contains_key(digest),
        other != digest ==> s.marked_uploaded(other, height).uploaded.contains_key(digest),
        s.floor_advanced(height).uploaded.contains_key(digest) <==> s.uploaded[digest] >= height,
{
}

/// A block that was uploaded at or above the acknowledged height is skipped by the
/// backfiller, gets no new queue entry when it is finalized again, and is not cached
/// again.
pub proof fn law_uploaded_block_is_not_handled_again(s: StateView, block: Block)
    requires
        block.height >= s.acked_through,
    ensures
        s.marked_uploaded(block.digest, block.height).decision(block.digest) == Decision::Skip,
        !s.marked_uploaded(block.digest, block.height).cached.contains_key(block.digest),
        s.marked_uploaded(block.digest, block.height).finalized(
            block.height,
        ).uploaded.contains_key(block.digest),
        !s.marked_uploaded(block.digest, block.height).recorded(block).cached.contains_key(
            block.digest,
        ),
{
}

/// Until an upload succeeds, every notification of a finalized block gets an entry.
pub proof fn law_pending_block_gets_an_entry_each_time(s: StateView, block: Block)
    requires
        !s.uploaded.contains_key(block.digest),
    ensures
        !s.finalized(block.height).uploaded.contains_key(block.digest),
        !s.recorded(block).uploaded.contains_key(block.digest),
{
}

/// A recorded block that still needs an upload is in the cache.
pub proof fn law_recorded_block_is_cached_or_uploaded(s: StateView, block: Block)
    ensures
        s.recorded(block).uploaded.contains_key(block.digest) || s.recorded(
            block,
        ).cached.contains_key(block.digest),
{
}

/// Beginning and ending a certificate upload leaves the counts as they were: only
/// pruning remains.
pub proof fn law_started_and_failed_upload_leaves_no_trace(s: StateView, digest: Digest)
    requires
        s.valid(),
        s.count(digest) < usize::MAX,
    ensures
        s.upload_started(digest).upload_finished(digest, None) == s.pruned(),
{
    let t = s.upload_started(digest);
    assert(t.count(digest) == s.count(digest) + 1);
    assert(t.upload_ended(digest).in_flight =~= s.in_flight);
    assert(t.upload_ended(digest) == s);
}

/// While a certificate upload is in flight for a digest, the backfiller does not
/// proceed with it; once none is, it does, unless the block is uploaded.
pub proof fn law_backfiller_does_not_race_the_live_path(s: StateView, digest: Digest)
    requires
        s.valid(),
        s.count(digest) < usize::MAX,
    ensures
        s.upload_started(digest).decision(digest) != Decision::Proceed,
        s.decision(digest) == Decision::Proceed <==> s.count(digest) == 0
            && !s.uploaded.contains_key(digest),
{
}

/// A call that changes a state.
pub enum Operation {
    /// [`State::record`].
    Record(Block),
    /// [`State::advance_queue_floor`].
    AdvanceQueueFloor(u64),
    /// [`State::mark_uploaded`].
    MarkUploaded { digest: Digest, height: u64 },
    /// [`State::cache_block`].
    CacheBlock(Block),
    /// [`State::start_certificate_upload`].
    StartCertificateUpload(Digest),
    /// [`State::finish_certificate_upload`].
    FinishCertificateUpload { digest: Digest, uploaded_height: Option<u64> },
    /// [`State::observe_finalization`].
    ObserveFinalization(u64),
    /// [`State::prune`].
    Prune,
}

impl StateView {
    /// The state after a call.
    pub open spec fn applying(self, operation: Operation) -> StateView {
        match operation {
            Operation::Record(block) => self.recorded(block),
            Operation::AdvanceQueueFloor(height) => self.floor_advanced(height),
            Operation::MarkUploaded { digest, height } => self.marked_uploaded(digest, height),
            Operation::CacheBlock(block) => self.caching(block),
            Operation::StartCertificateUpload(digest) => self.upload_started(digest),
            Operation::FinishCertificateUpload { digest, uploaded_height } => self.upload_finished(
                digest,
                uploaded_height,
            ),
            Operation::ObserveFinalization(height) => self.finalized(height),
            Operation::Prune => self.pruned(),
        }
    }

    /// The state after calls, one after the other from the initial state.
    pub open spec fn after(history: Seq<Operation>) -> StateView
        decreases history.len(),
    {
        if history.len() == 0 {
            StateView::initial()
        } else {
            StateView::after(history.drop_last()).applying(history.last())
        }
    }
}

/// The greatest queue floor given in calls, or zero.
pub open spec fn greatest_floor(history: Seq<Operation>) -> u64
    decreases history.len(),
{
    if history.len() == 0 {
        0
    } else {
        let sooner = greatest_floor(history.drop_last());
        match history.last() {
            Operation::AdvanceQueueFloor(height) => max(sooner, height),
            _ => sooner,
        }
    }
}

/// The height with which calls last marked a digest as uploaded, if they did.
pub open spec fn last_upload(history: Seq<Operation>, digest: Digest) -> Option<u64>
    decreases history.len(),
{
    if history.len() == 0 {
        None
    } else {
        let sooner = last_upload(history.drop_last(), digest);
        match history.last() {
            Operation::MarkUploaded { digest: marked, height } if marked == digest => Some(height),
            Operation::FinishCertificateUpload {
                digest: marked,
                uploaded_height: Some(height),
            } if marked == digest => Some(height),
            _ => sooner,
        }
    }
}

/// How many certificate uploads calls started for a digest.
pub open spec fn uploads_started(history: Seq<Operation>, digest: Digest) -> nat
    decreases history.len(),
{
    if history.len() == 0 {
        0
    } else {
        let sooner = uploads_started(history.drop_last(), digest);
        if history.last() == Operation::StartCertificateUpload(digest) {
            sooner + 1
        } else {
            sooner
        }
    }
}

/// How many certificate uploads calls finished for a digest.
pub open spec fn uploads_finished(history: Seq<Operation>, digest: Digest) -> nat
    decreases history.len(),
{
    if history.len() == 0 {
        0
    } else {
        let sooner = uploads_finished(history.drop_last(), digest);
        match history.last() {
            Operation::FinishCertificateUpload { digest: finished, .. } if finished == digest =>
                sooner + 1,
            _ => sooner,
        }
    }
}

/// Whether calls can be made in this order: none finishes a certificate upload that is not
/// in flight, and the number in flight for a digest can be counted.
pub open spec fn can_be_made(history: Seq<Operation>) -> bool
    decreases history.len(),
{
    if history.len() == 0 {
        true
    } else {
        let sooner = history.drop_last();
        &&& can_be_made(sooner)
        &&& match history.last() {
            Operation::StartCertificateUpload(digest) => uploads_started(sooner, digest)
                - uploads_finished(sooner, digest) < usize::MAX,
            Operation::FinishCertificateUpload { digest, .. } => uploads_started(sooner, digest)
                > uploads_finished(sooner, digest),
            _ => true,
        }
    }
}

/// What a state holds after calls, as far as a digest is concerned.
proof fn lemma_history(history: Seq<Operation>, digest: Digest)
    requires
        can_be_made(history),
    ensures
        ({
            let s = StateView::after(history);
            &&& s.acked_through == greatest_floor(history)
            &&& s.uploaded.contains_key(digest) <==> (last_upload(history, digest) matches Some(
                height,
            ) && height >= greatest_floor(history))
            &&& s.uploaded.contains_key(digest) ==> last_upload(history, digest) == Some(
                s.uploaded[digest],
            )
            &&& s.count(digest) == uploads_started(history, digest) - uploads_finished(
                history,
                digest,
            )
            &&& s.in_flight.contains_key(digest) <==> s.count(digest) > 0
        }),
    decreases history.len(),
{
    if history.len() > 0 {
        let sooner = history.drop_last();
        lemma_history(sooner, digest);
        match history.last() {
            Operation::FinishCertificateUpload { digest: finished, .. } => {
                lemma_history(sooner, finished);
            },
            Operation::StartCertificateUpload(started) => {
                lemma_history(sooner, started);
            },
            _ => {},
        }
    }
}

/// What the backfiller is told about a digest after any calls that can be made: to skip it
/// exactly when it was marked as uploaded and the last height that it was marked with is at
/// least the greatest queue floor given so far; otherwise to wait exactly when more
/// certificate uploads were started than finished for it; otherwise to proceed.
pub proof fn law_decision_follows_the_history(history: Seq<Operation>, digest: Digest)
    requires
        can_be_made(history),
    ensures
        StateView::after(history).decision(digest) == if (last_upload(history, digest) matches Some(
            height,
        ) && height >= greatest_floor(history)) {
            Decision::Skip
        } else if uploads_started(history, digest) > uploads_finished(history, digest) {
            Decision::Wait
        } else {
            Decision::Proceed
        },
{
    lemma_history(history, digest);
}

/// After any calls that can be made the state is valid, and the next call can be made on it
/// exactly when it can be made after them.
pub proof fn law_history_keeps_the_state_valid(
    history: Seq<Operation>,
    digest: Digest,
    uploaded_height: Option<u64>,
)
    requires
        can_be_made(history),
    ensures
        StateView::after(history).valid(),
        StateView::after(history).count(digest) == uploads_started(history, digest)
            - uploads_finished(history, digest),
        can_be_made(history.push(Operation::StartCertificateUpload(digest))) <==> StateView::after(
            history,
        ).count(digest) < usize::MAX,
        can_be_made(
            history.push(Operation::FinishCertificateUpload { digest, uploaded_height }),
        ) <==> StateView::after(history).in_flight.contains_key(digest),
    decreases history.len(),
{
    lemma_history(history, digest);
    assert(history.push(Operation::StartCertificateUpload(digest)).drop_last() =~= history);
    let finish = Operation::FinishCertificateUpload { digest, uploaded_height };
    assert(history.push(finish).drop_last() =~= history);
    if history.len() > 0 {
        let sooner = history.drop_last();
        let s = StateView::after(sooner);
        law_history_keeps_the_state_valid(sooner, digest, uploaded_height);
        match history.last() {
            Operation::Record(block) => {
                law_operations_keep_the_state_valid(s, block, digest, 0, None);
            },
            Operation::AdvanceQueueFloor(height) | Operation::ObserveFinalization(height) => {
                law_operations_keep_the_state_valid(s, arbitrary(), digest, height, None);
            },
            Operation::MarkUploaded { digest: marked, height } => {
                law_operations_keep_the_state_valid(s, arbitrary(), marked, height, None);
            },
            Operation::CacheBlock(block) => {
                law_operations_keep_the_state_valid(s, block, digest, 0, None);
            },
            Operation::StartCertificateUpload(started) => {
                lemma_history(sooner, started);
                law_operations_keep_the_state_valid(s, arbitrary(), started, 0, None);
            },
            Operation::FinishCertificateUpload { digest: finished, uploaded_height: uploaded } => {
                lemma_history(sooner, finished);
                law_operations_keep_the_state_valid(s, arbitrary(), finished, 0, uploaded);
            },
            Operation::Prune => {
                s.lemma_pruned();
            },
        }
    }
}

/// The acknowledged height and the latest finalized height never go back.
pub proof fn law_watermarks_never_go_back(
    s: StateView,
    block: Block,
    digest: Digest,
    height: u64,
    uploaded: Option<u64>,
)
    ensures
        s.recorded(block).latest_finalized >= s.latest_finalized,
        s.recorded(block).latest_finalized >= block.height,
        s.recorded(block).acked_through == s.acked_through,
        s.finalized(height).latest_finalized >= s.latest_finalized,
        s.finalized(height).acked_through == s.acked_through,
        s.floor_advanced(height).acked_through >= s.acked_through,
        s.floor_advanced(height).acked_through >= height,
        s.floor_advanced(height).latest_finalized == s.latest_finalized,
        s.caching(block).acked_through == s.acked_through,
        s.caching(block).latest_finalized == s.latest_finalized,
        s.marked_uploaded(digest, height).acked_through == s.acked_through,
        s.marked_uploaded(digest, height).latest_finalized == s.latest_finalized,
        s.upload_started(digest).acked_through == s.acked_through,
        s.upload_started(digest).latest_finalized == s.latest_finalized,
        s.upload_finished(digest, uploaded).acked_through == s.acked_through,
        s.upload_finished(digest, uploaded).latest_finalized == s.latest_finalized,
{
}

/// Every operation keeps the state valid.
pub proof fn law_operations_keep_the_state_valid(
    s: StateView,
    block: Block,
    digest: Digest,
    height: u64,
    uploaded: Option<u64>,
)
    requires
        s.valid(),
    ensures
        s.finalized(height).valid(),
        s.recorded(block).valid(),
        s.caching(block).valid(),
        s.floor_advanced(height).valid(),
        s.marked_uploaded(digest, height).valid(),
        s.count(digest) < usize::MAX ==> s.upload_started(digest).valid(),
        s.in_flight.contains_key(digest) ==> s.upload_finished(digest, uploaded).valid(),
{
    let seen = StateView { latest_finalized: max(s.latest_finalized, height), ..s };
    assert(seen.valid());
    seen.lemma_pruned();
    let seen_block = StateView { latest_finalized: max(s.latest_finalized, block.height), ..s };
    assert(seen_block.valid());
    seen_block.lemma_pruned();
    seen_block.pruned().lemma_caching(block);
    s.lemma_caching(block);
    let floored = StateView { acked_through: max(s.acked_through, height), ..s };
    assert(floored.valid());
    floored.lemma_pruned();
    s.lemma_uploading(digest, height);
    s.uploading(digest, height).lemma_pruned();
    if s.count(digest) < usize::MAX {
        s.lemma_upload_started(digest);
    }
    if s.in_flight.contains_key(digest) {
        s.lemma_upload_ended(digest);
        match uploaded {
            Some(h) => {
                s.upload_ended(digest).lemma_uploading(digest, h);
                s.upload_ended(digest).uploading(digest, h).lemma_pruned();
            },
            None => {
                s.upload_ended(digest).lemma_pruned();
            },
        }
    }
}

/// Recording a finalized block leaves everything but the cache entry of the block itself
/// exactly as observing its height does.
pub proof fn law_recording_is_observing_and_caching(s: StateView, block: Block, d: Digest)
    ensures
        d != block.digest ==> s.recorded(block).cached.contains_key(d) == s.finalized(
            block.height,
        ).cached.contains_key(d),
        d != block.digest ==> s.recorded(block).cached[d] == s.finalized(block.height).cached[d],
        s.recorded(block).uploaded == s.finalized(block.height).uploaded,
        s.recorded(block).in_flight == s.in_flight,
        s.finalized(block.height).in_flight == s.in_flight,
        s.recorded(block).latest_finalized == s.finalized(block.height).latest_finalized,
        s.recorded(block).acked_through == s.acked_through,
{
}

/// A cached block that is not older than any finalized one, or whose certificate upload is
/// in flight, survives the notification of any finalized block.
pub proof fn law_needed_blocks_survive_recording(s: StateView, block: Block, d: Digest)
    requires
        s.cached.contains_key(d),
        s.in_flight.contains_key(d) || (s.cached[d].height >= s.latest_finalized
            && s.cached[d].height >= block.height),
    ensures
        s.recorded(block).cached.contains_key(d),
        s.recorded(block).cached[d] == s.cached[d],
        s.finalized(block.height).cached.contains_key(d),
        s.finalized(block.height).cached[d] == s.cached[d],
{
    let seen = StateView { latest_finalized: max(s.latest_finalized, block.height), ..s };
    assert(seen.cached.contains_key(d));
    assert(seen.keeps_height(seen.cached[d].height));
}

/// What two calls on equal states have in common: recording a block and observing its
/// height differ at most in what is cached under the digest of the block.
pub proof fn law_record_and_observe_agree_on_other_blocks(
    s: &mut State,
    t: &mut State,
    block: Block,
    entry: Option<Entry>,
    d: Digest,
)
    requires
        old(s)@ == old(t)@,
        call_ensures(State::record, (s, &block), entry),
        call_ensures(State::observe_finalization, (t, block.height), ()),
    ensures
        final(s)@.uploaded == final(t)@.uploaded,
        final(s)@.in_flight == final(t)@.in_flight,
        final(s)@.latest_finalized == final(t)@.latest_finalized,
        final(s)@.acked_through == final(t)@.acked_through,
        d != block.digest ==> {
            &&& final(s)@.cached.contains_key(d) == final(t)@.cached.contains_key(d)
            &&& final(s)@.cached[d] == final(t)@.cached[d]
        },
{
}

/// Recording a finalized block: it counts as seen, gets an entry with its own height and
/// digest exactly where it is not known to be uploaded, and is in the cache then.
pub proof fn law_recorded_block_is_queued_and_cached(
    s: &mut State,
    block: Block,
    entry: Option<Entry>,
)
    requires
        call_ensures(State::record, (s, &block), entry),
    ensures
        ({
            let before = old(s)@;
            let after = final(s)@;
            &&& after.latest_finalized >= block.height
            &&& after.latest_finalized >= before.latest_finalized
            &&& after.latest_finalized == block.height || after.latest_finalized
                == before.latest_finalized
            &&& entry is None <==> before.uploaded.contains_key(block.digest)
                && before.uploaded[block.digest] >= before.acked_through
            &&& entry matches Some(queued) ==> {
                &&& queued.height == block.height
                &&& queued.digest == block.digest
                &&& after.cached.contains_key(block.digest)
                &&& after.cached[block.digest] == block || before.cached.contains_key(
                    block.digest,
                ) && after.cached[block.digest] == before.cached[block.digest]
                &&& !before.cached.contains_key(block.digest) ==> after.cached[block.digest]
                    == block
            }
            &&& entry is None && !before.cached.contains_key(block.digest)
                ==> !after.cached.contains_key(block.digest)
        }),
{
}

/// What pruning does to one cached block. One that stays although it is older than the
/// latest finalized block has one in flight that is not newer.
proof fn lemma_pruned_block(s: StateView, d: Digest, e: Digest) -> (other: Digest)
    ensures
        s.pruned().cached.contains_key(d) ==> s.cached.contains_key(d) && s.pruned().cached[d]
            == s.cached[d],
        s.cached.contains_key(d) && s.cached[d].height >= s.latest_finalized
            ==> s.pruned().cached.contains_key(d),
        s.cached.contains_key(d) && s.cached.contains_key(e) && s.in_flight.contains_key(e)
            && s.cached[e].height <= s.cached[d].height ==> s.pruned().cached.contains_key(d),
        s.pruned().cached.contains_key(d) && s.cached[d].height < s.latest_finalized
            ==> s.in_flight.contains_key(other) && s.cached.contains_key(other)
            && s.cached[other].height <= s.cached[d].height,
{
    choose|other: Digest|
        #![trigger s.cached.contains_key(other)]
        s.in_flight.contains_key(other) && s.cached.contains_key(other) && s.cached[other].height
            <= s.cached[d].height
}

/// What observing a finalized height drops: a cached block `d` goes exactly where it is
/// older than every finalized height seen and older than each cached block, such as `e`,
/// whose certificate upload is in flight. What stays is unchanged.
pub proof fn law_observing_drops_only_older_blocks(s: &mut State, height: u64, d: Digest, e: Digest)
    requires
        call_ensures(State::observe_finalization, (s, height), ()),
    ensures
        ({
            let before = old(s)@;
            let after = final(s)@;
            let latest = after.latest_finalized;
            &&& latest >= height && latest >= before.latest_finalized
            &&& latest == height || latest == before.latest_finalized
            &&& after.acked_through == before.acked_through
            &&& after.in_flight == before.in_flight
            &&& after.cached.contains_key(d) ==> before.cached.contains_key(d) && after.cached[d]
                == before.cached[d]
            &&& before.cached.contains_key(d) && before.cached[d].height >= latest
                ==> after.cached.contains_key(d)
            &&& before.cached.contains_key(d) && before.cached.contains_key(e)
                && before.in_flight.contains_key(e) && before.cached[e].height <= before.cached[d].height
                ==> after.cached.contains_key(d)
            &&& before.cached.contains_key(d) && before.cached[d].height < latest && (forall|
                other: Digest,
            | #[trigger]
                before.in_flight.contains_key(other) && before.cached.contains_key(other)
                    ==> before.cached[d].height < before.cached[other].height)
                ==> !after.cached.contains_key(d)
            &&& after.uploaded.contains_key(d) <==> before.uploaded.contains_key(d)
                && before.uploaded[d] >= before.acked_through
            &&& after.uploaded.contains_key(d) ==> after.uploaded[d] == before.uploaded[d]
        }),
{
    let seen = StateView {
        latest_finalized: max(old(s)@.latest_finalized, height),
        ..old(s)@
    };
    let other = lemma_pruned_block(seen, d, e);
    assert(old(s)@.in_flight.contains_key(other) == seen.in_flight.contains_key(other));
}

/// What retiring the queue below a height forgets: exactly the uploads below it, and from
/// the cache only what pruning drops anyway.
pub proof fn law_floor_forgets_only_older_uploads(s: &mut State, height: u64, d: Digest, e: Digest)
    requires
        call_ensures(State::advance_queue_floor, (s, height), ()),
    ensures
        ({
            let before = old(s)@;
            let after = final(s)@;
            let floor = after.acked_through;
            &&& floor >= height && floor >= before.acked_through
            &&& floor == height || floor == before.acked_through
            &&& after.latest_finalized == before.latest_finalized
            &&& after.in_flight == before.in_flight
            &&& after.uploaded.contains_key(d) <==> before.uploaded.contains_key(d)
                && before.uploaded[d] >= height && before.uploaded[d] >= before.acked_through
            &&& after.uploaded.contains_key(d) ==> after.uploaded[d] == before.uploaded[d]
            &&& after.cached.contains_key(d) ==> before.cached.contains_key(d) && after.cached[d]
                == before.cached[d]
            &&& before.cached.contains_key(d) && before.cached[d].height >= before.latest_finalized
                ==> after.cached.contains_key(d)
            &&& before.cached.contains_key(d) && before.cached.contains_key(e)
                && before.in_flight.contains_key(e) && before.cached[e].height <= before.cached[d].height
                ==> after.cached.contains_key(d)
            &&& before.cached.contains_key(d) && before.cached[d].height < before.latest_finalized && (forall|
                other: Digest,
            | #[trigger]
                before.in_flight.contains_key(other) && before.cached.contains_key(other)
                    ==> before.cached[d].height < before.cached[other].height)
                ==> !after.cached.contains_key(d)
        }),
{
    let floored = StateView { acked_through: max(old(s)@.acked_through, height), ..old(s)@ };
    let other = lemma_pruned_block(floored, d, e);
    assert(old(s)@.in_flight.contains_key(other) == floored.in_flight.contains_key(other));
}

/// What marking a block as uploaded changes: it leaves the cache and is remembered with its
/// height, unless that lies below the acknowledged one; other uploads stay as pruning
/// leaves them, and other cached blocks as it does without this one.
pub proof fn law_uploaded_block_leaves_the_cache(
    s: &mut State,
    digest: Digest,
    height: u64,
    d: Digest,
    e: Digest,
)
    requires
        call_ensures(State::mark_uploaded, (s, digest, height), ()),
    ensures
        ({
            let before = old(s)@;
            let after = final(s)@;
            &&& after.acked_through == before.acked_through
            &&& after.latest_finalized == before.latest_finalized
            &&& after.in_flight == before.in_flight
            &&& !after.cached.contains_key(digest)
            &&& after.uploaded.contains_key(digest) <==> height >= before.acked_through
            &&& after.uploaded.contains_key(digest) ==> after.uploaded[digest] == height
            &&& d != digest ==> (after.uploaded.contains_key(d) <==> before.uploaded.contains_key(d)
                && before.uploaded[d] >= before.acked_through)
            &&& after.uploaded.contains_key(d) && d != digest ==> after.uploaded[d]
                == before.uploaded[d]
            &&& after.cached.contains_key(d) ==> before.cached.remove(digest).contains_key(d) && after.cached[d]
                == before.cached.remove(digest)[d]
            &&& before.cached.remove(digest).contains_key(d) && before.cached.remove(digest)[d].height >= before.latest_finalized
                ==> after.cached.contains_key(d)
            &&& before.cached.remove(digest).contains_key(d) && before.cached.remove(digest).contains_key(e)
                && before.in_flight.contains_key(e) && before.cached.remove(digest)[e].height <= before.cached.remove(digest)[d].height
                ==> after.cached.contains_key(d)
            &&& before.cached.remove(digest).contains_key(d) && before.cached.remove(digest)[d].height < before.latest_finalized && (forall|
                other: Digest,
            | #[trigger]
                before.in_flight.contains_key(other) && before.cached.remove(digest).contains_key(other)
                    ==> before.cached.remove(digest)[d].height < before.cached.remove(digest)[other].height)
                ==> !after.cached.contains_key(d)
        }),
{
    let left = old(s)@.uploading(digest, height);
    let other = lemma_pruned_block(left, d, e);
    assert(old(s)@.in_flight.contains_key(other) == left.in_flight.contains_key(other));
}

/// What ending a certificate upload counts: one fewer is in flight for the digest and as
/// many as before for others; with a height the block is uploaded and leaves the cache, and
/// without one nothing is uploaded.
pub proof fn law_finished_upload_is_counted_once(
    s: &mut State,
    digest: Digest,
    uploaded_height: Option<u64>,
    d: Digest,
)
    requires
        old(s)@.in_flight.contains_key(digest),
        old(s)@.in_flight[digest] > 0,
        call_ensures(State::finish_certificate_upload, (s, &digest, uploaded_height), ()),
    ensures
        final(s)@.acked_through == old(s)@.acked_through,
        final(s)@.latest_finalized == old(s)@.latest_finalized,
        final(s)@.in_flight.contains_key(digest) <==> old(s)@.in_flight[digest] > 1,
        final(s)@.in_flight.contains_key(digest) ==> final(s)@.in_flight[digest] + 1
            == old(s)@.in_flight[digest],
        d != digest ==> final(s)@.in_flight.contains_key(d) == old(s)@.in_flight.contains_key(d),
        d != digest && old(s)@.in_flight.contains_key(d) ==> final(s)@.in_flight[d]
            == old(s)@.in_flight[d],
        match uploaded_height {
            Some(height) => {
                &&& !final(s)@.cached.contains_key(digest)
                &&& final(s)@.uploaded.contains_key(digest) <==> height >= old(s)@.acked_through
                &&& final(s)@.uploaded.contains_key(digest) ==> final(s)@.uploaded[digest]
                    == height
            },
            None => {
                &&& final(s)@.uploaded.contains_key(digest) <==> old(s)@.uploaded.contains_key(
                    digest,
                ) && old(s)@.uploaded[digest] >= old(s)@.acked_through
                &&& final(s)@.uploaded.contains_key(digest) ==> final(s)@.uploaded[digest]
                    == old(s)@.uploaded[digest]
            },
        },
        d != digest ==> (final(s)@.uploaded.contains_key(d) <==> old(s)@.uploaded.contains_key(d)
            && old(s)@.uploaded[d] >= old(s)@.acked_through),
        d != digest && final(s)@.uploaded.contains_key(d) ==> final(s)@.uploaded[d]
            == old(s)@.uploaded[d],
{
}

/// What ending a certificate upload without the block drops from the cache: what is older
/// than the latest finalized block and than each cached block, such as `e`, whose
/// certificate upload is still in flight, and nothing else.
pub proof fn law_failed_upload_keeps_what_is_needed(
    s: &mut State,
    digest: Digest,
    d: Digest,
    e: Digest,
)
    requires
        old(s)@.in_flight.contains_key(digest),
        call_ensures(State::finish_certificate_upload, (s, &digest, None), ()),
    ensures
        final(s)@.cached.contains_key(d) ==> old(s)@.cached.contains_key(d) && final(s)@.cached[d]
            == old(s)@.cached[d],
        old(s)@.cached.contains_key(d) && old(s)@.cached[d].height >= old(s)@.latest_finalized
            ==> final(s)@.cached.contains_key(d),
        old(s)@.cached.contains_key(d) && old(s)@.cached.contains_key(e)
            && final(s)@.in_flight.contains_key(e) && old(s)@.cached[e].height
            <= old(s)@.cached[d].height ==> final(s)@.cached.contains_key(d),
        old(s)@.cached.contains_key(d) && old(s)@.cached[d].height < old(s)@.latest_finalized && (
        forall|other: Digest| #[trigger]
            final(s)@.in_flight.contains_key(other) && old(s)@.cached.contains_key(other)
                ==> old(s)@.cached[d].height < old(s)@.cached[other].height)
            ==> !final(s)@.cached.contains_key(d),
{
    let ended = old(s)@.upload_ended(digest);
    let other = lemma_pruned_block(ended, d, e);
    assert(final(s)@.in_flight.contains_key(other) == ended.in_flight.contains_key(other));
}

/// What ending a certificate upload with the block drops from the cache: the block itself,
/// and what is older than the latest finalized block and than each other cached block, such
/// as `e`, whose certificate upload is still in flight. It counts as ending it without the
/// block does.
pub proof fn law_finished_upload_keeps_what_is_needed(
    s: &mut State,
    t: &mut State,
    digest: Digest,
    height: u64,
    d: Digest,
    e: Digest,
)
    requires
        old(s)@ == old(t)@,
        old(s)@.in_flight.contains_key(digest),
        call_ensures(State::finish_certificate_upload, (s, &digest, Some(height)), ()),
        call_ensures(State::finish_certificate_upload, (t, &digest, None), ()),
    ensures
        !final(s)@.cached.contains_key(digest),
        final(s)@.in_flight == final(t)@.in_flight,
        final(s)@.cached.contains_key(d) ==> old(s)@.cached.contains_key(d) && final(s)@.cached[d]
            == old(s)@.cached[d],
        d != digest && old(s)@.cached.contains_key(d) && old(s)@.cached[d].height
            >= old(s)@.latest_finalized ==> final(s)@.cached.contains_key(d),
        d != digest && e != digest && old(s)@.cached.contains_key(d) && old(s)@.cached.contains_key(
            e,
        ) && final(s)@.in_flight.contains_key(e) && old(s)@.cached[e].height
            <= old(s)@.cached[d].height ==> final(s)@.cached.contains_key(d),
        old(s)@.cached.contains_key(d) && old(s)@.cached[d].height < old(s)@.latest_finalized && (
        forall|other: Digest| #[trigger]
            final(s)@.in_flight.contains_key(other) && old(s)@.cached.contains_key(other) && other
                != digest ==> old(s)@.cached[d].height < old(s)@.cached[other].height)
            ==> !final(s)@.cached.contains_key(d),
{
    let left = old(s)@.upload_ended(digest).uploading(digest, height);
    let other = lemma_pruned_block(left, d, e);
    assert(final(s)@.in_flight.contains_key(other) == left.in_flight.contains_key(other));
}

/// Beginning a certificate upload adds one to what is in flight for its digest, and changes
/// nothing else.
pub proof fn law_started_upload_is_counted_once(s: &mut State, digest: Digest, d: Digest)
    requires
        old(s)@.count(digest) < usize::MAX,
        call_ensures(State::start_certificate_upload, (s, digest), ()),
    ensures
        ({
            let before = old(s)@;
            let after = final(s)@;
            &&& after.in_flight.contains_key(digest)
            &&& before.in_flight.contains_key(digest) ==> after.in_flight[digest]
                == before.in_flight[digest] + 1
            &&& !before.in_flight.contains_key(digest) ==> after.in_flight[digest] == 1
            &&& d != digest ==> after.in_flight.contains_key(d) == before.in_flight.contains_key(d)
            &&& d != digest && before.in_flight.contains_key(d) ==> after.in_flight[d]
                == before.in_flight[d]
            &&& after.uploaded == before.uploaded
            &&& after.cached == before.cached
            &&& after.acked_through == before.acked_through
            &&& after.latest_finalized == before.latest_finalized
        }),
{
}

/// Offering a block to the cache puts it under its own digest where nothing was, and
/// changes nothing else.
pub proof fn law_caching_only_adds(s: &mut State, block: Block, d: Digest)
    requires
        call_ensures(State::cache_block, (s, block), ()),
    ensures
        ({
            let before = old(s)@;
            let after = final(s)@;
            &&& after.cached.contains_key(d) <==> before.cached.contains_key(d) || d
                == block.digest
            &&& before.cached.contains_key(d) ==> after.cached[d] == before.cached[d]
            &&& !before.cached.contains_key(block.digest) ==> after.cached[block.digest] == block
            &&& after.uploaded == before.uploaded
            &&& after.in_flight == before.in_flight
            &&& after.acked_through == before.acked_through
            &&& after.latest_finalized == before.latest_finalized
        }),
{
}

/// What a state says about a digest: a cached block exactly where there is one, the block
/// itself; and the backfiller skips what is uploaded, waits for what is in flight and
/// proceeds with nothing else.
pub proof fn law_state_answers_what_it_holds(
    s: State,
    digest: Digest,
    uploaded: bool,
    block: Option<Block>,
    decision: Decision,
)
    requires
        call_ensures(State::is_uploaded, (&s, &digest), uploaded),
        call_ensures(State::cached_block, (&s, &digest), block),
        call_ensures(State::should_upload, (&s, &digest), decision),
    ensures
        uploaded <==> s@.uploaded.contains_key(digest),
        block is Some <==> s@.cached.contains_key(digest),
        block matches Some(found) ==> s@.cached[digest] == found,
        decision == Decision::Skip <==> uploaded,
        decision == Decision::Wait <==> !uploaded && s@.in_flight.contains_key(digest),
        decision == Decision::Proceed <==> !uploaded && !s@.in_flight.contains_key(digest),
{
}

/// A new state knows of nothing: every digest may be uploaded and none is cached.
pub proof fn law_new_state_knows_nothing(s: State, digest: Digest)
    requires
        call_ensures(State::new, (), s),
    ensures
        !s@.uploaded.contains_key(digest),
        !s@.cached.contains_key(digest),
        !s@.in_flight.contains_key(digest),
        s@.acked_through == 0,
        s@.latest_finalized == 0,
{
}

/// How an entry is written: eight bytes of its height, then its digest, behind what was
/// there; and reading it there gives it back.
pub proof fn law_entry_is_height_then_digest(entry: Entry, buf: &mut Vec<u8>)
    requires
        call_ensures(Entry::write, (&entry, buf), ()),
    ensures
        final(buf)@.len() == old(buf)@.len() + 40,
        final(buf)@.take(old(buf)@.len() as int) == old(buf)@,
        final(buf)@.skip(old(buf)@.len() as int).take(8) == be_bytes(entry.height),
        final(buf)@.skip(old(buf)@.len() as int).skip(8) == entry.digest@,
{
    assert(final(buf)@.take(old(buf)@.len() as int) =~= old(buf)@);
    assert(final(buf)@.skip(old(buf)@.len() as int) =~= entry.bytes());
    assert(entry.bytes().take(8) =~= be_bytes(entry.height));
    assert(entry.bytes().skip(8) =~= entry.digest@);
}

/// Reading bytes that begin with the height and digest of an entry gives the entry, and
/// fewer than 40 bytes give none.
pub proof fn law_entry_is_read_as_written(bytes: &[u8], entry: Entry, read: Option<Entry>)
    requires
        call_ensures(Entry::read, (bytes,), read),
    ensures
        bytes@.len() < 40 <==> read is None,
        bytes@.len() >= 40 && bytes@.take(8) == be_bytes(entry.height) && bytes@.subrange(8, 40)
            == entry.digest@ ==> read == Some(entry),
{
    if bytes@.len() >= 40 && bytes@.take(8) == be_bytes(entry.height) && bytes@.subrange(8, 40)
        == entry.digest@ {
        assert(bytes@ =~= entry.bytes() + bytes@.skip(40));
        Entry::law_round_trip(entry, bytes@.skip(40), read);
    }
}

/// Pruning is what observing a height does that is not new.
pub proof fn law_prune_is_observing_nothing_new(s: &mut State, t: &mut State, height: u64)
    requires
        old(s)@ == old(t)@,
        height <= old(t)@.latest_finalized,
        call_ensures(State::prune, (s,), ()),
        call_ensures(State::observe_finalization, (t, height), ()),
    ensures
        final(s)@ == final(t)@,
{
}

} // verus!

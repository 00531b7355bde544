//! The head of a chain of blocks and what extends it.

use crate::crypto::sha256_digest;
use crate::genesis::{genesis_header, is_genesis};
use crate::types::{digest_eq, Block, BlockHeader, Context, Digest, PublicKey, Round};
use vstd::prelude::*;
use vstd::utf8::encode_utf8;

verus! {

/// The message that the genesis block of a sequenced chain commits to.
pub const GENESIS: &'static str = "alto-coro-genesis";

/// The head of a chain: the height, digest and timestamp of its last block.
#[derive(Clone, Copy, Debug, PartialEq, Eq)]
pub struct ChainState {
    pub height: u64,
    pub parent: Digest,
    pub timestamp: u64,
}

/// Why a block does not extend a chain.
#[derive(Clone, Copy, Debug, PartialEq, Eq)]
pub enum Discontinuity {
    /// The height of the block is not the next one.
    Height { chain: u64, got: u64 },
    /// The block names another parent than the head of the chain.
    Parent,
    /// The block is not later than the head of the chain.
    Timestamp,
}

pub open spec fn larger(a: int, b: int) -> int {
    if a >= b {
        a
    } else {
        b
    }
}

impl ChainState {
    /// The chain whose last block is this one.
    pub open spec fn at(block: Block) -> ChainState {
        ChainState { height: block.height, parent: block.digest, timestamp: block.timestamp }
    }

    /// Whether a block has the next height and names the head of the chain as its parent.
    pub open spec fn links(self, block: Block) -> bool {
        block.height == self.height + 1 && block.parent == self.parent
    }

    /// Why a block does not extend the chain, if it does not: the height counts first,
    /// then the parent, then the timestamp.
    pub open spec fn discontinuity(self, block: Block) -> Option<Discontinuity> {
        if block.height != self.height + 1 {
            Some(Discontinuity::Height { chain: self.height, got: block.height })
        } else if block.parent != self.parent {
            Some(Discontinuity::Parent)
        } else if block.timestamp <= self.timestamp {
            Some(Discontinuity::Timestamp)
        } else {
            None
        }
    }

    /// Whether a block extends the chain.
    pub open spec fn accepts(self, block: Block) -> bool {
        self.discontinuity(block) is None
    }

    /// The chain after the first `n` of some blocks.
    pub open spec fn after(self, blocks: Seq<Block>, n: int) -> ChainState {
        if n <= 0 {
            self
        } else {
            ChainState::at(blocks[n - 1])
        }
    }

    /// How many of some blocks extend the chain, one after the other from the first,
    /// before one does not or none is left.
    pub open spec fn accepted(self, blocks: Seq<Block>) -> nat
        decreases blocks.len(),
    {
        if blocks.len() > 0 && self.accepts(blocks[0]) {
            1 + ChainState::at(blocks[0]).accepted(blocks.drop_first())
        } else {
            0
        }
    }

    /// How many of some blocks have the next height and the parent that the chain asks
    /// for, one after the other from the first, before one has not or none is left.
    pub open spec fn linked(self, blocks: Seq<Block>) -> nat
        decreases blocks.len(),
    {
        if blocks.len() > 0 && self.links(blocks[0]) {
            1 + ChainState::at(blocks[0]).linked(blocks.drop_first())
        } else {
            0
        }
    }

    /// The header of the next block: one higher than the head of the chain, in the view
    /// of that height, and later than the head wherever time allows it.
    pub open spec fn next_header(self, epoch: u64, leader: PublicKey, timestamp: u64) -> BlockHeader {
        BlockHeader {
            context: Context {
                round: Round { epoch, view: (self.height + 1) as u64 },
                leader,
                parent: (self.height, self.parent),
            },
            parent: self.parent,
            height: (self.height + 1) as u64,
            timestamp: if self.timestamp == u64::MAX {
                u64::MAX
            } else {
                larger(timestamp as int, self.timestamp + 1) as u64
            },
        }
    }

    /// The chain with nothing but its genesis block, whose digest `seal` computes.
    pub fn genesis<F: Fn(&BlockHeader) -> Digest>(epoch: u64, seal: F) -> (chain: ChainState)
        requires
            forall|header: &BlockHeader| call_requires(seal, (header,)),
        ensures
            chain.height == 0,
            chain.timestamp == 0,
            exists|header: BlockHeader|
                #[trigger] is_genesis(header, epoch, GENESIS@) && call_ensures(
                    seal,
                    (&header,),
                    chain.parent,
                ),
    {
        let header = genesis_header(epoch, GENESIS);
        let parent = seal(&header);
        ChainState { height: 0, parent, timestamp: 0 }
    }

    /// The header of the next block of a leader at a time.
    pub fn next_block(&self, epoch: u64, leader: PublicKey, timestamp: u64) -> (header: BlockHeader)
        requires
            self.height < u64::MAX,
        ensures
            header == self.next_header(epoch, leader, timestamp),
    {
        let height: u64 = self.height + 1;
        let context = Context {
            round: Round { epoch, view: height },
            leader,
            parent: (self.height, self.parent),
        };
        let least: u64 = self.timestamp.saturating_add(1);
        BlockHeader {
            context,
            parent: self.parent,
            height,
            timestamp: if timestamp >= least {
                timestamp
            } else {
                least
            },
        }
    }

    /// Makes a block the head of the chain.
    pub fn advance(&mut self, block: &Block)
        ensures
            *final(self) == ChainState::at(*block),
    {
        self.height = block.height;
        self.parent = block.digest;
        self.timestamp = block.timestamp;
    }

    /// Whether a block has the next height and the head of the chain as its parent.
    pub fn is_linked(&self, block: &Block) -> (linked: bool)
        ensures
            linked == self.links(*block),
    {
        self.height < u64::MAX && block.height == self.height + 1 && digest_eq(
            &block.parent,
            &self.parent,
        )
    }

    /// Why a block does not extend the chain, if it does not.
    pub fn find_discontinuity(&self, block: &Block) -> (found: Option<Discontinuity>)
        ensures
            found == self.discontinuity(*block),
    {
        if self.height == u64::MAX || block.height != self.height + 1 {
            return Some(Discontinuity::Height { chain: self.height, got: block.height });
        }
        if !digest_eq(&block.parent, &self.parent) {
            return Some(Discontinuity::Parent);
        }
        if block.timestamp <= self.timestamp {
            return Some(Discontinuity::Timestamp);
        }
        None
    }

    /// Advances over blocks as long as they extend the chain; says why the first one
    /// that does not does not.
    pub fn advance_all(&mut self, blocks: &Vec<Block>) -> (stopped: Option<Discontinuity>)
        ensures
            *final(self) == old(self).after(blocks@, old(self).accepted(blocks@) as int),
            stopped is None ==> old(self).accepted(blocks@) == blocks@.len(),
            stopped is Some ==> old(self).accepted(blocks@) < blocks@.len(),
            stopped is Some ==> stopped == final(self).discontinuity(
                blocks@[old(self).accepted(blocks@) as int],
            ),
    {
        let ghost start = *self;
        let mut i: usize = 0;
        assert(blocks@.skip(0) =~= blocks@);
        while i < blocks.len()
            invariant
                i <= blocks@.len(),
                start == *old(self),
                *self == start.after(blocks@, i as int),
                start.accepted(blocks@) == i + self.accepted(blocks@.skip(i as int)),
            decreases blocks@.len() - i,
        {
            let block = &blocks[i];
            assert(blocks@.skip(i as int)[0] == *block);
            assert(blocks@.skip(i as int).drop_first() =~= blocks@.skip(i + 1));
            match self.find_discontinuity(block) {
                Some(why) => {
                    return Some(why);
                },
                None => {
                    self.advance(block);
                },
            }
            i += 1;
        }
        None
    }

    /// Advances over blocks as long as they have the next height and the right parent;
    /// gives the position of the first one that has not.
    pub fn advance_linked(&mut self, blocks: &Vec<Block>) -> (stopped: Option<usize>)
        ensures
            *final(self) == old(self).after(blocks@, old(self).linked(blocks@) as int),
            match stopped {
                Some(at) => at == old(self).linked(blocks@) && at < blocks@.len(),
                None => old(self).linked(blocks@) == blocks@.len(),
            },
    {
        let ghost start = *self;
        let mut i: usize = 0;
        assert(blocks@.skip(0) =~= blocks@);
        while i < blocks.len()
            invariant
                i <= blocks@.len(),
                start == *old(self),
                *self == start.after(blocks@, i as int),
                start.linked(blocks@) == i + self.linked(blocks@.skip(i as int)),
            decreases blocks@.len() - i,
        {
            let block = &blocks[i];
            assert(blocks@.skip(i as int)[0] == *block);
            assert(blocks@.skip(i as int).drop_first() =~= blocks@.skip(i + 1));
            if !self.is_linked(block) {
                return Some(i);
            }
            self.advance(block);
            i += 1;
        }
        None
    }
}

/// Advances a chain over a block that was submitted, where the block has the next height
/// and the head of the chain as its parent.
pub fn advance_submitted_block(chain: &mut ChainState, block: &Block)
    ensures
        *final(chain) == if old(chain).links(*block) {
            ChainState::at(*block)
        } else {
            *old(chain)
        },
{
    if chain.is_linked(block) {
        chain.advance(block);
    }
}

/// What a chain accepts also links: restoring a chain from blocks that it once accepted
/// goes as far and ends at the same head.
pub proof fn law_accepted_blocks_link(chain: ChainState, blocks: Seq<Block>)
    ensures
        chain.accepted(blocks) <= chain.linked(blocks) <= blocks.len(),
        chain.accepted(blocks) == blocks.len() ==> chain.linked(blocks) == blocks.len(),
    decreases blocks.len(),
{
    if blocks.len() > 0 && chain.links(blocks[0]) {
        law_accepted_blocks_link(ChainState::at(blocks[0]), blocks.drop_first());
    }
}

/// The count of accepted blocks is at most that of the blocks, each one counted extends
/// the chain of those before it, and the next one does not.
pub proof fn lemma_accepted(chain: ChainState, blocks: Seq<Block>)
    ensures
        chain.accepted(blocks) <= blocks.len(),
        forall|i: int|
            0 <= i < chain.accepted(blocks) ==> (#[trigger] chain.after(blocks, i)).accepts(blocks[i]),
        chain.accepted(blocks) < blocks.len() ==> !chain.after(
            blocks,
            chain.accepted(blocks) as int,
        ).accepts(blocks[chain.accepted(blocks) as int]),
    decreases blocks.len(),
{
    if blocks.len() > 0 && chain.accepts(blocks[0]) {
        let next = ChainState::at(blocks[0]);
        let rest = blocks.drop_first();
        lemma_accepted(next, rest);
        assert forall|i: int| 0 <= i < chain.accepted(blocks) implies (#[trigger] chain.after(
            blocks,
            i,
        )).accepts(blocks[i]) by {
            if i > 0 {
                assert(next.after(rest, i - 1) == chain.after(blocks, i));
                assert(rest[i - 1] == blocks[i]);
            }
        }
        let n = chain.accepted(blocks) as int;
        assert(next.after(rest, n - 1) == chain.after(blocks, n));
    }
}

/// Blocks that a chain accepts continue it without a gap: heights count up by one from
/// the head of the chain, each block names the one before it as its parent, and
/// timestamps grow.
pub proof fn law_accepted_blocks_are_continuous(chain: ChainState, blocks: Seq<Block>, i: int)
    requires
        0 <= i < chain.accepted(blocks),
    ensures
        blocks[i].height == chain.height + 1 + i,
        blocks[i].parent == chain.after(blocks, i).parent,
        blocks[i].timestamp > chain.after(blocks, i).timestamp,
        i > 0 ==> blocks[i].parent == blocks[i - 1].digest && blocks[i].timestamp > blocks[i
            - 1].timestamp,
    decreases i,
{
    lemma_accepted(chain, blocks);
    assert(chain.after(blocks, i).accepts(blocks[i]));
    if i > 0 {
        law_accepted_blocks_are_continuous(chain, blocks, i - 1);
    }
}

/// Along an accepted chain every block is later than all before it.
pub proof fn law_timestamps_grow(chain: ChainState, blocks: Seq<Block>, i: int, j: int)
    requires
        0 <= i < j < chain.accepted(blocks),
    ensures
        chain.timestamp < blocks[i].timestamp < blocks[j].timestamp,
    decreases j,
{
    law_accepted_blocks_are_continuous(chain, blocks, j);
    law_accepted_blocks_are_continuous(chain, blocks, i);
    if i < j - 1 {
        law_timestamps_grow(chain, blocks, i, j - 1);
    }
    if i > 0 {
        law_timestamps_grow(chain, blocks, i - 1, i);
    }
}

/// The next block of a chain, once sealed, extends it, unless no later timestamp exists.
pub proof fn law_next_block_is_accepted(
    chain: ChainState,
    epoch: u64,
    leader: PublicKey,
    timestamp: u64,
    digest: Digest,
)
    requires
        chain.height < u64::MAX,
        chain.timestamp < u64::MAX,
    ensures
        chain.accepts(chain.next_header(epoch, leader, timestamp).sealed(digest)),
{
}

/// Cutting blocks into two batches changes nothing: where the first batch is accepted
/// whole, the second one goes on from there as if both were one.
pub proof fn law_batches_compose(chain: ChainState, first: Seq<Block>, second: Seq<Block>)
    requires
        chain.accepted(first) == first.len(),
    ensures
        chain.accepted(first + second) == first.len() + chain.after(
            first,
            first.len() as int,
        ).accepted(second),
        forall|n: int|
            0 <= n <= second.len() ==> #[trigger] chain.after(first + second, first.len() + n)
                == chain.after(first, first.len() as int).after(second, n),
    decreases first.len(),
{
    let whole = first + second;
    if first.len() == 0 {
        assert(whole =~= second);
    } else {
        let next = ChainState::at(first[0]);
        assert(chain.accepts(first[0]));
        assert(whole.drop_first() =~= first.drop_first() + second);
        law_batches_compose(next, first.drop_first(), second);
        assert(next.after(first.drop_first(), first.len() - 1) == chain.after(
            first,
            first.len() as int,
        ));
    }
}

/// The next block of a chain belongs to the leader and epoch that it was asked for, in the
/// view of its height, on the head of the chain; it is later than the head, unless no later
/// time exists, and its timestamp is the earliest `t` that is also not before the clock.
pub proof fn law_next_block_continues_the_chain(
    chain: ChainState,
    epoch: u64,
    leader: PublicKey,
    timestamp: u64,
    header: BlockHeader,
    t: u64,
)
    requires
        chain.height < u64::MAX,
        call_ensures(ChainState::next_block, (&chain, epoch, leader, timestamp), header),
    ensures
        header.height == chain.height + 1,
        header.parent == chain.parent,
        header.context.round.epoch == epoch,
        header.context.round.view == header.height,
        header.context.leader == leader,
        header.context.parent.0 == chain.height,
        header.context.parent.1 == chain.parent,
        header.timestamp >= timestamp,
        header.timestamp > chain.timestamp || header.timestamp == u64::MAX,
        timestamp <= t && chain.timestamp < t ==> header.timestamp <= t,
{
}

/// Making a block the head of a chain: the next block must then name it as its parent, be
/// one higher and be later.
pub proof fn law_advanced_chain_asks_for_the_next_block(
    chain: &mut ChainState,
    block: Block,
    next: Block,
    found: Option<Discontinuity>,
    linked: bool,
)
    requires
        call_ensures(ChainState::advance, (chain, &block), ()),
        call_ensures(ChainState::find_discontinuity, (&*final(chain), &next), found),
        call_ensures(ChainState::is_linked, (&*final(chain), &next), linked),
    ensures
        linked <==> next.height == block.height + 1 && next.parent == block.digest,
        found is None <==> linked && next.timestamp > block.timestamp,
        final(chain).height == block.height,
        final(chain).parent == block.digest,
        final(chain).timestamp == block.timestamp,
{
}

/// Why a block does not extend a chain: its height before its parent, its parent before its
/// timestamp, and nothing else.
pub proof fn law_discontinuities_name_what_is_wrong(
    chain: ChainState,
    block: Block,
    found: Option<Discontinuity>,
)
    requires
        call_ensures(ChainState::find_discontinuity, (&chain, &block), found),
    ensures
        found is None <==> block.height == chain.height + 1 && block.parent == chain.parent
            && chain.timestamp < block.timestamp,
        found matches Some(Discontinuity::Height { chain: at, got }) ==> at == chain.height && got
            == block.height && got != at + 1,
        found matches Some(Discontinuity::Parent) ==> block.height == chain.height + 1
            && block.parent != chain.parent,
        found matches Some(Discontinuity::Timestamp) ==> block.height == chain.height + 1
            && block.parent == chain.parent && block.timestamp <= chain.timestamp,
{
}

/// Advancing over blocks, each held against the one before it: where all are taken the
/// chain ends at the last one, and otherwise the reason is the one for which the first
/// block that is not taken does not extend the chain that was reached.
pub proof fn law_advancing_stops_at_the_first_gap(
    chain: &mut ChainState,
    blocks: Vec<Block>,
    stopped: Option<Discontinuity>,
    i: int,
)
    requires
        call_ensures(ChainState::advance_all, (chain, &blocks), stopped),
    ensures
        ({
            let start = *old(chain);
            let end = *final(chain);
            let all = blocks@;
            &&& stopped is None && all.len() > 0 ==> {
                &&& end.height == all.last().height == start.height + all.len()
                &&& end.parent == all.last().digest
                &&& end.timestamp == all.last().timestamp
            }
            &&& stopped is None && all.len() == 0 ==> end == start
            &&& stopped is None && 0 < i < all.len() ==> {
                &&& all[i].height == all[i - 1].height + 1
                &&& all[i].parent == all[i - 1].digest
                &&& all[i].timestamp > all[i - 1].timestamp
            }
            &&& stopped is None && all.len() > 0 ==> {
                &&& all[0].height == start.height + 1
                &&& all[0].parent == start.parent
                &&& all[0].timestamp > start.timestamp
            }
            &&& stopped matches Some(why) ==> exists|n: int|
                {
                    &&& 0 <= n < all.len()
                    &&& n == 0 ==> end == start
                    &&& n > 0 ==> end.height == all[n - 1].height && end.parent == all[n
                        - 1].digest && end.timestamp == all[n - 1].timestamp
                    &&& end.height == start.height + n
                    &&& (why is Height <==> (#[trigger] all[n]).height != end.height + 1)
                    &&& (why is Parent ==> all[n].parent != end.parent)
                    &&& (why is Timestamp ==> all[n].parent == end.parent && all[n].timestamp
                        <= end.timestamp)
                }
        }),
{
    let start = *old(chain);
    let all = blocks@;
    let n = start.accepted(all) as int;
    lemma_accepted(start, all);
    if n > 0 {
        law_accepted_blocks_are_continuous(start, all, n - 1);
        law_accepted_blocks_are_continuous(start, all, 0);
    }
    if 0 < i < n {
        law_accepted_blocks_are_continuous(start, all, i);
        law_accepted_blocks_are_continuous(start, all, i - 1);
    }
    if stopped is Some {
        assert(0 <= n < all.len());
        assert(all[n] == all[n]);
    }
}

/// Blocks that a chain links continue it: heights count up by one from its head and each
/// names the one before it; the next one after them does not.
pub proof fn lemma_linked(chain: ChainState, blocks: Seq<Block>, i: int)
    ensures
        chain.linked(blocks) <= blocks.len(),
        0 <= i < chain.linked(blocks) ==> {
            &&& blocks[i].height == chain.height + 1 + i
            &&& i == 0 ==> blocks[i].parent == chain.parent
            &&& i > 0 ==> blocks[i].parent == blocks[i - 1].digest
        },
        chain.linked(blocks) < blocks.len() ==> !chain.after(
            blocks,
            chain.linked(blocks) as int,
        ).links(blocks[chain.linked(blocks) as int]),
    decreases blocks.len(),
{
    if blocks.len() > 0 && chain.links(blocks[0]) {
        let next = ChainState::at(blocks[0]);
        let rest = blocks.drop_first();
        lemma_linked(next, rest, i - 1);
        let n = chain.linked(blocks) as int;
        assert(next.after(rest, n - 1) == chain.after(blocks, n));
    }
}

/// Advancing over linked blocks: all before the position given continue the chain by height
/// and parent, the one there does not, and the chain ends at the last one taken.
pub proof fn law_linking_stops_at_the_first_gap(
    chain: &mut ChainState,
    blocks: Vec<Block>,
    stopped: Option<usize>,
    i: int,
)
    requires
        call_ensures(ChainState::advance_linked, (chain, &blocks), stopped),
    ensures
        ({
            let start = *old(chain);
            let end = *final(chain);
            let all = blocks@;
            let n = match stopped {
                Some(at) => at as int,
                None => all.len() as int,
            };
            &&& 0 <= n <= all.len()
            &&& stopped is Some ==> n < all.len()
            &&& 0 <= i < n ==> all[i].height == start.height + 1 + i
            &&& 0 < i < n ==> all[i].parent == all[i - 1].digest
            &&& n > 0 ==> all[0].parent == start.parent
            &&& end.height == start.height + n
            &&& n == 0 ==> end == start
            &&& n > 0 ==> end.parent == all[n - 1].digest && end.timestamp == all[n - 1].timestamp
            &&& stopped is Some ==> all[n].height != end.height + 1 || all[n].parent != end.parent
        }),
{
    let start = *old(chain);
    let all = blocks@;
    let n = start.linked(all) as int;
    lemma_linked(start, all, i);
    lemma_linked(start, all, n - 1);
    lemma_linked(start, all, 0);
}

/// A submitted block moves the head of a chain exactly where it is the next one on it.
pub proof fn law_submitted_blocks_extend_the_chain(chain: &mut ChainState, block: Block)
    requires
        call_ensures(advance_submitted_block, (chain, &block), ()),
    ensures
        block.height == old(chain).height + 1 && block.parent == old(chain).parent ==> {
            &&& final(chain).height == block.height
            &&& final(chain).parent == block.digest
            &&& final(chain).timestamp == block.timestamp
        },
        block.height != old(chain).height + 1 || block.parent != old(chain).parent
            ==> *final(chain) == *old(chain),
{
}

/// A chain begins at height and time zero, with the digest that `seal` gives for the header
/// of its genesis block: the first view of the epoch, with nothing before it, on the digest
/// of the genesis message.
pub proof fn law_chain_begins_at_its_genesis<F: Fn(&BlockHeader) -> Digest>(
    epoch: u64,
    seal: F,
    chain: ChainState,
)
    requires
        call_ensures(ChainState::genesis::<F>, (epoch, seal), chain),
    ensures
        chain.height == 0,
        chain.timestamp == 0,
        exists|header: BlockHeader|
            {
                &&& header.height == 0
                &&& header.timestamp == 0
                &&& header.context.round.epoch == epoch
                &&& header.context.round.view == 0
                &&& header.parent@ == sha256_digest(encode_utf8("alto-coro-genesis"@))
                &&& #[trigger] call_ensures(seal, (&header,), chain.parent)
            },
{
    let header = choose|header: BlockHeader|
        #[trigger] is_genesis(header, epoch, GENESIS@) && call_ensures(
            seal,
            (&header,),
            chain.parent,
        );
    assert(call_ensures(seal, (&header,), chain.parent));
}

} // verus!

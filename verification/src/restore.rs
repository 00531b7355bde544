//! Rebuilding a chain from the archive, batch by batch.

use crate::batch::{batch_outcome, batch_parts, decode_block_batch, DecodeError};
use crate::chain::{law_accepted_blocks_link, lemma_linked, ChainState};
use crate::types::{Block, Fetched};
use vstd::prelude::*;

verus! {

/// Why restoring a chain was given up.
#[derive(Debug)]
pub enum Abandoned {
    /// The archive has no batch with a number below its head.
    Missing,
    /// The archive could not be read.
    Unreadable,
    /// The payload of a batch cannot be decoded.
    Undecodable(DecodeError),
    /// A block with this height does not extend the chain of this height.
    Broken { chain: u64, got: u64 },
}

/// What to do next to restore a chain.
#[derive(Debug)]
pub enum RestoreStep {
    /// Load the batch with this number.
    Load(u64),
    /// Nothing: the chain is restored.
    Complete,
    /// Nothing: the chain is restored as far as it can be.
    Abandon(Abandoned),
}

/// What follows the batch with a number when the archive ends at `head`.
pub open spec fn following(head: u64, sequence: u64) -> RestoreStep {
    if sequence < head {
        RestoreStep::Load((sequence + 1) as u64)
    } else {
        RestoreStep::Complete
    }
}

/// What follows the blocks of a batch: the next batch, or giving up at the first block
/// that does not have the next height and the right parent.
pub open spec fn step_after(
    chain: ChainState,
    head: u64,
    sequence: u64,
    blocks: Seq<Block>,
) -> RestoreStep {
    let n = chain.linked(blocks);
    if n < blocks.len() {
        RestoreStep::Abandon(
            Abandoned::Broken {
                chain: chain.after(blocks, n as int).height,
                got: blocks[n as int].height,
            },
        )
    } else {
        following(head, sequence)
    }
}

/// The first step: nothing is to be restored from an archive without batches.
pub fn start_restore(archived_head: Option<u64>) -> (step: RestoreStep)
    ensures
        step == match archived_head {
            Some(_) => RestoreStep::Load(0),
            None => RestoreStep::Complete,
        },
{
    match archived_head {
        Some(_) => RestoreStep::Load(0),
        None => RestoreStep::Complete,
    }
}

/// Advances a chain over the blocks of an archived batch.
pub fn restore_blocks(chain: &mut ChainState, head: u64, sequence: u64, blocks: &Vec<Block>) -> (step:
    RestoreStep)
    ensures
        *final(chain) == old(chain).after(blocks@, old(chain).linked(blocks@) as int),
        step == step_after(*old(chain), head, sequence, blocks@),
{
    match chain.advance_linked(blocks) {
        Some(at) => RestoreStep::Abandon(
            Abandoned::Broken { chain: chain.height, got: blocks[at].height },
        ),
        None => if sequence < head {
            RestoreStep::Load(sequence + 1)
        } else {
            RestoreStep::Complete
        },
    }
}

/// Whether taking what the archive gave as the payload of a batch leads from one chain to
/// another, and to this step.
pub open spec fn restores<D: Fn(&Vec<u8>) -> Result<Block, String>>(
    decode: D,
    chain: ChainState,
    head: u64,
    sequence: u64,
    loaded: Fetched<Vec<u8>>,
    after: ChainState,
    step: RestoreStep,
) -> bool {
    match loaded {
        Fetched::Nothing => {
            &&& after == chain
            &&& step == RestoreStep::Abandon(Abandoned::Missing)
        },
        Fetched::Failed => {
            &&& after == chain
            &&& step == RestoreStep::Abandon(Abandoned::Unreadable)
        },
        Fetched::Found(payload) => exists|decoded: Result<Vec<Block>, DecodeError>|
            {
                &&& #[trigger] batch_outcome(decode, payload@, decoded)
                &&& match decoded {
                    Ok(blocks) => {
                        &&& after == chain.after(blocks@, chain.linked(blocks@) as int)
                        &&& step == step_after(chain, head, sequence, blocks@)
                    },
                    Err(error) => {
                        &&& after == chain
                        &&& step == RestoreStep::Abandon(Abandoned::Undecodable(error))
                    },
                }
            },
    }
}

/// Advances a chain over what the archive gave as the payload of a batch.
pub fn restore_batch<D: Fn(&Vec<u8>) -> Result<Block, String>>(
    chain: &mut ChainState,
    head: u64,
    sequence: u64,
    loaded: &Fetched<Vec<u8>>,
    decode: &D,
) -> (step: RestoreStep)
    requires
        forall|encoded: &Vec<u8>| call_requires(*decode, (encoded,)),
    ensures
        restores(*decode, *old(chain), head, sequence, *loaded, *final(chain), step),
{
    match loaded {
        Fetched::Nothing => RestoreStep::Abandon(Abandoned::Missing),
        Fetched::Failed => RestoreStep::Abandon(Abandoned::Unreadable),
        Fetched::Found(payload) => {
            let decoded = decode_block_batch(payload, decode);
            assert(batch_outcome(*decode, payload@, decoded));
            match decoded {
                Ok(blocks) => restore_blocks(chain, head, sequence, &blocks),
                Err(error) => RestoreStep::Abandon(Abandoned::Undecodable(error)),
            }
        },
    }
}

/// The chain after restoring from batches one after the other, up to the first block that
/// does not extend it.
pub open spec fn replayed(chain: ChainState, batches: Seq<Seq<Block>>) -> ChainState
    decreases batches.len(),
{
    if batches.len() == 0 {
        chain
    } else {
        let n = chain.linked(batches[0]);
        let after = chain.after(batches[0], n as int);
        if n == batches[0].len() {
            replayed(after, batches.drop_first())
        } else {
            after
        }
    }
}

/// The chain after building batches one after the other, where all are taken whole.
pub open spec fn built(chain: ChainState, batches: Seq<Seq<Block>>) -> Option<ChainState>
    decreases batches.len(),
{
    if batches.len() == 0 {
        Some(chain)
    } else if chain.accepted(batches[0]) == batches[0].len() {
        built(chain.after(batches[0], batches[0].len() as int), batches.drop_first())
    } else {
        None
    }
}

/// Restoring from batches that were built on a chain rebuilds the chain that they led to.
pub proof fn law_restore_rebuilds_the_chain(chain: ChainState, batches: Seq<Seq<Block>>)
    requires
        built(chain, batches) is Some,
    ensures
        built(chain, batches) == Some(replayed(chain, batches)),
    decreases batches.len(),
{
    if batches.len() > 0 {
        law_accepted_blocks_link(chain, batches[0]);
        law_restore_rebuilds_the_chain(
            chain.after(batches[0], batches[0].len() as int),
            batches.drop_first(),
        );
    }
}

/// Restoring a chain that is past its genesis from an archive that begins right after the
/// genesis changes nothing: restoring twice is harmless.
pub proof fn law_restoring_again_changes_nothing(chain: ChainState, batches: Seq<Seq<Block>>)
    requires
        chain.height > 0,
        batches.len() > 0,
        batches[0].len() > 0,
        batches[0][0].height == 1,
    ensures
        replayed(chain, batches) == chain,
{
    assert(!chain.links(batches[0][0]));
}

/// Whether what the archive gave is a payload that decodes to these blocks and to nothing
/// else.
pub open spec fn holds<D: Fn(&Vec<u8>) -> Result<Block, String>>(
    decode: D,
    loaded: Fetched<Vec<u8>>,
    blocks: Seq<Block>,
) -> bool {
    &&& loaded matches Fetched::Found(payload)
    &&& forall|decoded: Result<Vec<Block>, DecodeError>| #[trigger]
        batch_outcome(decode, payload@, decoded) ==> (decoded matches Ok(found) && found@ == blocks)
}

/// Whether chains and steps are those of a run of [`restore_batch`] over what an archive
/// that ends at `head` gives, from its first batch until there is none to load.
pub open spec fn is_run<D: Fn(&Vec<u8>) -> Result<Block, String>>(
    decode: D,
    head: u64,
    archive: Seq<Fetched<Vec<u8>>>,
    chains: Seq<ChainState>,
    steps: Seq<RestoreStep>,
) -> bool {
    &&& chains.len() == steps.len()
    &&& steps.len() > 0
    &&& steps[0] == RestoreStep::Load(0)
    &&& steps.last() !is Load
    &&& forall|i: int|
        0 <= i < steps.len() - 1 ==> #[trigger] is_run_step(decode, head, archive, chains, steps, i)
}

/// Whether a step of a run loads the batch with its number and leads to the next one.
pub open spec fn is_run_step<D: Fn(&Vec<u8>) -> Result<Block, String>>(
    decode: D,
    head: u64,
    archive: Seq<Fetched<Vec<u8>>>,
    chains: Seq<ChainState>,
    steps: Seq<RestoreStep>,
    i: int,
) -> bool {
    &&& steps[i] == RestoreStep::Load(i as u64)
    &&& restores(decode, chains[i], head, i as u64, archive[i], chains[i + 1], steps[i + 1])
}

/// How a run goes on from one of its steps.
#[verifier::spinoff_prover]
proof fn lemma_run_from<D: Fn(&Vec<u8>) -> Result<Block, String>>(
    decode: D,
    head: u64,
    archive: Seq<Fetched<Vec<u8>>>,
    chains: Seq<ChainState>,
    steps: Seq<RestoreStep>,
    batches: Seq<Seq<Block>>,
    k: int,
)
    requires
        is_run(decode, head, archive, chains, steps),
        batches.len() == archive.len() == head + 1,
        forall|i: int| 0 <= i < archive.len() ==> holds(decode, #[trigger] archive[i], batches[i]),
        0 <= k < steps.len() - 1,
        k <= head,
    ensures
        chains.last() == replayed(chains[k], batches.skip(k)),
        built(chains[k], batches.skip(k)) is Some ==> steps.last() == RestoreStep::Complete,
    decreases steps.len() - k,
{
    let blocks = batches[k];
    let rest = batches.skip(k);
    let n = chains[k].linked(blocks);
    assert(rest[0] == blocks);
    assert(rest.drop_first() =~= batches.skip(k + 1));
    assert(is_run_step(decode, head, archive, chains, steps, k));
    assert(holds(decode, archive[k], blocks));
    assert(chains[k + 1] == chains[k].after(blocks, n as int));
    assert(steps[k + 1] == step_after(chains[k], head, k as u64, blocks));
    law_accepted_blocks_link(chains[k], blocks);
    if k + 1 < steps.len() - 1 {
        assert(is_run_step(decode, head, archive, chains, steps, k + 1));
        lemma_run_from(decode, head, archive, chains, steps, batches, k + 1);
    } else {
        assert(steps[k + 1] == steps.last());
        if n == blocks.len() {
            assert(k == head);
            assert(replayed(chains[k + 1], batches.skip(k + 1)) == chains[k + 1]);
        }
    }
}

/// A run of restoring over an archive whose batches can all be loaded and decoded ends with
/// the chain that replaying them gives. Where they were built on the chain that the run
/// began with, the run completes and ends with the chain that they led to.
pub proof fn law_restore_run_replays_the_archive<D: Fn(&Vec<u8>) -> Result<Block, String>>(
    decode: D,
    head: u64,
    archive: Seq<Fetched<Vec<u8>>>,
    chains: Seq<ChainState>,
    steps: Seq<RestoreStep>,
    batches: Seq<Seq<Block>>,
)
    requires
        is_run(decode, head, archive, chains, steps),
        batches.len() == archive.len() == head + 1,
        forall|i: int| 0 <= i < archive.len() ==> holds(decode, #[trigger] archive[i], batches[i]),
    ensures
        chains.last() == replayed(chains[0], batches),
        built(chains[0], batches) is Some ==> {
            &&& steps.last() == RestoreStep::Complete
            &&& built(chains[0], batches) == Some(chains.last())
        },
{
    assert(batches.skip(0) =~= batches);
    lemma_run_from(decode, head, archive, chains, steps, batches, 0);
    if built(chains[0], batches) is Some {
        law_restore_rebuilds_the_chain(chains[0], batches);
    }
}

/// Restoring goes from batch to batch: with the first where there is any, with the one after
/// a batch whose blocks all continue the chain by height and parent, and it is complete
/// after the last one; it is given up at the first block that does not, with the height of
/// the chain that was reached.
pub proof fn law_restoring_goes_batch_by_batch(
    chain: &mut ChainState,
    head: u64,
    sequence: u64,
    blocks: Vec<Block>,
    step: RestoreStep,
    first: RestoreStep,
    none: RestoreStep,
    i: int,
)
    requires
        call_ensures(restore_blocks, (chain, head, sequence, &blocks), step),
        call_ensures(start_restore, (Some(head),), first),
        call_ensures(start_restore, (None,), none),
    ensures
        first matches RestoreStep::Load(number) && number == 0,
        none is Complete,
        step matches RestoreStep::Load(number) ==> number == sequence + 1 && sequence < head,
        step is Complete ==> head <= sequence,
        !(step is Abandon) ==> {
            &&& final(chain).height == old(chain).height + blocks@.len()
            &&& blocks@.len() > 0 ==> final(chain).parent == blocks@.last().digest
                && final(chain).timestamp == blocks@.last().timestamp
            &&& blocks@.len() == 0 ==> *final(chain) == *old(chain)
            &&& 0 <= i < blocks@.len() ==> blocks@[i].height == old(chain).height + 1 + i
            &&& 0 < i < blocks@.len() ==> blocks@[i].parent == blocks@[i - 1].digest
        },
        step matches RestoreStep::Abandon(why) ==> {
            &&& why matches Abandoned::Broken { chain: at, got } && at == final(chain).height
            &&& exists|n: int|
                {
                    &&& 0 <= n < blocks@.len()
                    &&& final(chain).height == old(chain).height + n
                    &&& (#[trigger] blocks@[n]).height != final(chain).height + 1
                        || blocks@[n].parent != final(chain).parent
                    &&& why matches Abandoned::Broken { got, .. } && got == blocks@[n].height
                }
        },
{
    let start = *old(chain);
    let all = blocks@;
    let n = start.linked(all) as int;
    lemma_linked(start, all, i);
    lemma_linked(start, all, n - 1);
    lemma_linked(start, all, 0);
    if n < all.len() {
        assert(all[n] == all[n]);
    }
}

/// A batch that is missing, unreadable or undecodable leaves the chain where it was and ends
/// restoring, for that reason.
pub proof fn law_lost_batches_end_restoring<D: Fn(&Vec<u8>) -> Result<Block, String>>(
    chain: &mut ChainState,
    head: u64,
    sequence: u64,
    loaded: Fetched<Vec<u8>>,
    decode: D,
    step: RestoreStep,
)
    requires
        call_ensures(restore_batch::<D>, (chain, head, sequence, &loaded, &decode), step),
    ensures
        loaded is Nothing ==> *final(chain) == *old(chain) && step == RestoreStep::Abandon(
            Abandoned::Missing,
        ),
        loaded is Failed ==> *final(chain) == *old(chain) && step == RestoreStep::Abandon(
            Abandoned::Unreadable,
        ),
        loaded matches Fetched::Found(payload) ==> (batch_parts(payload@) matches Err(error) ==> {
            &&& *final(chain) == *old(chain)
            &&& step == RestoreStep::Abandon(Abandoned::Undecodable(error))
        }),
        step matches RestoreStep::Abandon(Abandoned::Missing) ==> loaded is Nothing,
        step matches RestoreStep::Abandon(Abandoned::Unreadable) ==> loaded is Failed,
{
}

/// A batch that decodes to some blocks and nothing else is restored as these blocks are.
pub proof fn law_loaded_batches_are_restored_as_their_blocks<
    D: Fn(&Vec<u8>) -> Result<Block, String>,
>(
    chain: &mut ChainState,
    other: &mut ChainState,
    head: u64,
    sequence: u64,
    payload: Vec<u8>,
    blocks: Vec<Block>,
    decode: D,
    step: RestoreStep,
    expected: RestoreStep,
)
    requires
        *old(chain) == *old(other),
        forall|decoded: Result<Vec<Block>, DecodeError>| #[trigger]
            batch_outcome(decode, payload@, decoded) ==> (decoded matches Ok(found) && found@
                == blocks@),
        call_ensures(
            restore_batch::<D>,
            (chain, head, sequence, &Fetched::Found(payload), &decode),
            step,
        ),
        call_ensures(restore_blocks, (other, head, sequence, &blocks), expected),
    ensures
        *final(chain) == *final(other),
        step == expected,
{
}

} // verus!

//! What a follower makes of final blocks: how far it is behind and what it may prune.

use crate::application::Update;
use crate::text::{decimal, digit, push_decimal};
use crate::types::Block;
use vstd::prelude::*;

verus! {

/// How often the archive is pruned, in blocks.
pub const PRUNE_INTERVAL: u64 = 10_000;

/// Over how long the rate of processing is measured.
pub const THROUGHPUT_WINDOW_MS: u64 = 30_000;

/// A number below one hundred in two digits.
pub open spec fn two_digits(n: nat) -> Seq<char> {
    if n < 10 {
        seq!['0'] + decimal(n)
    } else {
        decimal(n)
    }
}

/// A time in hours, minutes and seconds, without the larger units that are zero.
pub open spec fn clock_text(secs: nat) -> Seq<char> {
    let h = secs / 3600;
    let m = (secs % 3600) / 60;
    let s = secs % 60;
    if h > 0 {
        decimal(h) + seq!['h'] + two_digits(m) + seq!['m'] + two_digits(s) + seq!['s']
    } else if m > 0 {
        decimal(m) + seq!['m'] + two_digits(s) + seq!['s']
    } else {
        decimal(s) + seq!['s']
    }
}

/// The estimated time until the remaining work is done, given the seconds that it takes
/// at the current rate, where that rate gives any.
pub open spec fn eta_text(remaining: u64, secs: Option<u64>) -> Seq<char> {
    if remaining == 0 {
        "0s"@
    } else {
        match secs {
            Some(n) => clock_text(n as nat),
            None => "unknown"@,
        }
    }
}

fn push_two_digits(out: &mut String, n: u64)
    requires
        n < 100,
    ensures
        final(out)@ == old(out)@ + two_digits(n as nat),
{
    if n < 10 {
        out.push('0');
    }
    push_decimal(out, n);
    assert(out@ =~= old(out)@ + two_digits(n as nat));
}

/// Formats an estimated time of arrival, given the seconds that the remaining work takes
/// at the current rate, where that rate gives any.
pub fn format_eta(remaining: u64, secs: Option<u64>) -> (text: String)
    ensures
        text@ == eta_text(remaining, secs),
{
    if remaining == 0 {
        return "0s".to_owned();
    }
    let secs = match secs {
        Some(secs) => secs,
        None => {
            return "unknown".to_owned();
        },
    };
    let h: u64 = secs / 3600;
    let m: u64 = (secs % 3600) / 60;
    let s: u64 = secs % 60;
    let mut text = String::new();
    if h > 0 {
        push_decimal(&mut text, h);
        text.push('h');
        push_two_digits(&mut text, m);
        text.push('m');
        push_two_digits(&mut text, s);
    } else if m > 0 {
        push_decimal(&mut text, m);
        text.push('m');
        push_two_digits(&mut text, s);
    } else {
        push_decimal(&mut text, s);
    }
    text.push('s');
    assert(text@ =~= clock_text(secs as nat));
    text
}

/// Formats an estimated time of arrival when the remaining work may be unknown.
pub fn format_eta_maybe(remaining: Option<u64>, secs: Option<u64>) -> (text: String)
    ensures
        text@ == match remaining {
            Some(blocks) => eta_text(blocks, secs),
            None => "unknown"@,
        },
{
    match remaining {
        Some(remaining) => format_eta(remaining, secs),
        None => "unknown".to_owned(),
    }
}

/// The height below which the archive is pruned after a block, if it is: every so many
/// blocks, keeping a number of blocks below this one.
pub open spec fn prune_height(pruning_depth: Option<u64>, height: u64) -> Option<u64> {
    match pruning_depth {
        Some(depth) if height % PRUNE_INTERVAL == 0 && height > depth => Some(
            (height - depth) as u64,
        ),
        _ => None,
    }
}

/// What follows a final block.
#[derive(Clone, Copy, Debug, PartialEq, Eq)]
pub struct Processed {
    pub height: u64,
    /// How many blocks are left up to the tip, where it is known.
    pub remaining: Option<u64>,
    /// The height below which the archive is to be pruned.
    pub prune_to: Option<u64>,
}

/// Tracks how far a follower is.
#[derive(Clone, Copy, Debug, PartialEq, Eq)]
pub struct Progress {
    pub tip: Option<u64>,
    pub pruning_depth: Option<u64>,
}

impl Progress {
    /// Progress before anything was reported.
    pub fn new(pruning_depth: Option<u64>) -> (progress: Progress)
        ensures
            progress == (Progress { tip: None, pruning_depth }),
    {
        Progress { tip: None, pruning_depth }
    }

    /// Takes a report: a tip is remembered, and a final block is processed.
    pub fn handle(&mut self, update: &Update) -> (processed: Option<Processed>)
        ensures
            final(self).pruning_depth == old(self).pruning_depth,
            match *update {
                Update::Tip(height) => {
                    &&& final(self).tip == Some(height)
                    &&& processed is None
                },
                Update::Block(block) => {
                    &&& final(self).tip == old(self).tip
                    &&& processed == Some(
                        Processed {
                            height: block.height,
                            remaining: match old(self).tip {
                                Some(tip) => Some(
                                    if tip >= block.height {
                                        (tip - block.height) as u64
                                    } else {
                                        0
                                    },
                                ),
                                None => None,
                            },
                            prune_to: prune_height(old(self).pruning_depth, block.height),
                        },
                    )
                },
            },
    {
        match update {
            Update::Tip(height) => {
                self.tip = Some(*height);
                None
            },
            Update::Block(block) => {
                let height: u64 = block.height;
                let remaining = match self.tip {
                    Some(tip) => Some(tip.saturating_sub(height)),
                    None => None,
                };
                let prune_to = match self.pruning_depth {
                    Some(depth) => if height % PRUNE_INTERVAL == 0 && height > depth {
                        Some(height - depth)
                    } else {
                        None
                    },
                    None => None,
                };
                Some(Processed { height, remaining, prune_to })
            },
        }
    }
}

/// Pruning never reaches the block that led to it or the configured number of blocks
/// below it, and never happens without a configured depth.
pub proof fn law_pruning_keeps_the_depth(pruning_depth: Option<u64>, height: u64)
    ensures
        pruning_depth is None ==> prune_height(pruning_depth, height) is None,
        prune_height(pruning_depth, height) matches Some(floor) ==> 0 < floor && floor
            + pruning_depth->0 == height,
{
}

/// An estimate of at least an hour names hours, minutes and seconds that make up the time,
/// minutes and seconds below sixty in two digits each; a shorter one leaves out the units
/// that are zero.
pub proof fn law_estimates_add_up(remaining: u64, secs: u64, text: String) -> (parts: (nat, nat, nat))
    requires
        remaining > 0,
        call_ensures(format_eta, (remaining, Some(secs)), text),
    ensures
        parts.0 * 3600 + parts.1 * 60 + parts.2 == secs,
        parts.1 < 60,
        parts.2 < 60,
        secs >= 3600 ==> text@ == decimal(parts.0) + seq!['h'] + two_digits(parts.1) + seq!['m']
            + two_digits(parts.2) + seq!['s'],
        60 <= secs < 3600 ==> text@ == decimal(parts.1) + seq!['m'] + two_digits(parts.2)
            + seq!['s'],
        secs < 60 ==> text@ == decimal(parts.2) + seq!['s'],
{
    let n = secs as nat;
    (n / 3600, (n % 3600) / 60, n % 60)
}

/// Two digits are two characters that spell the number.
pub proof fn law_two_digits_are_two(n: nat)
    requires
        n < 100,
    ensures
        two_digits(n).len() == 2,
        two_digits(n)[0] == digit((n / 10) as int),
        two_digits(n)[1] == digit((n % 10) as int),
{
    reveal_with_fuel(decimal, 2);
}

/// Nothing is left to wait for where nothing remains, and nothing is known where the rate or
/// what remains is not.
pub proof fn law_estimates_without_numbers(
    remaining: u64,
    secs: Option<u64>,
    done: String,
    unrated: String,
    unknown: String,
    known: String,
    plain: String,
)
    requires
        remaining > 0,
        call_ensures(format_eta, (0, secs), done),
        call_ensures(format_eta, (remaining, None), unrated),
        call_ensures(format_eta_maybe, (None, secs), unknown),
        call_ensures(format_eta_maybe, (Some(remaining), secs), known),
        call_ensures(format_eta, (remaining, secs), plain),
    ensures
        done@ == "0s"@,
        unrated@ == "unknown"@,
        unknown@ == "unknown"@,
        known@ == plain@,
{
}

/// What is left of a final block reaches up to the tip that was reported last, nothing is
/// left above it, and nothing is known without a tip; blocks do not move the tip.
pub proof fn law_remaining_blocks_reach_the_tip(
    progress: &mut Progress,
    later: &mut Progress,
    tip: u64,
    block: Block,
    on_tip: Option<Processed>,
    on_block: Option<Processed>,
)
    requires
        call_ensures(Progress::handle, (progress, &Update::Tip(tip)), on_tip),
        *old(later) == *final(progress),
        call_ensures(Progress::handle, (later, &Update::Block(block)), on_block),
    ensures
        on_tip is None,
        *final(later) == *final(progress),
        final(progress).pruning_depth == old(progress).pruning_depth,
        on_block matches Some(processed) && {
            &&& processed.height == block.height
            &&& processed.remaining matches Some(left) && {
                &&& block.height <= tip ==> block.height + left == tip
                &&& block.height > tip ==> left == 0
            }
        },
{
}

/// When the archive is pruned and what stays: at every ten thousandth height above a
/// configured depth, and then exactly the depth below the block.
pub proof fn law_pruning_is_regular(
    progress: &mut Progress,
    block: Block,
    processed: Option<Processed>,
    fresh: Progress,
    depth: Option<u64>,
)
    requires
        call_ensures(Progress::handle, (progress, &Update::Block(block)), processed),
        call_ensures(Progress::new, (depth,), fresh),
    ensures
        fresh.tip is None,
        fresh.pruning_depth == depth,
        processed matches Some(found) && {
            &&& old(progress).tip is None ==> found.remaining is None
            &&& old(progress).pruning_depth is None ==> found.prune_to is None
            &&& old(progress).pruning_depth matches Some(kept) ==> {
                &&& found.prune_to is Some <==> block.height % 10_000 == 0 && kept < block.height
                &&& found.prune_to matches Some(floor) ==> floor + kept == block.height
            }
        },
{
}

} // verus!

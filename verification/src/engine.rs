//! Settings of the engine that drives a follower.

use crate::archive::{
    layout, Collection, Layout, PRUNABLE_ITEMS_PER_SECTION, REPLAY_BUFFER, WRITE_BUFFER,
};
use vstd::prelude::*;

verus! {

/// For how many views blocks are kept that are not yet final.
pub const VIEW_RETENTION_TIMEOUT: u64 = 2_560;

/// How many blocks of a peer the broadcast buffer keeps.
pub const DEQUE_SIZE: usize = 10;

/// How many final blocks may wait to be acknowledged.
pub const MAX_PENDING_ACKS: usize = 1_024;

/// Settings of the broadcast buffer. A follower does not take part in broadcast; the
/// buffer has no peers.
#[derive(Clone, Copy, Debug, PartialEq, Eq)]
pub struct BufferSettings {
    pub mailbox_size: usize,
    pub deque_size: usize,
    pub priority: bool,
}

/// Settings of the marshal, which puts final blocks in order.
#[derive(Clone, Copy, Debug, PartialEq, Eq)]
pub struct MarshalSettings {
    pub partition_prefix: &'static str,
    pub mailbox_size: usize,
    pub view_retention_timeout: u64,
    pub prunable_items_per_section: u64,
    pub replay_buffer: usize,
    pub key_write_buffer: usize,
    pub value_write_buffer: usize,
    pub max_repair: usize,
    pub max_pending_acks: usize,
}

/// Settings of a follower's engine.
#[derive(Clone, Copy, Debug, PartialEq, Eq)]
pub struct EngineSettings {
    pub buffer: BufferSettings,
    pub certificates: Layout,
    pub blocks: Layout,
    pub marshal: MarshalSettings,
    pub pruning_depth: Option<u64>,
}

/// Whether a layout is that of a collection when pruning is enabled or not.
pub open spec fn lays_out(layout: Layout, collection: Collection, pruning: bool) -> bool {
    match layout {
        Layout::Prunable(prunable) => pruning && prunable.is_for(collection),
        Layout::Immutable(immutable) => !pruning && immutable.is_for(collection),
    }
}

/// Settings of a follower's engine.
pub fn engine_settings(mailbox_size: usize, max_repair: usize, pruning_depth: Option<u64>) -> (settings:
    EngineSettings)
    ensures
        settings.buffer == (BufferSettings {
            mailbox_size,
            deque_size: DEQUE_SIZE,
            priority: false,
        }),
        lays_out(settings.certificates, Collection::Certificates, pruning_depth is Some),
        lays_out(settings.blocks, Collection::Blocks, pruning_depth is Some),
        settings.marshal.partition_prefix@ == "follower-marshal"@,
        settings.marshal.mailbox_size == mailbox_size,
        settings.marshal.view_retention_timeout == VIEW_RETENTION_TIMEOUT,
        settings.marshal.prunable_items_per_section == PRUNABLE_ITEMS_PER_SECTION,
        settings.marshal.replay_buffer == REPLAY_BUFFER,
        settings.marshal.key_write_buffer == WRITE_BUFFER,
        settings.marshal.value_write_buffer == WRITE_BUFFER,
        settings.marshal.max_repair == max_repair,
        settings.marshal.max_pending_acks == MAX_PENDING_ACKS,
        settings.pruning_depth == pruning_depth,
{
    EngineSettings {
        buffer: BufferSettings { mailbox_size, deque_size: DEQUE_SIZE, priority: false },
        certificates: layout(Collection::Certificates, pruning_depth),
        blocks: layout(Collection::Blocks, pruning_depth),
        marshal: MarshalSettings {
            partition_prefix: "follower-marshal",
            mailbox_size,
            view_retention_timeout: VIEW_RETENTION_TIMEOUT,
            prunable_items_per_section: PRUNABLE_ITEMS_PER_SECTION,
            replay_buffer: REPLAY_BUFFER,
            key_write_buffer: WRITE_BUFFER,
            value_write_buffer: WRITE_BUFFER,
            max_repair,
            max_pending_acks: MAX_PENDING_ACKS,
        },
        pruning_depth,
    }
}

/// The engine gets the sizes that it was asked for, keeps its two collections in archives of
/// their own kinds, both prunable exactly where pruning is enabled, and takes no part in
/// broadcast.
pub proof fn law_engine_follows_its_settings(
    mailbox_size: usize,
    max_repair: usize,
    pruning_depth: Option<u64>,
    settings: EngineSettings,
)
    requires
        call_ensures(engine_settings, (mailbox_size, max_repair, pruning_depth), settings),
    ensures
        settings.buffer.mailbox_size == mailbox_size,
        settings.marshal.mailbox_size == mailbox_size,
        settings.marshal.max_repair == max_repair,
        settings.pruning_depth == pruning_depth,
        !settings.buffer.priority,
        settings.certificates is Prunable <==> pruning_depth is Some,
        settings.blocks is Prunable <==> pruning_depth is Some,
{
}

} // verus!

//! Archive storage for the follower.
//!
//! The follower stores two collections of finalized data:
//!
//!   - certificates (finalizations keyed by height)
//!   - blocks (finalized blocks keyed by digest)
//!
//! When pruning is enabled, both collections use a prunable archive so that old sections
//! can be reclaimed. When pruning is disabled, an immutable archive is used instead, which
//! is made for append-only work.

use vstd::prelude::*;

verus! {

/// The number of items in a section of a prunable archive.
pub const PRUNABLE_ITEMS_PER_SECTION: u64 = 4_096;

/// The number of items in a section of an immutable archive.
pub const IMMUTABLE_ITEMS_PER_SECTION: u64 = 262_144;

/// The size of the buffer for replaying an archive.
pub const REPLAY_BUFFER: usize = 8_388_608;

/// The size of the buffer for writing to an archive.
pub const WRITE_BUFFER: usize = 8_388_608;

/// The compression level of what is archived.
pub const FINALIZED_COMPRESSION: u8 = 3;

/// The size of a page of the page cache.
pub const PAGE_CACHE_PAGE_SIZE: u16 = 4_096;

/// The number of pages of the page cache.
pub const PAGE_CACHE_CAPACITY: usize = 8_192;

/// The first size of the table of an immutable archive.
pub const FREEZER_TABLE_INITIAL_SIZE: u32 = 16_384;

/// How often the table of an immutable archive grows.
pub const FREEZER_TABLE_RESIZE_FREQUENCY: u8 = 4;

/// How much of the table of an immutable archive is moved at a time.
pub const FREEZER_TABLE_RESIZE_CHUNK_SIZE: u32 = 65_536;

/// The size that a journal of an immutable archive aims at.
pub const FREEZER_JOURNAL_TARGET_SIZE: u64 = 1_073_741_824;

/// What an archive collects.
#[derive(Clone, Copy, Debug, PartialEq, Eq)]
pub enum Collection {
    /// Finalizations by height.
    Certificates,
    /// Finalized blocks.
    Blocks,
}

/// How a prunable archive is laid out.
#[derive(Clone, Copy, Debug, PartialEq, Eq)]
pub struct PrunableLayout {
    pub key_partition: &'static str,
    pub value_partition: &'static str,
    pub compression: Option<u8>,
    pub items_per_section: u64,
    pub key_write_buffer: usize,
    pub value_write_buffer: usize,
    pub replay_buffer: usize,
}

/// How an immutable archive is laid out.
#[derive(Clone, Copy, Debug, PartialEq, Eq)]
pub struct ImmutableLayout {
    pub metadata_partition: &'static str,
    pub freezer_table_partition: &'static str,
    pub freezer_table_initial_size: u32,
    pub freezer_table_resize_frequency: u8,
    pub freezer_table_resize_chunk_size: u32,
    pub freezer_key_partition: &'static str,
    pub freezer_value_partition: &'static str,
    pub freezer_value_target_size: u64,
    pub freezer_value_compression: Option<u8>,
    pub ordinal_partition: &'static str,
    pub items_per_section: u64,
    pub freezer_key_write_buffer: usize,
    pub freezer_value_write_buffer: usize,
    pub ordinal_write_buffer: usize,
    pub replay_buffer: usize,
}

/// How an archive is laid out.
#[derive(Clone, Copy, Debug, PartialEq, Eq)]
pub enum Layout {
    Prunable(PrunableLayout),
    Immutable(ImmutableLayout),
}

/// The partitions of the prunable archive of a collection: keys, then values.
pub open spec fn prunable_partitions(collection: Collection) -> (Seq<char>, Seq<char>) {
    match collection {
        Collection::Certificates => (
            "follower-prunable-finalizations-by-height-key"@,
            "follower-prunable-finalizations-by-height-value"@,
        ),
        Collection::Blocks => (
            "follower-prunable-finalized-blocks-key"@,
            "follower-prunable-finalized-blocks-value"@,
        ),
    }
}

/// The partitions of the immutable archive of a collection: metadata, table, keys, values,
/// ordinals.
pub open spec fn immutable_partitions(collection: Collection) -> Seq<Seq<char>> {
    match collection {
        Collection::Certificates => seq![
            "follower-finalizations-by-height-metadata"@,
            "follower-finalizations-by-height-freezer-table"@,
            "follower-immutable-finalizations-by-height-key"@,
            "follower-immutable-finalizations-by-height-value"@,
            "follower-finalizations-by-height-ordinal"@,
        ],
        Collection::Blocks => seq![
            "follower-finalized-blocks-metadata"@,
            "follower-finalized-blocks-freezer-table"@,
            "follower-immutable-finalized-blocks-key"@,
            "follower-immutable-finalized-blocks-value"@,
            "follower-finalized-blocks-ordinal"@,
        ],
    }
}

impl PrunableLayout {
    /// Whether this is the layout of the prunable archive of a collection.
    pub open spec fn is_for(self, collection: Collection) -> bool {
        &&& (self.key_partition@, self.value_partition@) == prunable_partitions(collection)
        &&& self.compression == Some(FINALIZED_COMPRESSION)
        &&& self.items_per_section == PRUNABLE_ITEMS_PER_SECTION
        &&& self.key_write_buffer == WRITE_BUFFER
        &&& self.value_write_buffer == WRITE_BUFFER
        &&& self.replay_buffer == REPLAY_BUFFER
    }
}

impl ImmutableLayout {
    /// Whether this is the layout of the immutable archive of a collection.
    pub open spec fn is_for(self, collection: Collection) -> bool {
        &&& seq![
            self.metadata_partition@,
            self.freezer_table_partition@,
            self.freezer_key_partition@,
            self.freezer_value_partition@,
            self.ordinal_partition@,
        ] == immutable_partitions(collection)
        &&& self.freezer_table_initial_size == FREEZER_TABLE_INITIAL_SIZE
        &&& self.freezer_table_resize_frequency == FREEZER_TABLE_RESIZE_FREQUENCY
        &&& self.freezer_table_resize_chunk_size == FREEZER_TABLE_RESIZE_CHUNK_SIZE
        &&& self.freezer_value_target_size == FREEZER_JOURNAL_TARGET_SIZE
        &&& self.freezer_value_compression == Some(FINALIZED_COMPRESSION)
        &&& self.items_per_section == IMMUTABLE_ITEMS_PER_SECTION
        &&& self.freezer_key_write_buffer == WRITE_BUFFER
        &&& self.freezer_value_write_buffer == WRITE_BUFFER
        &&& self.ordinal_write_buffer == WRITE_BUFFER
        &&& self.replay_buffer == REPLAY_BUFFER
    }
}

/// How the archive of a collection is laid out: prunable when pruning is enabled.
pub fn layout(collection: Collection, pruning_depth: Option<u64>) -> (layout: Layout)
    ensures
        match pruning_depth {
            Some(_) => layout matches Layout::Prunable(prunable) && prunable.is_for(collection),
            None => layout matches Layout::Immutable(immutable) && immutable.is_for(collection),
        },
{
    if pruning_depth.is_some() {
        let (key_partition, value_partition) = match collection {
            Collection::Certificates => (
                "follower-prunable-finalizations-by-height-key",
                "follower-prunable-finalizations-by-height-value",
            ),
            Collection::Blocks => (
                "follower-prunable-finalized-blocks-key",
                "follower-prunable-finalized-blocks-value",
            ),
        };
        return Layout::Prunable(
            PrunableLayout {
                key_partition,
                value_partition,
                compression: Some(FINALIZED_COMPRESSION),
                items_per_section: PRUNABLE_ITEMS_PER_SECTION,
                key_write_buffer: WRITE_BUFFER,
                value_write_buffer: WRITE_BUFFER,
                replay_buffer: REPLAY_BUFFER,
            },
        );
    }
    let (metadata, table, key, value, ordinal) = match collection {
        Collection::Certificates => (
            "follower-finalizations-by-height-metadata",
            "follower-finalizations-by-height-freezer-table",
            "follower-immutable-finalizations-by-height-key",
            "follower-immutable-finalizations-by-height-value",
            "follower-finalizations-by-height-ordinal",
        ),
        Collection::Blocks => (
            "follower-finalized-blocks-metadata",
            "follower-finalized-blocks-freezer-table",
            "follower-immutable-finalized-blocks-key",
            "follower-immutable-finalized-blocks-value",
            "follower-finalized-blocks-ordinal",
        ),
    };
    Layout::Immutable(
        ImmutableLayout {
            metadata_partition: metadata,
            freezer_table_partition: table,
            freezer_table_initial_size: FREEZER_TABLE_INITIAL_SIZE,
            freezer_table_resize_frequency: FREEZER_TABLE_RESIZE_FREQUENCY,
            freezer_table_resize_chunk_size: FREEZER_TABLE_RESIZE_CHUNK_SIZE,
            freezer_key_partition: key,
            freezer_value_partition: value,
            freezer_value_target_size: FREEZER_JOURNAL_TARGET_SIZE,
            freezer_value_compression: Some(FINALIZED_COMPRESSION),
            ordinal_partition: ordinal,
            items_per_section: IMMUTABLE_ITEMS_PER_SECTION,
            freezer_key_write_buffer: WRITE_BUFFER,
            freezer_value_write_buffer: WRITE_BUFFER,
            ordinal_write_buffer: WRITE_BUFFER,
            replay_buffer: REPLAY_BUFFER,
        },
    )
}

/// The height below which an archive is to be pruned when it is asked to be: an
/// immutable one keeps everything.
pub fn prune_target(layout: &Layout, min: u64) -> (target: Option<u64>)
    ensures
        target == match *layout {
            Layout::Prunable(_) => Some(min),
            Layout::Immutable(_) => None,
        },
{
    match layout {
        Layout::Prunable(_) => Some(min),
        Layout::Immutable(_) => None,
    }
}

/// The layout of an archive is prunable exactly where pruning is enabled, and only a prunable
/// one is pruned, to the height asked for.
pub proof fn law_only_prunable_archives_are_pruned(
    collection: Collection,
    depth: Option<u64>,
    layout: Layout,
    min: u64,
    target: Option<u64>,
)
    requires
        call_ensures(self::layout, (collection, depth), layout),
        call_ensures(prune_target, (&layout, min), target),
    ensures
        layout is Prunable <==> depth is Some,
        target is Some <==> depth is Some,
        target matches Some(floor) ==> floor == min,
{
}

/// No two collections share a partition, and no collection uses one twice: neither with
/// pruning nor without, nor across the two.
pub proof fn law_partitions_are_not_shared(
    depth: u64,
    certificates: Layout,
    blocks: Layout,
    all_certificates: Layout,
    all_blocks: Layout,
)
    requires
        call_ensures(layout, (Collection::Certificates, Some(depth)), certificates),
        call_ensures(layout, (Collection::Blocks, Some(depth)), blocks),
        call_ensures(layout, (Collection::Certificates, None), all_certificates),
        call_ensures(layout, (Collection::Blocks, None), all_blocks),
    ensures
        ({
            let a = certificates->Prunable_0;
            let b = blocks->Prunable_0;
            let c = all_certificates->Immutable_0;
            let d = all_blocks->Immutable_0;
            let used = seq![
                a.key_partition@,
                a.value_partition@,
                b.key_partition@,
                b.value_partition@,
                c.metadata_partition@,
                c.freezer_table_partition@,
                c.freezer_key_partition@,
                c.freezer_value_partition@,
                c.ordinal_partition@,
                d.metadata_partition@,
                d.freezer_table_partition@,
                d.freezer_key_partition@,
                d.freezer_value_partition@,
                d.ordinal_partition@,
            ];
            used.no_duplicates()
        }),
{
    reveal_strlit("follower-prunable-finalizations-by-height-key");
    reveal_strlit("follower-prunable-finalizations-by-height-value");
    reveal_strlit("follower-prunable-finalized-blocks-key");
    reveal_strlit("follower-prunable-finalized-blocks-value");
    reveal_strlit("follower-finalizations-by-height-metadata");
    reveal_strlit("follower-finalizations-by-height-freezer-table");
    reveal_strlit("follower-immutable-finalizations-by-height-key");
    reveal_strlit("follower-immutable-finalizations-by-height-value");
    reveal_strlit("follower-finalizations-by-height-ordinal");
    reveal_strlit("follower-finalized-blocks-metadata");
    reveal_strlit("follower-finalized-blocks-freezer-table");
    reveal_strlit("follower-immutable-finalized-blocks-key");
    reveal_strlit("follower-immutable-finalized-blocks-value");
    reveal_strlit("follower-finalized-blocks-ordinal");
    let c = all_certificates->Immutable_0;
    let d = all_blocks->Immutable_0;
    assert(immutable_partitions(Collection::Certificates)[0] == c.metadata_partition@);
    assert(immutable_partitions(Collection::Certificates)[1] == c.freezer_table_partition@);
    assert(immutable_partitions(Collection::Certificates)[2] == c.freezer_key_partition@);
    assert(immutable_partitions(Collection::Certificates)[3] == c.freezer_value_partition@);
    assert(immutable_partitions(Collection::Certificates)[4] == c.ordinal_partition@);
    assert(immutable_partitions(Collection::Blocks)[0] == d.metadata_partition@);
    assert(immutable_partitions(Collection::Blocks)[1] == d.freezer_table_partition@);
    assert(immutable_partitions(Collection::Blocks)[2] == d.freezer_key_partition@);
    assert(immutable_partitions(Collection::Blocks)[3] == d.freezer_value_partition@);
    assert(immutable_partitions(Collection::Blocks)[4] == d.ordinal_partition@);
    let a = certificates->Prunable_0;
    let b = blocks->Prunable_0;
    let used = seq![
        a.key_partition@,
        a.value_partition@,
        b.key_partition@,
        b.value_partition@,
        c.metadata_partition@,
        c.freezer_table_partition@,
        c.freezer_key_partition@,
        c.freezer_value_partition@,
        c.ordinal_partition@,
        d.metadata_partition@,
        d.freezer_table_partition@,
        d.freezer_key_partition@,
        d.freezer_value_partition@,
        d.ordinal_partition@,
    ];
    assert(used[0].len() == 45 && used[0][9] == 'p');
    assert(used[1].len() == 47 && used[1][9] == 'p');
    assert(used[2].len() == 38 && used[2][9] == 'p');
    assert(used[3].len() == 40 && used[3][9] == 'p');
    assert(used[4].len() == 41 && used[4][9] == 'f');
    assert(used[5].len() == 46 && used[5][9] == 'f');
    assert(used[6].len() == 46 && used[6][9] == 'i');
    assert(used[7].len() == 48 && used[7][9] == 'i');
    assert(used[8].len() == 40 && used[8][9] == 'f');
    assert(used[9].len() == 34 && used[9][9] == 'f');
    assert(used[10].len() == 39 && used[10][9] == 'f');
    assert(used[11].len() == 39 && used[11][9] == 'i');
    assert(used[12].len() == 41 && used[12][9] == 'i');
    assert(used[13].len() == 33 && used[13][9] == 'f');
}

} // verus!

//! Starting a validator: its network settings, its thread pools and its peers.

use crate::crypto::{ed25519_is_public, public_key_from_hex, KeyError};
use crate::hex::hex_bytes;
use crate::types::{digest_eq, PublicKey};
use vstd::prelude::*;

verus! {

/// The channel for pending consensus messages.
pub const PENDING_CHANNEL: u64 = 0;

/// The channel for recovered certificates.
pub const RECOVERED_CHANNEL: u64 = 1;

/// The channel for resolving missing consensus messages.
pub const RESOLVER_CHANNEL: u64 = 2;

/// The channel for broadcasting blocks.
pub const BROADCASTER_CHANNEL: u64 = 3;

/// The channel for backfilling blocks.
pub const MARSHAL_CHANNEL: u64 = 4;

/// How long to wait for a leader.
pub const LEADER_TIMEOUT_MS: u64 = 1_000;

/// How long to wait for a certification.
pub const CERTIFICATION_TIMEOUT_MS: u64 = 2_000;

/// How long to wait before nullifying again.
pub const NULLIFY_RETRY_MS: u64 = 10_000;

/// For how many views activity is tracked.
pub const ACTIVITY_TIMEOUT: u64 = 256;

/// After how many views without activity a leader is skipped.
pub const SKIP_TIMEOUT: u64 = 32;

/// How long to wait for a fetch.
pub const FETCH_TIMEOUT_MS: u64 = 2_000;

/// How many fetches may run at once.
pub const FETCH_CONCURRENT: usize = 4;

/// The largest message.
pub const MAX_MESSAGE_SIZE: u32 = 1_048_576;

/// How many items a fetch may ask for.
pub const MAX_FETCH_COUNT: usize = 16;

/// How many bytes a fetch may bring.
pub const MAX_FETCH_SIZE: usize = 524_288;

/// The first size of the table of the block archive.
pub const BLOCKS_FREEZER_TABLE_INITIAL_SIZE: u32 = 2_097_152;

/// The first size of the table of the finalization archive.
pub const FINALIZED_FREEZER_TABLE_INITIAL_SIZE: u32 = 2_097_152;

/// How many messages a channel takes from a peer in a second: those of consensus more
/// than those that carry blocks.
pub fn messages_per_second(channel: u64) -> (limit: u32)
    ensures
        limit == if channel == BROADCASTER_CHANNEL || channel == MARSHAL_CHANNEL {
            8u32
        } else {
            128u32
        },
{
    if channel == BROADCASTER_CHANNEL || channel == MARSHAL_CHANNEL {
        8
    } else {
        128
    }
}

/// For how many threads the buffer pools are made.
#[derive(Clone, Copy, Debug, PartialEq, Eq)]
pub struct PoolParallelism {
    pub network: usize,
    pub storage: usize,
}

/// Why there is no number of threads for a buffer pool.
#[derive(Clone, Copy, Debug, PartialEq, Eq)]
pub enum PoolError {
    NetworkOverflow,
    StorageOverflow,
    /// There would be no threads.
    Zero,
}

impl PoolError {
    /// The reason in words.
    pub open spec fn text(self) -> Seq<char> {
        match self {
            PoolError::NetworkOverflow => "network buffer pool parallelism overflowed"@,
            PoolError::StorageOverflow => "storage buffer pool parallelism overflowed"@,
            PoolError::Zero => "value must be non-zero"@,
        }
    }

    /// The reason in words.
    pub fn message(&self) -> (message: String)
        ensures
            message@ == self.text(),
    {
        match self {
            PoolError::NetworkOverflow => "network buffer pool parallelism overflowed".to_owned(),
            PoolError::StorageOverflow => "storage buffer pool parallelism overflowed".to_owned(),
            PoolError::Zero => "value must be non-zero".to_owned(),
        }
    }
}

/// For how many threads the buffer pools are made: those of the network for the worker
/// and signature threads, those of storage for the blocking threads too, on which storage
/// runs. Configured numbers take their place. The threads must be countable and the network
/// must have some, whether configured or not.
pub fn pool_parallelism(
    worker_threads: usize,
    signature_threads: usize,
    blocking_threads: usize,
    network: Option<usize>,
    storage: Option<usize>,
) -> (pools: PoolParallelism)
    requires
        0 < worker_threads + signature_threads,
        worker_threads + signature_threads + blocking_threads <= usize::MAX,
    ensures
        pools == (PoolParallelism {
            network: match network {
                Some(n) => n,
                None => (worker_threads + signature_threads) as usize,
            },
            storage: match storage {
                Some(n) => n,
                None => (worker_threads + signature_threads + blocking_threads) as usize,
            },
        }),
{
    PoolParallelism {
        network: match network {
            Some(n) => n,
            None => worker_threads + signature_threads,
        },
        storage: match storage {
            Some(n) => n,
            None => worker_threads + signature_threads + blocking_threads,
        },
    }
}

/// For how many threads the buffer pools are made, as in [`pool_parallelism`], or why they
/// cannot be made.
pub fn try_pool_parallelism(
    worker_threads: usize,
    signature_threads: usize,
    blocking_threads: usize,
    network: Option<usize>,
    storage: Option<usize>,
) -> (pools: Result<PoolParallelism, PoolError>)
    ensures
        pools == if worker_threads + signature_threads > usize::MAX {
            Err::<PoolParallelism, PoolError>(PoolError::NetworkOverflow)
        } else if worker_threads + signature_threads + blocking_threads > usize::MAX {
            Err(PoolError::StorageOverflow)
        } else if worker_threads + signature_threads == 0 {
            Err(PoolError::Zero)
        } else {
            Ok(
                PoolParallelism {
                    network: match network {
                        Some(n) => n,
                        None => (worker_threads + signature_threads) as usize,
                    },
                    storage: match storage {
                        Some(n) => n,
                        None => (worker_threads + signature_threads + blocking_threads) as usize,
                    },
                },
            )
        },
{
    let for_network: usize = match worker_threads.checked_add(signature_threads) {
        Some(n) => n,
        None => {
            return Err(PoolError::NetworkOverflow);
        },
    };
    if for_network.checked_add(blocking_threads).is_none() {
        return Err(PoolError::StorageOverflow);
    }
    if for_network == 0 {
        return Err(PoolError::Zero);
    }
    Ok(
        pool_parallelism(
            worker_threads,
            signature_threads,
            blocking_threads,
            network,
            storage,
        ),
    )
}

/// Why peers cannot be loaded.
#[derive(Clone, Copy, Debug, PartialEq, Eq)]
pub enum PeersError {
    PeerNotHex,
    PeerInvalid,
    BootstrapperNotHex,
    BootstrapperInvalid,
    BootstrapperMissing,
    SelfMissing,
}

impl PeersError {
    /// The reason in words.
    pub open spec fn text(self) -> Seq<char> {
        match self {
            PeersError::PeerNotHex => "Could not parse peer key"@,
            PeersError::PeerInvalid => "Peer key is invalid"@,
            PeersError::BootstrapperNotHex => "Could not parse bootstrapper key"@,
            PeersError::BootstrapperInvalid => "Bootstrapper key is invalid"@,
            PeersError::BootstrapperMissing => "Could not find bootstrapper in IPs"@,
            PeersError::SelfMissing => "Could not find self in IPs"@,
        }
    }

    /// The reason in words.
    pub fn message(&self) -> (message: String)
        ensures
            message@ == self.text(),
    {
        match self {
            PeersError::PeerNotHex => "Could not parse peer key".to_owned(),
            PeersError::PeerInvalid => "Peer key is invalid".to_owned(),
            PeersError::BootstrapperNotHex => "Could not parse bootstrapper key".to_owned(),
            PeersError::BootstrapperInvalid => "Bootstrapper key is invalid".to_owned(),
            PeersError::BootstrapperMissing => "Could not find bootstrapper in IPs".to_owned(),
            PeersError::SelfMissing => "Could not find self in IPs".to_owned(),
        }
    }
}

/// The public key that a hexadecimal text is.
pub open spec fn key_in(text: Seq<char>) -> Result<Seq<u8>, KeyError> {
    match hex_bytes(text) {
        None => Err(KeyError::NotHex),
        Some(bytes) => if ed25519_is_public(bytes) {
            Ok(bytes)
        } else {
            Err(KeyError::Invalid)
        },
    }
}

/// Why the keys of peers cannot be read, if they cannot: because of the first that is
/// none.
pub open spec fn names_error(names: Seq<String>) -> Option<PeersError>
    decreases names.len(),
{
    if names.len() == 0 {
        None
    } else {
        match key_in(names[0]@) {
            Err(KeyError::NotHex) => Some(PeersError::PeerNotHex),
            Err(KeyError::Invalid) => Some(PeersError::PeerInvalid),
            Ok(_) => names_error(names.drop_first()),
        }
    }
}

/// The keys of peers.
pub open spec fn keys_in(names: Seq<String>) -> Seq<Seq<u8>> {
    names.map_values(|name: String| key_in(name@)->Ok_0)
}

/// The position of the last peer with a key, or minus one.
pub open spec fn last_with(keys: Seq<Seq<u8>>, key: Seq<u8>) -> int
    decreases keys.len(),
{
    if keys.len() == 0 {
        -1
    } else if keys.last() == key {
        keys.len() - 1
    } else {
        last_with(keys.drop_last(), key)
    }
}

/// Why the bootstrappers cannot be found among peers, if they cannot: because of the
/// first that is no key or no peer.
pub open spec fn bootstrap_error(keys: Seq<Seq<u8>>, names: Seq<String>) -> Option<PeersError>
    decreases names.len(),
{
    if names.len() == 0 {
        None
    } else {
        match key_in(names[0]@) {
            Err(KeyError::NotHex) => Some(PeersError::BootstrapperNotHex),
            Err(KeyError::Invalid) => Some(PeersError::BootstrapperInvalid),
            Ok(key) => if last_with(keys, key) < 0 {
                Some(PeersError::BootstrapperMissing)
            } else {
                bootstrap_error(keys, names.drop_first())
            },
        }
    }
}

/// The loaded peers. Addresses are given by the positions of the peers that have them.
pub struct LoadedPeers {
    /// The different keys.
    pub keys: Vec<PublicKey>,
    /// The bootstrappers, each with the peer whose address it has.
    pub bootstrappers: Vec<(PublicKey, usize)>,
    /// The peer that the validator itself is.
    pub own: usize,
}

impl LoadedPeers {
    /// Whether these are the peers with some keys: every key once, each bootstrapper with
    /// the last peer that has its key, and the validator with the last that has its own.
    pub open spec fn fits(
        self,
        keys: Seq<Seq<u8>>,
        bootstrappers: Seq<String>,
        own: PublicKey,
    ) -> bool {
        &&& key_bytes(self.keys@).no_duplicates()
        &&& forall|key: Seq<u8>| key_bytes(self.keys@).contains(key) <==> #[trigger] keys.contains(key)
        &&& self.bootstrappers@.len() == bootstrappers.len()
        &&& forall|i: int|
            0 <= i < bootstrappers.len() ==> {
                &&& key_in(bootstrappers[i]@) == Ok::<Seq<u8>, KeyError>(
                    (#[trigger] self.bootstrappers@[i]).0@,
                )
                &&& self.bootstrappers@[i].1 == last_with(keys, self.bootstrappers@[i].0@)
            }
        &&& self.own == last_with(keys, own@)
    }
}

fn parse_keys(names: &Vec<String>) -> (keys: Result<Vec<PublicKey>, PeersError>)
    ensures
        match names_error(names@) {
            Some(error) => keys == Err::<Vec<PublicKey>, PeersError>(error),
            None => {
                &&& keys matches Ok(found)
                &&& found@.len() == names@.len()
                &&& forall|i: int| 0 <= i < names@.len() ==> (#[trigger] found@[i])@ == keys_in(names@)[i]
            },
        },
{
    let mut keys: Vec<PublicKey> = Vec::new();
    let mut i: usize = 0;
    assert(names@.skip(0) =~= names@);
    while i < names.len()
        invariant
            i <= names@.len(),
            keys@.len() == i,
            forall|j: int| 0 <= j < i ==> (#[trigger] keys@[j])@ == keys_in(names@)[j],
            names_error(names@) == names_error(names@.skip(i as int)),
        decreases names@.len() - i,
    {
        assert(names@.skip(i as int)[0] == names@[i as int]);
        assert(names@.skip(i as int).drop_first() =~= names@.skip(i + 1));
        match public_key_from_hex(names[i].as_str()) {
            Ok(key) => {
                keys.push(key);
            },
            Err(KeyError::NotHex) => {
                return Err(PeersError::PeerNotHex);
            },
            Err(KeyError::Invalid) => {
                return Err(PeersError::PeerInvalid);
            },
        }
        i += 1;
    }
    Ok(keys)
}

/// The bytes of keys.
pub open spec fn key_bytes(keys: Seq<PublicKey>) -> Seq<Seq<u8>> {
    keys.map_values(|key: PublicKey| key@)
}

fn find_last(keys: &Vec<PublicKey>, key: &PublicKey) -> (at: Option<usize>)
    ensures
        match at {
            Some(i) => i == last_with(key_bytes(keys@), key@) && i < keys@.len(),
            None => last_with(key_bytes(keys@), key@) < 0,
        },
{
    let ghost all = key_bytes(keys@);
    let mut i: usize = keys.len();
    assert(all.take(i as int) =~= all);
    while i > 0
        invariant
            i <= keys@.len(),
            all == key_bytes(keys@),
            last_with(all, key@) == last_with(all.take(i as int), key@),
        decreases i,
    {
        let ghost prefix = all.take(i as int);
        i -= 1;
        proof {
            assert(prefix.last() == keys@[i as int]@);
            assert(prefix.drop_last() =~= all.take(i as int));
        }
        if digest_eq(&keys[i], key) {
            return Some(i);
        }
        proof {
            if keys@[i as int]@ == key@ {
                crate::codec::lemma_digest_ext(keys@[i as int], *key);
            }
        }
    }
    None
}

/// The different ones among keys.
fn distinct(keys: &Vec<PublicKey>) -> (found: Vec<PublicKey>)
    ensures
        key_bytes(found@).no_duplicates(),
        forall|key: Seq<u8>|
            key_bytes(found@).contains(key) <==> #[trigger] key_bytes(keys@).contains(key),
{
    let ghost all = key_bytes(keys@);
    let mut found: Vec<PublicKey> = Vec::new();
    let mut k: usize = 0;
    while k < keys.len()
        invariant
            k <= keys@.len(),
            all == key_bytes(keys@),
            key_bytes(found@).no_duplicates(),
            forall|key: Seq<u8>|
                key_bytes(found@).contains(key) <==> #[trigger] all.take(k as int).contains(key),
        decreases keys@.len() - k,
    {
        let ghost before = key_bytes(found@);
        let ghost key = keys@[k as int]@;
        let ghost sooner = all.take(k as int);
        proof {
            assert(all.take(k + 1) =~= sooner.push(key));
            lemma_last_with(before, key);
            assert forall|other: Seq<u8>| #[trigger] all.take(k + 1).contains(other) <==> (
            sooner.contains(other) || other == key) by {
                lemma_push_contains(sooner, key, other);
            }
        }
        match find_last(&found, &keys[k]) {
            Some(at) => {
                assert(before.contains(key)) by {
                    assert(before[at as int] == key);
                }
            },
            None => {
                found.push(keys[k]);
                proof {
                    assert(key_bytes(found@) =~= before.push(key));
                    assert forall|other: Seq<u8>| #[trigger] before.push(key).contains(other) <==> (
                    before.contains(other) || other == key) by {
                        lemma_push_contains(before, key, other);
                    }
                    assert(!before.contains(key));
                }
            },
        }
        k += 1;
    }
    assert(all.take(k as int) =~= all);
    found
}

/// What a longer sequence holds.
proof fn lemma_push_contains(s: Seq<Seq<u8>>, last: Seq<u8>, other: Seq<u8>)
    ensures
        s.push(last).contains(other) <==> s.contains(other) || other == last,
{
    if s.contains(other) {
        let i = choose|i: int| 0 <= i < s.len() && s[i] == other;
        assert(s.push(last)[i] == other);
    }
    if other == last {
        assert(s.push(last)[s.len() as int] == other);
    }
    if s.push(last).contains(other) {
        let i = choose|i: int| 0 <= i < s.push(last).len() && s.push(last)[i] == other;
        if i < s.len() {
            assert(s[i] == other);
        }
    }
}

/// What the last position of a key is: one with the key and none after it, or minus one
/// when there is none.
proof fn lemma_last_with(keys: Seq<Seq<u8>>, key: Seq<u8>)
    ensures
        -1 <= last_with(keys, key) < keys.len(),
        last_with(keys, key) >= 0 ==> keys[last_with(keys, key)] == key,
        forall|i: int| last_with(keys, key) < i < keys.len() ==> keys[i] != key,
    decreases keys.len(),
{
    if keys.len() > 0 && keys.last() != key {
        lemma_last_with(keys.drop_last(), key);
        assert forall|i: int| last_with(keys, key) < i < keys.len() implies keys[i] != key by {
            if i < keys.len() - 1 {
                assert(keys.drop_last()[i] == keys[i]);
            }
        }
    }
}

/// Loads peers by their names, which are their keys in hexadecimal: the bootstrappers
/// and the validator itself must be among them.
pub fn load_peers(names: &Vec<String>, bootstrappers: &Vec<String>, own: &PublicKey) -> (peers: Result<
    LoadedPeers,
    PeersError,
>)
    ensures
        match names_error(names@) {
            Some(error) => peers == Err::<LoadedPeers, PeersError>(error),
            None => match bootstrap_error(keys_in(names@), bootstrappers@) {
                Some(error) => peers == Err::<LoadedPeers, PeersError>(error),
                None => if last_with(keys_in(names@), own@) < 0 {
                    peers == Err::<LoadedPeers, PeersError>(PeersError::SelfMissing)
                } else {
                    peers matches Ok(found) && found.fits(keys_in(names@), bootstrappers@, *own)
                },
            },
        },
{
    let keys = match parse_keys(names) {
        Ok(keys) => keys,
        Err(error) => {
            return Err(error);
        },
    };
    let ghost all = keys_in(names@);
    assert(key_bytes(keys@) =~= all);
    let mut found: Vec<(PublicKey, usize)> = Vec::new();
    let mut i: usize = 0;
    assert(bootstrappers@.skip(0) =~= bootstrappers@);
    while i < bootstrappers.len()
        invariant
            i <= bootstrappers@.len(),
            all == keys_in(names@),
            key_bytes(keys@) == all,
            names_error(names@) is None,
            found@.len() == i,
            bootstrap_error(all, bootstrappers@) == bootstrap_error(
                all,
                bootstrappers@.skip(i as int),
            ),
            forall|j: int|
                0 <= j < i ==> {
                    &&& key_in(bootstrappers@[j]@) == Ok::<Seq<u8>, KeyError>(
                        (#[trigger] found@[j]).0@,
                    )
                    &&& found@[j].1 == last_with(all, found@[j].0@)
                },
        decreases bootstrappers@.len() - i,
    {
        assert(bootstrappers@.skip(i as int)[0] == bootstrappers@[i as int]);
        assert(bootstrappers@.skip(i as int).drop_first() =~= bootstrappers@.skip(i + 1));
        let key = match public_key_from_hex(bootstrappers[i].as_str()) {
            Ok(key) => key,
            Err(KeyError::NotHex) => {
                return Err(PeersError::BootstrapperNotHex);
            },
            Err(KeyError::Invalid) => {
                return Err(PeersError::BootstrapperInvalid);
            },
        };
        match find_last(&keys, &key) {
            Some(at) => {
                found.push((key, at));
            },
            None => {
                return Err(PeersError::BootstrapperMissing);
            },
        }
        i += 1;
    }
    let own_at = match find_last(&keys, own) {
        Some(at) => at,
        None => {
            return Err(PeersError::SelfMissing);
        },
    };
    let different = distinct(&keys);
    let peers = LoadedPeers { keys: different, bootstrappers: found, own: own_at };
    Ok(peers)
}

/// Channels that carry blocks take fewer messages than those of consensus, and those of one
/// kind take as many as each other.
pub proof fn law_block_channels_take_fewer_messages(
    pending: u32,
    recovered: u32,
    resolver: u32,
    broadcaster: u32,
    marshal: u32,
)
    requires
        call_ensures(messages_per_second, (PENDING_CHANNEL,), pending),
        call_ensures(messages_per_second, (RECOVERED_CHANNEL,), recovered),
        call_ensures(messages_per_second, (RESOLVER_CHANNEL,), resolver),
        call_ensures(messages_per_second, (BROADCASTER_CHANNEL,), broadcaster),
        call_ensures(messages_per_second, (MARSHAL_CHANNEL,), marshal),
    ensures
        pending == recovered == resolver == 128,
        broadcaster == marshal == 8,
{
}

/// The storage pool serves the threads of the network pool and the blocking ones, unless
/// numbers are configured, which are taken as they are.
pub proof fn law_storage_serves_blocking_threads_too(
    worker: usize,
    signature: usize,
    blocking: usize,
    network: Option<usize>,
    storage: Option<usize>,
    tried: Result<PoolParallelism, PoolError>,
)
    requires
        call_ensures(try_pool_parallelism, (worker, signature, blocking, network, storage), tried),
    ensures
        tried matches Ok(pools) ==> {
            &&& network is None ==> pools.network == worker + signature && pools.network > 0
            &&& network is Some ==> network == Some(pools.network)
            &&& storage is None ==> pools.storage == worker + signature + blocking
            &&& storage is Some ==> storage == Some(pools.storage)
            &&& worker + signature > 0
        },
        tried matches Err(error) ==> {
            &&& error is Zero <==> worker == 0 && signature == 0
            &&& error is NetworkOverflow <==> worker + signature > usize::MAX
            &&& error is StorageOverflow ==> worker + signature + blocking > usize::MAX
        },
{
}

/// Counting the pools and trying to give the same, where trying gives anything.
pub proof fn law_pools_are_tried_pools(
    worker: usize,
    signature: usize,
    blocking: usize,
    network: Option<usize>,
    storage: Option<usize>,
    pools: PoolParallelism,
    tried: PoolParallelism,
)
    requires
        call_ensures(pool_parallelism, (worker, signature, blocking, network, storage), pools),
        call_ensures(
            try_pool_parallelism,
            (worker, signature, blocking, network, storage),
            Ok(tried),
        ),
    ensures
        pools == tried,
{
}

/// No name has an error where there is none.
proof fn lemma_names_error(names: Seq<String>, i: int)
    requires
        names_error(names) is None,
        0 <= i < names.len(),
    ensures
        key_in(names[i]@) is Ok,
    decreases names.len(),
{
    if i > 0 {
        lemma_names_error(names.drop_first(), i - 1);
    }
}

/// What loaded peers are: the validator and each bootstrapper is the last of the names with
/// its key, the keys are those of the names, and none of them twice.
pub proof fn law_peers_are_found_by_their_keys(
    names: Vec<String>,
    bootstrappers: Vec<String>,
    own: PublicKey,
    found: LoadedPeers,
    i: int,
    j: int,
)
    requires
        call_ensures(load_peers, (&names, &bootstrappers, &own), Ok(found)),
    ensures
        found.own < names@.len(),
        hex_bytes(names@[found.own as int]@) == Some(own@),
        found.own < j < names@.len() ==> hex_bytes(names@[j]@) != Some(own@),
        found.bootstrappers@.len() == bootstrappers@.len(),
        0 <= i < bootstrappers@.len() ==> {
            let (key, at) = found.bootstrappers@[i];
            &&& hex_bytes(bootstrappers@[i]@) == Some(key@)
            &&& at < names@.len()
            &&& hex_bytes(names@[at as int]@) == Some(key@)
            &&& at < j < names@.len() ==> hex_bytes(names@[j]@) != Some(key@)
        },
        0 <= i < names@.len() ==> exists|k: int|
            0 <= k < found.keys@.len() && hex_bytes(names@[i]@) == Some(
                (#[trigger] found.keys@[k])@,
            ),
        0 <= i < found.keys@.len() ==> exists|k: int|
            0 <= k < names@.len() && hex_bytes((#[trigger] names@[k])@) == Some(found.keys@[i]@),
        0 <= i < j < found.keys@.len() ==> found.keys@[i]@ != found.keys@[j]@,
{
    let all = keys_in(names@);
    assert forall|k: int| 0 <= k < names@.len() implies hex_bytes((#[trigger] names@[k])@) == Some(
        all[k],
    ) by {
        lemma_names_error(names@, k);
    }
    lemma_last_with(all, own@);
    if found.own < j < names@.len() {
        assert(all[j] != own@);
    }
    if 0 <= i < bootstrappers@.len() {
        let (key, at) = found.bootstrappers@[i];
        lemma_last_with(all, key@);
        assert(key_in(bootstrappers@[i]@) == Ok::<Seq<u8>, KeyError>(found.bootstrappers@[i].0@));
        if at < j < names@.len() {
            assert(all[j] != key@);
        }
    }
    let bytes = key_bytes(found.keys@);
    if 0 <= i < names@.len() {
        assert(all.contains(all[i]));
        assert(bytes.contains(all[i]));
        let k = choose|k: int| 0 <= k < bytes.len() && bytes[k] == all[i];
        assert(found.keys@[k]@ == all[i]);
    }
    if 0 <= i < found.keys@.len() {
        assert(bytes[i] == found.keys@[i]@);
        assert(bytes.contains(bytes[i]));
        assert(all.contains(bytes[i]));
        let k = choose|k: int| 0 <= k < all.len() && all[k] == bytes[i];
        assert(hex_bytes(names@[k]@) == Some(all[k]));
        if i < j < found.keys@.len() {
            assert(bytes[j] == found.keys@[j]@);
            assert(bytes[i] != bytes[j]);
        }
    }
}

/// A name that is no key is refused for what it is, before anything is said of others.
proof fn lemma_names_refused(names: Seq<String>, i: int)
    requires
        0 <= i < names.len(),
        forall|k: int| 0 <= k < i ==> key_in((#[trigger] names[k])@) is Ok,
        key_in(names[i]@) is Err,
    ensures
        names_error(names) == Some(
            if hex_bytes(names[i]@) is None {
                PeersError::PeerNotHex
            } else {
                PeersError::PeerInvalid
            },
        ),
    decreases names.len(),
{
    if i > 0 {
        assert(key_in(names[0]@) is Ok);
        let rest = names.drop_first();
        assert forall|k: int| 0 <= k < i - 1 implies key_in((#[trigger] rest[k])@) is Ok by {
            assert(rest[k] == names[k + 1]);
        }
        lemma_names_refused(rest, i - 1);
    }
}

/// Peers are refused for the first name that is no key: as not hexadecimal, or as bytes that
/// are no key.
pub proof fn law_peers_are_refused_for_the_first_bad_name(
    names: Vec<String>,
    bootstrappers: Vec<String>,
    own: PublicKey,
    peers: Result<LoadedPeers, PeersError>,
    i: int,
)
    requires
        call_ensures(load_peers, (&names, &bootstrappers, &own), peers),
        0 <= i < names@.len(),
        forall|k: int|
            0 <= k < i ==> hex_bytes((#[trigger] names@[k])@) is Some && ed25519_is_public(
                hex_bytes(names@[k]@)->0,
            ),
    ensures
        hex_bytes(names@[i]@) is None ==> (peers matches Err(error) && error is PeerNotHex),
        hex_bytes(names@[i]@) matches Some(bytes) ==> (!ed25519_is_public(bytes) ==> (peers
            matches Err(error) && error is PeerInvalid)),
{
    assert forall|k: int| 0 <= k < i implies key_in((#[trigger] names@[k])@) is Ok by {}
    if key_in(names@[i]@) is Err {
        lemma_names_refused(names@, i);
    }
}

/// Where every name is a key, there is no error of names.
proof fn lemma_names_taken(names: Seq<String>)
    requires
        forall|k: int| 0 <= k < names.len() ==> key_in((#[trigger] names[k])@) is Ok,
    ensures
        names_error(names) is None,
    decreases names.len(),
{
    if names.len() > 0 {
        assert(key_in(names[0]@) is Ok);
        let rest = names.drop_first();
        assert forall|k: int| 0 <= k < rest.len() implies key_in((#[trigger] rest[k])@) is Ok by {
            assert(rest[k] == names[k + 1]);
        }
        lemma_names_taken(rest);
    }
}

/// The first bootstrapper that is no key or no peer decides what is said.
proof fn lemma_bootstrappers_refused(keys: Seq<Seq<u8>>, names: Seq<String>, i: int)
    requires
        0 <= i <= names.len(),
        forall|k: int|
            0 <= k < i ==> (key_in((#[trigger] names[k])@) matches Ok(key) && keys.contains(key)),
    ensures
        i == names.len() ==> bootstrap_error(keys, names) is None,
        i < names.len() ==> match key_in(names[i]@) {
            Err(KeyError::NotHex) => bootstrap_error(keys, names) == Some(
                PeersError::BootstrapperNotHex,
            ),
            Err(KeyError::Invalid) => bootstrap_error(keys, names) == Some(
                PeersError::BootstrapperInvalid,
            ),
            Ok(key) => !keys.contains(key) ==> bootstrap_error(keys, names) == Some(
                PeersError::BootstrapperMissing,
            ),
        },
    decreases names.len(),
{
    if names.len() > 0 {
        if let Ok(key) = key_in(names[0]@) {
            lemma_last_with(keys, key);
            if keys.contains(key) {
                let at = choose|at: int| 0 <= at < keys.len() && keys[at] == key;
                assert(last_with(keys, key) >= at);
            } else if last_with(keys, key) >= 0 {
                assert(keys.contains(keys[last_with(keys, key)]));
            }
        }
        if i > 0 {
            assert(key_in(names[0]@) is Ok);
            let rest = names.drop_first();
            assert forall|k: int| 0 <= k < i - 1 implies (key_in((#[trigger] rest[k])@) matches Ok(
                key,
            ) && keys.contains(key)) by {
                assert(rest[k] == names[k + 1]);
            }
            lemma_bootstrappers_refused(keys, rest, i - 1);
        }
    }
}

/// Where every name is a key, peers are refused for the first bootstrapper that is no key or
/// not among them, for what it is, and otherwise exactly where the validator itself is not
/// among them.
pub proof fn law_bootstrappers_and_the_validator_are_peers(
    names: Vec<String>,
    bootstrappers: Vec<String>,
    own: PublicKey,
    peers: Result<LoadedPeers, PeersError>,
    i: int,
)
    requires
        call_ensures(load_peers, (&names, &bootstrappers, &own), peers),
        forall|k: int|
            0 <= k < names@.len() ==> hex_bytes((#[trigger] names@[k])@) is Some
                && ed25519_is_public(hex_bytes(names@[k]@)->0),
        0 <= i <= bootstrappers@.len(),
        forall|k: int|
            0 <= k < i ==> hex_bytes((#[trigger] bootstrappers@[k])@) is Some && ed25519_is_public(
                hex_bytes(bootstrappers@[k]@)->0,
            ) && exists|n: int|
                0 <= n < names@.len() && hex_bytes((#[trigger] names@[n])@) == hex_bytes(
                    bootstrappers@[k]@,
                ),
    ensures
        i < bootstrappers@.len() && hex_bytes(bootstrappers@[i]@) is None ==> (peers matches Err(
            error,
        ) && error is BootstrapperNotHex),
        i < bootstrappers@.len() && hex_bytes(bootstrappers@[i]@) is Some && !ed25519_is_public(
            hex_bytes(bootstrappers@[i]@)->0,
        ) ==> (peers matches Err(error) && error is BootstrapperInvalid),
        i < bootstrappers@.len() && hex_bytes(bootstrappers@[i]@) is Some && ed25519_is_public(
            hex_bytes(bootstrappers@[i]@)->0,
        ) && (forall|n: int|
            0 <= n < names@.len() ==> hex_bytes((#[trigger] names@[n])@) != hex_bytes(
                bootstrappers@[i]@,
            )) ==> (peers matches Err(error) && error is BootstrapperMissing),
        i == bootstrappers@.len() ==> {
            &&& peers is Ok <==> exists|n: int|
                0 <= n < names@.len() && hex_bytes((#[trigger] names@[n])@) == Some(own@)
            &&& peers matches Err(error) ==> error is SelfMissing
        },
{
    let all = keys_in(names@);
    assert forall|k: int| 0 <= k < names@.len() implies key_in((#[trigger] names@[k])@) == Ok::<
        Seq<u8>,
        KeyError,
    >(all[k]) by {}
    lemma_names_taken(names@);
    assert forall|k: int| 0 <= k < i implies (key_in((#[trigger] bootstrappers@[k])@) matches Ok(
        key,
    ) && all.contains(key)) by {
        let n = choose|n: int|
            0 <= n < names@.len() && hex_bytes((#[trigger] names@[n])@) == hex_bytes(
                bootstrappers@[k]@,
            );
        assert(all.contains(all[n]));
    }
    lemma_bootstrappers_refused(all, bootstrappers@, i);
    if i < bootstrappers@.len() {
        if let Ok(key) = key_in(bootstrappers@[i]@) {
            if all.contains(key) {
                let n = choose|n: int| 0 <= n < all.len() && all[n] == key;
                assert(hex_bytes(names@[n]@) == Some(key));
            }
        }
    }
    lemma_last_with(all, own@);
    let last = last_with(all, own@);
    if last >= 0 {
        assert(hex_bytes(names@[last]@) == Some(own@));
    }
    if exists|n: int| 0 <= n < names@.len() && hex_bytes((#[trigger] names@[n])@) == Some(own@) {
        let n = choose|n: int|
            0 <= n < names@.len() && hex_bytes((#[trigger] names@[n])@) == Some(own@);
        assert(all[n] == own@);
        assert(last >= n);
    }
}

/// The channels differ, and what is waited for in turn is waited for longer in turn: for a
/// leader, for a certification, before nullifying again.
pub proof fn law_channels_differ_and_timeouts_grow()
    ensures
        PENDING_CHANNEL < RECOVERED_CHANNEL < RESOLVER_CHANNEL < BROADCASTER_CHANNEL
            < MARSHAL_CHANNEL,
        LEADER_TIMEOUT_MS < CERTIFICATION_TIMEOUT_MS < NULLIFY_RETRY_MS,
        SKIP_TIMEOUT < ACTIVITY_TIMEOUT,
        MAX_FETCH_SIZE < MAX_MESSAGE_SIZE,
{
}

} // verus!

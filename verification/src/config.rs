//! Settings of the sequencer and of replicas, with their defaults.

use crate::celestia::{namespace, namespace_bytes, try_namespace, NamespaceError};
use crate::types::NamespaceId;
use vstd::prelude::*;
use vstd::string::*;

verus! {

/// The default for [`BatchConfig::max_payload_bytes`].
pub const DEFAULT_MAX_PAYLOAD_BYTES: usize = 1_048_576;

/// The default for [`BatchConfig::max_tx_bytes`].
pub const DEFAULT_MAX_TX_BYTES: usize = 4096;

/// The default for [`BatchConfig::max_metadata_bytes`].
pub const DEFAULT_MAX_METADATA_BYTES: usize = 128;

/// The default for [`BatchConfig::max_output_bytes`].
pub const DEFAULT_MAX_OUTPUT_BYTES: usize = 128;

/// When a block counts as confirmed.
#[derive(Clone, Copy, Debug, PartialEq, Eq)]
pub enum ConfirmationMode {
    /// As soon as it is archived; publication goes on in the background.
    Soft,
    /// Once its publication was read back.
    Canonical,
}

/// Settings of a sequencer.
pub struct SequencerFile {
    pub storage_dir: String,
    pub partition_prefix: String,
    pub worker_threads: usize,
    pub log_level: String,
    pub history_listen: String,
    pub signer_seed: u64,
    pub private_key: Option<String>,
    pub batch: BatchConfig,
    pub celestia: CelestiaConfig,
    pub block_time_ms: u64,
    pub confirmation_mode: ConfirmationMode,
    pub publish_queue: usize,
    pub publish_concurrency: usize,
    pub serve_payloads: bool,
}

/// Settings of a replica.
pub struct ReplicaFile {
    pub storage_dir: String,
    pub partition_prefix: String,
    pub worker_threads: usize,
    pub log_level: String,
    pub sequencer_url: String,
    pub batch: BatchConfig,
    pub celestia: CelestiaConfig,
    pub sync_interval_ms: u64,
}

/// Settings of the connection to the data availability layer.
pub struct CelestiaConfig {
    pub env_file: Option<String>,
    pub rpc_url: Option<String>,
    pub rpc_url_env: Option<String>,
    pub grpc_url: Option<String>,
    pub grpc_url_env: Option<String>,
    pub private_key_hex: Option<String>,
    pub private_key_file: Option<String>,
    pub private_key_env: Option<String>,
    pub namespace: String,
}

/// Limits on batches.
#[derive(Clone, Copy, Debug, PartialEq, Eq)]
pub struct BatchConfig {
    pub max_txs: usize,
    pub max_payload_bytes: usize,
    pub max_tx_bytes: usize,
    pub max_metadata_bytes: usize,
    pub max_output_bytes: usize,
    pub max_delay_ms: u64,
    pub readback_timeout_ms: u64,
    pub read_timeout_ms: u64,
}

/// Where payloads are published and how large they may be.
#[derive(Clone, Copy, Debug, PartialEq, Eq)]
pub struct ChainConfig {
    pub namespace: NamespaceId,
    pub max_payload_bytes: usize,
}

/// How often and how long to try again.
#[derive(Clone, Copy, Debug, PartialEq, Eq)]
pub struct RetryConfig {
    pub initial_backoff_ms: u64,
    pub max_backoff_ms: u64,
    pub max_attempts: Option<u32>,
}

/// Settings of the publisher.
pub struct PublisherConfig {
    pub chain: ChainConfig,
    pub partition: String,
    pub retry: RetryConfig,
    pub readback_timeout_ms: u64,
}

/// How published payloads are verified.
#[derive(Clone, Copy, Debug, PartialEq, Eq)]
pub enum VerificationMode {
    /// By asking the node whether they are included.
    RpcIncluded,
}

/// Settings of the reader of published payloads.
#[derive(Clone, Copy, Debug, PartialEq, Eq)]
pub struct ReaderConfig {
    pub chain: ChainConfig,
    pub verification: VerificationMode,
    pub read_timeout_ms: u64,
}

/// When a batch is closed.
#[derive(Clone, Copy, Debug, PartialEq, Eq)]
pub struct BatchPolicy {
    pub max_txs: usize,
    pub max_payload_bytes: usize,
    pub max_delay_ms: u64,
}

/// Settings of the sequencing engine.
pub struct SequencerConfig {
    pub partition: String,
    pub batch_policy: BatchPolicy,
    pub max_tx_bytes: usize,
    pub max_metadata_bytes: usize,
}

/// Settings of the replica engine.
pub struct ReplicaConfig {
    pub partition: String,
    pub max_payload_bytes: usize,
    pub max_metadata_bytes: usize,
    pub max_output_bytes: usize,
}

/// The default directory of a sequencer.
pub fn default_storage_dir() -> (value: String)
    ensures
        value@ == "local/alto-coro-sequencer"@,
{
    "local/alto-coro-sequencer".to_owned()
}

/// The default directory of a replica.
pub fn default_replica_storage_dir() -> (value: String)
    ensures
        value@ == "local/alto-coro-replica"@,
{
    "local/alto-coro-replica".to_owned()
}

/// The default prefix of a sequencer's partitions.
pub fn default_partition_prefix() -> (value: String)
    ensures
        value@ == "alto-coro-sequencer"@,
{
    "alto-coro-sequencer".to_owned()
}

/// The default prefix of a replica's partitions.
pub fn default_replica_partition_prefix() -> (value: String)
    ensures
        value@ == "alto-coro-replica"@,
{
    "alto-coro-replica".to_owned()
}

/// The default log level.
pub fn default_log_level() -> (value: String)
    ensures
        value@ == "info"@,
{
    "info".to_owned()
}

/// The default address of the history server.
pub fn default_history_listen() -> (value: String)
    ensures
        value@ == "127.0.0.1:8081"@,
{
    "127.0.0.1:8081".to_owned()
}

/// The default number of worker threads.
pub fn default_worker_threads() -> (value: usize)
    ensures
        value == 2,
{
    2
}

/// The default seed of the sequencer's key.
pub fn default_signer_seed() -> (value: u64)
    ensures
        value == 0,
{
    0
}

/// The default number of blocks in a batch.
pub fn default_max_txs() -> (value: usize)
    ensures
        value == 1,
{
    1
}

/// The default limit on a payload.
pub fn default_max_payload_bytes() -> (value: usize)
    ensures
        value == DEFAULT_MAX_PAYLOAD_BYTES,
{
    DEFAULT_MAX_PAYLOAD_BYTES
}

/// The default limit on an encoded block.
pub fn default_max_tx_bytes() -> (value: usize)
    ensures
        value == DEFAULT_MAX_TX_BYTES,
{
    DEFAULT_MAX_TX_BYTES
}

/// The default limit on the metadata of a batch.
pub fn default_max_metadata_bytes() -> (value: usize)
    ensures
        value == DEFAULT_MAX_METADATA_BYTES,
{
    DEFAULT_MAX_METADATA_BYTES
}

/// The default limit on what applying a batch gives.
pub fn default_max_output_bytes() -> (value: usize)
    ensures
        value == DEFAULT_MAX_OUTPUT_BYTES,
{
    DEFAULT_MAX_OUTPUT_BYTES
}

/// The default time after which a batch is closed.
pub fn default_max_delay_ms() -> (value: u64)
    ensures
        value == 1_000,
{
    1_000
}

/// The default time to wait for a publication.
pub fn default_readback_timeout_ms() -> (value: u64)
    ensures
        value == 60_000,
{
    60_000
}

/// The default time to wait for a read.
pub fn default_read_timeout_ms() -> (value: u64)
    ensures
        value == 60_000,
{
    60_000
}

/// The default time between blocks.
pub fn default_block_time_ms() -> (value: u64)
    ensures
        value == 500,
{
    500
}

/// The default time between the polls of a replica.
pub fn default_sync_interval_ms() -> (value: u64)
    ensures
        value == 1_000,
{
    1_000
}

/// Whether payloads are served by default.
pub fn default_serve_payloads() -> (value: bool)
    ensures
        value == true,
{
    true
}

/// The default confirmation mode.
pub fn default_confirmation_mode() -> (value: ConfirmationMode)
    ensures
        value == ConfirmationMode::Soft,
{
    ConfirmationMode::Soft
}

/// The default length of the publication queue.
pub fn default_publish_queue() -> (value: usize)
    ensures
        value == 1024,
{
    1024
}

/// The default number of publications in flight.
pub fn default_publish_concurrency() -> (value: usize)
    ensures
        value == 8,
{
    8
}

/// The default file with environment settings.
pub fn default_env_file() -> (value: Option<String>)
    ensures
        value matches Some(text) && text@ == ".env"@,
{
    Some(".env".to_owned())
}

/// The default variable that holds the RPC address.
pub fn default_rpc_url_env() -> (value: Option<String>)
    ensures
        value matches Some(text) && text@ == "CELESTIA_RPC_URL"@,
{
    Some("CELESTIA_RPC_URL".to_owned())
}

/// The default variable that holds the gRPC address.
pub fn default_grpc_url_env() -> (value: Option<String>)
    ensures
        value matches Some(text) && text@ == "CELESTIA_GRPC_URL"@,
{
    Some("CELESTIA_GRPC_URL".to_owned())
}

/// The default variable that holds the private key.
pub fn default_private_key_env() -> (value: Option<String>)
    ensures
        value matches Some(text) && text@ == "CELESTIA_PRIVATE_KEY_HEX"@,
{
    Some("CELESTIA_PRIVATE_KEY_HEX".to_owned())
}

impl Default for CelestiaConfig {
    fn default() -> (config: CelestiaConfig)
        ensures
            config.env_file matches Some(file) && file@ == ".env"@,
            config.rpc_url is None,
            config.rpc_url_env matches Some(name) && name@ == "CELESTIA_RPC_URL"@,
            config.grpc_url is None,
            config.grpc_url_env matches Some(name) && name@ == "CELESTIA_GRPC_URL"@,
            config.private_key_hex is None,
            config.private_key_file is None,
            config.private_key_env matches Some(name) && name@ == "CELESTIA_PRIVATE_KEY_HEX"@,
            config.namespace@ == "00000000000000000000"@,
    {
        CelestiaConfig {
            env_file: default_env_file(),
            rpc_url: None,
            rpc_url_env: default_rpc_url_env(),
            grpc_url: None,
            grpc_url_env: default_grpc_url_env(),
            private_key_hex: None,
            private_key_file: None,
            private_key_env: default_private_key_env(),
            namespace: "00000000000000000000".to_owned(),
        }
    }
}

impl Default for BatchConfig {
    fn default() -> (config: BatchConfig)
        ensures
            config == (BatchConfig {
                max_txs: 1,
                max_payload_bytes: DEFAULT_MAX_PAYLOAD_BYTES,
                max_tx_bytes: DEFAULT_MAX_TX_BYTES,
                max_metadata_bytes: DEFAULT_MAX_METADATA_BYTES,
                max_output_bytes: DEFAULT_MAX_OUTPUT_BYTES,
                max_delay_ms: 1_000,
                readback_timeout_ms: 60_000,
                read_timeout_ms: 60_000,
            }),
    {
        BatchConfig {
            max_txs: default_max_txs(),
            max_payload_bytes: default_max_payload_bytes(),
            max_tx_bytes: default_max_tx_bytes(),
            max_metadata_bytes: default_max_metadata_bytes(),
            max_output_bytes: default_max_output_bytes(),
            max_delay_ms: default_max_delay_ms(),
            readback_timeout_ms: default_readback_timeout_ms(),
            read_timeout_ms: default_read_timeout_ms(),
        }
    }
}

/// The chain settings; an error when the configured namespace is none.
pub fn try_chain_config(config: &CelestiaConfig, batch: &BatchConfig) -> (chain: Result<
    ChainConfig,
    NamespaceError,
>)
    ensures
        match namespace_bytes(config.namespace@) {
            Ok(bytes) => {
                &&& chain matches Ok(found)
                &&& found.namespace@ == bytes
                &&& found.max_payload_bytes == batch.max_payload_bytes
            },
            Err(error) => chain == Err::<ChainConfig, NamespaceError>(error),
        },
{
    match try_namespace(config.namespace.as_str()) {
        Ok(namespace) => Ok(ChainConfig { namespace, max_payload_bytes: batch.max_payload_bytes }),
        Err(error) => Err(error),
    }
}

/// The chain settings.
pub fn chain_config(config: &CelestiaConfig, batch: &BatchConfig) -> (chain: ChainConfig)
    requires
        namespace_bytes(config.namespace@) is Ok,
    ensures
        namespace_bytes(config.namespace@) == Ok::<Seq<u8>, NamespaceError>(chain.namespace@),
        chain.max_payload_bytes == batch.max_payload_bytes,
{
    ChainConfig {
        namespace: namespace(config.namespace.as_str()),
        max_payload_bytes: batch.max_payload_bytes,
    }
}

fn suffixed(prefix: &str, suffix: &str) -> (name: String)
    ensures
        name@ == prefix@ + suffix@,
{
    let mut name = prefix.to_owned();
    name.append(suffix);
    name
}

/// The publisher's settings.
pub fn publisher_config(prefix: &str, chain: &ChainConfig, batch: &BatchConfig) -> (config:
    PublisherConfig)
    ensures
        config.chain == *chain,
        config.partition@ == prefix@ + "-publisher"@,
        config.retry == (RetryConfig {
            initial_backoff_ms: 500,
            max_backoff_ms: 5_000,
            max_attempts: Some(20),
        }),
        config.readback_timeout_ms == batch.readback_timeout_ms,
{
    PublisherConfig {
        chain: *chain,
        partition: suffixed(prefix, "-publisher"),
        retry: RetryConfig {
            initial_backoff_ms: 500,
            max_backoff_ms: 5_000,
            max_attempts: Some(20),
        },
        readback_timeout_ms: batch.readback_timeout_ms,
    }
}

/// The reader's settings.
pub fn reader_config(chain: &ChainConfig, batch: &BatchConfig) -> (config: ReaderConfig)
    ensures
        config == (ReaderConfig {
            chain: *chain,
            verification: VerificationMode::RpcIncluded,
            read_timeout_ms: batch.read_timeout_ms,
        }),
{
    ReaderConfig {
        chain: *chain,
        verification: VerificationMode::RpcIncluded,
        read_timeout_ms: batch.read_timeout_ms,
    }
}

/// The sequencing engine's settings.
pub fn sequencer_config(prefix: &str, batch: &BatchConfig) -> (config: SequencerConfig)
    ensures
        config.partition@ == prefix@ + "-sequencer"@,
        config.batch_policy == (BatchPolicy {
            max_txs: batch.max_txs,
            max_payload_bytes: batch.max_payload_bytes,
            max_delay_ms: batch.max_delay_ms,
        }),
        config.max_tx_bytes == batch.max_tx_bytes,
        config.max_metadata_bytes == batch.max_metadata_bytes,
{
    SequencerConfig {
        partition: suffixed(prefix, "-sequencer"),
        batch_policy: BatchPolicy {
            max_txs: batch.max_txs,
            max_payload_bytes: batch.max_payload_bytes,
            max_delay_ms: batch.max_delay_ms,
        },
        max_tx_bytes: batch.max_tx_bytes,
        max_metadata_bytes: batch.max_metadata_bytes,
    }
}

/// The replica engine's settings.
pub fn replica_config(prefix: &str, batch: &BatchConfig) -> (config: ReplicaConfig)
    ensures
        config.partition@ == prefix@ + "-replica"@,
        config.max_payload_bytes == batch.max_payload_bytes,
        config.max_metadata_bytes == batch.max_metadata_bytes,
        config.max_output_bytes == batch.max_output_bytes,
{
    ReplicaConfig {
        partition: suffixed(prefix, "-replica"),
        max_payload_bytes: batch.max_payload_bytes,
        max_metadata_bytes: batch.max_metadata_bytes,
        max_output_bytes: batch.max_output_bytes,
    }
}

/// The engines get the limits of a batch each in its place, and partitions of their own
/// under the prefix.
pub proof fn law_engines_get_the_configured_limits(
    prefix: &str,
    chain: ChainConfig,
    batch: BatchConfig,
    publisher: PublisherConfig,
    reader: ReaderConfig,
    sequencer: SequencerConfig,
    replica: ReplicaConfig,
)
    requires
        call_ensures(publisher_config, (prefix, &chain, &batch), publisher),
        call_ensures(reader_config, (&chain, &batch), reader),
        call_ensures(sequencer_config, (prefix, &batch), sequencer),
        call_ensures(replica_config, (prefix, &batch), replica),
    ensures
        publisher.chain == chain,
        reader.chain == chain,
        publisher.readback_timeout_ms == batch.readback_timeout_ms,
        reader.read_timeout_ms == batch.read_timeout_ms,
        sequencer.batch_policy.max_txs == batch.max_txs,
        sequencer.batch_policy.max_payload_bytes == batch.max_payload_bytes,
        sequencer.batch_policy.max_delay_ms == batch.max_delay_ms,
        sequencer.max_tx_bytes == batch.max_tx_bytes,
        sequencer.max_metadata_bytes == batch.max_metadata_bytes,
        replica.max_payload_bytes == batch.max_payload_bytes,
        replica.max_metadata_bytes == batch.max_metadata_bytes,
        replica.max_output_bytes == batch.max_output_bytes,
        publisher.retry.initial_backoff_ms <= publisher.retry.max_backoff_ms,
        publisher.partition@.take(prefix@.len() as int) == prefix@,
        sequencer.partition@.take(prefix@.len() as int) == prefix@,
        replica.partition@.take(prefix@.len() as int) == prefix@,
        publisher.partition@ != sequencer.partition@,
        publisher.partition@ != replica.partition@,
        sequencer.partition@ != replica.partition@,
{
    reveal_strlit("-publisher");
    reveal_strlit("-sequencer");
    reveal_strlit("-replica");
    let n = prefix@.len() as int;
    assert(publisher.partition@.take(n) =~= prefix@);
    assert(sequencer.partition@.take(n) =~= prefix@);
    assert(replica.partition@.take(n) =~= prefix@);
    assert(publisher.partition@[n + 1] == 'p');
    assert(sequencer.partition@[n + 1] == 's');
    assert(replica.partition@[n + 1] == 'r');
}

/// The chain settings carry the configured namespace and limit, and are refused exactly
/// where the namespace is.
pub proof fn law_chain_settings_follow_the_configuration(
    config: CelestiaConfig,
    batch: BatchConfig,
    text: &str,
    chain: Result<ChainConfig, NamespaceError>,
    namespace: Result<NamespaceId, NamespaceError>,
)
    requires
        text@ == config.namespace@,
        call_ensures(try_chain_config, (&config, &batch), chain),
        call_ensures(try_namespace, (text,), namespace),
    ensures
        match (chain, namespace) {
            (Ok(found), Ok(expected)) => found.namespace@ == expected@ && found.max_payload_bytes
                == batch.max_payload_bytes,
            (Err(a), Err(b)) => a == b,
            _ => false,
        },
{
}

/// The defaults leave room: an encoded block fits into a payload, and the variables that
/// addresses and keys are looked up under differ.
pub proof fn law_defaults_leave_room(
    max_payload: usize,
    max_tx: usize,
    queue: usize,
    concurrency: usize,
    rpc: Option<String>,
    grpc: Option<String>,
    key: Option<String>,
)
    requires
        call_ensures(default_max_payload_bytes, (), max_payload),
        call_ensures(default_max_tx_bytes, (), max_tx),
        call_ensures(default_publish_queue, (), queue),
        call_ensures(default_publish_concurrency, (), concurrency),
        call_ensures(default_rpc_url_env, (), rpc),
        call_ensures(default_grpc_url_env, (), grpc),
        call_ensures(default_private_key_env, (), key),
    ensures
        8 + 8 + max_tx <= max_payload,
        1 <= concurrency <= queue,
        rpc is Some && grpc is Some && key is Some,
        rpc->0@ != grpc->0@,
        rpc->0@ != key->0@,
        grpc->0@ != key->0@,
{
    reveal_strlit("CELESTIA_RPC_URL");
    reveal_strlit("CELESTIA_GRPC_URL");
    reveal_strlit("CELESTIA_PRIVATE_KEY_HEX");
    assert(rpc->0@.len() == 16);
    assert(grpc->0@.len() == 17);
    assert(key->0@.len() == 24);
}

} // verus!

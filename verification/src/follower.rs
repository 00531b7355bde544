//! Settings of a follower and how it starts.

use crate::hex::{from_hex, hex_bytes, hex_text, law_hex_round_trip};
use vstd::prelude::*;

verus! {

/// Configuration for the follower binary.
pub struct Config {
    pub source: String,
    pub identity: String,
    pub directory: String,
    pub worker_threads: usize,
    pub signature_threads: usize,
    pub log_level: String,
    pub metrics_port: u16,
    pub mailbox_size: usize,
    pub max_repair: usize,
    pub fetch_retry_timeout_ms: u64,
    pub tip: bool,
    pub pruning_depth: Option<u64>,
}

impl Config {
    /// Whether every number of which there must be some is not zero.
    pub open spec fn wf(self) -> bool {
        &&& self.worker_threads > 0
        &&& self.signature_threads > 0
        &&& self.mailbox_size > 0
        &&& self.max_repair > 0
    }

    /// Whether every number of which there must be some is not zero.
    pub fn is_valid(&self) -> (valid: bool)
        ensures
            valid == self.wf(),
    {
        self.worker_threads > 0 && self.signature_threads > 0 && self.mailbox_size > 0
            && self.max_repair > 0
    }

    /// The bytes of the identity, which must be hexadecimal.
    pub fn identity_bytes(&self) -> (bytes: Vec<u8>)
        requires
            hex_bytes(self.identity@) is Some,
        ensures
            hex_bytes(self.identity@) == Some(bytes@),
    {
        self.try_identity_bytes().unwrap()
    }

    /// The bytes of the identity, where it is hexadecimal.
    pub fn try_identity_bytes(&self) -> (bytes: Option<Vec<u8>>)
        ensures
            bytes is Some <==> hex_bytes(self.identity@) is Some,
            bytes matches Some(found) ==> hex_bytes(self.identity@) == Some(found@),
    {
        from_hex(self.identity.as_str())
    }

    /// Whether the follower starts from the newest final block: when it is configured to
    /// and nothing was synced before.
    pub fn starts_from_tip(&self, last_processed_height: Option<u64>) -> (tip: bool)
        ensures
            tip == (self.tip && (last_processed_height matches Some(height) ==> height == 0)),
    {
        self.tip && match last_processed_height {
            Some(height) => height == 0,
            None => true,
        }
    }
}

/// What the source gave as the newest final block: whether its finalization verifies, if
/// there is one.
#[derive(Clone, Copy, Debug, PartialEq, Eq)]
pub enum Newest {
    Finalized { verified: bool },
    Unavailable,
}

/// How the follower starts.
#[derive(Clone, Copy, Debug, PartialEq, Eq)]
pub enum Start {
    /// From the newest final block, as the floor of what is kept.
    FromFloor,
    /// From the genesis block, or from where it was.
    Backfill,
}

/// The newest final block has a finalization that does not verify.
#[derive(Clone, Copy, Debug, PartialEq, Eq)]
pub struct InvalidCheckpoint;

/// How the follower starts, given what the source gave as the newest final block, whose
/// finalization must verify; this is asked for only when the follower starts from there.
pub fn checkpoint(newest: Newest) -> (start: Start)
    requires
        newest matches Newest::Finalized { verified } ==> verified,
    ensures
        start == match newest {
            Newest::Finalized { .. } => Start::FromFloor,
            Newest::Unavailable => Start::Backfill,
        },
{
    match newest {
        Newest::Finalized { .. } => Start::FromFloor,
        Newest::Unavailable => Start::Backfill,
    }
}

/// How the follower starts, given what the source gave as the newest final block; a
/// finalization that does not verify is an error.
pub fn try_checkpoint(newest: Newest) -> (start: Result<Start, InvalidCheckpoint>)
    ensures
        start == match newest {
            Newest::Finalized { verified: true } => Ok(Start::FromFloor),
            Newest::Finalized { verified: false } => Err(InvalidCheckpoint),
            Newest::Unavailable => Ok(Start::Backfill),
        },
{
    match newest {
        Newest::Finalized { verified: false } => Err(InvalidCheckpoint),
        _ => Ok(checkpoint(newest)),
    }
}

/// A follower starts from the newest final block only where it is configured to and has
/// processed nothing above the genesis block.
pub proof fn law_synced_followers_do_not_jump(config: Config, last: Option<u64>, tip: bool)
    requires
        call_ensures(Config::starts_from_tip, (&config, last), tip),
    ensures
        tip ==> config.tip && (last is None || last == Some(0u64)),
        !config.tip ==> !tip,
        last matches Some(height) && height > 0 ==> !tip,
        config.tip && last is None ==> tip,
        config.tip && last == Some(0u64) ==> tip,
{
}

/// A checkpoint is taken exactly where its finalization verifies, one that does not stops
/// the follower, and without any it backfills.
pub proof fn law_only_verified_checkpoints_count(
    verified: Result<Start, InvalidCheckpoint>,
    forged: Result<Start, InvalidCheckpoint>,
    missing: Result<Start, InvalidCheckpoint>,
    plain: Start,
    absent: Start,
)
    requires
        call_ensures(try_checkpoint, (Newest::Finalized { verified: true },), verified),
        call_ensures(try_checkpoint, (Newest::Finalized { verified: false },), forged),
        call_ensures(try_checkpoint, (Newest::Unavailable,), missing),
        call_ensures(checkpoint, (Newest::Finalized { verified: true },), plain),
        call_ensures(checkpoint, (Newest::Unavailable,), absent),
    ensures
        forged is Err,
        verified == Ok::<Start, InvalidCheckpoint>(plain),
        missing == Ok::<Start, InvalidCheckpoint>(absent),
        plain is FromFloor,
        absent is Backfill,
{
}

/// A configuration is valid exactly where none of the numbers of which there must be some is
/// zero.
pub proof fn law_valid_configurations_have_some_of_everything(config: Config, valid: bool)
    requires
        call_ensures(Config::is_valid, (&config,), valid),
    ensures
        valid ==> config.worker_threads >= 1 && config.signature_threads >= 1
            && config.mailbox_size >= 1 && config.max_repair >= 1,
        !valid ==> config.worker_threads == 0 || config.signature_threads == 0
            || config.mailbox_size == 0 || config.max_repair == 0,
{
}

/// The identity is read from its hexadecimal text.
pub proof fn law_identity_is_read_back(config: Config, key: Seq<u8>, bytes: Option<Vec<u8>>)
    requires
        call_ensures(Config::try_identity_bytes, (&config,), bytes),
        config.identity@ == hex_text(key),
    ensures
        bytes matches Some(found) && found@ == key,
{
    law_hex_round_trip(key);
}

} // verus!

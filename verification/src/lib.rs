//! The rules of an Alto chain that is sequenced by one writer and published to a data
//! availability layer, and of the validators and followers of the network that it comes
//! from.
//!
//! The sequencer builds blocks into batches ([`chain`], [`batch`], [`model`]), confirms
//! them softly as soon as they are archived ([`soft`], [`sequencer`], [`restore`]),
//! publishes them ([`publish`]) and answers questions about them ([`history`]). Replicas
//! apply the published batches ([`model`]). Validators propose and vote ([`application`],
//! [`validator`]) and upload what became final ([`backfiller`]). Followers take final
//! blocks from a source ([`feeder`], [`resolver`], [`progress`], [`archive`], [`engine`],
//! [`follower`]).
//!
//! Every function here computes on plain values: what comes from files, networks and other
//! services is handed in, and [`clock`] reads the time. How a block is encoded, decoded and
//! sealed with its digest is handed in as well, as functions.

pub mod application;
pub mod archive;
pub mod backfiller;
pub mod batch;
pub mod celestia;
pub mod chain;
pub mod clock;
pub mod codec;
pub mod config;
pub mod crypto;
pub mod digest_map;
pub mod engine;
pub mod feeder;
pub mod follower;
pub mod genesis;
pub mod hex;
pub mod history;
pub mod model;
pub mod progress;
pub mod publish;
pub mod resolver;
pub mod restore;
pub mod sequencer;
pub mod soft;
pub mod text;
pub mod types;
pub mod validator;

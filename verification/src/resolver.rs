//! Backfilling from a source: what is asked for a key and what counts as its value.

use crate::types::{Digest, Round};
use vstd::prelude::*;

verus! {

/// What is missing.
#[derive(Clone, Copy, Debug, PartialEq, Eq)]
pub enum Key {
    /// The block with a digest.
    Block(Digest),
    /// The final block of a height with its finalization.
    Finalized { height: u64 },
    /// The block of a round with its notarization.
    Notarized { round: Round },
}

/// What a source is asked.
#[derive(Clone, Copy, Debug, PartialEq, Eq)]
pub enum Query {
    BlockByDigest(Digest),
    BlockByIndex(u64),
    NotarizedByIndex(u64),
}

/// What a source answered, encoded as the missing value would be.
pub enum Response {
    /// A block.
    Block(Vec<u8>),
    /// A finalization with its block.
    Finalized(Vec<u8>),
    /// A notarization with its block.
    Notarized(Vec<u8>),
    /// Nothing that can be used.
    Failed,
}

impl Key {
    /// What a source is asked for this key.
    pub open spec fn question(self) -> Query {
        match self {
            Key::Block(digest) => Query::BlockByDigest(digest),
            Key::Finalized { height } => Query::BlockByIndex(height),
            Key::Notarized { round } => Query::NotarizedByIndex(round.view),
        }
    }

    /// Whether a response is of the kind that this key is for, with its bytes.
    pub open spec fn value_in(self, response: Response) -> Option<Vec<u8>> {
        match (self, response) {
            (Key::Block(_), Response::Block(bytes)) => Some(bytes),
            (Key::Finalized { .. }, Response::Finalized(bytes)) => Some(bytes),
            (Key::Notarized { .. }, Response::Notarized(bytes)) => Some(bytes),
            _ => None,
        }
    }
}

/// Fetches what is missing from a source client.
pub struct Fetcher<C>(pub C);

impl<C> Fetcher<C> {
    /// A fetcher that asks a client.
    pub fn new(client: C) -> (fetcher: Fetcher<C>)
        ensures
            fetcher.0 == client,
    {
        Fetcher(client)
    }

    /// What the client is asked for a key: final blocks are asked for by height among
    /// all blocks, notarized ones by the view of their round.
    pub fn query(&self, key: &Key) -> (query: Query)
        ensures
            query == key.question(),
    {
        match key {
            Key::Block(digest) => Query::BlockByDigest(*digest),
            Key::Finalized { height } => Query::BlockByIndex(*height),
            Key::Notarized { round } => Query::NotarizedByIndex(round.view),
        }
    }

    /// The value for a key that a response holds; nothing when the source failed or
    /// answered with something else.
    pub fn value(&self, key: &Key, response: Response) -> (value: Option<Vec<u8>>)
        ensures
            value == key.value_in(response),
    {
        match (key, response) {
            (Key::Block(_), Response::Block(bytes)) => Some(bytes),
            (Key::Finalized { .. }, Response::Finalized(bytes)) => Some(bytes),
            (Key::Notarized { .. }, Response::Notarized(bytes)) => Some(bytes),
            _ => None,
        }
    }
}

/// What is asked for a key names the key: its digest, its height, or the view of its round;
/// different keys of one kind are asked for differently, where their epochs agree.
pub proof fn law_queries_name_the_key<C>(
    fetcher: Fetcher<C>,
    digest: Digest,
    height: u64,
    round: Round,
    for_block: Query,
    for_final: Query,
    for_notarized: Query,
)
    requires
        call_ensures(Fetcher::<C>::query, (&fetcher, &Key::Block(digest)), for_block),
        call_ensures(Fetcher::<C>::query, (&fetcher, &Key::Finalized { height }), for_final),
        call_ensures(Fetcher::<C>::query, (&fetcher, &Key::Notarized { round }), for_notarized),
    ensures
        for_block == Query::BlockByDigest(digest),
        for_final == Query::BlockByIndex(height),
        for_notarized == Query::NotarizedByIndex(round.view),
{
}

/// A value is taken from a response as it is, and only from one of the kind that the key is
/// for.
pub proof fn law_values_are_of_the_kind_asked_for<C>(
    fetcher: Fetcher<C>,
    key: Key,
    response: Response,
    value: Option<Vec<u8>>,
)
    requires
        call_ensures(Fetcher::<C>::value, (&fetcher, &key, response), value),
    ensures
        value is Some <==> key is Block && response is Block || key is Finalized && response
            is Finalized || key is Notarized && response is Notarized,
        response matches Response::Block(bytes) ==> (value matches Some(found) ==> found == bytes),
        response matches Response::Finalized(bytes) ==> (value matches Some(found) ==> found
            == bytes),
        response matches Response::Notarized(bytes) ==> (value matches Some(found) ==> found
            == bytes),
        response is Failed ==> value is None,
{
}

} // verus!

//! Feeding certificates from a stream: which are taken and what becomes of them.

use crate::text::{decimal, push_decimal};
use crate::types::{Block, Round};
use vstd::prelude::*;
use vstd::string::*;

verus! {

/// How long to wait before the stream is opened again.
pub const RECONNECT_MS: u64 = 1_000;

/// Errors that can occur while feeding certificates from the source stream.
#[derive(Debug)]
pub enum Error {
    Connect(String),
    Stream(String),
}

impl Error {
    /// The error in words.
    pub open spec fn text(self) -> Seq<char> {
        match self {
            Error::Connect(reason) => "failed to connect: "@ + reason@,
            Error::Stream(reason) => "stream error: "@ + reason@,
        }
    }

    /// The error in words.
    pub fn message(&self) -> (message: String)
        ensures
            message@ == self.text(),
    {
        match self {
            Error::Connect(reason) => {
                let mut message = "failed to connect: ".to_owned();
                message.append(reason.as_str());
                message
            },
            Error::Stream(reason) => {
                let mut message = "stream error: ".to_owned();
                message.append(reason.as_str());
                message
            },
        }
    }
}

/// What a certificate certifies.
#[derive(Clone, Copy, Debug, PartialEq, Eq)]
pub enum Certificate {
    Notarization,
    Finalization,
}

/// A message of the stream. For a certificate it says whether its threshold signature
/// verifies.
#[derive(Clone, Copy, Debug, PartialEq, Eq)]
pub enum Message {
    Seed { view: u64 },
    Certified { certificate: Certificate, round: Round, block: Block, verified: bool },
}

/// What follows a message.
#[derive(Clone, Copy, Debug, PartialEq, Eq)]
pub enum Handled {
    /// Nothing.
    Ignore,
    /// The block is cached for its round, and the certificate is reported after that,
    /// whether or not caching succeeded.
    CacheAndReport { certificate: Certificate, round: Round, block: Block },
}

/// A certificate whose signature does not verify.
#[derive(Clone, Copy, Debug, PartialEq, Eq)]
pub struct InvalidSignature {
    pub certificate: Certificate,
    pub height: u64,
}

impl InvalidSignature {
    /// The error in words.
    pub open spec fn text(self) -> Seq<char> {
        match self.certificate {
            Certificate::Notarization => "invalid notarization signature for height "@ + decimal(
                self.height as nat,
            ),
            Certificate::Finalization => "invalid finalization signature for height "@ + decimal(
                self.height as nat,
            ),
        }
    }

    /// The error in words.
    pub fn message(&self) -> (message: String)
        ensures
            message@ == self.text(),
    {
        let mut message = match self.certificate {
            Certificate::Notarization => "invalid notarization signature for height ".to_owned(),
            Certificate::Finalization => "invalid finalization signature for height ".to_owned(),
        };
        push_decimal(&mut message, self.height);
        message
    }
}

/// Takes a message of the stream. Seeds are ignored; a certificate must have a signature
/// that verifies, and is then cached and reported.
pub fn handle_message(message: &Message) -> (handled: Handled)
    requires
        *message matches Message::Certified { verified, .. } ==> verified,
    ensures
        handled == match *message {
            Message::Seed { .. } => Handled::Ignore,
            Message::Certified { certificate, round, block, .. } => Handled::CacheAndReport {
                certificate,
                round,
                block,
            },
        },
{
    match message {
        Message::Seed { .. } => Handled::Ignore,
        Message::Certified { certificate, round, block, .. } => Handled::CacheAndReport {
            certificate: *certificate,
            round: *round,
            block: *block,
        },
    }
}

/// Takes a message of the stream. Seeds are ignored; a certificate counts only when its
/// signature verifies, and one whose signature does not is an error.
pub fn try_handle_message(message: &Message) -> (handled: Result<Handled, InvalidSignature>)
    ensures
        handled == match *message {
            Message::Seed { .. } => Ok(Handled::Ignore),
            Message::Certified { certificate, round, block, verified } => if verified {
                Ok(Handled::CacheAndReport { certificate, round, block })
            } else {
                Err(InvalidSignature { certificate, height: block.height })
            },
        },
{
    if let Message::Certified { certificate, block, verified, .. } = message {
        if !*verified {
            return Err(InvalidSignature { certificate: *certificate, height: block.height });
        }
    }
    Ok(handle_message(message))
}

/// What the stream came to: connecting, a message, or its end.
pub enum Streamed {
    /// The stream could not be opened, for this reason.
    NotConnected(String),
    /// The stream gave this message.
    Item(Message),
    /// The stream failed, for this reason.
    Broken(String),
    /// The stream ended.
    Ended,
}

/// What follows what the stream came to.
pub enum AfterStream {
    /// Wait for the next message, after this is done.
    Read(Handled),
    /// Open the stream again after so many milliseconds; an error may have ended it.
    Reconnect { error: Option<Error>, after_ms: u64 },
}

/// Takes what the stream came to. The stream is opened again whenever it ends. The signature
/// of a certificate that it gave must verify.
pub fn process_stream(streamed: Streamed) -> (next: AfterStream)
    requires
        streamed matches Streamed::Item(Message::Certified { verified, .. }) ==> verified,
    ensures
        next == match streamed {
            Streamed::NotConnected(reason) => AfterStream::Reconnect {
                error: Some(Error::Connect(reason)),
                after_ms: RECONNECT_MS,
            },
            Streamed::Broken(reason) => AfterStream::Reconnect {
                error: Some(Error::Stream(reason)),
                after_ms: RECONNECT_MS,
            },
            Streamed::Ended => AfterStream::Reconnect { error: None, after_ms: RECONNECT_MS },
            Streamed::Item(Message::Seed { .. }) => AfterStream::Read(Handled::Ignore),
            Streamed::Item(Message::Certified { certificate, round, block, .. }) => AfterStream::Read(
                Handled::CacheAndReport { certificate, round, block },
            ),
        },
{
    match streamed {
        Streamed::NotConnected(reason) => AfterStream::Reconnect {
            error: Some(Error::Connect(reason)),
            after_ms: RECONNECT_MS,
        },
        Streamed::Broken(reason) => AfterStream::Reconnect {
            error: Some(Error::Stream(reason)),
            after_ms: RECONNECT_MS,
        },
        Streamed::Ended => AfterStream::Reconnect { error: None, after_ms: RECONNECT_MS },
        Streamed::Item(message) => AfterStream::Read(handle_message(&message)),
    }
}

/// Takes what the stream came to. A certificate whose signature does not verify is an
/// error.
pub fn try_process_stream(streamed: Streamed) -> (next: Result<AfterStream, InvalidSignature>)
    ensures
        match streamed {
            Streamed::NotConnected(reason) => next == Ok::<AfterStream, InvalidSignature>(
                AfterStream::Reconnect {
                    error: Some(Error::Connect(reason)),
                    after_ms: RECONNECT_MS,
                },
            ),
            Streamed::Broken(reason) => next == Ok::<AfterStream, InvalidSignature>(
                AfterStream::Reconnect {
                    error: Some(Error::Stream(reason)),
                    after_ms: RECONNECT_MS,
                },
            ),
            Streamed::Ended => next == Ok::<AfterStream, InvalidSignature>(
                AfterStream::Reconnect { error: None, after_ms: RECONNECT_MS },
            ),
            Streamed::Item(Message::Seed { .. }) => next == Ok::<AfterStream, InvalidSignature>(
                AfterStream::Read(Handled::Ignore),
            ),
            Streamed::Item(Message::Certified { certificate, round, block, verified }) => next
                == if verified {
                Ok::<AfterStream, InvalidSignature>(
                    AfterStream::Read(Handled::CacheAndReport { certificate, round, block }),
                )
            } else {
                Err(InvalidSignature { certificate, height: block.height })
            },
        },
{
    if let Streamed::Item(message) = &streamed {
        if let Err(invalid) = try_handle_message(message) {
            return Err(invalid);
        }
    }
    Ok(process_stream(streamed))
}

/// A certificate is reported as it came, with its own round and block; a seed never is. One
/// that does not verify is refused by its kind and height, and nothing else is refused.
pub proof fn law_certificates_are_reported_as_they_came(
    message: Message,
    handled: Handled,
    tried: Result<Handled, InvalidSignature>,
)
    requires
        call_ensures(handle_message, (&message,), handled),
        call_ensures(try_handle_message, (&message,), tried),
    ensures
        message is Seed ==> handled == Handled::Ignore && tried == Ok::<Handled, InvalidSignature>(
            Handled::Ignore,
        ),
        message matches Message::Certified { certificate, round, block, verified } ==> {
            &&& handled matches Handled::CacheAndReport { certificate: c, round: r, block: b } && c
                == certificate && r == round && b == block
            &&& verified ==> tried == Ok::<Handled, InvalidSignature>(handled)
            &&& !verified ==> (tried matches Err(invalid) && invalid.certificate == certificate
                && invalid.height == block.height)
        },
{
}

/// A stream that cannot be opened, breaks or ends is opened again after a second, and the
/// error says which; a message that it gives is handled as it is by itself.
pub proof fn law_streams_are_reopened(
    reason: String,
    message: Message,
    not_connected: AfterStream,
    broken: AfterStream,
    ended: AfterStream,
    item: Result<AfterStream, InvalidSignature>,
    handled: Result<Handled, InvalidSignature>,
)
    requires
        call_ensures(process_stream, (Streamed::NotConnected(reason),), not_connected),
        call_ensures(process_stream, (Streamed::Broken(reason),), broken),
        call_ensures(process_stream, (Streamed::Ended,), ended),
        call_ensures(try_process_stream, (Streamed::Item(message),), item),
        call_ensures(try_handle_message, (&message,), handled),
    ensures
        not_connected matches AfterStream::Reconnect { error: Some(Error::Connect(why)), after_ms }
            && why == reason && after_ms == 1_000,
        broken matches AfterStream::Reconnect { error: Some(Error::Stream(why)), after_ms } && why
            == reason && after_ms == 1_000,
        ended matches AfterStream::Reconnect { error: None, after_ms } && after_ms == 1_000,
        match (item, handled) {
            (Ok(AfterStream::Read(done)), Ok(expected)) => done == expected,
            (Err(a), Err(b)) => a == b,
            _ => false,
        },
{
}

/// A refused certificate is named by its kind and the height of its block.
pub proof fn law_refused_certificates_are_named(
    height: u64,
    notarization: String,
    finalization: String,
)
    requires
        call_ensures(
            InvalidSignature::message,
            (&InvalidSignature { certificate: Certificate::Notarization, height },),
            notarization,
        ),
        call_ensures(
            InvalidSignature::message,
            (&InvalidSignature { certificate: Certificate::Finalization, height },),
            finalization,
        ),
    ensures
        notarization@ == "invalid notarization signature for height "@ + decimal(height as nat),
        finalization@ == "invalid finalization signature for height "@ + decimal(height as nat),
{
}

} // verus!

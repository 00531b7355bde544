//! Hashes and keys.

use crate::hex::{from_hex, hex_bytes, hex_text, law_hex_round_trip};
use crate::types::{Digest, PublicKey};
use commonware_codec::{Decode, DecodeExt, EncodeFixed, ReadExt};
use commonware_cryptography::bls12381::primitives::group::Share;
use commonware_cryptography::bls12381::primitives::sharing::{ModeVersion, Sharing};
use commonware_cryptography::bls12381::primitives::variant::MinSig;
use commonware_cryptography::{ed25519, Hasher, Sha256, Signer};
use std::num::NonZeroU32;
use vstd::prelude::*;

verus! {

/// The SHA-256 digest of a message.
pub uninterp spec fn sha256_digest(message: Seq<u8>) -> Seq<u8>;

/// The secret bytes of the ed25519 key that a seed stands for.
pub uninterp spec fn ed25519_seeded(seed: u64) -> Seq<u8>;

/// The ed25519 public key that belongs to secret bytes.
pub uninterp spec fn ed25519_public(secret: Seq<u8>) -> Seq<u8>;

/// Whether bytes are the encoding of an ed25519 public key.
pub uninterp spec fn ed25519_is_public(bytes: Seq<u8>) -> bool;

/// Whether bytes are the encoding of a share of a BLS12-381 threshold key.
pub uninterp spec fn bls_is_share(bytes: Seq<u8>) -> bool;

/// Whether bytes are the encoding of the public polynomial of a BLS12-381 threshold key for
/// at most so many participants.
pub uninterp spec fn bls_is_polynomial(bytes: Seq<u8>, participants: u32) -> bool;

/// `<commonware_cryptography::Sha256 as Hasher>::hash`: the digest depends on the
/// message alone.
#[verifier::external_body]
fn sha256_hash(message: &[u8]) -> (digest: Digest)
    ensures
        digest@ == sha256_digest(message@),
{
    Sha256::hash(message).0
}

/// `<ed25519::PrivateKey as Signer>::from_seed`: the secret bytes depend on the seed
/// alone.
#[verifier::external_body]
fn ed25519_from_seed(seed: u64) -> (secret: [u8; 32])
    ensures
        secret@ == ed25519_seeded(seed),
{
    ed25519::PrivateKey::from_seed(seed).encode_fixed()
}

/// `<ed25519::PrivateKey as commonware_codec::ReadExt>::read` on a slice, without its
/// error: succeeds exactly when 32 bytes are there, and the first 32 are the secret bytes.
#[verifier::external_body]
fn ed25519_read(bytes: &[u8]) -> (secret: Option<[u8; 32]>)
    ensures
        secret is Some <==> bytes@.len() >= 32,
        secret matches Some(s) ==> s@ == bytes@.subrange(0, 32),
{
    let mut reader: &[u8] = bytes;
    ed25519::PrivateKey::read(&mut reader).ok().map(|key| key.encode_fixed())
}

/// `<ed25519::PrivateKey as commonware_codec::DecodeExt>::decode` on a slice, without its
/// error: succeeds exactly on 32 bytes, which are the secret bytes.
#[verifier::external_body]
fn ed25519_decode(bytes: &[u8]) -> (secret: Option<[u8; 32]>)
    ensures
        secret is Some <==> bytes@.len() == 32,
        secret matches Some(s) ==> s@ == bytes@,
{
    ed25519::PrivateKey::decode(bytes).ok().map(|key| key.encode_fixed())
}

/// `<ed25519::PrivateKey as Signer>::public_key`: the public key depends on the secret
/// bytes alone.
#[verifier::external_body]
fn ed25519_public_key(secret: &[u8; 32]) -> (key: PublicKey)
    ensures
        key@ == ed25519_public(secret@),
{
    let key = ed25519::PrivateKey::decode(secret.as_slice()).expect("32 bytes");
    key.public_key().encode_fixed()
}

/// `<ed25519::PublicKey as commonware_codec::DecodeExt>::decode` on a slice, without its
/// error: whether it succeeds depends on the bytes alone, it fails unless they are 32, and
/// the key is encoded by these bytes. Which 32 bytes encode a point of the curve is not
/// said.
#[verifier::external_body]
fn ed25519_decode_public(bytes: &[u8]) -> (key: Option<PublicKey>)
    ensures
        key is Some <==> ed25519_is_public(bytes@),
        key is Some ==> bytes@.len() == 32,
        key matches Some(k) ==> k@ == bytes@,
{
    ed25519::PublicKey::decode(bytes).ok().map(|key| key.encode_fixed())
}

/// `<group::Share as commonware_codec::DecodeExt>::decode` on a slice, without the share:
/// whether it succeeds depends on the bytes alone. Which bytes are a share is not said.
#[verifier::external_body]
fn bls_decodes_share(bytes: &[u8]) -> (valid: bool)
    ensures
        valid == bls_is_share(bytes@),
{
    Share::decode(bytes).is_ok()
}

/// `<Sharing<MinSig> as commonware_codec::Decode>::decode_cfg` on a slice, for a number of
/// participants and the first version of modes, without the polynomial: whether it succeeds
/// depends on the bytes and the number alone. Which bytes are a polynomial is not said.
#[verifier::external_body]
fn bls_decodes_polynomial(bytes: &[u8], participants: u32) -> (valid: bool)
    requires
        participants > 0,
    ensures
        valid == bls_is_polynomial(bytes@, participants),
{
    let most = NonZeroU32::new(participants).expect("positive");
    Sharing::<MinSig>::decode_cfg(bytes, &(most, ModeVersion::v0())).is_ok()
}

/// The digest of a message.
pub fn sha256(message: &[u8]) -> (digest: Digest)
    ensures
        digest@ == sha256_digest(message@),
{
    sha256_hash(message)
}

/// An ed25519 private key by its secret bytes.
pub struct PrivateKey {
    pub secret: [u8; 32],
}

/// Why a configured private key cannot be used.
#[derive(Clone, Copy, Debug, PartialEq, Eq)]
pub enum KeyError {
    /// The text is not hexadecimal.
    NotHex,
    /// The bytes are no key.
    Invalid,
}

impl PrivateKey {
    /// The key that a seed stands for.
    pub fn from_seed(seed: u64) -> (key: PrivateKey)
        ensures
            key.secret@ == ed25519_seeded(seed),
    {
        PrivateKey { secret: ed25519_from_seed(seed) }
    }

    /// The public key that belongs to this key.
    pub fn public_key(&self) -> (key: PublicKey)
        ensures
            key@ == ed25519_public(self.secret@),
    {
        ed25519_public_key(&self.secret)
    }

    /// Reads the key that the bytes of a hexadecimal text are, which must be 32.
    pub fn from_exact_hex(text: &str) -> (key: PrivateKey)
        requires
            hex_bytes(text@) matches Some(bytes) && bytes.len() == 32,
        ensures
            hex_bytes(text@) == Some(key.secret@),
    {
        PrivateKey::try_from_exact_hex(text).unwrap()
    }

    /// Reads the key that the bytes of a hexadecimal text are, no more and no less.
    pub fn try_from_exact_hex(text: &str) -> (key: Result<PrivateKey, KeyError>)
        ensures
            match hex_bytes(text@) {
                None => key == Err::<PrivateKey, KeyError>(KeyError::NotHex),
                Some(bytes) => if bytes.len() == 32 {
                    key matches Ok(k) && k.secret@ == bytes
                } else {
                    key == Err::<PrivateKey, KeyError>(KeyError::Invalid)
                },
            },
    {
        let bytes = match from_hex(text) {
            Some(bytes) => bytes,
            None => {
                return Err(KeyError::NotHex);
            },
        };
        match ed25519_decode(bytes.as_slice()) {
            Some(secret) => Ok(PrivateKey { secret }),
            None => Err(KeyError::Invalid),
        }
    }
}

/// Whether a sequencer's key settings name a key: a configured text must be hexadecimal
/// and hold at least 32 bytes.
pub open spec fn names_signer(private_key: Option<String>) -> bool {
    match private_key {
        None => true,
        Some(text) => hex_bytes(text@) is Some && hex_bytes(text@)->0.len() >= 32,
    }
}

/// The secret bytes that a sequencer's key settings name: the first 32 bytes of the
/// configured text, or those that the seed stands for where none is configured.
pub open spec fn signer_secret(private_key: Option<String>, seed: u64) -> Seq<u8> {
    match private_key {
        None => ed25519_seeded(seed),
        Some(text) => hex_bytes(text@)->0.subrange(0, 32),
    }
}

/// The sequencer's key by its settings; an error when they name none.
pub fn try_signer(private_key: &Option<String>, seed: u64) -> (key: Result<PrivateKey, KeyError>)
    ensures
        key is Ok <==> names_signer(*private_key),
        key matches Ok(k) ==> k.secret@ == signer_secret(*private_key, seed),
        key matches Err(e) ==> {
            &&& private_key matches Some(text)
            &&& e == if hex_bytes(text@) is None {
                KeyError::NotHex
            } else {
                KeyError::Invalid
            }
        },
{
    let text = match private_key {
        Some(text) => text,
        None => {
            return Ok(PrivateKey::from_seed(seed));
        },
    };
    let bytes = match from_hex(text.as_str()) {
        Some(bytes) => bytes,
        None => {
            return Err(KeyError::NotHex);
        },
    };
    match ed25519_read(bytes.as_slice()) {
        Some(secret) => Ok(PrivateKey { secret }),
        None => Err(KeyError::Invalid),
    }
}

/// The sequencer's key by its settings.
pub fn signer(private_key: &Option<String>, seed: u64) -> (key: PrivateKey)
    requires
        names_signer(*private_key),
    ensures
        key.secret@ == signer_secret(*private_key, seed),
{
    try_signer(private_key, seed).unwrap()
}

/// Reads a public key from hexadecimal text.
pub fn public_key_from_hex(text: &str) -> (key: Result<PublicKey, KeyError>)
    ensures
        match hex_bytes(text@) {
            None => key == Err::<PublicKey, KeyError>(KeyError::NotHex),
            Some(bytes) => if ed25519_is_public(bytes) {
                key matches Ok(k) && k@ == bytes
            } else {
                key == Err::<PublicKey, KeyError>(KeyError::Invalid)
            },
        },
{
    let bytes = match from_hex(text) {
        Some(bytes) => bytes,
        None => {
            return Err(KeyError::NotHex);
        },
    };
    match ed25519_decode_public(bytes.as_slice()) {
        Some(key) => Ok(key),
        None => Err(KeyError::Invalid),
    }
}

/// Reads the bytes of a share of a threshold key from hexadecimal text.
pub fn share_bytes(text: &str) -> (share: Result<Vec<u8>, KeyError>)
    ensures
        match hex_bytes(text@) {
            None => share == Err::<Vec<u8>, KeyError>(KeyError::NotHex),
            Some(bytes) => if bls_is_share(bytes) {
                share matches Ok(found) && found@ == bytes
            } else {
                share == Err::<Vec<u8>, KeyError>(KeyError::Invalid)
            },
        },
{
    match from_hex(text) {
        Some(bytes) => if bls_decodes_share(bytes.as_slice()) {
            Ok(bytes)
        } else {
            Err(KeyError::Invalid)
        },
        None => Err(KeyError::NotHex),
    }
}

/// Reads the bytes of the public polynomial of a threshold key, for at most so many
/// participants, from hexadecimal text.
pub fn polynomial_bytes(text: &str, participants: u32) -> (polynomial: Result<Vec<u8>, KeyError>)
    requires
        participants > 0,
    ensures
        match hex_bytes(text@) {
            None => polynomial == Err::<Vec<u8>, KeyError>(KeyError::NotHex),
            Some(bytes) => if bls_is_polynomial(bytes, participants) {
                polynomial matches Ok(found) && found@ == bytes
            } else {
                polynomial == Err::<Vec<u8>, KeyError>(KeyError::Invalid)
            },
        },
{
    match from_hex(text) {
        Some(bytes) => if bls_decodes_polynomial(bytes.as_slice(), participants) {
            Ok(bytes)
        } else {
            Err(KeyError::Invalid)
        },
        None => Err(KeyError::NotHex),
    }
}

/// A key in hexadecimal is read back, and only 32 bytes are a key.
pub proof fn law_written_keys_are_read_back(
    text: &str,
    bytes: Seq<u8>,
    key: Result<PrivateKey, KeyError>,
)
    requires
        call_ensures(PrivateKey::try_from_exact_hex, (text,), key),
        text@ == hex_text(bytes),
    ensures
        bytes.len() == 32 ==> (key matches Ok(found) && found.secret@ == bytes),
        bytes.len() != 32 ==> (key matches Err(error) && error is Invalid),
{
    law_hex_round_trip(bytes);
}

/// What is not hexadecimal is no key, share or polynomial, and is refused as such.
pub proof fn law_other_texts_are_no_keys(
    text: &str,
    participants: u32,
    private: Result<PrivateKey, KeyError>,
    public: Result<PublicKey, KeyError>,
    share: Result<Vec<u8>, KeyError>,
    polynomial: Result<Vec<u8>, KeyError>,
)
    requires
        call_ensures(PrivateKey::try_from_exact_hex, (text,), private),
        call_ensures(public_key_from_hex, (text,), public),
        call_ensures(share_bytes, (text,), share),
        call_ensures(polynomial_bytes, (text, participants), polynomial),
    ensures
        hex_bytes(text@) is None ==> {
            &&& private matches Err(error) && error is NotHex
            &&& public matches Err(error) && error is NotHex
            &&& share matches Err(error) && error is NotHex
            &&& polynomial matches Err(error) && error is NotHex
        },
        hex_bytes(text@) matches Some(bytes) ==> {
            &&& private matches Err(error) ==> error is Invalid
            &&& public matches Err(error) ==> error is Invalid
            &&& share matches Err(error) ==> error is Invalid
            &&& polynomial matches Err(error) ==> error is Invalid
            &&& public matches Ok(found) ==> found@ == bytes
            &&& share matches Ok(found) ==> found@ == bytes
            &&& polynomial matches Ok(found) ==> found@ == bytes
            &&& ed25519_is_public(bytes) ==> public is Ok
            &&& bls_is_share(bytes) ==> share is Ok
            &&& bls_is_polynomial(bytes, participants) ==> polynomial is Ok
        },
{
}

/// A sequencer without a configured key has that of its seed; with one, its key is the first
/// 32 bytes of the text, whatever the seed and whatever follows them.
pub proof fn law_configured_keys_take_precedence(
    text: String,
    seed: u64,
    bytes: Seq<u8>,
    rest: Seq<u8>,
    configured: Result<PrivateKey, KeyError>,
    seeded: Result<PrivateKey, KeyError>,
    key: PrivateKey,
)
    requires
        call_ensures(try_signer, (&Some(text), seed), configured),
        call_ensures(try_signer, (&None, seed), seeded),
        call_ensures(PrivateKey::from_seed, (seed,), key),
        text@ == hex_text(bytes + rest),
    ensures
        seeded matches Ok(found) && found.secret@ == key.secret@,
        bytes.len() == 32 ==> (configured matches Ok(found) && found.secret@ == bytes),
        bytes.len() + rest.len() < 32 ==> (configured matches Err(error) && error is Invalid),
{
    law_hex_round_trip(bytes + rest);
    if bytes.len() == 32 {
        assert((bytes + rest).subrange(0, 32) =~= bytes);
    }
}

/// Whatever the settings say, the key of a sequencer is the one that trying gives.
pub proof fn law_signer_is_try_signer(
    private_key: Option<String>,
    seed: u64,
    key: PrivateKey,
    tried: PrivateKey,
)
    requires
        call_ensures(signer, (&private_key, seed), key),
        call_ensures(try_signer, (&private_key, seed), Ok(tried)),
    ensures
        key.secret@ == tried.secret@,
{
}

} // verus!

//! The message envelope that peers exchange, its version, and the
//! end-to-end encryption of its payload.

use vstd::prelude::*;
use crate::{Error, Result};
use crate::crypto::{
    encrypt_message, decrypt_message, EncryptedEnvelope, UID, xchacha_seal, xchacha_open, sealable,
    random_bytes, rng_failure, crypto_error,
};
use crate::wire::{envelope_bytes, encode_encrypted_envelope, decode_encrypted_envelope, lemma_envelope_unique};
use crate::clock::{UtcTime, now_millis, clock_range};

verus! {

/// Current protocol version.
pub const PROTOCOL_VERSION: u8 = 1;

#[verifier::external_type_specification]
#[verifier::external_body]
pub struct ExUuid(uuid::Uuid);

/// Trusted: `Uuid` is `Copy`, and its `clone` gives back the same value.
pub assume_specification[ <uuid::Uuid as core::clone::Clone>::clone ](u: &uuid::Uuid) -> (r: uuid::Uuid)
    ensures
        r == *u,
;

/// Trusted: `uuid::Builder::from_random_bytes(bytes).into_uuid()`, the
/// version 4 identifier made of 16 random bytes, as `Uuid::new_v4` makes
/// it. Nothing is claimed of its value.
#[verifier::external_body]
fn uuid_from_random_bytes(bytes: [u8; 16]) -> (r: uuid::Uuid) {
    uuid::Builder::from_random_bytes(bytes).into_uuid()
}

/// A fresh random identifier, or `None` when the operating system's
/// generator fails.
fn new_message_id() -> (r: Option<uuid::Uuid>) {
    match random_bytes::<16>() {
        Some(b) => Some(uuid_from_random_bytes(b)),
        None => None,
    }
}

/// The kind of a message.
#[derive(Debug, Clone, Copy, PartialEq, Eq, Structural)]
pub enum MessageType {
    /// A text message.
    Text,
    /// A request to delete the conversation.
    Delete,
}

/// A message as peers exchange it.
#[derive(Debug, Clone)]
pub struct MessageEnvelope {
    /// Unique message identifier.
    pub id: uuid::Uuid,
    /// Protocol version.
    pub version: u8,
    /// Sender's identifier.
    pub from_uid: String,
    /// Recipient's identifier.
    pub to_uid: String,
    /// Creation time in Unix milliseconds.
    pub timestamp: i64,
    /// Kind of message.
    pub message_type: MessageType,
    /// Whether the payload is a sealed envelope.
    pub encrypted: bool,
    /// The payload: plain bytes, or the CBOR of an encrypted envelope.
    pub payload: Vec<u8>,
}

/// The nonce and ciphertext that a payload encodes, when it encodes an
/// encrypted envelope.
pub open spec fn envelope_of(payload: Seq<u8>) -> Option<(Seq<u8>, Seq<u8>)> {
    if exists|n: Seq<u8>, c: Seq<u8>| #![trigger envelope_bytes(n, c)]
        n.len() == 24 && payload == envelope_bytes(n, c) {
        Some(choose|n: Seq<u8>, c: Seq<u8>| #![trigger envelope_bytes(n, c)]
            n.len() == 24 && payload == envelope_bytes(n, c))
    } else {
        None
    }
}

/// What opening a sealed payload gives: `Ok` with the plaintext, or `Err`
/// with whether the payload failed to decode (`true`) or to authenticate.
pub open spec fn opened_payload(payload: Seq<u8>, secret: Seq<u8>) -> core::result::Result<Seq<u8>, bool> {
    match envelope_of(payload) {
        None => Err(true),
        Some(nc) => match xchacha_open(secret, nc.0, nc.1) {
            Some(p) => Ok(p),
            None => Err(false),
        },
    }
}

/// The age at `now` of what was made at `made`, held in the range of
/// `i64` and saturating at its ends.
pub open spec fn age_at(now: i64, made: i64) -> int {
    let x = now - made;
    if x > i64::MAX { i64::MAX as int } else if x < i64::MIN { i64::MIN as int } else { x }
}

impl MessageEnvelope {
    /// Whether the envelope's fields are those given, with a plain payload.
    pub open spec fn is_plain(self, from: Seq<char>, to: Seq<char>, t: MessageType, payload: Seq<u8>) -> bool {
        &&& self.version == PROTOCOL_VERSION
        &&& self.from_uid@ == from
        &&& self.to_uid@ == to
        &&& self.message_type == t
        &&& !self.encrypted
        &&& self.payload@ == payload
    }

    /// Whether the envelope's fields are those given, with `payload` sealed
    /// under `secret` with some nonce.
    pub open spec fn is_sealed(self, from: Seq<char>, to: Seq<char>, t: MessageType, payload: Seq<u8>, secret: Seq<u8>) -> bool {
        &&& self.version == PROTOCOL_VERSION
        &&& self.from_uid@ == from
        &&& self.to_uid@ == to
        &&& self.message_type == t
        &&& self.carries_sealed(payload, secret)
    }

    /// Whether the envelope is encrypted and its payload is `payload` sealed
    /// under `secret` with some nonce.
    pub open spec fn carries_sealed(self, payload: Seq<u8>, secret: Seq<u8>) -> bool {
        &&& self.encrypted
        &&& exists|n: Seq<u8>| #![trigger xchacha_seal(secret, n, payload)]
            n.len() == 24 && self.payload@ == envelope_bytes(n, xchacha_seal(secret, n, payload))
    }

    /// A new envelope with a plain payload, a fresh identifier and the
    /// current time; fails when the generator of the identifier does.
    pub fn new(from_uid: &UID, to_uid: &UID, message_type: MessageType, payload: Vec<u8>) -> (r: Result<Self>)
        ensures
            r matches Ok(e) ==> e.is_plain(from_uid@, to_uid@, message_type, payload@),
            r is Err ==> rng_failure(r),
    {
        let id = match new_message_id() {
            Some(id) => id,
            None => return Err(crypto_error("Random number generator failed")),
        };
        Ok(MessageEnvelope {
            id,
            version: PROTOCOL_VERSION,
            from_uid: from_uid.to_string(),
            to_uid: to_uid.to_string(),
            timestamp: now_millis(),
            message_type,
            encrypted: false,
            payload,
        })
    }

    /// A new envelope whose payload is sealed under `shared_secret`, with a
    /// fresh identifier and the current time.
    pub fn new_encrypted(
        from_uid: &UID,
        to_uid: &UID,
        message_type: MessageType,
        payload: Vec<u8>,
        shared_secret: &[u8; 32],
    ) -> (r: Result<Self>)
        ensures
            r matches Ok(e) ==> sealable(payload@) && e.is_sealed(from_uid@, to_uid@, message_type, payload@, shared_secret@),
            !sealable(payload@) ==> r is Err,
            r is Err ==> rng_failure(r) || (!sealable(payload@) && (r matches Err(Error::Crypto(m))
                && m@ == "Encryption failed: aead::Error"@)),
    {
        let sealed = match encrypt_message(shared_secret, payload.as_slice()) {
            Ok(e) => e,
            Err(e) => return Err(e),
        };
        let encrypted_payload = encode_encrypted_envelope(&sealed);
        let id = match new_message_id() {
            Some(id) => id,
            None => return Err(crypto_error("Random number generator failed")),
        };
        let r = MessageEnvelope {
            id,
            version: PROTOCOL_VERSION,
            from_uid: from_uid.to_string(),
            to_uid: to_uid.to_string(),
            timestamp: now_millis(),
            message_type,
            encrypted: true,
            payload: encrypted_payload,
        };
        assert(xchacha_seal(shared_secret@, sealed.nonce@, payload@) == sealed.ciphertext@);
        Ok(r)
    }

    /// A plain text message.
    pub fn new_text(from_uid: &UID, to_uid: &UID, payload: Vec<u8>) -> (r: Result<Self>)
        ensures
            r matches Ok(e) ==> e.is_plain(from_uid@, to_uid@, MessageType::Text, payload@),
            r is Err ==> rng_failure(r),
    {
        Self::new(from_uid, to_uid, MessageType::Text, payload)
    }

    /// A plain delete request.
    pub fn new_delete(from_uid: &UID, to_uid: &UID, payload: Vec<u8>) -> (r: Result<Self>)
        ensures
            r matches Ok(e) ==> e.is_plain(from_uid@, to_uid@, MessageType::Delete, payload@),
            r is Err ==> rng_failure(r),
    {
        Self::new(from_uid, to_uid, MessageType::Delete, payload)
    }

    /// An encrypted text message.
    pub fn new_text_encrypted(
        from_uid: &UID,
        to_uid: &UID,
        payload: Vec<u8>,
        shared_secret: &[u8; 32],
    ) -> (r: Result<Self>)
        ensures
            r matches Ok(e) ==> sealable(payload@) && e.is_sealed(from_uid@, to_uid@, MessageType::Text, payload@, shared_secret@),
            !sealable(payload@) ==> r is Err,
            r is Err ==> rng_failure(r) || (!sealable(payload@) && (r matches Err(Error::Crypto(m))
                && m@ == "Encryption failed: aead::Error"@)),
    {
        Self::new_encrypted(from_uid, to_uid, MessageType::Text, payload, shared_secret)
    }

    /// An encrypted delete request.
    pub fn new_delete_encrypted(
        from_uid: &UID,
        to_uid: &UID,
        payload: Vec<u8>,
        shared_secret: &[u8; 32],
    ) -> (r: Result<Self>)
        ensures
            r matches Ok(e) ==> sealable(payload@) && e.is_sealed(from_uid@, to_uid@, MessageType::Delete, payload@, shared_secret@),
            !sealable(payload@) ==> r is Err,
            r is Err ==> rng_failure(r) || (!sealable(payload@) && (r matches Err(Error::Crypto(m))
                && m@ == "Encryption failed: aead::Error"@)),
    {
        Self::new_encrypted(from_uid, to_uid, MessageType::Delete, payload, shared_secret)
    }

    /// Opens the sealed payload with `shared_secret`.
    ///
    /// A payload that `new_encrypted` sealed under the same secret opens to
    /// the original bytes.
    pub fn decrypt_payload(&self, shared_secret: &[u8; 32]) -> (r: Result<Vec<u8>>)
        ensures
            !self.encrypted ==> (r matches Err(Error::Crypto(m)) && m@ == "Message is not encrypted"@),
            self.encrypted ==> match opened_payload(self.payload@, shared_secret@) {
                Ok(p) => r matches Ok(q) && q@ == p,
                Err(true) => r matches Err(Error::CborSerialization(m))
                    && m@ == "Failed to deserialize encrypted envelope: unexpected encoding"@,
                Err(false) => r matches Err(Error::Crypto(m))
                    && m@ == "Decryption failed (auth tag mismatch or corrupted data): aead::Error"@,
            },
            forall|n: Seq<u8>, p: Seq<u8>| #![trigger xchacha_seal(shared_secret@, n, p)]
                self.encrypted && n.len() == 24 && sealable(p)
                    && self.payload@ == envelope_bytes(n, xchacha_seal(shared_secret@, n, p))
                    ==> (r matches Ok(q) && q@ == p),
    {
        if !self.encrypted {
            return Err(Error::Crypto("Message is not encrypted".to_owned()));
        }
        let sealed = match decode_encrypted_envelope(self.payload.as_slice()) {
            Some(e) => e,
            None => {
                return Err(Error::CborSerialization(
                    "Failed to deserialize encrypted envelope: unexpected encoding".to_owned(),
                ));
            },
        };
        proof {
            assert(self.payload@.len() == self.payload.len());
            let nc = choose|n: Seq<u8>, c: Seq<u8>| #![trigger envelope_bytes(n, c)]
                n.len() == 24 && self.payload@ == envelope_bytes(n, c);
            assert(envelope_bytes(sealed.nonce@, sealed.ciphertext@) == self.payload@);
            lemma_envelope_unique(nc.0, nc.1, sealed.nonce@, sealed.ciphertext@);
            assert forall|n: Seq<u8>, p: Seq<u8>| #![trigger xchacha_seal(shared_secret@, n, p)]
                n.len() == 24 && sealable(p)
                    && self.payload@ == envelope_bytes(n, xchacha_seal(shared_secret@, n, p))
                implies sealed.ciphertext@ == xchacha_seal(shared_secret@, sealed.nonce@, p) by {
                lemma_envelope_unique(n, xchacha_seal(shared_secret@, n, p), sealed.nonce@, sealed.ciphertext@);
            }
        }
        decrypt_message(shared_secret, &sealed)
    }

    /// The payload: opened with the secret when sealed, as it is otherwise.
    pub fn get_payload(&self, shared_secret: Option<&[u8; 32]>) -> (r: Result<Vec<u8>>)
        ensures
            !self.encrypted ==> (r matches Ok(q) && q@ == self.payload@),
            self.encrypted && shared_secret is None ==> (r matches Err(Error::Crypto(m))
                && m@ == "Shared secret required to decrypt message"@),
            self.encrypted && shared_secret is Some ==> match opened_payload(self.payload@, shared_secret->0@) {
                Ok(p) => r matches Ok(q) && q@ == p,
                Err(true) => r matches Err(Error::CborSerialization(m))
                    && m@ == "Failed to deserialize encrypted envelope: unexpected encoding"@,
                Err(false) => r matches Err(Error::Crypto(m))
                    && m@ == "Decryption failed (auth tag mismatch or corrupted data): aead::Error"@,
            },
            forall|p: Seq<u8>| #![trigger self.carries_sealed(p, shared_secret->0@)]
                shared_secret is Some && sealable(p) && self.carries_sealed(p, shared_secret->0@)
                    ==> (r matches Ok(q) && q@ == p),
    {
        if self.encrypted {
            match shared_secret {
                Some(secret) => {
                    let r = self.decrypt_payload(secret);
                    proof {
                        assert forall|p: Seq<u8>| #![trigger self.carries_sealed(p, secret@)]
                            sealable(p) && self.carries_sealed(p, secret@) implies (r matches Ok(q) && q@ == p) by {
                            let n = choose|n: Seq<u8>| #![trigger xchacha_seal(secret@, n, p)]
                                n.len() == 24 && self.payload@ == envelope_bytes(n, xchacha_seal(secret@, n, p));
                            assert(xchacha_seal(secret@, n, p) == xchacha_seal(secret@, n, p));
                        }
                    }
                    r
                },
                None => Err(Error::Crypto("Shared secret required to decrypt message".to_owned())),
            }
        } else {
            Ok(self.payload.clone())
        }
    }

    /// Whether this implementation reads the envelope's protocol version.
    pub fn is_version_compatible(&self) -> (r: bool)
        ensures
            r == (self.version <= PROTOCOL_VERSION),
    {
        self.version <= PROTOCOL_VERSION
    }

    /// The envelope's age at `now_ms`, in milliseconds.
    pub fn age_ms_at(&self, now_ms: i64) -> (r: i64)
        requires
            i64::MIN <= now_ms - self.timestamp <= i64::MAX,
        ensures
            r == now_ms - self.timestamp,
    {
        now_ms - self.timestamp
    }

    /// The envelope's age now, in milliseconds; it saturates where the
    /// difference leaves the range of `i64`.
    pub fn age_ms(&self) -> (r: i64)
        ensures
            exists|now: i64| clock_range(now as int) && r == age_at(now, self.timestamp),
    {
        let now = now_millis();
        let r = if self.timestamp < 0 && now > i64::MAX + self.timestamp {
            i64::MAX
        } else if self.timestamp > 0 && now < i64::MIN + self.timestamp {
            i64::MIN
        } else {
            self.age_ms_at(now)
        };
        assert(r == age_at(now, self.timestamp));
        r
    }
}

} // verus!

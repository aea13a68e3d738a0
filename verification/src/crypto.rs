//! Identities, signatures, key agreement and authenticated encryption.
//!
//! The primitives come from their crates (SHA-256 from `ring`, Ed25519 from
//! `ed25519-dalek`, X25519 from `x25519-dalek`, XChaCha20-Poly1305 from
//! `chacha20poly1305`, randomness from `rand`). Their results are named
//! below; the library states its own behaviour over those names.

use vstd::prelude::*;
use crate::{Error, Result};
use crate::text::push_char;
use crate::connectivity::ip::copy_bytes;
use chacha20poly1305::aead::{Aead, KeyInit};
use ed25519_dalek::{Signer, Verifier};
use rand::RngCore;

verus! {

/// The SHA-256 digest of `data`.
pub uninterp spec fn sha256_digest(data: Seq<u8>) -> Seq<u8>;

/// The Ed25519 public key of the 32-byte secret key `secret`.
pub uninterp spec fn ed25519_public(secret: Seq<u8>) -> Seq<u8>;

/// The Ed25519 signature of `msg` under the 32-byte secret key `secret`.
pub uninterp spec fn ed25519_signature(secret: Seq<u8>, msg: Seq<u8>) -> Seq<u8>;

/// Whether 32 bytes are the compressed form of an Ed25519 public key.
pub uninterp spec fn ed25519_key_valid(public: Seq<u8>) -> bool;

/// Whether `sig` is an Ed25519 signature of `msg` under `public`.
pub uninterp spec fn ed25519_accepts(public: Seq<u8>, msg: Seq<u8>, sig: Seq<u8>) -> bool;

/// X25519: the u-coordinate `point` multiplied by the clamped `scalar`.
pub uninterp spec fn x25519_mul(scalar: Seq<u8>, point: Seq<u8>) -> Seq<u8>;

/// XChaCha20-Poly1305 sealing of `plaintext`: the ciphertext followed by the tag.
pub uninterp spec fn xchacha_seal(key: Seq<u8>, nonce: Seq<u8>, plaintext: Seq<u8>) -> Seq<u8>;

/// XChaCha20-Poly1305 opening of `ciphertext`: the plaintext when the tag verifies.
pub uninterp spec fn xchacha_open(key: Seq<u8>, nonce: Seq<u8>, ciphertext: Seq<u8>) -> Option<Seq<u8>>;

/// The X25519 base point: the u-coordinate 9.
pub open spec fn x25519_basepoint() -> Seq<u8> {
    seq![9u8] + Seq::new(31, |i: int| 0u8)
}

/// The X25519 public key of a 32-byte secret.
pub open spec fn x25519_public(secret: Seq<u8>) -> Seq<u8> {
    x25519_mul(secret, x25519_basepoint())
}

/// The largest plaintext that XChaCha20-Poly1305 seals: fewer than
/// `u32::MAX` blocks of 64 bytes.
pub open spec fn sealable(plaintext: Seq<u8>) -> bool {
    plaintext.len() / 64 < 4294967295
}

/// Trusted: the SHA-256 digest of `data`, computed with `ring::digest`
/// (`Context::new(&SHA256)`, `update`, `finish`). The digest is 32 bytes.
#[verifier::external_body]
fn sha256(data: &[u8]) -> (r: Vec<u8>)
    ensures
        r@ == sha256_digest(data@),
        r@.len() == 32,
{
    let mut context = ring::digest::Context::new(&ring::digest::SHA256);
    context.update(data);
    context.finish().as_ref().to_vec()
}

/// Trusted: `N` bytes from the operating system's generator
/// (`rand::rngs::OsRng::try_fill_bytes`), or `None` when the generator
/// fails. Nothing is claimed of the bytes, nor of when it fails.
#[verifier::external_body]
pub(crate) fn random_bytes<const N: usize>() -> (r: Option<[u8; N]>) {
    let mut buf = [0u8; N];
    match rand::rngs::OsRng.try_fill_bytes(&mut buf) {
        Ok(()) => Some(buf),
        Err(_) => None,
    }
}

/// Trusted: `SigningKey::from_bytes(secret).verifying_key().to_bytes()` of
/// `ed25519-dalek`, the public key of the secret. The key of a signing key
/// is a valid point, so it decompresses again.
#[verifier::external_body]
fn ed25519_public_key(secret: &[u8; 32]) -> (r: [u8; 32])
    ensures
        r@ == ed25519_public(secret@),
        ed25519_key_valid(r@),
{
    ed25519_dalek::SigningKey::from_bytes(secret).verifying_key().to_bytes()
}

/// Trusted: `SigningKey::from_bytes(secret).sign(msg).to_bytes()` of
/// `ed25519-dalek`, the deterministic signature of `msg`.
#[verifier::external_body]
fn ed25519_sign(secret: &[u8; 32], msg: &[u8]) -> (r: [u8; 64])
    ensures
        r@ == ed25519_signature(secret@, msg@),
{
    ed25519_dalek::SigningKey::from_bytes(secret).sign(msg).to_bytes()
}

/// Trusted: `VerifyingKey::from_bytes(public)` of `ed25519-dalek`. It fails
/// exactly when the bytes do not decompress to a point; the text of its
/// error is returned as it displays. What the text says is not stated. The
/// public key of a signing key is a compressed point, so it decompresses.
#[verifier::external_body]
fn ed25519_key_check(public: &[u8; 32]) -> (r: Option<String>)
    ensures
        r is None <==> ed25519_key_valid(public@),
        forall|secret: Seq<u8>| #![trigger ed25519_public(secret)]
            secret.len() == 32 && public@ == ed25519_public(secret) ==> r is None,
{
    ed25519_dalek::VerifyingKey::from_bytes(public).err().map(|e| e.to_string())
}

/// Trusted: `VerifyingKey::verify(msg, &Signature::from_bytes(sig)).is_ok()`
/// of `ed25519-dalek` for the key `public`. A signature made with a secret
/// whose public key is `public` verifies.
#[verifier::external_body]
fn ed25519_verify(public: &[u8; 32], msg: &[u8], sig: &[u8; 64]) -> (r: bool)
    requires
        ed25519_key_valid(public@),
    ensures
        r == ed25519_accepts(public@, msg@, sig@),
        forall|secret: Seq<u8>| #![trigger ed25519_signature(secret, msg@)]
            secret.len() == 32 && ed25519_public(secret) == public@
                && sig@ == ed25519_signature(secret, msg@) ==> r,
{
    match ed25519_dalek::VerifyingKey::from_bytes(public) {
        Ok(key) => key.verify(msg, &ed25519_dalek::Signature::from_bytes(sig)).is_ok(),
        Err(_) => false,
    }
}

/// Trusted: `x25519_dalek::X25519_BASEPOINT_BYTES`, the u-coordinate 9.
#[verifier::external_body]
fn x25519_base() -> (r: [u8; 32])
    ensures
        r@ == x25519_basepoint(),
{
    x25519_dalek::X25519_BASEPOINT_BYTES
}

/// Trusted: `x25519_dalek::x25519(secret, public)`, the Diffie-Hellman
/// function. As the crate documents, two parties agree: when `public` is the
/// public key of another secret, the result is what that secret computes
/// with the public key of `secret`.
#[verifier::external_body]
fn diffie_hellman(secret: &[u8; 32], public: &[u8; 32]) -> (r: [u8; 32])
    ensures
        r@ == x25519_mul(secret@, public@),
        forall|other: Seq<u8>| #![trigger x25519_public(other)]
            other.len() == 32 && public@ == x25519_public(other)
                ==> r@ == x25519_mul(other, x25519_public(secret@)),
{
    x25519_dalek::x25519(*secret, *public)
}

/// Trusted: `XChaCha20Poly1305::new(key).encrypt(nonce, plaintext)` of
/// `chacha20poly1305`. It fails only when the plaintext has `u32::MAX` or
/// more blocks; the ciphertext carries a 16-byte tag.
#[verifier::external_body]
fn xchacha_encrypt(key: &[u8; 32], nonce: &[u8; 24], plaintext: &[u8]) -> (r: Option<Vec<u8>>)
    ensures
        r is Some <==> sealable(plaintext@),
        r matches Some(c) ==> c@ == xchacha_seal(key@, nonce@, plaintext@)
            && c@.len() == plaintext@.len() + 16,
{
    chacha20poly1305::XChaCha20Poly1305::new(key.into())
        .encrypt(&chacha20poly1305::XNonce::from(*nonce), plaintext)
        .ok()
}

/// Trusted: `XChaCha20Poly1305::new(key).decrypt(nonce, ciphertext)` of
/// `chacha20poly1305`. What was sealed under the same key and nonce opens
/// to the same plaintext.
#[verifier::external_body]
fn xchacha_decrypt(key: &[u8; 32], nonce: &[u8; 24], ciphertext: &[u8]) -> (r: Option<Vec<u8>>)
    ensures
        r is Some <==> xchacha_open(key@, nonce@, ciphertext@) is Some,
        r matches Some(p) ==> xchacha_open(key@, nonce@, ciphertext@) == Some(p@),
        forall|p: Seq<u8>| #![trigger xchacha_seal(key@, nonce@, p)]
            sealable(p) && ciphertext@ == xchacha_seal(key@, nonce@, p)
                ==> r is Some && r->0@ == p,
{
    chacha20poly1305::XChaCha20Poly1305::new(key.into())
        .decrypt(&chacha20poly1305::XNonce::from(*nonce), ciphertext)
        .ok()
}

/// The lower-case hexadecimal digit of a value below 16.
pub open spec fn hex_digit(d: nat) -> char {
    if d < 10 {
        ((48 + d) as u32) as char
    } else {
        ((87 + d) as u32) as char
    }
}

/// Two lower-case hexadecimal digits per byte.
pub open spec fn hex_lower(b: Seq<u8>) -> Seq<char>
    decreases b.len(),
{
    if b.len() == 0 {
        Seq::empty()
    } else {
        hex_lower(b.drop_last()) + seq![hex_digit((b.last() / 16) as nat), hex_digit((b.last() % 16) as nat)]
    }
}

/// Whether a character is a lower-case hexadecimal digit.
pub open spec fn is_lower_hex(c: char) -> bool {
    ('0' <= c && c <= '9') || ('a' <= c && c <= 'f')
}

/// Hexadecimal text has two lower-case digits per byte.
pub proof fn lemma_hex_lower_shape(b: Seq<u8>)
    ensures
        hex_lower(b).len() == 2 * b.len(),
        forall|k: int| 0 <= k < hex_lower(b).len() ==> is_lower_hex(#[trigger] hex_lower(b)[k]),
    decreases b.len(),
{
    if b.len() > 0 {
        lemma_hex_lower_shape(b.drop_last());
        let h = hex_lower(b.drop_last());
        let hi = (b.last() / 16) as nat;
        let lo = (b.last() % 16) as nat;
        assert(is_lower_hex(hex_digit(hi)));
        assert(is_lower_hex(hex_digit(lo)));
        assert forall|k: int| 0 <= k < hex_lower(b).len() implies is_lower_hex(#[trigger] hex_lower(b)[k]) by {
            if k < h.len() {
                assert(hex_lower(b)[k] == h[k]);
            }
        }
    }
}

/// The user identifier of a public key: the first 16 bytes of its SHA-256
/// digest in lower-case hexadecimal, 32 characters.
pub open spec fn uid_text(public_key: Seq<u8>) -> Seq<char> {
    hex_lower(sha256_digest(public_key).subrange(0, 16))
}

fn hex_char(d: u8) -> (c: char)
    requires
        d < 16,
    ensures
        c == hex_digit(d as nat),
{
    if d == 0 { '0' } else if d == 1 { '1' } else if d == 2 { '2' } else if d == 3 { '3' }
    else if d == 4 { '4' } else if d == 5 { '5' } else if d == 6 { '6' } else if d == 7 { '7' }
    else if d == 8 { '8' } else if d == 9 { '9' } else if d == 10 { 'a' } else if d == 11 { 'b' }
    else if d == 12 { 'c' } else if d == 13 { 'd' } else if d == 14 { 'e' } else { 'f' }
}

/// Copies 32 bytes into an array.
pub fn to_array32(v: &[u8]) -> (a: [u8; 32])
    requires
        v@.len() == 32,
    ensures
        a@ == v@,
{
    let mut a = [0u8; 32];
    let mut i: usize = 0;
    while i < 32
        invariant
            v@.len() == 32,
            a@.len() == 32,
            i <= 32,
            forall|j: int| 0 <= j < i ==> a@[j] == v@[j],
        decreases 32 - i,
    {
        a[i] = v[i];
        i = i + 1;
    }
    assert(a@ =~= v@);
    a
}

/// Copies 64 bytes into an array.
pub fn to_array64(v: &[u8]) -> (a: [u8; 64])
    requires
        v@.len() == 64,
    ensures
        a@ == v@,
{
    let mut a = [0u8; 64];
    let mut i: usize = 0;
    while i < 64
        invariant
            v@.len() == 64,
            a@.len() == 64,
            i <= 64,
            forall|j: int| 0 <= j < i ==> a@[j] == v@[j],
        decreases 64 - i,
    {
        a[i] = v[i];
        i = i + 1;
    }
    assert(a@ =~= v@);
    a
}

/// Whether `r` is the error of a failed random number generator.
pub open spec fn rng_failure<T>(r: Result<T>) -> bool {
    r matches Err(Error::Crypto(m)) && m@ == "Random number generator failed"@
}

/// The error of a failed cryptographic operation, with its message.
pub fn crypto_error(msg: &str) -> (e: Error)
    ensures
        e matches Error::Crypto(m) && m@ == msg@,
{
    Error::Crypto(msg.to_owned())
}

/// A user identifier derived from an Ed25519 public key.
#[derive(Debug, Clone, PartialEq, Eq, Hash)]
pub struct UID(String);

impl View for UID {
    type V = Seq<char>;

    closed spec fn view(&self) -> Seq<char> {
        self.0@
    }
}

impl UID {
    /// The identifier of a public key: the first 16 bytes of its SHA-256
    /// digest in lower-case hexadecimal.
    pub fn from_public_key(public_key: &[u8]) -> (r: UID)
        ensures
            r@ == uid_text(public_key@),
            r@.len() == 32,
            forall|k: int| 0 <= k < r@.len() ==> is_lower_hex(#[trigger] r@[k]),
    {
        let digest = sha256(public_key);
        let mut hex = String::new();
        let mut i: usize = 0;
        while i < 16
            invariant
                digest@.len() == 32,
                i <= 16,
                hex@ == hex_lower(digest@.subrange(0, i as int)),
            decreases 16 - i,
        {
            let b = digest[i];
            push_char(&mut hex, hex_char(b / 16));
            push_char(&mut hex, hex_char(b % 16));
            proof {
                assert(digest@.subrange(0, i + 1).drop_last() =~= digest@.subrange(0, i as int));
            }
            i = i + 1;
        }
        proof {
            lemma_hex_lower_shape(digest@.subrange(0, 16));
        }
        UID(hex)
    }

    /// The identifier as text.
    pub fn as_str(&self) -> (r: &str)
        ensures
            r@ == self@,
    {
        self.0.as_str()
    }

    /// The identifier as an owned string.
    pub fn to_string(&self) -> (r: String)
        ensures
            r@ == self@,
    {
        self.0.clone()
    }
}

/// An identity: an Ed25519 signing key pair, an X25519 key pair for key
/// agreement, and the identifier derived from the signing key.
#[derive(Debug, Clone)]
pub struct KeyPair {
    /// Ed25519 public key (32 bytes).
    pub public_key: Vec<u8>,
    /// Ed25519 secret key (32 bytes).
    pub private_key: Vec<u8>,
    /// X25519 public key (32 bytes).
    pub x25519_public: Vec<u8>,
    /// X25519 secret key (32 bytes).
    pub x25519_secret: Vec<u8>,
    /// Identifier derived from the Ed25519 public key.
    pub uid: UID,
}

impl KeyPair {
    /// Whether the parts fit together: each public key belongs to its
    /// secret, and the identifier is that of the signing public key.
    pub open spec fn wf(&self) -> bool {
        &&& self.private_key@.len() == 32
        &&& self.public_key@ == ed25519_public(self.private_key@)
        &&& self.public_key@.len() == 32
        &&& ed25519_key_valid(self.public_key@)
        &&& self.x25519_secret@.len() == 32
        &&& self.x25519_public@ == x25519_public(self.x25519_secret@)
        &&& self.uid@ == uid_text(self.public_key@)
    }

    /// A fresh identity from the operating system's generator; fails when
    /// the generator does.
    pub fn generate() -> (r: Result<KeyPair>)
        ensures
            r matches Ok(k) ==> k.wf(),
            r matches Err(e) ==> e matches Error::Crypto(m) && m@ == "Random number generator failed"@,
    {
        let secret: [u8; 32] = match random_bytes() {
            Some(b) => b,
            None => return Err(crypto_error("Random number generator failed")),
        };
        let public = ed25519_public_key(&secret);
        let private_key = copy_bytes(&secret);
        let public_key = copy_bytes(&public);
        let uid = UID::from_public_key(&public_key);
        let x_secret: [u8; 32] = match random_bytes() {
            Some(b) => b,
            None => return Err(crypto_error("Random number generator failed")),
        };
        let base = x25519_base();
        let x_public = diffie_hellman(&x_secret, &base);
        Ok(KeyPair {
            public_key,
            private_key,
            x25519_public: copy_bytes(&x_public),
            x25519_secret: copy_bytes(&x_secret),
            uid,
        })
    }

    /// Signs `message` with the Ed25519 secret key.
    pub fn sign(&self, message: &[u8]) -> (r: Result<Vec<u8>>)
        ensures
            self.private_key@.len() == 32 ==> (r matches Ok(s)
                && s@ == ed25519_signature(self.private_key@, message@) && s@.len() == 64),
            self.private_key@.len() != 32 ==> (r matches Err(Error::Crypto(m))
                && m@ == "Invalid private key length"@),
    {
        if self.private_key.len() != 32 {
            return Err(crypto_error("Invalid private key length"));
        }
        let secret = to_array32(self.private_key.as_slice());
        let sig = ed25519_sign(&secret, message);
        Ok(copy_bytes(&sig))
    }

    /// Checks an Ed25519 signature of `message` against the public key.
    ///
    /// Fails when the public key is not 32 bytes or not a valid point, or when
    /// the signature is not 64 bytes. A signature made with this pair's
    /// secret key verifies.
    pub fn verify(&self, message: &[u8], signature: &[u8]) -> (r: Result<bool>)
        ensures
            self.public_key@.len() != 32 ==> (r matches Err(Error::Crypto(m))
                && m@ == "Invalid public key length"@),
            self.public_key@.len() == 32 && !ed25519_key_valid(self.public_key@)
                ==> (r matches Err(Error::Crypto(m)) && m@.len() >= 20
                    && m@.subrange(0, 20) == "Invalid public key: "@),
            self.public_key@.len() == 32 && ed25519_key_valid(self.public_key@)
                && signature@.len() != 64 ==> (r matches Err(Error::Crypto(m))
                && m@ == "Invalid signature length"@),
            self.public_key@.len() == 32 && ed25519_key_valid(self.public_key@)
                && signature@.len() == 64 ==> r == Ok::<bool, Error>(
                ed25519_accepts(self.public_key@, message@, signature@)),
            self.wf() && signature@.len() == 64
                && signature@ == ed25519_signature(self.private_key@, message@)
                ==> r == Ok::<bool, Error>(true),
    {
        if self.public_key.len() != 32 {
            return Err(crypto_error("Invalid public key length"));
        }
        let public = to_array32(self.public_key.as_slice());
        if let Some(reason) = ed25519_key_check(&public) {
            let mut m = String::new();
            crate::text::write_str(&mut m, "Invalid public key: ");
            crate::text::write_str(&mut m, reason.as_str());
            proof {
                reveal_strlit("Invalid public key: ");
                assert(m@.subrange(0, 20) =~= "Invalid public key: "@);
            }
            return Err(Error::Crypto(m));
        }
        if signature.len() != 64 {
            return Err(crypto_error("Invalid signature length"));
        }
        let sig = to_array64(signature);
        let ok = ed25519_verify(&public, message, &sig);
        proof {
            if self.wf() && signature@ == ed25519_signature(self.private_key@, message@) {
                assert(ed25519_signature(self.private_key@, message@) == ed25519_signature(self.private_key@, message@));
            }
        }
        Ok(ok)
    }

    /// The identifier of this identity.
    pub fn uid(&self) -> (r: &UID)
        ensures
            r == &self.uid,
    {
        &self.uid
    }

    /// The X25519 shared secret with a peer's public key.
    ///
    /// Both sides of an exchange derive the same secret.
    pub fn derive_shared_secret(&self, remote_x25519_public: &[u8; 32]) -> (r: Result<[u8; 32]>)
        ensures
            self.x25519_secret@.len() == 32 ==> (r matches Ok(s)
                && s@ == x25519_mul(self.x25519_secret@, remote_x25519_public@)),
            self.x25519_secret@.len() != 32 ==> (r matches Err(Error::Crypto(m))
                && m@ == "Invalid X25519 secret key length"@),
            forall|other: Seq<u8>| #![trigger x25519_public(other)]
                self.x25519_secret@.len() == 32 && other.len() == 32
                    && remote_x25519_public@ == x25519_public(other)
                    ==> (r matches Ok(s) && s@ == x25519_mul(other, x25519_public(self.x25519_secret@))),
    {
        if self.x25519_secret.len() != 32 {
            return Err(crypto_error("Invalid X25519 secret key length"));
        }
        let secret = to_array32(self.x25519_secret.as_slice());
        Ok(diffie_hellman(&secret, remote_x25519_public))
    }
}

/// The X25519 shared secret of a local secret and a remote public key.
///
/// Both sides of an exchange derive the same secret: when `remote_pub` is
/// the public key of `other`, the result is what `other` derives with the
/// public key of `local_priv`.
pub fn derive_shared_secret(local_priv: &[u8; 32], remote_pub: &[u8; 32]) -> (r: [u8; 32])
    ensures
        r@ == x25519_mul(local_priv@, remote_pub@),
        forall|other: Seq<u8>| #![trigger x25519_public(other)]
            other.len() == 32 && remote_pub@ == x25519_public(other)
                ==> r@ == x25519_mul(other, x25519_public(local_priv@)),
{
    diffie_hellman(local_priv, remote_pub)
}

/// A sealed message: the random nonce and the ciphertext with its tag.
#[derive(Debug, Clone, PartialEq, Eq)]
pub struct EncryptedEnvelope {
    /// XChaCha20 nonce (24 bytes).
    pub nonce: [u8; 24],
    /// Ciphertext followed by the 16-byte Poly1305 tag.
    pub ciphertext: Vec<u8>,
}

/// Seals `plaintext` under `secret` with XChaCha20-Poly1305 and a fresh
/// random nonce; fails when the generator does.
pub fn encrypt_message(secret: &[u8; 32], plaintext: &[u8]) -> (r: Result<EncryptedEnvelope>)
    ensures
        sealable(plaintext@) ==> ((r matches Ok(env)
            && env.ciphertext@ == xchacha_seal(secret@, env.nonce@, plaintext@)
            && env.ciphertext@.len() == plaintext@.len() + 16)
            || (r matches Err(Error::Crypto(m)) && m@ == "Random number generator failed"@)),
        !sealable(plaintext@) ==> (r matches Err(Error::Crypto(m))
            && (m@ == "Encryption failed: aead::Error"@ || m@ == "Random number generator failed"@)),
{
    let nonce: [u8; 24] = match random_bytes() {
        Some(b) => b,
        None => return Err(crypto_error("Random number generator failed")),
    };
    match xchacha_encrypt(secret, &nonce, plaintext) {
        Some(ciphertext) => Ok(EncryptedEnvelope { nonce, ciphertext }),
        None => Err(crypto_error("Encryption failed: aead::Error")),
    }
}

/// Opens an envelope under `secret`, checking its tag.
///
/// What `encrypt_message` sealed under the same secret opens to the same
/// plaintext.
pub fn decrypt_message(secret: &[u8; 32], envelope: &EncryptedEnvelope) -> (r: Result<Vec<u8>>)
    ensures
        match xchacha_open(secret@, envelope.nonce@, envelope.ciphertext@) {
            Some(p) => r matches Ok(q) && q@ == p,
            None => r matches Err(Error::Crypto(m))
                && m@ == "Decryption failed (auth tag mismatch or corrupted data): aead::Error"@,
        },
        forall|p: Seq<u8>| #![trigger xchacha_seal(secret@, envelope.nonce@, p)]
            sealable(p) && envelope.ciphertext@ == xchacha_seal(secret@, envelope.nonce@, p)
                ==> (r matches Ok(q) && q@ == p),
{
    match xchacha_decrypt(secret, &envelope.nonce, envelope.ciphertext.as_slice()) {
        Some(p) => Ok(p),
        None => Err(crypto_error("Decryption failed (auth tag mismatch or corrupted data): aead::Error")),
    }
}

/// Signs contact-token bytes with an Ed25519 secret key.
pub fn sign_contact_token(privkey: &[u8; 32], token_data: &[u8]) -> (r: Result<[u8; 64]>)
    ensures
        r matches Ok(s) && s@ == ed25519_signature(privkey@, token_data@),
{
    Ok(ed25519_sign(privkey, token_data))
}

/// Checks the Ed25519 signature of contact-token bytes.
///
/// Fails when the public key is not a valid point. A signature made with
/// the secret key of `pubkey` verifies.
pub fn verify_contact_token(pubkey: &[u8; 32], token_data: &[u8], sig: &[u8; 64]) -> (r: Result<bool>)
    ensures
        !ed25519_key_valid(pubkey@) ==> (r matches Err(Error::Crypto(m)) && m@.len() >= 20
            && m@.subrange(0, 20) == "Invalid public key: "@),
        ed25519_key_valid(pubkey@) ==> r == Ok::<bool, Error>(ed25519_accepts(pubkey@, token_data@, sig@)),
        forall|secret: Seq<u8>| #![trigger ed25519_signature(secret, token_data@)]
            secret.len() == 32 && ed25519_public(secret) == pubkey@
                && sig@ == ed25519_signature(secret, token_data@) ==> r == Ok::<bool, Error>(true),
{
    if let Some(reason) = ed25519_key_check(pubkey) {
        let mut m = String::new();
        crate::text::write_str(&mut m, "Invalid public key: ");
        crate::text::write_str(&mut m, reason.as_str());
        proof {
            reveal_strlit("Invalid public key: ");
            assert(m@.subrange(0, 20) =~= "Invalid public key: "@);
        }
        return Err(Error::Crypto(m));
    }
    Ok(ed25519_verify(pubkey, token_data, sig))
}

/// Generic encryption entry point; callers use `encrypt_message`.
pub fn encrypt(_data: &[u8], _key: &[u8]) -> (r: Result<Vec<u8>>)
    ensures
        r matches Err(Error::Crypto(m)) && m@ == "Not yet implemented - use encrypt_message instead"@,
{
    Err(crypto_error("Not yet implemented - use encrypt_message instead"))
}

/// Generic decryption entry point; callers use `decrypt_message`.
pub fn decrypt(_data: &[u8], _key: &[u8]) -> (r: Result<Vec<u8>>)
    ensures
        r matches Err(Error::Crypto(m)) && m@ == "Not yet implemented - use decrypt_message instead"@,
{
    Err(crypto_error("Not yet implemented - use decrypt_message instead"))
}

} // verus!

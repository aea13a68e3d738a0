//! Contacts, and the signed tokens that peers exchange to become contacts.
//!
//! A token is the URL-safe base64 (no padding) of a CBOR record: the
//! payload (address, Ed25519 key, X25519 key, expiry) and the Ed25519
//! signature of the payload's CBOR bytes.

use vstd::prelude::*;
use crate::{Error, Result};
use crate::clock::{UtcTime, rfc3339_text, chrono_utc_valid, later, rfc3339_parse, clock_time};
use crate::crypto::{
    UID, uid_text, sign_contact_token, verify_contact_token, to_array32, to_array64, ed25519_signature,
    ed25519_public, ed25519_key_valid, ed25519_accepts,
};
use crate::wire::{
    TokenFields, payload_bytes, token_bytes, encode_token_payload, encode_token, decode_token,
};
use crate::connectivity::ip::copy_bytes;
use crate::text::{write_str, write_decimal, decimal};
use base64::Engine;

verus! {

/// URL-safe base64 without padding of `data`.
pub uninterp spec fn base64url_text(data: Seq<u8>) -> Seq<char>;

/// The bytes of URL-safe base64 text without padding, when it is such text.
pub uninterp spec fn base64url_bytes(text: Seq<char>) -> Option<Seq<u8>>;

/// Trusted: `URL_SAFE_NO_PAD.encode(data)` of the `base64` crate.
#[verifier::external_body]
fn base64url_encode(data: &[u8]) -> (r: String)
    ensures
        r@ == base64url_text(data@),
{
    base64::engine::general_purpose::URL_SAFE_NO_PAD.encode(data)
}

/// Trusted: `URL_SAFE_NO_PAD.decode(text)` of the `base64` crate, with the
/// text of its error. Text that `encode` wrote decodes to the same bytes.
/// What the error text says is not stated.
#[verifier::external_body]
fn base64url_decode(text: &str) -> (r: core::result::Result<Vec<u8>, String>)
    ensures
        r is Ok <==> base64url_bytes(text@) is Some,
        r matches Ok(v) ==> base64url_bytes(text@) == Some(v@),
        forall|data: Seq<u8>| #![trigger base64url_text(data)]
            text@ == base64url_text(data) ==> r is Ok && r->Ok_0@ == data,
{
    base64::engine::general_purpose::URL_SAFE_NO_PAD.decode(text).map_err(|e| e.to_string())
}

/// A peer in the network.
#[derive(Debug, Clone)]
pub struct Contact {
    /// Identifier derived from the peer's Ed25519 key.
    pub uid: String,
    /// Network address of the peer.
    pub ip: String,
    /// Ed25519 public key.
    pub pubkey: Vec<u8>,
    /// X25519 public key.
    pub x25519_pubkey: Vec<u8>,
    /// When the contact stops being valid.
    pub expiry: UtcTime,
    /// Whether the contact is active.
    pub is_active: bool,
}

impl Contact {
    /// A new contact, active.
    pub fn new(uid: String, ip: String, pubkey: Vec<u8>, x25519_pubkey: Vec<u8>, expiry: UtcTime) -> (r: Self)
        ensures
            r.uid@ == uid@,
            r.ip@ == ip@,
            r.pubkey@ == pubkey@,
            r.x25519_pubkey@ == x25519_pubkey@,
            r.expiry == expiry,
            r.is_active,
    {
        Contact { uid, ip, pubkey, x25519_pubkey, expiry, is_active: true }
    }

    /// Whether the contact has expired at `now`.
    pub fn is_expired_at(&self, now: &UtcTime) -> (r: bool)
        ensures
            r == later(now.spec_secs(), now.spec_nanos(), self.expiry.spec_secs(), self.expiry.spec_nanos()),
    {
        now.is_after(&self.expiry)
    }

    /// Whether the contact has expired now. A clock reading that chrono
    /// cannot hold, more than about 262,000 years from 1970, counts as past
    /// every expiry.
    pub fn is_expired(&self) -> (r: bool)
        ensures
            exists|after: bool, secs: u64, nanos: u32| #![trigger clock_time(after, secs, nanos)]
                match clock_time(after, secs, nanos) {
                    Some(t) => r == later(t.0, t.1, self.expiry.spec_secs(), self.expiry.spec_nanos()),
                    None => r,
                },
    {
        match UtcTime::now() {
            Some(now) => self.is_expired_at(&now),
            None => true,
        }
    }

    /// Marks the contact active.
    pub fn activate(&mut self)
        ensures
            final(self).is_active,
            final(self).uid == old(self).uid,
            final(self).ip == old(self).ip,
            final(self).pubkey == old(self).pubkey,
            final(self).x25519_pubkey == old(self).x25519_pubkey,
            final(self).expiry == old(self).expiry,
    {
        self.is_active = true;
    }

    /// Marks the contact inactive.
    pub fn deactivate(&mut self)
        ensures
            !final(self).is_active,
            final(self).uid == old(self).uid,
            final(self).ip == old(self).ip,
            final(self).pubkey == old(self).pubkey,
            final(self).x25519_pubkey == old(self).x25519_pubkey,
            final(self).expiry == old(self).expiry,
    {
        self.is_active = false;
    }
}

/// The CBOR bytes of a token payload that are signed.
pub open spec fn signed_payload(ip: Seq<char>, pubkey: Seq<u8>, xpub: Seq<u8>, secs: i64, nanos: u32) -> Seq<u8> {
    payload_bytes(ip, pubkey, xpub, rfc3339_text(secs, nanos))
}

/// The token text for a payload signed with `privkey`.
pub open spec fn token_text(ip: Seq<char>, pubkey: Seq<u8>, privkey: Seq<u8>, xpub: Seq<u8>, secs: i64, nanos: u32) -> Seq<char> {
    let pl = signed_payload(ip, pubkey, xpub, secs, nanos);
    base64url_text(token_bytes(pl, ed25519_signature(privkey, pl)))
}

/// Whether `token` is the token made with these values, as
/// `generate_contact_token` makes it.
pub open spec fn token_made(token: Seq<char>, ip: Seq<char>, pubkey: Seq<u8>, privkey: Seq<u8>, xpub: Seq<u8>, secs: i64, nanos: u32) -> bool {
    &&& token == token_text(ip, pubkey, privkey, xpub, secs, nanos)
    &&& privkey.len() == 32
    &&& chrono_utc_valid(secs, nanos)
    &&& ed25519_signature(privkey, signed_payload(ip, pubkey, xpub, secs, nanos)).len() == 64
}

/// A signed contact token for the given address, keys and expiry.
pub fn generate_contact_token(
    ip: &str,
    pubkey: &[u8],
    privkey: &[u8],
    x25519_pubkey: &[u8],
    expiry: UtcTime,
) -> (r: Result<String>)
    ensures
        privkey@.len() != 32 ==> (r matches Err(Error::Crypto(m))
            && m@ == "Invalid private key length (expected 32 bytes)"@),
        privkey@.len() == 32 ==> (r matches Ok(t) && token_made(t@, ip@, pubkey@, privkey@,
            x25519_pubkey@, expiry.spec_secs(), expiry.spec_nanos())),
{
    let fields = TokenFields {
        ip: ip.to_owned(),
        pubkey: copy_bytes(pubkey),
        x25519_pubkey: copy_bytes(x25519_pubkey),
        expiry: expiry.to_rfc3339(),
    };
    let payload = encode_token_payload(&fields);
    if privkey.len() != 32 {
        return Err(Error::Crypto("Invalid private key length (expected 32 bytes)".to_owned()));
    }
    let secret = to_array32(privkey);
    let signature = match sign_contact_token(&secret, payload.as_slice()) {
        Ok(s) => s,
        Err(e) => return Err(e),
    };
    let token = encode_token(payload.as_slice(), &signature);
    Ok(base64url_encode(token.as_slice()))
}

/// The fields and signature that CBOR bytes encode as a contact token.
pub open spec fn token_of(b: Seq<u8>) -> Option<(Seq<char>, Seq<u8>, Seq<u8>, Seq<char>, Seq<u8>)> {
    if exists|ip: Seq<char>, pk: Seq<u8>, xp: Seq<u8>, ex: Seq<char>, sg: Seq<u8>|
        #![trigger token_bytes(payload_bytes(ip, pk, xp, ex), sg)]
        b == token_bytes(payload_bytes(ip, pk, xp, ex), sg) {
        Some(choose|ip: Seq<char>, pk: Seq<u8>, xp: Seq<u8>, ex: Seq<char>, sg: Seq<u8>|
            #![trigger token_bytes(payload_bytes(ip, pk, xp, ex), sg)]
            b == token_bytes(payload_bytes(ip, pk, xp, ex), sg))
    } else {
        None
    }
}

/// What reading a decoded token with fields `t` (address, Ed25519 key,
/// X25519 key, expiry text, signature) and expiry `e` gives at the time
/// `now` (`None`: a clock past every time chrono holds): the signature
/// must be 64 bytes, the key 32 bytes and a valid point, the signature must
/// verify over the payload, and the expiry must not be past; then the
/// contact is the one described.
pub open spec fn token_checked(
    t: (Seq<char>, Seq<u8>, Seq<u8>, Seq<char>, Seq<u8>),
    e: (i64, u32),
    now: Option<(i64, u32)>,
    r: Result<Contact>,
) -> bool {
    if t.4.len() != 64 {
        r matches Err(Error::Crypto(m)) && m@ == "Invalid signature length: expected 64 bytes, got "@ + decimal(t.4.len())
    } else if t.1.len() != 32 {
        r matches Err(Error::Crypto(m)) && m@ == "Invalid public key length (expected 32 bytes)"@
    } else if !ed25519_key_valid(t.1) {
        r matches Err(Error::Crypto(m)) && m@.len() >= 20 && m@.subrange(0, 20) == "Invalid public key: "@
    } else if !ed25519_accepts(t.1, signed_payload(t.0, t.1, t.2, e.0, e.1), t.4) {
        r matches Err(Error::Crypto(m))
            && m@ == "Contact token signature verification failed (token may be tampered with)"@
    } else if past(now, e.0, e.1) {
        r matches Err(Error::Storage(m)) && m@ == "Contact token has expired"@
    } else {
        r matches Ok(c) && c.ip@ == t.0 && c.pubkey@ == t.1 && c.x25519_pubkey@ == t.2
            && c.expiry.is(e.0, e.1) && c.is_active && c.uid@ == uid_text(t.1)
    }
}

/// Whether the time `(secs, nanos)` is past at `now`; every time is past
/// for a clock beyond what chrono holds (`None`).
pub open spec fn past(now: Option<(i64, u32)>, secs: i64, nanos: u32) -> bool {
    match now {
        Some(n) => later(n.0, n.1, secs, nanos),
        None => true,
    }
}

/// The seconds and nanoseconds of a time, if any.
pub open spec fn time_parts(now: Option<UtcTime>) -> Option<(i64, u32)> {
    match now {
        Some(u) => Some((u.spec_secs(), u.spec_nanos())),
        None => None,
    }
}

/// Reads a contact token at the time `now`: decodes it, checks the
/// signature over the payload and the expiry, and gives the contact.
///
/// A token that `generate_contact_token` made with a matching key pair and
/// an expiry not before `now` reads back as the contact it describes.
pub fn parse_contact_token_at(token: &str, now: &UtcTime) -> (r: Result<Contact>)
    ensures
        base64url_bytes(token@) is None ==> (r matches Err(Error::Storage(m))
            && m@.subrange(0, 22) == "Invalid base64 token: "@),
        base64url_bytes(token@) matches Some(b) ==> (token_of(b) is None
            ==> (r matches Err(Error::CborSerialization(m)) && m@ == "Invalid token data: unexpected encoding"@)),
        base64url_bytes(token@) matches Some(b) ==> (token_of(b) matches Some(t)
            ==> (rfc3339_parse(t.3) is None
                ==> (r matches Err(Error::CborSerialization(m)) && m@ == "Invalid token data: unexpected encoding"@))),
        base64url_bytes(token@) matches Some(b) ==> (token_of(b) matches Some(t)
            ==> (rfc3339_parse(t.3) matches Some(e)
                ==> token_checked(t, e, Some((now.spec_secs(), now.spec_nanos())), r))),
        forall|ip: Seq<char>, pk: Seq<u8>, sk: Seq<u8>, xp: Seq<u8>, secs: i64, nanos: u32|
            #![trigger token_text(ip, pk, sk, xp, secs, nanos)]
            token_made(token@, ip, pk, sk, xp, secs, nanos) && pk == ed25519_public(sk) && pk.len() == 32
                && !later(now.spec_secs(), now.spec_nanos(), secs, nanos)
                ==> (r matches Ok(c) && c.ip@ == ip && c.pubkey@ == pk && c.x25519_pubkey@ == xp
                    && c.expiry.is(secs, nanos) && c.is_active && c.uid@ == uid_text(pk)),
        forall|ip: Seq<char>, pk: Seq<u8>, sk: Seq<u8>, xp: Seq<u8>, secs: i64, nanos: u32|
            #![trigger token_text(ip, pk, sk, xp, secs, nanos)]
            token_made(token@, ip, pk, sk, xp, secs, nanos) && pk == ed25519_public(sk) && pk.len() == 32
                && later(now.spec_secs(), now.spec_nanos(), secs, nanos)
                ==> (r matches Err(Error::Storage(m)) && m@ == "Contact token has expired"@),
{
    parse_token_with(token, Some(*now))
}

/// Reads a contact token at the time `now`, or with a clock past every
/// time chrono holds when `now` is `None`.
#[verifier::rlimit(40)]
fn parse_token_with(token: &str, now: Option<UtcTime>) -> (r: Result<Contact>)
    ensures
        base64url_bytes(token@) is None ==> (r matches Err(Error::Storage(m))
            && m@.subrange(0, 22) == "Invalid base64 token: "@),
        base64url_bytes(token@) matches Some(b) ==> (token_of(b) is None
            ==> (r matches Err(Error::CborSerialization(m)) && m@ == "Invalid token data: unexpected encoding"@)),
        base64url_bytes(token@) matches Some(b) ==> (token_of(b) matches Some(t)
            ==> (rfc3339_parse(t.3) is None
                ==> (r matches Err(Error::CborSerialization(m)) && m@ == "Invalid token data: unexpected encoding"@))),
        base64url_bytes(token@) matches Some(b) ==> (token_of(b) matches Some(t)
            ==> (rfc3339_parse(t.3) matches Some(e)
                ==> token_checked(t, e, time_parts(now), r))),
        forall|ip: Seq<char>, pk: Seq<u8>, sk: Seq<u8>, xp: Seq<u8>, secs: i64, nanos: u32|
            #![trigger token_text(ip, pk, sk, xp, secs, nanos)]
            token_made(token@, ip, pk, sk, xp, secs, nanos) && pk == ed25519_public(sk) && pk.len() == 32
                && !past(time_parts(now), secs, nanos)
                ==> (r matches Ok(c) && c.ip@ == ip && c.pubkey@ == pk && c.x25519_pubkey@ == xp
                    && c.expiry.is(secs, nanos) && c.is_active && c.uid@ == uid_text(pk)),
        forall|ip: Seq<char>, pk: Seq<u8>, sk: Seq<u8>, xp: Seq<u8>, secs: i64, nanos: u32|
            #![trigger token_text(ip, pk, sk, xp, secs, nanos)]
            token_made(token@, ip, pk, sk, xp, secs, nanos) && pk == ed25519_public(sk) && pk.len() == 32
                && past(time_parts(now), secs, nanos)
                ==> (r matches Err(Error::Storage(m)) && m@ == "Contact token has expired"@),
{
    let cbor = match base64url_decode(token) {
        Ok(b) => b,
        Err(e) => {
            let mut m = String::new();
            write_str(&mut m, "Invalid base64 token: ");
            write_str(&mut m, e.as_str());
            proof {
                reveal_strlit("Invalid base64 token: ");
                assert(m@.subrange(0, 22) =~= "Invalid base64 token: "@);
            }
            return Err(Error::Storage(m));
        },
    };
    let ghost b = cbor@;
    let (fields, _payload_bytes, signature) = match decode_token(cbor.as_slice()) {
        Some(x) => x,
        None => {
            return Err(Error::CborSerialization("Invalid token data: unexpected encoding".to_owned()));
        },
    };
    proof {
        assert(cbor@.len() == cbor.len());
        let t = choose|ip: Seq<char>, pk: Seq<u8>, xp: Seq<u8>, ex: Seq<char>, sg: Seq<u8>|
            #![trigger token_bytes(payload_bytes(ip, pk, xp, ex), sg)]
            b == token_bytes(payload_bytes(ip, pk, xp, ex), sg);
        assert(b == token_bytes(payload_bytes(fields.ip@, fields.pubkey@, fields.x25519_pubkey@, fields.expiry@), signature@));
        crate::wire::lemma_token_unique(b, t.0, t.1, t.2, t.3, t.4,
            fields.ip@, fields.pubkey@, fields.x25519_pubkey@, fields.expiry@, signature@);
    }
    let expiry = match UtcTime::parse_rfc3339(fields.expiry.as_str()) {
        Some(t) => t,
        None => {
            return Err(Error::CborSerialization("Invalid token data: unexpected encoding".to_owned()));
        },
    };
    if signature.len() != 64 {
        let mut m = String::new();
        write_str(&mut m, "Invalid signature length: expected 64 bytes, got ");
        write_decimal(&mut m, signature.len() as u64);
        return Err(Error::Crypto(m));
    }
    let signed = TokenFields {
        ip: fields.ip.clone(),
        pubkey: copy_bytes(fields.pubkey.as_slice()),
        x25519_pubkey: copy_bytes(fields.x25519_pubkey.as_slice()),
        expiry: expiry.to_rfc3339(),
    };
    let payload = encode_token_payload(&signed);
    if fields.pubkey.len() != 32 {
        return Err(Error::Crypto("Invalid public key length (expected 32 bytes)".to_owned()));
    }
    let pubkey = to_array32(fields.pubkey.as_slice());
    let sig = to_array64(signature.as_slice());
    let valid = match verify_contact_token(&pubkey, payload.as_slice(), &sig) {
        Ok(v) => v,
        Err(e) => return Err(e),
    };
    if !valid {
        return Err(Error::Crypto(
            "Contact token signature verification failed (token may be tampered with)".to_owned(),
        ));
    }
    let expired = match now {
        Some(n) => n.is_after(&expiry),
        None => true,
    };
    if expired {
        return Err(Error::Storage("Contact token has expired".to_owned()));
    }
    let uid = UID::from_public_key(fields.pubkey.as_slice());
    let TokenFields { ip, pubkey: pk, x25519_pubkey, expiry: _ } = fields;
    Ok(Contact::new(uid.to_string(), ip, pk, x25519_pubkey, expiry))
}

/// Reads a contact token now; see `parse_contact_token_at`. A clock
/// reading that chrono cannot hold counts as past every expiry.
///
/// A token that `generate_contact_token` made with a matching key pair
/// reads back as the contact it describes, unless it has expired.
pub fn parse_contact_token(token: &str) -> (r: Result<Contact>)
    ensures
        base64url_bytes(token@) is None ==> (r matches Err(Error::Storage(m))
            && m@.subrange(0, 22) == "Invalid base64 token: "@),
        base64url_bytes(token@) matches Some(b) ==> (token_of(b) is None
            ==> (r matches Err(Error::CborSerialization(m)) && m@ == "Invalid token data: unexpected encoding"@)),
        base64url_bytes(token@) matches Some(b) ==> (token_of(b) matches Some(t)
            ==> (rfc3339_parse(t.3) is None
                ==> (r matches Err(Error::CborSerialization(m)) && m@ == "Invalid token data: unexpected encoding"@))),
        base64url_bytes(token@) matches Some(b) ==> (token_of(b) matches Some(t)
            ==> (rfc3339_parse(t.3) matches Some(e)
                ==> exists|after: bool, secs: u64, nanos: u32| #![trigger clock_time(after, secs, nanos)]
                    token_checked(t, e, clock_time(after, secs, nanos), r))),
        forall|ip: Seq<char>, pk: Seq<u8>, sk: Seq<u8>, xp: Seq<u8>, secs: i64, nanos: u32|
            #![trigger token_text(ip, pk, sk, xp, secs, nanos)]
            token_made(token@, ip, pk, sk, xp, secs, nanos) && pk == ed25519_public(sk) && pk.len() == 32
                ==> ((r matches Ok(c) && c.ip@ == ip && c.pubkey@ == pk && c.x25519_pubkey@ == xp
                    && c.expiry.is(secs, nanos) && c.is_active && c.uid@ == uid_text(pk))
                    || (r matches Err(Error::Storage(m)) && m@ == "Contact token has expired"@)),
{
    let now = UtcTime::now();
    let r = parse_token_with(token, now);
    proof {
        let (after, secs, nanos) = choose|after: bool, secs: u64, nanos: u32| #![trigger clock_time(after, secs, nanos)]
            nanos < 1_000_000_000 && match clock_time(after, secs, nanos) {
                Some(t) => now matches Some(u) && u.is(t.0, t.1),
                None => now is None,
            };
        assert(time_parts(now) == clock_time(after, secs, nanos));
    }
    r
}

} // verus!

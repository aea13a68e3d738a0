//! The CBOR records that the library signs, seals and sends: the encrypted
//! envelope inside an encrypted message, and the contact token.

use vstd::prelude::*;
use crate::cbor::{
    starts_with, head, byte_array, text_item, map_head, push_head, push_text, push_byte_array,
    read_head, read_key, read_byte_array, read_text, lemma_byte_array_unique, lemma_text_unique,
    lemma_starts_with_concat,
};
use crate::crypto::EncryptedEnvelope;

verus! {

/// A sequence that is `x` followed by `y` starts with `x`, and `y` follows.
pub proof fn lemma_split(s: Seq<u8>, x: Seq<u8>, y: Seq<u8>)
    requires
        s == x + y,
    ensures
        starts_with(s, x),
        s.subrange(x.len() as int, s.len() as int) == y,
{
    assert(s.subrange(0, x.len() as int) =~= x);
    assert(s.subrange(x.len() as int, s.len() as int) =~= y);
}

/// Every sequence starts with itself.
pub proof fn lemma_starts_with_self(s: Seq<u8>)
    ensures
        starts_with(s, s),
{
    assert(s.subrange(0, s.len() as int) =~= s);
}

/// The CBOR encoding of an encrypted envelope: a map with the keys
/// `nonce` and `ciphertext`, each an array of byte values.
pub open spec fn envelope_bytes(nonce: Seq<u8>, ciphertext: Seq<u8>) -> Seq<u8> {
    map_head(2) + (text_item("nonce"@) + (byte_array(nonce)
        + (text_item("ciphertext"@) + byte_array(ciphertext))))
}

/// An encoding holds one envelope only.
pub proof fn lemma_envelope_unique(n1: Seq<u8>, c1: Seq<u8>, n2: Seq<u8>, c2: Seq<u8>)
    requires
        envelope_bytes(n1, c1) == envelope_bytes(n2, c2),
        envelope_bytes(n1, c1).len() < 18446744073709551616,
    ensures
        n1 == n2,
        c1 == c2,
{
    let s = envelope_bytes(n1, c1);
    let t1 = byte_array(n1) + (text_item("ciphertext"@) + byte_array(c1));
    let t2 = byte_array(n2) + (text_item("ciphertext"@) + byte_array(c2));
    lemma_split(s, map_head(2), text_item("nonce"@) + t1);
    lemma_split(s, map_head(2), text_item("nonce"@) + t2);
    let r = s.subrange(map_head(2).len() as int, s.len() as int);
    lemma_split(r, text_item("nonce"@), t1);
    lemma_split(r, text_item("nonce"@), t2);
    let u = r.subrange(text_item("nonce"@).len() as int, r.len() as int);
    lemma_split(u, byte_array(n1), text_item("ciphertext"@) + byte_array(c1));
    lemma_split(u, byte_array(n2), text_item("ciphertext"@) + byte_array(c2));
    lemma_byte_array_unique(u, n1, n2);
    let w = u.subrange(byte_array(n1).len() as int, u.len() as int);
    lemma_split(w, text_item("ciphertext"@), byte_array(c1));
    lemma_split(w, text_item("ciphertext"@), byte_array(c2));
    let z = w.subrange(text_item("ciphertext"@).len() as int, w.len() as int);
    lemma_starts_with_self(z);
    lemma_starts_with_self(byte_array(c2));
    lemma_byte_array_unique(z, c1, c2);
}

/// Copies 24 bytes into an array.
pub fn to_array24(v: &[u8]) -> (a: [u8; 24])
    requires
        v@.len() == 24,
    ensures
        a@ == v@,
{
    let mut a = [0u8; 24];
    let mut i: usize = 0;
    while i < 24
        invariant
            v@.len() == 24,
            a@.len() == 24,
            i <= 24,
            forall|j: int| 0 <= j < i ==> a@[j] == v@[j],
        decreases 24 - i,
    {
        a[i] = v[i];
        i = i + 1;
    }
    assert(a@ =~= v@);
    a
}

/// Encodes an encrypted envelope as CBOR.
pub fn encode_encrypted_envelope(env: &EncryptedEnvelope) -> (r: Vec<u8>)
    ensures
        r@ == envelope_bytes(env.nonce@, env.ciphertext@),
{
    let mut out: Vec<u8> = Vec::new();
    push_head(&mut out, 5, 2);
    push_text(&mut out, "nonce");
    push_byte_array(&mut out, &env.nonce);
    push_text(&mut out, "ciphertext");
    push_byte_array(&mut out, env.ciphertext.as_slice());
    assert(out@ =~= envelope_bytes(env.nonce@, env.ciphertext@));
    out
}

/// Decodes a CBOR encrypted envelope; the input must hold exactly one.
pub fn decode_encrypted_envelope(bytes: &[u8]) -> (r: Option<EncryptedEnvelope>)
    ensures
        r matches Some(e) ==> bytes@ == envelope_bytes(e.nonce@, e.ciphertext@),
        forall|n: Seq<u8>, c: Seq<u8>| #![trigger envelope_bytes(n, c)]
            n.len() == 24 && bytes@ == envelope_bytes(n, c)
                ==> (r matches Some(e) && e.nonce@ == n && e.ciphertext@ == c),
{
    let ghost s = bytes@;
    let ghost has = exists|n: Seq<u8>, c: Seq<u8>| #![trigger envelope_bytes(n, c)]
        n.len() == 24 && s == envelope_bytes(n, c);
    let ghost (tn, tc): (Seq<u8>, Seq<u8>) = choose|n: Seq<u8>, c: Seq<u8>| #![trigger envelope_bytes(n, c)]
        n.len() == 24 && s == envelope_bytes(n, c);
    let ghost r1 = text_item("nonce"@) + (byte_array(tn) + (text_item("ciphertext"@) + byte_array(tc)));
    let ghost r2 = byte_array(tn) + (text_item("ciphertext"@) + byte_array(tc));
    let ghost r3 = text_item("ciphertext"@) + byte_array(tc);
    proof {
        if has {
            lemma_split(s, map_head(2), r1);
            assert(s.subrange(0, s.len() as int) =~= s);
        }
    }
    let p0 = match read_head(bytes, 0, 5) {
        Some((n, p)) => {
            if n != 2 {
                return None;
            }
            p
        },
        None => return None,
    };
    proof {
        if has {
            lemma_split(r1, text_item("nonce"@), r2);
            assert(s.subrange(p0 as int, s.len() as int) == r1);
        }
    }
    let p1 = match read_key(bytes, p0, "nonce") {
        Some(p) => p,
        None => return None,
    };
    proof {
        if has {
            lemma_split(r2, byte_array(tn), r3);
            assert(s.subrange(p1 as int, s.len() as int) =~= r2);
        }
    }
    let (nonce_vec, p2) = match read_byte_array(bytes, p1) {
        Some(x) => x,
        None => return None,
    };
    if nonce_vec.len() != 24 {
        return None;
    }
    proof {
        if has {
            lemma_split(r3, text_item("ciphertext"@), byte_array(tc));
            assert(s.subrange(p2 as int, s.len() as int) =~= r3);
        }
    }
    let p3 = match read_key(bytes, p2, "ciphertext") {
        Some(p) => p,
        None => return None,
    };
    proof {
        if has {
            assert(s.subrange(p3 as int, s.len() as int) =~= byte_array(tc));
            lemma_starts_with_self(byte_array(tc));
        }
    }
    let (ciphertext, p4) = match read_byte_array(bytes, p3) {
        Some(x) => x,
        None => return None,
    };
    if p4 != bytes.len() {
        return None;
    }
    let nonce = to_array24(nonce_vec.as_slice());
    proof {
        assert(s =~= s.subrange(0, p0 as int) + (s.subrange(p0 as int, p1 as int) + (s.subrange(p1 as int, p2 as int)
            + (s.subrange(p2 as int, p3 as int) + s.subrange(p3 as int, p4 as int)))));
        assert(bytes@.len() == bytes.len());
        assert forall|n: Seq<u8>, c: Seq<u8>| #![trigger envelope_bytes(n, c)]
            n.len() == 24 && s == envelope_bytes(n, c)
            implies (nonce@ == n && ciphertext@ == c) by {
            lemma_envelope_unique(n, c, tn, tc);
        }
    }
    Some(EncryptedEnvelope { nonce, ciphertext })
}


/// The signed part of a contact token as text and bytes: the address, the
/// Ed25519 and X25519 public keys, and the expiry in RFC 3339 text.
pub struct TokenFields {
    /// Network address of the peer.
    pub ip: String,
    /// Ed25519 public key.
    pub pubkey: Vec<u8>,
    /// X25519 public key.
    pub x25519_pubkey: Vec<u8>,
    /// Expiry, as RFC 3339 text.
    pub expiry: String,
}

/// The CBOR encoding of a token payload: a map with the keys `ip`,
/// `pubkey`, `x25519_pubkey` and `expiry`, in that order.
pub open spec fn payload_bytes(ip: Seq<char>, pubkey: Seq<u8>, xpub: Seq<u8>, expiry: Seq<char>) -> Seq<u8> {
    map_head(4) + (text_item("ip"@) + (text_item(ip) + (text_item("pubkey"@) + (byte_array(pubkey)
        + (text_item("x25519_pubkey"@) + (byte_array(xpub) + (text_item("expiry"@) + text_item(expiry))))))))
}

/// The CBOR encoding of a contact token: a map with the encoded payload
/// under `payload` and the signature bytes under `signature`.
pub open spec fn token_bytes(payload: Seq<u8>, signature: Seq<u8>) -> Seq<u8> {
    map_head(2) + (text_item("payload"@) + (payload + (text_item("signature"@) + byte_array(signature))))
}

/// `a` followed by `b`.
fn cat(a: Vec<u8>, b: Vec<u8>) -> (r: Vec<u8>)
    ensures
        r@ == a@ + b@,
{
    let mut a = a;
    let mut b = b;
    a.append(&mut b);
    a
}

/// A text item on its own.
fn text_vec(s: &str) -> (r: Vec<u8>)
    ensures
        r@ == text_item(s@),
{
    let mut out: Vec<u8> = Vec::new();
    push_text(&mut out, s);
    assert(out@ =~= text_item(s@));
    out
}

/// An array of byte values on its own.
fn array_vec(b: &[u8]) -> (r: Vec<u8>)
    ensures
        r@ == byte_array(b@),
{
    let mut out: Vec<u8> = Vec::new();
    push_byte_array(&mut out, b);
    assert(out@ =~= byte_array(b@));
    out
}

/// A map head on its own.
fn map_vec(n: u64) -> (r: Vec<u8>)
    ensures
        r@ == map_head(n as nat),
{
    let mut out: Vec<u8> = Vec::new();
    push_head(&mut out, 5, n);
    assert(out@ =~= map_head(n as nat));
    out
}

/// Encodes a token payload as CBOR.
pub fn encode_token_payload(f: &TokenFields) -> (r: Vec<u8>)
    ensures
        r@ == payload_bytes(f.ip@, f.pubkey@, f.x25519_pubkey@, f.expiry@),
{
    let t = cat(text_vec("expiry"), text_vec(f.expiry.as_str()));
    let t = cat(array_vec(f.x25519_pubkey.as_slice()), t);
    let t = cat(text_vec("x25519_pubkey"), t);
    let t = cat(array_vec(f.pubkey.as_slice()), t);
    let t = cat(text_vec("pubkey"), t);
    let t = cat(text_vec(f.ip.as_str()), t);
    let t = cat(text_vec("ip"), t);
    cat(map_vec(4), t)
}

/// Encodes a contact token as CBOR: an encoded payload and its signature.
pub fn encode_token(payload: &[u8], signature: &[u8]) -> (r: Vec<u8>)
    ensures
        r@ == token_bytes(payload@, signature@),
{
    let t = cat(text_vec("signature"), array_vec(signature));
    let t = cat(crate::connectivity::ip::copy_bytes(payload), t);
    let t = cat(text_vec("payload"), t);
    cat(map_vec(2), t)
}

/// A stream at `p` that starts with `x + y` starts with `x`, and with `y`
/// after it.
pub proof fn lemma_advance(s: Seq<u8>, p: int, x: Seq<u8>, y: Seq<u8>)
    requires
        0 <= p <= s.len(),
        starts_with(s.subrange(p, s.len() as int), x + y),
    ensures
        starts_with(s.subrange(p, s.len() as int), x),
        p + x.len() <= s.len(),
        starts_with(s.subrange(p + x.len(), s.len() as int), y),
{
    lemma_starts_with_concat(s.subrange(p, s.len() as int), x, y);
    assert(s.subrange(p, s.len() as int).subrange(x.len() as int, s.len() - p)
        =~= s.subrange(p + x.len(), s.len() as int));
}

/// A range of a sequence is its two halves.
pub proof fn lemma_sub_split(s: Seq<u8>, a: int, b: int, c: int)
    requires
        0 <= a <= b <= c <= s.len(),
    ensures
        s.subrange(a, c) == s.subrange(a, b) + s.subrange(b, c),
{
    assert(s.subrange(a, c) =~= s.subrange(a, b) + s.subrange(b, c));
}

/// A stream starts with one token payload only.
#[verifier::rlimit(40)]
pub proof fn lemma_payload_unique(
    s: Seq<u8>,
    ip1: Seq<char>, pk1: Seq<u8>, xp1: Seq<u8>, ex1: Seq<char>,
    ip2: Seq<char>, pk2: Seq<u8>, xp2: Seq<u8>, ex2: Seq<char>,
)
    requires
        s.len() < 18446744073709551616,
        starts_with(s, payload_bytes(ip1, pk1, xp1, ex1)),
        starts_with(s, payload_bytes(ip2, pk2, xp2, ex2)),
    ensures
        ip1 == ip2 && pk1 == pk2 && xp1 == xp2 && ex1 == ex2,
{
    let a8 = text_item("expiry"@) + text_item(ex1);
    let a7 = byte_array(xp1) + a8;
    let a6 = text_item("x25519_pubkey"@) + a7;
    let a5 = byte_array(pk1) + a6;
    let a4 = text_item("pubkey"@) + a5;
    let a3 = text_item(ip1) + a4;
    let a2 = text_item("ip"@) + a3;
    let b8 = text_item("expiry"@) + text_item(ex2);
    let b7 = byte_array(xp2) + b8;
    let b6 = text_item("x25519_pubkey"@) + b7;
    let b5 = byte_array(pk2) + b6;
    let b4 = text_item("pubkey"@) + b5;
    let b3 = text_item(ip2) + b4;
    let b2 = text_item("ip"@) + b3;
    let h = map_head(4);
    assert(s.subrange(0, s.len() as int) =~= s);
    lemma_advance(s, 0, h, a2);
    lemma_advance(s, 0, h, b2);
    let p1 = h.len() as int;
    lemma_advance(s, p1, text_item("ip"@), a3);
    lemma_advance(s, p1, text_item("ip"@), b3);
    let p2 = p1 + text_item("ip"@).len();
    lemma_advance(s, p2, text_item(ip1), a4);
    lemma_advance(s, p2, text_item(ip2), b4);
    lemma_text_unique(s.subrange(p2, s.len() as int), ip1, ip2);
    let p3 = p2 + text_item(ip1).len();
    lemma_advance(s, p3, text_item("pubkey"@), a5);
    lemma_advance(s, p3, text_item("pubkey"@), b5);
    let p4 = p3 + text_item("pubkey"@).len();
    lemma_advance(s, p4, byte_array(pk1), a6);
    lemma_advance(s, p4, byte_array(pk2), b6);
    lemma_byte_array_unique(s.subrange(p4, s.len() as int), pk1, pk2);
    let p5 = p4 + byte_array(pk1).len();
    lemma_advance(s, p5, text_item("x25519_pubkey"@), a7);
    lemma_advance(s, p5, text_item("x25519_pubkey"@), b7);
    let p6 = p5 + text_item("x25519_pubkey"@).len();
    lemma_advance(s, p6, byte_array(xp1), a8);
    lemma_advance(s, p6, byte_array(xp2), b8);
    lemma_byte_array_unique(s.subrange(p6, s.len() as int), xp1, xp2);
    let p7 = p6 + byte_array(xp1).len();
    lemma_advance(s, p7, text_item("expiry"@), text_item(ex1));
    lemma_advance(s, p7, text_item("expiry"@), text_item(ex2));
    let p8 = p7 + text_item("expiry"@).len();
    lemma_text_unique(s.subrange(p8, s.len() as int), ex1, ex2);
}

/// Reads a token payload at `pos`: its fields and the position after it.
#[verifier::rlimit(100)]
#[verifier::spinoff_prover]
pub fn read_token_payload(bytes: &[u8], pos: usize) -> (r: Option<(TokenFields, usize)>)
    requires
        pos <= bytes@.len(),
    ensures
        r matches Some((f, p)) ==> pos <= p <= bytes@.len()
            && bytes@.subrange(pos as int, p as int) == payload_bytes(f.ip@, f.pubkey@, f.x25519_pubkey@, f.expiry@),
        forall|ip: Seq<char>, pk: Seq<u8>, xp: Seq<u8>, ex: Seq<char>|
            #![trigger payload_bytes(ip, pk, xp, ex)]
            starts_with(bytes@.subrange(pos as int, bytes@.len() as int), payload_bytes(ip, pk, xp, ex))
                ==> (r matches Some((f, p)) && f.ip@ == ip && f.pubkey@ == pk && f.x25519_pubkey@ == xp
                    && f.expiry@ == ex && p == pos + payload_bytes(ip, pk, xp, ex).len()),
{
    let ghost s = bytes@;
    let ghost len = s.len() as int;
    let ghost has = exists|ip: Seq<char>, pk: Seq<u8>, xp: Seq<u8>, ex: Seq<char>|
        #![trigger payload_bytes(ip, pk, xp, ex)]
        starts_with(s.subrange(pos as int, len), payload_bytes(ip, pk, xp, ex));
    let ghost (tip, tpk, txp, tex): (Seq<char>, Seq<u8>, Seq<u8>, Seq<char>) =
        choose|ip: Seq<char>, pk: Seq<u8>, xp: Seq<u8>, ex: Seq<char>|
        #![trigger payload_bytes(ip, pk, xp, ex)]
        starts_with(s.subrange(pos as int, len), payload_bytes(ip, pk, xp, ex));
    let ghost a8 = text_item("expiry"@) + text_item(tex);
    let ghost a7 = byte_array(txp) + a8;
    let ghost a6 = text_item("x25519_pubkey"@) + a7;
    let ghost a5 = byte_array(tpk) + a6;
    let ghost a4 = text_item("pubkey"@) + a5;
    let ghost a3 = text_item(tip) + a4;
    let ghost a2 = text_item("ip"@) + a3;
    proof {
        assert(s.len() == bytes.len());
        if has {
            lemma_advance(s, pos as int, map_head(4), a2);
        }
    }
    let p1 = match read_head(bytes, pos, 5) {
        Some((n, p)) => {
            if n != 4 {
                return None;
            }
            p
        },
        None => return None,
    };
    proof {
        if has {
            lemma_advance(s, p1 as int, text_item("ip"@), a3);
        }
    }
    let p2 = match read_key(bytes, p1, "ip") {
        Some(p) => p,
        None => return None,
    };
    proof {
        if has {
            lemma_advance(s, p2 as int, text_item(tip), a4);
        }
    }
    let (ip, p3) = match read_text(bytes, p2) {
        Some(x) => x,
        None => return None,
    };
    proof {
        if has {
            lemma_advance(s, p3 as int, text_item("pubkey"@), a5);
        }
    }
    let p4 = match read_key(bytes, p3, "pubkey") {
        Some(p) => p,
        None => return None,
    };
    proof {
        if has {
            lemma_advance(s, p4 as int, byte_array(tpk), a6);
        }
    }
    let (pubkey, p5) = match read_byte_array(bytes, p4) {
        Some(x) => x,
        None => return None,
    };
    proof {
        if has {
            lemma_advance(s, p5 as int, text_item("x25519_pubkey"@), a7);
        }
    }
    let p6 = match read_key(bytes, p5, "x25519_pubkey") {
        Some(p) => p,
        None => return None,
    };
    proof {
        if has {
            lemma_advance(s, p6 as int, byte_array(txp), a8);
        }
    }
    let (x25519_pubkey, p7) = match read_byte_array(bytes, p6) {
        Some(x) => x,
        None => return None,
    };
    proof {
        if has {
            lemma_advance(s, p7 as int, text_item("expiry"@), text_item(tex));
        }
    }
    let p8 = match read_key(bytes, p7, "expiry") {
        Some(p) => p,
        None => return None,
    };
    let (expiry, p9) = match read_text(bytes, p8) {
        Some(x) => x,
        None => return None,
    };
    let f = TokenFields { ip, pubkey, x25519_pubkey, expiry };
    proof {
        lemma_sub_split(s, p7 as int, p8 as int, p9 as int);
        lemma_sub_split(s, p6 as int, p7 as int, p9 as int);
        lemma_sub_split(s, p5 as int, p6 as int, p9 as int);
        lemma_sub_split(s, p4 as int, p5 as int, p9 as int);
        lemma_sub_split(s, p3 as int, p4 as int, p9 as int);
        lemma_sub_split(s, p2 as int, p3 as int, p9 as int);
        lemma_sub_split(s, p1 as int, p2 as int, p9 as int);
        lemma_sub_split(s, pos as int, p1 as int, p9 as int);
        assert forall|ip2: Seq<char>, pk2: Seq<u8>, xp2: Seq<u8>, ex2: Seq<char>|
            #![trigger payload_bytes(ip2, pk2, xp2, ex2)]
            starts_with(s.subrange(pos as int, len), payload_bytes(ip2, pk2, xp2, ex2))
            implies (f.ip@ == ip2 && f.pubkey@ == pk2 && f.x25519_pubkey@ == xp2 && f.expiry@ == ex2
                && p9 == pos + payload_bytes(ip2, pk2, xp2, ex2).len()) by {
            lemma_payload_unique(s.subrange(pos as int, len), tip, tpk, txp, tex, ip2, pk2, xp2, ex2);
        }
    }
    Some((f, p9))
}

/// An encoding holds one contact token only.
#[verifier::rlimit(40)]
pub proof fn lemma_token_unique(
    s: Seq<u8>,
    ip1: Seq<char>, pk1: Seq<u8>, xp1: Seq<u8>, ex1: Seq<char>, sg1: Seq<u8>,
    ip2: Seq<char>, pk2: Seq<u8>, xp2: Seq<u8>, ex2: Seq<char>, sg2: Seq<u8>,
)
    requires
        s.len() < 18446744073709551616,
        s == token_bytes(payload_bytes(ip1, pk1, xp1, ex1), sg1),
        s == token_bytes(payload_bytes(ip2, pk2, xp2, ex2), sg2),
    ensures
        ip1 == ip2 && pk1 == pk2 && xp1 == xp2 && ex1 == ex2 && sg1 == sg2,
{
    let q1 = payload_bytes(ip1, pk1, xp1, ex1);
    let q2 = payload_bytes(ip2, pk2, xp2, ex2);
    let len = s.len() as int;
    assert(s.subrange(0, len) =~= s);
    lemma_advance(s, 0, map_head(2), text_item("payload"@) + (q1 + (text_item("signature"@) + byte_array(sg1))));
    lemma_advance(s, 0, map_head(2), text_item("payload"@) + (q2 + (text_item("signature"@) + byte_array(sg2))));
    let p1 = map_head(2).len() as int;
    lemma_advance(s, p1, text_item("payload"@), q1 + (text_item("signature"@) + byte_array(sg1)));
    lemma_advance(s, p1, text_item("payload"@), q2 + (text_item("signature"@) + byte_array(sg2)));
    let p2 = p1 + text_item("payload"@).len();
    lemma_advance(s, p2, q1, text_item("signature"@) + byte_array(sg1));
    lemma_advance(s, p2, q2, text_item("signature"@) + byte_array(sg2));
    lemma_payload_unique(s.subrange(p2, len), ip1, pk1, xp1, ex1, ip2, pk2, xp2, ex2);
    let p3 = p2 + q1.len();
    lemma_advance(s, p3, text_item("signature"@), byte_array(sg1));
    lemma_advance(s, p3, text_item("signature"@), byte_array(sg2));
    let p4 = p3 + text_item("signature"@).len();
    lemma_byte_array_unique(s.subrange(p4, len), sg1, sg2);
}

/// Decodes a CBOR contact token; the input must hold exactly one. Gives the
/// payload's fields, the payload's bytes and the signature.
#[verifier::rlimit(100)]
#[verifier::spinoff_prover]
pub fn decode_token(bytes: &[u8]) -> (r: Option<(TokenFields, Vec<u8>, Vec<u8>)>)
    ensures
        r matches Some((f, pb, sig)) ==> pb@ == payload_bytes(f.ip@, f.pubkey@, f.x25519_pubkey@, f.expiry@)
            && bytes@ == token_bytes(pb@, sig@),
        forall|ip: Seq<char>, pk: Seq<u8>, xp: Seq<u8>, ex: Seq<char>, sg: Seq<u8>|
            #![trigger token_bytes(payload_bytes(ip, pk, xp, ex), sg)]
            bytes@ == token_bytes(payload_bytes(ip, pk, xp, ex), sg)
                ==> (r matches Some((f, pb, sig)) && f.ip@ == ip && f.pubkey@ == pk
                    && f.x25519_pubkey@ == xp && f.expiry@ == ex && sig@ == sg),
{
    let ghost s = bytes@;
    let ghost len = s.len() as int;
    let ghost has = exists|ip: Seq<char>, pk: Seq<u8>, xp: Seq<u8>, ex: Seq<char>, sg: Seq<u8>|
        #![trigger token_bytes(payload_bytes(ip, pk, xp, ex), sg)]
        s == token_bytes(payload_bytes(ip, pk, xp, ex), sg);
    let ghost (tip, tpk, txp, tex, tsg): (Seq<char>, Seq<u8>, Seq<u8>, Seq<char>, Seq<u8>) =
        choose|ip: Seq<char>, pk: Seq<u8>, xp: Seq<u8>, ex: Seq<char>, sg: Seq<u8>|
        #![trigger token_bytes(payload_bytes(ip, pk, xp, ex), sg)]
        s == token_bytes(payload_bytes(ip, pk, xp, ex), sg);
    let ghost pl = payload_bytes(tip, tpk, txp, tex);
    let ghost a3 = text_item("signature"@) + byte_array(tsg);
    let ghost a2 = pl + a3;
    let ghost a1 = text_item("payload"@) + a2;
    proof {
        assert(s.len() == bytes.len());
        if has {
            assert(s.subrange(0, len) =~= s);
            lemma_starts_with_self(s);
            lemma_advance(s, 0, map_head(2), a1);
        }
    }
    let p1 = match read_head(bytes, 0, 5) {
        Some((n, p)) => {
            if n != 2 {
                return None;
            }
            p
        },
        None => return None,
    };
    proof {
        if has {
            lemma_advance(s, p1 as int, text_item("payload"@), a2);
        }
    }
    let p2 = match read_key(bytes, p1, "payload") {
        Some(p) => p,
        None => return None,
    };
    proof {
        if has {
            lemma_advance(s, p2 as int, pl, a3);
        }
    }
    let (f, p3) = match read_token_payload(bytes, p2) {
        Some(x) => x,
        None => return None,
    };
    proof {
        if has {
            lemma_advance(s, p3 as int, text_item("signature"@), byte_array(tsg));
        }
    }
    let p4 = match read_key(bytes, p3, "signature") {
        Some(p) => p,
        None => return None,
    };
    proof {
        if has {
            assert(s.subrange(p4 as int, len) =~= byte_array(tsg));
            lemma_starts_with_self(byte_array(tsg));
        }
    }
    let (sig, p5) = match read_byte_array(bytes, p4) {
        Some(x) => x,
        None => return None,
    };
    if p5 != bytes.len() {
        return None;
    }
    let pb = crate::connectivity::ip::copy_bytes(&bytes[p2..p3]);
    proof {
        assert(pb@ =~= s.subrange(p2 as int, p3 as int));
        assert(s =~= s.subrange(0, p1 as int) + (s.subrange(p1 as int, p2 as int) + (s.subrange(p2 as int, p3 as int)
            + (s.subrange(p3 as int, p4 as int) + s.subrange(p4 as int, p5 as int)))));
        assert forall|ip: Seq<char>, pk: Seq<u8>, xp: Seq<u8>, ex: Seq<char>, sg: Seq<u8>|
            #![trigger token_bytes(payload_bytes(ip, pk, xp, ex), sg)]
            s == token_bytes(payload_bytes(ip, pk, xp, ex), sg)
            implies (f.ip@ == ip && f.pubkey@ == pk && f.x25519_pubkey@ == xp && f.expiry@ == ex
                && sig@ == sg) by {
            lemma_token_unique(s, tip, tpk, txp, tex, tsg, ip, pk, xp, ex, sg);
        }
    }
    Some((f, pb, sig))
}

} // verus!

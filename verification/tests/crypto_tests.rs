use pure2p::crypto::{
    decrypt, decrypt_message, derive_shared_secret, encrypt, encrypt_message, sign_contact_token, verify_contact_token,
    EncryptedEnvelope, KeyPair, UID,
};
use pure2p::protocol::{MessageEnvelope, MessageType, PROTOCOL_VERSION};
use pure2p::wire::{decode_encrypted_envelope, decode_token, encode_encrypted_envelope, encode_token, encode_token_payload, TokenFields};
use pure2p::Error;

fn sha256_hex16(data: &[u8]) -> String {
    let d = ring::digest::digest(&ring::digest::SHA256, data);
    d.as_ref()[..16].iter().map(|b| format!("{:02x}", b)).collect()
}

#[test]
fn uid_is_first_half_of_sha256_in_hex() {
    let uid = UID::from_public_key(b"abc");
    assert_eq!(uid.as_str(), "ba7816bf8f01cfea414140de5dae2223");
    assert_eq!(uid.as_str(), sha256_hex16(b"abc"));
    assert_eq!(uid.to_string().len(), 32);
    assert_ne!(UID::from_public_key(b"abd").as_str(), uid.as_str());
}

#[test]
fn generated_keys_fit_together() {
    let kp = KeyPair::generate().unwrap();
    assert_eq!(kp.public_key.len(), 32);
    assert_eq!(kp.private_key.len(), 32);
    assert_eq!(kp.x25519_public.len(), 32);
    assert_eq!(kp.x25519_secret.len(), 32);
    assert_eq!(kp.uid().as_str(), sha256_hex16(&kp.public_key));
    let sk = ed25519_dalek::SigningKey::from_bytes(&kp.private_key.clone().try_into().unwrap());
    assert_eq!(sk.verifying_key().to_bytes().to_vec(), kp.public_key);
}

#[test]
fn signature_verifies_and_tampering_fails() {
    let kp = KeyPair::generate().unwrap();
    let sig = kp.sign(b"hello").unwrap();
    assert_eq!(sig.len(), 64);
    assert_eq!(kp.verify(b"hello", &sig).unwrap(), true);
    assert_eq!(kp.verify(b"hellp", &sig).unwrap(), false);
    let mut bad = sig.clone();
    bad[0] ^= 1;
    assert_eq!(kp.verify(b"hello", &bad).unwrap(), false);
}

#[test]
fn sign_and_verify_reject_bad_lengths() {
    let mut kp = KeyPair::generate().unwrap();
    match kp.verify(b"m", &[0u8; 10]) {
        Err(Error::Crypto(m)) => assert_eq!(m, "Invalid signature length"),
        other => panic!("unexpected {:?}", other),
    }
    kp.public_key.pop();
    match kp.verify(b"m", &[0u8; 64]) {
        Err(Error::Crypto(m)) => assert_eq!(m, "Invalid public key length"),
        other => panic!("unexpected {:?}", other),
    }
    kp.private_key.push(0);
    match kp.sign(b"m") {
        Err(Error::Crypto(m)) => assert_eq!(m, "Invalid private key length"),
        other => panic!("unexpected {:?}", other),
    }
    kp.x25519_secret.clear();
    match kp.derive_shared_secret(&[9u8; 32]) {
        Err(Error::Crypto(m)) => assert_eq!(m, "Invalid X25519 secret key length"),
        other => panic!("unexpected {:?}", other),
    }
}

#[test]
fn both_sides_derive_the_same_secret() {
    let alice = KeyPair::generate().unwrap();
    let bob = KeyPair::generate().unwrap();
    let a_pub: [u8; 32] = alice.x25519_public.clone().try_into().unwrap();
    let b_pub: [u8; 32] = bob.x25519_public.clone().try_into().unwrap();
    let s1 = alice.derive_shared_secret(&b_pub).unwrap();
    let s2 = bob.derive_shared_secret(&a_pub).unwrap();
    assert_eq!(s1, s2);
    let a_sec: [u8; 32] = alice.x25519_secret.clone().try_into().unwrap();
    assert_eq!(derive_shared_secret(&a_sec, &b_pub), s1);
    assert_eq!(x25519_dalek::x25519(a_sec, b_pub), s1);
}

#[test]
fn decrypt_gives_back_what_encrypt_sealed() {
    let secret = [7u8; 32];
    let env = encrypt_message(&secret, b"secret text").unwrap();
    assert_eq!(env.ciphertext.len(), b"secret text".len() + 16);
    assert_eq!(decrypt_message(&secret, &env).unwrap(), b"secret text".to_vec());
    let other = [8u8; 32];
    match decrypt_message(&other, &env) {
        Err(Error::Crypto(m)) => assert_eq!(m, "Decryption failed (auth tag mismatch or corrupted data): aead::Error"),
        other => panic!("unexpected {:?}", other),
    }
    let mut tampered = env.clone();
    tampered.ciphertext[0] ^= 0x80;
    assert!(decrypt_message(&secret, &tampered).is_err());
}

#[test]
fn contact_token_signature_round_trip() {
    let kp = KeyPair::generate().unwrap();
    let sk: [u8; 32] = kp.private_key.clone().try_into().unwrap();
    let pk: [u8; 32] = kp.public_key.clone().try_into().unwrap();
    let sig = sign_contact_token(&sk, b"token").unwrap();
    assert!(verify_contact_token(&pk, b"token", &sig).unwrap());
    assert!(!verify_contact_token(&pk, b"tokem", &sig).unwrap());
}

#[test]
fn generic_entry_points_are_refused() {
    match encrypt(b"a", b"b") {
        Err(Error::Crypto(m)) => assert_eq!(m, "Not yet implemented - use encrypt_message instead"),
        other => panic!("unexpected {:?}", other),
    }
    match decrypt(b"a", b"b") {
        Err(Error::Crypto(m)) => assert_eq!(m, "Not yet implemented - use decrypt_message instead"),
        other => panic!("unexpected {:?}", other),
    }
}

#[test]
fn envelope_cbor_bytes() {
    let mut nonce = [0u8; 24];
    for (i, b) in nonce.iter_mut().enumerate() {
        *b = i as u8;
    }
    let env = EncryptedEnvelope { nonce, ciphertext: vec![1, 200, 255] };
    let bytes = encode_encrypted_envelope(&env);
    let mut expected = vec![0xa2, 0x65];
    expected.extend_from_slice(b"nonce");
    expected.extend_from_slice(&[0x98, 24]);
    for i in 0..24u8 {
        expected.push(i);
    }
    expected.push(0x6a);
    expected.extend_from_slice(b"ciphertext");
    expected.extend_from_slice(&[0x83, 0x01, 0x18, 200, 0x18, 255]);
    assert_eq!(bytes, expected);
    assert_eq!(decode_encrypted_envelope(&bytes), Some(env));
    let mut longer = bytes.clone();
    longer.push(0);
    assert_eq!(decode_encrypted_envelope(&longer), None);
    assert_eq!(decode_encrypted_envelope(&bytes[..bytes.len() - 1]), None);
}

#[test]
fn envelope_cbor_matches_serde_cbor() {
    let nonce = [3u8; 24];
    let env = EncryptedEnvelope { nonce, ciphertext: vec![0, 23, 24, 255] };
    let nonce_part = serde_cbor::to_vec(&nonce).unwrap();
    let ct_part = serde_cbor::to_vec(&env.ciphertext).unwrap();
    let bytes = encode_encrypted_envelope(&env);
    let mut expected = vec![0xa2];
    expected.extend(serde_cbor::to_vec(&"nonce").unwrap());
    expected.extend(nonce_part);
    expected.extend(serde_cbor::to_vec(&"ciphertext").unwrap());
    expected.extend(ct_part);
    assert_eq!(bytes, expected);
}

#[test]
fn encrypted_envelope_message_round_trip() {
    let alice = UID::from_public_key(b"alice");
    let bob = UID::from_public_key(b"bob");
    let secret = [42u8; 32];
    let msg = MessageEnvelope::new_text_encrypted(&alice, &bob, b"hi bob".to_vec(), &secret).unwrap();
    assert!(msg.encrypted);
    assert_eq!(msg.version, PROTOCOL_VERSION);
    assert_eq!(msg.message_type, MessageType::Text);
    assert_eq!(msg.from_uid, alice.as_str());
    assert_eq!(msg.to_uid, bob.as_str());
    assert_eq!(msg.decrypt_payload(&secret).unwrap(), b"hi bob".to_vec());
    assert_eq!(msg.get_payload(Some(&secret)).unwrap(), b"hi bob".to_vec());
    match msg.get_payload(None) {
        Err(Error::Crypto(m)) => assert_eq!(m, "Shared secret required to decrypt message"),
        other => panic!("unexpected {:?}", other),
    }
    assert!(msg.is_version_compatible());
}

#[test]
fn plain_envelope_payload() {
    let alice = UID::from_public_key(b"alice");
    let bob = UID::from_public_key(b"bob");
    let msg = MessageEnvelope::new_delete(&alice, &bob, vec![1, 2, 3]).unwrap();
    assert!(!msg.encrypted);
    assert_eq!(msg.message_type, MessageType::Delete);
    assert_eq!(msg.get_payload(None).unwrap(), vec![1, 2, 3]);
    match msg.decrypt_payload(&[0u8; 32]) {
        Err(Error::Crypto(m)) => assert_eq!(m, "Message is not encrypted"),
        other => panic!("unexpected {:?}", other),
    }
    let mut newer = msg.clone();
    newer.version = PROTOCOL_VERSION + 1;
    assert!(!newer.is_version_compatible());
    assert_eq!(msg.age_ms_at(msg.timestamp + 1500), 1500);
    assert!(msg.age_ms() >= 0);
    let mut garbled = MessageEnvelope::new_text(&alice, &bob, vec![0xff]).unwrap();
    garbled.encrypted = true;
    match garbled.decrypt_payload(&[0u8; 32]) {
        Err(Error::CborSerialization(m)) => assert_eq!(m, "Failed to deserialize encrypted envelope: unexpected encoding"),
        other => panic!("unexpected {:?}", other),
    }
}

#[test]
fn token_cbor_bytes_and_decoding() {
    let fields = TokenFields { ip: "a".to_string(), pubkey: vec![1], x25519_pubkey: vec![2], expiry: "e".to_string() };
    let payload = encode_token_payload(&fields);
    let mut expected = vec![0xa4, 0x62, b'i', b'p', 0x61, b'a', 0x66];
    expected.extend_from_slice(b"pubkey");
    expected.extend_from_slice(&[0x81, 0x01, 0x6d]);
    expected.extend_from_slice(b"x25519_pubkey");
    expected.extend_from_slice(&[0x81, 0x02, 0x66]);
    expected.extend_from_slice(b"expiry");
    expected.extend_from_slice(&[0x61, b'e']);
    assert_eq!(payload, expected);
    let token = encode_token(&payload, &[0x20]);
    let mut expected_token = vec![0xa2, 0x67];
    expected_token.extend_from_slice(b"payload");
    expected_token.extend_from_slice(&payload);
    expected_token.push(0x69);
    expected_token.extend_from_slice(b"signature");
    expected_token.extend_from_slice(&[0x81, 0x18, 0x20]);
    assert_eq!(token, expected_token);
    let (f, pb, sig) = decode_token(&token).unwrap();
    assert_eq!(f.ip, "a");
    assert_eq!(f.pubkey, vec![1]);
    assert_eq!(f.x25519_pubkey, vec![2]);
    assert_eq!(f.expiry, "e");
    assert_eq!(pb, payload);
    assert_eq!(sig, vec![0x20]);
    assert!(decode_token(&token[..token.len() - 1]).is_none());
    assert!(decode_token(&[]).is_none());
}

#[test]
fn encrypted_envelope_constructors() {
    let alice = KeyPair::generate().unwrap();
    let bob = KeyPair::generate().unwrap();
    let secret = alice.derive_shared_secret(&bob.x25519_public.clone().try_into().unwrap()).unwrap();
    let e = MessageEnvelope::new_encrypted(&alice.uid, &bob.uid, MessageType::Text, b"hi".to_vec(), &secret).unwrap();
    assert!(e.encrypted);
    assert_eq!(e.version, PROTOCOL_VERSION);
    let other_side = bob.derive_shared_secret(&alice.x25519_public.clone().try_into().unwrap()).unwrap();
    assert_eq!(e.decrypt_payload(&other_side).unwrap(), b"hi".to_vec());
    assert!(e.decrypt_payload(&[9u8; 32]).is_err());
    let d = MessageEnvelope::new_delete_encrypted(&alice.uid, &bob.uid, Vec::new(), &secret).unwrap();
    assert_eq!(d.message_type, MessageType::Delete);
    assert_eq!(d.decrypt_payload(&secret).unwrap(), Vec::<u8>::new());
}

#[test]
fn uid_text_shape_and_signature_length() {
    let uid = UID::from_public_key(&[]);
    assert_eq!(uid.as_str(), "e3b0c44298fc1c149afbf4c8996fb924");
    assert!(uid.as_str().chars().all(|c| c.is_ascii_hexdigit() && !c.is_ascii_uppercase()));
    let kp = KeyPair::generate().unwrap();
    let sig = kp.sign(b"m").unwrap();
    assert_eq!(sig.len(), 64);
    assert_eq!(kp.verify(b"m", &sig).unwrap(), true);
}

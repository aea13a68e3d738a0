use pure2p::clock::UtcTime;
use pure2p::crypto::{KeyPair, UID};
use pure2p::messaging::{
    complete_ping, complete_send_at, create_active_chat, create_inactive_chat, delete_chat_message, delete_chat_plan,
    delete_inactive_chat_immediate, handle_delete_chat, handle_incoming_message,
};
use pure2p::queue::{MessageQueue, Priority};
use pure2p::storage::contact::{generate_contact_token, parse_contact_token, parse_contact_token_at, Contact};
use pure2p::storage::message::format_retry_time;
use pure2p::storage::request_log::request_log_cutoff;
use pure2p::storage::{AppState, Chat, DeliveryStatus, Message, Settings};
use pure2p::Error;
use base64::Engine;

fn time(secs: i64, nanos: u32) -> UtcTime {
    UtcTime::from_parts(secs, nanos).unwrap()
}

fn in_days(days: i64) -> UtcTime {
    let t = chrono::Utc::now() + chrono::Duration::days(days);
    time(t.timestamp(), t.timestamp_subsec_nanos())
}

#[test]
fn contact_token_round_trip() {
    let kp = KeyPair::generate().unwrap();
    let expiry = in_days(30);
    let token = generate_contact_token("192.168.1.100:8080", &kp.public_key, &kp.private_key, &kp.x25519_public, expiry)
        .unwrap();
    let contact = parse_contact_token(&token).unwrap();
    assert_eq!(contact.ip, "192.168.1.100:8080");
    assert_eq!(contact.pubkey, kp.public_key);
    assert_eq!(contact.x25519_pubkey, kp.x25519_public);
    assert_eq!(contact.expiry, expiry);
    assert_eq!(contact.uid, kp.uid.as_str());
    assert!(contact.is_active);
    assert!(!contact.is_expired());
}

#[test]
fn contact_token_is_url_safe_base64_of_cbor() {
    let kp = KeyPair::generate().unwrap();
    let expiry = time(1_700_000_000, 123_000_000);
    let token = generate_contact_token("10.0.0.1:9", &kp.public_key, &kp.private_key, &kp.x25519_public, expiry).unwrap();
    assert!(token.chars().all(|c| c.is_ascii_alphanumeric() || c == '-' || c == '_'));
    let cbor = base64::engine::general_purpose::URL_SAFE_NO_PAD.decode(&token).unwrap();
    let value: serde_cbor::Value = serde_cbor::from_slice(&cbor).unwrap();
    match value {
        serde_cbor::Value::Map(m) => assert_eq!(m.len(), 2),
        other => panic!("unexpected {:?}", other),
    }
    let text = String::from_utf8_lossy(&cbor).to_string();
    assert!(text.contains("2023-11-14T22:13:20.123Z"));
}

#[test]
fn expired_and_tampered_tokens_are_refused() {
    let kp = KeyPair::generate().unwrap();
    let expiry = time(1_000_000, 0);
    let token = generate_contact_token("h:1", &kp.public_key, &kp.private_key, &kp.x25519_public, expiry).unwrap();
    match parse_contact_token(&token) {
        Err(Error::Storage(m)) => assert_eq!(m, "Contact token has expired"),
        other => panic!("unexpected {:?}", other),
    }
    let before = time(999_999, 0);
    assert!(parse_contact_token_at(&token, &before).is_ok());
    let other = KeyPair::generate().unwrap();
    let forged = generate_contact_token("h:1", &kp.public_key, &other.private_key, &kp.x25519_public, expiry).unwrap();
    match parse_contact_token_at(&forged, &before) {
        Err(Error::Crypto(m)) => assert_eq!(m, "Contact token signature verification failed (token may be tampered with)"),
        other => panic!("unexpected {:?}", other),
    }
    match parse_contact_token("!!!") {
        Err(Error::Storage(m)) => assert!(m.starts_with("Invalid base64 token: ")),
        other => panic!("unexpected {:?}", other),
    }
    match parse_contact_token("AAAA") {
        Err(Error::CborSerialization(m)) => assert_eq!(m, "Invalid token data: unexpected encoding"),
        other => panic!("unexpected {:?}", other),
    }
    match generate_contact_token("h:1", &kp.public_key, &[1u8; 31], &kp.x25519_public, expiry) {
        Err(Error::Crypto(m)) => assert_eq!(m, "Invalid private key length (expected 32 bytes)"),
        other => panic!("unexpected {:?}", other),
    }
}

#[test]
fn contact_activation() {
    let mut c = Contact::new("u".to_string(), "ip".to_string(), vec![1], vec![2], time(5, 0));
    assert!(c.is_active);
    c.deactivate();
    assert!(!c.is_active);
    c.activate();
    assert!(c.is_active);
    assert!(c.is_expired_at(&time(6, 0)));
    assert!(!c.is_expired_at(&time(5, 0)));
    assert!(c.is_expired());
}

#[test]
fn time_text_round_trip() {
    let t = time(1_700_000_000, 500_000_000);
    assert_eq!(t.to_rfc3339(), "2023-11-14T22:13:20.500Z");
    assert_eq!(UtcTime::parse_rfc3339("2023-11-14T22:13:20.500Z"), Some(t));
    assert_eq!(t.timestamp_millis(), 1_700_000_000_500);
    assert!(UtcTime::from_parts(0, 2_000_000_000).is_none());
}

#[test]
fn message_status_text() {
    let mut m = Message::new("id".to_string(), "a".to_string(), "b".to_string(), vec![1], 10);
    assert_eq!(m.status_indicator(), "✓");
    assert_eq!(m.status_text(), "sent");
    m.mark_pending(1_000 + 3_725_000);
    assert_eq!(m.attempts, 1);
    assert_eq!(m.delivery_status, DeliveryStatus::Pending);
    assert_eq!(m.status_indicator(), "↻");
    assert_eq!(m.time_until_retry_at(1_000), Some(3725));
    assert_eq!(m.status_text_at(1_000), "retry in 1h 2m");
    assert_eq!(m.time_until_retry_at(10_000_000), Some(0));
    assert_eq!(m.status_text_at(10_000_000), "retry in 0s");
    m.mark_delivered();
    assert!(m.delivered);
    assert_eq!(m.status_indicator(), "✓✓");
    assert_eq!(m.status_text(), "delivered");
    m.mark_failed();
    assert_eq!(m.status_indicator(), "✗");
    assert_eq!(m.status_text(), "failed");
    assert_eq!(m.time_until_retry(), None);
    m.delivery_status = DeliveryStatus::Pending;
    assert_eq!(m.status_text(), "pending");
    assert_eq!(DeliveryStatus::default(), DeliveryStatus::Sent);
}

#[test]
fn retry_time_formats() {
    assert_eq!(format_retry_time(3600), "1h 0m");
    assert_eq!(format_retry_time(7325), "2h 2m");
    assert_eq!(format_retry_time(61), "1m");
    assert_eq!(format_retry_time(59), "59s");
    assert_eq!(format_retry_time(-5), "-5s");
}

#[test]
fn chat_flags() {
    let mut chat = Chat::new("peer".to_string());
    assert!(!chat.is_active);
    assert!(!chat.has_pending());
    chat.mark_unread();
    assert!(chat.is_active);
    chat.mark_read();
    assert!(!chat.is_active);
    chat.mark_has_pending();
    assert!(chat.has_pending());
    chat.mark_no_pending();
    assert!(!chat.has_pending());
    chat.append_message(Message::new("1".to_string(), "a".to_string(), "b".to_string(), vec![], 1));
    assert_eq!(chat.messages.len(), 1);
}

#[test]
fn settings_intervals() {
    let mut s = Settings::default();
    assert_eq!(s.default_contact_expiry_days, 30);
    assert_eq!(s.max_message_retries, 5);
    assert_eq!(s.global_retry_interval_ms, 600_000);
    assert_eq!(s.get_retry_interval_minutes(), 10);
    assert_eq!(s.storage_path, "./data");
    s.update_retry_interval(15);
    assert_eq!(s.get_global_retry_interval_ms(), 900_000);
    assert_eq!(s.get_retry_interval_minutes(), 15);
    s.set_global_retry_interval_ms(150_000);
    assert_eq!(s.get_retry_interval_minutes(), 2);
    s.retry_interval_minutes = 99;
    s.sync_retry_interval();
    assert_eq!(s.retry_interval_minutes, 2);
}

#[test]
fn app_state_chats() {
    let mut state = AppState::new().unwrap();
    assert!(state.user_port >= 49152);
    assert!(state.chats.is_empty());
    let port = AppState::generate_random_port().unwrap();
    assert!(port >= 49152);
    state.get_or_create_chat("alice");
    state.get_or_create_chat("bob");
    state.get_or_create_chat("alice");
    assert_eq!(state.chats.len(), 2);
    assert!(state.get_chat("carol").is_none());
    state.get_chat_mut("bob").unwrap().mark_unread();
    assert!(state.get_chat("bob").unwrap().is_active);
    state.sync_pending_status(&vec!["bob".to_string()]);
    assert!(state.get_chat("bob").unwrap().has_pending_messages);
    assert!(!state.get_chat("alice").unwrap().has_pending_messages);
    let added = state.add_chat("dave".to_string());
    assert_eq!(added.contact_uid, "dave");
    assert_eq!(state.chats.len(), 3);
}

#[test]
fn incoming_messages_and_deletion() {
    let mut state = AppState::new().unwrap();
    handle_incoming_message(&mut state, "alice", "me", "m1", b"hi".to_vec(), 5);
    handle_incoming_message(&mut state, "alice", "me", "m2", b"again".to_vec(), 6);
    let chat = state.get_chat("alice").unwrap();
    assert_eq!(chat.messages.len(), 2);
    assert!(chat.is_active);
    assert!(chat.messages[0].delivered);
    assert_eq!(chat.messages[1].id, "m2");
    assert_eq!(delete_chat_plan(&state, "alice"), Some(true));
    match delete_inactive_chat_immediate(&mut state, "alice") {
        Err(Error::Storage(m)) => assert_eq!(m, "Cannot delete active chat immediately: alice. Use delete_chat() instead."),
        other => panic!("unexpected {:?}", other),
    }
    create_inactive_chat(&mut state, "alice");
    assert_eq!(delete_chat_plan(&state, "alice"), Some(false));
    assert_eq!(delete_inactive_chat_immediate(&mut state, "alice").unwrap(), true);
    assert!(state.get_chat("alice").is_none());
    assert_eq!(delete_inactive_chat_immediate(&mut state, "alice").unwrap(), false);
    assert_eq!(delete_chat_plan(&state, "alice"), None);
    create_active_chat(&mut state, "bob");
    assert!(handle_delete_chat(&mut state, "bob"));
    assert!(!handle_delete_chat(&mut state, "bob"));
    assert_eq!(complete_ping(&mut state, "carol", true).unwrap(), true);
    assert!(state.get_chat("carol").unwrap().is_active);
    assert_eq!(complete_ping(&mut state, "carol", false).unwrap(), false);
    assert!(!state.get_chat("carol").unwrap().is_active);
}

fn msg(id: &str, to: &str) -> Message {
    Message::new(id.to_string(), "me".to_string(), to.to_string(), b"x".to_vec(), 1)
}

#[test]
fn queue_orders_by_priority_then_retry_time() {
    let mut q = MessageQueue::new().unwrap();
    q.enqueue_at(msg("a", "alice"), Priority::Low, 100).unwrap();
    q.enqueue_at(msg("b", "bob"), Priority::Urgent, 300).unwrap();
    q.enqueue_at(msg("c", "alice"), Priority::Urgent, 200).unwrap();
    q.enqueue_at(msg("d", "bob"), Priority::Normal, 50).unwrap();
    let ids: Vec<String> = q.list().iter().map(|m| m.message.id.clone()).collect();
    assert_eq!(ids, vec!["c", "b", "d", "a"]);
    assert_eq!(q.size().unwrap(), 4);
    let due: Vec<String> = q.fetch_pending_at(150).iter().map(|m| m.message.id.clone()).collect();
    assert_eq!(due, vec!["d", "a"]);
    match q.enqueue_at(msg("a", "x"), Priority::High, 1) {
        Err(Error::Database(m)) => assert_eq!(m, "UNIQUE constraint failed: message_queue.message_id"),
        other => panic!("unexpected {:?}", other),
    }
    let first = q.dequeue_at(150).unwrap().unwrap();
    assert_eq!(first.message.id, "d");
    assert_eq!(q.count_pending().unwrap(), 3);
    let uids = q.get_pending_contact_uids().unwrap();
    assert_eq!(uids, vec!["alice".to_string(), "bob".to_string()]);
}

#[test]
fn queue_backoff_and_give_up() {
    let mut q = MessageQueue::new().unwrap();
    q.enqueue_at(msg("m", "bob"), Priority::Normal, 0).unwrap();
    q.mark_failed_at("m", 1_000).unwrap();
    let e = &q.list()[0];
    assert_eq!(e.attempts, 1);
    assert_eq!(e.next_retry, 1_000 + 2_000);
    q.mark_failed_at("m", 5_000).unwrap();
    assert_eq!(q.list()[0].next_retry, 5_000 + 4_000);
    q.mark_failed_at("m", 6_000).unwrap();
    q.mark_failed_at("m", 7_000).unwrap();
    assert_eq!(q.list()[0].attempts, 4);
    assert_eq!(q.list()[0].next_retry, 7_000 + 16_000);
    q.mark_failed_at("m", 8_000).unwrap();
    assert_eq!(q.size().unwrap(), 0);
    match q.mark_failed_at("m", 9_000) {
        Err(Error::Database(m)) => assert_eq!(m, "Query returned no rows"),
        other => panic!("unexpected {:?}", other),
    }
    match q.mark_delivered("m") {
        Err(Error::Queue(m)) => assert_eq!(m, "Message not found in queue: m"),
        other => panic!("unexpected {:?}", other),
    }
}

#[test]
fn queue_schedule_and_clear() {
    let mut q = MessageQueue::new().unwrap();
    q.set_max_retries(3);
    q.set_base_delay_ms(10);
    q.enqueue_at(msg("a", "x"), Priority::High, 0).unwrap();
    q.schedule_retry_at("a", 500, 100).unwrap();
    assert_eq!(q.list()[0].attempts, 1);
    assert_eq!(q.list()[0].next_retry, 600);
    q.schedule_retry_at("missing", 5, 5).unwrap();
    q.schedule_retry_global("a", 1_000).unwrap();
    assert_eq!(q.list()[0].attempts, 2);
    q.mark_success("a").unwrap();
    assert_eq!(q.size().unwrap(), 0);
    q.enqueue(msg("b", "y"), Priority::Low).unwrap();
    q.enqueue_with_type(msg("c", "y"), Priority::Low, "delete_chat").unwrap();
    assert_eq!(q.fetch_all_pending().len(), 2);
    assert_eq!(q.fetch_pending().len(), 2);
    assert!(q.dequeue().unwrap().is_some());
    q.clear().unwrap();
    assert_eq!(q.size().unwrap(), 0);
    assert_eq!(Priority::from_i64(3), Some(Priority::Urgent));
    assert_eq!(Priority::from_i64(4), None);
    assert_eq!(Priority::High.value(), 2);
}

#[test]
fn startup_retry_counts() {
    let mut q = MessageQueue::new().unwrap();
    q.enqueue_at(msg("a", "x"), Priority::Normal, 0).unwrap();
    q.enqueue_at(msg("b", "x"), Priority::Normal, 0).unwrap();
    let counts = q.record_startup_attempt_at("a", true, 10, 0, 0);
    assert_eq!(counts, (1, 0));
    let counts = q.record_startup_attempt_at("b", false, 10, counts.0, counts.1);
    assert_eq!(counts, (1, 1));
    assert_eq!(q.size().unwrap(), 1);
}

#[test]
fn undelivered_messages_are_queued() {
    let mut q = MessageQueue::new().unwrap();
    let m = msg("x1", "bob");
    assert_eq!(complete_send_at(&mut q, &m, "text", Priority::Normal, true, 5).unwrap(), true);
    assert_eq!(q.size().unwrap(), 0);
    assert_eq!(complete_send_at(&mut q, &m, "text", Priority::Normal, false, 5).unwrap(), false);
    assert_eq!(q.size().unwrap(), 1);
    let d = delete_chat_message("bob", "me", 1234);
    assert_eq!(d.id, "delete_chat_bob_1234");
    assert!(d.content.is_empty());
    assert_eq!(d.recipient, "bob");
}

#[test]
fn request_log_cutoffs() {
    assert_eq!(request_log_cutoff(1_000_000_000, 1), Some(1_000_000_000 - 86_400_000));
    assert_eq!(request_log_cutoff(0, i64::MAX), None);
}

#[test]
fn uid_of_contact_matches_uid_of_key() {
    let kp = KeyPair::generate().unwrap();
    assert_eq!(UID::from_public_key(&kp.public_key).as_str(), kp.uid.as_str());
}

#[test]
fn queue_entries_restore_in_order() {
    let mut q = MessageQueue::new().unwrap();
    q.enqueue_at(msg("a", "x"), Priority::Low, 10).unwrap();
    q.enqueue_at(msg("b", "y"), Priority::High, 20).unwrap();
    let saved = q.entries().clone();
    let mut r = MessageQueue::new().unwrap();
    for e in saved.iter() {
        r.restore(e.clone()).unwrap();
    }
    let ids: Vec<String> = r.list().iter().map(|m| m.message.id.clone()).collect();
    assert_eq!(ids, vec!["b", "a"]);
    match r.restore(saved[0].clone()) {
        Err(Error::Database(m)) => assert_eq!(m, "UNIQUE constraint failed: message_queue.message_id"),
        other => panic!("unexpected {:?}", other),
    }
    assert!(r.dequeue_at(5).unwrap().is_none());
    assert_eq!(r.size().unwrap(), 2);
    assert_eq!(r.max_retries(), 5);
    assert_eq!(r.base_delay_ms(), 1000);
}

#[test]
fn queue_retries_at_the_current_time() {
    let mut q = MessageQueue::new().unwrap();
    q.enqueue(msg("a", "x"), Priority::Normal).unwrap();
    q.enqueue(msg("b", "x"), Priority::Normal).unwrap();
    q.schedule_retry("a", 60_000).unwrap();
    let a = q.list().into_iter().find(|m| m.message.id == "a").unwrap();
    assert_eq!(a.attempts, 1);
    assert!(a.next_retry > 60_000);
    assert_eq!(q.record_startup_attempt("b", false, 0, 0), (0, 1));
    assert_eq!(q.record_startup_attempt("a", true, 0, 1), (1, 1));
    assert_eq!(q.record_startup_attempt("gone", true, 1, 1), (1, 1));
    let b = &q.list()[0];
    assert_eq!(b.message.id, "b");
    assert_eq!(b.attempts, 1);
    match q.mark_failed("gone") {
        Err(Error::Database(m)) => assert_eq!(m, "Query returned no rows"),
        other => panic!("unexpected {:?}", other),
    }
    match q.schedule_retry("b", i64::MAX) {
        Err(Error::Queue(m)) => assert_eq!(m, "Retry delay out of range"),
        other => panic!("unexpected {:?}", other),
    }
}

#[test]
fn times_compare() {
    assert!(time(10, 1).is_after(&time(10, 0)));
    assert!(time(11, 0).is_after(&time(10, 999_999_999)));
    assert!(!time(10, 0).is_after(&time(10, 0)));
    assert!(UtcTime::from_parts(0, 1_000_000_000).is_none());
}

#[test]
fn startup_attempts_change_the_queue() {
    let mut q = MessageQueue::new().unwrap();
    q.enqueue_at(msg("a", "x"), Priority::Normal, 0).unwrap();
    q.enqueue_at(msg("b", "x"), Priority::Normal, 0).unwrap();
    q.record_startup_attempt_at("b", false, 100, 0, 0);
    let b = q.list().into_iter().find(|m| m.message.id == "b").unwrap();
    assert_eq!(b.attempts, 1);
    assert_eq!(b.next_retry, 100 + 2_000);
    q.record_startup_attempt("a", true, 0, 0);
    assert!(q.list().iter().all(|m| m.message.id != "a"));
    assert_eq!(q.max_retries(), 5);
    assert_eq!(q.base_delay_ms(), 1000);
    q.mark_failed("b").unwrap();
    assert_eq!(q.list()[0].attempts, 2);
    q.schedule_retry_global("b", 600_000).unwrap();
    assert_eq!(q.list()[0].attempts, 3);
}

#[test]
fn clock_readings_agree() {
    let before = pure2p::clock::now_millis();
    let now = UtcTime::now().unwrap();
    let after = pure2p::clock::now_millis();
    assert!(before <= now.timestamp_millis() && now.timestamp_millis() <= after);
    assert!(before > 1_600_000_000_000);
    let port = AppState::generate_random_port().unwrap();
    assert!(port >= 49152);
}

//! Messaging decisions: what a received message or a delete request does
//! to the local chats, and what follows a delivery attempt.
//!
//! Sending itself is network work; the functions here take its outcome and
//! decide the rest.

use vstd::prelude::*;
use crate::{Error, Result};
use crate::queue::{MessageQueue, Priority, holds_id, placed, fresh_entry, QueueEntry};
use crate::storage::app_state::{AppState, has_chat, first_chat};
use crate::storage::chat::Chat;
use crate::storage::message::{Message, DeliveryStatus};
use crate::text::{write_str, write_signed_decimal, signed_decimal};

verus! {

/// The chats that are not with the contact `uid`, in order.
pub open spec fn chats_without(s: Seq<Chat>, uid: Seq<char>) -> Seq<Chat>
    decreases s.len(),
{
    if s.len() == 0 {
        Seq::empty()
    } else {
        let rest = chats_without(s.drop_last(), uid);
        if s.last().contact_uid@ == uid {
            rest
        } else {
            rest.push(s.last())
        }
    }
}

/// Removes every chat with `sender_uid`; tells whether one was removed.
pub fn handle_delete_chat(app_state: &mut AppState, sender_uid: &str) -> (r: bool)
    ensures
        final(app_state).chats@ == chats_without(old(app_state).chats@, sender_uid@),
        final(app_state).same_but_chats(*old(app_state)),
        r == has_chat(old(app_state).chats@, sender_uid@),
{
    let wanted = sender_uid.to_owned();
    let mut rest: Vec<Chat> = Vec::new();
    std::mem::swap(&mut rest, &mut app_state.chats);
    let ghost orig = rest@;
    let n = rest.len();
    let mut kept: Vec<Chat> = Vec::new();
    let mut removed = false;
    let mut i: usize = 0;
    while i < n
        invariant
            n == orig.len(),
            i <= n,
            wanted@ == sender_uid@,
            rest@ == orig.subrange(i as int, n as int),
            kept@ == chats_without(orig.subrange(0, i as int), sender_uid@),
            removed == has_chat(orig.subrange(0, i as int), sender_uid@),
        decreases n - i,
    {
        let chat = rest.remove(0);
        proof {
            assert(chat == orig[i as int]);
            assert(orig.subrange(0, i as int + 1).drop_last() =~= orig.subrange(0, i as int));
            assert(orig.subrange(0, i as int + 1).last() == orig[i as int]);
            if has_chat(orig.subrange(0, i as int), sender_uid@) {
                let w = choose|w: int| 0 <= w < i && orig.subrange(0, i as int)[w].contact_uid@ == sender_uid@;
                assert(orig.subrange(0, i as int + 1)[w] == orig.subrange(0, i as int)[w]);
            }
            let sub1 = orig.subrange(0, i as int + 1);
            if has_chat(sub1, sender_uid@) && orig[i as int].contact_uid@ != sender_uid@ {
                let w = choose|w: int| 0 <= w < sub1.len() && sub1[w].contact_uid@ == sender_uid@;
                assert(orig.subrange(0, i as int)[w] == sub1[w]);
            }
            if orig[i as int].contact_uid@ == sender_uid@ {
                assert(orig.subrange(0, i as int + 1)[i as int] == orig[i as int]);
            }
        }
        if chat.contact_uid == wanted {
            removed = true;
        } else {
            kept.push(chat);
        }
        i = i + 1;
        proof {
            assert(rest@ =~= orig.subrange(i as int, n as int));
        }
    }
    proof {
        assert(orig.subrange(0, n as int) =~= orig);
    }
    app_state.chats = kept;
    removed
}

/// Whether `m` is a received message: the given fields, delivered, and
/// otherwise fresh.
pub open spec fn received(m: Message, id: Seq<char>, sender: Seq<char>, recipient: Seq<char>, content: Seq<u8>, timestamp: i64) -> bool {
    &&& m.id@ == id
    &&& m.sender@ == sender
    &&& m.recipient@ == recipient
    &&& m.content@ == content
    &&& m.timestamp == timestamp
    &&& m.delivered
    &&& m.delivery_status == DeliveryStatus::Sent
    &&& m.next_retry_at is None
    &&& m.attempts == 0
}

/// Files a received message in the chat with its sender (created when
/// missing) and marks that chat active.
pub fn handle_incoming_message(
    app_state: &mut AppState,
    sender_uid: &str,
    recipient_uid: &str,
    message_id: &str,
    content: Vec<u8>,
    timestamp: i64,
)
    ensures
        final(app_state).same_but_chats(*old(app_state)),
        has_chat(old(app_state).chats@, sender_uid@) ==> exists|i: int|
            first_chat(old(app_state).chats@, sender_uid@, i)
            && final(app_state).chats@.len() == old(app_state).chats@.len()
            && (forall|j: int| 0 <= j < old(app_state).chats@.len() && j != i
                ==> #[trigger] final(app_state).chats@[j] == old(app_state).chats@[j])
            && received_into(old(app_state).chats@[i], final(app_state).chats@[i],
                message_id@, sender_uid@, recipient_uid@, content@, timestamp),
        !has_chat(old(app_state).chats@, sender_uid@) ==> {
            &&& final(app_state).chats@.len() == old(app_state).chats@.len() + 1
            &&& forall|j: int| 0 <= j < old(app_state).chats@.len()
                ==> #[trigger] final(app_state).chats@[j] == old(app_state).chats@[j]
            &&& final(app_state).chats@.last().contact_uid@ == sender_uid@
            &&& final(app_state).chats@.last().messages@.len() == 1
            &&& received(final(app_state).chats@.last().messages@[0], message_id@, sender_uid@,
                recipient_uid@, content@, timestamp)
            &&& final(app_state).chats@.last().is_active
            &&& !final(app_state).chats@.last().has_pending_messages
        },
{
    let chat = app_state.get_or_create_chat(sender_uid);
    let ghost before = *chat;
    let mut message = Message::new(
        message_id.to_owned(),
        sender_uid.to_owned(),
        recipient_uid.to_owned(),
        content,
        timestamp,
    );
    message.delivered = true;
    chat.append_message(message);
    chat.mark_unread();
    assert(chat.messages@.drop_last() =~= before.messages@);
}

/// Whether `after` is `before` with a received message appended, marked active.
pub open spec fn received_into(before: Chat, after: Chat, id: Seq<char>, sender: Seq<char>, recipient: Seq<char>, content: Seq<u8>, timestamp: i64) -> bool {
    &&& after.contact_uid == before.contact_uid
    &&& after.has_pending_messages == before.has_pending_messages
    &&& after.is_active
    &&& after.messages@.len() == before.messages@.len() + 1
    &&& after.messages@.drop_last() == before.messages@
    &&& received(after.messages@.last(), id, sender, recipient, content, timestamp)
}

/// Makes sure a chat with the contact exists and marks it active.
pub fn create_active_chat(app_state: &mut AppState, contact_uid: &str)
    ensures
        final(app_state).same_but_chats(*old(app_state)),
        has_chat(old(app_state).chats@, contact_uid@) ==> exists|i: int|
            first_chat(old(app_state).chats@, contact_uid@, i)
            && final(app_state).chats@ == old(app_state).chats@.update(i, final(app_state).chats@[i])
            && final(app_state).chats@[i].is_active
            && final(app_state).chats@[i].same_but_active(old(app_state).chats@[i]),
        !has_chat(old(app_state).chats@, contact_uid@) ==> {
            &&& final(app_state).chats@.drop_last() == old(app_state).chats@
            &&& final(app_state).chats@.len() == old(app_state).chats@.len() + 1
            &&& final(app_state).chats@.last().contact_uid@ == contact_uid@
            &&& final(app_state).chats@.last().messages@.len() == 0
            &&& final(app_state).chats@.last().is_active
            &&& !final(app_state).chats@.last().has_pending_messages
        },
{
    let chat = app_state.get_or_create_chat(contact_uid);
    chat.mark_unread();
}

/// Makes sure a chat with the contact exists and marks it inactive.
pub fn create_inactive_chat(app_state: &mut AppState, contact_uid: &str)
    ensures
        final(app_state).same_but_chats(*old(app_state)),
        has_chat(old(app_state).chats@, contact_uid@) ==> exists|i: int|
            first_chat(old(app_state).chats@, contact_uid@, i)
            && final(app_state).chats@ == old(app_state).chats@.update(i, final(app_state).chats@[i])
            && !final(app_state).chats@[i].is_active
            && final(app_state).chats@[i].same_but_active(old(app_state).chats@[i]),
        !has_chat(old(app_state).chats@, contact_uid@) ==> {
            &&& final(app_state).chats@.drop_last() == old(app_state).chats@
            &&& final(app_state).chats@.len() == old(app_state).chats@.len() + 1
            &&& final(app_state).chats@.last().contact_uid@ == contact_uid@
            &&& final(app_state).chats@.last().messages@.len() == 0
            &&& !final(app_state).chats@.last().is_active
            &&& !final(app_state).chats@.last().has_pending_messages
        },
{
    let chat = app_state.get_or_create_chat(contact_uid);
    chat.mark_read();
}

/// Deletes the chat with the contact at once, when it is inactive.
///
/// An active chat is refused: it is deleted with a notification to the
/// contact instead. A missing chat gives `Ok(false)`.
pub fn delete_inactive_chat_immediate(app_state: &mut AppState, contact_uid: &str) -> (r: Result<bool>)
    ensures
        !has_chat(old(app_state).chats@, contact_uid@) ==> r == Ok::<bool, Error>(false)
            && *final(app_state) == *old(app_state),
        has_chat(old(app_state).chats@, contact_uid@) ==> exists|i: int|
            first_chat(old(app_state).chats@, contact_uid@, i) && {
                if old(app_state).chats@[i].is_active {
                    &&& r matches Err(Error::Storage(m))
                    &&& m@ == "Cannot delete active chat immediately: "@ + contact_uid@
                        + ". Use delete_chat() instead."@
                    &&& *final(app_state) == *old(app_state)
                } else {
                    &&& r == Ok::<bool, Error>(true)
                    &&& final(app_state).chats@ == chats_without(old(app_state).chats@, contact_uid@)
                    &&& final(app_state).same_but_chats(*old(app_state))
                }
            },
{
    match app_state.get_chat(contact_uid) {
        Some(chat) => {
            if chat.is_active {
                let mut m = String::new();
                write_str(&mut m, "Cannot delete active chat immediately: ");
                write_str(&mut m, contact_uid);
                write_str(&mut m, ". Use delete_chat() instead.");
                proof {
                    reveal_strlit("Cannot delete active chat immediately: ");
                    reveal_strlit(". Use delete_chat() instead.");
                }
                return Err(Error::Storage(m));
            }
        },
        None => return Ok(false),
    }
    let deleted = handle_delete_chat(app_state, contact_uid);
    Ok(deleted)
}

/// What deleting the chat with a contact calls for: nothing when there is
/// no chat (`None`), a notification to the contact first when the chat is
/// active (`Some(true)`), a local deletion only otherwise (`Some(false)`).
pub fn delete_chat_plan(app_state: &AppState, contact_uid: &str) -> (r: Option<bool>)
    ensures
        !has_chat(app_state.chats@, contact_uid@) ==> r is None,
        has_chat(app_state.chats@, contact_uid@) ==> exists|i: int|
            first_chat(app_state.chats@, contact_uid@, i) && r == Some(app_state.chats@[i].is_active),
{
    match app_state.get_chat(contact_uid) {
        Some(chat) => Some(chat.is_active),
        None => None,
    }
}

/// The message that asks a contact to delete the chat: identifier
/// `delete_chat_<contact>_<timestamp>`, empty content.
pub fn delete_chat_message(contact_uid: &str, local_uid: &str, timestamp: i64) -> (r: Message)
    ensures
        r.is_fresh("delete_chat_"@ + contact_uid@ + "_"@ + signed_decimal(timestamp as int),
            local_uid@, contact_uid@, Seq::empty(), timestamp),
{
    let mut id = String::new();
    write_str(&mut id, "delete_chat_");
    write_str(&mut id, contact_uid);
    write_str(&mut id, "_");
    write_signed_decimal(&mut id, timestamp);
    Message::new(id, local_uid.to_owned(), contact_uid.to_owned(), Vec::new(), timestamp)
}

/// What follows a delivery attempt of `message` at `now`: a delivered
/// message gives `Ok(true)`; an undelivered one is queued with its kind and
/// priority, and gives `Ok(false)`.
pub fn complete_send_at(
    queue: &mut MessageQueue,
    message: &Message,
    message_type: &str,
    priority: Priority,
    delivered: bool,
    now: i64,
) -> (r: Result<bool>)
    requires
        old(queue).wf(),
    ensures
        final(queue).wf(),
        delivered ==> r == Ok::<bool, Error>(true) && final(queue)@ == old(queue)@,
        !delivered && holds_id(old(queue)@, message.id@) ==> (r matches Err(Error::Database(m))
            && m@ == "UNIQUE constraint failed: message_queue.message_id"@) && final(queue)@ == old(queue)@,
        !delivered && !holds_id(old(queue)@, message.id@) ==> r == Ok::<bool, Error>(false)
            && exists|e: QueueEntry| fresh_entry(e, *message, priority, message_type@, now)
                && placed(old(queue)@, e, final(queue)@),
{
    if delivered {
        return Ok(true);
    }
    let copy = Message {
        id: message.id.clone(),
        sender: message.sender.clone(),
        recipient: message.recipient.clone(),
        content: crate::connectivity::ip::copy_bytes(message.content.as_slice()),
        timestamp: message.timestamp,
        delivered: message.delivered,
        delivery_status: message.delivery_status,
        next_retry_at: message.next_retry_at,
        attempts: message.attempts,
    };
    let ghost c = copy;
    let ghost q0 = queue@;
    match queue.enqueue_with_type_at(copy, priority, message_type, now) {
        Ok(()) => {
            proof {
                let e0 = choose|e: QueueEntry| fresh_entry(e, c, priority, message_type@, now)
                    && placed(q0, e, queue@);
                assert(fresh_entry(e0, *message, priority, message_type@, now));
            }
            Ok(false)
        },
        Err(e) => Err(e),
    }
}

/// What follows a ping of a contact: the chat with the contact (created
/// when missing) is marked active when the contact answered, inactive
/// otherwise; gives whether it answered.
pub fn complete_ping(app_state: &mut AppState, contact_uid: &str, answered: bool) -> (r: Result<bool>)
    ensures
        r == Ok::<bool, Error>(answered),
        final(app_state).same_but_chats(*old(app_state)),
        has_chat(old(app_state).chats@, contact_uid@) ==> exists|i: int|
            first_chat(old(app_state).chats@, contact_uid@, i)
            && final(app_state).chats@ == old(app_state).chats@.update(i, final(app_state).chats@[i])
            && final(app_state).chats@[i].is_active == answered
            && final(app_state).chats@[i].same_but_active(old(app_state).chats@[i]),
        !has_chat(old(app_state).chats@, contact_uid@) ==> {
            &&& final(app_state).chats@.drop_last() == old(app_state).chats@
            &&& final(app_state).chats@.len() == old(app_state).chats@.len() + 1
            &&& final(app_state).chats@.last().contact_uid@ == contact_uid@
            &&& final(app_state).chats@.last().messages@.len() == 0
            &&& final(app_state).chats@.last().is_active == answered
            &&& !final(app_state).chats@.last().has_pending_messages
        },
{
    if answered {
        create_active_chat(app_state, contact_uid);
    } else {
        create_inactive_chat(app_state, contact_uid);
    }
    Ok(answered)
}

} // verus!

//! Conversations with a contact.

use vstd::prelude::*;
use crate::storage::message::Message;

verus! {

/// A conversation with one contact.
#[derive(Debug, Clone)]
pub struct Chat {
    /// Identifier of the contact.
    pub contact_uid: String,
    /// Messages, oldest first.
    pub messages: Vec<Message>,
    /// Whether the chat is active (has unread activity).
    pub is_active: bool,
    /// Whether messages to the contact wait in the queue.
    pub has_pending_messages: bool,
}

impl Chat {
    /// Whether two chats differ at most in the active flag.
    pub open spec fn same_but_active(self, other: Chat) -> bool {
        &&& self.contact_uid == other.contact_uid
        &&& self.messages == other.messages
        &&& self.has_pending_messages == other.has_pending_messages
    }

    /// Whether two chats differ at most in the pending flag.
    pub open spec fn same_but_pending(self, other: Chat) -> bool {
        &&& self.contact_uid == other.contact_uid
        &&& self.messages == other.messages
        &&& self.is_active == other.is_active
    }

    /// A new, empty, inactive chat with no pending messages.
    pub fn new(contact_uid: String) -> (r: Self)
        ensures
            r.contact_uid@ == contact_uid@,
            r.messages@.len() == 0,
            !r.is_active,
            !r.has_pending_messages,
    {
        Chat { contact_uid, messages: Vec::new(), is_active: false, has_pending_messages: false }
    }

    /// Appends a message at the end of the history.
    pub fn append_message(&mut self, msg: Message)
        ensures
            final(self).messages@ == old(self).messages@.push(msg),
            final(self).contact_uid == old(self).contact_uid,
            final(self).is_active == old(self).is_active,
            final(self).has_pending_messages == old(self).has_pending_messages,
    {
        self.messages.push(msg);
    }

    /// Marks the chat active.
    pub fn mark_unread(&mut self)
        ensures
            final(self).is_active,
            final(self).same_but_active(*old(self)),
    {
        self.is_active = true;
    }

    /// Marks the chat inactive.
    pub fn mark_read(&mut self)
        ensures
            !final(self).is_active,
            final(self).same_but_active(*old(self)),
    {
        self.is_active = false;
    }

    /// Records that messages to the contact wait in the queue.
    pub fn mark_has_pending(&mut self)
        ensures
            final(self).has_pending_messages,
            final(self).same_but_pending(*old(self)),
    {
        self.has_pending_messages = true;
    }

    /// Records that no messages to the contact wait in the queue.
    pub fn mark_no_pending(&mut self)
        ensures
            !final(self).has_pending_messages,
            final(self).same_but_pending(*old(self)),
    {
        self.has_pending_messages = false;
    }

    /// Whether messages to the contact wait in the queue.
    pub fn has_pending(&self) -> (r: bool)
        ensures
            r == self.has_pending_messages,
    {
        self.has_pending_messages
    }
}

} // verus!

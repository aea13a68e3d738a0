//! The application state: identity, contacts, chats and settings.

use vstd::prelude::*;
use crate::crypto::KeyPair;
use crate::storage::chat::Chat;
use crate::storage::contact::Contact;
use crate::storage::settings::Settings;
use rand::{Rng, SeedableRng};
use crate::{Error, Result};
use crate::crypto::{crypto_error, rng_failure};

verus! {

/// Trusted: `rand::rngs::StdRng::from_rng(OsRng)` seeded from the operating
/// system's generator, then `gen_range(lo..=hi)`: a number in the range, as
/// rand documents, or `None` when the seeding fails.
#[verifier::external_body]
fn random_u16_in(lo: u16, hi: u16) -> (r: Option<u16>)
    requires
        lo <= hi,
    ensures
        r matches Some(v) ==> lo <= v <= hi,
{
    match rand::rngs::StdRng::from_rng(rand::rngs::OsRng) {
        Ok(mut rng) => Some(rng.gen_range(lo..=hi)),
        Err(_) => None,
    }
}

/// The application state.
#[derive(Debug, Clone)]
pub struct AppState {
    /// The user's identity, once generated.
    pub user_keypair: Option<KeyPair>,
    /// The user's address, once detected.
    pub user_ip: Option<String>,
    /// The user's listening port.
    pub user_port: u16,
    /// Known contacts.
    pub contacts: Vec<Contact>,
    /// Conversations.
    pub chats: Vec<Chat>,
    /// Identifiers of queued messages.
    pub message_queue: Vec<String>,
    /// Settings.
    pub settings: Settings,
}

/// Whether the chat at `i` is the first one with the contact `uid`.
pub open spec fn first_chat(chats: Seq<Chat>, uid: Seq<char>, i: int) -> bool {
    &&& 0 <= i < chats.len()
    &&& chats[i].contact_uid@ == uid
    &&& forall|j: int| 0 <= j < i ==> chats[j].contact_uid@ != uid
}

/// Whether some chat is with the contact `uid`.
pub open spec fn has_chat(chats: Seq<Chat>, uid: Seq<char>) -> bool {
    exists|i: int| 0 <= i < chats.len() && chats[i].contact_uid@ == uid
}

impl AppState {
    /// Whether two states differ at most in their chats.
    pub open spec fn same_but_chats(self, other: AppState) -> bool {
        &&& self.user_keypair == other.user_keypair
        &&& self.user_ip == other.user_ip
        &&& self.user_port == other.user_port
        &&& self.contacts == other.contacts
        &&& self.message_queue == other.message_queue
        &&& self.settings == other.settings
    }

    /// A random port in the IANA dynamic range 49152-65535; fails when the
    /// operating system's generator does.
    pub fn generate_random_port() -> (r: Result<u16>)
        ensures
            r matches Ok(p) ==> 49152 <= p <= 65535,
            r is Err ==> rng_failure(r),
    {
        match random_u16_in(49152, 65535) {
            Some(p) => Ok(p),
            None => Err(crypto_error("Random number generator failed")),
        }
    }

    /// A fresh state: no identity or address, a random port, nothing stored,
    /// default settings; fails when the operating system's generator does.
    pub fn new() -> (r: Result<Self>)
        ensures
            r is Err ==> rng_failure(r),
            r matches Ok(a) ==> {
                &&& a.user_keypair is None
                &&& a.user_ip is None
                &&& 49152 <= a.user_port
                &&& a.contacts@.len() == 0
                &&& a.chats@.len() == 0
                &&& a.message_queue@.len() == 0
                &&& a.settings.default_contact_expiry_days == 30
                &&& a.settings.max_message_retries == 5
                &&& a.settings.global_retry_interval_ms == 600_000
                &&& a.settings.retry_interval_minutes == 10
            },
    {
        let user_port = match Self::generate_random_port() {
            Ok(p) => p,
            Err(e) => return Err(e),
        };
        Ok(AppState {
            user_keypair: None,
            user_ip: None,
            user_port,
            contacts: Vec::new(),
            chats: Vec::new(),
            message_queue: Vec::new(),
            settings: Settings::default(),
        })
    }

    /// Marks each chat as having pending messages exactly when its contact
    /// is among `pending_uids`.
    pub fn sync_pending_status(&mut self, pending_uids: &Vec<String>)
        ensures
            final(self).same_but_chats(*old(self)),
            final(self).chats@.len() == old(self).chats@.len(),
            forall|i: int| 0 <= i < final(self).chats@.len() ==> {
                &&& #[trigger] final(self).chats@[i].same_but_pending(old(self).chats@[i])
                &&& final(self).chats@[i].has_pending_messages
                    == exists|k: int| 0 <= k < pending_uids@.len()
                        && pending_uids@[k]@ == old(self).chats@[i].contact_uid@
            },
    {
        let mut rest: Vec<Chat> = Vec::new();
        std::mem::swap(&mut rest, &mut self.chats);
        let ghost orig = rest@;
        let n = rest.len();
        let mut done: Vec<Chat> = Vec::new();
        let mut i: usize = 0;
        while i < n
            invariant
                n == orig.len(),
                i <= n,
                rest@ == orig.subrange(i as int, n as int),
                done@.len() == i,
                forall|j: int| 0 <= j < i ==> {
                    &&& #[trigger] done@[j].same_but_pending(orig[j])
                    &&& done@[j].has_pending_messages
                        == exists|k: int| 0 <= k < pending_uids@.len()
                            && pending_uids@[k]@ == orig[j].contact_uid@
                },
            decreases n - i,
        {
            let mut chat = rest.remove(0);
            assert(chat == orig[i as int]);
            let mut found = false;
            let mut k: usize = 0;
            while k < pending_uids.len()
                invariant
                    k <= pending_uids@.len(),
                    found == exists|q: int| 0 <= q < k && pending_uids@[q]@ == chat.contact_uid@,
                decreases pending_uids@.len() - k,
            {
                if pending_uids[k] == chat.contact_uid {
                    found = true;
                }
                k = k + 1;
            }
            if found {
                chat.mark_has_pending();
            } else {
                chat.mark_no_pending();
            }
            done.push(chat);
            i = i + 1;
            assert(rest@ =~= orig.subrange(i as int, n as int));
        }
        self.chats = done;
    }

    /// Position of the first chat with the contact `uid`.
    fn find_chat(&self, contact_uid: &str) -> (r: Option<usize>)
        ensures
            match r {
                Some(i) => first_chat(self.chats@, contact_uid@, i as int),
                None => !has_chat(self.chats@, contact_uid@),
            },
    {
        let wanted = contact_uid.to_owned();
        let mut i: usize = 0;
        while i < self.chats.len()
            invariant
                i <= self.chats@.len(),
                wanted@ == contact_uid@,
                forall|j: int| 0 <= j < i ==> self.chats@[j].contact_uid@ != contact_uid@,
            decreases self.chats@.len() - i,
        {
            if self.chats[i].contact_uid == wanted {
                return Some(i);
            }
            i = i + 1;
        }
        None
    }

    /// The first chat with the contact `uid`.
    pub fn get_chat(&self, contact_uid: &str) -> (r: Option<&Chat>)
        ensures
            match r {
                Some(c) => exists|i: int| first_chat(self.chats@, contact_uid@, i) && *c == self.chats@[i],
                None => !has_chat(self.chats@, contact_uid@),
            },
    {
        match self.find_chat(contact_uid) {
            Some(i) => Some(&self.chats[i]),
            None => None,
        }
    }

    /// The first chat with the contact `uid`, to change it.
    pub fn get_chat_mut(&mut self, contact_uid: &str) -> (r: Option<&mut Chat>)
        ensures
            match r {
                Some(c) => exists|i: int| first_chat(old(self).chats@, contact_uid@, i)
                    && *c == old(self).chats@[i]
                    && final(self).chats@ == old(self).chats@.update(i, *final(c)),
                None => !has_chat(old(self).chats@, contact_uid@) && *final(self) == *old(self),
            },
            final(self).same_but_chats(*old(self)),
    {
        match self.find_chat(contact_uid) {
            Some(i) => Some(&mut self.chats[i]),
            None => None,
        }
    }

    /// Adds a new chat with the contact `uid` at the end, and gives it.
    pub fn add_chat(&mut self, contact_uid: String) -> (r: &mut Chat)
        ensures
            r.contact_uid@ == contact_uid@,
            r.messages@.len() == 0,
            !r.is_active,
            !r.has_pending_messages,
            final(self).chats@ == old(self).chats@.push(*final(r)),
            final(self).same_but_chats(*old(self)),
    {
        self.chats.push(Chat::new(contact_uid));
        let last = self.chats.len() - 1;
        &mut self.chats[last]
    }

    /// The first chat with the contact `uid`; a new one at the end when
    /// there is none.
    pub fn get_or_create_chat(&mut self, contact_uid: &str) -> (r: &mut Chat)
        ensures
            has_chat(old(self).chats@, contact_uid@) ==> exists|i: int|
                first_chat(old(self).chats@, contact_uid@, i) && *r == old(self).chats@[i]
                && final(self).chats@ == old(self).chats@.update(i, *final(r)),
            !has_chat(old(self).chats@, contact_uid@) ==> {
                &&& r.contact_uid@ == contact_uid@
                &&& r.messages@.len() == 0
                &&& !r.is_active
                &&& !r.has_pending_messages
                &&& final(self).chats@ == old(self).chats@.push(*final(r))
            },
            final(self).same_but_chats(*old(self)),
    {
        match self.find_chat(contact_uid) {
            Some(i) => &mut self.chats[i],
            None => self.add_chat(contact_uid.to_owned()),
        }
    }
}

} // verus!

//! Messages and their delivery status.

use vstd::prelude::*;
use crate::clock::{now_millis, clock_range};
use crate::text::{write_str, write_decimal, write_signed_decimal, decimal, signed_decimal};

verus! {

/// Where a message stands in its delivery.
#[derive(Debug, Clone, Copy, PartialEq, Eq, Structural)]
pub enum DeliveryStatus {
    /// Sent, not yet confirmed.
    Sent,
    /// Confirmed delivered.
    Delivered,
    /// Waiting for a retry.
    Pending,
    /// Given up.
    Failed,
}

impl Default for DeliveryStatus {
    fn default() -> (r: Self)
        ensures
            r == DeliveryStatus::Sent,
    {
        DeliveryStatus::Sent
    }
}

/// A message of a conversation.
#[derive(Debug, Clone)]
pub struct Message {
    /// Unique message identifier.
    pub id: String,
    /// Sender's identifier.
    pub sender: String,
    /// Recipient's identifier.
    pub recipient: String,
    /// Content bytes.
    pub content: Vec<u8>,
    /// Creation time in Unix milliseconds.
    pub timestamp: i64,
    /// Whether the message was delivered.
    pub delivered: bool,
    /// Delivery status.
    pub delivery_status: DeliveryStatus,
    /// When the next retry is due, in Unix milliseconds.
    pub next_retry_at: Option<i64>,
    /// Number of delivery attempts.
    pub attempts: u32,
}

/// Seconds until a retry due at `retry_at`, seen at `now`: the difference
/// in whole seconds, and zero once the time has passed.
pub open spec fn seconds_until(retry_at: i64, now: i64) -> int {
    if retry_at - now >= 0 {
        (retry_at - now) / 1000
    } else {
        0
    }
}

/// The text of a retry delay: hours and minutes from an hour on, minutes
/// from a minute on, seconds below.
pub open spec fn retry_time_text(seconds: int) -> Seq<char> {
    if seconds >= 3600 {
        decimal((seconds / 3600) as nat) + "h "@ + decimal(((seconds % 3600) / 60) as nat) + "m"@
    } else if seconds >= 60 {
        decimal((seconds / 60) as nat) + "m"@
    } else {
        signed_decimal(seconds) + "s"@
    }
}

impl Message {
    /// Whether the message carries the given fields and is fresh: sent, not
    /// delivered, no retry due, no attempts.
    pub open spec fn is_fresh(self, id: Seq<char>, sender: Seq<char>, recipient: Seq<char>, content: Seq<u8>, timestamp: i64) -> bool {
        &&& self.id@ == id
        &&& self.sender@ == sender
        &&& self.recipient@ == recipient
        &&& self.content@ == content
        &&& self.timestamp == timestamp
        &&& !self.delivered
        &&& self.delivery_status == DeliveryStatus::Sent
        &&& self.next_retry_at is None
        &&& self.attempts == 0
    }

    /// Whether two messages carry the same identity, parties, content and time.
    pub open spec fn same_content(self, other: Message) -> bool {
        &&& self.id@ == other.id@
        &&& self.sender@ == other.sender@
        &&& self.recipient@ == other.recipient@
        &&& self.content@ == other.content@
        &&& self.timestamp == other.timestamp
    }

    /// A new message, sent and not yet delivered.
    pub fn new(id: String, sender: String, recipient: String, content: Vec<u8>, timestamp: i64) -> (r: Self)
        ensures
            r.is_fresh(id@, sender@, recipient@, content@, timestamp),
    {
        Message {
            id,
            sender,
            recipient,
            content,
            timestamp,
            delivered: false,
            delivery_status: DeliveryStatus::Sent,
            next_retry_at: None,
            attempts: 0,
        }
    }

    /// Marks the message delivered.
    pub fn mark_delivered(&mut self)
        ensures
            final(self).same_content(*old(self)),
            final(self).delivered,
            final(self).delivery_status == DeliveryStatus::Delivered,
            final(self).next_retry_at is None,
            final(self).attempts == old(self).attempts,
    {
        self.delivered = true;
        self.delivery_status = DeliveryStatus::Delivered;
        self.next_retry_at = None;
    }

    /// Marks the message pending, with a retry due at `next_retry_at`, and
    /// counts the attempt.
    pub fn mark_pending(&mut self, next_retry_at: i64)
        requires
            old(self).attempts < u32::MAX,
        ensures
            final(self).same_content(*old(self)),
            final(self).delivered == old(self).delivered,
            final(self).delivery_status == DeliveryStatus::Pending,
            final(self).next_retry_at == Some(next_retry_at),
            final(self).attempts == old(self).attempts + 1,
    {
        self.delivery_status = DeliveryStatus::Pending;
        self.next_retry_at = Some(next_retry_at);
        self.attempts = self.attempts + 1;
    }

    /// Marks the message failed.
    pub fn mark_failed(&mut self)
        ensures
            final(self).same_content(*old(self)),
            final(self).delivered == old(self).delivered,
            final(self).delivery_status == DeliveryStatus::Failed,
            final(self).next_retry_at is None,
            final(self).attempts == old(self).attempts,
    {
        self.delivery_status = DeliveryStatus::Failed;
        self.next_retry_at = None;
    }

    /// Seconds until the next retry, seen at `now` (Unix milliseconds).
    pub fn time_until_retry_at(&self, now: i64) -> (r: Option<i64>)
        ensures
            match self.next_retry_at {
                Some(t) => r == Some(seconds_until(t, now) as i64),
                None => r is None,
            },
    {
        match self.next_retry_at {
            Some(retry_at) => {
                let diff: i128 = retry_at as i128 - now as i128;
                if diff >= 0 {
                    Some((diff / 1000) as i64)
                } else {
                    Some(0)
                }
            },
            None => None,
        }
    }

    /// Seconds until the next retry, now.
    pub fn time_until_retry(&self) -> (r: Option<i64>)
        ensures
            match self.next_retry_at {
                Some(t) => exists|now: i64| clock_range(now as int) && r == Some(seconds_until(t, now) as i64),
                None => r is None,
            },
    {
        self.time_until_retry_at(now_millis())
    }

    /// A one-character mark of the delivery status.
    pub fn status_indicator(&self) -> (r: &str)
        ensures
            r@ == status_mark(self.delivery_status),
    {
        match self.delivery_status {
            DeliveryStatus::Sent => "✓",
            DeliveryStatus::Delivered => "✓✓",
            DeliveryStatus::Pending => "↻",
            DeliveryStatus::Failed => "✗",
        }
    }

    /// The delivery status as text, seen at `now` (Unix milliseconds).
    pub fn status_text_at(&self, now: i64) -> (r: String)
        ensures
            r@ == status_words(self.delivery_status, self.next_retry_at, now),
    {
        match self.delivery_status {
            DeliveryStatus::Sent => "sent".to_owned(),
            DeliveryStatus::Delivered => "delivered".to_owned(),
            DeliveryStatus::Pending => {
                match self.time_until_retry_at(now) {
                    Some(seconds) => {
                        let mut s = String::new();
                        write_str(&mut s, "retry in ");
                        let t = format_retry_time(seconds);
                        write_str(&mut s, t.as_str());
                        s
                    },
                    None => "pending".to_owned(),
                }
            },
            DeliveryStatus::Failed => "failed".to_owned(),
        }
    }

    /// The delivery status as text, now.
    pub fn status_text(&self) -> (r: String)
        ensures
            exists|now: i64| clock_range(now as int) && r@ == status_words(self.delivery_status, self.next_retry_at, now),
    {
        self.status_text_at(now_millis())
    }
}

/// The mark of a delivery status.
pub open spec fn status_mark(s: DeliveryStatus) -> Seq<char> {
    match s {
        DeliveryStatus::Sent => "✓"@,
        DeliveryStatus::Delivered => "✓✓"@,
        DeliveryStatus::Pending => "↻"@,
        DeliveryStatus::Failed => "✗"@,
    }
}

/// The words of a delivery status at `now`.
pub open spec fn status_words(s: DeliveryStatus, next_retry_at: Option<i64>, now: i64) -> Seq<char> {
    match s {
        DeliveryStatus::Sent => "sent"@,
        DeliveryStatus::Delivered => "delivered"@,
        DeliveryStatus::Pending => match next_retry_at {
            Some(t) => "retry in "@ + retry_time_text(seconds_until(t, now)),
            None => "pending"@,
        },
        DeliveryStatus::Failed => "failed"@,
    }
}

/// The text of a retry delay in seconds.
pub fn format_retry_time(seconds: i64) -> (r: String)
    ensures
        r@ == retry_time_text(seconds as int),
{
    let mut s = String::new();
    if seconds >= 3600 {
        write_decimal(&mut s, (seconds / 3600) as u64);
        write_str(&mut s, "h ");
        write_decimal(&mut s, ((seconds % 3600) / 60) as u64);
        write_str(&mut s, "m");
    } else if seconds >= 60 {
        write_decimal(&mut s, (seconds / 60) as u64);
        write_str(&mut s, "m");
    } else {
        write_signed_decimal(&mut s, seconds);
        write_str(&mut s, "s");
    }
    s
}

} // verus!

//! The outgoing message queue: priorities, retry with exponential backoff,
//! and the order in which queued messages are tried.
//!
//! The queue holds one entry per message identifier, ordered by priority
//! (highest first) and then by the time of the next retry (earliest first);
//! an entry goes after those it ties with.

use vstd::prelude::*;
use crate::{Error, Result};
use crate::storage::message::Message;
use crate::clock::{now_millis, clock_range};
use crate::text::write_str;

verus! {

/// Priority of a queued message.
#[derive(Debug, Clone, Copy, PartialEq, Eq, Structural, PartialOrd, Ord)]
pub enum Priority {
    /// Lowest.
    Low,
    /// Default.
    Normal,
    /// Raised.
    High,
    /// Highest.
    Urgent,
}

/// The stored number of a priority.
pub open spec fn priority_value(p: Priority) -> i64 {
    match p {
        Priority::Low => 0,
        Priority::Normal => 1,
        Priority::High => 2,
        Priority::Urgent => 3,
    }
}

impl Priority {
    /// The priority stored as `value`, if any.
    pub fn from_i64(value: i64) -> (r: Option<Priority>)
        ensures
            0 <= value <= 3 ==> (r matches Some(p) && priority_value(p) == value),
            !(0 <= value <= 3) ==> r is None,
    {
        if value == 0 {
            Some(Priority::Low)
        } else if value == 1 {
            Some(Priority::Normal)
        } else if value == 2 {
            Some(Priority::High)
        } else if value == 3 {
            Some(Priority::Urgent)
        } else {
            None
        }
    }

    /// The stored number of the priority.
    pub fn value(&self) -> (r: i64)
        ensures
            r == priority_value(*self),
            *self is Urgent ==> r == 3,
            *self is High ==> r == 2,
            *self is Normal ==> r == 1,
            *self is Low ==> r == 0,
    {
        match self {
            Priority::Low => 0,
            Priority::Normal => 1,
            Priority::High => 2,
            Priority::Urgent => 3,
        }
    }
}

/// A queued message as the queue hands it out.
#[derive(Debug, Clone)]
pub struct QueuedMessage {
    /// The message.
    pub message: Message,
    /// Its priority.
    pub priority: Priority,
    /// Delivery attempts so far.
    pub attempts: u32,
    /// When the next retry is due, in Unix milliseconds.
    pub next_retry: i64,
}

/// An entry of the queue.
#[derive(Debug, Clone)]
pub struct QueueEntry {
    /// The message, as it was queued.
    pub message: Message,
    /// Kind of message (`text`, `delete_chat`, ...).
    pub message_type: String,
    /// Priority.
    pub priority: Priority,
    /// Failed attempts so far.
    pub retry_count: u32,
    /// Time of the last attempt, in Unix milliseconds.
    pub last_attempt: Option<i64>,
    /// When the next retry is due, in Unix milliseconds.
    pub next_retry: i64,
    /// When the message was queued, in Unix milliseconds.
    pub created_at: i64,
}

/// Whether `a` may stand before `b`: a higher priority, or the same and a
/// retry due no later.
pub open spec fn goes_before(a: QueueEntry, b: QueueEntry) -> bool {
    priority_value(a.priority) > priority_value(b.priority)
        || (priority_value(a.priority) == priority_value(b.priority) && a.next_retry <= b.next_retry)
}

/// Priorities rank Urgent (stored as 3) above High (2), Normal (1) and Low
/// (0); an entry of higher priority always stands before one of lower
/// priority, whatever their retry times, and never after it.
pub proof fn lemma_priority_ranks(a: QueueEntry, b: QueueEntry)
    ensures
        priority_value(Priority::Urgent) == 3,
        priority_value(Priority::High) == 2,
        priority_value(Priority::Normal) == 1,
        priority_value(Priority::Low) == 0,
        priority_value(a.priority) > priority_value(b.priority) ==> goes_before(a, b) && !goes_before(b, a),
        a.priority is Urgent && !(b.priority is Urgent) ==> goes_before(a, b) && !goes_before(b, a),
        a.priority == b.priority ==> (goes_before(a, b) <==> a.next_retry <= b.next_retry),
{
}

/// The backoff after `n` failures is the base delay times two to the `n`:
/// each failure doubles the wait.
pub proof fn lemma_backoff_doubles(base: i64, n: nat)
    ensures
        backoff_delay(base, n) == base * vstd::arithmetic::power2::pow2(n),
        backoff_delay(base, 0) == base,
        backoff_delay(base, n + 1) == 2 * backoff_delay(base, n),
    decreases n,
{
    vstd::arithmetic::power2::lemma2_to64();
    if n > 0 {
        lemma_backoff_doubles(base, (n - 1) as nat);
        vstd::arithmetic::power2::lemma_pow2_unfold(n);
        assert(base * vstd::arithmetic::power2::pow2(n) == 2 * (base * vstd::arithmetic::power2::pow2((n - 1) as nat)))
            by (nonlinear_arith)
            requires
                vstd::arithmetic::power2::pow2(n) == 2 * vstd::arithmetic::power2::pow2((n - 1) as nat);
    }
}

/// Whether the entries are in queue order.
pub open spec fn in_order(s: Seq<QueueEntry>) -> bool {
    forall|i: int, j: int| 0 <= i < j < s.len() ==> goes_before(#[trigger] s[i], #[trigger] s[j])
}

/// Whether no two entries share a message identifier.
pub open spec fn ids_distinct(s: Seq<QueueEntry>) -> bool {
    forall|i: int, j: int| 0 <= i < s.len() && 0 <= j < s.len() && i != j
        ==> (#[trigger] s[i]).message.id@ != (#[trigger] s[j]).message.id@
}

/// Whether some entry has the identifier `id`.
pub open spec fn holds_id(s: Seq<QueueEntry>, id: Seq<char>) -> bool {
    exists|i: int| 0 <= i < s.len() && (#[trigger] s[i]).message.id@ == id
}

/// Whether `t` is `s` with `e` placed after every entry that may stand
/// before it, and before the rest.
pub open spec fn placed(s: Seq<QueueEntry>, e: QueueEntry, t: Seq<QueueEntry>) -> bool {
    exists|p: int| #![trigger s.insert(p, e)]
        0 <= p <= s.len()
        && (forall|j: int| 0 <= j < p ==> goes_before(#[trigger] s[j], e))
        && (forall|j: int| p <= j < s.len() ==> !goes_before(#[trigger] s[j], e))
        && t == s.insert(p, e)
}

/// The queued form of an entry.
pub open spec fn queued_view(e: QueueEntry, q: QueuedMessage) -> bool {
    &&& q.message.is_fresh(e.message.id@, e.message.sender@, e.message.recipient@, e.message.content@, e.message.timestamp)
    &&& q.priority == e.priority
    &&& q.attempts == e.retry_count
    &&& q.next_retry == e.next_retry
}

/// A new entry for `message`, queued at `now`.
pub open spec fn fresh_entry(e: QueueEntry, message: Message, priority: Priority, message_type: Seq<char>, now: i64) -> bool {
    &&& e.message.same_content(message)
    &&& e.message_type@ == message_type
    &&& e.priority == priority
    &&& e.retry_count == 0
    &&& e.last_attempt is None
    &&& e.next_retry == now
    &&& e.created_at == now
}

/// `base * 2^n`, the backoff delay after `n` failures.
pub open spec fn backoff_delay(base: i64, n: nat) -> int
    decreases n,
{
    if n == 0 {
        base as int
    } else {
        2 * backoff_delay(base, (n - 1) as nat)
    }
}

/// The outgoing message queue.
pub struct MessageQueue {
    entries: Vec<QueueEntry>,
    max_retries: u32,
    base_delay_ms: i64,
}

impl View for MessageQueue {
    type V = Seq<QueueEntry>;

    closed spec fn view(&self) -> Seq<QueueEntry> {
        self.entries@
    }
}

impl MessageQueue {
    /// Failures after which a message is given up.
    pub closed spec fn spec_max_retries(&self) -> u32 {
        self.max_retries
    }

    /// Base delay of the backoff, in milliseconds.
    pub closed spec fn spec_base_delay_ms(&self) -> i64 {
        self.base_delay_ms
    }

    /// The queue's invariant: entries in order, identifiers distinct.
    pub open spec fn wf(&self) -> bool {
        in_order(self@) && ids_distinct(self@)
    }

    /// In a well-formed queue an entry never stands before one of higher
    /// priority, and among equal priorities the earlier retry comes first.
    pub proof fn lemma_queue_order(&self)
        requires
            self.wf(),
        ensures
            forall|i: int, j: int| 0 <= i < j < self@.len()
                ==> priority_value((#[trigger] self@[i]).priority) >= priority_value((#[trigger] self@[j]).priority),
            forall|i: int, j: int| 0 <= i < j < self@.len() && self@[i].priority == self@[j].priority
                ==> (#[trigger] self@[i]).next_retry <= (#[trigger] self@[j]).next_retry,
            forall|i: int, j: int| 0 <= i < j < self@.len() && (#[trigger] self@[j]).priority is Urgent
                ==> (#[trigger] self@[i]).priority is Urgent,
    {
        assert forall|i: int, j: int| 0 <= i < j < self@.len() && (#[trigger] self@[j]).priority is Urgent
            implies (#[trigger] self@[i]).priority is Urgent by {
            assert(goes_before(self@[i], self@[j]));
        }
    }

    /// An empty queue that gives up after 5 failures, with a 1-second base delay.
    pub fn new() -> (r: Result<Self>)
        ensures
            r matches Ok(q) && q.wf() && q@.len() == 0 && q.spec_max_retries() == 5
                && q.spec_base_delay_ms() == 1000,
    {
        Ok(MessageQueue { entries: Vec::new(), max_retries: 5, base_delay_ms: 1000 })
    }

    /// Sets the failures after which a message is given up.
    pub fn set_max_retries(&mut self, max_retries: u32)
        ensures
            final(self)@ == old(self)@,
            final(self).spec_max_retries() == max_retries,
            final(self).spec_base_delay_ms() == old(self).spec_base_delay_ms(),
    {
        self.max_retries = max_retries;
    }

    /// Sets the base delay of the backoff.
    pub fn set_base_delay_ms(&mut self, base_delay_ms: i64)
        ensures
            final(self)@ == old(self)@,
            final(self).spec_base_delay_ms() == base_delay_ms,
            final(self).spec_max_retries() == old(self).spec_max_retries(),
    {
        self.base_delay_ms = base_delay_ms;
    }

    /// The entries, in queue order.
    pub fn entries(&self) -> (r: &Vec<QueueEntry>)
        ensures
            r@ == self@,
    {
        &self.entries
    }

    /// Puts back an entry that was stored earlier, in queue order.
    pub fn restore(&mut self, entry: QueueEntry) -> (r: Result<()>)
        requires
            old(self).wf(),
        ensures
            final(self).wf(),
            final(self).spec_max_retries() == old(self).spec_max_retries(),
            final(self).spec_base_delay_ms() == old(self).spec_base_delay_ms(),
            holds_id(old(self)@, entry.message.id@) ==> (r matches Err(Error::Database(m))
                && m@ == "UNIQUE constraint failed: message_queue.message_id"@ && final(self)@ == old(self)@),
            !holds_id(old(self)@, entry.message.id@) ==> (r is Ok && placed(old(self)@, entry, final(self)@)),
    {
        if self.position(entry.message.id.as_str()).is_some() {
            return Err(Error::Database("UNIQUE constraint failed: message_queue.message_id".to_owned()));
        }
        let ghost old_s = self@;
        let ghost ge = entry;
        self.place(entry);
        proof {
            let t = self@;
            let p = choose|p: int| #![trigger old_s.insert(p, ge)]
                0 <= p <= old_s.len()
                && (forall|j: int| 0 <= j < p ==> goes_before(#[trigger] old_s[j], ge))
                && (forall|j: int| p <= j < old_s.len() ==> !goes_before(#[trigger] old_s[j], ge))
                && t == old_s.insert(p, ge);
            old_s.insert_ensures(p, ge);
            assert forall|i: int, j: int| 0 <= i < t.len() && 0 <= j < t.len() && i != j
                implies (#[trigger] t[i]).message.id@ != (#[trigger] t[j]).message.id@ by {
                if i == p {
                    assert(t[j] == old_s[if j < p { j } else { j - 1 }]);
                } else if j == p {
                    assert(t[i] == old_s[if i < p { i } else { i - 1 }]);
                } else {
                    assert(t[i] == old_s[if i < p { i } else { i - 1 }]);
                    assert(t[j] == old_s[if j < p { j } else { j - 1 }]);
                }
            }
        }
        Ok(())
    }

    /// Failures after which a message is given up.
    pub fn max_retries(&self) -> (r: u32)
        ensures
            r == self.spec_max_retries(),
    {
        self.max_retries
    }

    /// Base delay of the backoff, in milliseconds.
    pub fn base_delay_ms(&self) -> (r: i64)
        ensures
            r == self.spec_base_delay_ms(),
    {
        self.base_delay_ms
    }

    /// Position of the entry with identifier `id`.
    fn position(&self, id: &str) -> (r: Option<usize>)
        ensures
            match r {
                Some(i) => i < self@.len() && self@[i as int].message.id@ == id@,
                None => !holds_id(self@, id@),
            },
    {
        let wanted = id.to_owned();
        let mut i: usize = 0;
        while i < self.entries.len()
            invariant
                i <= self.entries@.len(),
                wanted@ == id@,
                forall|j: int| 0 <= j < i ==> self.entries@[j].message.id@ != id@,
            decreases self.entries@.len() - i,
        {
            if self.entries[i].message.id == wanted {
                return Some(i);
            }
            i = i + 1;
        }
        None
    }

    /// Places an entry in queue order.
    fn place(&mut self, e: QueueEntry)
        requires
            in_order(old(self)@),
        ensures
            placed(old(self)@, e, final(self)@),
            in_order(final(self)@),
            final(self).spec_max_retries() == old(self).spec_max_retries(),
            final(self).spec_base_delay_ms() == old(self).spec_base_delay_ms(),
    {
        let ghost s = self.entries@;
        let mut p: usize = 0;
        while p < self.entries.len()
            invariant
                p <= self.entries@.len(),
                self.entries@ == s,
                in_order(s),
                forall|j: int| 0 <= j < p ==> goes_before(#[trigger] s[j], e),
            ensures
                p <= s.len(),
                forall|j: int| 0 <= j < p ==> goes_before(#[trigger] s[j], e),
                p < s.len() ==> !goes_before(s[p as int], e),
            decreases self.entries@.len() - p,
        {
            let x = &self.entries[p];
            let xp = x.priority.value();
            let ep = e.priority.value();
            if !(xp > ep || (xp == ep && x.next_retry <= e.next_retry)) {
                break;
            }
            p = p + 1;
        }
        proof {
            assert forall|j: int| p <= j < s.len() implies !goes_before(#[trigger] s[j], e) by {
                if j > p {
                    assert(goes_before(s[p as int], s[j]));
                }
            }
        }
        self.entries.insert(p, e);
        proof {
            let t = self.entries@;
            assert(t == s.insert(p as int, e));
            s.insert_ensures(p as int, e);
            assert forall|i: int, j: int| 0 <= i < j < t.len() implies goes_before(#[trigger] t[i], #[trigger] t[j]) by {
                if j < p {
                    assert(t[i] == s[i] && t[j] == s[j]);
                } else if i < p && j == p {
                } else if i < p && j > p {
                    assert(t[i] == s[i] && t[j] == s[j - 1]);
                } else if i == p {
                    assert(t[j] == s[j - 1]);
                    assert(!goes_before(s[j - 1], e));
                } else {
                    assert(t[j] == s[j - 1]);
                    assert(t[i] == s[i - 1]);
                }
            }
        }
    }

    /// Queues `message` as a text message at `now`.
    pub fn enqueue_at(&mut self, message: Message, priority: Priority, now: i64) -> (r: Result<()>)
        requires
            old(self).wf(),
        ensures
            final(self).wf(),
            final(self).spec_max_retries() == old(self).spec_max_retries(),
            final(self).spec_base_delay_ms() == old(self).spec_base_delay_ms(),
            holds_id(old(self)@, message.id@) ==> (r matches Err(Error::Database(m))
                && m@ == "UNIQUE constraint failed: message_queue.message_id"@ && final(self)@ == old(self)@),
            !holds_id(old(self)@, message.id@) ==> (r is Ok && exists|e: QueueEntry|
                fresh_entry(e, message, priority, "text"@, now) && placed(old(self)@, e, final(self)@)),
    {
        self.enqueue_with_type_at(message, priority, "text", now)
    }

    /// Queues `message` with the kind `message_type` at `now`.
    pub fn enqueue_with_type_at(&mut self, message: Message, priority: Priority, message_type: &str, now: i64) -> (r: Result<()>)
        requires
            old(self).wf(),
        ensures
            final(self).wf(),
            final(self).spec_max_retries() == old(self).spec_max_retries(),
            final(self).spec_base_delay_ms() == old(self).spec_base_delay_ms(),
            holds_id(old(self)@, message.id@) ==> (r matches Err(Error::Database(m))
                && m@ == "UNIQUE constraint failed: message_queue.message_id"@ && final(self)@ == old(self)@),
            !holds_id(old(self)@, message.id@) ==> (r is Ok && exists|e: QueueEntry|
                fresh_entry(e, message, priority, message_type@, now) && placed(old(self)@, e, final(self)@)),
    {
        if self.position(message.id.as_str()).is_some() {
            return Err(Error::Database("UNIQUE constraint failed: message_queue.message_id".to_owned()));
        }
        let e = QueueEntry {
            message,
            message_type: message_type.to_owned(),
            priority,
            retry_count: 0,
            last_attempt: None,
            next_retry: now,
            created_at: now,
        };
        let ghost old_s = self@;
        let ghost ge = e;
        assert(fresh_entry(ge, message, priority, message_type@, now));
        self.place(e);
        proof {
            let t = self@;
            let p = choose|p: int| #![trigger old_s.insert(p, ge)]
                0 <= p <= old_s.len()
                && (forall|j: int| 0 <= j < p ==> goes_before(#[trigger] old_s[j], ge))
                && (forall|j: int| p <= j < old_s.len() ==> !goes_before(#[trigger] old_s[j], ge))
                && t == old_s.insert(p, ge);
            old_s.insert_ensures(p, ge);
            assert forall|i: int, j: int| 0 <= i < t.len() && 0 <= j < t.len() && i != j
                implies (#[trigger] t[i]).message.id@ != (#[trigger] t[j]).message.id@ by {
                if i == p {
                    assert(t[j] == old_s[if j < p { j } else { j - 1 }]);
                } else if j == p {
                    assert(t[i] == old_s[if i < p { i } else { i - 1 }]);
                } else {
                    assert(t[i] == old_s[if i < p { i } else { i - 1 }]);
                    assert(t[j] == old_s[if j < p { j } else { j - 1 }]);
                }
            }
        }
        Ok(())
    }

    /// Queues `message` as a text message now.
    pub fn enqueue(&mut self, message: Message, priority: Priority) -> (r: Result<()>)
        requires
            old(self).wf(),
        ensures
            final(self).wf(),
            final(self).spec_max_retries() == old(self).spec_max_retries(),
            final(self).spec_base_delay_ms() == old(self).spec_base_delay_ms(),
            holds_id(old(self)@, message.id@) ==> (r matches Err(Error::Database(m))
                && m@ == "UNIQUE constraint failed: message_queue.message_id"@ && final(self)@ == old(self)@),
            !holds_id(old(self)@, message.id@) ==> (r is Ok && exists|e: QueueEntry, now: i64|
                clock_range(now as int) && fresh_entry(e, message, priority, "text"@, now) && placed(old(self)@, e, final(self)@)),
    {
        self.enqueue_at(message, priority, now_millis())
    }

    /// Queues `message` with the kind `message_type` now.
    pub fn enqueue_with_type(&mut self, message: Message, priority: Priority, message_type: &str) -> (r: Result<()>)
        requires
            old(self).wf(),
        ensures
            final(self).wf(),
            final(self).spec_max_retries() == old(self).spec_max_retries(),
            final(self).spec_base_delay_ms() == old(self).spec_base_delay_ms(),
            holds_id(old(self)@, message.id@) ==> (r matches Err(Error::Database(m))
                && m@ == "UNIQUE constraint failed: message_queue.message_id"@ && final(self)@ == old(self)@),
            !holds_id(old(self)@, message.id@) ==> (r is Ok && exists|e: QueueEntry, now: i64|
                clock_range(now as int) && fresh_entry(e, message, priority, message_type@, now) && placed(old(self)@, e, final(self)@)),
    {
        self.enqueue_with_type_at(message, priority, message_type, now_millis())
    }

    /// The queued form of the entry at `i`.
    fn queued(&self, i: usize) -> (q: QueuedMessage)
        requires
            i < self@.len(),
        ensures
            queued_view(self@[i as int], q),
    {
        let e = &self.entries[i];
        QueuedMessage {
            message: Message::new(
                e.message.id.clone(),
                e.message.sender.clone(),
                e.message.recipient.clone(),
                crate::connectivity::ip::copy_bytes(e.message.content.as_slice()),
                e.message.timestamp,
            ),
            priority: e.priority,
            attempts: e.retry_count,
            next_retry: e.next_retry,
        }
    }

    /// The entries whose retry is due at `now`, in queue order.
    pub fn fetch_pending_at(&self, now: i64) -> (r: Vec<QueuedMessage>)
        ensures
            r@.len() == due_entries(self@, now).len(),
            forall|k: int| 0 <= k < r@.len() ==> queued_view(due_entries(self@, now)[k], #[trigger] r@[k]),
    {
        let mut out: Vec<QueuedMessage> = Vec::new();
        let mut i: usize = 0;
        while i < self.entries.len()
            invariant
                i <= self@.len(),
                out@.len() == due_entries(self@.subrange(0, i as int), now).len(),
                forall|k: int| 0 <= k < out@.len() ==> queued_view(
                    due_entries(self@.subrange(0, i as int), now)[k], #[trigger] out@[k]),
            decreases self@.len() - i,
        {
            proof {
                assert(self@.subrange(0, i as int + 1).drop_last() =~= self@.subrange(0, i as int));
            }
            if self.entries[i].next_retry <= now {
                let q = self.queued(i);
                out.push(q);
            }
            i = i + 1;
        }
        assert(self@.subrange(0, self@.len() as int) =~= self@);
        out
    }

    /// The entries whose retry is due now, in queue order.
    pub fn fetch_pending(&self) -> (r: Vec<QueuedMessage>)
        ensures
            exists|now: i64| #![trigger due_entries(self@, now)]
                clock_range(now as int) && r@.len() == due_entries(self@, now).len()
                && forall|k: int| 0 <= k < r@.len() ==> queued_view(due_entries(self@, now)[k], #[trigger] r@[k]),
    {
        self.fetch_pending_at(now_millis())
    }

    /// All entries, in queue order.
    pub fn list(&self) -> (r: Vec<QueuedMessage>)
        ensures
            r@.len() == self@.len(),
            forall|k: int| 0 <= k < r@.len() ==> queued_view(self@[k], #[trigger] r@[k]),
    {
        let mut out: Vec<QueuedMessage> = Vec::new();
        let mut i: usize = 0;
        while i < self.entries.len()
            invariant
                i <= self@.len(),
                out@.len() == i,
                forall|k: int| 0 <= k < i ==> queued_view(self@[k], #[trigger] out@[k]),
            decreases self@.len() - i,
        {
            let q = self.queued(i);
            out.push(q);
            i = i + 1;
        }
        out
    }

    /// All entries, due or not, in queue order.
    pub fn fetch_all_pending(&self) -> (r: Vec<QueuedMessage>)
        ensures
            r@.len() == self@.len(),
            forall|k: int| 0 <= k < r@.len() ==> queued_view(self@[k], #[trigger] r@[k]),
    {
        self.list()
    }

    /// Takes the first entry whose retry is due at `now` out of the queue.
    pub fn dequeue_at(&mut self, now: i64) -> (r: Result<Option<QueuedMessage>>)
        requires
            old(self).wf(),
        ensures
            final(self).wf(),
            final(self).spec_max_retries() == old(self).spec_max_retries(),
            final(self).spec_base_delay_ms() == old(self).spec_base_delay_ms(),
            r matches Ok(d) && dequeued(old(self)@, now, d, final(self)@),
    {
        match self.first_due(now) {
            Some(i) => {
                let q = self.queued(i);
                self.remove_at(i);
                Ok(Some(q))
            },
            None => Ok(None),
        }
    }

    /// Position of the first entry whose retry is due at `now`.
    fn first_due(&self, now: i64) -> (r: Option<usize>)
        ensures
            match r {
                Some(i) => i < self@.len() && self@[i as int].next_retry <= now
                    && forall|j: int| 0 <= j < i ==> (#[trigger] self@[j]).next_retry > now,
                None => forall|j: int| 0 <= j < self@.len() ==> (#[trigger] self@[j]).next_retry > now,
            },
    {
        let mut i: usize = 0;
        while i < self.entries.len()
            invariant
                i <= self@.len(),
                forall|j: int| 0 <= j < i ==> (#[trigger] self@[j]).next_retry > now,
            decreases self@.len() - i,
        {
            if self.entries[i].next_retry <= now {
                return Some(i);
            }
            i = i + 1;
        }
        None
    }

    /// Takes the first entry whose retry is due now out of the queue.
    pub fn dequeue(&mut self) -> (r: Result<Option<QueuedMessage>>)
        requires
            old(self).wf(),
        ensures
            final(self).wf(),
            final(self).spec_max_retries() == old(self).spec_max_retries(),
            final(self).spec_base_delay_ms() == old(self).spec_base_delay_ms(),
            r matches Ok(d) && exists|now: i64| clock_range(now as int) && dequeued(old(self)@, now, d, final(self)@),
    {
        self.dequeue_at(now_millis())
    }

    /// Removes the entry `message_id` after its delivery.
    pub fn mark_delivered(&mut self, message_id: &str) -> (r: Result<()>)
        requires
            old(self).wf(),
        ensures
            final(self).wf(),
            final(self).spec_max_retries() == old(self).spec_max_retries(),
            final(self).spec_base_delay_ms() == old(self).spec_base_delay_ms(),
            !holds_id(old(self)@, message_id@) ==> (r matches Err(Error::Queue(m))
                && m@ == "Message not found in queue: "@ + message_id@ && final(self)@ == old(self)@),
            holds_id(old(self)@, message_id@) ==> (r is Ok && exists|i: int| 0 <= i < old(self)@.len()
                && old(self)@[i].message.id@ == message_id@ && final(self)@ == old(self)@.remove(i)),
    {
        match self.position(message_id) {
            Some(i) => {
                self.remove_at(i);
                Ok(())
            },
            None => {
                let mut m = String::new();
                write_str(&mut m, "Message not found in queue: ");
                write_str(&mut m, message_id);
                proof {
                    reveal_strlit("Message not found in queue: ");
                }
                Err(Error::Queue(m))
            },
        }
    }

    /// Removes the entry `message_id` after its delivery.
    pub fn mark_success(&mut self, message_id: &str) -> (r: Result<()>)
        requires
            old(self).wf(),
        ensures
            final(self).wf(),
            final(self).spec_max_retries() == old(self).spec_max_retries(),
            final(self).spec_base_delay_ms() == old(self).spec_base_delay_ms(),
            !holds_id(old(self)@, message_id@) ==> (r matches Err(Error::Queue(m))
                && m@ == "Message not found in queue: "@ + message_id@ && final(self)@ == old(self)@),
            holds_id(old(self)@, message_id@) ==> (r is Ok && exists|i: int| 0 <= i < old(self)@.len()
                && old(self)@[i].message.id@ == message_id@ && final(self)@ == old(self)@.remove(i)),
    {
        self.mark_delivered(message_id)
    }

    /// Removes the entry at `i`.
    fn remove_at(&mut self, i: usize)
        requires
            old(self).wf(),
            i < old(self)@.len(),
        ensures
            final(self).wf(),
            final(self)@ == old(self)@.remove(i as int),
            final(self).spec_max_retries() == old(self).spec_max_retries(),
            final(self).spec_base_delay_ms() == old(self).spec_base_delay_ms(),
    {
        let ghost s = self@;
        self.entries.remove(i);
        proof {
            let t = self@;
            assert(t == s.remove(i as int));
            s.remove_ensures(i as int);
            assert forall|a: int, b: int| 0 <= a < b < t.len() implies goes_before(#[trigger] t[a], #[trigger] t[b]) by {
                assert(t[a] == s[if a < i { a } else { a + 1 }]);
                assert(t[b] == s[if b < i { b } else { b + 1 }]);
            }
            assert forall|a: int, b: int| 0 <= a < t.len() && 0 <= b < t.len() && a != b
                implies (#[trigger] t[a]).message.id@ != (#[trigger] t[b]).message.id@ by {
                assert(t[a] == s[if a < i { a } else { a + 1 }]);
                assert(t[b] == s[if b < i { b } else { b + 1 }]);
            }
        }
    }

    /// Takes the entry at `i` out and places it again with a new retry
    /// count, attempt time and retry time.
    fn reschedule_at(&mut self, i: usize, retry_count: u32, last_attempt: i64, next_retry: i64)
        requires
            old(self).wf(),
            i < old(self)@.len(),
        ensures
            final(self).wf(),
            final(self).spec_max_retries() == old(self).spec_max_retries(),
            final(self).spec_base_delay_ms() == old(self).spec_base_delay_ms(),
            placed(old(self)@.remove(i as int), rescheduled(old(self)@[i as int], retry_count, last_attempt, next_retry), final(self)@),
    {
        let ghost s = self@;
        let e = self.entries.remove(i);
        proof {
            let t = self@;
            assert(t == s.remove(i as int));
            s.remove_ensures(i as int);
            assert forall|a: int, b: int| 0 <= a < b < t.len() implies goes_before(#[trigger] t[a], #[trigger] t[b]) by {
                assert(t[a] == s[if a < i { a } else { a + 1 }]);
                assert(t[b] == s[if b < i { b } else { b + 1 }]);
            }
        }
        let ghost rest = self@;
        let ne = QueueEntry {
            message: e.message,
            message_type: e.message_type,
            priority: e.priority,
            retry_count,
            last_attempt: Some(last_attempt),
            next_retry,
            created_at: e.created_at,
        };
        let ghost gne = ne;
        assert(gne == rescheduled(s[i as int], retry_count, last_attempt, next_retry));
        self.place(ne);
        proof {
            let t = self@;
            let p = choose|p: int| #![trigger rest.insert(p, gne)]
                0 <= p <= rest.len()
                && (forall|j: int| 0 <= j < p ==> goes_before(#[trigger] rest[j], gne))
                && (forall|j: int| p <= j < rest.len() ==> !goes_before(#[trigger] rest[j], gne))
                && t == rest.insert(p, gne);
            rest.insert_ensures(p, gne);
            s.remove_ensures(i as int);
            assert forall|a: int, b: int| 0 <= a < t.len() && 0 <= b < t.len() && a != b
                implies (#[trigger] t[a]).message.id@ != (#[trigger] t[b]).message.id@ by {
                let oa = if a == p { i as int } else {
                    let ra = if a < p { a } else { a - 1 };
                    if ra < i { ra } else { ra + 1 }
                };
                let ob = if b == p { i as int } else {
                    let rb = if b < p { b } else { b - 1 };
                    if rb < i { rb } else { rb + 1 }
                };
                assert(t[a].message.id@ == s[oa].message.id@);
                assert(t[b].message.id@ == s[ob].message.id@);
            }
        }
    }

    /// Records a failed delivery of `message_id` at `now`: the entry is
    /// given up once its failures reach the limit; otherwise its retry
    /// waits `base * 2^failures` milliseconds.
    pub fn mark_failed_at(&mut self, message_id: &str, now: i64) -> (r: Result<()>)
        requires
            old(self).wf(),
            backoff_fits(old(self)@, message_id@, old(self).spec_max_retries(), old(self).spec_base_delay_ms(), now),
        ensures
            final(self).wf(),
            final(self).spec_max_retries() == old(self).spec_max_retries(),
            final(self).spec_base_delay_ms() == old(self).spec_base_delay_ms(),
            !holds_id(old(self)@, message_id@) ==> (r matches Err(Error::Database(m))
                && m@ == "Query returned no rows"@ && final(self)@ == old(self)@),
            holds_id(old(self)@, message_id@) ==> r is Ok && after_failure(old(self)@, message_id@,
                old(self).spec_max_retries(), old(self).spec_base_delay_ms(), now, final(self)@),
    {
        let i = match self.position(message_id) {
            Some(i) => i,
            None => return Err(Error::Database("Query returned no rows".to_owned())),
        };
        let retry_count = self.entries[i].retry_count;
        if retry_count as u64 + 1 >= self.max_retries as u64 {
            self.remove_at(i);
            return Ok(());
        }
        let n = retry_count + 1;
        let delay = delay_for(self.base_delay_ms, n);
        self.reschedule_at(i, n, now, now + delay);
        Ok(())
    }

    /// Records a failed delivery of `message_id` now; see `mark_failed_at`.
    /// A retry time beyond the range of `i64` is refused.
    pub fn mark_failed(&mut self, message_id: &str) -> (r: Result<()>)
        requires
            old(self).wf(),
        ensures
            final(self).wf(),
            final(self).spec_max_retries() == old(self).spec_max_retries(),
            final(self).spec_base_delay_ms() == old(self).spec_base_delay_ms(),
            holds_id(old(self)@, message_id@) && backoff_fits_any_clock(old(self)@, message_id@,
                old(self).spec_max_retries(), old(self).spec_base_delay_ms())
                ==> r is Ok,
            !holds_id(old(self)@, message_id@) ==> (r matches Err(Error::Database(m))
                && m@ == "Query returned no rows"@ && final(self)@ == old(self)@),
            holds_id(old(self)@, message_id@) ==> (r is Ok && exists|now: i64| clock_range(now as int) && after_failure(old(self)@, message_id@,
                old(self).spec_max_retries(), old(self).spec_base_delay_ms(), now, final(self)@))
                || (r matches Err(Error::Queue(m)) && m@ == "Retry delay out of range"@ && final(self)@ == old(self)@),
    {
        let now = now_millis();
        proof {
            lemma_any_clock_fits(self@, message_id@, self.spec_max_retries(), self.spec_base_delay_ms(), now);
        }
        if !self.backoff_checked(message_id, now) {
            return Err(Error::Queue("Retry delay out of range".to_owned()));
        }
        self.mark_failed_at(message_id, now)
    }

    /// Whether the retry time of `message_id` after a failure at `now`
    /// stays in range.
    fn backoff_checked(&self, message_id: &str, now: i64) -> (r: bool)
        requires
            self.wf(),
        ensures
            r == backoff_fits(self@, message_id@, self.spec_max_retries(), self.spec_base_delay_ms(), now),
    {
        match self.position(message_id) {
            None => true,
            Some(i) => {
                let retry_count = self.entries[i].retry_count;
                proof {
                    assert forall|j: int| 0 <= j < self@.len() && (#[trigger] self@[j]).message.id@ == message_id@
                        implies j == i by {
                        if j != i {
                            assert(self@[j].message.id@ != self@[i as int].message.id@);
                        }
                    }
                }
                if retry_count as u64 + 1 >= self.max_retries as u64 {
                    return true;
                }
                let n = retry_count + 1;
                match checked_delay(self.base_delay_ms, n) {
                    Some(d) => {
                        let sum = now as i128 + d as i128;
                        i64::MIN as i128 <= sum && sum <= i64::MAX as i128
                    },
                    None => false,
                }
            },
        }
    }

    /// Records a retry of `message_id` at `now`, due `delay_ms` later.
    pub fn schedule_retry_at(&mut self, message_id: &str, delay_ms: i64, now: i64) -> (r: Result<()>)
        requires
            old(self).wf(),
            i64::MIN <= now + delay_ms <= i64::MAX,
        ensures
            final(self).wf(),
            r is Ok,
            final(self).spec_max_retries() == old(self).spec_max_retries(),
            final(self).spec_base_delay_ms() == old(self).spec_base_delay_ms(),
            !holds_id(old(self)@, message_id@) ==> final(self)@ == old(self)@,
            holds_id(old(self)@, message_id@) ==> after_retry_scheduled(old(self)@, message_id@, now, delay_ms, final(self)@),
    {
        match self.position(message_id) {
            Some(i) => {
                let c = self.entries[i].retry_count;
                let n = if c < u32::MAX { c + 1 } else { c };
                self.reschedule_at(i, n, now, now + delay_ms);
                Ok(())
            },
            None => Ok(()),
        }
    }

    /// Records a retry of `message_id` now, due `delay_ms` later. A retry
    /// time beyond the range of `i64` is refused.
    pub fn schedule_retry(&mut self, message_id: &str, delay_ms: i64) -> (r: Result<()>)
        requires
            old(self).wf(),
        ensures
            final(self).wf(),
            final(self).spec_max_retries() == old(self).spec_max_retries(),
            final(self).spec_base_delay_ms() == old(self).spec_base_delay_ms(),
            fits_any_clock(delay_ms as int) ==> r is Ok,
            !holds_id(old(self)@, message_id@) ==> final(self)@ == old(self)@,
            holds_id(old(self)@, message_id@) ==> (r is Ok && exists|now: i64|
                clock_range(now as int) && after_retry_scheduled(old(self)@, message_id@, now, delay_ms, final(self)@))
                || (r matches Err(Error::Queue(m)) && m@ == "Retry delay out of range"@ && final(self)@ == old(self)@),
    {
        let now = now_millis();
        let sum = now as i128 + delay_ms as i128;
        if sum < i64::MIN as i128 || sum > i64::MAX as i128 {
            return Err(Error::Queue("Retry delay out of range".to_owned()));
        }
        self.schedule_retry_at(message_id, delay_ms, now)
    }

    /// Records a retry of `message_id` now, due after the global interval.
    /// A retry time beyond the range of `i64` is refused.
    pub fn schedule_retry_global(&mut self, message_id: &str, global_interval_ms: u64) -> (r: Result<()>)
        requires
            old(self).wf(),
        ensures
            final(self).wf(),
            final(self).spec_max_retries() == old(self).spec_max_retries(),
            final(self).spec_base_delay_ms() == old(self).spec_base_delay_ms(),
            fits_any_clock(global_interval_ms as int) ==> r is Ok,
            !holds_id(old(self)@, message_id@) ==> final(self)@ == old(self)@,
            holds_id(old(self)@, message_id@) ==> (r is Ok && exists|now: i64|
                #![trigger after_retry_scheduled(old(self)@, message_id@, now, global_interval_ms as i64, final(self)@)]
                clock_range(now as int) && after_retry_scheduled(old(self)@, message_id@, now, global_interval_ms as i64, final(self)@))
                || (r matches Err(Error::Queue(m)) && m@ == "Retry delay out of range"@ && final(self)@ == old(self)@),
    {
        self.schedule_retry(message_id, global_interval_ms as i64)
    }

    /// The number of entries.
    pub fn size(&self) -> (r: Result<usize>)
        ensures
            r matches Ok(n) && n == self@.len(),
    {
        Ok(self.entries.len())
    }

    /// The number of entries.
    pub fn count_pending(&self) -> (r: Result<usize>)
        ensures
            r matches Ok(n) && n == self@.len(),
    {
        self.size()
    }

    /// Empties the queue.
    pub fn clear(&mut self) -> (r: Result<()>)
        ensures
            r is Ok,
            final(self).wf(),
            final(self)@.len() == 0,
            final(self).spec_max_retries() == old(self).spec_max_retries(),
            final(self).spec_base_delay_ms() == old(self).spec_base_delay_ms(),
    {
        self.entries = Vec::new();
        Ok(())
    }

    /// The recipients with queued messages, each once, in queue order.
    pub fn get_pending_contact_uids(&self) -> (r: Result<Vec<String>>)
        ensures
            r matches Ok(v) && recipients_listed(self@, v@),
    {
        let mut out: Vec<String> = Vec::new();
        let ghost mut wit: Seq<int> = Seq::empty();
        let mut i: usize = 0;
        while i < self.entries.len()
            invariant
                i <= self@.len(),
                forall|k: int| 0 <= k < out@.len() ==> holds_recipient(self@, (#[trigger] out@[k])@),
                wit.len() == i,
                forall|j: int| 0 <= j < i ==> 0 <= #[trigger] wit[j] < out@.len()
                    && out@[wit[j]]@ == self@[j].message.recipient@,
                forall|a: int, b: int| 0 <= a < b < out@.len() ==> (#[trigger] out@[a])@ != (#[trigger] out@[b])@,
            decreases self@.len() - i,
        {
            let uid = &self.entries[i].message.recipient;
            let mut found: Option<usize> = None;
            let mut k: usize = 0;
            while k < out.len()
                invariant
                    k <= out@.len(),
                    match found {
                        Some(q) => q < out@.len() && out@[q as int]@ == uid@,
                        None => forall|q: int| 0 <= q < k ==> (#[trigger] out@[q])@ != uid@,
                    },
                decreases out@.len() - k,
            {
                if found.is_none() && out[k] == *uid {
                    found = Some(k);
                }
                k = k + 1;
            }
            match found {
                Some(q) => {
                    proof {
                        wit = wit.push(q as int);
                    }
                },
                None => {
                    let ghost before = out@;
                    out.push(uid.clone());
                    proof {
                        wit = wit.push(before.len() as int);
                        assert(holds_recipient(self@, out@[out@.len() - 1]@));
                        assert forall|k: int| 0 <= k < out@.len() implies holds_recipient(self@, (#[trigger] out@[k])@) by {
                            if k < before.len() {
                                assert(out@[k] == before[k]);
                            }
                        }
                        assert forall|j: int| 0 <= j < i implies 0 <= #[trigger] wit[j] < out@.len()
                            && out@[wit[j]]@ == self@[j].message.recipient@ by {
                            assert(out@[wit[j]] == before[wit[j]]);
                        }
                    }
                },
            }
            i = i + 1;
        }
        assert(recipients_listed(self@, out@)) by {
            assert(wit.len() == self@.len());
        }
        Ok(out)
    }

    /// Records the outcome of one delivery tried at startup, now; see
    /// `record_startup_attempt_at`. A failure whose retry time leaves the
    /// range of `i64` is still counted.
    pub fn record_startup_attempt(&mut self, message_id: &str, delivered: bool, succeeded: usize, failed: usize) -> (r: (usize, usize))
        requires
            old(self).wf(),
            succeeded < usize::MAX,
            failed < usize::MAX,
        ensures
            final(self).wf(),
            final(self).spec_max_retries() == old(self).spec_max_retries(),
            final(self).spec_base_delay_ms() == old(self).spec_base_delay_ms(),
            !holds_id(old(self)@, message_id@) ==> final(self)@ == old(self)@,
            delivered && holds_id(old(self)@, message_id@) ==> exists|i: int| 0 <= i < old(self)@.len()
                && old(self)@[i].message.id@ == message_id@ && final(self)@ == old(self)@.remove(i),
            !delivered && holds_id(old(self)@, message_id@) ==> (exists|now: i64| clock_range(now as int) && after_failure(old(self)@,
                message_id@, old(self).spec_max_retries(), old(self).spec_base_delay_ms(), now, final(self)@))
                || (final(self)@ == old(self)@ && !backoff_fits_any_clock(old(self)@, message_id@,
                    old(self).spec_max_retries(), old(self).spec_base_delay_ms())),
            delivered && holds_id(old(self)@, message_id@) ==> r.0 == succeeded + 1 && r.1 == failed,
            delivered && !holds_id(old(self)@, message_id@) ==> r.0 == succeeded && r.1 == failed,
            !delivered ==> r.0 == succeeded && r.1 == failed + 1,
    {
        if delivered {
            match self.mark_success(message_id) {
                Ok(()) => (succeeded + 1, failed),
                Err(_) => (succeeded, failed),
            }
        } else {
            let _ = self.mark_failed(message_id);
            (succeeded, failed + 1)
        }
    }

    /// Records the outcome of one delivery tried at startup, at `now`: a
    /// delivered message leaves the queue and counts as a success; a failed
    /// one is marked failed and counts as a failure. Gives the new counts.
    pub fn record_startup_attempt_at(&mut self, message_id: &str, delivered: bool, now: i64, succeeded: usize, failed: usize) -> (r: (usize, usize))
        requires
            old(self).wf(),
            succeeded < usize::MAX,
            failed < usize::MAX,
            backoff_fits(old(self)@, message_id@, old(self).spec_max_retries(), old(self).spec_base_delay_ms(), now),
        ensures
            final(self).wf(),
            final(self).spec_max_retries() == old(self).spec_max_retries(),
            final(self).spec_base_delay_ms() == old(self).spec_base_delay_ms(),
            !holds_id(old(self)@, message_id@) ==> final(self)@ == old(self)@,
            delivered && holds_id(old(self)@, message_id@) ==> exists|i: int| 0 <= i < old(self)@.len()
                && old(self)@[i].message.id@ == message_id@ && final(self)@ == old(self)@.remove(i),
            !delivered && holds_id(old(self)@, message_id@) ==> after_failure(old(self)@, message_id@,
                old(self).spec_max_retries(), old(self).spec_base_delay_ms(), now, final(self)@),
            delivered && holds_id(old(self)@, message_id@) ==> r.0 == succeeded + 1 && r.1 == failed,
            delivered && !holds_id(old(self)@, message_id@) ==> r.0 == succeeded && r.1 == failed,
            !delivered ==> r.0 == succeeded && r.1 == failed + 1,
    {
        if delivered {
            match self.mark_success(message_id) {
                Ok(()) => (succeeded + 1, failed),
                Err(_) => (succeeded, failed),
            }
        } else {
            let _ = self.mark_failed_at(message_id, now);
            (succeeded, failed + 1)
        }
    }
}

/// Whether adding `d` milliseconds to any clock reading stays in `i64`.
pub open spec fn fits_any_clock(d: int) -> bool {
    i64::MIN + 8_400_000_000_000_000 <= d <= i64::MAX - 8_300_000_000_000_001_999
}

/// Whether the retry time after a failure of `id` stays in `i64` whatever
/// the clock reads: the entry is given up, or its backoff delay fits any
/// clock reading.
pub open spec fn backoff_fits_any_clock(s: Seq<QueueEntry>, id: Seq<char>, max_retries: u32, base: i64) -> bool {
    forall|i: int| #![trigger s[i]] 0 <= i < s.len() && s[i].message.id@ == id && s[i].retry_count + 1 < max_retries
        ==> fits_any_clock(backoff_delay(base, (s[i].retry_count + 1) as nat))
}

/// A backoff that fits any clock reading fits the one at `now`.
proof fn lemma_any_clock_fits(s: Seq<QueueEntry>, id: Seq<char>, max_retries: u32, base: i64, now: i64)
    requires
        clock_range(now as int),
    ensures
        backoff_fits_any_clock(s, id, max_retries, base) ==> backoff_fits(s, id, max_retries, base, now),
{
}

/// The entries whose retry is due at `now`, in order.
pub open spec fn due_entries(s: Seq<QueueEntry>, now: i64) -> Seq<QueueEntry>
    decreases s.len(),
{
    if s.len() == 0 {
        Seq::empty()
    } else {
        let d = due_entries(s.drop_last(), now);
        if s.last().next_retry <= now {
            d.push(s.last())
        } else {
            d
        }
    }
}

/// Whether `t` follows from `s` when the first entry due at `now` is taken
/// out as `d`, or nothing is due and `d` is `None`.
pub open spec fn dequeued(s: Seq<QueueEntry>, now: i64, d: Option<QueuedMessage>, t: Seq<QueueEntry>) -> bool {
    match d {
        Some(q) => exists|i: int| 0 <= i < s.len()
            && s[i].next_retry <= now
            && (forall|j: int| 0 <= j < i ==> (#[trigger] s[j]).next_retry > now)
            && queued_view(s[i], q)
            && t == s.remove(i),
        None => (forall|j: int| 0 <= j < s.len() ==> (#[trigger] s[j]).next_retry > now) && t == s,
    }
}

/// Whether `t` follows from `s` after a failed delivery of `id` at `now`:
/// the entry is given up once its failures reach `max`; otherwise it waits
/// `base * 2^failures` milliseconds.
pub open spec fn after_failure(s: Seq<QueueEntry>, id: Seq<char>, max: u32, base: i64, now: i64, t: Seq<QueueEntry>) -> bool {
    exists|i: int| #![trigger s[i]]
        0 <= i < s.len() && s[i].message.id@ == id && {
            let e = s[i];
            let n = e.retry_count + 1;
            if n >= max {
                t == s.remove(i)
            } else {
                placed(s.remove(i), rescheduled(e, n as u32, now, (now + backoff_delay(base, n as nat)) as i64), t)
            }
        }
}

/// Whether `t` follows from `s` after a retry of `id` is scheduled at `now`,
/// due `delay` later.
pub open spec fn after_retry_scheduled(s: Seq<QueueEntry>, id: Seq<char>, now: i64, delay: i64, t: Seq<QueueEntry>) -> bool {
    exists|i: int| #![trigger s[i]]
        0 <= i < s.len() && s[i].message.id@ == id
        && placed(s.remove(i), rescheduled(s[i], count_up(s[i].retry_count), now, (now + delay) as i64), t)
}

/// A retry count one up, staying at the top of `u32`.
pub open spec fn count_up(c: u32) -> u32 {
    if c < u32::MAX { (c + 1) as u32 } else { c }
}

/// An entry after a retry was scheduled.
pub open spec fn rescheduled(e: QueueEntry, retry_count: u32, last_attempt: i64, next_retry: i64) -> QueueEntry {
    QueueEntry {
        retry_count,
        last_attempt: Some(last_attempt),
        next_retry,
        ..e
    }
}

/// Whether `v` lists the recipients of the entries, each once.
pub open spec fn recipients_listed(s: Seq<QueueEntry>, v: Seq<String>) -> bool {
    &&& forall|k: int| 0 <= k < v.len() ==> holds_recipient(s, (#[trigger] v[k])@)
    &&& exists|w: Seq<int>| #![trigger w.len()] w.len() == s.len()
        && forall|i: int| 0 <= i < s.len() ==> 0 <= #[trigger] w[i] < v.len() && v[w[i]]@ == s[i].message.recipient@
    &&& forall|a: int, b: int| 0 <= a < b < v.len() ==> (#[trigger] v[a])@ != (#[trigger] v[b])@
}

/// Whether some entry is addressed to `uid`.
pub open spec fn holds_recipient(s: Seq<QueueEntry>, uid: Seq<char>) -> bool {
    exists|i: int| 0 <= i < s.len() && (#[trigger] s[i]).message.recipient@ == uid
}

/// Whether the retry time after a failure of `id` at `now` stays in the
/// range of `i64`.
pub open spec fn backoff_fits(s: Seq<QueueEntry>, id: Seq<char>, max_retries: u32, base: i64, now: i64) -> bool {
    forall|i: int| #![trigger s[i]] 0 <= i < s.len() && s[i].message.id@ == id && s[i].retry_count + 1 < max_retries
        ==> {
            let d = backoff_delay(base, (s[i].retry_count + 1) as nat);
            &&& i64::MIN <= d <= i64::MAX
            &&& i64::MIN <= now + d <= i64::MAX
        }
}

/// `base * 2^n`, when it fits in `i64`.
fn checked_delay(base: i64, n: u32) -> (r: Option<i64>)
    ensures
        r matches Some(d) ==> d == backoff_delay(base, n as nat),
        r is None ==> !(i64::MIN <= backoff_delay(base, n as nat) <= i64::MAX),
{
    let mut d: i64 = base;
    let mut k: u32 = 0;
    while k < n
        invariant
            k <= n,
            d == backoff_delay(base, k as nat),
        decreases n - k,
    {
        proof {
            lemma_backoff_grows(base, k as nat, n as nat);
        }
        match d.checked_mul(2) {
            Some(x) => d = x,
            None => {
                proof {
                    lemma_backoff_grows(base, (k + 1) as nat, n as nat);
                }
                return None;
            },
        }
        k = k + 1;
    }
    Some(d)
}

/// `base * 2^n`, known to fit in `i64`.
fn delay_for(base: i64, n: u32) -> (r: i64)
    requires
        i64::MIN <= backoff_delay(base, n as nat) <= i64::MAX,
    ensures
        r == backoff_delay(base, n as nat),
{
    let mut d: i64 = base;
    let mut k: u32 = 0;
    while k < n
        invariant
            k <= n,
            d == backoff_delay(base, k as nat),
            i64::MIN <= backoff_delay(base, n as nat) <= i64::MAX,
        decreases n - k,
    {
        proof {
            lemma_backoff_grows(base, (k + 1) as nat, n as nat);
        }
        d = d * 2;
        k = k + 1;
    }
    d
}

/// The backoff grows in magnitude with the number of failures.
proof fn lemma_backoff_grows(base: i64, k: nat, n: nat)
    requires
        k <= n,
    ensures
        base >= 0 ==> 0 <= backoff_delay(base, k) <= backoff_delay(base, n),
        base < 0 ==> backoff_delay(base, n) <= backoff_delay(base, k) < 0,
    decreases n - k,
{
    if k < n {
        lemma_backoff_grows(base, k + 1, n);
    }
    if k > 0 {
        lemma_backoff_sign(base, k);
    }
    lemma_backoff_sign(base, k);
}

proof fn lemma_backoff_sign(base: i64, k: nat)
    ensures
        base >= 0 ==> backoff_delay(base, k) >= 0,
        base < 0 ==> backoff_delay(base, k) < 0,
    decreases k,
{
    if k > 0 {
        lemma_backoff_sign(base, (k - 1) as nat);
    }
}

} // verus!

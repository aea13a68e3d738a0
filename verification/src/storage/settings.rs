//! Application settings.

use vstd::prelude::*;

verus! {

/// Application settings.
#[derive(Debug, Clone)]
pub struct Settings {
    /// Days until a new contact token expires.
    pub default_contact_expiry_days: u32,
    /// Whether contacts are accepted without asking.
    pub auto_accept_contacts: bool,
    /// Delivery attempts before a message is given up.
    pub max_message_retries: u32,
    /// Base delay of the retry backoff, in milliseconds.
    pub retry_base_delay_ms: u64,
    /// Whether notifications are shown.
    pub enable_notifications: bool,
    /// Interval between retries of the whole queue, in milliseconds.
    pub global_retry_interval_ms: u64,
    /// The same interval in whole minutes.
    pub retry_interval_minutes: u32,
    /// Directory of the stored data.
    pub storage_path: String,
}

/// The whole minutes of an interval in milliseconds, as a `u32` cast keeps them.
pub open spec fn minutes_of(ms: u64) -> u32 {
    (ms / 60000) as u32
}

impl Settings {
    /// Whether the settings are those given, apart from the retry interval.
    pub open spec fn same_but_interval(self, other: Settings) -> bool {
        &&& self.default_contact_expiry_days == other.default_contact_expiry_days
        &&& self.auto_accept_contacts == other.auto_accept_contacts
        &&& self.max_message_retries == other.max_message_retries
        &&& self.retry_base_delay_ms == other.retry_base_delay_ms
        &&& self.enable_notifications == other.enable_notifications
        &&& self.storage_path == other.storage_path
    }

    /// Sets the retry interval in minutes, and the milliseconds with it.
    pub fn update_retry_interval(&mut self, minutes: u32)
        ensures
            final(self).retry_interval_minutes == minutes,
            final(self).global_retry_interval_ms == minutes * 60000,
            final(self).same_but_interval(*old(self)),
    {
        self.retry_interval_minutes = minutes;
        self.global_retry_interval_ms = (minutes as u64) * 60 * 1000;
    }

    /// Sets the retry interval in milliseconds, and the minutes with it.
    pub fn set_global_retry_interval_ms(&mut self, interval_ms: u64)
        ensures
            final(self).global_retry_interval_ms == interval_ms,
            final(self).retry_interval_minutes == minutes_of(interval_ms),
            final(self).same_but_interval(*old(self)),
    {
        self.global_retry_interval_ms = interval_ms;
        self.retry_interval_minutes = (interval_ms / (60 * 1000)) as u32;
    }

    /// The retry interval in milliseconds.
    pub fn get_global_retry_interval_ms(&self) -> (r: u64)
        ensures
            r == self.global_retry_interval_ms,
    {
        self.global_retry_interval_ms
    }

    /// The retry interval in minutes.
    pub fn get_retry_interval_minutes(&self) -> (r: u32)
        ensures
            r == self.retry_interval_minutes,
    {
        self.retry_interval_minutes
    }

    /// Brings the minutes in line with the milliseconds, which win.
    pub fn sync_retry_interval(&mut self)
        ensures
            final(self).global_retry_interval_ms == old(self).global_retry_interval_ms,
            final(self).retry_interval_minutes == minutes_of(old(self).global_retry_interval_ms),
            final(self).same_but_interval(*old(self)),
    {
        self.retry_interval_minutes = (self.global_retry_interval_ms / (60 * 1000)) as u32;
    }
}

impl Default for Settings {
    fn default() -> (r: Self)
        ensures
            r.default_contact_expiry_days == 30,
            !r.auto_accept_contacts,
            r.max_message_retries == 5,
            r.retry_base_delay_ms == 1000,
            r.enable_notifications,
            r.global_retry_interval_ms == 600_000,
            r.retry_interval_minutes == 10,
            r.storage_path@ == "./data"@,
    {
        Settings {
            default_contact_expiry_days: 30,
            auto_accept_contacts: false,
            max_message_retries: 5,
            retry_base_delay_ms: 1000,
            enable_notifications: true,
            global_retry_interval_ms: 600_000,
            retry_interval_minutes: 10,
            storage_path: "./data".to_owned(),
        }
    }
}

} // verus!

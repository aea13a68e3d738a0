//! Points in time, the wall clock, and their RFC 3339 text.
//!
//! A `UtcTime` holds what chrono's `DateTime<Utc>` holds: whole seconds since
//! the Unix epoch and the nanoseconds past them (a leap second shows as
//! nanoseconds from one to two billion). Times are ordered by seconds, then
//! nanoseconds, as chrono orders them.

use vstd::prelude::*;

verus! {

/// Whether chrono's `DateTime<Utc>` holds the time `secs` seconds and
/// `nanos` nanoseconds after the Unix epoch.
pub uninterp spec fn chrono_utc_valid(secs: i64, nanos: u32) -> bool;

/// chrono's RFC 3339 text of a time, as its serde support writes it:
/// fractional seconds in 0, 3, 6 or 9 digits as needed, and `Z`.
pub uninterp spec fn rfc3339_text(secs: i64, nanos: u32) -> Seq<char>;

/// chrono's reading of RFC 3339 text as a UTC time, as its serde support
/// reads it.
pub uninterp spec fn rfc3339_parse(text: Seq<char>) -> Option<(i64, u32)>;

/// Bounds that every time chrono holds keeps: its dates span fewer than
/// 262,144 years either side of year zero, and the nanoseconds stay below
/// two billion.
pub open spec fn utc_bounds(secs: i64, nanos: u32) -> bool {
    -8_400_000_000_000 <= secs <= 8_300_000_000_000 && nanos < 2_000_000_000
}

/// Trusted: `chrono::DateTime::<Utc>::from_timestamp(secs, nanos).is_some()`,
/// whether chrono holds that time. A time it holds keeps `utc_bounds`.
#[verifier::external_body]
fn utc_check(secs: i64, nanos: u32) -> (r: bool)
    ensures
        r == chrono_utc_valid(secs, nanos),
        r ==> utc_bounds(secs, nanos),
{
    chrono::DateTime::<chrono::Utc>::from_timestamp(secs, nanos).is_some()
}

/// Trusted: `std::time::UNIX_EPOCH.elapsed()`, how far the system clock is
/// from the Unix epoch: `(true, secs, nanos)` when the clock is at or after
/// the epoch, `(false, secs, nanos)` with the distance that the error
/// carries when it is before. The value depends on the machine's clock;
/// only that the nanoseconds are below one billion is claimed, as the
/// documentation of `Duration::subsec_nanos` says.
#[verifier::external_body]
fn clock_since_epoch() -> (r: (bool, u64, u32))
    ensures
        r.2 < 1_000_000_000,
{
    match std::time::UNIX_EPOCH.elapsed() {
        Ok(d) => (true, d.as_secs(), d.subsec_nanos()),
        Err(e) => (false, e.duration().as_secs(), e.duration().subsec_nanos()),
    }
}

/// A clock reading as seconds and nanoseconds after the epoch, the
/// nanoseconds below one billion, when the seconds fit in `i64`.
pub open spec fn signed_reading(after: bool, secs: u64, nanos: u32) -> Option<(i64, u32)> {
    if after {
        if secs <= i64::MAX { Some((secs as i64, nanos)) } else { None }
    } else if nanos == 0 {
        if secs <= i64::MAX { Some((-secs as i64, 0u32)) } else { None }
    } else {
        if secs < i64::MAX { Some(((-secs - 1) as i64, (1_000_000_000 - nanos) as u32)) } else { None }
    }
}

/// The time of a clock reading, when chrono holds it.
pub open spec fn clock_time(after: bool, secs: u64, nanos: u32) -> Option<(i64, u32)> {
    match signed_reading(after, secs, nanos) {
        Some(t) => if chrono_utc_valid(t.0, t.1) { Some(t) } else { None },
        None => None,
    }
}

/// The milliseconds after the epoch of a clock reading, rounded down as
/// chrono's `timestamp_millis` counts them.
pub open spec fn reading_millis(after: bool, secs: u64, nanos: u32) -> int {
    if after {
        secs * 1000 + nanos / 1_000_000
    } else {
        -(secs * 1000 + (nanos + 999_999) / 1_000_000)
    }
}

/// The lowest and highest milliseconds of the times that chrono holds.
pub open spec fn clamp_to_clock_range(m: int) -> int {
    if m < -8_400_000_000_000_000 {
        -8_400_000_000_000_000
    } else if m > 8_300_000_000_000_001_999 {
        8_300_000_000_000_001_999
    } else {
        m
    }
}

/// Trusted: `to_rfc3339_opts(SecondsFormat::AutoSi, true)` of chrono on the
/// time, the text that chrono's serde support writes for a `DateTime<Utc>`.
#[verifier::external_body]
fn rfc3339_format(secs: i64, nanos: u32) -> (r: String)
    requires
        chrono_utc_valid(secs, nanos),
    ensures
        r@ == rfc3339_text(secs, nanos),
{
    chrono::DateTime::<chrono::Utc>::from_timestamp(secs, nanos)
        .unwrap_or_default()
        .to_rfc3339_opts(chrono::SecondsFormat::AutoSi, true)
}

/// Trusted: `text.parse::<chrono::DateTime<chrono::FixedOffset>>()` taken to
/// UTC, as chrono's serde support reads a `DateTime<Utc>`: its timestamp and
/// the nanoseconds past it. Text that chrono wrote for a time reads back as
/// that time.
#[verifier::external_body]
fn rfc3339_read(text: &str) -> (r: Option<(i64, u32)>)
    ensures
        r == rfc3339_parse(text@),
        r matches Some(t) ==> chrono_utc_valid(t.0, t.1) && utc_bounds(t.0, t.1),
        forall|secs: i64, nanos: u32| #![trigger rfc3339_text(secs, nanos)]
            chrono_utc_valid(secs, nanos) && text@ == rfc3339_text(secs, nanos)
                ==> r == Some((secs, nanos)),
{
    text.parse::<chrono::DateTime<chrono::FixedOffset>>()
        .ok()
        .map(|t| (t.timestamp(), t.timestamp_subsec_nanos()))
}

/// A point in time, as chrono's `DateTime<Utc>` holds it.
#[derive(Clone, Copy, Debug, PartialEq, Eq, Structural)]
pub struct UtcTime {
    secs: i64,
    nanos: u32,
}

impl UtcTime {
    #[verifier::type_invariant]
    spec fn inv(self) -> bool {
        chrono_utc_valid(self.secs, self.nanos) && utc_bounds(self.secs, self.nanos)
    }

    /// Whole seconds since the Unix epoch.
    pub closed spec fn spec_secs(self) -> i64 {
        self.secs
    }

    /// Nanoseconds past the whole second.
    pub closed spec fn spec_nanos(self) -> u32 {
        self.nanos
    }

    /// Whether the time holds `secs` and `nanos`.
    pub open spec fn is(self, secs: i64, nanos: u32) -> bool {
        self.spec_secs() == secs && self.spec_nanos() == nanos
    }

    /// The time `secs` seconds and `nanos` nanoseconds after the epoch, when
    /// chrono holds it.
    pub fn from_parts(secs: i64, nanos: u32) -> (r: Option<UtcTime>)
        ensures
            r is Some <==> chrono_utc_valid(secs, nanos),
            r matches Some(t) ==> t.is(secs, nanos),
    {
        if utc_check(secs, nanos) {
            Some(UtcTime { secs, nanos })
        } else {
            None
        }
    }

    /// The current time, when chrono holds the time the clock reads; `None`
    /// for a clock more than about 262,000 years from the epoch.
    pub fn now() -> (r: Option<UtcTime>)
        ensures
            exists|after: bool, secs: u64, nanos: u32| #![trigger clock_time(after, secs, nanos)]
                nanos < 1_000_000_000 && match clock_time(after, secs, nanos) {
                    Some(t) => r matches Some(u) && u.is(t.0, t.1),
                    None => r is None,
                },
    {
        let (after, secs, nanos) = clock_since_epoch();
        let ghost g = signed_reading(after, secs, nanos);
        let limit: u64 = 9_223_372_036_854_775_807;
        let reading: Option<(i64, u32)> = if after {
            if secs <= limit { Some((secs as i64, nanos)) } else { None }
        } else if nanos == 0 {
            if secs <= limit { Some((0 - (secs as i64), 0u32)) } else { None }
        } else {
            if secs < limit { Some((0 - (secs as i64) - 1, 1_000_000_000 - nanos)) } else { None }
        };
        assert(reading == g);
        let r = match reading {
            Some((s, n)) => Self::from_parts(s, n),
            None => None,
        };
        assert(nanos < 1_000_000_000 && match clock_time(after, secs, nanos) {
            Some(t) => r matches Some(u) && u.is(t.0, t.1),
            None => r is None,
        });
        r
    }

    /// Whole seconds since the Unix epoch.
    pub fn timestamp(&self) -> (r: i64)
        ensures
            r == self.spec_secs(),
    {
        self.secs
    }

    /// Nanoseconds past the whole second.
    pub fn timestamp_subsec_nanos(&self) -> (r: u32)
        ensures
            r == self.spec_nanos(),
    {
        self.nanos
    }

    /// Milliseconds since the Unix epoch, as chrono's `timestamp_millis`
    /// counts them.
    pub fn timestamp_millis(&self) -> (r: i64)
        ensures
            r == millis_of(self.spec_secs(), self.spec_nanos()),
    {
        proof {
            use_type_invariant(self);
        }
        self.secs * 1000 + (self.nanos / 1_000_000) as i64
    }

    /// Whether this time comes strictly after `other`.
    pub fn is_after(&self, other: &UtcTime) -> (r: bool)
        ensures
            r == later(self.spec_secs(), self.spec_nanos(), other.spec_secs(), other.spec_nanos()),
    {
        self.secs > other.secs || (self.secs == other.secs && self.nanos > other.nanos)
    }

    /// The RFC 3339 text of the time, as chrono writes it.
    pub fn to_rfc3339(&self) -> (r: String)
        ensures
            r@ == rfc3339_text(self.spec_secs(), self.spec_nanos()),
            chrono_utc_valid(self.spec_secs(), self.spec_nanos()),
    {
        proof {
            use_type_invariant(self);
        }
        rfc3339_format(self.secs, self.nanos)
    }

    /// Reads RFC 3339 text as chrono reads it.
    pub fn parse_rfc3339(text: &str) -> (r: Option<UtcTime>)
        ensures
            match rfc3339_parse(text@) {
                Some(t) => r matches Some(u) && u.is(t.0, t.1),
                None => r is None,
            },
            forall|secs: i64, nanos: u32| #![trigger rfc3339_text(secs, nanos)]
                chrono_utc_valid(secs, nanos) && text@ == rfc3339_text(secs, nanos)
                    ==> (r matches Some(u) && u.is(secs, nanos)),
    {
        match rfc3339_read(text) {
            Some((secs, nanos)) => Some(UtcTime { secs, nanos }),
            None => None,
        }
    }
}

/// Milliseconds since the epoch of a time: chrono counts whole seconds and
/// the whole milliseconds past them.
pub open spec fn millis_of(secs: i64, nanos: u32) -> int {
    secs * 1000 + nanos / 1_000_000
}

/// Whether the time `(s1, n1)` comes strictly after `(s2, n2)`.
pub open spec fn later(s1: i64, n1: u32, s2: i64, n2: u32) -> bool {
    s1 > s2 || (s1 == s2 && n1 > n2)
}

/// The range of the milliseconds of the times that chrono holds.
pub open spec fn clock_range(t: int) -> bool {
    -8_400_000_000_000_000 <= t <= 8_300_000_000_000_001_999
}

/// The current time in Unix milliseconds, rounded down as chrono counts
/// them, held within the milliseconds of the times chrono holds.
pub fn now_millis() -> (t: i64)
    ensures
        exists|after: bool, secs: u64, nanos: u32| #![trigger reading_millis(after, secs, nanos)]
            nanos < 1_000_000_000 && t == clamp_to_clock_range(reading_millis(after, secs, nanos)),
        clock_range(t as int),
{
    let (after, secs, nanos) = clock_since_epoch();
    let whole = (secs as i128) * 1000;
    let m: i128 = if after {
        whole + (nanos / 1_000_000) as i128
    } else {
        0 - (whole + ((nanos as u64 + 999_999) / 1_000_000) as i128)
    };
    assert(m == reading_millis(after, secs, nanos));
    if m < -8_400_000_000_000_000 {
        -8_400_000_000_000_000
    } else if m > 8_300_000_000_000_001_999 {
        8_300_000_000_000_001_999
    } else {
        m as i64
    }
}

} // verus!

//! Entries of the network request log.

use vstd::prelude::*;

verus! {

/// A logged network request, kept for diagnosing delivery problems.
#[derive(Debug, Clone)]
pub struct RequestLog {
    /// Entry identifier.
    pub id: i64,
    /// Time of the request, in Unix milliseconds.
    pub timestamp: i64,
    /// `outgoing` or `incoming`.
    pub direction: String,
    /// Kind of request: `ping`, `text`, `delete`, ...
    pub request_type: String,
    /// Identifier of the contact.
    pub target_uid: Option<String>,
    /// Address and port of the contact.
    pub target_ip: Option<String>,
    /// HTTP status code.
    pub status_code: Option<i32>,
    /// Whether the request succeeded.
    pub success: bool,
    /// Error message of a failed request.
    pub error_message: Option<String>,
    /// What the peer answered.
    pub response_data: Option<String>,
}

/// The oldest time kept when logs of the last `keep_days` days are kept,
/// at `now_ms`; `None` when it leaves the range of `i64`.
pub fn request_log_cutoff(now_ms: i64, keep_days: i64) -> (r: Option<i64>)
    ensures
        i64::MIN <= keep_days * 86_400_000 <= i64::MAX
            && i64::MIN <= now_ms - keep_days * 86_400_000 <= i64::MAX
            ==> r == Some((now_ms - keep_days * 86_400_000) as i64),
        !(i64::MIN <= keep_days * 86_400_000 <= i64::MAX
            && i64::MIN <= now_ms - keep_days * 86_400_000 <= i64::MAX) ==> r is None,
{
    match keep_days.checked_mul(86_400_000) {
        Some(span) => now_ms.checked_sub(span),
        None => None,
    }
}

} // verus!

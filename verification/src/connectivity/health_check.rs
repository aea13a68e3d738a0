//! Whether a mapped port answers from outside: the probe's outcome and
//! what it means.

use vstd::prelude::*;
use crate::connectivity::types::PortMappingResult;
use crate::text::{write_str, trim, trimmed};

verus! {

/// Whether the mapped port answered from outside.
#[derive(Debug, Clone)]
pub enum ReachabilityStatus {
    /// The health endpoint answered `ok`.
    Reachable,
    /// The port did not answer, or answered otherwise.
    Unreachable,
    /// The probe could not be made; the reason is given.
    TestFailed(String),
}

/// What became of a probe of `http://<address>:<port>/health`.
#[derive(Debug, Clone)]
pub enum ProbeOutcome {
    /// The HTTP client could not be built.
    ClientFailed(String),
    /// The endpoint answered with a non-success status.
    NotSuccess,
    /// The endpoint answered with success and this body.
    Body(String),
    /// The endpoint answered with success and its body could not be read.
    BodyFailed(String),
    /// The request timed out.
    TimedOut,
    /// The connection failed.
    ConnectFailed,
    /// The request failed otherwise.
    RequestFailed(String),
}

/// The status a probe outcome gives.
pub open spec fn probe_status(o: ProbeOutcome) -> (Option<bool>, Seq<char>) {
    match o {
        ProbeOutcome::ClientFailed(e) => (None, "Client creation failed: "@ + e@),
        ProbeOutcome::NotSuccess => (Some(false), Seq::empty()),
        ProbeOutcome::Body(b) => (Some(trimmed(b@) == "ok"@), Seq::empty()),
        ProbeOutcome::BodyFailed(e) => (None, "Body read failed: "@ + e@),
        ProbeOutcome::TimedOut => (Some(false), Seq::empty()),
        ProbeOutcome::ConnectFailed => (Some(false), Seq::empty()),
        ProbeOutcome::RequestFailed(e) => (None, "Request failed: "@ + e@),
    }
}

/// Whether a status is the one `probe_status` describes: reachable or not,
/// or a failed test with its reason.
pub open spec fn status_is(r: ReachabilityStatus, s: (Option<bool>, Seq<char>)) -> bool {
    match s.0 {
        Some(true) => r is Reachable,
        Some(false) => r is Unreachable,
        None => r matches ReachabilityStatus::TestFailed(m) && m@ == s.1,
    }
}

/// Compares two texts.
fn same_text(a: &str, b: &str) -> (r: bool)
    ensures
        r == (a@ == b@),
{
    let x = a.to_owned();
    let y = b.to_owned();
    x == y
}

/// Joins a reason to its prefix.
fn reason(prefix: &str, e: &str) -> (r: String)
    ensures
        r@ == prefix@ + e@,
{
    let mut m = String::new();
    write_str(&mut m, prefix);
    write_str(&mut m, e);
    m
}

/// The reachability that a probe outcome shows: the port is reachable when
/// the health endpoint answers success with the body `ok` (white space
/// aside); a timeout, a failed connection or any other answer shows it
/// unreachable; a probe that could not be made says why.
pub fn classify_probe(outcome: &ProbeOutcome) -> (r: ReachabilityStatus)
    ensures
        status_is(r, probe_status(*outcome)),
{
    match outcome {
        ProbeOutcome::ClientFailed(e) => ReachabilityStatus::TestFailed(reason("Client creation failed: ", e.as_str())),
        ProbeOutcome::NotSuccess => ReachabilityStatus::Unreachable,
        ProbeOutcome::Body(b) => {
            if same_text(trim(b.as_str()), "ok") {
                ReachabilityStatus::Reachable
            } else {
                ReachabilityStatus::Unreachable
            }
        },
        ProbeOutcome::BodyFailed(e) => ReachabilityStatus::TestFailed(reason("Body read failed: ", e.as_str())),
        ProbeOutcome::TimedOut => ReachabilityStatus::Unreachable,
        ProbeOutcome::ConnectFailed => ReachabilityStatus::Unreachable,
        ProbeOutcome::RequestFailed(e) => ReachabilityStatus::TestFailed(reason("Request failed: ", e.as_str())),
    }
}

/// A check through a third-party port checker, which is not offered.
pub fn verify_via_port_checker(_mapping: &PortMappingResult) -> (r: ReachabilityStatus)
    ensures
        r matches ReachabilityStatus::TestFailed(m) && m@ == "Not implemented"@,
{
    ReachabilityStatus::TestFailed("Not implemented".to_owned())
}

} // verus!

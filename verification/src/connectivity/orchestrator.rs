//! The order in which connectivity strategies are tried, and what each
//! outcome leaves in the result.
//!
//! IPv6 comes first, then PCP, NAT-PMP, UPnP, and last the detection of the
//! external address over HTTP. The first strategy whose mapping answers on
//! its health endpoint from outside ends the search. The probes themselves
//! are network work, run by the caller.

use vstd::prelude::*;
use crate::connectivity::ip::IpAddr;
use crate::connectivity::types::{
    ConnectivityResult, StrategyAttempt, PortMappingResult, MappingProtocol, MappingError,
    MappingErrorView, mapping_error_text,
};
use crate::connectivity::cgnat::{detect_cgnat, is_cgnat_address};
use crate::connectivity::health_check::ReachabilityStatus;

verus! {

/// Lifetime asked for NAT mappings: one hour.
pub const MAPPING_LIFETIME_SECS: u32 = 3600;

/// A connectivity strategy.
#[derive(Debug, Clone, Copy, PartialEq, Eq, Structural)]
pub enum Strategy {
    /// Direct IPv6.
    Ipv6,
    /// Port Control Protocol.
    Pcp,
    /// NAT Port Mapping Protocol.
    NatPmp,
    /// UPnP Internet Gateway Device.
    Upnp,
    /// External address over HTTP, no mapping.
    Http,
}

/// The strategy after `s`, if any.
pub open spec fn next_after(s: Strategy) -> Option<Strategy> {
    match s {
        Strategy::Ipv6 => Some(Strategy::Pcp),
        Strategy::Pcp => Some(Strategy::NatPmp),
        Strategy::NatPmp => Some(Strategy::Upnp),
        Strategy::Upnp => Some(Strategy::Http),
        Strategy::Http => None,
    }
}

/// The strategies in the order they are tried.
pub open spec fn strategy_order() -> Seq<Strategy> {
    seq![Strategy::Ipv6, Strategy::Pcp, Strategy::NatPmp, Strategy::Upnp, Strategy::Http]
}

/// The search runs IPv6, PCP, NAT-PMP, UPnP, then HTTP address detection:
/// each strategy is followed by the next one in that order, and only HTTP,
/// the last, has no successor.
pub proof fn lemma_strategy_order(s: Strategy)
    ensures
        forall|i: int| 0 <= i < 4 ==> next_after(#[trigger] strategy_order()[i]) == Some(strategy_order()[i + 1]),
        next_after(Strategy::Http) is None,
        next_after(s) is None <==> s == Strategy::Http,
        s == Strategy::Upnp ==> next_after(s) == Some(Strategy::Http),
        strategy_order()[0] == Strategy::Ipv6,
{
    assert forall|i: int| 0 <= i < 4 implies next_after(#[trigger] strategy_order()[i]) == Some(strategy_order()[i + 1]) by {
        if i == 0 {} else if i == 1 {} else if i == 2 {} else {}
    }
}

/// The attempt recorded for `s` in `r`.
pub open spec fn attempt_of(r: ConnectivityResult, s: Strategy) -> StrategyAttempt {
    match s {
        Strategy::Ipv6 => r.ipv6,
        Strategy::Pcp => r.pcp,
        Strategy::NatPmp => r.natpmp,
        Strategy::Upnp => r.upnp,
        Strategy::Http => r.http,
    }
}

/// Whether `a` and `b` agree on every strategy but `s`.
pub open spec fn others_kept(a: ConnectivityResult, b: ConnectivityResult, s: Strategy) -> bool {
    forall|t: Strategy| t != s ==> #[trigger] attempt_of(a, t) == attempt_of(b, t)
}

/// The strategy tried first.
pub fn first_strategy() -> (r: Strategy)
    ensures
        r == Strategy::Ipv6,
{
    Strategy::Ipv6
}

/// The mapping of an address learned over HTTP: the local port, no
/// lifetime, no NAT mapping.
pub fn direct_mapping(external_ip: IpAddr, port: u16, created_at_ms: i64) -> (r: PortMappingResult)
    ensures
        r.external_ip == external_ip,
        r.external_port == port,
        r.lifetime_secs == 0,
        r.protocol == MappingProtocol::Direct,
        r.created_at_ms == created_at_ms,
{
    PortMappingResult {
        external_ip,
        external_port: port,
        lifetime_secs: 0,
        protocol: MappingProtocol::Direct,
        created_at_ms,
    }
}

/// Whether a probe confirmed that the mapping answers from outside.
pub open spec fn confirmed(probe: Option<ReachabilityStatus>) -> bool {
    probe matches Some(p) && p is Reachable
}

/// What an unconfirmed probe says of reachability: `Some(false)` when the
/// port did not answer, unknown when the probe failed or was not made.
pub open spec fn unconfirmed_verdict(probe: Option<ReachabilityStatus>) -> Option<bool> {
    match probe {
        Some(ReachabilityStatus::Unreachable) => Some(false),
        _ => None,
    }
}

/// Records the outcome of `strategy`, with the probe of its mapping's
/// health endpoint, and gives the strategy to try next.
///
/// A mapping confirmed reachable ends the search and becomes the result's
/// mapping. Otherwise the next strategy is tried; a mapping that was made
/// but not confirmed is kept as the result's mapping, with its verdict,
/// when no mapping was kept before.
pub fn record_attempt(
    result: &mut ConnectivityResult,
    strategy: Strategy,
    outcome: core::result::Result<PortMappingResult, MappingError>,
    probe: Option<ReachabilityStatus>,
) -> (next: Option<Strategy>)
    ensures
        others_kept(*old(result), *final(result), strategy),
        !(outcome is Ok && confirmed(probe)) ==> (next is None <==> strategy == Strategy::Http),
        strategy == Strategy::Upnp && !(outcome is Ok && confirmed(probe)) ==> next == Some(Strategy::Http),
        match outcome {
            Ok(m) => {
                &&& attempt_of(*final(result), strategy) == StrategyAttempt::Success(m)
                &&& if confirmed(probe) {
                    &&& next is None
                    &&& final(result).mapping == Some(m)
                    &&& final(result).cgnat_detected == is_cgnat_address(m.external_ip)
                    &&& final(result).externally_reachable == Some(true)
                } else {
                    &&& next == next_after(strategy)
                    &&& old(result).mapping is None ==> {
                        &&& final(result).mapping == Some(m)
                        &&& final(result).cgnat_detected == is_cgnat_address(m.external_ip)
                        &&& final(result).externally_reachable == unconfirmed_verdict(probe)
                    }
                    &&& old(result).mapping is Some ==> {
                        &&& final(result).mapping == old(result).mapping
                        &&& final(result).cgnat_detected == old(result).cgnat_detected
                        &&& final(result).externally_reachable == old(result).externally_reachable
                    }
                }
            },
            Err(e) => {
                &&& next == next_after(strategy)
                &&& attempt_of(*final(result), strategy) matches StrategyAttempt::Failed(t)
                &&& t@ == mapping_error_text(e@)
                &&& final(result).mapping == old(result).mapping
                &&& final(result).cgnat_detected == old(result).cgnat_detected
                &&& final(result).externally_reachable == old(result).externally_reachable
            },
        },
{
    let following = match strategy {
        Strategy::Ipv6 => Some(Strategy::Pcp),
        Strategy::Pcp => Some(Strategy::NatPmp),
        Strategy::NatPmp => Some(Strategy::Upnp),
        Strategy::Upnp => Some(Strategy::Http),
        Strategy::Http => None,
    };
    let (attempt, next) = match outcome {
        Ok(m) => {
            let reachable = match &probe {
                Some(ReachabilityStatus::Reachable) => true,
                _ => false,
            };
            if reachable {
                result.cgnat_detected = detect_cgnat(m.external_ip);
                result.mapping = Some(m);
                result.externally_reachable = Some(true);
                (StrategyAttempt::Success(m), None)
            } else {
                if result.mapping.is_none() {
                    result.cgnat_detected = detect_cgnat(m.external_ip);
                    result.mapping = Some(m);
                    result.externally_reachable = match &probe {
                        Some(ReachabilityStatus::Unreachable) => Some(false),
                        _ => None,
                    };
                }
                (StrategyAttempt::Success(m), following)
            }
        },
        Err(e) => (StrategyAttempt::Failed(e.message()), following),
    };
    match strategy {
        Strategy::Ipv6 => result.ipv6 = attempt,
        Strategy::Pcp => result.pcp = attempt,
        Strategy::NatPmp => result.natpmp = attempt,
        Strategy::Upnp => result.upnp = attempt,
        Strategy::Http => result.http = attempt,
    }
    next
}

/// The strategy after `s` in the port-mapping chain: PCP, then NAT-PMP,
/// then UPnP when `with_upnp`; none after the last.
pub open spec fn mapping_chain_next(s: Strategy, with_upnp: bool) -> Option<Strategy> {
    match s {
        Strategy::Pcp => Some(Strategy::NatPmp),
        Strategy::NatPmp => if with_upnp { Some(Strategy::Upnp) } else { None },
        _ => None,
    }
}

/// The decision after one step of the port-mapping chain: a mapping is the
/// answer; after a failure the next protocol is tried, and the failure of
/// the last one is the answer.
pub fn next_mapping_step(
    strategy: Strategy,
    with_upnp: bool,
    outcome: core::result::Result<PortMappingResult, MappingError>,
) -> (r: core::result::Result<core::result::Result<PortMappingResult, MappingError>, Strategy>)
    ensures
        match outcome {
            Ok(m) => r == Ok::<core::result::Result<PortMappingResult, MappingError>, Strategy>(
                Ok::<PortMappingResult, MappingError>(m)),
            Err(e) => match mapping_chain_next(strategy, with_upnp) {
                Some(n) => r == Err::<core::result::Result<PortMappingResult, MappingError>, Strategy>(n),
                None => r matches Ok(Err(f)) && f == e,
            },
        },
{
    match outcome {
        Ok(m) => Ok(Ok(m)),
        Err(e) => {
            let next = match strategy {
                Strategy::Pcp => Some(Strategy::NatPmp),
                Strategy::NatPmp => if with_upnp { Some(Strategy::Upnp) } else { None },
                _ => None,
            };
            match next {
                Some(n) => Err(n),
                None => Ok(Err(e)),
            }
        },
    }
}

/// What a reachability probe says of the mapping: reachable, not
/// reachable, or not known.
pub fn reachability_verdict(status: &ReachabilityStatus) -> (r: Option<bool>)
    ensures
        match status {
            ReachabilityStatus::Reachable => r == Some(true),
            ReachabilityStatus::Unreachable => r == Some(false),
            ReachabilityStatus::TestFailed(_) => r is None,
        },
{
    match status {
        ReachabilityStatus::Reachable => Some(true),
        ReachabilityStatus::Unreachable => Some(false),
        ReachabilityStatus::TestFailed(_) => None,
    }
}

/// Records whether the mapping answered from outside. `probe` is the
/// outcome of the probe of the mapping; without a mapping there is nothing
/// to reach and the result says so.
pub fn verify_connectivity_health_with(result: ConnectivityResult, probe: Option<ReachabilityStatus>) -> (r: ConnectivityResult)
    ensures
        r.mapping == result.mapping,
        r.cgnat_detected == result.cgnat_detected,
        forall|t: Strategy| #[trigger] attempt_of(r, t) == attempt_of(result, t),
        result.mapping is None ==> r.externally_reachable == Some(false),
        result.mapping is Some ==> match probe {
            Some(p) => r.externally_reachable == match p {
                ReachabilityStatus::Reachable => Some(true),
                ReachabilityStatus::Unreachable => Some(false),
                ReachabilityStatus::TestFailed(_) => None::<bool>,
            },
            None => r.externally_reachable is None,
        },
{
    let mut result = result;
    if result.mapping.is_some() {
        result.externally_reachable = match &probe {
            Some(p) => reachability_verdict(p),
            None => None,
        };
    } else {
        result.externally_reachable = Some(false);
    }
    result
}

} // verus!

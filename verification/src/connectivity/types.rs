//! Common types for the connectivity module

use vstd::prelude::*;
use crate::connectivity::ip::IpAddr;
use crate::text::write_str;

verus! {

/// Result of a port mapping operation
#[derive(Debug, Clone, Copy, PartialEq, Eq)]
pub struct PortMappingResult {
    /// External IP address visible to the internet
    pub external_ip: IpAddr,
    /// External port mapped on the gateway
    pub external_port: u16,
    /// Lifetime of the mapping in seconds
    pub lifetime_secs: u32,
    /// Protocol used for the mapping
    pub protocol: MappingProtocol,
    /// Timestamp when mapping was created (Unix milliseconds)
    pub created_at_ms: i64,
}

/// Protocols available for port mapping
#[derive(Debug, Clone, Copy, PartialEq, Eq)]
pub enum MappingProtocol {
    /// Port Control Protocol (RFC 6887)
    PCP,
    /// NAT Port Mapping Protocol (RFC 6886)
    NATPMP,
    /// Universal Plug and Play
    UPnP,
    /// Direct IPv6 connectivity (no NAT)
    IPv6,
    /// External address learned over HTTP, no port mapping
    Direct,
    /// Manual configuration (no automatic mapping)
    Manual,
}

/// Errors that can occur during port mapping
#[derive(Debug, Clone, PartialEq, Eq)]
pub enum MappingError {
    /// Network timeout waiting for response
    Timeout,
    /// Invalid response from gateway
    InvalidResponse(String),
    /// Gateway returned an error
    GatewayError(String),
    /// No gateway found on network
    NoGateway,
    /// IO error during communication
    Io(String),
    /// Protocol not supported by gateway
    NotSupported,
    /// Internal error
    Internal(String),
}

/// The abstract value of a `MappingError`: the variant and its text.
pub enum MappingErrorView {
    /// Network timeout
    Timeout,
    /// Invalid response, with its detail
    InvalidResponse(Seq<char>),
    /// Gateway error, with its detail
    GatewayError(Seq<char>),
    /// No gateway
    NoGateway,
    /// I/O error, with its detail
    Io(Seq<char>),
    /// Not supported
    NotSupported,
    /// Internal error, with its detail
    Internal(Seq<char>),
}

impl View for MappingError {
    type V = MappingErrorView;

    open spec fn view(&self) -> MappingErrorView {
        match self {
            MappingError::Timeout => MappingErrorView::Timeout,
            MappingError::InvalidResponse(s) => MappingErrorView::InvalidResponse(s@),
            MappingError::GatewayError(s) => MappingErrorView::GatewayError(s@),
            MappingError::NoGateway => MappingErrorView::NoGateway,
            MappingError::Io(s) => MappingErrorView::Io(s@),
            MappingError::NotSupported => MappingErrorView::NotSupported,
            MappingError::Internal(s) => MappingErrorView::Internal(s@),
        }
    }
}

/// The abstract value of a mapping outcome.
pub open spec fn mapping_outcome<T>(r: Result<T, MappingError>) -> Result<T, MappingErrorView> {
    match r {
        Ok(v) => Ok(v),
        Err(e) => Err(e@),
    }
}

/// The text a `MappingError` displays.
pub open spec fn mapping_error_text(e: MappingErrorView) -> Seq<char> {
    match e {
        MappingErrorView::Timeout => "Mapping request timed out"@,
        MappingErrorView::InvalidResponse(s) => "Invalid response: "@ + s,
        MappingErrorView::GatewayError(s) => "Gateway error: "@ + s,
        MappingErrorView::NoGateway => "No gateway found"@,
        MappingErrorView::Io(s) => "IO error: "@ + s,
        MappingErrorView::NotSupported => "Protocol not supported"@,
        MappingErrorView::Internal(s) => "Internal error: "@ + s,
    }
}

impl MappingError {
    /// The text this error displays to a user.
    pub fn message(&self) -> (s: String)
        ensures
            s@ == mapping_error_text(self@),
    {
        match self {
            MappingError::Timeout => String::from_str("Mapping request timed out"),
            MappingError::InvalidResponse(d) => {
                let mut s = String::from_str("Invalid response: ");
                s.append(d.as_str());
                s
            },
            MappingError::GatewayError(d) => {
                let mut s = String::from_str("Gateway error: ");
                s.append(d.as_str());
                s
            },
            MappingError::NoGateway => String::from_str("No gateway found"),
            MappingError::Io(d) => {
                let mut s = String::from_str("IO error: ");
                s.append(d.as_str());
                s
            },
            MappingError::NotSupported => String::from_str("Protocol not supported"),
            MappingError::Internal(d) => {
                let mut s = String::from_str("Internal error: ");
                s.append(d.as_str());
                s
            },
        }
    }
}

/// Outcome of one connectivity strategy.
#[derive(Debug, Clone)]
pub enum StrategyAttempt {
    /// The strategy was not tried.
    NotAttempted,
    /// The strategy gave a mapping.
    Success(PortMappingResult),
    /// The strategy failed, for the reason given.
    Failed(String),
}

/// Outcome of trying the connectivity strategies in turn.
#[derive(Debug, Clone)]
pub struct ConnectivityResult {
    /// IPv6 attempt.
    pub ipv6: StrategyAttempt,
    /// PCP attempt.
    pub pcp: StrategyAttempt,
    /// NAT-PMP attempt.
    pub natpmp: StrategyAttempt,
    /// UPnP attempt.
    pub upnp: StrategyAttempt,
    /// HTTP address detection attempt.
    pub http: StrategyAttempt,
    /// The mapping in use, if a strategy gave one.
    pub mapping: Option<PortMappingResult>,
    /// Whether the external address lies in the carrier-grade NAT range.
    pub cgnat_detected: bool,
    /// Whether the mapping answered from outside: `None` when not known.
    pub externally_reachable: Option<bool>,
}

/// One part of the summary: the strategy's label and what became of it.
pub open spec fn attempt_text(label: Seq<char>, untried: Seq<char>, a: StrategyAttempt) -> Seq<char> {
    match a {
        StrategyAttempt::NotAttempted => label + ": "@ + untried,
        StrategyAttempt::Success(_) => label + ": ok"@,
        StrategyAttempt::Failed(e) => label + ": "@ + e@,
    }
}

/// The summary of a connectivity result: a CGNAT warning when detected,
/// then each strategy's outcome, joined by arrows.
pub open spec fn summary_text(r: ConnectivityResult) -> Seq<char> {
    (if r.cgnat_detected { "⚠️  CGNAT"@ + " → "@ } else { Seq::empty() })
        + attempt_text("IPv6"@, "not checked"@, r.ipv6) + " → "@
        + attempt_text("PCP"@, "not tried"@, r.pcp) + " → "@
        + attempt_text("NAT-PMP"@, "not tried"@, r.natpmp) + " → "@
        + attempt_text("UPnP"@, "not tried"@, r.upnp)
}

/// Appends one part of the summary.
fn write_attempt(out: &mut String, label: &str, untried: &str, a: &StrategyAttempt)
    ensures
        final(out)@ == old(out)@ + attempt_text(label@, untried@, *a),
{
    write_str(out, label);
    match a {
        StrategyAttempt::NotAttempted => {
            write_str(out, ": ");
            write_str(out, untried);
        },
        StrategyAttempt::Success(_) => {
            write_str(out, ": ok");
        },
        StrategyAttempt::Failed(e) => {
            write_str(out, ": ");
            write_str(out, e.as_str());
        },
    }
    assert(final(out)@ =~= old(out)@ + attempt_text(label@, untried@, *a));
}

impl ConnectivityResult {
    /// Whether nothing has been tried yet.
    pub open spec fn is_empty(self) -> bool {
        &&& self.ipv6 is NotAttempted
        &&& self.pcp is NotAttempted
        &&& self.natpmp is NotAttempted
        &&& self.upnp is NotAttempted
        &&& self.http is NotAttempted
        &&& self.mapping is None
        &&& !self.cgnat_detected
        &&& self.externally_reachable is None
    }

    /// A result with nothing tried.
    pub fn new() -> (r: Self)
        ensures
            r.is_empty(),
    {
        ConnectivityResult {
            ipv6: StrategyAttempt::NotAttempted,
            pcp: StrategyAttempt::NotAttempted,
            natpmp: StrategyAttempt::NotAttempted,
            upnp: StrategyAttempt::NotAttempted,
            http: StrategyAttempt::NotAttempted,
            mapping: None,
            cgnat_detected: false,
            externally_reachable: None,
        }
    }

    /// Whether some strategy gave a mapping.
    pub fn is_success(&self) -> (r: bool)
        ensures
            r == self.mapping is Some,
    {
        self.mapping.is_some()
    }

    /// The outcome of every strategy in one line.
    pub fn summary(&self) -> (r: String)
        ensures
            r@ == summary_text(*self),
    {
        let mut out = String::new();
        if self.cgnat_detected {
            write_str(&mut out, "⚠️  CGNAT");
            write_str(&mut out, " → ");
        }
        write_attempt(&mut out, "IPv6", "not checked", &self.ipv6);
        write_str(&mut out, " → ");
        write_attempt(&mut out, "PCP", "not tried", &self.pcp);
        write_str(&mut out, " → ");
        write_attempt(&mut out, "NAT-PMP", "not tried", &self.natpmp);
        write_str(&mut out, " → ");
        write_attempt(&mut out, "UPnP", "not tried", &self.upnp);
        assert(out@ =~= summary_text(*self));
        out
    }
}

impl Default for ConnectivityResult {
    fn default() -> (r: Self)
        ensures
            r.is_empty(),
    {
        Self::new()
    }
}

/// IP protocol numbers
#[derive(Debug, Clone, Copy, PartialEq, Eq)]
pub enum IpProtocol {
    /// TCP protocol
    TCP,
    /// UDP protocol
    UDP,
}

/// The IANA protocol number of an IP protocol.
pub open spec fn protocol_number(p: IpProtocol) -> u8 {
    match p {
        IpProtocol::TCP => 6,
        IpProtocol::UDP => 17,
    }
}

/// TCP is IP protocol 6 and UDP is IP protocol 17, as IANA assigns them.
pub proof fn lemma_protocol_numbers(p: IpProtocol)
    ensures
        p is TCP ==> protocol_number(p) == 6,
        p is UDP ==> protocol_number(p) == 17,
        protocol_number(IpProtocol::TCP) != protocol_number(IpProtocol::UDP),
{
}

impl IpProtocol {
    /// The IANA protocol number (6 for TCP, 17 for UDP).
    pub fn number(&self) -> (n: u8)
        ensures
            n == protocol_number(*self),
            *self is TCP ==> n == 6,
            *self is UDP ==> n == 17,
    {
        match self {
            IpProtocol::TCP => 6,
            IpProtocol::UDP => 17,
        }
    }
}

} // verus!

//! NAT-PMP (NAT Port Mapping Protocol) - RFC 6886
//!
//! A MAP request is 12 bytes and its response 16 bytes; the external
//! address request is 2 bytes and its response 12 bytes. The UDP exchange
//! with the gateway (port 5351) is done by the application, which hands
//! the received bytes to the parsers here.

use vstd::prelude::*;
use crate::connectivity::ip::{IpAddr, be16, be32, from_be16, from_be32, read_be16, read_be32, push_be16, push_be32};
use crate::connectivity::types::{PortMappingResult, MappingProtocol, MappingError, MappingErrorView, mapping_outcome, IpProtocol};
use crate::text::{decimal, write_decimal, write_str};

verus! {

/// NAT-PMP server port (IANA assigned)
pub const NATPMP_SERVER_PORT: u16 = 5351;

/// NAT-PMP protocol version
pub const NATPMP_VERSION: u8 = 0;

/// NAT-PMP opcodes (the variants are in the order of their numbers)
#[derive(Debug, Clone, Copy, PartialEq, Eq)]
pub enum NatPmpOpcode {
    /// External address request (0)
    ExternalAddress,
    /// UDP port mapping (1)
    MapUdp,
    /// TCP port mapping (2)
    MapTcp,
}

/// NAT-PMP result codes
#[derive(Debug, Clone, Copy, PartialEq, Eq)]
pub enum NatPmpResultCode {
    /// 0
    Success,
    /// 1
    UnsupportedVersion,
    /// 2
    NotAuthorized,
    /// 3
    NetworkFailure,
    /// 4
    OutOfResources,
    /// 5
    UnsupportedOpcode,
}

/// The result code that a wire value denotes.
pub open spec fn natpmp_result_code(code: u16) -> Option<NatPmpResultCode> {
    if code == 0 { Some(NatPmpResultCode::Success) }
    else if code == 1 { Some(NatPmpResultCode::UnsupportedVersion) }
    else if code == 2 { Some(NatPmpResultCode::NotAuthorized) }
    else if code == 3 { Some(NatPmpResultCode::NetworkFailure) }
    else if code == 4 { Some(NatPmpResultCode::OutOfResources) }
    else if code == 5 { Some(NatPmpResultCode::UnsupportedOpcode) }
    else { None }
}

/// The wire value of a result code.
pub open spec fn natpmp_result_value(c: NatPmpResultCode) -> u16 {
    match c {
        NatPmpResultCode::Success => 0,
        NatPmpResultCode::UnsupportedVersion => 1,
        NatPmpResultCode::NotAuthorized => 2,
        NatPmpResultCode::NetworkFailure => 3,
        NatPmpResultCode::OutOfResources => 4,
        NatPmpResultCode::UnsupportedOpcode => 5,
    }
}

/// Every result code is read back from its wire value, and only codes up
/// to 5 are known.
pub proof fn lemma_natpmp_result_code_round_trip(c: NatPmpResultCode, v: u16)
    ensures
        natpmp_result_code(natpmp_result_value(c)) == Some(c),
        natpmp_result_code(v) is Some <==> v <= 5,
{
}

/// The description of a result code.
pub open spec fn natpmp_result_text(c: NatPmpResultCode) -> Seq<char> {
    match c {
        NatPmpResultCode::Success => "Success"@,
        NatPmpResultCode::UnsupportedVersion => "Unsupported NAT-PMP version"@,
        NatPmpResultCode::NotAuthorized => "Not authorized/refused"@,
        NatPmpResultCode::NetworkFailure => "Network failure"@,
        NatPmpResultCode::OutOfResources => "Out of resources"@,
        NatPmpResultCode::UnsupportedOpcode => "Unsupported opcode"@,
    }
}

impl NatPmpResultCode {
    /// The result code that a wire value denotes, if any.
    pub fn from_u16(code: u16) -> (r: Option<NatPmpResultCode>)
        ensures
            r == natpmp_result_code(code),
    {
        match code {
            0 => Some(NatPmpResultCode::Success),
            1 => Some(NatPmpResultCode::UnsupportedVersion),
            2 => Some(NatPmpResultCode::NotAuthorized),
            3 => Some(NatPmpResultCode::NetworkFailure),
            4 => Some(NatPmpResultCode::OutOfResources),
            5 => Some(NatPmpResultCode::UnsupportedOpcode),
            _ => None,
        }
    }

    /// A human-readable description of the result code.
    pub fn to_error_message(&self) -> (s: &'static str)
        ensures
            s@ == natpmp_result_text(*self),
    {
        match self {
            NatPmpResultCode::Success => "Success",
            NatPmpResultCode::UnsupportedVersion => "Unsupported NAT-PMP version",
            NatPmpResultCode::NotAuthorized => "Not authorized/refused",
            NatPmpResultCode::NetworkFailure => "Network failure",
            NatPmpResultCode::OutOfResources => "Out of resources",
            NatPmpResultCode::UnsupportedOpcode => "Unsupported opcode",
        }
    }
}

/// The MAP opcode for an IP protocol: 1 for UDP, 2 for TCP.
pub open spec fn natpmp_map_opcode(protocol: IpProtocol) -> u8 {
    match protocol {
        IpProtocol::UDP => 1,
        IpProtocol::TCP => 2,
    }
}

/// The 12 bytes of a NAT-PMP MAP request.
pub open spec fn natpmp_map_request(internal_port: u16, suggested_external_port: u16, lifetime_secs: u32, protocol: IpProtocol) -> Seq<u8> {
    seq![NATPMP_VERSION, natpmp_map_opcode(protocol), 0u8, 0u8]
        + be16(internal_port) + be16(suggested_external_port) + be32(lifetime_secs)
}

/// A NAT-PMP MAP request is 12 bytes: version 0, the opcode 1 for a UDP
/// mapping or 2 for a TCP mapping (RFC 6886), then the internal port, the
/// suggested external port and the lifetime, most significant byte first.
pub proof fn lemma_natpmp_request_layout(internal_port: u16, suggested_external_port: u16, lifetime_secs: u32, protocol: IpProtocol)
    ensures
        natpmp_map_request(internal_port, suggested_external_port, lifetime_secs, protocol).len() == 12,
        natpmp_map_request(internal_port, suggested_external_port, lifetime_secs, protocol)[0] == 0,
        protocol is UDP ==> natpmp_map_request(internal_port, suggested_external_port, lifetime_secs, protocol)[1] == 1,
        protocol is TCP ==> natpmp_map_request(internal_port, suggested_external_port, lifetime_secs, protocol)[1] == 2,
        natpmp_map_request(internal_port, suggested_external_port, lifetime_secs, protocol)[4] * 256
            + natpmp_map_request(internal_port, suggested_external_port, lifetime_secs, protocol)[5] == internal_port,
        natpmp_map_request(internal_port, suggested_external_port, lifetime_secs, protocol)[6] * 256
            + natpmp_map_request(internal_port, suggested_external_port, lifetime_secs, protocol)[7] == suggested_external_port,
{
    let r = natpmp_map_request(internal_port, suggested_external_port, lifetime_secs, protocol);
    crate::connectivity::ip::lemma_big_endian(internal_port, lifetime_secs);
    crate::connectivity::ip::lemma_big_endian(suggested_external_port, lifetime_secs);
    assert(r[4] == be16(internal_port)[0] && r[5] == be16(internal_port)[1]);
    assert(r[6] == be16(suggested_external_port)[0] && r[7] == be16(suggested_external_port)[1]);
}

/// Build a NAT-PMP MAP request packet
pub fn build_natpmp_map_request(
    internal_port: u16,
    suggested_external_port: u16,
    lifetime_secs: u32,
    protocol: IpProtocol,
) -> (request: Vec<u8>)
    ensures
        request@ == natpmp_map_request(internal_port, suggested_external_port, lifetime_secs, protocol),
        request@.len() == 12,
{
    let mut request: Vec<u8> = Vec::with_capacity(12);
    request.push(NATPMP_VERSION);
    let opcode: u8 = match protocol {
        IpProtocol::UDP => 1,
        IpProtocol::TCP => 2,
    };
    request.push(opcode);
    request.push(0u8);
    request.push(0u8);
    push_be16(&mut request, internal_port);
    push_be16(&mut request, suggested_external_port);
    push_be32(&mut request, lifetime_secs);
    assert(request@ =~= natpmp_map_request(internal_port, suggested_external_port, lifetime_secs, protocol));
    request
}

/// Build a NAT-PMP external address request packet (version, opcode 0).
pub fn build_natpmp_external_address_request() -> (request: Vec<u8>)
    ensures
        request@ == seq![NATPMP_VERSION, 0u8],
{
    let mut request: Vec<u8> = Vec::with_capacity(2);
    request.push(NATPMP_VERSION);
    request.push(0u8);
    assert(request@ =~= seq![NATPMP_VERSION, 0u8]);
    request
}

/// The fields of a successful NAT-PMP MAP response.
#[derive(Debug, Clone, Copy, PartialEq, Eq)]
pub struct NatPmpMapReply {
    /// Seconds since the gateway's port mapping table was initialized
    pub epoch_secs: u32,
    /// The internal port the gateway mapped
    pub internal_port: u16,
    /// The external port the gateway assigned
    pub external_port: u16,
    /// The lifetime the gateway granted, in seconds
    pub lifetime_secs: u32,
}

/// The text of the error for a MAP response shorter than 16 bytes.
pub open spec fn natpmp_too_short_text(len: nat) -> Seq<char> {
    "Response too short: "@ + decimal(len) + " bytes (expected 16)"@
}

/// The text of the error for a response with the wrong version.
pub open spec fn natpmp_version_text(version: nat) -> Seq<char> {
    "Invalid version: "@ + decimal(version) + " (expected 0)"@
}

/// The text of the error for an unknown result code.
pub open spec fn natpmp_unknown_code_text(code: nat) -> Seq<char> {
    "Unknown result code: "@ + decimal(code)
}

/// What a NAT-PMP MAP response denotes.
///
/// Checks in order: the length (at least 16 bytes), the version (0), the
/// opcode (at least 128, a response), the result code in bytes 2..4 (known,
/// and success). Then epoch, internal port, external port and lifetime
/// follow big-endian in bytes 4..16.
pub open spec fn natpmp_map_response(r: Seq<u8>, result: Result<NatPmpMapReply, MappingErrorView>) -> bool {
    if r.len() < 16 {
        result == Err::<NatPmpMapReply, MappingErrorView>(MappingErrorView::InvalidResponse(natpmp_too_short_text(r.len())))
    } else if r[0] != NATPMP_VERSION {
        result == Err::<NatPmpMapReply, MappingErrorView>(MappingErrorView::InvalidResponse(natpmp_version_text(r[0] as nat)))
    } else if r[1] < 128 {
        result == Err::<NatPmpMapReply, MappingErrorView>(MappingErrorView::InvalidResponse("Received request instead of response"@))
    } else if natpmp_result_code(from_be16(r[2], r[3])) is None {
        result == Err::<NatPmpMapReply, MappingErrorView>(MappingErrorView::InvalidResponse(natpmp_unknown_code_text(from_be16(r[2], r[3]) as nat)))
    } else if from_be16(r[2], r[3]) != 0 {
        result == Err::<NatPmpMapReply, MappingErrorView>(MappingErrorView::GatewayError(natpmp_result_text(natpmp_result_code(from_be16(r[2], r[3])).unwrap())))
    } else {
        result == Ok::<NatPmpMapReply, MappingErrorView>(NatPmpMapReply {
            epoch_secs: from_be32(r[4], r[5], r[6], r[7]),
            internal_port: from_be16(r[8], r[9]),
            external_port: from_be16(r[10], r[11]),
            lifetime_secs: from_be32(r[12], r[13], r[14], r[15]),
        })
    }
}

/// Parse a NAT-PMP MAP response packet
///
/// The response carries no external address; the application asks the
/// gateway for it with an external address request and combines the two
/// with `natpmp_mapping_result`.
pub fn parse_natpmp_map_response(response: &[u8]) -> (r: Result<NatPmpMapReply, MappingError>)
    ensures
        natpmp_map_response(response@, mapping_outcome(r)),
{
    if response.len() < 16 {
        let mut msg = String::from_str("Response too short: ");
        write_decimal(&mut msg, response.len() as u64);
        write_str(&mut msg, " bytes (expected 16)");
        return Err(MappingError::InvalidResponse(msg));
    }
    let version = response[0];
    if version != NATPMP_VERSION {
        let mut msg = String::from_str("Invalid version: ");
        write_decimal(&mut msg, version as u64);
        write_str(&mut msg, " (expected 0)");
        return Err(MappingError::InvalidResponse(msg));
    }
    if response[1] < 128 {
        return Err(MappingError::InvalidResponse(String::from_str("Received request instead of response")));
    }
    let result_code = read_be16(response[2], response[3]);
    let result = match NatPmpResultCode::from_u16(result_code) {
        Some(c) => c,
        None => {
            let mut msg = String::from_str("Unknown result code: ");
            write_decimal(&mut msg, result_code as u64);
            return Err(MappingError::InvalidResponse(msg));
        },
    };
    if result_code != 0 {
        return Err(MappingError::GatewayError(String::from_str(result.to_error_message())));
    }
    Ok(NatPmpMapReply {
        epoch_secs: read_be32(response[4], response[5], response[6], response[7]),
        internal_port: read_be16(response[8], response[9]),
        external_port: read_be16(response[10], response[11]),
        lifetime_secs: read_be32(response[12], response[13], response[14], response[15]),
    })
}

/// The text of the error for an external address response shorter than 12 bytes.
pub open spec fn natpmp_address_too_short_text(len: nat) -> Seq<char> {
    "External IP response too short: "@ + decimal(len) + " bytes"@
}

/// The text of the error for an external address response with the wrong version.
pub open spec fn natpmp_address_version_text(version: nat) -> Seq<char> {
    "Invalid version in external IP response: "@ + decimal(version)
}

/// The text of the error for an external address response with the wrong opcode.
pub open spec fn natpmp_address_opcode_text(opcode: nat) -> Seq<char> {
    "Invalid opcode in external IP response: "@ + decimal(opcode)
}

/// What a NAT-PMP external address response denotes.
///
/// Checks in order: the length (at least 12 bytes), the version (0), the
/// opcode (exactly 128), the result code (known, and success); the address
/// is bytes 8..12.
pub open spec fn natpmp_address_response(r: Seq<u8>, result: Result<IpAddr, MappingErrorView>) -> bool {
    if r.len() < 12 {
        result == Err::<IpAddr, MappingErrorView>(MappingErrorView::InvalidResponse(natpmp_address_too_short_text(r.len())))
    } else if r[0] != NATPMP_VERSION {
        result == Err::<IpAddr, MappingErrorView>(MappingErrorView::InvalidResponse(natpmp_address_version_text(r[0] as nat)))
    } else if r[1] != 128 {
        result == Err::<IpAddr, MappingErrorView>(MappingErrorView::InvalidResponse(natpmp_address_opcode_text(r[1] as nat)))
    } else if natpmp_result_code(from_be16(r[2], r[3])) is None {
        result == Err::<IpAddr, MappingErrorView>(MappingErrorView::InvalidResponse(natpmp_unknown_code_text(from_be16(r[2], r[3]) as nat)))
    } else if from_be16(r[2], r[3]) != 0 {
        result == Err::<IpAddr, MappingErrorView>(MappingErrorView::GatewayError(natpmp_result_text(natpmp_result_code(from_be16(r[2], r[3])).unwrap())))
    } else {
        result matches Ok(ip) && (ip matches IpAddr::V4(o) && o@ == r.subrange(8, 12))
    }
}

/// Parse a NAT-PMP external address response packet
pub fn parse_natpmp_external_address_response(response: &[u8]) -> (r: Result<IpAddr, MappingError>)
    ensures
        natpmp_address_response(response@, mapping_outcome(r)),
{
    if response.len() < 12 {
        let mut msg = String::from_str("External IP response too short: ");
        write_decimal(&mut msg, response.len() as u64);
        write_str(&mut msg, " bytes");
        return Err(MappingError::InvalidResponse(msg));
    }
    let version = response[0];
    let opcode = response[1];
    let result_code = read_be16(response[2], response[3]);
    if version != NATPMP_VERSION {
        let mut msg = String::from_str("Invalid version in external IP response: ");
        write_decimal(&mut msg, version as u64);
        return Err(MappingError::InvalidResponse(msg));
    }
    if opcode != 128 {
        let mut msg = String::from_str("Invalid opcode in external IP response: ");
        write_decimal(&mut msg, opcode as u64);
        return Err(MappingError::InvalidResponse(msg));
    }
    let result = match NatPmpResultCode::from_u16(result_code) {
        Some(c) => c,
        None => {
            let mut msg = String::from_str("Unknown result code: ");
            write_decimal(&mut msg, result_code as u64);
            return Err(MappingError::InvalidResponse(msg));
        },
    };
    if result_code != 0 {
        return Err(MappingError::GatewayError(String::from_str(result.to_error_message())));
    }
    let o: [u8; 4] = [response[8], response[9], response[10], response[11]];
    assert(o@ =~= response@.subrange(8, 12));
    Ok(IpAddr::V4(o))
}

/// The mapping that a MAP reply and the gateway's external address make.
pub fn natpmp_mapping_result(reply: &NatPmpMapReply, external_ip: IpAddr, created_at_ms: i64) -> (m: PortMappingResult)
    ensures
        m == (PortMappingResult {
            external_ip,
            external_port: reply.external_port,
            lifetime_secs: reply.lifetime_secs,
            protocol: MappingProtocol::NATPMP,
            created_at_ms,
        }),
{
    PortMappingResult {
        external_ip,
        external_port: reply.external_port,
        lifetime_secs: reply.lifetime_secs,
        protocol: MappingProtocol::NATPMP,
        created_at_ms,
    }
}

} // verus!

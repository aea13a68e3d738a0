//! PCP (Port Control Protocol) - RFC 6887
//!
//! MAP requests are 60 bytes: a 24-byte common header and 36 bytes of
//! MAP data. Responses are at least 60 bytes. The UDP exchange with the
//! gateway (port 5351) is done by the application.

use vstd::prelude::*;
use crate::clock::{now_millis, clock_range};
use crate::connectivity::ip::{IpAddr, be16, be32, from_be16, from_be32, zeros, read_be16, read_be32, push_be16, push_be32, push_zeros, push_bytes};
use crate::connectivity::types::{PortMappingResult, MappingProtocol, MappingError, MappingErrorView, mapping_outcome, IpProtocol, protocol_number};
use crate::text::{decimal, write_decimal, write_str};

verus! {

/// PCP protocol version
pub const PCP_VERSION: u8 = 2;

/// PCP server port (IANA assigned)
pub const PCP_SERVER_PORT: u16 = 5351;

/// PCP opcode values (the variants are in the order of their numbers)
#[derive(Debug, Clone, Copy, PartialEq, Eq)]
pub enum PcpOpcode {
    /// ANNOUNCE (0)
    Announce,
    /// MAP (1)
    Mapping,
    /// PEER (2)
    Peer,
}

/// PCP result codes
#[derive(Debug, Clone, Copy, PartialEq, Eq)]
pub enum PcpResultCode {
    /// 0
    Success,
    /// 1
    UnsuppVersion,
    /// 2
    NotAuthorized,
    /// 3
    MalformedRequest,
    /// 4
    UnsuppOpcode,
    /// 5
    UnsuppOption,
    /// 6
    MalformedOption,
    /// 7
    NetworkFailure,
    /// 8
    NoResources,
    /// 9
    UnsuppProtocol,
    /// 10
    UserExQuota,
    /// 11
    CannotProvideExternal,
    /// 12
    AddressMismatch,
    /// 13
    ExcessiveRemotePeers,
}

/// The result code that a wire value denotes.
pub open spec fn pcp_result_code(code: u8) -> Option<PcpResultCode> {
    if code == 0 { Some(PcpResultCode::Success) }
    else if code == 1 { Some(PcpResultCode::UnsuppVersion) }
    else if code == 2 { Some(PcpResultCode::NotAuthorized) }
    else if code == 3 { Some(PcpResultCode::MalformedRequest) }
    else if code == 4 { Some(PcpResultCode::UnsuppOpcode) }
    else if code == 5 { Some(PcpResultCode::UnsuppOption) }
    else if code == 6 { Some(PcpResultCode::MalformedOption) }
    else if code == 7 { Some(PcpResultCode::NetworkFailure) }
    else if code == 8 { Some(PcpResultCode::NoResources) }
    else if code == 9 { Some(PcpResultCode::UnsuppProtocol) }
    else if code == 10 { Some(PcpResultCode::UserExQuota) }
    else if code == 11 { Some(PcpResultCode::CannotProvideExternal) }
    else if code == 12 { Some(PcpResultCode::AddressMismatch) }
    else if code == 13 { Some(PcpResultCode::ExcessiveRemotePeers) }
    else { None }
}

/// The wire value of a result code.
pub open spec fn pcp_result_value(c: PcpResultCode) -> u8 {
    match c {
        PcpResultCode::Success => 0,
        PcpResultCode::UnsuppVersion => 1,
        PcpResultCode::NotAuthorized => 2,
        PcpResultCode::MalformedRequest => 3,
        PcpResultCode::UnsuppOpcode => 4,
        PcpResultCode::UnsuppOption => 5,
        PcpResultCode::MalformedOption => 6,
        PcpResultCode::NetworkFailure => 7,
        PcpResultCode::NoResources => 8,
        PcpResultCode::UnsuppProtocol => 9,
        PcpResultCode::UserExQuota => 10,
        PcpResultCode::CannotProvideExternal => 11,
        PcpResultCode::AddressMismatch => 12,
        PcpResultCode::ExcessiveRemotePeers => 13,
    }
}

/// Every result code is read back from its wire value, and only codes up
/// to 13 are known.
pub proof fn lemma_pcp_result_code_round_trip(c: PcpResultCode, v: u8)
    ensures
        pcp_result_code(pcp_result_value(c)) == Some(c),
        pcp_result_code(v) is Some <==> v <= 13,
{
}

/// The description of a result code.
pub open spec fn pcp_result_text(c: PcpResultCode) -> Seq<char> {
    match c {
        PcpResultCode::Success => "Success"@,
        PcpResultCode::UnsuppVersion => "Unsupported PCP version"@,
        PcpResultCode::NotAuthorized => "Not authorized"@,
        PcpResultCode::MalformedRequest => "Malformed request"@,
        PcpResultCode::UnsuppOpcode => "Unsupported opcode"@,
        PcpResultCode::UnsuppOption => "Unsupported option"@,
        PcpResultCode::MalformedOption => "Malformed option"@,
        PcpResultCode::NetworkFailure => "Network failure"@,
        PcpResultCode::NoResources => "No resources available"@,
        PcpResultCode::UnsuppProtocol => "Unsupported protocol"@,
        PcpResultCode::UserExQuota => "User exceeded quota"@,
        PcpResultCode::CannotProvideExternal => "Cannot provide external port"@,
        PcpResultCode::AddressMismatch => "Address mismatch"@,
        PcpResultCode::ExcessiveRemotePeers => "Excessive remote peers"@,
    }
}

impl PcpResultCode {
    /// The result code that a wire value denotes, if any.
    pub fn from_u8(code: u8) -> (r: Option<PcpResultCode>)
        ensures
            r == pcp_result_code(code),
    {
        match code {
            0 => Some(PcpResultCode::Success),
            1 => Some(PcpResultCode::UnsuppVersion),
            2 => Some(PcpResultCode::NotAuthorized),
            3 => Some(PcpResultCode::MalformedRequest),
            4 => Some(PcpResultCode::UnsuppOpcode),
            5 => Some(PcpResultCode::UnsuppOption),
            6 => Some(PcpResultCode::MalformedOption),
            7 => Some(PcpResultCode::NetworkFailure),
            8 => Some(PcpResultCode::NoResources),
            9 => Some(PcpResultCode::UnsuppProtocol),
            10 => Some(PcpResultCode::UserExQuota),
            11 => Some(PcpResultCode::CannotProvideExternal),
            12 => Some(PcpResultCode::AddressMismatch),
            13 => Some(PcpResultCode::ExcessiveRemotePeers),
            _ => None,
        }
    }

    /// A human-readable description of the result code.
    pub fn to_error_message(&self) -> (s: &'static str)
        ensures
            s@ == pcp_result_text(*self),
    {
        match self {
            PcpResultCode::Success => "Success",
            PcpResultCode::UnsuppVersion => "Unsupported PCP version",
            PcpResultCode::NotAuthorized => "Not authorized",
            PcpResultCode::MalformedRequest => "Malformed request",
            PcpResultCode::UnsuppOpcode => "Unsupported opcode",
            PcpResultCode::UnsuppOption => "Unsupported option",
            PcpResultCode::MalformedOption => "Malformed option",
            PcpResultCode::NetworkFailure => "Network failure",
            PcpResultCode::NoResources => "No resources available",
            PcpResultCode::UnsuppProtocol => "Unsupported protocol",
            PcpResultCode::UserExQuota => "User exceeded quota",
            PcpResultCode::CannotProvideExternal => "Cannot provide external port",
            PcpResultCode::AddressMismatch => "Address mismatch",
            PcpResultCode::ExcessiveRemotePeers => "Excessive remote peers",
        }
    }
}

/// The 16 address bytes of a PCP message: IPv6 as is, IPv4 mapped as ::ffff:a.b.c.d.
pub open spec fn pcp_address_bytes(ip: IpAddr) -> Seq<u8> {
    match ip {
        IpAddr::V4(o) => zeros(10) + seq![0xffu8, 0xffu8] + o@,
        IpAddr::V6(o) => o@,
    }
}

/// The 60 bytes of a PCP MAP request.
pub open spec fn pcp_map_request(local_ip: IpAddr, internal_port: u16, lifetime_secs: u32, protocol: IpProtocol) -> Seq<u8> {
    seq![PCP_VERSION, 1u8, 0u8, 0u8] + be32(lifetime_secs) + pcp_address_bytes(local_ip)
        + zeros(12) + seq![protocol_number(protocol)] + zeros(3)
        + be16(internal_port) + be16(internal_port) + zeros(16)
}

/// A PCP MAP request is 60 bytes; byte 36 asks for the protocol by its IANA
/// number, 6 for TCP and 17 for UDP, and bytes 40..44 carry the internal
/// port twice (internal and suggested external), most significant first.
pub proof fn lemma_pcp_request_layout(local_ip: IpAddr, internal_port: u16, lifetime_secs: u32, protocol: IpProtocol)
    ensures
        pcp_map_request(local_ip, internal_port, lifetime_secs, protocol).len() == 60,
        protocol is TCP ==> pcp_map_request(local_ip, internal_port, lifetime_secs, protocol)[36] == 6,
        protocol is UDP ==> pcp_map_request(local_ip, internal_port, lifetime_secs, protocol)[36] == 17,
        pcp_map_request(local_ip, internal_port, lifetime_secs, protocol)[40] * 256
            + pcp_map_request(local_ip, internal_port, lifetime_secs, protocol)[41] == internal_port,
        pcp_map_request(local_ip, internal_port, lifetime_secs, protocol)[42] * 256
            + pcp_map_request(local_ip, internal_port, lifetime_secs, protocol)[43] == internal_port,
{
    let r = pcp_map_request(local_ip, internal_port, lifetime_secs, protocol);
    let a = pcp_address_bytes(local_ip);
    assert(a.len() == 16);
    let head = seq![PCP_VERSION, 1u8, 0u8, 0u8] + be32(lifetime_secs) + a + zeros(12);
    assert(head.len() == 36);
    assert(r[36] == protocol_number(protocol));
    assert(r[40] == be16(internal_port)[0]);
    assert(r[41] == be16(internal_port)[1]);
    assert(r[42] == be16(internal_port)[0]);
    assert(r[43] == be16(internal_port)[1]);
}

/// Build a PCP MAP request packet
///
/// The suggested external port is the internal port; the mapping nonce and
/// the suggested external address are zero.
pub fn build_pcp_map_request(local_ip: IpAddr, internal_port: u16, lifetime_secs: u32, protocol: IpProtocol) -> (request: Vec<u8>)
    ensures
        request@ == pcp_map_request(local_ip, internal_port, lifetime_secs, protocol),
        request@.len() == 60,
        protocol is TCP ==> request@[36] == 6,
        protocol is UDP ==> request@[36] == 17,
{
    let mut request: Vec<u8> = Vec::with_capacity(60);
    request.push(PCP_VERSION);
    request.push(1u8);
    push_zeros(&mut request, 2);
    push_be32(&mut request, lifetime_secs);
    match local_ip {
        IpAddr::V4(o) => {
            push_zeros(&mut request, 10);
            request.push(0xffu8);
            request.push(0xffu8);
            push_bytes(&mut request, &o);
        },
        IpAddr::V6(o) => {
            push_bytes(&mut request, &o);
        },
    }
    push_zeros(&mut request, 12);
    request.push(protocol.number());
    push_zeros(&mut request, 3);
    push_be16(&mut request, internal_port);
    push_be16(&mut request, internal_port);
    push_zeros(&mut request, 16);
    assert(request@ =~= pcp_map_request(local_ip, internal_port, lifetime_secs, protocol));
    proof {
        lemma_pcp_request_layout(local_ip, internal_port, lifetime_secs, protocol);
    }
    request
}

/// Whether 16 address bytes hold an IPv4-mapped IPv6 address (::ffff:a.b.c.d).
pub open spec fn is_ipv4_mapped(b: Seq<u8>) -> bool {
    b.subrange(0, 10) == zeros(10) && b[10] == 0xff && b[11] == 0xff
}

/// The text of the error for an address field of the wrong length.
pub open spec fn address_length_text(len: nat) -> Seq<char> {
    "Invalid IP address length: "@ + decimal(len) + " (expected 16)"@
}

/// The address that 16 PCP address bytes denote.
pub open spec fn pcp_address_of(b: Seq<u8>, ip: IpAddr) -> bool {
    if is_ipv4_mapped(b) {
        ip matches IpAddr::V4(o) && o@ == b.subrange(12, 16)
    } else {
        ip matches IpAddr::V6(o) && o@ == b
    }
}

/// Parse a 16-byte PCP IP address (IPv6 or IPv4-mapped IPv6)
pub fn parse_pcp_ip_address(bytes: &[u8]) -> (r: Result<IpAddr, MappingError>)
    ensures
        bytes@.len() != 16 ==> (r matches Err(e) && e@ == MappingErrorView::InvalidResponse(address_length_text(bytes@.len()))),
        bytes@.len() == 16 ==> (r matches Ok(ip) && pcp_address_of(bytes@, ip)),
{
    if bytes.len() != 16 {
        let mut msg = String::from_str("Invalid IP address length: ");
        write_decimal(&mut msg, bytes.len() as u64);
        write_str(&mut msg, " (expected 16)");
        return Err(MappingError::InvalidResponse(msg));
    }
    let mut mapped = bytes[10] == 0xff && bytes[11] == 0xff;
    let mut i: usize = 0;
    while i < 10
        invariant
            bytes@.len() == 16,
            i <= 10,
            mapped == (bytes@[10] == 0xff && bytes@[11] == 0xff
                && forall|j: int| 0 <= j < i ==> bytes@[j] == 0),
        decreases 10 - i,
    {
        if bytes[i] != 0 {
            mapped = false;
        }
        i = i + 1;
    }
    proof {
        if mapped {
            assert(bytes@.subrange(0, 10) =~= zeros(10));
        } else if bytes@[10] == 0xff && bytes@[11] == 0xff {
            let j = choose|j: int| 0 <= j < 10 && bytes@[j] != 0;
            assert(bytes@.subrange(0, 10)[j] != zeros(10)[j]);
        }
    }
    if mapped {
        let o: [u8; 4] = [bytes[12], bytes[13], bytes[14], bytes[15]];
        assert(o@ =~= bytes@.subrange(12, 16));
        Ok(IpAddr::V4(o))
    } else {
        let o: [u8; 16] = [
            bytes[0], bytes[1], bytes[2], bytes[3], bytes[4], bytes[5], bytes[6], bytes[7],
            bytes[8], bytes[9], bytes[10], bytes[11], bytes[12], bytes[13], bytes[14], bytes[15],
        ];
        assert(o@ =~= bytes@);
        Ok(IpAddr::V6(o))
    }
}

/// The text of the error for a response shorter than 60 bytes.
pub open spec fn pcp_too_short_text(len: nat) -> Seq<char> {
    "Response too short: "@ + decimal(len) + " bytes (expected at least 60)"@
}

/// The text of the error for a response with an opcode other than MAP.
pub open spec fn pcp_wrong_opcode_text(opcode: nat) -> Seq<char> {
    "Wrong opcode: got "@ + decimal(opcode) + ", expected 1"@
}

/// The text of the error for an unknown result code.
pub open spec fn unknown_result_code_text(code: nat) -> Seq<char> {
    "Unknown result code: "@ + decimal(code)
}

/// What a PCP MAP response denotes, given the time the mapping is recorded at.
///
/// Checks in order: the length (at least 60 bytes), the R bit of byte 1
/// (a response), the opcode (MAP), the result code in byte 3 (known, and
/// success). Then the lifetime is bytes 4..8, the external port bytes
/// 42..44, and the external address bytes 44..60. A version other than 2
/// and an internal port other than the expected one are tolerated.
pub open spec fn pcp_map_response(r: Seq<u8>, created_at_ms: i64, result: Result<PortMappingResult, MappingErrorView>) -> bool {
    if r.len() < 60 {
        result == Err::<PortMappingResult, MappingErrorView>(MappingErrorView::InvalidResponse(pcp_too_short_text(r.len())))
    } else if r[1] < 128 {
        result == Err::<PortMappingResult, MappingErrorView>(MappingErrorView::InvalidResponse("Received request instead of response"@))
    } else if r[1] % 128 != 1 {
        result == Err::<PortMappingResult, MappingErrorView>(MappingErrorView::InvalidResponse(pcp_wrong_opcode_text((r[1] % 128) as nat)))
    } else if pcp_result_code(r[3]) is None {
        result == Err::<PortMappingResult, MappingErrorView>(MappingErrorView::InvalidResponse(unknown_result_code_text(r[3] as nat)))
    } else if r[3] != 0 {
        result == Err::<PortMappingResult, MappingErrorView>(MappingErrorView::GatewayError(pcp_result_text(pcp_result_code(r[3]).unwrap())))
    } else {
        result matches Ok(m) && {
            &&& m.lifetime_secs == from_be32(r[4], r[5], r[6], r[7])
            &&& m.external_port == from_be16(r[42], r[43])
            &&& pcp_address_of(r.subrange(44, 60), m.external_ip)
            &&& m.protocol == MappingProtocol::PCP
            &&& m.created_at_ms == created_at_ms
        }
    }
}

/// Parse a PCP MAP response packet, recording the mapping at `created_at_ms`.
pub fn parse_pcp_map_response_at(response: &[u8], expected_internal_port: u16, created_at_ms: i64) -> (r: Result<PortMappingResult, MappingError>)
    ensures
        pcp_map_response(response@, created_at_ms, mapping_outcome(r)),
{
    if response.len() < 60 {
        let mut msg = String::from_str("Response too short: ");
        write_decimal(&mut msg, response.len() as u64);
        write_str(&mut msg, " bytes (expected at least 60)");
        return Err(MappingError::InvalidResponse(msg));
    }
    let opcode_byte = response[1];
    if opcode_byte < 128 {
        return Err(MappingError::InvalidResponse(String::from_str("Received request instead of response")));
    }
    let opcode = opcode_byte % 128;
    if opcode != 1 {
        let mut msg = String::from_str("Wrong opcode: got ");
        write_decimal(&mut msg, opcode as u64);
        write_str(&mut msg, ", expected 1");
        return Err(MappingError::InvalidResponse(msg));
    }
    let result_code = response[3];
    let result = match PcpResultCode::from_u8(result_code) {
        Some(c) => c,
        None => {
            let mut msg = String::from_str("Unknown result code: ");
            write_decimal(&mut msg, result_code as u64);
            return Err(MappingError::InvalidResponse(msg));
        },
    };
    if result_code != 0 {
        return Err(MappingError::GatewayError(String::from_str(result.to_error_message())));
    }
    let lifetime_secs = read_be32(response[4], response[5], response[6], response[7]);
    let external_port = read_be16(response[42], response[43]);
    let address = &response[44..60];
    let external_ip = match parse_pcp_ip_address(address) {
        Ok(ip) => ip,
        Err(e) => return Err(e),
    };
    Ok(PortMappingResult {
        external_ip,
        external_port,
        lifetime_secs,
        protocol: MappingProtocol::PCP,
        created_at_ms,
    })
}

/// Parse a PCP MAP response packet, recording the mapping at the current time.
pub fn parse_pcp_map_response(response: &[u8], expected_internal_port: u16) -> (r: Result<PortMappingResult, MappingError>)
    ensures
        exists|t: i64| clock_range(t as int) && pcp_map_response(response@, t, mapping_outcome(r)),
{
    let now = now_millis();
    let r = parse_pcp_map_response_at(response, expected_internal_port, now);
    assert(pcp_map_response(response@, now, mapping_outcome(r)));
    r
}

} // verus!

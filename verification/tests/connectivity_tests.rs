use pure2p::connectivity::gateway::{
    gateway_from_linux_routes, gateway_from_macos_routes, gateway_from_windows_routes, parse_hex_u32, parse_ipv4,
    split_at_char, split_lines, split_words, text_chars,
};
use pure2p::connectivity::upnp::{mapping_description, upnp_mapping_result};
use pure2p::connectivity::cgnat::{detect_cgnat, is_private_ip, is_ipv6_link_local, is_ipv6_private};
use pure2p::connectivity::health_check::{classify_probe, verify_via_port_checker, ProbeOutcome, ReachabilityStatus};
use pure2p::connectivity::ip::IpAddr;
use pure2p::connectivity::ipv6::is_global_ipv6;
use pure2p::connectivity::natpmp::{
    build_natpmp_external_address_request, build_natpmp_map_request, natpmp_mapping_result,
    parse_natpmp_external_address_response, parse_natpmp_map_response, NatPmpOpcode, NatPmpResultCode,
    NATPMP_VERSION,
};
use pure2p::connectivity::orchestrator::{
    direct_mapping, first_strategy, next_mapping_step, reachability_verdict, record_attempt,
    verify_connectivity_health_with, Strategy,
    MAPPING_LIFETIME_SECS,
};
use pure2p::connectivity::pcp::{
    build_pcp_map_request, parse_pcp_ip_address, parse_pcp_map_response_at, PcpOpcode, PcpResultCode, PCP_VERSION,
};
use pure2p::connectivity::types::{
    ConnectivityResult, IpProtocol, MappingError, MappingProtocol, PortMappingResult, StrategyAttempt,
};

fn v4(a: u8, b: u8, c: u8, d: u8) -> IpAddr {
    IpAddr::V4([a, b, c, d])
}

fn v6(text: &str) -> IpAddr {
    let (head, tail) = match text.find("::") {
        Some(i) => (&text[..i], &text[i + 2..]),
        None => (text, ""),
    };
    let parse = |s: &str| -> Vec<u16> {
        if s.is_empty() { vec![] } else { s.split(':').map(|g| u16::from_str_radix(g, 16).unwrap()).collect() }
    };
    let h = parse(head);
    let t = parse(tail);
    let mut segs = h.clone();
    segs.extend(std::iter::repeat(0u16).take(8 - h.len() - t.len()));
    segs.extend(t);
    let mut o = [0u8; 16];
    for (i, g) in segs.iter().enumerate() {
        o[2 * i] = (g >> 8) as u8;
        o[2 * i + 1] = (g & 0xff) as u8;
    }
    IpAddr::V6(o)
}

fn v4_text(text: &str) -> IpAddr {
    let p: Vec<u8> = text.split('.').map(|x| x.parse().unwrap()).collect();
    IpAddr::V4([p[0], p[1], p[2], p[3]])
}

#[test]
fn test_pcp_result_code_conversion() {
    assert_eq!(PcpResultCode::from_u8(0), Some(PcpResultCode::Success));
    assert_eq!(PcpResultCode::from_u8(1), Some(PcpResultCode::UnsuppVersion));
    assert_eq!(PcpResultCode::from_u8(255), None);
}

#[test]
fn test_pcp_result_code_error_message() {
    assert_eq!(PcpResultCode::Success.to_error_message(), "Success");
    assert_eq!(PcpResultCode::NotAuthorized.to_error_message(), "Not authorized");
}

#[test]
fn test_build_pcp_map_request_ipv4() {
    let local_ip = v4(192, 168, 1, 100);
    let request = build_pcp_map_request(local_ip, 8080, 3600, IpProtocol::TCP);

    assert_eq!(request.len(), 60, "PCP MAP request should be 60 bytes");
    assert_eq!(request[0], PCP_VERSION, "First byte should be PCP version");
    assert_eq!(request[1], PcpOpcode::Mapping as u8, "Second byte should be MAP opcode");
    let lifetime = u32::from_be_bytes([request[4], request[5], request[6], request[7]]);
    assert_eq!(lifetime, 3600, "Lifetime should match requested value");
    assert_eq!(&request[8..18], &[0u8; 10], "Should have 10 zero bytes");
    assert_eq!(&request[18..20], &[0xff, 0xff], "Should have 0xffff marker");
    assert_eq!(&request[20..24], &[192, 168, 1, 100], "Should have IPv4 address");
    assert_eq!(request[36], IpProtocol::TCP.number(), "Protocol should be TCP");
    let internal_port = u16::from_be_bytes([request[40], request[41]]);
    assert_eq!(internal_port, 8080, "Internal port should match");
}

#[test]
fn test_parse_pcp_ip_address_ipv4_mapped() {
    let bytes = [0, 0, 0, 0, 0, 0, 0, 0, 0, 0, 0xff, 0xff, 203, 0, 113, 10];
    let ip = parse_pcp_ip_address(&bytes).unwrap();
    assert_eq!(ip, v4(203, 0, 113, 10));
}

#[test]
fn test_parse_pcp_ip_address_ipv6() {
    let bytes = [
        0x20, 0x01, 0x0d, 0xb8, 0x00, 0x00, 0x00, 0x00, 0x00, 0x00, 0x00, 0x00, 0x00, 0x00, 0x00, 0x01,
    ];
    let ip = parse_pcp_ip_address(&bytes).unwrap();
    assert!(matches!(ip, IpAddr::V6(_)));
}

#[test]
fn test_parse_pcp_ip_address_invalid_length() {
    let bytes = [0u8; 8];
    let result = parse_pcp_ip_address(&bytes);
    assert!(result.is_err());
}

#[test]
fn test_natpmp_result_code_conversion() {
    assert_eq!(NatPmpResultCode::from_u16(0), Some(NatPmpResultCode::Success));
    assert_eq!(NatPmpResultCode::from_u16(1), Some(NatPmpResultCode::UnsupportedVersion));
    assert_eq!(NatPmpResultCode::from_u16(2), Some(NatPmpResultCode::NotAuthorized));
    assert_eq!(NatPmpResultCode::from_u16(999), None);
}

#[test]
fn test_natpmp_result_code_error_message() {
    assert_eq!(NatPmpResultCode::Success.to_error_message(), "Success");
    assert_eq!(NatPmpResultCode::NotAuthorized.to_error_message(), "Not authorized/refused");
    assert_eq!(NatPmpResultCode::NetworkFailure.to_error_message(), "Network failure");
}

#[test]
fn test_build_natpmp_map_request_tcp() {
    let request = build_natpmp_map_request(8080, 8080, 3600, IpProtocol::TCP);

    assert_eq!(request.len(), 12, "NAT-PMP MAP request should be 12 bytes");
    assert_eq!(request[0], NATPMP_VERSION, "First byte should be NAT-PMP version (0)");
    assert_eq!(request[1], NatPmpOpcode::MapTcp as u8, "Second byte should be MAP TCP opcode (2)");
    assert_eq!(request[2], 0, "Reserved byte 1 should be 0");
    assert_eq!(request[3], 0, "Reserved byte 2 should be 0");
    let internal_port = u16::from_be_bytes([request[4], request[5]]);
    assert_eq!(internal_port, 8080, "Internal port should match");
    let external_port = u16::from_be_bytes([request[6], request[7]]);
    assert_eq!(external_port, 8080, "Suggested external port should match");
    let lifetime = u32::from_be_bytes([request[8], request[9], request[10], request[11]]);
    assert_eq!(lifetime, 3600, "Lifetime should match requested value");
}

#[test]
fn test_build_natpmp_map_request_udp() {
    let request = build_natpmp_map_request(5060, 5060, 1800, IpProtocol::UDP);

    assert_eq!(request.len(), 12, "NAT-PMP MAP request should be 12 bytes");
    assert_eq!(request[1], NatPmpOpcode::MapUdp as u8, "Second byte should be MAP UDP opcode (1)");
    let internal_port = u16::from_be_bytes([request[4], request[5]]);
    assert_eq!(internal_port, 5060);
    let lifetime = u32::from_be_bytes([request[8], request[9], request[10], request[11]]);
    assert_eq!(lifetime, 1800);
}

fn natpmp_map_response(result_code: u16) -> Vec<u8> {
    let mut response = Vec::with_capacity(16);
    response.push(NATPMP_VERSION);
    response.push(128 + NatPmpOpcode::MapTcp as u8);
    response.extend_from_slice(&result_code.to_be_bytes());
    response.extend_from_slice(&1234567u32.to_be_bytes());
    response.extend_from_slice(&8080u16.to_be_bytes());
    response.extend_from_slice(&50123u16.to_be_bytes());
    response.extend_from_slice(&3600u32.to_be_bytes());
    response
}

#[test]
fn test_natpmp_map_response_parsing() {
    let response = natpmp_map_response(0);
    let result = parse_natpmp_map_response(&response);
    assert!(result.is_err() || result.is_ok());
    let reply = result.unwrap();
    assert_eq!(reply.epoch_secs, 1234567);
    assert_eq!(reply.internal_port, 8080);
    assert_eq!(reply.external_port, 50123);
    assert_eq!(reply.lifetime_secs, 3600);
    let mapping = natpmp_mapping_result(&reply, v4(192, 168, 1, 1), 77);
    assert_eq!(mapping.external_port, 50123);
    assert_eq!(mapping.protocol, MappingProtocol::NATPMP);
    assert_eq!(mapping.created_at_ms, 77);
}

#[test]
fn test_natpmp_response_invalid_version() {
    let mut response = vec![0u8; 16];
    response[0] = 99;
    response[1] = 130;
    let result = parse_natpmp_map_response(&response);
    assert!(result.is_err());
    if let Err(MappingError::InvalidResponse(msg)) = result {
        assert!(msg.contains("Invalid version"));
    }
}

#[test]
fn test_natpmp_response_too_short() {
    let response = vec![0u8; 10];
    let result = parse_natpmp_map_response(&response);
    assert!(result.is_err());
    if let Err(MappingError::InvalidResponse(msg)) = result {
        assert!(msg.contains("too short"));
    }
}

#[test]
fn test_natpmp_response_error_code() {
    let mut response = Vec::with_capacity(16);
    response.push(NATPMP_VERSION);
    response.push(130);
    response.extend_from_slice(&3u16.to_be_bytes());
    response.extend_from_slice(&[0u8; 12]);
    let result = parse_natpmp_map_response(&response);
    assert!(result.is_err());
    if let Err(MappingError::GatewayError(msg)) = result {
        assert_eq!(msg, "Network failure");
    }
}

#[test]
fn natpmp_external_address_request_and_reply() {
    assert_eq!(build_natpmp_external_address_request(), vec![0u8, 0u8]);
    let reply = vec![0u8, 128, 0, 0, 0, 0, 0, 5, 203, 0, 113, 7];
    assert_eq!(parse_natpmp_external_address_response(&reply).unwrap(), v4(203, 0, 113, 7));
}

#[test]
fn pcp_map_response_round_trip() {
    let mut response = vec![0u8; 60];
    response[0] = PCP_VERSION;
    response[1] = 128 + 1;
    response[3] = 0;
    response[4..8].copy_from_slice(&3600u32.to_be_bytes());
    response[40..42].copy_from_slice(&8080u16.to_be_bytes());
    response[42..44].copy_from_slice(&50123u16.to_be_bytes());
    response[54] = 0xff;
    response[55] = 0xff;
    response[56..60].copy_from_slice(&[203, 0, 113, 10]);
    let mapping = parse_pcp_map_response_at(&response, 8080, 99).unwrap();
    assert_eq!(mapping.external_ip, v4(203, 0, 113, 10));
    assert_eq!(mapping.external_port, 50123);
    assert_eq!(mapping.lifetime_secs, 3600);
    assert_eq!(mapping.protocol, MappingProtocol::PCP);
    assert_eq!(mapping.created_at_ms, 99);
    assert!(parse_pcp_map_response_at(&response, 8081, 99).is_ok());
}

#[test]
fn test_detect_cgnat_in_range() {
    assert!(detect_cgnat(v4_text("100.64.0.0")));
    assert!(detect_cgnat(v4_text("100.100.50.25")));
    assert!(detect_cgnat(v4_text("100.127.255.255")));
}

#[test]
fn test_detect_cgnat_outside_range() {
    assert!(!detect_cgnat(v4_text("100.63.255.255")));
    assert!(!detect_cgnat(v4_text("100.128.0.0")));
    assert!(!detect_cgnat(v4_text("203.0.113.5")));
    assert!(!detect_cgnat(v4_text("192.168.1.1")));
}

#[test]
fn test_detect_cgnat_ipv6() {
    assert!(!detect_cgnat(v6("2001:4860:4860::8888")));
    assert!(!detect_cgnat(v6("::1")));
}

#[test]
fn test_is_private_ip_v4() {
    assert!(is_private_ip(v4_text("10.0.0.1")));
    assert!(is_private_ip(v4_text("172.16.0.1")));
    assert!(is_private_ip(v4_text("192.168.1.1")));
    assert!(is_private_ip(v4_text("127.0.0.1")));
    assert!(is_private_ip(v4_text("169.254.0.1")));
    assert!(!is_private_ip(v4_text("8.8.8.8")));
    assert!(!is_private_ip(v4_text("100.64.0.1")));
}

#[test]
fn test_is_private_ip_v6() {
    assert!(is_private_ip(v6("::1")));
    assert!(is_private_ip(v6("fe80::1")));
    assert!(is_private_ip(v6("fc00::1")));
    assert!(is_private_ip(v6("fd00::1")));
    assert!(!is_private_ip(v6("2001:4860:4860::8888")));
}

#[test]
fn ipv6_link_local_and_private_octets() {
    let link = match v6("fe80::1") { IpAddr::V6(o) => o, _ => unreachable!() };
    let global = match v6("2001:4860:4860::8888") { IpAddr::V6(o) => o, _ => unreachable!() };
    let loopback = match v6("::1") { IpAddr::V6(o) => o, _ => unreachable!() };
    assert!(is_ipv6_link_local(&link));
    assert!(is_ipv6_private(&link));
    assert!(!is_ipv6_link_local(&global));
    assert!(is_global_ipv6(&global));
    assert!(!is_global_ipv6(&link));
    assert!(!is_global_ipv6(&loopback));
}

fn mapping(ip: IpAddr) -> PortMappingResult {
    PortMappingResult {
        external_ip: ip,
        external_port: 9999,
        lifetime_secs: 3600,
        protocol: MappingProtocol::UPnP,
        created_at_ms: 5,
    }
}

#[test]
fn strategies_run_in_order_until_a_mapping() {
    let mut result = ConnectivityResult::new();
    assert!(!result.is_success());
    assert_eq!(first_strategy(), Strategy::Ipv6);
    assert_eq!(MAPPING_LIFETIME_SECS, 3600);
    let next = record_attempt(&mut result, Strategy::Ipv6, Err(MappingError::NotSupported), None);
    assert_eq!(next, Some(Strategy::Pcp));
    let next = record_attempt(&mut result, Strategy::Pcp, Err(MappingError::Timeout), None);
    assert_eq!(next, Some(Strategy::NatPmp));
    let next = record_attempt(&mut result, Strategy::NatPmp, Err(MappingError::NoGateway), None);
    assert_eq!(next, Some(Strategy::Upnp));
    let next = record_attempt(
        &mut result,
        Strategy::Upnp,
        Ok(mapping(v4(100, 64, 1, 2))),
        Some(ReachabilityStatus::Reachable),
    );
    assert_eq!(next, None);
    assert!(result.is_success());
    assert!(result.cgnat_detected);
    assert!(matches!(result.http, StrategyAttempt::NotAttempted));
    assert_eq!(
        result.summary(),
        "⚠️  CGNAT → IPv6: Protocol not supported → PCP: Mapping request timed out → NAT-PMP: No gateway found → UPnP: ok"
    );
}

#[test]
fn summary_of_a_fresh_result() {
    let result = ConnectivityResult::default();
    assert_eq!(result.summary(), "IPv6: not checked → PCP: not tried → NAT-PMP: not tried → UPnP: not tried");
}

#[test]
fn http_fallback_is_the_last_strategy() {
    let mut result = ConnectivityResult::new();
    assert_eq!(record_attempt(&mut result, Strategy::Http, Err(MappingError::NotSupported), None), None);
    assert!(!result.is_success());
    let direct = direct_mapping(v4(203, 0, 113, 9), 4000, 12);
    assert_eq!(direct.lifetime_secs, 0);
    assert_eq!(direct.protocol, MappingProtocol::Direct);
    assert_eq!(record_attempt(&mut result, Strategy::Http, Ok(direct), Some(ReachabilityStatus::Unreachable)), None);
    assert_eq!(result.externally_reachable, Some(false));
    assert_eq!(result.mapping, Some(direct));
    assert!(!result.cgnat_detected);
}

#[test]
fn health_verdicts() {
    let none = verify_connectivity_health_with(ConnectivityResult::new(), None);
    assert_eq!(none.externally_reachable, Some(false));
    let mut with_mapping = ConnectivityResult::new();
    record_attempt(&mut with_mapping, Strategy::Pcp, Ok(mapping(v4(203, 0, 113, 1))), None);
    let ok = verify_connectivity_health_with(with_mapping.clone(), Some(ReachabilityStatus::Reachable));
    assert_eq!(ok.externally_reachable, Some(true));
    let bad = verify_connectivity_health_with(with_mapping.clone(), Some(ReachabilityStatus::Unreachable));
    assert_eq!(bad.externally_reachable, Some(false));
    let unknown = verify_connectivity_health_with(with_mapping, Some(ReachabilityStatus::TestFailed("x".to_string())));
    assert_eq!(unknown.externally_reachable, None);
}

#[test]
fn probe_classification() {
    assert!(matches!(classify_probe(&ProbeOutcome::Body(" ok\n".to_string())), ReachabilityStatus::Reachable));
    assert!(matches!(classify_probe(&ProbeOutcome::Body("okay".to_string())), ReachabilityStatus::Unreachable));
    assert!(matches!(classify_probe(&ProbeOutcome::NotSuccess), ReachabilityStatus::Unreachable));
    assert!(matches!(classify_probe(&ProbeOutcome::TimedOut), ReachabilityStatus::Unreachable));
    assert!(matches!(classify_probe(&ProbeOutcome::ConnectFailed), ReachabilityStatus::Unreachable));
    match classify_probe(&ProbeOutcome::RequestFailed("boom".to_string())) {
        ReachabilityStatus::TestFailed(m) => assert_eq!(m, "Request failed: boom"),
        other => panic!("unexpected {:?}", other),
    }
    match classify_probe(&ProbeOutcome::ClientFailed("tls".to_string())) {
        ReachabilityStatus::TestFailed(m) => assert_eq!(m, "Client creation failed: tls"),
        other => panic!("unexpected {:?}", other),
    }
    match classify_probe(&ProbeOutcome::BodyFailed("eof".to_string())) {
        ReachabilityStatus::TestFailed(m) => assert_eq!(m, "Body read failed: eof"),
        other => panic!("unexpected {:?}", other),
    }
    match verify_via_port_checker(&mapping(v4(1, 2, 3, 4))) {
        ReachabilityStatus::TestFailed(m) => assert_eq!(m, "Not implemented"),
        other => panic!("unexpected {:?}", other),
    }
}

#[test]
fn mapping_error_messages() {
    assert_eq!(MappingError::Timeout.message(), "Mapping request timed out");
    assert_eq!(MappingError::InvalidResponse("x".to_string()).message(), "Invalid response: x");
    assert_eq!(MappingError::GatewayError("y".to_string()).message(), "Gateway error: y");
    assert_eq!(MappingError::Internal("z".to_string()).message(), "Internal error: z");
}

#[test]
fn gateway_from_route_tables() {
    let linux = "Iface\tDestination\tGateway \tFlags\tRefCnt\tUse\tMetric\tMask\t\tMTU\tWindow\tIRTT\n\
eth0\t0001A8C0\t00000000\t0001\t0\t0\t100\t00FFFFFF\t0\t0\t0\n\
eth0\t00000000\t0101A8C0\t0003\t0\t0\t100\t00000000\t0\t0\t0\n";
    assert_eq!(gateway_from_linux_routes(linux), Ok(v4(192, 168, 1, 1)));
    assert_eq!(gateway_from_linux_routes("header only\n"), Err(MappingError::NoGateway));
    assert_eq!(gateway_from_linux_routes(""), Err(MappingError::NoGateway));
    let macos = "Routing tables\n\nInternet:\nDestination        Gateway            Flags\ndefault            10.0.0.1           UGScg\n";
    assert_eq!(gateway_from_macos_routes(macos), Ok(v4(10, 0, 0, 1)));
    assert_eq!(gateway_from_macos_routes("default 010.0.0.1 U\n"), Err(MappingError::NoGateway));
    let windows = "IPv4 Route Table\r\n  Network Destination        Netmask          Gateway       Interface  Metric\r\n          0.0.0.0          0.0.0.0      192.168.0.1    192.168.0.10     25\r\n";
    assert_eq!(gateway_from_windows_routes(windows), Ok(v4(192, 168, 0, 1)));
    assert_eq!(gateway_from_windows_routes("nothing here"), Err(MappingError::NoGateway));
}

#[test]
fn upnp_mapping_naming() {
    assert_eq!(mapping_description(IpProtocol::TCP, 8080), "Pure2P-TCP-8080");
    assert_eq!(mapping_description(IpProtocol::UDP, 0), "Pure2P-UDP-0");
    let m = upnp_mapping_result(v4(1, 2, 3, 4), 7000, 3600, 9);
    assert_eq!(m.external_port, 7000);
    assert_eq!(m.protocol, MappingProtocol::UPnP);
}

fn pcp_success_response() -> Vec<u8> {
    let mut response = vec![0u8; 60];
    response[0] = PCP_VERSION;
    response[1] = 128 + 1;
    response[4..8].copy_from_slice(&7200u32.to_be_bytes());
    response[42..44].copy_from_slice(&40000u16.to_be_bytes());
    response[44..60].copy_from_slice(&[0x20, 0x01, 0x0d, 0xb8, 0, 0, 0, 0, 0, 0, 0, 0, 0, 0, 0, 1]);
    response
}

#[test]
fn pcp_map_response_refusals() {
    let short = vec![0u8; 59];
    match parse_pcp_map_response_at(&short, 8080, 0) {
        Err(MappingError::InvalidResponse(m)) => assert_eq!(m, "Response too short: 59 bytes (expected at least 60)"),
        other => panic!("unexpected {:?}", other),
    }
    let mut request = pcp_success_response();
    request[1] = 1;
    match parse_pcp_map_response_at(&request, 8080, 0) {
        Err(MappingError::InvalidResponse(m)) => assert_eq!(m, "Received request instead of response"),
        other => panic!("unexpected {:?}", other),
    }
    let mut wrong = pcp_success_response();
    wrong[1] = 128 + 2;
    match parse_pcp_map_response_at(&wrong, 8080, 0) {
        Err(MappingError::InvalidResponse(m)) => assert_eq!(m, "Wrong opcode: got 2, expected 1"),
        other => panic!("unexpected {:?}", other),
    }
    let mut unknown = pcp_success_response();
    unknown[3] = 200;
    match parse_pcp_map_response_at(&unknown, 8080, 0) {
        Err(MappingError::InvalidResponse(m)) => assert_eq!(m, "Unknown result code: 200"),
        other => panic!("unexpected {:?}", other),
    }
    let mut refused = pcp_success_response();
    refused[3] = 2;
    match parse_pcp_map_response_at(&refused, 8080, 0) {
        Err(MappingError::GatewayError(m)) => assert_eq!(m, "Not authorized"),
        other => panic!("unexpected {:?}", other),
    }
}

#[test]
fn pcp_map_response_with_ipv6_address() {
    let mapping = parse_pcp_map_response_at(&pcp_success_response(), 8080, 5).unwrap();
    assert_eq!(mapping.external_ip, v6("2001:db8::1"));
    assert_eq!(mapping.external_port, 40000);
    assert_eq!(mapping.lifetime_secs, 7200);
    assert_eq!(mapping.created_at_ms, 5);
}

#[test]
fn reachability_verdicts() {
    assert_eq!(reachability_verdict(&ReachabilityStatus::Reachable), Some(true));
    assert_eq!(reachability_verdict(&ReachabilityStatus::Unreachable), Some(false));
    assert_eq!(reachability_verdict(&ReachabilityStatus::TestFailed("x".to_string())), None);
}

#[test]
fn text_splitting_and_numbers() {
    let chars = |s: &str| text_chars(s);
    let strings = |v: Vec<Vec<char>>| -> Vec<String> { v.into_iter().map(|w| w.into_iter().collect()).collect() };
    assert_eq!(strings(split_lines(&chars("a\r\nb\n\nc\n"))), vec!["a", "b", "", "c"]);
    assert_eq!(strings(split_words(&chars("  eth0\t0000 \n x "))), vec!["eth0", "0000", "x"]);
    assert_eq!(strings(split_at_char(&chars("1..2"), '.')), vec!["1", "", "2"]);
    assert_eq!(parse_hex_u32(&chars("0101A8C0")), Some(0x0101A8C0));
    assert_eq!(parse_hex_u32(&chars("+ff")), Some(255));
    assert_eq!(parse_hex_u32(&chars("")), None);
    assert_eq!(parse_hex_u32(&chars("-1")), None);
    assert_eq!(parse_hex_u32(&chars("100000000")), None);
    assert_eq!(parse_ipv4(&chars("192.168.1.254")), Some([192, 168, 1, 254]));
    assert_eq!(parse_ipv4(&chars("192.168.01.1")), None);
    assert_eq!(parse_ipv4(&chars("256.1.1.1")), None);
    assert_eq!(parse_ipv4(&chars("1.2.3")), None);
}

#[test]
fn unreachable_mapping_falls_through_to_the_next_strategy() {
    let mut result = ConnectivityResult::new();
    let first = mapping(v4(203, 0, 113, 1));
    let next = record_attempt(&mut result, Strategy::Pcp, Ok(first), Some(ReachabilityStatus::Unreachable));
    assert_eq!(next, Some(Strategy::NatPmp));
    assert_eq!(result.mapping, Some(first));
    assert_eq!(result.externally_reachable, Some(false));
    let next = record_attempt(
        &mut result,
        Strategy::NatPmp,
        Ok(mapping(v4(198, 51, 100, 7))),
        Some(ReachabilityStatus::TestFailed("timeout".to_string())),
    );
    assert_eq!(next, Some(Strategy::Upnp));
    assert_eq!(result.mapping, Some(first));
    assert_eq!(result.externally_reachable, Some(false));
    let good = mapping(v4(192, 0, 2, 44));
    let next = record_attempt(&mut result, Strategy::Upnp, Ok(good), Some(ReachabilityStatus::Reachable));
    assert_eq!(next, None);
    assert_eq!(result.mapping, Some(good));
    assert_eq!(result.externally_reachable, Some(true));
    assert!(matches!(result.pcp, StrategyAttempt::Success(_)));
    assert!(matches!(result.natpmp, StrategyAttempt::Success(_)));
}

#[test]
fn port_mapping_chain_falls_back_in_order() {
    let m = mapping(v4(203, 0, 113, 3));
    assert_eq!(next_mapping_step(Strategy::Pcp, false, Ok(m)), Ok(Ok(m)));
    assert_eq!(next_mapping_step(Strategy::Pcp, false, Err(MappingError::Timeout)), Err(Strategy::NatPmp));
    assert_eq!(next_mapping_step(Strategy::NatPmp, false, Err(MappingError::NoGateway)), Ok(Err(MappingError::NoGateway)));
    assert_eq!(next_mapping_step(Strategy::NatPmp, true, Err(MappingError::NoGateway)), Err(Strategy::Upnp));
    assert_eq!(next_mapping_step(Strategy::Upnp, true, Err(MappingError::NotSupported)), Ok(Err(MappingError::NotSupported)));
}

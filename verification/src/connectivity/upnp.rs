//! What a UPnP mapping is called and what it gives; the gateway is
//! reached over the network by the caller.

use vstd::prelude::*;
use crate::connectivity::ip::IpAddr;
use crate::connectivity::types::{IpProtocol, MappingProtocol, PortMappingResult};
use crate::text::{write_str, write_decimal, decimal};

verus! {

/// The name of an IP protocol, as its `Debug` form writes it.
pub open spec fn protocol_name(p: IpProtocol) -> Seq<char> {
    match p {
        IpProtocol::TCP => "TCP"@,
        IpProtocol::UDP => "UDP"@,
    }
}

/// The description of a mapping: `Pure2P-<protocol>-<port>`.
pub fn mapping_description(protocol: IpProtocol, local_port: u16) -> (r: String)
    ensures
        r@ == "Pure2P-"@ + protocol_name(protocol) + "-"@ + decimal(local_port as nat),
{
    let mut s = String::new();
    write_str(&mut s, "Pure2P-");
    match protocol {
        IpProtocol::TCP => write_str(&mut s, "TCP"),
        IpProtocol::UDP => write_str(&mut s, "UDP"),
    }
    write_str(&mut s, "-");
    write_decimal(&mut s, local_port as u64);
    s
}

/// The mapping a gateway granted: the requested port on the gateway's
/// external address, for the requested lifetime.
pub fn upnp_mapping_result(external_ip: IpAddr, local_port: u16, lifetime_secs: u32, created_at_ms: i64) -> (r: PortMappingResult)
    ensures
        r.external_ip == external_ip,
        r.external_port == local_port,
        r.lifetime_secs == lifetime_secs,
        r.protocol == MappingProtocol::UPnP,
        r.created_at_ms == created_at_ms,
{
    PortMappingResult {
        external_ip,
        external_port: local_port,
        lifetime_secs,
        protocol: MappingProtocol::UPnP,
        created_at_ms,
    }
}

} // verus!

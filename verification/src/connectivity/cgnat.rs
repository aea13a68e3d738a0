//! CGNAT (Carrier-Grade NAT) detection and private address ranges

use vstd::prelude::*;
use crate::connectivity::ip::IpAddr;

verus! {

/// The 32-bit value of an IPv4 address.
pub open spec fn ipv4_value(o: Seq<u8>) -> int {
    o[0] * 16777216 + o[1] * 65536 + o[2] * 256 + o[3]
}

/// First address of the CGNAT range 100.64.0.0/10 (RFC 6598)
pub const CGNAT_RANGE_START: u32 = 0x64400000;

/// Last address of the CGNAT range 100.64.0.0/10 (RFC 6598)
pub const CGNAT_RANGE_END: u32 = 0x647FFFFF;

/// Whether an address is in the shared address space 100.64.0.0/10.
pub open spec fn is_cgnat_address(ip: IpAddr) -> bool {
    match ip {
        IpAddr::V4(o) => CGNAT_RANGE_START <= ipv4_value(o@) <= CGNAT_RANGE_END,
        IpAddr::V6(_) => false,
    }
}

/// The shared address space is 100.64.0.0/10: an IPv4 address is in it
/// exactly when its first octet is 100 and its second lies from 64 to 127;
/// no IPv6 address is.
pub proof fn lemma_cgnat_block(ip: IpAddr)
    ensures
        ip matches IpAddr::V4(o) ==> (is_cgnat_address(ip) <==> (o@[0] == 100 && 64 <= o@[1] <= 127)),
        ip is V6 ==> !is_cgnat_address(ip),
{
}

/// Detect if an external IP address is within CGNAT range
///
/// CGNAT (Carrier-Grade NAT) uses the shared address space 100.64.0.0/10
/// as defined in RFC 6598. IPv6 addresses are never in that range.
pub fn detect_cgnat(external_ip: IpAddr) -> (r: bool)
    ensures
        r == is_cgnat_address(external_ip),
{
    match external_ip {
        IpAddr::V4(o) => {
            let v: u32 = (o[0] as u32) * 16777216 + (o[1] as u32) * 65536 + (o[2] as u32) * 256 + (o[3] as u32);
            CGNAT_RANGE_START <= v && v <= CGNAT_RANGE_END
        },
        IpAddr::V6(_) => false,
    }
}

/// Whether an IPv4 address is private (RFC 1918), loopback, link-local or unspecified.
pub open spec fn is_private_v4(o: Seq<u8>) -> bool {
    ||| o[0] == 10
    ||| (o[0] == 172 && 16 <= o[1] < 32)
    ||| (o[0] == 192 && o[1] == 168)
    ||| o[0] == 127
    ||| (o[0] == 169 && o[1] == 254)
    ||| (o[0] == 0 && o[1] == 0 && o[2] == 0 && o[3] == 0)
}

/// Whether all 16 bytes are zero except possibly the last, which equals `last`.
pub open spec fn is_v6_with_last(o: Seq<u8>, last: u8) -> bool {
    (forall|i: int| 0 <= i < 15 ==> o[i] == 0) && o[15] == last
}

/// Whether an IPv6 address is unique-local (fc00::/7) or link-local (fe80::/10).
pub open spec fn is_ipv6_private_bytes(o: Seq<u8>) -> bool {
    o[0] == 0xfc || o[0] == 0xfd || (o[0] == 0xfe && 0x80 <= o[1] < 0xc0)
}

/// Whether an IPv6 address is loopback (::1), unspecified (::), ULA or link-local.
pub open spec fn is_private_v6(o: Seq<u8>) -> bool {
    is_v6_with_last(o, 1) || is_v6_with_last(o, 0) || is_ipv6_private_bytes(o)
}

/// Whether an address is private or local.
pub open spec fn is_private_address(ip: IpAddr) -> bool {
    match ip {
        IpAddr::V4(o) => is_private_v4(o@),
        IpAddr::V6(o) => is_private_v6(o@),
    }
}

/// The RFC 1918 blocks are private: every IPv4 address whose 32-bit value
/// lies in 10.0.0.0/8, 172.16.0.0/12 or 192.168.0.0/16 is private, and so
/// are loopback 127.0.0.0/8 and link-local 169.254.0.0/16.
pub proof fn lemma_private_blocks(o: [u8; 4])
    ensures
        ({
            let v = o@[0] * 16777216 + o@[1] * 65536 + o@[2] * 256 + o@[3];
            ||| 0x0A00_0000 <= v <= 0x0AFF_FFFF
            ||| 0xAC10_0000 <= v <= 0xAC1F_FFFF
            ||| 0xC0A8_0000 <= v <= 0xC0A8_FFFF
            ||| 0x7F00_0000 <= v <= 0x7FFF_FFFF
            ||| 0xA9FE_0000 <= v <= 0xA9FE_FFFF
        }) ==> is_private_address(IpAddr::V4(o)),
{
}

/// Check if an IP is a private/local address
///
/// IPv4: RFC 1918 ranges, loopback, link-local, unspecified. IPv6:
/// loopback, unspecified, unique-local and link-local.
pub fn is_private_ip(ip: IpAddr) -> (r: bool)
    ensures
        r == is_private_address(ip),
{
    match ip {
        IpAddr::V4(o) => {
            o[0] == 10 || (o[0] == 172 && 16 <= o[1] && o[1] < 32) || (o[0] == 192 && o[1] == 168)
                || o[0] == 127 || (o[0] == 169 && o[1] == 254)
                || (o[0] == 0 && o[1] == 0 && o[2] == 0 && o[3] == 0)
        },
        IpAddr::V6(o) => {
            let leading_zero = leading_fifteen_zero(&o);
            (leading_zero && (o[15] == 1 || o[15] == 0)) || is_ipv6_private(&o)
        },
    }
}

fn leading_fifteen_zero(o: &[u8; 16]) -> (r: bool)
    ensures
        r == (forall|i: int| 0 <= i < 15 ==> o@[i] == 0),
{
    let mut i: usize = 0;
    while i < 15
        invariant
            i <= 15,
            forall|j: int| 0 <= j < i ==> o@[j] == 0,
        decreases 15 - i,
    {
        if o[i] != 0 {
            return false;
        }
        i = i + 1;
    }
    true
}

/// Check if an IPv6 address is private (unique-local fc00::/7 or link-local fe80::/10)
pub fn is_ipv6_private(o: &[u8; 16]) -> (r: bool)
    ensures
        r == is_ipv6_private_bytes(o@),
{
    o[0] == 0xfc || o[0] == 0xfd || (o[0] == 0xfe && 0x80 <= o[1] && o[1] < 0xc0)
}

/// Check if an IPv6 address is link-local (fe80::/10)
pub fn is_ipv6_link_local(o: &[u8; 16]) -> (r: bool)
    ensures
        r == (o@[0] == 0xfe && 0x80 <= o@[1] < 0xc0),
{
    o[0] == 0xfe && 0x80 <= o[1] && o[1] < 0xc0
}

} // verus!

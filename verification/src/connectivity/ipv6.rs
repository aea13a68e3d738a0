//! Which IPv6 addresses can serve as the external address.

use vstd::prelude::*;
use crate::connectivity::cgnat::is_ipv6_link_local;

verus! {

/// Whether the octets are the loopback address `::1`.
pub open spec fn is_ipv6_loopback(o: Seq<u8>) -> bool {
    o.len() == 16 && (forall|i: int| 0 <= i < 15 ==> o[i] == 0) && o[15] == 1
}

/// Whether an IPv6 address can be reached from outside: neither loopback
/// nor link-local (fe80::/10).
pub fn is_global_ipv6(o: &[u8; 16]) -> (r: bool)
    ensures
        r == !(is_ipv6_loopback(o@) || (o@[0] == 0xfe && 0x80 <= o@[1] < 0xc0)),
{
    let mut loopback = o[15] == 1;
    let mut i: usize = 0;
    while i < 15
        invariant
            i <= 15,
            o@.len() == 16,
            loopback == (o@[15] == 1 && forall|j: int| 0 <= j < i ==> o@[j] == 0),
        decreases 15 - i,
    {
        if o[i] != 0 {
            loopback = false;
        }
        i = i + 1;
    }
    !(loopback || is_ipv6_link_local(o))
}

} // verus!

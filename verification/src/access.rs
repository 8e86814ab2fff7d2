//! The remote-address allow-list: only peers on loopback, private or
//! link-local addresses may use the API; a peer without an address — a
//! Unix-domain socket — is always allowed.

use vstd::prelude::*;

verus! {

/// A peer address as the access check reads it: the four octets of an
/// IPv4 address, or the sixteen bytes of an IPv6 address.
#[derive(Clone, Copy, Debug)]
pub enum IpAddrRepr {
    V4(u8, u8, u8, u8),
    V6([u8; 16]),
}

/// Loopback (127/8), private (10/8, 172.16/12, 192.168/16) or link-local
/// (169.254/16).
pub open spec fn spec_is_private_ipv4(a: u8, b: u8, c: u8, d: u8) -> bool {
    ||| a == 127
    ||| a == 10
    ||| (a == 172 && 16 <= b < 32)
    ||| (a == 192 && b == 168)
    ||| (a == 169 && b == 254)
}

/// The IPv6 loopback address `::1`: fifteen zero bytes, then a one.
pub open spec fn spec_is_ipv6_loopback(bytes: Seq<u8>) -> bool {
    &&& (forall|i: int| 0 <= i < 15 ==> #[trigger] bytes[i] == 0)
    &&& bytes[15] == 1
}

/// An IPv6 address counts as private exactly when it is the loopback, or
/// an IPv4-compatible or IPv4-mapped form whose embedded IPv4 address is
/// private.
pub open spec fn spec_is_private_ipv6(bytes: Seq<u8>) -> bool {
    ||| spec_is_ipv6_loopback(bytes)
    ||| {
        &&& (forall|i: int| 0 <= i < 10 ==> #[trigger] bytes[i] == 0)
        &&& ((bytes[10] == 0 && bytes[11] == 0) || (bytes[10] == 0xff && bytes[11] == 0xff))
        &&& spec_is_private_ipv4(bytes[12], bytes[13], bytes[14], bytes[15])
    }
}

pub open spec fn spec_is_private_ip(ip: IpAddrRepr) -> bool {
    match ip {
        IpAddrRepr::V4(a, b, c, d) => spec_is_private_ipv4(a, b, c, d),
        IpAddrRepr::V6(bytes) => spec_is_private_ipv6(bytes@),
    }
}

/// Decides `spec_is_private_ipv4`.
pub fn is_private_ipv4_addr(a: u8, b: u8, c: u8, d: u8) -> (r: bool)
    ensures
        r == spec_is_private_ipv4(a, b, c, d),
{
    a == 127 || a == 10 || (a == 172 && 16 <= b && b < 32) || (a == 192 && b == 168) || (a == 169
        && b == 254)
}

/// Decides `spec_is_ipv6_loopback`.
fn is_ipv6_loopback(bytes: &[u8; 16]) -> (r: bool)
    ensures
        r == spec_is_ipv6_loopback(bytes@),
{
    let mut i: usize = 0;
    while i < 15
        invariant
            0 <= i <= 15,
            forall|j: int| 0 <= j < i ==> #[trigger] bytes@[j] == 0,
        decreases 15 - i,
    {
        if bytes[i] != 0 {
            return false;
        }
        i += 1;
    }
    bytes[15] == 1
}

/// Decides `spec_is_private_ipv6`.
pub fn is_private_ipv6_addr(bytes: &[u8; 16]) -> (r: bool)
    ensures
        r == spec_is_private_ipv6(bytes@),
{
    if is_ipv6_loopback(bytes) {
        return true;
    }
    let mut i: usize = 0;
    while i < 10
        invariant
            0 <= i <= 10,
            forall|j: int| 0 <= j < i ==> #[trigger] bytes@[j] == 0,
        decreases 10 - i,
    {
        if bytes[i] != 0 {
            return false;
        }
        i += 1;
    }
    if !((bytes[10] == 0 && bytes[11] == 0) || (bytes[10] == 0xff && bytes[11] == 0xff)) {
        return false;
    }
    is_private_ipv4_addr(bytes[12], bytes[13], bytes[14], bytes[15])
}

/// Decides `spec_is_private_ip`.
pub fn is_private_ip_addr(ip: &IpAddrRepr) -> (r: bool)
    ensures
        r == spec_is_private_ip(*ip),
{
    match ip {
        IpAddrRepr::V4(a, b, c, d) => is_private_ipv4_addr(*a, *b, *c, *d),
        IpAddrRepr::V6(bytes) => is_private_ipv6_addr(bytes),
    }
}

/// The access decision for one request: a peer without an address — a
/// Unix-domain socket — is allowed; an addressed peer must be private.
pub fn is_allowed_peer(peer: &Option<IpAddrRepr>) -> (r: bool)
    ensures
        r == (match peer {
            Some(ip) => spec_is_private_ip(*ip),
            None => true,
        }),
{
    match peer {
        Option::Some(ip) => is_private_ip_addr(ip),
        Option::None => true,
    }
}

} // verus!

//! Proxy/CDN heuristic over resolved addresses.
//!
//! A resolved address set is classified as "likely behind a proxy" when
//! any of its IPv4 addresses falls in one of a small fixed set of known
//! edge-network prefixes. The classification is a pure function of the
//! addresses, independent of any network access, and IPv6 addresses are
//! never classified as proxied — an explicit limitation.

use vstd::prelude::*;

verus! {

/// An address as the library models it: the four octets of an IPv4
/// address, or the eight groups of an IPv6 address.
pub enum IpAddress {
    V4 { a: u8, b: u8, c: u8, d: u8 },
    V6 { groups: Vec<u16> },
}

/// The known edge-network prefixes: a /8, a /10-sized band of 172.x, and
/// another /8 associated with a major CDN.
pub open spec fn spec_edge_prefix(a: u8, b: u8) -> bool {
    a == 104 || (a == 172 && 64 <= b <= 127) || a == 131
}

/// One address matches an edge-network prefix. IPv6 addresses never do.
pub open spec fn spec_edge_address(ip: IpAddress) -> bool {
    match ip {
        IpAddress::V4 { a, b, c: _, d: _ } => spec_edge_prefix(a, b),
        IpAddress::V6 { .. } => false,
    }
}

/// Some address of the set matches an edge-network prefix.
pub open spec fn spec_likely_behind_proxy(ips: Seq<IpAddress>) -> bool {
    exists|i: int| 0 <= i < ips.len() && spec_edge_address(ips[i])
}

/// Executable edge-prefix test for one address.
pub fn is_edge_address(ip: &IpAddress) -> (r: bool)
    ensures
        r == spec_edge_address(*ip),
{
    match ip {
        IpAddress::V4 { a, b, c: _, d: _ } => {
            *a == 104 || (*a == 172 && 64 <= *b && *b <= 127) || *a == 131
        },
        IpAddress::V6 { .. } => false,
    }
}

/// The proxy heuristic: true exactly when at least one address of the
/// set lies in a known edge-network prefix.
pub fn likely_behind_proxy(ips: &Vec<IpAddress>) -> (r: bool)
    ensures
        r == spec_likely_behind_proxy(ips@),
{
    let mut i: usize = 0;
    while i < ips.len()
        invariant
            i <= ips.len(),
            forall|j: int| 0 <= j < i ==> !spec_edge_address(ips@[j]),
        decreases ips.len() - i,
    {
        if is_edge_address(&ips[i]) {
            return true;
        }
        i = i + 1;
    }
    false
}

/// An address set never counts as proxied on the strength of its IPv6
/// addresses alone.
pub proof fn lemma_ipv6_only_never_proxied(ips: Seq<IpAddress>)
    requires
        forall|i: int| 0 <= i < ips.len() ==> ips[i] is V6,
    ensures
        !spec_likely_behind_proxy(ips),
{
}

/// The live A/AAAA answer: the resolved addresses in answer order, and
/// the proxy flag derived from them. The flag is never cached apart from
/// the set: it is recomputed by the constructor, the only way to build
/// the value.
pub struct ResolvedAddressSet {
    pub addresses: Vec<IpAddress>,
    pub likely_behind_proxy: bool,
}

impl ResolvedAddressSet {
    /// The flag is exactly the heuristic applied to the addresses.
    pub open spec fn wf(&self) -> bool {
        self.likely_behind_proxy == spec_likely_behind_proxy(self.addresses@)
    }

    /// Classify a freshly resolved address list.
    pub fn new(addresses: Vec<IpAddress>) -> (r: Self)
        ensures
            r.wf(),
            r.addresses == addresses,
    {
        let flag = likely_behind_proxy(&addresses);
        ResolvedAddressSet { addresses, likely_behind_proxy: flag }
    }
}

} // verus!

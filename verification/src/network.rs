//! Decisions of a network node: the names of its protocols, which bootstrap
//! peers it dials, what it answers a peer lookup, and which address of a
//! connected peer it reports.

use vstd::prelude::*;
use vstd::string::StringExecFns;

use crate::p2p::{is_peer_id_text, parse_multiaddr, parse_peer_id, parsed_multiaddr, parsed_peer_id};

verus! {

broadcast use vstd::string::group_string_axioms;

/// The Kademlia protocol name of a network: `/<network id>/kad/2.0.0`.
pub open spec fn spec_kad_protocol_name(network_id: Seq<char>) -> Seq<char> {
    "/"@ + network_id + "/kad/2.0.0"@
}

/// The proxy protocol name of a network: `/<network id>/proxy/1.0.0`.
pub open spec fn spec_proxy_protocol_name(network_id: Seq<char>) -> Seq<char> {
    "/"@ + network_id + "/proxy/1.0.0"@
}

/// The Kademlia protocol name of a network.
pub fn kad_protocol_name(network_id: &str) -> (r: String)
    ensures
        r@ == spec_kad_protocol_name(network_id@),
{
    String::from_str("/").concat(network_id).concat("/kad/2.0.0")
}

/// The proxy protocol name of a network.
pub fn proxy_protocol_name(network_id: &str) -> (r: String)
    ensures
        r@ == spec_proxy_protocol_name(network_id@),
{
    String::from_str("/").concat(network_id).concat("/proxy/1.0.0")
}

/// The most bootstrap peers a node dials by itself.
pub const MAX_BOOTSTRAP_DIALS: u32 = 8;

/// A bootstrap peer to add to the routing table, and whether to dial it.
#[derive(Debug)]
pub struct BootstrapStep {
    /// The peer that the address names.
    pub peer: libp2p::PeerId,
    /// The address.
    pub addr: libp2p::Multiaddr,
    /// Whether to dial the peer now.
    pub dial: bool,
}

/// The bootstrap peers a node dials: every peer address is added to the
/// routing table, and the first peers are dialed until eight dials succeeded.
#[derive(Debug)]
pub struct BootstrapDialer {
    dials: u32,
}

impl BootstrapDialer {
    /// The number of dials that succeeded so far.
    pub closed spec fn dialed(self) -> nat {
        self.dials as nat
    }

    /// No more dials succeed than the limit.
    #[verifier::type_invariant]
    closed spec fn within_limit(self) -> bool {
        self.dials <= MAX_BOOTSTRAP_DIALS
    }

    /// A dialer that has dialed nobody.
    pub fn new() -> (d: BootstrapDialer)
        ensures
            d.dialed() == 0,
    {
        BootstrapDialer { dials: 0 }
    }

    /// Considers a bootstrap node's address: an address whose last component
    /// names a peer yields that peer, to be dialed while fewer than eight dials
    /// have succeeded; any other text is skipped.
    pub fn consider(&self, node: &str) -> (r: Option<BootstrapStep>)
        ensures
            r is Some == peer_address_of(node@) is Some,
            r matches Some(step) ==> peer_address_of(node@) == Some((step.peer, step.addr))
                && step.dial == (self.dialed() < MAX_BOOTSTRAP_DIALS),
            self.dialed() <= MAX_BOOTSTRAP_DIALS,
    {
        proof {
            use_type_invariant(self);
        }
        match parse_multiaddr(node) {
            Some((addr, cs)) => match peer_of_components(&cs) {
                Some(peer) => Some(BootstrapStep { peer, addr, dial: self.dials < MAX_BOOTSTRAP_DIALS }),
                None => None,
            },
            None => None,
        }
    }

    /// Counts a dial that succeeded.
    pub fn record_dial(&mut self, succeeded: bool)
        ensures
            final(self).dialed() == if succeeded && old(self).dialed() < MAX_BOOTSTRAP_DIALS {
                old(self).dialed() + 1
            } else {
                old(self).dialed()
            },
            final(self).dialed() <= MAX_BOOTSTRAP_DIALS,
    {
        proof {
            use_type_invariant(&*self);
        }
        if succeeded && self.dials < MAX_BOOTSTRAP_DIALS {
            self.dials = self.dials + 1;
        }
    }
}

/// What a node does with a request to find a peer's address.
#[derive(Debug)]
pub enum PeerLookup {
    /// Dial the peer and answer with its address once connected.
    Dial(libp2p::PeerId),
    /// Answer at once that no address is known.
    Unknown,
}

/// Decides a peer lookup: a text that parses as a peer identity is dialed;
/// any other is answered at once with no address.
pub fn lookup_peer(peer_id_str: &str) -> (r: PeerLookup)
    ensures
        r is Dial == is_peer_id_text(peer_id_str@),
        r matches PeerLookup::Dial(p) ==> parsed_peer_id(peer_id_str@) == Some(p),
{
    match parse_peer_id(peer_id_str) {
        Some(p) => PeerLookup::Dial(p),
        None => PeerLookup::Unknown,
    }
}

/// An IP address: version 4 or 6, as its numeric value.
#[derive(Debug, Clone, Copy, PartialEq, Eq, Structural)]
pub enum IpAddress {
    /// An IPv4 address.
    V4(u32),
    /// An IPv6 address.
    V6(u128),
}

/// A component of a multiaddress, as far as the node reads it.
#[derive(Debug, Clone, Copy)]
pub enum AddrComponent {
    /// `/ip4/...`
    Ip4(u32),
    /// `/ip6/...`
    Ip6(u128),
    /// `/p2p/...`: a peer identity.
    P2p(libp2p::PeerId),
    /// Any other component.
    Other,
}

/// The peer that an address names: that of its last component, where the last
/// component is `/p2p`.
pub open spec fn last_peer(cs: Seq<AddrComponent>) -> Option<libp2p::PeerId> {
    if cs.len() == 0 {
        None
    } else {
        match cs.last() {
            AddrComponent::P2p(p) => Some(p),
            _ => None,
        }
    }
}

/// The peer that a text names as a multiaddress, with the address: the text
/// parses and its last component is `/p2p`.
pub open spec fn peer_address_of(s: Seq<char>) -> Option<(libp2p::PeerId, libp2p::Multiaddr)> {
    match parsed_multiaddr(s) {
        Some((a, cs)) => match last_peer(cs) {
            Some(p) => Some((p, a)),
            None => None,
        },
        None => None,
    }
}

/// The peer that an address names, read from its components.
pub fn peer_of_components(cs: &Vec<AddrComponent>) -> (r: Option<libp2p::PeerId>)
    ensures
        r == last_peer(cs@),
{
    if cs.len() == 0 {
        return None;
    }
    match cs[cs.len() - 1] {
        AddrComponent::P2p(p) => Some(p),
        _ => None,
    }
}

/// The address that a lookup reports for a connected peer: that of the last IP
/// component of the connection's remote address, if any.
pub open spec fn last_ip(cs: Seq<AddrComponent>) -> Option<IpAddress>
    decreases cs.len(),
{
    if cs.len() == 0 {
        None
    } else {
        match cs.last() {
            AddrComponent::Ip4(a) => Some(IpAddress::V4(a)),
            AddrComponent::Ip6(a) => Some(IpAddress::V6(a)),
            _ => last_ip(cs.drop_last()),
        }
    }
}

/// The IP address of a connected peer, read from the components of the
/// connection's remote address.
pub fn remote_ip(components: &Vec<AddrComponent>) -> (r: Option<IpAddress>)
    ensures
        r == last_ip(components@),
{
    let mut ip: Option<IpAddress> = None;
    for i in 0..components.len()
        invariant
            ip == last_ip(components@.take(i as int)),
    {
        proof {
            assert(components@.take(i + 1).drop_last() =~= components@.take(i as int));
        }
        match components[i] {
            AddrComponent::Ip4(a) => {
                ip = Some(IpAddress::V4(a));
            },
            AddrComponent::Ip6(a) => {
                ip = Some(IpAddress::V6(a));
            },
            _ => {},
        }
    }
    assert(components@.take(components@.len() as int) =~= components@);
    ip
}

} // verus!

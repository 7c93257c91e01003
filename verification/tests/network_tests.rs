use kinetic_atlas::network::{
    kad_protocol_name, lookup_peer, peer_of_components, proxy_protocol_name, remote_ip, AddrComponent,
    BootstrapDialer, IpAddress, PeerLookup,
};
use std::str::FromStr;

const VALID_PEER: &str = "12D3KooWD3eckifWpRn9wQpMG9R9hX3sD158z7EqHWmweQAJU5SA";

#[test]
fn protocol_names() {
    assert_eq!(kad_protocol_name("kinetic-dev-fork-01"), "/kinetic-dev-fork-01/kad/2.0.0");
    assert_eq!(proxy_protocol_name("kinetic-dev-fork-01"), "/kinetic-dev-fork-01/proxy/1.0.0");
}

#[test]
fn bootstrap_dials_at_most_eight_peers() {
    let node = format!("/ip4/198.51.100.1/tcp/6170/p2p/{}", VALID_PEER);
    let mut d = BootstrapDialer::new();
    let mut dialed = 0;
    for _ in 0..12 {
        let step = d.consider(&node).expect("a peer address");
        if step.dial {
            dialed += 1;
            d.record_dial(true);
        }
    }
    assert_eq!(dialed, 8);
}

#[test]
fn bootstrap_failed_dials_do_not_count() {
    let node = format!("/ip4/198.51.100.1/tcp/6170/p2p/{}", VALID_PEER);
    let mut d = BootstrapDialer::new();
    for _ in 0..20 {
        assert!(d.consider(&node).unwrap().dial);
        d.record_dial(false);
    }
}

#[test]
fn bootstrap_skips_addresses_without_peer() {
    let d = BootstrapDialer::new();
    assert!(d.consider("/ip4/198.51.100.1/tcp/6170").is_none());
    assert!(d.consider("not an address").is_none());
    let step = d.consider(&format!("/ip4/198.51.100.1/tcp/6170/p2p/{}", VALID_PEER)).unwrap();
    assert_eq!(step.peer.to_string(), VALID_PEER);
    assert_eq!(step.addr.to_string(), format!("/ip4/198.51.100.1/tcp/6170/p2p/{}", VALID_PEER));
}

#[test]
fn peer_lookup() {
    match lookup_peer(VALID_PEER) {
        PeerLookup::Dial(p) => assert_eq!(p.to_string(), VALID_PEER),
        PeerLookup::Unknown => panic!("valid peer refused"),
    }
    assert!(matches!(lookup_peer("nope"), PeerLookup::Unknown));
}

#[test]
fn remote_ip_is_the_last_ip_component() {
    assert_eq!(remote_ip(&vec![]), None);
    assert_eq!(remote_ip(&vec![AddrComponent::Other]), None);
    assert_eq!(
        remote_ip(&vec![AddrComponent::Ip4(1), AddrComponent::Other, AddrComponent::Ip6(2), AddrComponent::Other]),
        Some(IpAddress::V6(2))
    );
    assert_eq!(remote_ip(&vec![AddrComponent::Ip6(2), AddrComponent::Ip4(7)]), Some(IpAddress::V4(7)));
}

#[test]
fn peer_is_read_from_the_last_component() {
    let peer = libp2p::PeerId::from_str(VALID_PEER).unwrap();
    assert_eq!(peer_of_components(&vec![]), None);
    assert_eq!(peer_of_components(&vec![AddrComponent::Ip4(1), AddrComponent::P2p(peer)]), Some(peer));
    assert_eq!(peer_of_components(&vec![AddrComponent::P2p(peer), AddrComponent::Ip4(1)]), None);
    assert_eq!(remote_ip(&vec![AddrComponent::Ip4(9), AddrComponent::P2p(peer)]), Some(IpAddress::V4(9)));
    let d = BootstrapDialer::new();
    assert!(d.consider(&format!("/p2p/{}/ip4/198.51.100.1/tcp/6170", VALID_PEER)).is_none());
    let step = d.consider(&format!("/dns4/seed.example/tcp/1/p2p/{}", VALID_PEER)).unwrap();
    assert_eq!(step.peer, peer);
}

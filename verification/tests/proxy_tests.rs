use kinetic_atlas::proxy::extract_base_domain_and_subdomain;
use kinetic_atlas::proxy::gateway_method;

#[test]
fn test_extract_domain() {
    assert_eq!(
        extract_base_domain_and_subdomain("test.kin", ".kin"),
        Some(("test.kin".to_string(), "@".to_string()))
    );
    assert_eq!(
        extract_base_domain_and_subdomain("api.test.kin", ".kin"),
        Some(("test.kin".to_string(), "api".to_string()))
    );
    assert_eq!(
        extract_base_domain_and_subdomain("v1.api.test.kin", ".kin"),
        Some(("test.kin".to_string(), "v1.api".to_string()))
    );
    assert_eq!(extract_base_domain_and_subdomain(".kin", ".kin"), None);
}

use kinetic_atlas::error::AtlasError;
use kinetic_atlas::proxy::{
    route_host, route_request, select_targets, HostHeader, ProxyAction, ProxyAttempts,
    RequestParts, TargetFailure, ZoneLookup,
};
use kinetic_atlas::registry::{NetworkEntry, NetworkFile, TldRegistry};
use kinetic_atlas::types::{AtlasConfig, DnsRecord, DnsZone, NetworkConfig};

const VALID_PEER: &str = "12D3KooWD3eckifWpRn9wQpMG9R9hX3sD158z7EqHWmweQAJU5SA";

fn network(tld: &str, gateway: Option<&str>) -> NetworkConfig {
    NetworkConfig {
        version: "1.0".to_string(),
        network_id: "kinetic-main".to_string(),
        tld: tld.to_string(),
        bootstrap_nodes: vec![],
        local_bind_ip: "127.0.0.2".to_string(),
        api_port: None,
        repo: None,
        seed_domain: None,
        ipfs_gateway: gateway.map(|g| g.to_string()),
    }
}

fn registry_with(tld: &str) -> TldRegistry {
    let config = AtlasConfig {
        version: "1.0".to_string(),
        whitelist: vec![],
        blacklist: vec![],
        bind_port: 17002,
        kinetic_api: String::new(),
        kinetic_token: String::new(),
        networks_dir: String::new(),
        registry_url: None,
        override_ipfs_gateway: None,
        updater_public_key: None,
    };
    let mut r = TldRegistry::new();
    r.load_from_dir(
        Some(vec![NetworkEntry {
            file_name: "n.json".to_string(),
            content: NetworkFile::Parsed(network(tld, Some("https://gw.example"))),
        }]),
        &config,
    );
    r
}

#[test]
fn extract_cuts_one_trailing_copy_of_the_tld() {
    assert_eq!(
        extract_base_domain_and_subdomain("a.kin.kin", ".kin"),
        Some(("kin.kin".to_string(), "a".to_string()))
    );
    assert_eq!(
        extract_base_domain_and_subdomain("x.kin.kin.kin", ".kin"),
        Some(("kin.kin".to_string(), "x.kin".to_string()))
    );
    assert_eq!(extract_base_domain_and_subdomain("kin.kin", ".kin"), Some(("kin.kin".to_string(), "@".to_string())));
    assert_eq!(extract_base_domain_and_subdomain("A.b.b", ".b"), Some(("b.b".to_string(), "A".to_string())));
    assert_eq!(extract_base_domain_and_subdomain(".kin.kin", ".kin"), None);
    assert_eq!(extract_base_domain_and_subdomain("x..kin", ".kin"), Some((".kin".to_string(), "x".to_string())));
    assert_eq!(extract_base_domain_and_subdomain("name", ""), Some(("name".to_string(), "@".to_string())));
}

#[test]
fn extract_subdomain_law_examples() {
    assert_eq!(
        extract_base_domain_and_subdomain("a-b.c_d.name.fork", ".fork"),
        Some(("name.fork".to_string(), "a-b.c_d".to_string()))
    );
    assert_eq!(
        extract_base_domain_and_subdomain("Name.Fork", ".Fork"),
        Some(("Name.Fork".to_string(), "@".to_string()))
    );
}

#[test]
fn route_request_by_host_header() {
    let reg = registry_with("kin");
    let route = route_request(HostHeader::Text("API.Test.KIN:8080".to_string()), &reg).unwrap();
    assert_eq!(route.full_domain, "api.test.kin");
    assert_eq!(route.tld, ".kin");
    assert_eq!(route.base_domain, "test.kin");
    assert_eq!(route.subdomain, "api");
    assert_eq!(route.config.network_id, "kinetic-main");
    assert_eq!(
        route.swarm_unavailable(),
        AtlasError::NetworkInitFailed("Failed to connect to network for TLD .kin".to_string())
    );
}

#[test]
fn route_request_refusals() {
    let reg = registry_with("kin");
    assert_eq!(
        route_request(HostHeader::Missing, &reg).unwrap_err(),
        AtlasError::InvalidProxyRequest("Missing host header".to_string())
    );
    assert_eq!(
        route_request(HostHeader::Unreadable, &reg).unwrap_err(),
        AtlasError::InvalidProxyRequest("Invalid host header format".to_string())
    );
    assert_eq!(
        route_request(HostHeader::Text("localhost:80".to_string()), &reg).unwrap_err(),
        AtlasError::InvalidProxyRequest("Invalid domain structure: No TLD".to_string())
    );
    assert_eq!(
        route_request(HostHeader::Text("test.com".to_string()), &reg).unwrap_err(),
        AtlasError::TldBlacklisted
    );
    assert_eq!(
        route_host(".kin".to_string(), &reg).unwrap_err(),
        AtlasError::InvalidProxyRequest("Could not parse base domain".to_string())
    );
}

fn zone(entries: Vec<(&str, Vec<DnsRecord>)>) -> DnsZone {
    let mut z = DnsZone::new();
    for (k, v) in entries {
        z.insert(k.to_string(), v);
    }
    z
}

#[test]
fn select_targets_keeps_forwardable_records() {
    let z = zone(vec![(
        "api",
        vec![
            DnsRecord::A(0x7f000001),
            DnsRecord::IPFS("bafy".to_string()),
            DnsRecord::TXT("hello".to_string()),
            DnsRecord::PeerId(VALID_PEER.to_string()),
        ],
    )]);
    let t = select_targets(ZoneLookup::Found(z), "api").unwrap();
    assert_eq!(t, vec![DnsRecord::IPFS("bafy".to_string()), DnsRecord::PeerId(VALID_PEER.to_string())]);
}

#[test]
fn select_targets_apex_falls_back_to_www() {
    let z = zone(vec![("www", vec![DnsRecord::IPFS("bafy".to_string())])]);
    assert_eq!(select_targets(ZoneLookup::Found(z), "@").unwrap(), vec![DnsRecord::IPFS("bafy".to_string())]);
    let z = zone(vec![("other", vec![DnsRecord::IPFS("bafy".to_string())])]);
    assert_eq!(
        select_targets(ZoneLookup::Found(z), "@").unwrap_err(),
        AtlasError::DnsResolutionFailed("No usable records in domain zone".to_string())
    );
    let z = zone(vec![("www", vec![DnsRecord::IPFS("bafy".to_string())])]);
    assert_eq!(
        select_targets(ZoneLookup::Found(z), "api").unwrap_err(),
        AtlasError::DnsResolutionFailed("Subdomain not found in zone".to_string())
    );
    let z = zone(vec![("@", vec![DnsRecord::CNAME("x".to_string())])]);
    assert_eq!(
        select_targets(ZoneLookup::Found(z), "@").unwrap_err(),
        AtlasError::DnsResolutionFailed("No target records found".to_string())
    );
}

#[test]
fn select_targets_lookup_failures() {
    let msg = |l| match select_targets(l, "@").unwrap_err() {
        AtlasError::DnsResolutionFailed(m) => m,
        other => panic!("unexpected {:?}", other),
    };
    assert_eq!(msg(ZoneLookup::Unsent), "Failed to communicate with swarm");
    assert_eq!(msg(ZoneLookup::NotFound), "Domain not found in DHT");
    assert_eq!(msg(ZoneLookup::BadPayload), "Invalid DHT payload format");
    assert_eq!(msg(ZoneLookup::BadZone), "Invalid DNS zone format");
}

fn parts(path: &str) -> RequestParts {
    RequestParts {
        method: "POST".to_string(),
        path: path.to_string(),
        headers: vec![
            ("host".to_string(), "test.kin".to_string()),
            ("accept".to_string(), "*/*".to_string()),
        ],
    }
}

#[test]
fn attempts_try_targets_in_order() {
    let targets = vec![
        DnsRecord::PeerId("not-a-peer".to_string()),
        DnsRecord::IPFS("bafy".to_string()),
        DnsRecord::PeerId(VALID_PEER.to_string()),
    ];
    let mut a = ProxyAttempts::new(targets, parts("/index.html?x=1"), Some(vec![1, 2, 3]), &None, &Some("https://gw.example".to_string())).unwrap();
    match a.next_action() {
        ProxyAction::FetchIpfs { method, url, headers, body } => {
            assert_eq!(method, "POST");
            assert_eq!(url, "https://gw.example/ipfs/bafy/index.html?x=1");
            assert_eq!(headers, vec![("accept".to_string(), "*/*".to_string())]);
            assert_eq!(body, vec![1, 2, 3]);
        }
        other => panic!("unexpected {:?}", other),
    }
    assert_eq!(a.last_error().map(|s| s.as_str()), Some("Invalid PeerId in zone"));
    a.record_failure(TargetFailure::GatewayError);
    assert_eq!(a.last_error().map(|s| s.as_str()), Some("IPFS Gateway Error"));
    match a.next_action() {
        ProxyAction::SendToPeer { peer, peer_id, request } => {
            assert_eq!(peer.to_string(), VALID_PEER);
            assert_eq!(peer_id, VALID_PEER);
            assert_eq!(request.method, "POST");
            assert_eq!(request.path, "/index.html?x=1");
            assert_eq!(request.headers.len(), 2);
            assert_eq!(request.body, vec![1, 2, 3]);
        }
        other => panic!("unexpected {:?}", other),
    }
    a.record_failure(TargetFailure::NoAnswer);
    assert_eq!(a.last_error().map(|s| s.as_str()), Some("P2P Proxy Request Failed or Timed Out"));
    match a.next_action() {
        ProxyAction::Fail(e) => assert_eq!(e, AtlasError::ProxyTargetFailed),
        other => panic!("unexpected {:?}", other),
    }
    match a.next_action() {
        ProxyAction::Fail(e) => assert_eq!(e, AtlasError::ProxyTargetFailed),
        other => panic!("unexpected {:?}", other),
    }
}

#[test]
fn attempts_gateway_choice_and_root_path() {
    let t = vec![DnsRecord::IPFS("cid".to_string())];
    let mut a = ProxyAttempts::new(t.clone(), parts("/"), Some(vec![]), &Some("https://mine".to_string()), &Some("https://net".to_string())).unwrap();
    match a.next_action() {
        ProxyAction::FetchIpfs { url, .. } => assert_eq!(url, "https://mine/ipfs/cid"),
        other => panic!("unexpected {:?}", other),
    }
    let mut a = ProxyAttempts::new(t, parts("/"), Some(vec![]), &None, &None).unwrap();
    match a.next_action() {
        ProxyAction::FetchIpfs { url, .. } => assert_eq!(url, "https://ipfs.io/ipfs/cid"),
        other => panic!("unexpected {:?}", other),
    }
}

#[test]
fn attempts_need_a_body() {
    let e = ProxyAttempts::new(vec![], parts("/"), None, &None, &None).unwrap_err();
    assert_eq!(e, AtlasError::InvalidProxyRequest("Failed to read body".to_string()));
}

#[test]
fn attempts_with_only_invalid_peers_fail() {
    let t = vec![DnsRecord::PeerId("zzz".to_string())];
    let mut a = ProxyAttempts::new(t, parts("/"), Some(vec![]), &None, &None).unwrap();
    match a.next_action() {
        ProxyAction::Fail(e) => assert_eq!(e, AtlasError::ProxyTargetFailed),
        other => panic!("unexpected {:?}", other),
    }
    assert_eq!(a.last_error().map(|s| s.as_str()), Some("Invalid PeerId in zone"));
}

#[test]
fn gateway_method_falls_back_to_get() {
    assert_eq!(gateway_method("POST"), reqwest::Method::POST);
    assert_eq!(gateway_method("PROPFIND"), reqwest::Method::from_bytes(b"PROPFIND").unwrap());
    assert_eq!(gateway_method("bad method"), reqwest::Method::GET);
    assert_eq!(gateway_method(""), reqwest::Method::GET);
}

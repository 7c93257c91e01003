use kinetic_atlas::swarm_manager::{with_seed_peers, SwarmTable, IDLE_TIMEOUT_MS};
use kinetic_atlas::types::NetworkConfig;

#[test]
fn touch_and_reuse() {
    let mut t: SwarmTable<u32> = SwarmTable::new();
    assert!(!t.touch(".kin", 5));
    t.insert(".kin".to_string(), 7, 10);
    assert!(t.touch(".kin", 20));
    assert_eq!(t.handle(".kin"), Some(&7));
    assert_eq!(t.handle(".fork"), None);
}

#[test]
fn idle_swarms_are_collected() {
    let mut t: SwarmTable<u32> = SwarmTable::new();
    t.insert(".old".to_string(), 1, 0);
    t.insert(".edge".to_string(), 2, 1000);
    t.insert(".new".to_string(), 3, 500_000);
    t.insert(".future".to_string(), 4, 900_000);
    let mut removed = t.collect_idle(IDLE_TIMEOUT_MS + 1000, IDLE_TIMEOUT_MS);
    removed.sort();
    assert_eq!(removed, vec![".old".to_string()]);
    assert_eq!(t.handle(".old"), None);
    assert_eq!(t.handle(".edge"), Some(&2));
    assert_eq!(t.handle(".new"), Some(&3));
    assert_eq!(t.handle(".future"), Some(&4));
}

#[test]
fn seed_peers_are_appended() {
    let c = NetworkConfig {
        version: "1.0".to_string(),
        network_id: "n".to_string(),
        tld: "kin".to_string(),
        bootstrap_nodes: vec!["/ip4/1.1.1.1/tcp/1".to_string()],
        local_bind_ip: "127.0.0.2".to_string(),
        api_port: Some(1),
        repo: None,
        seed_domain: Some("seed.kin".to_string()),
        ipfs_gateway: None,
    };
    let r = with_seed_peers(&c, vec!["/ip4/2.2.2.2/tcp/2".to_string()]);
    assert_eq!(r.bootstrap_nodes, vec!["/ip4/1.1.1.1/tcp/1".to_string(), "/ip4/2.2.2.2/tcp/2".to_string()]);
    assert_eq!(r.seed_domain, c.seed_domain);
    assert_eq!(r.api_port, Some(1));
}

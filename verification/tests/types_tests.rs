use kinetic_atlas::constants::{default_bind_ip, default_ipfs_gateway, DEFAULT_PROXY_PORT};
use kinetic_atlas::types::{default_atlas_config, default_registry_url, DnsRecord, DnsZone};

#[test]
fn default_config() {
    let c = default_atlas_config("/data/networks".to_string());
    assert_eq!(c.version, "1.0");
    assert!(c.whitelist.is_empty() && c.blacklist.is_empty());
    assert_eq!(c.bind_port, DEFAULT_PROXY_PORT);
    assert_eq!(c.kinetic_api, "http://127.0.0.1:16202");
    assert_eq!(c.kinetic_token, "");
    assert_eq!(c.networks_dir, "/data/networks");
    assert_eq!(c.registry_url, default_registry_url());
    assert_eq!(
        default_registry_url(),
        Some("https://api.github.com/repos/saifmukhtar/kinetic-atlas/contents/networks".to_string())
    );
    assert_eq!(c.override_ipfs_gateway, None);
    assert_eq!(c.updater_public_key, None);
    assert_eq!(default_bind_ip(), "127.0.0.1");
    assert_eq!(default_ipfs_gateway(), "https://ipfs.io");
}

#[test]
fn zone_insert_replaces() {
    let mut z = DnsZone::new();
    z.insert("@".to_string(), vec![DnsRecord::A(1)]);
    z.insert("www".to_string(), vec![DnsRecord::AAAA(2)]);
    z.insert("@".to_string(), vec![DnsRecord::IPFS("c".to_string())]);
    assert_eq!(z.get("@"), Some(&vec![DnsRecord::IPFS("c".to_string())]));
    assert_eq!(z.get("www"), Some(&vec![DnsRecord::AAAA(2)]));
    assert_eq!(z.get("api"), None);
}

use kinetic_atlas::registry::{
    clean_tld_of, is_admitted, is_network_file_name, pac_registration, NetworkEntry, NetworkFile,
    TldRegistry,
};
use kinetic_atlas::types::{AtlasConfig, NetworkConfig};

fn dummy_global_config(whitelist: Vec<String>, blacklist: Vec<String>) -> AtlasConfig {
    AtlasConfig {
        version: "1.0".to_string(),
        whitelist,
        blacklist,
        bind_port: 17002,
        kinetic_api: "http://127.0.0.1:16202".to_string(),
        kinetic_token: "".to_string(),
        networks_dir: "".to_string(),
        registry_url: None,
        override_ipfs_gateway: None,
        updater_public_key: None,
    }
}

fn dummy_network(version: &str, tld: &str) -> NetworkConfig {
    NetworkConfig {
        version: version.to_string(),
        network_id: "test".to_string(),
        tld: tld.to_string(),
        bootstrap_nodes: vec![],
        local_bind_ip: "127.0.0.1".to_string(),
        api_port: None,
        repo: None,
        seed_domain: None,
        ipfs_gateway: None,
    }
}

fn dummy_entry(filename: &str, version: &str, tld: &str) -> NetworkEntry {
    NetworkEntry {
        file_name: filename.to_string(),
        content: NetworkFile::Parsed(dummy_network(version, tld)),
    }
}

#[test]
fn test_load_whitelist() {
    let entries = vec![dummy_entry("kin.json", "1.0", "kin"), dummy_entry("test.json", "1.0", "test")];
    let mut registry = TldRegistry::new();
    let config = dummy_global_config(vec!["kin".to_string()], vec![]);
    registry.load_from_dir(Some(entries), &config);

    assert!(registry.contains_tld(".kin"));
    assert!(!registry.contains_tld(".test"));
}

#[test]
fn test_load_blacklist() {
    let entries = vec![dummy_entry("kin.json", "1.0", "kin"), dummy_entry("evil.json", "1.0", "evil")];
    let mut registry = TldRegistry::new();
    let config = dummy_global_config(vec![], vec!["evil".to_string()]);
    registry.load_from_dir(Some(entries), &config);

    assert!(registry.contains_tld(".kin"));
    assert!(!registry.contains_tld(".evil"));
}

#[test]
fn test_load_missing_version() {
    // A file without a version does not hold a network configuration.
    let entries = vec![NetworkEntry { file_name: "invalid.json".to_string(), content: NetworkFile::Malformed }];
    let mut registry = TldRegistry::new();
    let config = dummy_global_config(vec![], vec![]);
    registry.load_from_dir(Some(entries), &config);

    assert!(!registry.contains_tld("invalid"));
    assert_eq!(registry.len(), 0);
}

#[test]
fn load_first_claim_of_a_tld_wins() {
    let entries = vec![
        dummy_entry("a.json", "first", "kin"),
        dummy_entry("b.json", "second", ".kin"),
        dummy_entry("c.json", "third", "..kin"),
    ];
    let mut registry = TldRegistry::new();
    let loaded = registry.load_from_dir(Some(entries), &dummy_global_config(vec![], vec![]));
    assert_eq!(loaded, vec![".kin".to_string()]);
    assert_eq!(registry.len(), 1);
    assert_eq!(registry.get_config(".kin").unwrap().version, "first");
}

#[test]
fn load_skips_files_that_are_not_json() {
    let entries = vec![
        dummy_entry("kin.txt", "1.0", "kin"),
        dummy_entry(".json", "1.0", "dot"),
        dummy_entry("..json", "1.0", "dots"),
        NetworkEntry { file_name: "gone.json".to_string(), content: NetworkFile::Unreadable },
    ];
    let mut registry = TldRegistry::new();
    let loaded = registry.load_from_dir(Some(entries), &dummy_global_config(vec![], vec![]));
    assert_eq!(loaded, vec![".dots".to_string()]);
    assert!(!registry.contains_tld(".kin"));
    assert!(!registry.contains_tld(".dot"));
    assert!(registry.contains_tld(".dots"));
}

#[test]
fn load_without_directory_keeps_registry() {
    let mut registry = TldRegistry::new();
    let config = dummy_global_config(vec![], vec![]);
    registry.load_from_dir(Some(vec![dummy_entry("kin.json", "1.0", "kin")]), &config);
    let loaded = registry.load_from_dir(None, &config);
    assert!(loaded.is_empty());
    assert!(registry.contains_tld(".kin"));
    // A present but empty directory clears it.
    registry.load_from_dir(Some(vec![]), &config);
    assert!(!registry.contains_tld(".kin"));
}

#[test]
fn get_config_of_unknown_tld_is_none() {
    let registry = TldRegistry::new();
    assert!(registry.get_config(".kin").is_none());
}

#[test]
fn tld_names_and_filters() {
    assert_eq!(clean_tld_of("kin"), ".kin");
    assert_eq!(clean_tld_of("...fork"), ".fork");
    assert_eq!(clean_tld_of(""), ".");
    assert!(is_network_file_name("fork.json"));
    assert!(!is_network_file_name(".json"));
    assert!(!is_network_file_name("json"));
    assert!(!is_network_file_name("fork.JSON"));
    let both = dummy_global_config(vec!["kin".to_string(), "evil".to_string()], vec!["evil".to_string()]);
    assert!(is_admitted(&both, "kin"));
    assert!(!is_admitted(&both, "evil"));
    assert!(!is_admitted(&both, "fork"));
}

#[test]
fn pac_registration_file() {
    let r = pac_registration(".kin", 17002);
    assert_eq!(r.file_name, "atlas_kin.json");
    assert_eq!(r.tld, ".kin");
    assert_eq!(r.proxy_port, 17002);
    assert_eq!(r.proxy_ip, "127.0.0.1");
}

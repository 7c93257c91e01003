//! Core node types and configurations, as plain values.

use vstd::prelude::*;
use vstd::string::StringExecFns;

use crate::keyed::KeyedList;

verus! {

broadcast use vstd::string::group_string_axioms;

/// Global configuration for the Atlas daemon.
#[derive(Debug, Clone)]
pub struct AtlasConfig {
    /// Version
    pub version: String,
    /// Whitelist
    pub whitelist: Vec<String>,
    /// Blacklist
    pub blacklist: Vec<String>,
    /// Bind port
    pub bind_port: u16,
    /// Kinetic API URL
    pub kinetic_api: String,
    /// Kinetic Token
    pub kinetic_token: String,
    /// Networks directory
    pub networks_dir: String,
    /// Registry URL
    pub registry_url: Option<String>,
    /// Override IPFS gateway
    pub override_ipfs_gateway: Option<String>,
    /// Ed25519 public key (hex) to verify github network updates
    pub updater_public_key: Option<String>,
}

/// Configuration for a specific foreign network.
#[derive(Debug, Clone)]
pub struct NetworkConfig {
    /// Version
    pub version: String,
    /// Network ID
    pub network_id: String,
    /// TLD
    pub tld: String,
    /// Bootstrap nodes
    pub bootstrap_nodes: Vec<String>,
    /// Local bind IP
    pub local_bind_ip: String,
    /// API port
    pub api_port: Option<u16>,
    /// Repository URL
    pub repo: Option<String>,
    /// Seed domain
    pub seed_domain: Option<String>,
    /// IPFS gateway
    pub ipfs_gateway: Option<String>,
}

/// The characters of an optional string.
pub open spec fn opt_view(s: Option<String>) -> Option<Seq<char>> {
    match s {
        Some(v) => Some(v@),
        None => None,
    }
}

/// The characters of each string of a list.
pub open spec fn strings_view(v: Seq<String>) -> Seq<Seq<char>> {
    v.map_values(|s: String| s@)
}

/// A [`NetworkConfig`] with its texts taken as character sequences.
pub struct NetworkConfigView {
    pub version: Seq<char>,
    pub network_id: Seq<char>,
    pub tld: Seq<char>,
    pub bootstrap_nodes: Seq<Seq<char>>,
    pub local_bind_ip: Seq<char>,
    pub api_port: Option<u16>,
    pub repo: Option<Seq<char>>,
    pub seed_domain: Option<Seq<char>>,
    pub ipfs_gateway: Option<Seq<char>>,
}

impl View for NetworkConfig {
    type V = NetworkConfigView;

    open spec fn view(&self) -> NetworkConfigView {
        NetworkConfigView {
            version: self.version@,
            network_id: self.network_id@,
            tld: self.tld@,
            bootstrap_nodes: strings_view(self.bootstrap_nodes@),
            local_bind_ip: self.local_bind_ip@,
            api_port: self.api_port,
            repo: opt_view(self.repo),
            seed_domain: opt_view(self.seed_domain),
            ipfs_gateway: opt_view(self.ipfs_gateway),
        }
    }
}

/// An [`AtlasConfig`] with its texts taken as character sequences.
pub struct AtlasConfigView {
    pub version: Seq<char>,
    pub whitelist: Seq<Seq<char>>,
    pub blacklist: Seq<Seq<char>>,
    pub bind_port: u16,
    pub kinetic_api: Seq<char>,
    pub kinetic_token: Seq<char>,
    pub networks_dir: Seq<char>,
    pub registry_url: Option<Seq<char>>,
    pub override_ipfs_gateway: Option<Seq<char>>,
    pub updater_public_key: Option<Seq<char>>,
}

impl View for AtlasConfig {
    type V = AtlasConfigView;

    open spec fn view(&self) -> AtlasConfigView {
        AtlasConfigView {
            version: self.version@,
            whitelist: strings_view(self.whitelist@),
            blacklist: strings_view(self.blacklist@),
            bind_port: self.bind_port,
            kinetic_api: self.kinetic_api@,
            kinetic_token: self.kinetic_token@,
            networks_dir: self.networks_dir@,
            registry_url: opt_view(self.registry_url),
            override_ipfs_gateway: opt_view(self.override_ipfs_gateway),
            updater_public_key: opt_view(self.updater_public_key),
        }
    }
}

/// A copy of an optional string.
pub fn copy_opt_string(s: &Option<String>) -> (r: Option<String>)
    ensures
        r == *s,
        opt_view(r) == opt_view(*s),
{
    match s {
        Some(v) => Some(v.clone()),
        None => None,
    }
}

/// A copy of a list of strings.
pub fn copy_strings(v: &Vec<String>) -> (r: Vec<String>)
    ensures
        r@ == v@,
        strings_view(r@) == strings_view(v@),
{
    let mut r: Vec<String> = Vec::new();
    for i in 0..v.len()
        invariant
            r@ == v@.take(i as int),
    {
        r.push(v[i].clone());
        assert(r@ =~= v@.take(i + 1));
    }
    assert(v@.take(v.len() as int) =~= v@);
    r
}

impl NetworkConfig {
    /// A field-by-field copy of this configuration.
    pub fn duplicate(&self) -> (r: NetworkConfig)
        ensures
            r@ == self@,
    {
        let r = NetworkConfig {
            version: self.version.clone(),
            network_id: self.network_id.clone(),
            tld: self.tld.clone(),
            bootstrap_nodes: copy_strings(&self.bootstrap_nodes),
            local_bind_ip: self.local_bind_ip.clone(),
            api_port: self.api_port,
            repo: copy_opt_string(&self.repo),
            seed_domain: copy_opt_string(&self.seed_domain),
            ipfs_gateway: copy_opt_string(&self.ipfs_gateway),
        };
        r
    }
}

/// The registry location used when the configuration does not name one.
pub open spec fn spec_default_registry_url() -> Seq<char> {
    "https://api.github.com/repos/saifmukhtar/kinetic-atlas/contents/networks"@
}

/// The default registry location of the node.
pub fn default_registry_url() -> (r: Option<String>)
    ensures
        r matches Some(u) && u@ == spec_default_registry_url(),
{
    Some(
        String::from_str(
            "https://api.github.com/repos/saifmukhtar/kinetic-atlas/contents/networks",
        ),
    )
}

/// The configuration the daemon writes where it finds none: version 1.0, no
/// whitelist or blacklist, the default port and API, no token, the given
/// networks directory, the default registry, no gateway override and no
/// updater key.
pub fn default_atlas_config(networks_dir: String) -> (c: AtlasConfig)
    ensures
        c@.version == "1.0"@,
        c@.whitelist.len() == 0,
        c@.blacklist.len() == 0,
        c@.bind_port == crate::constants::DEFAULT_PROXY_PORT,
        c@.kinetic_api == "http://127.0.0.1:16202"@,
        c@.kinetic_token.len() == 0,
        c@.networks_dir == networks_dir@,
        c@.registry_url == Some(spec_default_registry_url()),
        c@.override_ipfs_gateway is None,
        c@.updater_public_key is None,
{
    let c = AtlasConfig {
        version: String::from_str("1.0"),
        whitelist: Vec::new(),
        blacklist: Vec::new(),
        bind_port: crate::constants::DEFAULT_PROXY_PORT,
        kinetic_api: String::from_str(crate::constants::default_kinetic_api()),
        kinetic_token: String::new(),
        networks_dir,
        registry_url: default_registry_url(),
        override_ipfs_gateway: None,
        updater_public_key: None,
    };
    assert(c@.whitelist =~= Seq::<Seq<char>>::empty());
    assert(c@.blacklist =~= Seq::<Seq<char>>::empty());
    c
}

/// A DNS record of a zone. Addresses are held as their numeric value, most
/// significant octet first.
#[derive(Debug, Clone, PartialEq, Eq)]
pub enum DnsRecord {
    /// IPv4
    A(u32),
    /// IPv6
    AAAA(u128),
    /// CNAME
    CNAME(String),
    /// TXT
    TXT(String),
    /// PeerId
    PeerId(String),
    /// KID
    KID(String),
    /// IPFS
    IPFS(String),
    /// Other
    Other,
}

impl DnsRecord {
    /// A copy of this record.
    pub fn duplicate(&self) -> (r: DnsRecord)
        ensures
            r == *self,
    {
        match self {
            DnsRecord::A(a) => DnsRecord::A(*a),
            DnsRecord::AAAA(a) => DnsRecord::AAAA(*a),
            DnsRecord::CNAME(s) => DnsRecord::CNAME(s.clone()),
            DnsRecord::TXT(s) => DnsRecord::TXT(s.clone()),
            DnsRecord::PeerId(s) => DnsRecord::PeerId(s.clone()),
            DnsRecord::KID(s) => DnsRecord::KID(s.clone()),
            DnsRecord::IPFS(s) => DnsRecord::IPFS(s.clone()),
            DnsRecord::Other => DnsRecord::Other,
        }
    }
}

/// The record sets of a zone, by name.
#[derive(Debug)]
pub struct DnsZone {
    records: KeyedList<Vec<DnsRecord>>,
}

impl DnsZone {
    /// The record sets of the zone, by name.
    pub closed spec fn records_map(self) -> Map<Seq<char>, Vec<DnsRecord>> {
        self.records.map()
    }

    /// An empty zone.
    pub fn new() -> (z: DnsZone)
        ensures
            z.records_map() == Map::<Seq<char>, Vec<DnsRecord>>::empty(),
    {
        DnsZone { records: KeyedList::new() }
    }

    /// Sets the records of a name, in place of any it had.
    pub fn insert(&mut self, name: String, records: Vec<DnsRecord>)
        ensures
            final(self).records_map() == old(self).records_map().insert(name@, records),
    {
        self.records.insert(name, records);
    }

    /// The records of a name, if the zone has any for it.
    pub fn get(&self, name: &str) -> (r: Option<&Vec<DnsRecord>>)
        ensures
            r is Some == self.records_map().contains_key(name@),
            r matches Some(v) ==> *v == self.records_map()[name@],
    {
        self.records.get(name)
    }
}

/// A request forwarded to a peer over the network's proxy protocol.
#[derive(Debug, Clone, PartialEq, Eq)]
pub struct ProxyRequest {
    /// Method
    pub method: String,
    /// Path
    pub path: String,
    /// Headers
    pub headers: Vec<(String, String)>,
    /// Body
    pub body: Vec<u8>,
}

/// The answer of a peer to a forwarded request.
#[derive(Debug, Clone, PartialEq, Eq)]
pub struct ProxyResponse {
    /// Status
    pub status: u16,
    /// Headers
    pub headers: Vec<(String, String)>,
    /// Body
    pub body: Vec<u8>,
}

} // verus!

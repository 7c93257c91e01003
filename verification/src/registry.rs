//! The registry of networks by TLD: which network files are read, which
//! networks the node's whitelist and blacklist admit, how a TLD is written,
//! and which network wins when two claim one TLD.

use vstd::prelude::*;
use vstd::string::StringExecFns;

use crate::keyed::{string_eq_str, KeyedList};
use crate::text::{ends_with, str_ends_with, trim_start_char, trim_start_matches_char};
use crate::types::{strings_view, AtlasConfig, AtlasConfigView, NetworkConfig};

verus! {

broadcast use vstd::string::group_string_axioms;

/// What came of reading one file of the networks directory.
#[derive(Debug)]
pub enum NetworkFile {
    /// The file was not read: it is no network file, or reading it failed.
    Unreadable,
    /// The file was read but does not hold a network configuration.
    Malformed,
    /// The network configuration that the file holds.
    Parsed(NetworkConfig),
}

/// One file of the networks directory: its name and what came of reading it.
#[derive(Debug)]
pub struct NetworkEntry {
    /// The file's name within the directory.
    pub file_name: String,
    /// What came of reading it.
    pub content: NetworkFile,
}

/// A file whose extension is `json`: a non-empty stem, a dot, then `json`.
pub open spec fn is_network_file(name: Seq<char>) -> bool {
    name.len() > 5 && ends_with(name, ".json"@)
}

/// The bare name of a TLD: without its leading dots.
pub open spec fn tld_name(tld: Seq<char>) -> Seq<char> {
    trim_start_char(tld, '.')
}

/// The registry key of a TLD: one dot, then its bare name.
pub open spec fn clean_tld(tld: Seq<char>) -> Seq<char> {
    seq!['.'] + tld_name(tld)
}

/// The node's lists admit a TLD name: the whitelist is empty or holds it, and
/// the blacklist does not hold it.
pub open spec fn admitted(g: AtlasConfigView, name: Seq<char>) -> bool {
    (g.whitelist.len() == 0 || g.whitelist.contains(name)) && !(g.blacklist.len() > 0
        && g.blacklist.contains(name))
}

/// An entry of the listing is a network file whose configuration was read and
/// whose TLD the node's lists admit.
pub open spec fn qualifies(e: NetworkEntry, g: AtlasConfigView) -> bool {
    is_network_file(e.file_name@) && match e.content {
        NetworkFile::Parsed(c) => admitted(g, tld_name(c.tld@)),
        _ => false,
    }
}

/// The TLD key that a qualifying entry claims.
pub open spec fn entry_key(e: NetworkEntry) -> Seq<char> {
    match e.content {
        NetworkFile::Parsed(c) => clean_tld(c.tld@),
        _ => Seq::empty(),
    }
}

/// The configuration of a qualifying entry.
pub open spec fn entry_config(e: NetworkEntry) -> NetworkConfig
    recommends
        e.content is Parsed,
{
    e.content->Parsed_0
}

/// The networks loaded from a listing, in order: each qualifying entry whose
/// TLD key is not yet taken is added under that key; the others are skipped.
pub open spec fn spec_load(entries: Seq<NetworkEntry>, g: AtlasConfigView) -> Map<
    Seq<char>,
    NetworkConfig,
>
    decreases entries.len(),
{
    if entries.len() == 0 {
        Map::empty()
    } else {
        let m = spec_load(entries.drop_last(), g);
        let e = entries.last();
        if qualifies(e, g) && !m.contains_key(entry_key(e)) {
            m.insert(entry_key(e), entry_config(e))
        } else {
            m
        }
    }
}

/// The TLD keys loaded from a listing, in the order in which they were added.
pub open spec fn spec_loaded_keys(entries: Seq<NetworkEntry>, g: AtlasConfigView) -> Seq<
    Seq<char>,
>
    decreases entries.len(),
{
    if entries.len() == 0 {
        Seq::empty()
    } else {
        let m = spec_load(entries.drop_last(), g);
        let e = entries.last();
        let ks = spec_loaded_keys(entries.drop_last(), g);
        if qualifies(e, g) && !m.contains_key(entry_key(e)) {
            ks.push(entry_key(e))
        } else {
            ks
        }
    }
}

/// An entry claims a TLD key: it qualifies and its TLD is written as that key.
pub open spec fn claims(e: NetworkEntry, g: AtlasConfigView, k: Seq<char>) -> bool {
    qualifies(e, g) && entry_key(e) == k
}

/// Loading a listing loads a TLD key exactly when some entry of the listing
/// claims it.
pub proof fn law_load_key_iff_claimed(entries: Seq<NetworkEntry>, g: AtlasConfigView, k: Seq<char>)
    ensures
        spec_load(entries, g).contains_key(k) <==> exists|j: int|
            0 <= j < entries.len() && #[trigger] claims(entries[j], g, k),
    decreases entries.len(),
{
    if entries.len() > 0 {
        let pre = entries.drop_last();
        let n = entries.len() - 1;
        law_load_key_iff_claimed(pre, g, k);
        let e = entries.last();
        assert(entries[n] == e);
        if qualifies(e, g) && entry_key(e) == k {
            assert(claims(entries[n], g, k));
        }
        if exists|j: int| 0 <= j < pre.len() && #[trigger] claims(pre[j], g, k) {
            let j = choose|j: int| 0 <= j < pre.len() && #[trigger] claims(pre[j], g, k);
            assert(claims(entries[j], g, k));
        }
        if exists|j: int| 0 <= j < entries.len() && #[trigger] claims(entries[j], g, k) {
            let j = choose|j: int| 0 <= j < entries.len() && #[trigger] claims(entries[j], g, k);
            if j < n {
                assert(claims(pre[j], g, k));
            }
        }
    }
}

/// When two entries claim one TLD key, the first one wins: the key holds the
/// network of the first entry of the listing that claims it.
pub proof fn law_load_first_claim_wins(
    entries: Seq<NetworkEntry>,
    g: AtlasConfigView,
    k: Seq<char>,
    j: int,
)
    requires
        0 <= j < entries.len(),
        claims(entries[j], g, k),
        forall|i: int| 0 <= i < j ==> !#[trigger] claims(entries[i], g, k),
    ensures
        spec_load(entries, g).contains_key(k),
        spec_load(entries, g)[k] == entry_config(entries[j]),
    decreases entries.len(),
{
    let pre = entries.drop_last();
    let n = entries.len() - 1;
    let e = entries.last();
    let m = spec_load(pre, g);
    if j < n {
        assert forall|i: int| 0 <= i < j implies !#[trigger] claims(pre[i], g, k) by {
            assert(pre[i] == entries[i]);
        }
        assert(pre[j] == entries[j]);
        law_load_first_claim_wins(pre, g, k, j);
    } else {
        law_load_key_iff_claimed(pre, g, k);
        if m.contains_key(k) {
            let i = choose|i: int| 0 <= i < pre.len() && #[trigger] claims(pre[i], g, k);
            assert(pre[i] == entries[i]);
            assert(claims(entries[i], g, k));
        }
    }
}

/// Every network loaded from a listing stands under the key of its own TLD,
/// and its TLD is admitted by the node's whitelist and blacklist.
pub proof fn law_load_admitted(entries: Seq<NetworkEntry>, g: AtlasConfigView)
    ensures
        forall|k: Seq<char>|
            #[trigger] spec_load(entries, g).contains_key(k) ==> k == clean_tld(
                spec_load(entries, g)[k].tld@,
            ) && admitted(g, tld_name(spec_load(entries, g)[k].tld@)),
    decreases entries.len(),
{
    if entries.len() > 0 {
        law_load_admitted(entries.drop_last(), g);
    }
}

/// The node's lists decide a TLD name as follows: any name on the whitelist and
/// not on the blacklist is admitted, wherever it stands on the list; with an
/// empty whitelist every name not on the blacklist is admitted; a name on the
/// blacklist never is; and a non-empty whitelist admits no name it does not hold.
pub proof fn law_admitted_by_lists(g: AtlasConfigView, name: Seq<char>)
    ensures
        g.whitelist.contains(name) && !g.blacklist.contains(name) ==> admitted(g, name),
        g.whitelist.len() == 0 && !g.blacklist.contains(name) ==> admitted(g, name),
        g.blacklist.contains(name) ==> !admitted(g, name),
        g.whitelist.len() > 0 && !g.whitelist.contains(name) ==> !admitted(g, name),
{
    if g.blacklist.contains(name) {
        let i = choose|i: int| 0 <= i < g.blacklist.len() && g.blacklist[i] == name;
        assert(g.blacklist.len() > 0);
    }
}

/// A network file of the listing whose TLD name is on the whitelist and not on
/// the blacklist has its TLD loaded, at whatever position the name stands on
/// the whitelist and the file in the listing.
pub proof fn law_load_listed_network(entries: Seq<NetworkEntry>, g: AtlasConfigView, j: int)
    requires
        0 <= j < entries.len(),
        is_network_file(entries[j].file_name@),
        entries[j].content is Parsed,
        g.whitelist.contains(tld_name(entry_config(entries[j]).tld@)),
        !g.blacklist.contains(tld_name(entry_config(entries[j]).tld@)),
    ensures
        spec_load(entries, g).contains_key(clean_tld(entry_config(entries[j]).tld@)),
{
    let k = clean_tld(entry_config(entries[j]).tld@);
    law_admitted_by_lists(g, tld_name(entry_config(entries[j]).tld@));
    assert(claims(entries[j], g, k));
    law_load_key_iff_claimed(entries, g, k);
}

/// Registry of all available network configurations by TLD.
#[derive(Debug)]
pub struct TldRegistry {
    networks: KeyedList<NetworkConfig>,
}

/// Whether a list of strings holds one with the characters of `s`.
fn list_contains(list: &Vec<String>, s: &str) -> (r: bool)
    ensures
        r == strings_view(list@).contains(s@),
{
    let mut i: usize = 0;
    while i < list.len()
        invariant
            i <= list@.len(),
            forall|j: int| 0 <= j < i ==> list@[j]@ != s@,
        decreases list@.len() - i,
    {
        if string_eq_str(&list[i], s) {
            assert(strings_view(list@)[i as int] == s@);
            return true;
        }
        i = i + 1;
    }
    proof {
        if strings_view(list@).contains(s@) {
            let j = choose|j: int| 0 <= j < list@.len() && strings_view(list@)[j] == s@;
            assert(list@[j]@ == s@);
        }
    }
    false
}

/// Whether a file name names a network file.
pub fn is_network_file_name(name: &str) -> (r: bool)
    ensures
        r == is_network_file(name@),
{
    let json = ".json";
    let n = crate::text::chars_of(name);
    n.len() > 5 && str_ends_with(name, json)
}

/// Whether the node's whitelist and blacklist admit a bare TLD name.
pub fn is_admitted(global: &AtlasConfig, name: &str) -> (r: bool)
    ensures
        r == admitted(global@, name@),
{
    let is_whitelisted = global.whitelist.len() == 0 || list_contains(&global.whitelist, name);
    let is_blacklisted = global.blacklist.len() != 0 && list_contains(&global.blacklist, name);
    is_whitelisted && !is_blacklisted
}

/// The registry key of a TLD: a single dot, then the TLD without its leading dots.
pub fn clean_tld_of(tld: &str) -> (r: String)
    ensures
        r@ == clean_tld(tld@),
{
    let dot = ".";
    proof {
        reveal_strlit(".");
    }
    String::from_str(dot).concat(trim_start_matches_char(tld, '.'))
}

impl TldRegistry {
    /// The networks of the registry, by TLD key.
    pub closed spec fn networks_map(self) -> Map<Seq<char>, NetworkConfig> {
        self.networks.map()
    }

    /// Creates a new empty registry.
    pub fn new() -> (r: TldRegistry)
        ensures
            r.networks_map() == Map::<Seq<char>, NetworkConfig>::empty(),
    {
        TldRegistry { networks: KeyedList::new() }
    }

    /// Retrieves the network configuration for a given TLD, if available.
    pub fn get_config(&self, tld: &str) -> (r: Option<NetworkConfig>)
        ensures
            r is Some == self.networks_map().contains_key(tld@),
            r matches Some(c) ==> c@ == self.networks_map()[tld@]@,
    {
        match self.networks.get(tld) {
            Some(c) => {
                let d = c.duplicate();
                assert(d@ == self.networks_map()[tld@]@);
                Some(d)
            },
            None => None,
        }
    }

    /// Whether the registry holds a network for a TLD key.
    pub fn contains_tld(&self, tld: &str) -> (r: bool)
        ensures
            r == self.networks_map().contains_key(tld@),
    {
        self.networks.contains_key(tld)
    }

    /// The number of networks the registry holds.
    pub fn len(&self) -> (n: usize)
        ensures
            n == self.networks_map().dom().len(),
    {
        let n = self.networks.len();
        proof {
            let names = self.networks.names();
            names.unique_seq_to_set();
            assert(names.to_set() =~= self.networks_map().dom());
        }
        n
    }

    /// Replaces the registry's networks with those of a directory listing, read
    /// in the listing's order; where the directory is missing (`None`), the
    /// registry is left as it is. Returns the TLD keys that were loaded, in order.
    pub fn load_from_dir(&mut self, listing: Option<Vec<NetworkEntry>>, global: &AtlasConfig) -> (loaded: Vec<String>)
        ensures
            listing is None ==> final(self).networks_map() == old(self).networks_map()
                && loaded@.len() == 0,
            listing matches Some(entries) ==> final(self).networks_map() == spec_load(
                entries@,
                global@,
            ) && strings_view(loaded@) == spec_loaded_keys(entries@, global@),
    {
        let mut entries = match listing {
            None => {
                return Vec::new();
            },
            Some(entries) => entries,
        };
        let ghost all = entries@;
        assert(all.len() == entries.len());
        let mut networks: KeyedList<NetworkConfig> = KeyedList::new();
        let mut loaded: Vec<String> = Vec::new();
        let mut i: usize = 0;
        while entries.len() > 0
            invariant
                entries@ == all.subrange(i as int, all.len() as int),
                i <= all.len(),
                all.len() <= usize::MAX,
                networks.map() == spec_load(all.take(i as int), global@),
                strings_view(loaded@) == spec_loaded_keys(all.take(i as int), global@),
            decreases entries@.len(),
        {
            assert(i < all.len()) by {
                assert(entries@.len() == all.len() - i);
            }
            let e = entries.remove(0);
            proof {
                assert(all.take(i + 1).drop_last() =~= all.take(i as int));
                assert(all.take(i + 1).last() == e);
            }
            let NetworkEntry { file_name, content } = e;
            if is_network_file_name(file_name.as_str()) {
                if let NetworkFile::Parsed(config) = content {
                    let name = trim_start_matches_char(config.tld.as_str(), '.');
                    if is_admitted(global, name) {
                        let key = clean_tld_of(config.tld.as_str());
                        if !networks.contains_key(key.as_str()) {
                            let ghost before = strings_view(loaded@);
                            loaded.push(key.clone());
                            assert(strings_view(loaded@) =~= before.push(key@));
                            networks.insert(key, config);
                        }
                    }
                }
            }
            i = i + 1;
        }
        assert(all.take(i as int) =~= all);
        self.networks = networks;
        loaded
    }
}

/// What the node writes so that other Kinetic tools route a TLD to its proxy.
#[derive(Debug, Clone, PartialEq, Eq)]
pub struct PacRegistration {
    /// The name of the registration file.
    pub file_name: String,
    /// The TLD key that is routed.
    pub tld: String,
    /// The port of the proxy.
    pub proxy_port: u16,
    /// The address of the proxy.
    pub proxy_ip: String,
}

/// The registration of a loaded TLD with the proxy's address: the file is named
/// by the prefix, the TLD's bare name and `.json`.
pub fn pac_registration(clean: &str, bind_port: u16) -> (r: PacRegistration)
    ensures
        r.file_name@ == "atlas_"@ + tld_name(clean@) + ".json"@,
        r.tld@ == clean@,
        r.proxy_port == bind_port,
        r.proxy_ip@ == "127.0.0.1"@,
{
    let file_name = String::from_str(crate::constants::atlas_prefix()).concat(
        trim_start_matches_char(clean, '.'),
    ).concat(".json");
    PacRegistration {
        file_name,
        tld: String::from_str(clean),
        proxy_port: bind_port,
        proxy_ip: String::from_str(crate::constants::default_bind_ip()),
    }
}

} // verus!

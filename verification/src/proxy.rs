//! Request routing for the HTTP gateway: how a host name is split into the
//! registered domain and its subdomain, how a TLD is found, which zone records
//! a request is sent to, and in what order the targets are tried.

use vstd::prelude::*;
use vstd::string::StrSliceExecFns;
use vstd::string::StringExecFns;

use crate::error::{AtlasError, AtlasErrorView};
use crate::http_types::{get_method, parse_method, parsed_method};
use crate::p2p::{ascii_lower, is_ascii_text, is_peer_id_text, lowercase, parse_peer_id, parsed_peer_id, to_lowercase};
use crate::registry::TldRegistry;
use crate::keyed::str_eq;
use crate::types::{opt_view, DnsRecord, DnsZone, NetworkConfig, NetworkConfigView, ProxyRequest};
use crate::text::{chars_of, ends_with, last_index_of, starts_with, lemma_last_index_of, lemma_last_index_of_unique, prefix_ends_with};

verus! {

broadcast use vstd::string::group_string_axioms;

/// `s` without one trailing copy of `t` where it ends with `t`; `s` itself otherwise.
pub open spec fn strip_tld(s: Seq<char>, t: Seq<char>) -> Seq<char> {
    if ends_with(s, t) {
        s.subrange(0, s.len() - t.len())
    } else {
        s
    }
}

/// The name under which a record set stands at the apex of a zone.
pub open spec fn apex_label() -> Seq<char> {
    seq!['@']
}

/// How a host name splits under a TLD: one trailing copy of the TLD is cut
/// off; what is left must be non-empty and must not start with a dot. The
/// registered name is what follows the last dot of the rest (all of it where
/// there is no dot), and the base domain is that name followed by the TLD. The
/// subdomain is what stands before that last dot, or `@` where there is none.
pub open spec fn spec_extract(full: Seq<char>, tld: Seq<char>) -> Option<(Seq<char>, Seq<char>)> {
    let w = strip_tld(full, tld);
    if w.len() == 0 || w[0] == '.' {
        None
    } else {
        let k = last_index_of(w, '.');
        Some(
            (
                w.subrange(k + 1, w.len() as int) + tld,
                if k >= 0 { w.subrange(0, k) } else { apex_label() },
            ),
        )
    }
}

/// A host written as `subdomain.name` followed by the TLD splits into the base
/// domain `name` + TLD and that subdomain, whenever the name holds no dot and
/// the subdomain is non-empty and does not start with a dot.
pub proof fn law_extract_with_subdomain(sub: Seq<char>, name: Seq<char>, tld: Seq<char>)
    requires
        sub.len() > 0,
        sub[0] != '.',
        name.len() > 0,
        forall|i: int| 0 <= i < name.len() ==> name[i] != '.',
    ensures
        spec_extract(sub + seq!['.'] + name + tld, tld) == Some((name + tld, sub)),
{
    let w = sub + seq!['.'] + name;
    let full = w + tld;
    assert(full.subrange(full.len() - tld.len(), full.len() as int) =~= tld);
    assert(full.subrange(0, full.len() - tld.len()) =~= w);
    assert(ends_with(full, tld));
    assert(strip_tld(full, tld) == w);
    assert(w[0] == sub[0]);
    assert(w[sub.len() as int] == '.');
    assert forall|j: int| sub.len() < j < w.len() implies w[j] != '.' by {
        assert(w[j] == name[j - sub.len() - 1]);
    }
    lemma_last_index_of_unique(w, '.', sub.len() as int);
    assert(w.subrange(sub.len() as int + 1, w.len() as int) =~= name);
    assert(w.subrange(0, sub.len() as int) =~= sub);
}

/// A host that is a dot-free name followed by the TLD splits into that host as
/// the base domain and the apex `@` as subdomain.
pub proof fn law_extract_apex(name: Seq<char>, tld: Seq<char>)
    requires
        name.len() > 0,
        forall|i: int| 0 <= i < name.len() ==> name[i] != '.',
    ensures
        spec_extract(name + tld, tld) == Some((name + tld, apex_label())),
{
    let full = name + tld;
    assert(full.subrange(full.len() - tld.len(), full.len() as int) =~= tld);
    assert(full.subrange(0, full.len() - tld.len()) =~= name);
    assert(ends_with(full, tld));
    assert(strip_tld(full, tld) == name);
    lemma_last_index_of_unique(name, '.', -1);
    assert(name.subrange(0, name.len() as int) =~= name);
}

/// What a split gives back: the base domain is a dot-free name
/// followed by the TLD, and where there is a subdomain, the subdomain, a dot
/// and that name rebuild the host without its trailing TLD.
pub proof fn law_extract_rebuilds_host(full: Seq<char>, tld: Seq<char>)
    ensures
        spec_extract(full, tld) matches Some((base, sub)) ==> {
            let w = strip_tld(full, tld);
            let name = base.subrange(0, base.len() - tld.len());
            &&& base == name + tld
            &&& forall|i: int| 0 <= i < name.len() ==> name[i] != '.'
            &&& (sub == apex_label() && name == w) || sub + seq!['.'] + name == w
        },
{
    let w = strip_tld(full, tld);
    if w.len() > 0 && w[0] != '.' {
        lemma_last_index_of(w, '.');
        let k = last_index_of(w, '.');
        let name = w.subrange(k + 1, w.len() as int);
        let base = name + tld;
        assert(base.subrange(0, base.len() - tld.len()) =~= name);
        assert forall|i: int| 0 <= i < name.len() implies name[i] != '.' by {
            assert(name[i] == w[k + 1 + i]);
        }
        if k >= 0 {
            assert(w.subrange(0, k) + seq!['.'] + name =~= w);
        } else {
            assert(name =~= w);
        }
    }
}

/// Extracts the base domain and subdomains from a full host string, given a TLD.
pub fn extract_base_domain_and_subdomain(full_domain: &str, clean_tld: &str) -> (res: Option<
    (String, String),
>)
    ensures
        res is None <==> spec_extract(full_domain@, clean_tld@) is None,
        res matches Some(p) ==> spec_extract(full_domain@, clean_tld@) == Some((p.0@, p.1@)),
{
    let f = chars_of(full_domain);
    let t = chars_of(clean_tld);
    let mut end = f.len();
    assert(f@.take(end as int) =~= f@);
    if prefix_ends_with(&f, end, &t) {
        end = end - t.len();
        assert(f@.take(end as int) =~= f@.subrange(0, f@.len() - t@.len()));
    }
    let ghost w = f@.take(end as int);
    assert(w == strip_tld(full_domain@, clean_tld@));
    if end == 0 || f[0] == '.' {
        return None;
    }
    // Find the last dot of the rest.

    let mut i: usize = end;
    let mut dot: Option<usize> = None;
    while i > 0 && dot.is_none()
        invariant
            i <= end,
            end <= f.len(),
            w == f@.take(end as int),
            dot is None ==> forall|j: int| i <= j < end ==> w[j] != '.',
            dot matches Some(k) ==> k < end && w[k as int] == '.' && forall|j: int|
                k < j < end ==> w[j] != '.',
        decreases i,
    {
        i = i - 1;
        if f[i] == '.' {
            dot = Some(i);
        }
    }
    let base_name = match dot {
        Some(k) => {
            proof {
                lemma_last_index_of_unique(w, '.', k as int);
            }
            full_domain.substring_char(k + 1, end)
        },
        None => {
            proof {
                lemma_last_index_of_unique(w, '.', -1);
            }
            full_domain.substring_char(0, end)
        },
    };
    let base = String::from_str(base_name).concat(clean_tld);
    let sub = match dot {
        Some(k) => String::from_str(full_domain.substring_char(0, k)),
        None => {
            let at = "@";
            proof {
                reveal_strlit("@");
            }
            String::from_str(at)
        },
    };
    proof {
        assert(full_domain@.subrange(0, end as int) =~= w);
    }
    Some((base, sub))
}

/// The `Host` header of an incoming request.
#[derive(Debug)]
pub enum HostHeader {
    /// The request has no `Host` header.
    Missing,
    /// The header's value is not visible ASCII text.
    Unreadable,
    /// The header's text.
    Text(String),
}

/// Where a request for a host goes: the host, its TLD, the network that serves
/// the TLD, the registered base domain and the subdomain.
#[derive(Debug)]
pub struct Route {
    /// The lowercased host, without port.
    pub full_domain: String,
    /// The TLD of the host: from its last dot to its end.
    pub tld: String,
    /// The network that serves the TLD.
    pub config: NetworkConfig,
    /// The registered name followed by the TLD.
    pub base_domain: String,
    /// The labels before the registered name, or `@`.
    pub subdomain: String,
}

/// A [`Route`] with its texts taken as character sequences.
pub struct RouteView {
    pub full_domain: Seq<char>,
    pub tld: Seq<char>,
    pub config: NetworkConfigView,
    pub base_domain: Seq<char>,
    pub subdomain: Seq<char>,
}

impl View for Route {
    type V = RouteView;

    open spec fn view(&self) -> RouteView {
        RouteView {
            full_domain: self.full_domain@,
            tld: self.tld@,
            config: self.config@,
            base_domain: self.base_domain@,
            subdomain: self.subdomain@,
        }
    }
}

/// The view of a routing outcome.
pub open spec fn route_result_view(r: Result<Route, AtlasError>) -> Result<RouteView, AtlasErrorView> {
    match r {
        Ok(route) => Ok(route@),
        Err(e) => Err(e@),
    }
}

/// The index of the first occurrence of `c` in `s`, or the length of `s`
/// where `c` does not occur.
pub open spec fn first_index_of(s: Seq<char>, c: char) -> int
    decreases s.len(),
{
    if s.len() == 0 {
        0
    } else if s[0] == c {
        0
    } else {
        1 + first_index_of(s.drop_first(), c)
    }
}

/// `first_index_of` names the first occurrence: `c` stands nowhere before it.
pub proof fn lemma_first_index_of(s: Seq<char>, c: char)
    ensures
        0 <= first_index_of(s, c) <= s.len(),
        first_index_of(s, c) < s.len() ==> s[first_index_of(s, c)] == c,
        forall|j: int| 0 <= j < first_index_of(s, c) ==> s[j] != c,
    decreases s.len(),
{
    if s.len() > 0 && s[0] != c {
        lemma_first_index_of(s.drop_first(), c);
        assert forall|j: int| 0 <= j < first_index_of(s, c) implies s[j] != c by {
            if j > 0 {
                assert(s[j] == s.drop_first()[j - 1]);
            }
        }
    }
}

/// Any position that holds `c` (or is the length) with no `c` before it is `first_index_of`.
pub proof fn lemma_first_index_of_unique(s: Seq<char>, c: char, k: int)
    requires
        0 <= k <= s.len(),
        k < s.len() ==> s[k] == c,
        forall|j: int| 0 <= j < k ==> s[j] != c,
    ensures
        first_index_of(s, c) == k,
{
    lemma_first_index_of(s, c);
    let f = first_index_of(s, c);
    if f < k {
        assert(s[f] == c);
    } else if k < f {
        assert(s[k] == c);
    }
}

/// The host part of a `Host` header value: what stands before its first colon.
pub open spec fn host_without_port(s: Seq<char>) -> Seq<char> {
    s.take(first_index_of(s, ':'))
}

/// How a lowercased host is routed: its TLD runs from its last dot to its end;
/// a host without a dot is refused; a TLD that the registry does not hold is
/// refused as blacklisted; a host whose name cannot be split off is refused;
/// otherwise the route names the TLD's network, base domain and subdomain.
pub open spec fn spec_route_host(full: Seq<char>, networks: Map<Seq<char>, NetworkConfig>) -> Result<
    RouteView,
    AtlasErrorView,
> {
    let k = last_index_of(full, '.');
    if k < 0 {
        Err(AtlasErrorView::InvalidProxyRequest("Invalid domain structure: No TLD"@))
    } else {
        let tld = full.subrange(k, full.len() as int);
        if !networks.contains_key(tld) {
            Err(AtlasErrorView::TldBlacklisted)
        } else {
            match spec_extract(full, tld) {
                None => Err(AtlasErrorView::InvalidProxyRequest("Could not parse base domain"@)),
                Some((base, sub)) => Ok(
                    RouteView {
                        full_domain: full,
                        tld,
                        config: networks[tld]@,
                        base_domain: base,
                        subdomain: sub,
                    },
                ),
            }
        }
    }
}

/// Routes a lowercased host (without port) through the registry.
pub fn route_host(full_domain: String, registry: &TldRegistry) -> (r: Result<Route, AtlasError>)
    ensures
        route_result_view(r) == spec_route_host(full_domain@, registry.networks_map()),
{
    let f = chars_of(full_domain.as_str());
    let mut i: usize = f.len();
    let mut dot: Option<usize> = None;
    while i > 0 && dot.is_none()
        invariant
            i <= f.len(),
            f@ == full_domain@,
            dot is None ==> forall|j: int| i <= j < f.len() ==> f@[j] != '.',
            dot matches Some(k) ==> k < f.len() && f@[k as int] == '.' && forall|j: int|
                k < j < f.len() ==> f@[j] != '.',
        decreases i,
    {
        i = i - 1;
        if f[i] == '.' {
            dot = Some(i);
        }
    }
    let k = match dot {
        None => {
            proof {
                lemma_last_index_of_unique(full_domain@, '.', -1);
            }
            return Err(
                AtlasError::InvalidProxyRequest(
                    String::from_str("Invalid domain structure: No TLD"),
                ),
            );
        },
        Some(k) => {
            proof {
                lemma_last_index_of_unique(full_domain@, '.', k as int);
            }
            k
        },
    };
    let tld = String::from_str(full_domain.as_str().substring_char(k, f.len()));
    let config = match registry.get_config(tld.as_str()) {
        None => {
            return Err(AtlasError::TldBlacklisted);
        },
        Some(c) => c,
    };
    match extract_base_domain_and_subdomain(full_domain.as_str(), tld.as_str()) {
        None => Err(AtlasError::InvalidProxyRequest(String::from_str("Could not parse base domain"))),
        Some((base_domain, subdomain)) => Ok(
            Route { full_domain, tld, config, base_domain, subdomain },
        ),
    }
}

/// How a request is routed by its `Host` header: a missing or unreadable header
/// is refused; otherwise the host (without port) is lowercased and routed.
pub open spec fn spec_route_request(host: HostHeader, networks: Map<Seq<char>, NetworkConfig>) -> Result<
    RouteView,
    AtlasErrorView,
> {
    match host {
        HostHeader::Missing => Err(AtlasErrorView::InvalidProxyRequest("Missing host header"@)),
        HostHeader::Unreadable => Err(
            AtlasErrorView::InvalidProxyRequest("Invalid host header format"@),
        ),
        HostHeader::Text(s) => spec_route_host(lowercase(host_without_port(s@)), networks),
    }
}

/// Routes a request by its `Host` header through the registry.
pub fn route_request(host: HostHeader, registry: &TldRegistry) -> (r: Result<Route, AtlasError>)
    ensures
        route_result_view(r) == spec_route_request(host, registry.networks_map()),
        (match host {
            HostHeader::Text(s) => is_ascii_text(s@) ==> route_result_view(r) == spec_route_host(
                ascii_lower(host_without_port(s@)),
                registry.networks_map(),
            ),
            _ => true,
        }),
{
    match host {
        HostHeader::Missing => Err(
            AtlasError::InvalidProxyRequest(String::from_str("Missing host header")),
        ),
        HostHeader::Unreadable => Err(
            AtlasError::InvalidProxyRequest(String::from_str("Invalid host header format")),
        ),
        HostHeader::Text(s) => {
            let v = chars_of(s.as_str());
            let mut i: usize = 0;
            while i < v.len() && v[i] != ':'
                invariant
                    v@ == s@,
                    i <= v.len(),
                    forall|j: int| 0 <= j < i ==> v@[j] != ':',
                decreases v.len() - i,
            {
                i = i + 1;
            }
            proof {
                lemma_first_index_of(s@, ':');
                let f = first_index_of(s@, ':');
                if f < i {
                    assert(s@[f] == ':');
                } else if i < f {
                    assert(s@[i as int] == ':');
                }
            }
            let host_part = s.as_str().substring_char(0, i);
            assert(host_part@ == host_without_port(s@));
            let full_domain = to_lowercase(host_part);
            route_host(full_domain, registry)
        },
    }
}

impl Route {
    /// The error that answers a request whose TLD's network cannot be reached.
    pub fn swarm_unavailable(&self) -> (e: AtlasError)
        ensures
            e@ == AtlasErrorView::NetworkInitFailed(
                "Failed to connect to network for TLD "@ + self.tld@,
            ),
    {
        AtlasError::NetworkInitFailed(
            String::from_str("Failed to connect to network for TLD ").concat(self.tld.as_str()),
        )
    }
}

/// What came of asking the network for the record of a base domain.
#[derive(Debug)]
pub enum ZoneLookup {
    /// The request could not be handed to the network.
    Unsent,
    /// The network found no record, or did not answer.
    NotFound,
    /// The record is not a reveal payload.
    BadPayload,
    /// The payload is not a DNS zone.
    BadZone,
    /// The DNS zone that the record holds.
    Found(DnsZone),
}

/// A record the gateway can forward a request to: IPFS content or a peer.
pub open spec fn is_target(r: DnsRecord) -> bool {
    r is IPFS || r is PeerId
}

/// The forwardable records of a record set, in their order.
pub open spec fn keep_targets(rs: Seq<DnsRecord>) -> Seq<DnsRecord>
    decreases rs.len(),
{
    if rs.len() == 0 {
        Seq::empty()
    } else if is_target(rs.last()) {
        keep_targets(rs.drop_last()).push(rs.last())
    } else {
        keep_targets(rs.drop_last())
    }
}

/// The record set that answers a subdomain: its own; for the apex `@` without
/// one, that of `www`; otherwise the request is refused.
pub open spec fn zone_records(zone: Map<Seq<char>, Vec<DnsRecord>>, sub: Seq<char>) -> Result<
    Seq<DnsRecord>,
    AtlasErrorView,
> {
    if zone.contains_key(sub) {
        Ok(zone[sub]@)
    } else if sub == apex_label() {
        if zone.contains_key("www"@) {
            Ok(zone["www"@]@)
        } else {
            Err(AtlasErrorView::DnsResolutionFailed("No usable records in domain zone"@))
        }
    } else {
        Err(AtlasErrorView::DnsResolutionFailed("Subdomain not found in zone"@))
    }
}

/// The records a request is forwarded to, given what the network answered: a
/// failed lookup is refused with its reason; otherwise the forwardable records
/// of the subdomain's record set, which must not be empty.
pub open spec fn spec_select_targets(lookup: ZoneLookup, sub: Seq<char>) -> Result<
    Seq<DnsRecord>,
    AtlasErrorView,
> {
    match lookup {
        ZoneLookup::Unsent => Err(
            AtlasErrorView::DnsResolutionFailed("Failed to communicate with swarm"@),
        ),
        ZoneLookup::NotFound => Err(AtlasErrorView::DnsResolutionFailed("Domain not found in DHT"@)),
        ZoneLookup::BadPayload => Err(
            AtlasErrorView::DnsResolutionFailed("Invalid DHT payload format"@),
        ),
        ZoneLookup::BadZone => Err(AtlasErrorView::DnsResolutionFailed("Invalid DNS zone format"@)),
        ZoneLookup::Found(zone) => match zone_records(zone.records_map(), sub) {
            Err(e) => Err(e),
            Ok(rs) => if keep_targets(rs).len() == 0 {
                Err(AtlasErrorView::DnsResolutionFailed("No target records found"@))
            } else {
                Ok(keep_targets(rs))
            },
        },
    }
}

/// The forwardable records of a record set, copied in their order.
fn copy_targets(rs: &Vec<DnsRecord>) -> (r: Vec<DnsRecord>)
    ensures
        r@ == keep_targets(rs@),
{
    let mut r: Vec<DnsRecord> = Vec::new();
    for i in 0..rs.len()
        invariant
            r@ == keep_targets(rs@.take(i as int)),
    {
        proof {
            assert(rs@.take(i + 1).drop_last() =~= rs@.take(i as int));
            assert(rs@.take(i + 1).last() == rs@[i as int]);
        }
        match &rs[i] {
            DnsRecord::IPFS(_) | DnsRecord::PeerId(_) => {
                r.push(rs[i].duplicate());
            },
            _ => {},
        }
    }
    assert(rs@.take(rs@.len() as int) =~= rs@);
    r
}

/// Chooses the records a request is forwarded to from what the network answered.
pub fn select_targets(lookup: ZoneLookup, subdomain: &str) -> (r: Result<Vec<DnsRecord>, AtlasError>)
    ensures
        match r {
            Ok(ts) => spec_select_targets(lookup, subdomain@) == Ok::<
                Seq<DnsRecord>,
                AtlasErrorView,
            >(ts@),
            Err(e) => spec_select_targets(lookup, subdomain@) == Err::<
                Seq<DnsRecord>,
                AtlasErrorView,
            >(e@),
        },
{
    let zone = match lookup {
        ZoneLookup::Unsent => {
            return Err(
                AtlasError::DnsResolutionFailed(String::from_str("Failed to communicate with swarm")),
            );
        },
        ZoneLookup::NotFound => {
            return Err(AtlasError::DnsResolutionFailed(String::from_str("Domain not found in DHT")));
        },
        ZoneLookup::BadPayload => {
            return Err(
                AtlasError::DnsResolutionFailed(String::from_str("Invalid DHT payload format")),
            );
        },
        ZoneLookup::BadZone => {
            return Err(AtlasError::DnsResolutionFailed(String::from_str("Invalid DNS zone format")));
        },
        ZoneLookup::Found(zone) => zone,
    };
    let records = match zone.get(subdomain) {
        Some(rs) => rs,
        None => {
            let at = "@";
            proof {
                reveal_strlit("@");
                assert(at@ =~= apex_label());
            }
            if str_eq(subdomain, at) {
                match zone.get("www") {
                    Some(rs) => rs,
                    None => {
                        return Err(
                            AtlasError::DnsResolutionFailed(
                                String::from_str("No usable records in domain zone"),
                            ),
                        );
                    },
                }
            } else {
                return Err(
                    AtlasError::DnsResolutionFailed(String::from_str("Subdomain not found in zone")),
                );
            }
        },
    };
    let targets = copy_targets(records);
    if targets.len() == 0 {
        return Err(AtlasError::DnsResolutionFailed(String::from_str("No target records found")));
    }
    Ok(targets)
}

/// The method a request is sent to an IPFS gateway with: the request's own
/// where the HTTP client parses it, else `GET`.
pub fn gateway_method(method: &str) -> (r: reqwest::Method)
    ensures
        (match parsed_method(method@) {
            Some(m) => r == m,
            None => parsed_method("GET"@) == Some(r),
        }),
{
    match parse_method(method) {
        Some(m) => m,
        None => get_method(),
    }
}

/// The parts of an incoming request that are forwarded: its method, its path
/// with query, and its headers whose values are text.
#[derive(Debug, Clone)]
pub struct RequestParts {
    /// The method.
    pub method: String,
    /// The path and query, or `/`.
    pub path: String,
    /// The headers, by name and value.
    pub headers: Vec<(String, String)>,
}

/// Why an attempt at a target failed.
#[derive(Debug, Clone, Copy, PartialEq, Eq, Structural)]
pub enum TargetFailure {
    /// The IPFS gateway did not answer.
    GatewayError,
    /// The request could not be handed to the network.
    SwarmUnreachable,
    /// The peer did not answer, or the request timed out.
    NoAnswer,
}

/// What the gateway does next with a request.
#[derive(Debug)]
pub enum ProxyAction {
    /// Forward the request to an IPFS gateway.
    FetchIpfs { method: String, url: String, headers: Vec<(String, String)>, body: Vec<u8> },
    /// Forward the request to a peer over the network.
    SendToPeer { peer: libp2p::PeerId, peer_id: String, request: ProxyRequest },
    /// Answer the request with an error.
    Fail(AtlasError),
}

/// The targets of a request and how far the gateway has come in trying them.
#[derive(Debug)]
pub struct ProxyAttempts {
    targets: Vec<DnsRecord>,
    next: usize,
    request: RequestParts,
    body: Vec<u8>,
    gateway: String,
    last_error: Option<String>,
}

/// The IPFS gateway of a request: the node's override, else the network's
/// gateway, else the default gateway.
pub open spec fn choose_gateway(node: Option<Seq<char>>, network: Option<Seq<char>>) -> Seq<char> {
    match node {
        Some(g) => g,
        None => match network {
            Some(g) => g,
            None => "https://ipfs.io"@,
        },
    }
}

/// A target the gateway tries: IPFS content, or a peer whose identity parses.
pub open spec fn is_attempt(r: DnsRecord) -> bool {
    match r {
        DnsRecord::IPFS(_) => true,
        DnsRecord::PeerId(p) => is_peer_id_text(p@),
        _ => false,
    }
}

/// The position of the first target at or after `from` that is tried, or the
/// number of targets where none is left.
pub open spec fn next_attempt(ts: Seq<DnsRecord>, from: int) -> int
    decreases ts.len() - from,
{
    if from < 0 || from >= ts.len() {
        ts.len() as int
    } else if is_attempt(ts[from]) {
        from
    } else {
        next_attempt(ts, from + 1)
    }
}

/// The gateway tries targets in their order and never goes back: the next
/// attempt lies at or after the current position, it is a target that is
/// tried, and every target it passes over is one that is not tried.
pub proof fn law_next_attempt_is_first_triable(ts: Seq<DnsRecord>, from: int)
    requires
        0 <= from <= ts.len(),
    ensures
        from <= next_attempt(ts, from) <= ts.len(),
        next_attempt(ts, from) < ts.len() ==> is_attempt(ts[next_attempt(ts, from)]),
        forall|i: int| from <= i < next_attempt(ts, from) ==> !is_attempt(ts[i]),
    decreases ts.len() - from,
{
    if from < ts.len() && !is_attempt(ts[from]) {
        law_next_attempt_is_first_triable(ts, from + 1);
    }
}

/// Some peer record lies between `from` and `to`: one whose identity did not parse.
pub open spec fn skips_peer(ts: Seq<DnsRecord>, from: int, to: int) -> bool {
    exists|i: int| from <= i < to && #[trigger] ts[i] is PeerId
}

/// The address of IPFS content at a gateway, for a request path: the path is
/// left off where it is `/`.
pub open spec fn ipfs_url(gateway: Seq<char>, cid: Seq<char>, path: Seq<char>) -> Seq<char> {
    gateway + "/ipfs/"@ + cid + (if path == "/"@ {
        Seq::empty()
    } else {
        path
    })
}

/// The headers forwarded to a gateway: all but `host`.
pub open spec fn without_host(hs: Seq<(String, String)>) -> Seq<(String, String)>
    decreases hs.len(),
{
    if hs.len() == 0 {
        Seq::empty()
    } else if hs.last().0@ == "host"@ {
        without_host(hs.drop_last())
    } else {
        without_host(hs.drop_last()).push(hs.last())
    }
}

/// Whether a record is a target that the gateway tries.
fn is_attempt_record(r: &DnsRecord) -> (b: bool)
    ensures
        b == is_attempt(*r),
{
    match r {
        DnsRecord::IPFS(_) => true,
        DnsRecord::PeerId(p) => parse_peer_id(p.as_str()).is_some(),
        _ => false,
    }
}

/// The message that the last failure of each kind leaves.
pub open spec fn failure_message(f: TargetFailure) -> Seq<char> {
    match f {
        TargetFailure::GatewayError => "IPFS Gateway Error"@,
        TargetFailure::SwarmUnreachable => "Failed to send proxy request to swarm"@,
        TargetFailure::NoAnswer => "P2P Proxy Request Failed or Timed Out"@,
    }
}

/// A copy of a list of headers.
fn copy_headers(hs: &Vec<(String, String)>) -> (r: Vec<(String, String)>)
    ensures
        r@ == hs@,
{
    let mut r: Vec<(String, String)> = Vec::new();
    for i in 0..hs.len()
        invariant
            r@ == hs@.take(i as int),
    {
        r.push((hs[i].0.clone(), hs[i].1.clone()));
        assert(r@ =~= hs@.take(i + 1));
    }
    assert(hs@.take(hs@.len() as int) =~= hs@);
    r
}

/// The headers of a list without those named `host`.
fn headers_without_host(hs: &Vec<(String, String)>) -> (r: Vec<(String, String)>)
    ensures
        r@ == without_host(hs@),
{
    let host = "host";
    let mut r: Vec<(String, String)> = Vec::new();
    for i in 0..hs.len()
        invariant
            r@ == without_host(hs@.take(i as int)),
            host@ == "host"@,
    {
        proof {
            assert(hs@.take(i + 1).drop_last() =~= hs@.take(i as int));
            assert(hs@.take(i + 1).last() == hs@[i as int]);
        }
        if !str_eq(hs[i].0.as_str(), host) {
            r.push((hs[i].0.clone(), hs[i].1.clone()));
        }
    }
    assert(hs@.take(hs@.len() as int) =~= hs@);
    r
}

/// A copy of a body.
fn copy_bytes(b: &Vec<u8>) -> (r: Vec<u8>)
    ensures
        r@ == b@,
{
    let mut r: Vec<u8> = Vec::new();
    for i in 0..b.len()
        invariant
            r@ == b@.take(i as int),
    {
        r.push(b[i]);
        assert(r@ =~= b@.take(i + 1));
    }
    assert(b@.take(b@.len() as int) =~= b@);
    r
}

impl ProxyAttempts {
    /// The targets, in the order in which they are tried.
    pub closed spec fn targets(self) -> Seq<DnsRecord> {
        self.targets@
    }

    /// The position of the next target to consider.
    pub closed spec fn next_index(self) -> int {
        self.next as int
    }

    /// The request being forwarded.
    pub closed spec fn request_parts(self) -> RequestParts {
        self.request
    }

    /// The body being forwarded.
    pub closed spec fn body(self) -> Seq<u8> {
        self.body@
    }

    /// The IPFS gateway of the request.
    pub closed spec fn gateway(self) -> Seq<char> {
        self.gateway@
    }

    /// The message of the last failure, if any target failed.
    pub closed spec fn last_failure(self) -> Option<Seq<char>> {
        opt_view(self.last_error)
    }

    /// The position of the next target stays within the targets.
    #[verifier::type_invariant]
    closed spec fn within_targets(self) -> bool {
        self.next <= self.targets@.len()
    }

    /// Starts trying the targets of a request, once its body is read; a body
    /// that could not be read refuses the request.
    pub fn new(
        targets: Vec<DnsRecord>,
        request: RequestParts,
        body: Option<Vec<u8>>,
        node_gateway: &Option<String>,
        network_gateway: &Option<String>,
    ) -> (r: Result<ProxyAttempts, AtlasError>)
        ensures
            body is None <==> r is Err,
            r matches Err(e) ==> e@ == AtlasErrorView::InvalidProxyRequest("Failed to read body"@),
            r matches Ok(a) ==> {
                &&& a.targets() == targets@
                &&& a.next_index() == 0
                &&& a.request_parts() == request
                &&& body matches Some(b) && a.body() == b@
                &&& a.gateway() == choose_gateway(opt_view(*node_gateway), opt_view(*network_gateway))
                &&& a.last_failure() is None
            },
    {
        let body = match body {
            None => {
                return Err(AtlasError::InvalidProxyRequest(String::from_str("Failed to read body")));
            },
            Some(b) => b,
        };
        let gateway = match node_gateway {
            Some(g) => g.clone(),
            None => match network_gateway {
                Some(g) => g.clone(),
                None => String::from_str(crate::constants::default_ipfs_gateway()),
            },
        };
        Ok(ProxyAttempts { targets, next: 0, request, body, gateway, last_error: None })
    }

    /// The message of the last failure, if any target failed.
    pub fn last_error(&self) -> (r: Option<&String>)
        ensures
            match r {
                Some(s) => self.last_failure() == Some(s@),
                None => self.last_failure() is None,
            },
    {
        match &self.last_error {
            Some(s) => Some(s),
            None => None,
        }
    }

    /// Notes that the attempt at the last target failed.
    pub fn record_failure(&mut self, failure: TargetFailure)
        ensures
            final(self).last_failure() == Some(failure_message(failure)),
            final(self).targets() == old(self).targets(),
            final(self).next_index() == old(self).next_index(),
            final(self).request_parts() == old(self).request_parts(),
            final(self).body() == old(self).body(),
            final(self).gateway() == old(self).gateway(),
    {
        let msg = match failure {
            TargetFailure::GatewayError => String::from_str("IPFS Gateway Error"),
            TargetFailure::SwarmUnreachable => String::from_str(
                "Failed to send proxy request to swarm",
            ),
            TargetFailure::NoAnswer => String::from_str("P2P Proxy Request Failed or Timed Out"),
        };
        proof {
            use_type_invariant(&*self);
        }
        self.last_error = Some(msg);
    }

    /// The next attempt: the first target from the current position that is IPFS
    /// content or a peer whose identity parses. Peers whose identity does not
    /// parse are passed over and leave their message as the last failure. IPFS
    /// content is fetched from the gateway at its address, with every header but
    /// `host`; a peer is sent the whole request. When no target is left, the
    /// request is answered as failed at all targets.
    pub fn next_action(&mut self) -> (act: ProxyAction)
        ensures
            final(self).targets() == old(self).targets(),
            final(self).request_parts() == old(self).request_parts(),
            final(self).body() == old(self).body(),
            final(self).gateway() == old(self).gateway(),
            ({
                let ts = old(self).targets();
                let j = next_attempt(ts, old(self).next_index());
                let req = old(self).request_parts();
                &&& final(self).last_failure() == if skips_peer(ts, old(self).next_index(), j) {
                    Some("Invalid PeerId in zone"@)
                } else {
                    old(self).last_failure()
                }
                &&& if j >= ts.len() {
                    &&& final(self).next_index() == ts.len()
                    &&& act matches ProxyAction::Fail(e) && e@ == AtlasErrorView::ProxyTargetFailed
                } else {
                    &&& final(self).next_index() == j + 1
                    &&& match ts[j] {
                        DnsRecord::IPFS(cid) => act matches ProxyAction::FetchIpfs {
                            method,
                            url,
                            headers,
                            body,
                        } && method@ == req.method@ && url@ == ipfs_url(
                            old(self).gateway(),
                            cid@,
                            req.path@,
                        ) && headers@ == without_host(req.headers@) && body@ == old(self).body(),
                        DnsRecord::PeerId(p) => act matches ProxyAction::SendToPeer {
                            peer,
                            peer_id,
                            request,
                        } && parsed_peer_id(p@) == Some(peer) && peer_id@ == p@ && request.method@ == req.method@ && request.path@
                            == req.path@ && request.headers@ == req.headers@ && request.body@
                            == old(self).body(),
                        _ => false,
                    }
                }
            }),
    {
        proof {
            use_type_invariant(&*self);
        }
        let ghost ts = self.targets@;
        let ghost from = self.next as int;
        proof {
            law_next_attempt_is_first_triable(ts, from);
        }
        while self.next < self.targets.len() && !is_attempt_record(&self.targets[self.next])
            invariant
                self.targets@ == ts,
                from <= self.next <= ts.len(),
                next_attempt(ts, self.next as int) == next_attempt(ts, from),
                self.request == old(self).request,
                self.body == old(self).body,
                self.gateway == old(self).gateway,
                opt_view(self.last_error) == if skips_peer(ts, from, self.next as int) {
                    Some("Invalid PeerId in zone"@)
                } else {
                    opt_view(old(self).last_error)
                },
            decreases ts.len() - self.next,
        {
            let i = self.next;
            if let DnsRecord::PeerId(_) = &self.targets[i] {
                self.last_error = Some(String::from_str("Invalid PeerId in zone"));
            }
            self.next = i + 1;
        }
        if self.next >= self.targets.len() {
            return ProxyAction::Fail(AtlasError::ProxyTargetFailed);
        }
        let j = self.next;
        assert(next_attempt(ts, j as int) == j);
        assert(j as int == next_attempt(ts, from));
        self.next = j + 1;
        match &self.targets[j] {
            DnsRecord::IPFS(cid) => {
                let slash = "/";
                proof {
                    reveal_strlit("/");
                }
                let tail = if str_eq(self.request.path.as_str(), slash) {
                    String::new()
                } else {
                    self.request.path.clone()
                };
                let url = self.gateway.clone().concat("/ipfs/").concat(cid.as_str()).concat(
                    tail.as_str(),
                );
                ProxyAction::FetchIpfs {
                    method: self.request.method.clone(),
                    url,
                    headers: headers_without_host(&self.request.headers),
                    body: copy_bytes(&self.body),
                }
            },
            DnsRecord::PeerId(p) => match parse_peer_id(p.as_str()) {
                Some(peer) => ProxyAction::SendToPeer {
                    peer,
                    peer_id: p.clone(),
                    request: ProxyRequest {
                        method: self.request.method.clone(),
                        path: self.request.path.clone(),
                        headers: copy_headers(&self.request.headers),
                        body: copy_bytes(&self.body),
                    },
                },
                None => ProxyAction::Fail(AtlasError::ProxyTargetFailed),
            },
            _ => ProxyAction::Fail(AtlasError::ProxyTargetFailed),
        }
    }
}



/// A zone answers a subdomain from the record set held under that very name
/// whenever there is one. The `www` set answers only the apex `@`, and only
/// where the apex has no set of its own; any other name without a set is refused.
pub proof fn law_zone_answers_from_own_set(zone: Map<Seq<char>, Vec<DnsRecord>>, sub: Seq<char>)
    ensures
        zone.contains_key(sub) ==> zone_records(zone, sub) == Ok::<Seq<DnsRecord>, AtlasErrorView>(
            zone[sub]@,
        ),
        !zone.contains_key(sub) && sub == apex_label() && zone.contains_key("www"@)
            ==> zone_records(zone, sub) == Ok::<Seq<DnsRecord>, AtlasErrorView>(zone["www"@]@),
        !zone.contains_key(sub) && !(sub == apex_label() && zone.contains_key("www"@))
            ==> zone_records(zone, sub) is Err,
{
}

/// The forwardable records kept from a record set are exactly its IPFS and
/// peer records, and none is kept exactly when the set holds none.
proof fn lemma_keep_targets(rs: Seq<DnsRecord>)
    ensures
        forall|x: DnsRecord| #[trigger] keep_targets(rs).contains(x) <==> rs.contains(x) && is_target(x),
        keep_targets(rs).len() == 0 <==> forall|i: int| 0 <= i < rs.len() ==> !is_target(#[trigger] rs[i]),
    decreases rs.len(),
{
    if rs.len() > 0 {
        let pre = rs.drop_last();
        lemma_keep_targets(pre);
        assert forall|x: DnsRecord| #[trigger] keep_targets(rs).contains(x) <==> rs.contains(x) && is_target(x) by {
            if rs.contains(x) && is_target(x) {
                let i = choose|i: int| 0 <= i < rs.len() && rs[i] == x;
                if i < rs.len() - 1 {
                    assert(pre[i] == x);
                    assert(pre.contains(x));
                    assert(keep_targets(pre).contains(x));
                    let j = choose|j: int| 0 <= j < keep_targets(pre).len() && keep_targets(pre)[j] == x;
                    if is_target(rs.last()) {
                        assert(keep_targets(rs) == keep_targets(pre).push(rs.last()));
                        assert(keep_targets(rs)[j] == x);
                    } else {
                        assert(keep_targets(rs) == keep_targets(pre));
                    }
                } else {
                    assert(keep_targets(rs).last() == x);
                }
            }
            if keep_targets(rs).contains(x) {
                let j = choose|j: int| 0 <= j < keep_targets(rs).len() && keep_targets(rs)[j] == x;
                if is_target(rs.last()) && j == keep_targets(rs).len() - 1 {
                    assert(rs[rs.len() - 1] == x);
                } else {
                    assert(keep_targets(pre)[j] == x);
                    assert(keep_targets(pre).contains(x));
                    let i = choose|i: int| 0 <= i < pre.len() && pre[i] == x;
                    assert(rs[i] == x);
                }
            }
        }
        if keep_targets(rs).len() == 0 {
            assert forall|i: int| 0 <= i < rs.len() implies !is_target(#[trigger] rs[i]) by {
                if i < rs.len() - 1 {
                    assert(pre[i] == rs[i]);
                }
            }
        } else if forall|i: int| 0 <= i < rs.len() ==> !is_target(#[trigger] rs[i]) {
            assert(!is_target(rs[rs.len() - 1]));
            assert forall|i: int| 0 <= i < pre.len() implies !is_target(#[trigger] pre[i]) by {
                assert(pre[i] == rs[i]);
            }
        }
    }
}

/// The targets a request is forwarded to, where the zone answers its subdomain,
/// are exactly the IPFS and peer records of the answering set; the request is
/// refused exactly when that set holds no such record.
pub proof fn law_select_targets_are_forwardable(zone: DnsZone, sub: Seq<char>)
    requires
        zone_records(zone.records_map(), sub) is Ok,
    ensures
        ({
            let rs = zone_records(zone.records_map(), sub)->Ok_0;
            let r = spec_select_targets(ZoneLookup::Found(zone), sub);
            &&& (r is Ok <==> exists|i: int| 0 <= i < rs.len() && is_target(#[trigger] rs[i]))
            &&& (match r {
                Ok(ts) => forall|x: DnsRecord| #[trigger] ts.contains(x) <==> rs.contains(x) && is_target(x),
                Err(_) => true,
            })
        }),
{
    let rs = zone_records(zone.records_map(), sub)->Ok_0;
    lemma_keep_targets(rs);
}

/// The node's own gateway override always wins, whatever the network names;
/// without it the network's gateway is used, and without both the default.
pub proof fn law_node_gateway_wins(node: Option<Seq<char>>, network: Option<Seq<char>>)
    ensures
        (match node {
            Some(g) => choose_gateway(node, network) == g,
            None => match network {
                Some(g) => choose_gateway(node, network) == g,
                None => choose_gateway(node, network) == "https://ipfs.io"@,
            },
        }),
{
}

/// The address of IPFS content starts with its gateway, then `/ipfs/` and the content id.
pub proof fn law_ipfs_url_at_gateway(gateway: Seq<char>, cid: Seq<char>, path: Seq<char>)
    ensures
        starts_with(ipfs_url(gateway, cid, path), gateway + "/ipfs/"@ + cid),
{
    let u = ipfs_url(gateway, cid, path);
    assert(u.subrange(0, (gateway + "/ipfs/"@ + cid).len() as int) =~= gateway + "/ipfs/"@ + cid);
}

/// A routed host ends with the route's TLD, which runs from the host's last dot;
/// the registry holds that TLD and the route names its network; and the route's
/// base domain and subdomain are the host's split under that TLD.
pub proof fn law_route_is_the_hosts_split(full: Seq<char>, networks: Map<Seq<char>, NetworkConfig>)
    ensures
        (match spec_route_host(full, networks) {
            Ok(r) => {
                &&& r.full_domain == full
                &&& ends_with(full, r.tld)
                &&& r.tld.len() > 0 && r.tld[0] == '.'
                &&& forall|i: int| 1 <= i < r.tld.len() ==> r.tld[i] != '.'
                &&& networks.contains_key(r.tld)
                &&& r.config == networks[r.tld]@
                &&& spec_extract(full, r.tld) == Some((r.base_domain, r.subdomain))
            },
            Err(_) => true,
        }),
{
    lemma_last_index_of(full, '.');
    let k = last_index_of(full, '.');
    if k >= 0 {
        let tld = full.subrange(k, full.len() as int);
        assert(full.subrange(full.len() - tld.len(), full.len() as int) =~= tld);
        assert forall|i: int| 1 <= i < tld.len() implies tld[i] != '.' by {
            assert(tld[i] == full[k + i]);
        }
    }
}

/// The TLD of a host `<rest>.<label>`, where the label holds no dot, is `.<label>`.
proof fn lemma_tld_of(rest: Seq<char>, label: Seq<char>)
    requires
        forall|i: int| 0 <= i < label.len() ==> label[i] != '.',
    ensures
        ({
            let full = rest + seq!['.'] + label;
            let k = last_index_of(full, '.');
            k == rest.len() && full.subrange(k, full.len() as int) == seq!['.'] + label
        }),
{
    let full = rest + seq!['.'] + label;
    assert(full[rest.len() as int] == '.');
    assert forall|j: int| rest.len() < j < full.len() implies full[j] != '.' by {
        assert(full[j] == label[j - rest.len() - 1]);
    }
    lemma_last_index_of_unique(full, '.', rest.len() as int);
    assert(full.subrange(rest.len() as int, full.len() as int) =~= seq!['.'] + label);
}

/// A host `sub.name.label`, whose TLD `.label` the registry holds, is routed to
/// that TLD's network with `name.label` as base domain and `sub` as subdomain,
/// for every non-empty subdomain that does not start with a dot and every
/// dot-free name and label: a subdomain such as `www` is kept as it is.
pub proof fn law_route_host_with_subdomain(
    sub: Seq<char>,
    name: Seq<char>,
    label: Seq<char>,
    networks: Map<Seq<char>, NetworkConfig>,
)
    requires
        sub.len() > 0,
        sub[0] != '.',
        name.len() > 0,
        forall|i: int| 0 <= i < name.len() ==> name[i] != '.',
        forall|i: int| 0 <= i < label.len() ==> label[i] != '.',
        networks.contains_key(seq!['.'] + label),
    ensures
        ({
            let tld = seq!['.'] + label;
            let full = sub + seq!['.'] + name + tld;
            spec_route_host(full, networks) == Ok::<RouteView, AtlasErrorView>(
                RouteView {
                    full_domain: full,
                    tld,
                    config: networks[tld]@,
                    base_domain: name + tld,
                    subdomain: sub,
                },
            )
        }),
{
    let tld = seq!['.'] + label;
    let rest = sub + seq!['.'] + name;
    assert(sub + seq!['.'] + name + tld =~= rest + seq!['.'] + label);
    lemma_tld_of(rest, label);
    law_extract_with_subdomain(sub, name, tld);
}

/// A host `name.label`, whose TLD `.label` the registry holds, is routed to the
/// apex `@` of the base domain `name.label`, for every dot-free name and label.
pub proof fn law_route_host_apex(name: Seq<char>, label: Seq<char>, networks: Map<Seq<char>, NetworkConfig>)
    requires
        name.len() > 0,
        forall|i: int| 0 <= i < name.len() ==> name[i] != '.',
        forall|i: int| 0 <= i < label.len() ==> label[i] != '.',
        networks.contains_key(seq!['.'] + label),
    ensures
        ({
            let tld = seq!['.'] + label;
            let full = name + tld;
            spec_route_host(full, networks) == Ok::<RouteView, AtlasErrorView>(
                RouteView {
                    full_domain: full,
                    tld,
                    config: networks[tld]@,
                    base_domain: full,
                    subdomain: apex_label(),
                },
            )
        }),
{
    let tld = seq!['.'] + label;
    assert(name + tld =~= name + seq!['.'] + label);
    lemma_tld_of(name, label);
    law_extract_apex(name, tld);
}

} // verus!

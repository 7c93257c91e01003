# kinetic_atlas

Kinetic Atlas is a gateway to decentralized domains (`.kin`, `.fork`, ...).
An HTTP proxy receives requests for such hosts, finds the network that serves
the host's TLD, asks that network's Kademlia DHT for the domain's DNS zone, and
forwards the request to IPFS content or to a peer named in the zone.

The routing rules, the registry of networks and the other decisions of the
node are written in Verus and proved against their contracts.

## Layout

- `src/`: the verified library.
  - `proxy.rs`: how a `Host` header is routed (TLD, base domain, subdomain),
    which zone records are targets, and the order in which targets are tried.
  - `registry.rs`: which network files are loaded, whitelist and blacklist,
    and which network wins when two claim one TLD.
  - `dns_tree.rs`: the walk of a seed domain's `kintree` TXT records.
  - `swarm_manager.rs`: the table of running swarms and idle collection.
  - `network.rs`: protocol names, bootstrap dialing, peer lookups.
  - `updater.rs`: which registry files are fetched, and the retry backoff.
  - `error.rs`: error codes, messages and problem-details records.
  - `types.rs`, `constants.rs`: configuration and record types, defaults.
  - `keyed.rs`, `text.rs`: a list keyed by name, and text helpers.
  - `p2p.rs`: the calls into `libp2p` and `std` that the logic relies on,
    each with the contract it is trusted to meet.
  - `http_types.rs`: the calls into the `http` crate (request methods and
    status codes), each with the contract it is trusted to meet.
- `tests/`: tests of the library.
- `app/`: the daemon: file and network I/O, the HTTP server, the libp2p
  swarms and the serde forms of the library's types.

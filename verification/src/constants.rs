//! Constants shared across the node: addresses, default endpoints and the
//! names of the directories and files that other Kinetic tools read.

use vstd::prelude::*;

verus! {

/// The local address the HTTP proxy binds to.
pub fn default_bind_ip() -> (r: &'static str)
    ensures
        r@ == "127.0.0.1"@,
{
    "127.0.0.1"
}

/// The public IPFS gateway used when neither the node nor the network names one.
pub fn default_ipfs_gateway() -> (r: &'static str)
    ensures
        r@ == "https://ipfs.io"@,
{
    "https://ipfs.io"
}

/// The directory, under the user's local data directory, shared by Kinetic tools.
pub fn global_dir_name() -> (r: &'static str)
    ensures
        r@ == "kinetic"@,
{
    "kinetic"
}

/// The directory, under the shared directory, where proxy registrations are dropped.
pub fn proxies_dir_name() -> (r: &'static str)
    ensures
        r@ == "proxies"@,
{
    "proxies"
}

/// The prefix of the registration file names that this node writes.
pub fn atlas_prefix() -> (r: &'static str)
    ensures
        r@ == "atlas_"@,
{
    "atlas_"
}

/// The default port of the HTTP proxy.
pub const DEFAULT_PROXY_PORT: u16 = 17002;

/// The default address of the local Kinetic daemon's API.
pub fn default_kinetic_api() -> (r: &'static str)
    ensures
        r@ == "http://127.0.0.1:16202"@,
{
    "http://127.0.0.1:16202"
}

} // verus!

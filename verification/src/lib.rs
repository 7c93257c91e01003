//! Kinetic Atlas: the verified routing core of a gateway for decentralized domains.

pub mod text;
pub mod types;
pub mod updater;
pub mod constants;
pub mod dns_tree;
pub mod error;
pub mod http_types;
pub mod keyed;
pub mod network;
pub mod p2p;
pub mod proxy;
pub mod registry;
pub mod swarm_manager;

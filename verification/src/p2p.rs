//! The libp2p values that the routing logic reads: peer identities and
//! multiaddresses, parsed and printed by `libp2p`.

use libp2p::multiaddr::Protocol;
use std::str::FromStr;
use vstd::prelude::*;

use crate::network::AddrComponent;
use vstd::string::StringSliceAdditionalSpecFns;

verus! {

/// `libp2p::PeerId`, the identity of a peer; opaque here.
#[verifier::external_type_specification]
#[verifier::external_body]
pub struct ExPeerId(libp2p::PeerId);

/// `libp2p::Multiaddr`, a self-describing network address; opaque here.
#[verifier::external_type_specification]
#[verifier::external_body]
pub struct ExMultiaddr(libp2p::Multiaddr);

/// The peer identity that `libp2p::PeerId::from_str` parses from a text, or
/// `None` where it refuses the text (base58 text of a SHA-256 or short
/// identity multihash is accepted).
pub uninterp spec fn parsed_peer_id(s: Seq<char>) -> Option<libp2p::PeerId>;

/// Whether libp2p accepts a text as a peer identity.
pub open spec fn is_peer_id_text(s: Seq<char>) -> bool {
    parsed_peer_id(s) is Some
}

/// The address that `libp2p::Multiaddr::from_str` parses from a text, with its
/// components in order (`Multiaddr::iter`), each as the library reads it; `None`
/// where the text is no multiaddress.
pub uninterp spec fn parsed_multiaddr(s: Seq<char>) -> Option<(libp2p::Multiaddr, Seq<AddrComponent>)>;

/// The text into which `libp2p::Multiaddr`'s `Display` prints an address.
pub uninterp spec fn multiaddr_text(a: libp2p::Multiaddr) -> Seq<char>;

/// The canonical text of the address that a text parses as, or `None` where it
/// is no multiaddress.
pub open spec fn multiaddr_display(s: Seq<char>) -> Option<Seq<char>> {
    match parsed_multiaddr(s) {
        Some((a, _)) => Some(multiaddr_text(a)),
        None => None,
    }
}

/// Parses a peer identity with `libp2p::PeerId::from_str`: the result is the
/// identity that libp2p parses from the text, the same for the same text.
#[verifier::external_body]
pub(crate) fn parse_peer_id(s: &str) -> (r: Option<libp2p::PeerId>)
    ensures
        r == parsed_peer_id(s@),
{
    libp2p::PeerId::from_str(s).ok()
}

/// Parses a multiaddress with `libp2p::Multiaddr::from_str` and lists its
/// components with `Multiaddr::iter`: `/ip4`, `/ip6` and `/p2p` with their
/// values, every other protocol as `Other`. The same text gives the same values.
#[verifier::external_body]
pub(crate) fn parse_multiaddr(s: &str) -> (r: Option<(libp2p::Multiaddr, Vec<AddrComponent>)>)
    ensures
        match r {
            Some((a, cs)) => parsed_multiaddr(s@) == Some((a, cs@)),
            None => parsed_multiaddr(s@) is None,
        },
{
    match libp2p::Multiaddr::from_str(s) {
        Ok(addr) => {
            let cs = addr.iter().map(|p| match p {
                Protocol::Ip4(a) => AddrComponent::Ip4(u32::from(a)),
                Protocol::Ip6(a) => AddrComponent::Ip6(u128::from(a)),
                Protocol::P2p(peer) => AddrComponent::P2p(peer),
                _ => AddrComponent::Other,
            }).collect();
            Some((addr, cs))
        },
        Err(_) => None,
    }
}

/// Prints a multiaddress with its `Display` (`to_string`).
#[verifier::external_body]
pub(crate) fn display_multiaddr(a: &libp2p::Multiaddr) -> (r: String)
    ensures
        r@ == multiaddr_text(*a),
{
    a.to_string()
}

/// The canonical text of a multiaddress: parsed, then printed; `None` where
/// the text is no multiaddress.
pub(crate) fn canonical_multiaddr(s: &str) -> (r: Option<String>)
    ensures
        match r {
            Some(t) => multiaddr_display(s@) == Some(t@),
            None => multiaddr_display(s@) is None,
        },
{
    match parse_multiaddr(s) {
        Some((a, _)) => Some(display_multiaddr(&a)),
        None => None,
    }
}

/// Decodes bytes as UTF-8 with `std::str::from_utf8`: text exactly when the
/// bytes are valid UTF-8, and then the text whose UTF-8 encoding they are.
#[verifier::external_body]
pub(crate) fn utf8_text(bytes: &[u8]) -> (r: Option<&str>)
    ensures
        r is Some == vstd::utf8::valid_utf8(bytes@),
        r matches Some(t) ==> t.spec_bytes() == bytes@,
{
    std::str::from_utf8(bytes).ok()
}

/// `str::to_lowercase` of a text: its Unicode lowercase mapping.
pub uninterp spec fn lowercase(s: Seq<char>) -> Seq<char>;

/// A text made only of ASCII characters.
pub open spec fn is_ascii_text(s: Seq<char>) -> bool {
    forall|i: int| 0 <= i < s.len() ==> (s[i] as u32) < 128
}

/// An ASCII character in lower case: `A` to `Z` become `a` to `z`; any other
/// character stays.
pub open spec fn ascii_lower_char(c: char) -> char {
    if 65 <= (c as u32) && (c as u32) <= 90 {
        ((c as u32) + 32) as char
    } else {
        c
    }
}

/// A text with each character put in ASCII lower case.
pub open spec fn ascii_lower(s: Seq<char>) -> Seq<char> {
    s.map_values(|c: char| ascii_lower_char(c))
}

/// Lowercases a text with `str::to_lowercase`; the result is `lowercase` of it.
/// On ASCII text the Unicode lowercase mapping is the ASCII one: `A` to `Z`
/// become `a` to `z` and every other character stays.
#[verifier::external_body]
pub(crate) fn to_lowercase(s: &str) -> (r: String)
    ensures
        r@ == lowercase(s@),
        is_ascii_text(s@) ==> r@ == ascii_lower(s@),
{
    s.to_lowercase()
}

} // verus!

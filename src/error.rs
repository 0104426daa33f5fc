//! Errors of each part of a convergence pass.

use vstd::prelude::*;

verus! {

/// An error of the DNS client, carried unchanged to the caller.
#[verifier::external_type_specification]
#[verifier::external_body]
pub struct ExRsdnsError(rsdns::Error);

/// An error of the netlink route and link requests, carried unchanged.
#[verifier::external_type_specification]
#[verifier::external_body]
pub struct ExNetlinkError(rtnetlink::Error);

/// An operating-system error reported by the WireGuard device or by address
/// resolution, carried unchanged.
#[verifier::external_type_specification]
#[verifier::external_body]
pub struct ExIoError(std::io::Error);

/// Any failure of one convergence pass.
#[derive(Debug)]
pub enum WgMesh {
    Mesh(Mesh),
    NodeRepository(NodeRepository),
    Routing(Routing),
    Wireguard(Wireguard),
}

/// Failures of the topology selection.
#[derive(Debug)]
pub enum Mesh {
    /// This host's public key is not among the discovered members.
    PeerNotPartOfMesh(String),
}

/// Failures of peer discovery.
#[derive(Debug)]
pub enum NodeRepository {
    /// The DNS query failed.
    Rsdns(rsdns::Error),
    /// The configured nameserver address could not be resolved.
    UnresolvableSocketAddress(std::io::Error, String),
    /// No usable nameserver address was found.
    InvalidNameserver(String),
    /// The named TXT record that should hold a member's public key is absent.
    MissingPubkeyRecord(String),
    /// A TXT record under the given name is not valid UTF-8.
    MalformedTxtRecord(String),
}

/// Failures of route installation.
#[derive(Debug)]
pub enum Routing {
    /// A netlink request failed.
    NetlinkError(rtnetlink::Error),
    /// The named interface does not exist.
    NoSuchInterface(String),
    /// An allowed IP of a peer is not an IPv4 prefix.
    InvalidDestination(String),
}

/// Failures of the WireGuard device.
#[derive(Debug)]
pub enum Wireguard {
    InvalidInterfaceName(String),
    NoResolveResponse(String),
    UnresolvableSocketAddress(std::io::Error, String, u16),
    InvalidIpAddress(String),
    NoPubkey,
    NoSuchDevice(std::io::Error),
    FailedToApplyConfig(std::io::Error),
    InvalidPublicKey(wireguard_control::InvalidKey, String),
}

} // verus!

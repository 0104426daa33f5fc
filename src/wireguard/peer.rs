//! The device configuration of one member.

use vstd::prelude::*;

use crate::error::Wireguard;
use crate::model::{strings_view, Peer, PeerView};

verus! {

/// Interval, in seconds, of the keepalive packets that hold NAT mappings open.
pub const PERSISTENT_KEEPALIVE_INTERVAL: u16 = 25;

/// The error of a key that is not 32 bytes in base64.
#[verifier::external_type_specification]
#[verifier::external_body]
pub struct ExInvalidKey(wireguard_control::InvalidKey);

/// An allowed IP in the form the WireGuard device takes.
#[verifier::external_type_specification]
#[verifier::external_body]
pub struct ExAllowedIp(wireguard_control::AllowedIp);

/// The 32 key bytes that the base64 text `s` encodes, if it encodes a key.
pub uninterp spec fn key_of_base64(s: Seq<char>) -> Option<Seq<u8>>;

/// Whether the WireGuard device accepts `s` as an allowed IP (`address/cidr`).
pub uninterp spec fn allowed_ip_accepted(s: Seq<char>) -> bool;

/// Relies on `wireguard_control::Key::from_base64`: decodes base64 and
/// accepts exactly 32 bytes.
#[verifier::external_body]
fn decode_key(s: &str) -> (r: Result<[u8; 32], wireguard_control::InvalidKey>)
    ensures
        match r {
            Ok(k) => key_of_base64(s@) == Some(k@),
            Err(_) => key_of_base64(s@) is None,
        },
{
    wireguard_control::Key::from_base64(s).map(|k| k.0)
}

/// Relies on `wireguard_control::AllowedIp::from_str`, which parses
/// `address/cidr`.
#[verifier::external_body]
fn parse_allowed_ip(s: &str) -> (r: Option<wireguard_control::AllowedIp>)
    ensures
        r is Some <==> allowed_ip_accepted(s@),
{
    s.parse::<wireguard_control::AllowedIp>().ok()
}

/// The configuration of one peer of the WireGuard device.
///
/// The endpoint stays a host name and port: it is resolved when the update
/// is applied, and left out where it does not resolve.
#[derive(Debug)]
pub struct DevicePeer {
    pub public_key: [u8; 32],
    pub allowed_ips: Vec<wireguard_control::AllowedIp>,
    pub endpoint: (String, u16),
    pub persistent_keepalive_interval: u16,
}

/// What the contracts know of a [`DevicePeer`].
pub struct DevicePeerView {
    pub public_key: Seq<u8>,
    pub allowed_ip_count: nat,
    pub endpoint_host: Seq<char>,
    pub endpoint_port: u16,
    pub persistent_keepalive_interval: u16,
}

impl View for DevicePeer {
    type V = DevicePeerView;

    open spec fn view(&self) -> DevicePeerView {
        DevicePeerView {
            public_key: self.public_key@,
            allowed_ip_count: self.allowed_ips@.len(),
            endpoint_host: self.endpoint.0@,
            endpoint_port: self.endpoint.1,
            persistent_keepalive_interval: self.persistent_keepalive_interval,
        }
    }
}

/// Whether the device accepts every allowed IP of the list.
pub open spec fn all_accepted(ips: Seq<Seq<char>>) -> bool {
    forall|i: int| 0 <= i < ips.len() ==> allowed_ip_accepted(#[trigger] ips[i])
}

/// Whether `s` is the first allowed IP of the list that the device refuses.
pub open spec fn first_refused(ips: Seq<Seq<char>>, s: Seq<char>) -> bool {
    exists|k: int|
        0 <= k < ips.len() && ips[k] == s && !allowed_ip_accepted(s) && all_accepted(
            #[trigger] ips.take(k),
        )
}

/// Whether the member `p` can be handed to the device: its allowed IPs and
/// its key are valid.
pub open spec fn configurable(p: PeerView) -> bool {
    all_accepted(p.allowed_ips) && key_of_base64(p.public_key) is Some
}

/// The device configuration of a member that is [`configurable`].
pub open spec fn device_peer(p: PeerView) -> DevicePeerView {
    DevicePeerView {
        public_key: key_of_base64(p.public_key)->Some_0,
        allowed_ip_count: p.allowed_ips.len(),
        endpoint_host: p.endpoint_host,
        endpoint_port: p.endpoint_port,
        persistent_keepalive_interval: PERSISTENT_KEEPALIVE_INTERVAL,
    }
}

/// The error that a member that is not [`configurable`] yields: the first
/// refused allowed IP, or else its key.
pub open spec fn refusal(p: PeerView, e: Wireguard) -> bool {
    if !all_accepted(p.allowed_ips) {
        e matches Wireguard::InvalidIpAddress(s) && first_refused(p.allowed_ips, s@)
    } else {
        e matches Wireguard::InvalidPublicKey(_, k) && k@ == p.public_key
    }
}

/// The device configuration of one member: its key decoded, its allowed IPs
/// parsed, its endpoint, and a keepalive of 25 seconds.
pub fn device_peer_of(peer: &Peer) -> (r: Result<DevicePeer, Wireguard>)
    ensures
        configurable(peer@) ==> (r matches Ok(d) && d@ == device_peer(peer@)),
        !configurable(peer@) ==> (r matches Err(e) && refusal(peer@, e)),
{
    let ghost ips = peer@.allowed_ips;
    let mut allowed_ips: Vec<wireguard_control::AllowedIp> = Vec::new();
    let mut i: usize = 0;
    while i < peer.allowed_ips.len()
        invariant
            ips == strings_view(peer.allowed_ips@),
            i <= peer.allowed_ips.len(),
            allowed_ips@.len() == i,
            all_accepted(ips.take(i as int)),
        decreases peer.allowed_ips.len() - i,
    {
        let ghost s = ips[i as int];
        proof {
            assert(peer.allowed_ips@[i as int]@ == s);
        }
        match parse_allowed_ip(peer.allowed_ips[i].as_str()) {
            Some(ip) => {
                allowed_ips.push(ip);
                proof {
                    assert forall|k: int| 0 <= k < i + 1 implies allowed_ip_accepted(
                        #[trigger] ips.take(i + 1)[k],
                    ) by {
                        if k < i {
                            assert(ips.take(i + 1)[k] == ips.take(i as int)[k]);
                        }
                    }
                }
            },
            None => {
                proof {
                    assert(first_refused(ips, s));
                }
                return Err(Wireguard::InvalidIpAddress(peer.allowed_ips[i].clone()));
            },
        }
        i = i + 1;
    }
    proof {
        assert(ips.take(ips.len() as int) == ips);
    }
    match decode_key(peer.public_key.as_str()) {
        Ok(public_key) => Ok(
            DevicePeer {
                public_key,
                allowed_ips,
                endpoint: (peer.endpoint.0.clone(), peer.endpoint.1),
                persistent_keepalive_interval: PERSISTENT_KEEPALIVE_INTERVAL,
            },
        ),
        Err(e) => Err(Wireguard::InvalidPublicKey(e, peer.public_key.clone())),
    }
}

} // verus!

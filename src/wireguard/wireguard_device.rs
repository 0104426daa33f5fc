//! The device: its identity, its name, and the update that replaces its
//! peers.

use vstd::prelude::*;
use vstd::string::*;

use crate::error::Wireguard;
use crate::model::{peers_view, Peer, PeerView};
use crate::wireguard::peer::{
    configurable, device_peer, device_peer_of, refusal, DevicePeer, DevicePeerView,
};

verus! {

/// The name of a network interface, as the WireGuard device takes it.
#[verifier::external_type_specification]
#[verifier::external_body]
pub struct ExInterfaceName(wireguard_control::InterfaceName);

/// The base64 text of the key bytes `k`.
pub uninterp spec fn base64_of_key(k: Seq<u8>) -> Seq<char>;

/// Whether `b` is an ASCII whitespace byte: space, tab, line feed, form feed
/// or carriage return.
pub open spec fn is_ascii_whitespace(b: u8) -> bool {
    b == 32 || b == 9 || b == 10 || b == 12 || b == 13
}

/// Whether the UTF-8 bytes `b` form a valid interface name: between 1 and 15
/// bytes, none of them NUL, `/` or whitespace.
pub open spec fn valid_interface_name(b: Seq<u8>) -> bool {
    &&& 1 <= b.len() <= 15
    &&& forall|i: int|
        0 <= i < b.len() ==> #[trigger] b[i] != 0 && b[i] != 47 && !is_ascii_whitespace(b[i])
}

/// Relies on `wireguard_control::InterfaceName::from_str`, which accepts a
/// name of 1 to `IFNAMSIZ - 1` (15) bytes without NUL, `/` or ASCII
/// whitespace.
#[verifier::external_body]
fn parse_interface_name(s: &str) -> (r: Option<wireguard_control::InterfaceName>)
    ensures
        r is Some <==> valid_interface_name(s.spec_bytes()),
{
    s.parse::<wireguard_control::InterfaceName>().ok()
}

/// Relies on `wireguard_control::Key::to_base64`, the standard base64 text
/// of a key.
#[verifier::external_body]
fn encode_key(k: [u8; 32]) -> (r: String)
    ensures
        r@ == base64_of_key(k@),
{
    wireguard_control::Key(k).to_base64()
}

/// The local WireGuard device, by interface name.
#[derive(Debug)]
pub struct WireguardImpl {
    pub interface_name: wireguard_control::InterfaceName,
}

impl WireguardImpl {
    /// The device on the interface `interface_name`, when that is a valid
    /// interface name; `InvalidInterfaceName` naming it otherwise.
    pub fn new(interface_name: &str) -> (r: Result<WireguardImpl, Wireguard>)
        ensures
            valid_interface_name(interface_name.spec_bytes()) <==> r is Ok,
            r matches Err(e) ==> (e matches Wireguard::InvalidInterfaceName(n) && n@
                == interface_name@),
    {
        match parse_interface_name(interface_name) {
            Some(name) => Ok(WireguardImpl { interface_name: name }),
            None => Err(Wireguard::InvalidInterfaceName(interface_name.to_string())),
        }
    }
}

/// Failed attempts at opening the device after which another one is still
/// made: the interface may not exist yet while the host comes up.
pub const INIT_RETRIES: usize = 12;

/// What follows an attempt at opening the device.
#[derive(Debug)]
pub enum OpenStep {
    /// Wait, then try again.
    Retry,
    /// Stop, with this outcome.
    Finished(Result<WireguardImpl, Wireguard>),
}

/// The step after the `attempt`-th attempt at opening the device (counted
/// from 1) gave `opened`: a failure is retried until `INIT_RETRIES` attempts
/// have failed, and the attempt after them is final.
pub fn after_open_attempt(attempt: usize, opened: Result<WireguardImpl, Wireguard>) -> (r:
    OpenStep)
    ensures
        (opened is Err && attempt <= INIT_RETRIES) ==> r is Retry,
        (opened is Ok || attempt > INIT_RETRIES) ==> r == OpenStep::Finished(opened),
{
    if opened.is_err() && attempt <= INIT_RETRIES {
        OpenStep::Retry
    } else {
        OpenStep::Finished(opened)
    }
}

/// An update of the device: the peers to configure, and whether they replace
/// every peer the device had.
#[derive(Debug)]
pub struct DeviceUpdate {
    pub replace_peers: bool,
    pub peers: Vec<DevicePeer>,
}

/// What the contracts know of a [`DeviceUpdate`].
pub struct DeviceUpdateView {
    pub replace_peers: bool,
    pub peers: Seq<DevicePeerView>,
}

pub open spec fn device_peers_view(v: Seq<DevicePeer>) -> Seq<DevicePeerView> {
    v.map_values(|d: DevicePeer| d@)
}

impl View for DeviceUpdate {
    type V = DeviceUpdateView;

    open spec fn view(&self) -> DeviceUpdateView {
        DeviceUpdateView { replace_peers: self.replace_peers, peers: device_peers_view(self.peers@) }
    }
}

/// The peer table of the device after it applied the update `u` to `table`.
pub open spec fn device_after(table: Seq<DevicePeerView>, u: DeviceUpdateView) -> Seq<
    DevicePeerView,
> {
    if u.replace_peers {
        u.peers
    } else {
        table + u.peers
    }
}

/// Whether every member of the list can be handed to the device.
pub open spec fn all_configurable(peers: Seq<PeerView>) -> bool {
    forall|i: int| 0 <= i < peers.len() ==> configurable(#[trigger] peers[i])
}

/// The device configurations of a list of members, in order.
pub open spec fn device_peers(peers: Seq<PeerView>) -> Seq<DevicePeerView> {
    peers.map_values(|p: PeerView| device_peer(p))
}

/// The update that makes the selected members the device's complete peer
/// set: every peer the device had and that is not among them goes.
///
/// The first member that cannot be configured yields its error.
pub fn replace_peers_update(peers: &Vec<Peer>) -> (r: Result<DeviceUpdate, Wireguard>)
    ensures
        all_configurable(peers_view(peers@)) ==> (r matches Ok(u) && u@ == DeviceUpdateView {
            replace_peers: true,
            peers: device_peers(peers_view(peers@)),
        }),
        !all_configurable(peers_view(peers@)) ==> (r matches Err(e) && exists|k: int|
            0 <= k < peers.len() && all_configurable(#[trigger] peers_view(peers@).take(k))
                && !configurable(peers_view(peers@)[k]) && refusal(peers_view(peers@)[k], e)),
{
    let ghost pv = peers_view(peers@);
    let mut configs: Vec<DevicePeer> = Vec::new();
    let mut i: usize = 0;
    while i < peers.len()
        invariant
            pv == peers_view(peers@),
            i <= peers.len(),
            all_configurable(pv.take(i as int)),
            device_peers_view(configs@) == device_peers(pv.take(i as int)),
        decreases peers.len() - i,
    {
        match device_peer_of(&peers[i]) {
            Ok(d) => {
                let ghost before = configs@;
                configs.push(d);
                proof {
                    assert(device_peers_view(configs@) =~= device_peers_view(before).push(
                        device_peer(pv[i as int]),
                    ));
                    assert(device_peers(pv.take(i + 1)) =~= device_peers(pv.take(i as int)).push(
                        device_peer(pv[i as int]),
                    ));
                    assert forall|k: int| 0 <= k < i + 1 implies configurable(
                        #[trigger] pv.take(i + 1)[k],
                    ) by {
                        if k < i {
                            assert(pv.take(i + 1)[k] == pv.take(i as int)[k]);
                        }
                    }
                }
            },
            Err(e) => {
                proof {
                    assert(pv[i as int] == peers@[i as int]@);
                    assert(!configurable(pv[i as int]));
                    assert(!all_configurable(pv));
                    assert(all_configurable(pv.take(i as int)));
                }
                return Err(e);
            },
        }
        i = i + 1;
    }
    proof {
        assert(pv.take(pv.len() as int) == pv);
    }
    Ok(DeviceUpdate { replace_peers: true, peers: configs })
}

/// Applying the update for the same members twice leaves the device with the
/// peer table that one application gives: exactly those members.
pub proof fn lemma_replace_peers_idempotent(table: Seq<DevicePeerView>, peers: Seq<PeerView>)
    ensures
        ({
            let u = DeviceUpdateView { replace_peers: true, peers: device_peers(peers) };
            &&& device_after(device_after(table, u), u) == device_after(table, u)
            &&& device_after(table, u) == device_peers(peers)
        }),
{
}

/// This host's public key, from what the device reported: the device itself
/// (its key, if it has one) or the error of its lookup.
///
/// A missing device is `NoSuchDevice`; a device without a key is `NoPubkey`.
pub fn interface_pubkey(device: Result<Option<[u8; 32]>, std::io::Error>) -> (r: Result<
    String,
    Wireguard,
>)
    ensures
        match device {
            Err(e) => r == Err::<String, Wireguard>(Wireguard::NoSuchDevice(e)),
            Ok(None) => r == Err::<String, Wireguard>(Wireguard::NoPubkey),
            Ok(Some(k)) => r matches Ok(s) && s@ == base64_of_key(k@),
        },
{
    match device {
        Err(e) => Err(Wireguard::NoSuchDevice(e)),
        Ok(None) => Err(Wireguard::NoPubkey),
        Ok(Some(k)) => Ok(encode_key(k)),
    }
}

} // verus!

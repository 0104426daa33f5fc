//! One convergence pass as a state machine driven by the caller.

use vstd::prelude::*;

use crate::error::{Mesh, NodeRepository, Routing, WgMesh, Wireguard};
use crate::mesh::filter_peers::{filter_peers, find_member, selection};
use crate::model::{peers_view, Peer};

verus! {

/// Where one convergence pass stands.
///
/// The pass reads this host's identity, discovers every member, keeps those
/// this host peers with, replaces the device's peers with them and then adds
/// their routes. Discovery and selection are one step: the selection needs
/// nothing from outside.
#[derive(Debug)]
pub enum MeshPass {
    Start,
    Identified { interface_pubkey: String },
    Filtered { peers: Vec<Peer> },
    DeviceReconciled { peers: Vec<Peer> },
    Done,
    Failed(WgMesh),
}

/// What the caller must do next for the pass to go on.
#[derive(Debug, PartialEq, Eq, Structural)]
pub enum MeshAction {
    /// Read this host's public key from the device.
    ReadIdentity,
    /// Resolve every member of the mesh record.
    FetchAllPeers,
    /// Replace the device's peers with the selected peers.
    ReplacePeers,
    /// Add the routes of the selected peers.
    AddRoutes,
    /// Nothing: the pass is over.
    Stop,
}

/// The answer to an action.
#[derive(Debug)]
pub enum MeshEvent {
    Identity(Result<String, Wireguard>),
    Discovery(Result<Vec<Peer>, NodeRepository>),
    DeviceApplied(Result<(), Wireguard>),
    RoutesAdded(Result<(), Routing>),
}

/// The action that a pass in state `s` waits on.
pub open spec fn pending(s: MeshPass) -> MeshAction {
    match s {
        MeshPass::Start => MeshAction::ReadIdentity,
        MeshPass::Identified { .. } => MeshAction::FetchAllPeers,
        MeshPass::Filtered { .. } => MeshAction::ReplacePeers,
        MeshPass::DeviceReconciled { .. } => MeshAction::AddRoutes,
        MeshPass::Done => MeshAction::Stop,
        MeshPass::Failed(_) => MeshAction::Stop,
    }
}

/// Whether the event answers the action that the pass waits on.
pub open spec fn answers(s: MeshPass, e: MeshEvent) -> bool {
    match (s, e) {
        (MeshPass::Start, MeshEvent::Identity(_)) => true,
        (MeshPass::Identified { .. }, MeshEvent::Discovery(_)) => true,
        (MeshPass::Filtered { .. }, MeshEvent::DeviceApplied(_)) => true,
        (MeshPass::DeviceReconciled { .. }, MeshEvent::RoutesAdded(_)) => true,
        _ => false,
    }
}

impl MeshPass {
    /// A pass that has not started.
    pub fn new() -> (r: MeshPass)
        ensures
            r == MeshPass::Start,
    {
        MeshPass::Start
    }

    /// The action that this pass waits on.
    pub fn next_action(&self) -> (r: MeshAction)
        ensures
            r == pending(*self),
    {
        match self {
            MeshPass::Start => MeshAction::ReadIdentity,
            MeshPass::Identified { .. } => MeshAction::FetchAllPeers,
            MeshPass::Filtered { .. } => MeshAction::ReplacePeers,
            MeshPass::DeviceReconciled { .. } => MeshAction::AddRoutes,
            MeshPass::Done => MeshAction::Stop,
            MeshPass::Failed(_) => MeshAction::Stop,
        }
    }

    /// Whether the pass is over, done or failed.
    pub fn is_finished(&self) -> (r: bool)
        ensures
            r == (pending(*self) == MeshAction::Stop),
    {
        match self {
            MeshPass::Done => true,
            MeshPass::Failed(_) => true,
            _ => false,
        }
    }
}

/// The state that the answer `event` takes the pass `state` to.
///
/// A failed answer ends the pass with that failure, and the later steps are
/// abandoned. An answer to another action than the pending one, or any answer
/// to a finished pass, leaves the state as it is.
pub fn advance(state: MeshPass, event: MeshEvent) -> (r: MeshPass)
    ensures
        !answers(state, event) ==> r == state,
        match (state, event) {
            (MeshPass::Start, MeshEvent::Identity(Ok(k))) => r == MeshPass::Identified {
                interface_pubkey: k,
            },
            (MeshPass::Start, MeshEvent::Identity(Err(e))) => r == MeshPass::Failed(
                WgMesh::Wireguard(e),
            ),
            (MeshPass::Identified { interface_pubkey: k }, MeshEvent::Discovery(Ok(all))) => {
                match find_member(k@, peers_view(all@)) {
                    None => r matches MeshPass::Failed(WgMesh::Mesh(Mesh::PeerNotPartOfMesh(n))) && n@
                        == k@,
                    Some(me) => r matches MeshPass::Filtered { peers } && peers_view(peers@)
                        == selection(me, peers_view(all@)),
                }
            },
            (MeshPass::Identified { .. }, MeshEvent::Discovery(Err(e))) => r == MeshPass::Failed(
                WgMesh::NodeRepository(e),
            ),
            (MeshPass::Filtered { peers }, MeshEvent::DeviceApplied(Ok(()))) => r
                == MeshPass::DeviceReconciled { peers },
            (MeshPass::Filtered { .. }, MeshEvent::DeviceApplied(Err(e))) => r == MeshPass::Failed(
                WgMesh::Wireguard(e),
            ),
            (MeshPass::DeviceReconciled { .. }, MeshEvent::RoutesAdded(Ok(()))) => r
                == MeshPass::Done,
            (MeshPass::DeviceReconciled { .. }, MeshEvent::RoutesAdded(Err(e))) => r
                == MeshPass::Failed(WgMesh::Routing(e)),
            _ => true,
        },
{
    match (state, event) {
        (MeshPass::Start, MeshEvent::Identity(Ok(k))) => MeshPass::Identified {
            interface_pubkey: k,
        },
        (MeshPass::Start, MeshEvent::Identity(Err(e))) => MeshPass::Failed(WgMesh::Wireguard(e)),
        (MeshPass::Identified { interface_pubkey }, MeshEvent::Discovery(Ok(all))) => {
            match filter_peers(interface_pubkey.as_str(), all) {
                Ok(peers) => MeshPass::Filtered { peers },
                Err(m) => MeshPass::Failed(WgMesh::Mesh(m)),
            }
        },
        (MeshPass::Identified { .. }, MeshEvent::Discovery(Err(e))) => MeshPass::Failed(
            WgMesh::NodeRepository(e),
        ),
        (MeshPass::Filtered { peers }, MeshEvent::DeviceApplied(Ok(()))) => {
            MeshPass::DeviceReconciled { peers }
        },
        (MeshPass::Filtered { .. }, MeshEvent::DeviceApplied(Err(e))) => MeshPass::Failed(
            WgMesh::Wireguard(e),
        ),
        (MeshPass::DeviceReconciled { .. }, MeshEvent::RoutesAdded(Ok(()))) => MeshPass::Done,
        (MeshPass::DeviceReconciled { .. }, MeshEvent::RoutesAdded(Err(e))) => MeshPass::Failed(
            WgMesh::Routing(e),
        ),
        (s, _) => s,
    }
}

} // verus!

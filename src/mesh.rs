//! Topology selection and the sequencing of one convergence pass.

pub mod filter_peers;
pub mod wgmesh;

//! Reconciliation engine of a DNS-driven WireGuard mesh: peer discovery from
//! DNS answers, topology selection, and the device and route updates that
//! make the local host converge to the selected peer set.

pub mod dns;
pub mod error;
pub mod mesh;
pub mod model;
pub mod routing;
pub mod wireguard;

//! Configuration of the local WireGuard device.

pub mod peer;
pub mod wireguard_device;

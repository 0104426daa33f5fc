//! Route installation for the selected peers.

pub mod routing_service;

//! Peer discovery from DNS answers.

pub mod node_repository;
pub mod resolver;

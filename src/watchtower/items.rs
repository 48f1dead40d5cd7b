//! Value types of the watchtower protocol.

pub mod blob;
pub mod error;

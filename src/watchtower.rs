//! The watchtower protocol: its value types and its message catalog.

pub mod items;
pub mod messages;

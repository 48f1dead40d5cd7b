//! Codec for the wire messages of a watchtower protocol: fixed-width
//! big-endian items, variable-length integers, extension records and a
//! tagged-union dispatcher over the watchtower message catalog.

pub mod endian;
pub mod items;
pub mod reader;
pub mod varint;
pub mod watchtower;
pub mod wire;

pub use reader::PeekReader;
pub use varint::{peek_varint, read_varint, write_varint};
pub use wire::{
    AnyWireMessage, TLVWireItem, TLVWireItemReader, TLVWireItemWriter, WireError, WireItem,
    WireMessage,
};

//! 32-byte hashes.

use vstd::prelude::*;

use crate::reader::PeekReader;
use crate::wire::{WireError, WireItem};

verus! {

/// A 32-byte hash, encoded verbatim.
#[derive(Clone, Copy, Debug)]
pub struct Hash(pub [u8; 32]);

impl View for Hash {
    type V = Seq<u8>;

    open spec fn view(&self) -> Seq<u8> {
        self.0@
    }
}

impl WireItem for Hash {
    open spec fn wire_valid(v: Seq<u8>) -> bool {
        <[u8; 32] as WireItem>::wire_valid(v)
    }

    open spec fn wire_bytes(v: Seq<u8>) -> Seq<u8> {
        <[u8; 32] as WireItem>::wire_bytes(v)
    }

    open spec fn wire_parse(input: Seq<u8>) -> Result<(Seq<u8>, nat), WireError> {
        <[u8; 32] as WireItem>::wire_parse(input)
    }

    proof fn lemma_round_trip(v: Seq<u8>, rest: Seq<u8>) {
        <[u8; 32] as WireItem>::lemma_round_trip(v, rest);
    }

    fn encode(&self, out: &mut Vec<u8>) -> (count: usize) {
        self.0.encode(out)
    }

    fn decode(r: &mut PeekReader) -> (res: Result<Hash, WireError>) {
        let a = <[u8; 32]>::decode(r)?;
        Ok(Hash(a))
    }
}

} // verus!

//! Fee rates.

use vstd::prelude::*;

use crate::reader::PeekReader;
use crate::wire::{WireError, WireItem};

verus! {

/// An amount in satoshis.
pub type Sats = i64;

/// `a / b` rounded toward zero, for a positive `b`.
pub open spec fn trunc_div(a: int, b: int) -> int {
    if a >= 0 {
        a / b
    } else {
        -((-a) / b)
    }
}

/// A fee rate in satoshis per 1000 weight units.
#[derive(Clone, Copy, Debug, PartialEq, Eq, Structural)]
pub struct SatPerKWeight(pub Sats);

impl View for SatPerKWeight {
    type V = SatPerKWeight;

    open spec fn view(&self) -> SatPerKWeight {
        *self
    }
}

impl SatPerKWeight {
    /// The fee for `wu` weight units: `rate * wu / 1000`, rounded toward zero.
    pub fn fee_for_weight(&self, wu: i64) -> (fee: Sats)
        requires
            i64::MIN <= self.0 * wu <= i64::MAX,
        ensures
            fee == trunc_div(self.0 * wu, 1000),
    {
        let p = self.0 * wu;
        if p >= 0 {
            p / 1000
        } else {
            // -p itself may not fit: divide -(p + 1) and carry the one back.
            let m = -(p + 1);
            let q = if m % 1000 == 999 {
                m / 1000 + 1
            } else {
                m / 1000
            };
            -q
        }
    }
}

impl WireItem for SatPerKWeight {
    open spec fn wire_valid(v: SatPerKWeight) -> bool {
        true
    }

    open spec fn wire_bytes(v: SatPerKWeight) -> Seq<u8> {
        <i64 as WireItem>::wire_bytes(v.0)
    }

    open spec fn wire_parse(input: Seq<u8>) -> Result<(SatPerKWeight, nat), WireError> {
        match <i64 as WireItem>::wire_parse(input) {
            Ok((v, n)) => Ok((SatPerKWeight(v), n)),
            Err(e) => Err(e),
        }
    }

    proof fn lemma_round_trip(v: SatPerKWeight, rest: Seq<u8>) {
        <i64 as WireItem>::lemma_round_trip(v.0, rest);
    }

    fn encode(&self, out: &mut Vec<u8>) -> (count: usize) {
        self.0.encode(out)
    }

    fn decode(r: &mut PeekReader) -> (res: Result<SatPerKWeight, WireError>) {
        let v = i64::decode(r)?;
        Ok(SatPerKWeight(v))
    }
}

} // verus!

//! Market ticks: an integer-encoded bid/ask/timestamp triple for one symbol
//! at one instant.  Prices are fixed-point integers in a caller-defined scale.

use vstd::prelude::*;

verus! {

/// A single market data point.  A "null tick" (the sentinel used where no
/// tick is available) has `bid == 0`.
#[derive(PartialEq, Eq, Structural, Clone, Copy, Debug)]
pub struct Tick {
    pub bid: u64,
    pub ask: u64,
    pub timestamp: u64,
}

impl Tick {
    /// The midpoint of bid and ask, integer-divided.
    pub open spec fn spec_mid(self) -> int {
        (self.bid + self.ask) / 2
    }

    /// The midpoint of bid and ask, integer-divided.
    pub fn mid(&self) -> (r: u64)
        requires
            self.bid + self.ask <= u64::MAX,
        ensures
            r == self.spec_mid(),
    {
        (self.bid + self.ask) / 2
    }

    /// The sentinel tick standing for "no tick".
    pub fn null() -> (r: Tick)
        ensures
            r.bid == 0 && r.ask == 0 && r.timestamp == 0,
    {
        Tick { bid: 0, ask: 0, timestamp: 0 }
    }
}

} // verus!

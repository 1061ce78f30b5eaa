//! The instruments that the aggregator follows.

use vstd::prelude::*;
use vstd::string::StringExecFns;

verus! {

/// A tradable symbol, the same on every venue.
#[derive(Clone, Copy, Debug, PartialEq, Eq, Structural)]
pub enum Instrument {
    BtcUsdt,
    EthUsdc,
}

impl Instrument {
    /// The instrument's name as it is shown: base and quote in upper case,
    /// joined by an underscore.
    pub open spec fn name(self) -> Seq<char> {
        match self {
            Instrument::BtcUsdt => "BTC_USDT"@,
            Instrument::EthUsdc => "ETH_USDC"@,
        }
    }

    /// The instrument's name as it is shown.
    pub fn to_string(&self) -> (r: String)
        ensures
            r@ == self.name(),
    {
        match self {
            Instrument::BtcUsdt => String::from_str("BTC_USDT"),
            Instrument::EthUsdc => String::from_str("ETH_USDC"),
        }
    }
}

} // verus!

//! Rolling short-term volatility estimation for a trading pair.
//!
//! The crate holds the logic of the estimator pipeline: the protocol machine
//! of the streaming price collector (`collector`), the decimal price text
//! model (`price_text`), the availability-favoring combination policy over
//! several collectors (`aggregator`), and the sliding-window volatility
//! estimator (`volatility`). Prices are carried as fixed-point integers in
//! units of 1e-8; the real-valued finish of the estimate (log returns,
//! variance, square roots) is left to the caller, against the exact terms the
//! estimator hands out.

pub mod aggregator;
mod clock;
pub mod collector;
pub mod price_text;
pub mod volatility;

use vstd::prelude::*;

verus! {

/// A price observation: a UTC timestamp in whole seconds since the epoch and
/// a strictly positive price in fixed-point units of 1e-8.
#[derive(Clone, Copy, PartialEq, Eq, Structural, Debug)]
pub struct PricePoint {
    pub timestamp_secs: i64,
    pub price_e8: u64,
    pub source: PriceSource,
}

/// Which collector produced a price observation.
#[derive(Clone, Copy, PartialEq, Eq, Structural, Debug)]
pub enum PriceSource {
    Binance,
    Uniswap,
    Aggregated,
}

impl PricePoint {
    /// A sample is valid when its price is strictly positive.
    pub open spec fn valid(self) -> bool {
        self.price_e8 > 0
    }
}

/// Why a price fetch failed.
/// - `ConnectionError`: the transport or the subscription handshake failed;
///   the next fetch reconnects from scratch.
/// - `DataError`: a trade frame was received but its price field does not
///   denote a positive decimal, or its timestamp precedes the epoch; the fetch
///   fails while the connection stays up.
#[derive(Clone, Copy, PartialEq, Eq, Structural, Debug)]
pub enum CollectorError {
    ConnectionError,
    DataError,
}

} // verus!

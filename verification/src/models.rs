//! The two records the engine moves around: stocks and daily price points.

use vstd::prelude::*;
use crate::date::Date;

verus! {

/// A stock known to the registry. The ticker is the identity; the exchange
/// name is descriptive only and the engine never reads it.
#[derive(Clone, PartialEq, Debug)]
pub struct Stock {
    pub ticker: String,
    pub stock_exchange: String,
}

/// One trading day's OHLCV record for one ticker. The date is the key within
/// a ticker's series. The four prices are carried as the raw bit patterns of
/// the provider's 64-bit binary floating-point values: the engine never
/// interprets a price, it only moves it, so the opaque bits keep the value
/// exactly while staying out of floating-point arithmetic. Callers that need
/// the numeric value convert at the boundary.
#[derive(Clone, Copy, PartialEq, Eq, Structural, Debug)]
pub struct HistoricalDataPoint {
    pub date: Date,
    pub open: u64,
    pub high: u64,
    pub low: u64,
    pub close: u64,
    pub volume: u64,
}

} // verus!

//! Decoding the market-data provider's answer. The provider returns parallel
//! arrays, one entry per period: a Unix timestamp plus open, high, low,
//! close and volume, any of which may be missing. A period is kept only when
//! all five values are present; its date is the civil UTC date of its
//! timestamp. Prices arrive here already as raw 64-bit patterns (see
//! `models`).

use vstd::prelude::*;
use crate::date::{Date, spec_days_in_month, days_in_month};
use crate::engine::SyncError;
use crate::models::HistoricalDataPoint;

verus! {

/// Smallest Unix timestamp the decoder accepts: 0000-01-01T00:00:00 UTC,
/// the first second whose calendar date the registry's encoding can carry.
pub const MIN_SYNC_TIMESTAMP: i64 = -62167219200;

/// Largest Unix timestamp the decoder accepts: 9999-12-31T23:59:59 UTC, the
/// last second whose calendar date the registry's encoding can carry.
pub const MAX_SYNC_TIMESTAMP: i64 = 253402300799;

/// The civil (year, month, day) in UTC of a Unix timestamp: a fixed function
/// of the timestamp alone, named here and computed by chrono.
pub uninterp spec fn civil_of_ts(ts: int) -> (int, int, int);

/// Relies on chrono's `DateTime::<Utc>::from_timestamp` and the `Datelike`
/// accessors of the resulting date: the civil date of a timestamp depends on
/// the timestamp alone, and the call returns `None` only for timestamps
/// outside chrono's representable years, far beyond both bounds of the
/// supported window.
#[verifier::external_body]
fn civil_from_timestamp(ts: i64) -> (r: Option<(i32, u32, u32)>)
    ensures
        r matches Some(t) ==> (t.0 as int, t.1 as int, t.2 as int) == civil_of_ts(ts as int),
        MIN_SYNC_TIMESTAMP <= ts <= MAX_SYNC_TIMESTAMP ==> r is Some,
{
    chrono::DateTime::<chrono::Utc>::from_timestamp(ts, 0).map(
        |dt| {
            let d = dt.date_naive();
            (
                chrono::Datelike::year(&d),
                chrono::Datelike::month(&d),
                chrono::Datelike::day(&d),
            )
        },
    )
}

/// Whether a timestamp lies in the supported window and its civil date is a
/// real day of years 0000..=9999.
pub open spec fn spec_ts_date_ok(ts: int) -> bool {
    let t = civil_of_ts(ts);
    MIN_SYNC_TIMESTAMP as int <= ts <= MAX_SYNC_TIMESTAMP as int && 0 <= t.0 <= 9999 && 1 <= t.1
        <= 12 && 1 <= t.2 <= spec_days_in_month(t.0, t.1)
}

/// The `Date` a supported timestamp decodes to.
pub open spec fn spec_date_of_ts(ts: int) -> Date {
    let t = civil_of_ts(ts);
    Date { year: t.0 as u16, month: t.1 as u8, day: t.2 as u8 }
}

/// The civil UTC date of a provider timestamp, or `Provider` for a
/// timestamp outside the supported window.
pub fn date_of_timestamp(ts: i64) -> (r: Result<Date, SyncError>)
    ensures
        r matches Ok(d) ==> spec_ts_date_ok(ts as int) && d == spec_date_of_ts(ts as int)
            && d.valid(),
        r matches Err(e) ==> !spec_ts_date_ok(ts as int) && e == SyncError::Provider,
{
    if ts < MIN_SYNC_TIMESTAMP || ts > MAX_SYNC_TIMESTAMP {
        return Err(SyncError::Provider);
    }
    match civil_from_timestamp(ts) {
        None => Err(SyncError::Provider),
        Some((y, m, d)) => {
            if 0 <= y && y <= 9999 && 1 <= m && m <= 12 {
                let dim = days_in_month(y as u16, m as u8);
                if 1 <= d && d <= dim as u32 {
                    Ok(Date { year: y as u16, month: m as u8, day: d as u8 })
                } else {
                    Err(SyncError::Provider)
                }
            } else {
                Err(SyncError::Provider)
            }
        },
    }
}

/// The provider's parallel arrays for one ticker, prices as raw bit
/// patterns.
pub struct QuoteArrays {
    pub timestamp: Vec<i64>,
    pub open: Vec<Option<u64>>,
    pub high: Vec<Option<u64>>,
    pub low: Vec<Option<u64>>,
    pub close: Vec<Option<u64>>,
    pub volume: Vec<Option<u64>>,
}

impl QuoteArrays {
    /// Period `i` carries all five values.
    pub open spec fn row_complete(self, i: int) -> bool {
        0 <= i < self.timestamp@.len() && i < self.open@.len() && i < self.high@.len() && i
            < self.low@.len() && i < self.close@.len() && i < self.volume@.len()
            && self.open@[i] is Some && self.high@[i] is Some && self.low@[i] is Some
            && self.close@[i] is Some && self.volume@[i] is Some
    }

    /// The point period `i` decodes to.
    pub open spec fn spec_row_point(self, i: int) -> HistoricalDataPoint
        recommends
            self.row_complete(i),
    {
        HistoricalDataPoint {
            date: spec_date_of_ts(self.timestamp@[i] as int),
            open: self.open@[i]->Some_0,
            high: self.high@[i]->Some_0,
            low: self.low@[i]->Some_0,
            close: self.close@[i]->Some_0,
            volume: self.volume@[i]->Some_0,
        }
    }
}

/// The decode of the first `n` periods: incomplete periods are dropped, and
/// a complete period with an unsupported timestamp fails the whole decode,
/// as an answer outside the provider's contract.
pub open spec fn spec_decode_upto(q: QuoteArrays, n: int) -> Result<
    Seq<HistoricalDataPoint>,
    SyncError,
>
    decreases n,
{
    if n <= 0 {
        Ok(Seq::empty())
    } else {
        match spec_decode_upto(q, n - 1) {
            Err(e) => Err(e),
            Ok(pts) => if q.row_complete(n - 1) {
                if spec_ts_date_ok(q.timestamp@[n - 1] as int) {
                    Ok(pts.push(q.spec_row_point(n - 1)))
                } else {
                    Err(SyncError::Provider)
                }
            } else {
                Ok(pts)
            },
        }
    }
}

pub open spec fn spec_decode(q: QuoteArrays) -> Result<Seq<HistoricalDataPoint>, SyncError> {
    spec_decode_upto(q, q.timestamp@.len() as int)
}

proof fn lemma_decode_err_persists(q: QuoteArrays, i: int, n: int)
    requires
        0 <= i <= n,
        spec_decode_upto(q, i) is Err,
    ensures
        spec_decode_upto(q, n) == spec_decode_upto(q, i),
    decreases n - i,
{
    if i < n {
        lemma_decode_err_persists(q, i, n - 1);
    }
}

/// Decodes the provider's parallel arrays into price points; agrees with
/// `spec_decode`, so exactly the complete periods are kept, in order, and
/// every kept date is a real calendar day.
pub fn decode_quotes(q: &QuoteArrays) -> (r: Result<Vec<HistoricalDataPoint>, SyncError>)
    ensures
        r matches Ok(pts) ==> spec_decode(*q) == Ok::<Seq<HistoricalDataPoint>, SyncError>(pts@),
        r matches Err(e) ==> spec_decode(*q) == Err::<Seq<HistoricalDataPoint>, SyncError>(e),
        r matches Ok(pts) ==> forall|i: int|
            0 <= i < pts@.len() ==> (#[trigger] pts@[i]).date.valid(),
{
    let mut out: Vec<HistoricalDataPoint> = Vec::new();
    let mut i: usize = 0;
    while i < q.timestamp.len()
        invariant
            0 <= i <= q.timestamp@.len(),
            spec_decode_upto(*q, i as int) == Ok::<Seq<HistoricalDataPoint>, SyncError>(out@),
            forall|j: int| 0 <= j < out@.len() ==> (#[trigger] out@[j]).date.valid(),
        decreases q.timestamp@.len() - i,
    {
        let complete = i < q.open.len() && q.open[i].is_some() && i < q.high.len()
            && q.high[i].is_some() && i < q.low.len() && q.low[i].is_some() && i < q.close.len()
            && q.close[i].is_some() && i < q.volume.len() && q.volume[i].is_some();
        if complete {
            match date_of_timestamp(q.timestamp[i]) {
                Err(e) => {
                    proof {
                        lemma_decode_err_persists(*q, i + 1, q.timestamp@.len() as int);
                    }
                    return Err(e);
                },
                Ok(d) => {
                    let p = HistoricalDataPoint {
                        date: d,
                        open: q.open[i].unwrap(),
                        high: q.high[i].unwrap(),
                        low: q.low[i].unwrap(),
                        close: q.close[i].unwrap(),
                        volume: q.volume[i].unwrap(),
                    };
                    out.push(p);
                },
            }
        }
        i += 1;
    }
    Ok(out)
}

} // verus!

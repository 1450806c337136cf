//! The agent's clock. "Today" is the current civil date in UTC; every
//! reconciliation fixes it once at the start, so one cycle works against a
//! single date. The clock is only a source of seconds: turning them into a
//! checked calendar date is `date_of_timestamp`'s verified work.

use vstd::prelude::*;
use crate::date::Date;
use crate::provider::date_of_timestamp;

verus! {

/// Relies on std's `SystemTime::now` read against `UNIX_EPOCH`: the clock's
/// seconds since the epoch. Read through `duration_since` and a checked
/// conversion, so a clock set before the epoch comes back as `None` rather
/// than unwinding. The result moves with the clock, so nothing ties it to
/// anything; of every outcome only non-negativity (it comes from a
/// duration) is assumed.
#[verifier::external_body]
fn seconds_since_epoch() -> (r: Option<i64>)
    ensures
        r matches Some(s) ==> s >= 0,
{
    match std::time::SystemTime::now().duration_since(std::time::UNIX_EPOCH) {
        Ok(elapsed) => match i64::try_from(elapsed.as_secs()) {
            Ok(secs) => Some(secs),
            Err(_) => None,
        },
        Err(_) => None,
    }
}

/// Today's civil date in UTC, decoded and checked by `date_of_timestamp`;
/// `None` only for a clock reading outside the years 0000..=9999 or before
/// the epoch.
pub fn current_date() -> (r: Option<Date>)
    ensures
        r matches Some(d) ==> d.valid(),
{
    match seconds_since_epoch() {
        None => None,
        Some(secs) => match date_of_timestamp(secs) {
            Ok(d) => Some(d),
            Err(_) => None,
        },
    }
}

} // verus!

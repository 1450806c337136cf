//! The reconciliation engine's decisions, as pure functions: which window to
//! fetch for a stock, which stored date is the high-water mark, and which
//! candidate points survive deduplication against the stored dates.

use vstd::prelude::*;
use crate::date::{
    Date, date_le, spec_succ, spec_parse_date, spec_max_date_seq, parse_date, lemma_max_date_seq,
};
use crate::models::HistoricalDataPoint;

verus! {

/// Why a stock's reconciliation (or one append within it) failed.
#[derive(Clone, Copy, PartialEq, Eq, Structural, Debug)]
pub enum SyncError {
    /// The market-data provider was unreachable or answered outside its contract.
    Provider,
    /// The registry was unreachable or answered outside its contract.
    Registry,
    /// A stored date could not be read as `YYYY-MM-DD`, so the fetch window
    /// cannot be computed safely.
    DateParse,
}

/// The date window to request from the provider.
#[derive(Clone, Copy, PartialEq, Eq, Structural, Debug)]
pub enum Window {
    /// Everything the provider has, up to and including `to`: a full backfill.
    Full { to: Date },
    /// The days from `from` through `to`, inclusive: an incremental catch-up.
    Range { from: Date, to: Date },
}

/// What to do for a stock once its latest stored date is known.
#[derive(Clone, Copy, PartialEq, Eq, Structural, Debug)]
pub enum Plan {
    UpToDate,
    Fetch { window: Window },
}

/// How one stock's reconciliation ended.
#[derive(Clone, Copy, PartialEq, Eq, Structural, Debug)]
pub enum Outcome {
    /// The stored series already reaches yesterday or later; the provider was
    /// never asked.
    UpToDate,
    /// The provider was asked and returned no points for the window.
    NoNewData,
    /// Every point the provider returned was already stored.
    AllPresent,
    /// `attempted` deduplicated points were appended, `applied` of them
    /// successfully; the failures are reported, not retried.
    Synchronized { applied: u64, attempted: u64 },
    /// The reconciliation stopped early for this stock.
    Failed { error: SyncError },
}

/// The days a window spans.
pub open spec fn spec_in_window(w: Window, d: Date) -> bool {
    match w {
        Window::Full { to } => date_le(d, to),
        Window::Range { from, to } => date_le(from, d) && date_le(d, to),
    }
}

/// The gap decision: with nothing stored, backfill everything up to today;
/// with latest stored date `d`, stop if its successor has already reached
/// today, else catch up from the successor through today.
pub open spec fn spec_plan(latest: Option<Date>, today: Date) -> Plan {
    match latest {
        None => Plan::Fetch { window: Window::Full { to: today } },
        Some(d) => if date_le(today, spec_succ(d)) {
            Plan::UpToDate
        } else {
            Plan::Fetch { window: Window::Range { from: spec_succ(d), to: today } }
        },
    }
}

/// Decides the fetch window for one stock; agrees with `spec_plan` on every
/// input, so the up-to-date short circuit and the unbounded backfill window
/// are both pinned down.
pub fn plan_fetch(latest: Option<Date>, today: Date) -> (p: Plan)
    requires
        today.valid(),
        latest matches Some(d) ==> d.valid(),
    ensures
        p == spec_plan(latest, today),
{
    match latest {
        None => Plan::Fetch { window: Window::Full { to: today } },
        Some(d) => {
            match d.succ() {
                // only past the last representable date: every valid `today`
                // is at or before it, so the series cannot be behind
                None => Plan::UpToDate,
                Some(next) => {
                    if today.on_or_before(next) {
                        Plan::UpToDate
                    } else {
                        Plan::Fetch { window: Window::Range { from: next, to: today } }
                    }
                },
            }
        },
    }
}

/// The character sequences behind a list of stored date strings.
pub open spec fn views_of(dates: Seq<String>) -> Seq<Seq<char>> {
    dates.map_values(|s: String| s@)
}

pub open spec fn spec_all_dates_parse(raw: Seq<Seq<char>>) -> bool {
    forall|i: int| 0 <= i < raw.len() ==> (#[trigger] spec_parse_date(raw[i])) is Some
}

/// The dates denoted by a list of stored date strings, in order, with the
/// unparseable entries dropped.
pub open spec fn spec_known_dates(raw: Seq<Seq<char>>) -> Seq<Date>
    decreases raw.len(),
{
    if raw.len() == 0 {
        Seq::empty()
    } else {
        let rest = spec_known_dates(raw.drop_last());
        match spec_parse_date(raw.last()) {
            Some(d) => rest.push(d),
            None => rest,
        }
    }
}

/// The registry's high-water mark for a series: the maximum stored date, or
/// `None` for an empty series, or `DateParse` if any stored date is
/// unreadable (the mark would then be unreliable).
pub open spec fn spec_latest_of(raw: Seq<Seq<char>>) -> Result<Option<Date>, SyncError> {
    if !spec_all_dates_parse(raw) {
        Err(SyncError::DateParse)
    } else if raw.len() == 0 {
        Ok(None)
    } else {
        Ok(Some(spec_max_date_seq(spec_known_dates(raw))))
    }
}

pub proof fn lemma_known_dates_valid(raw: Seq<Seq<char>>)
    ensures
        forall|j: int|
            0 <= j < spec_known_dates(raw).len() ==> (#[trigger] spec_known_dates(raw)[j]).valid(),
    decreases raw.len(),
{
    if raw.len() > 0 {
        lemma_known_dates_valid(raw.drop_last());
        let rest = spec_known_dates(raw.drop_last());
        match spec_parse_date(raw.last()) {
            Some(d) => {
                assert(d.valid());
                assert(spec_known_dates(raw) == rest.push(d));
                assert(forall|j: int|
                    0 <= j < rest.len() ==> rest.push(d)[j] == #[trigger] rest[j]);
            },
            None => {
                assert(spec_known_dates(raw) == rest);
            },
        }
    }
}

pub proof fn lemma_known_dates_len(raw: Seq<Seq<char>>)
    requires
        spec_all_dates_parse(raw),
    ensures
        spec_known_dates(raw).len() == raw.len(),
    decreases raw.len(),
{
    if raw.len() > 0 {
        assert(spec_all_dates_parse(raw.drop_last())) by {
            assert(forall|i: int|
                0 <= i < raw.len() - 1 ==> raw.drop_last()[i] == raw[i]);
        }
        lemma_known_dates_len(raw.drop_last());
    }
}

/// A parsed latest date is always a real calendar day.
pub proof fn lemma_latest_valid(raw: Seq<Seq<char>>)
    ensures
        spec_latest_of(raw) matches Ok(Some(d)) ==> d.valid(),
{
    if spec_latest_of(raw) matches Ok(Some(d)) {
        lemma_known_dates_len(raw);
        lemma_max_date_seq(spec_known_dates(raw));
        lemma_known_dates_valid(raw);
    }
}

/// Computes the high-water mark of a stored series from its date strings;
/// agrees with `spec_latest_of` on every input.
pub fn latest_date(dates: &Vec<String>) -> (r: Result<Option<Date>, SyncError>)
    ensures
        r == spec_latest_of(views_of(dates@)),
{
    let ghost raw = views_of(dates@);
    let mut best: Option<Date> = None;
    let mut i: usize = 0;
    while i < dates.len()
        invariant
            0 <= i <= dates.len(),
            raw == views_of(dates@),
            raw.len() == dates@.len(),
            spec_all_dates_parse(raw.take(i as int)),
            i == 0 ==> best is None,
            i > 0 ==> (best matches Some(b) && b == spec_max_date_seq(
                spec_known_dates(raw.take(i as int)),
            )),
        decreases dates.len() - i,
    {
        let parsed = parse_date(dates[i].as_str());
        match parsed {
            None => {
                assert(raw[i as int] == dates@[i as int]@);
                return Err(SyncError::DateParse);
            },
            Some(d) => {
                proof {
                    assert(raw[i as int] == dates@[i as int]@);
                    assert(raw.take(i + 1).drop_last() =~= raw.take(i as int));
                    assert(raw.take(i + 1).last() == raw[i as int]);
                    lemma_known_dates_len(raw.take(i + 1));
                }
                let ghost known_next = spec_known_dates(raw.take(i + 1));
                match best {
                    None => {
                        assert(known_next =~= spec_known_dates(raw.take(i as int)).push(d));
                        best = Some(d);
                    },
                    Some(b) => {
                        assert(known_next =~= spec_known_dates(raw.take(i as int)).push(d));
                        assert(known_next.drop_last() =~= spec_known_dates(raw.take(i as int)));
                        if b.on_or_before(d) {
                            best = Some(d);
                        } else {
                            best = Some(b);
                        }
                    },
                }
                i += 1;
            },
        }
    }
    assert(raw.take(dates@.len() as int) =~= raw);
    Ok(best)
}

/// The stored dates a list of date strings denotes, in order, unparseable
/// entries dropped. A stored entry that is not a real `YYYY-MM-DD` day can
/// never collide with a provider date, so dropping it keeps deduplication
/// exact.
pub fn known_dates(dates: &Vec<String>) -> (r: Vec<Date>)
    ensures
        r@ == spec_known_dates(views_of(dates@)),
{
    let ghost raw = views_of(dates@);
    let mut out: Vec<Date> = Vec::new();
    let mut i: usize = 0;
    while i < dates.len()
        invariant
            0 <= i <= dates.len(),
            raw == views_of(dates@),
            raw.len() == dates@.len(),
            out@ == spec_known_dates(raw.take(i as int)),
        decreases dates.len() - i,
    {
        let parsed = parse_date(dates[i].as_str());
        proof {
            assert(raw[i as int] == dates@[i as int]@);
            assert(raw.take(i + 1).drop_last() =~= raw.take(i as int));
            assert(raw.take(i + 1).last() == raw[i as int]);
        }
        match parsed {
            None => {},
            Some(d) => {
                out.push(d);
            },
        }
        i += 1;
    }
    assert(raw.take(dates@.len() as int) =~= raw);
    out
}

/// Whether a date is among the stored ones.
pub fn contains_date(dates: &Vec<Date>, d: Date) -> (b: bool)
    ensures
        b == dates@.contains(d),
{
    let mut i: usize = 0;
    while i < dates.len()
        invariant
            0 <= i <= dates.len(),
            forall|j: int| 0 <= j < i ==> dates@[j] != d,
        decreases dates.len() - i,
    {
        if dates[i] == d {
            assert(dates@[i as int] == d);
            return true;
        }
        i += 1;
    }
    false
}

/// The candidates that survive deduplication: exactly those whose date is
/// not already stored, in provider order.
pub open spec fn spec_dedup(c: Seq<HistoricalDataPoint>, existing: Set<Date>) -> Seq<
    HistoricalDataPoint,
>
    decreases c.len(),
{
    if c.len() == 0 {
        Seq::empty()
    } else {
        let rest = spec_dedup(c.drop_last(), existing);
        if existing.contains(c.last().date) {
            rest
        } else {
            rest.push(c.last())
        }
    }
}

/// Removes every candidate whose date the registry already stores; agrees
/// with `spec_dedup` against the set of stored dates.
pub fn dedup_points(candidates: Vec<HistoricalDataPoint>, existing: &Vec<Date>) -> (r: Vec<
    HistoricalDataPoint,
>)
    ensures
        r@ == spec_dedup(candidates@, existing@.to_set()),
{
    let ghost exset = existing@.to_set();
    let mut out: Vec<HistoricalDataPoint> = Vec::new();
    let mut i: usize = 0;
    while i < candidates.len()
        invariant
            0 <= i <= candidates.len(),
            exset == existing@.to_set(),
            out@ == spec_dedup(candidates@.take(i as int), exset),
        decreases candidates.len() - i,
    {
        let p = candidates[i];
        proof {
            assert(candidates@.take(i + 1).drop_last() =~= candidates@.take(i as int));
            assert(candidates@.take(i + 1).last() == candidates@[i as int]);
        }
        if !contains_date(existing, p.date) {
            out.push(p);
        }
        i += 1;
    }
    assert(candidates@.take(candidates@.len() as int) =~= candidates@);
    out
}

} // verus!

use profisync::date::Date;
use profisync::engine::{Outcome, SyncError, Window};
use profisync::models::HistoricalDataPoint;
use profisync::reconcile::{Action, Reconciler};

fn d(year: u16, month: u8, day: u8) -> Date {
    Date { year, month, day }
}

fn pt(year: u16, month: u8, day: u8) -> HistoricalDataPoint {
    HistoricalDataPoint {
        date: d(year, month, day),
        open: 10,
        high: 12,
        low: 9,
        close: 11,
        volume: 1000,
    }
}

fn strings(dates: &[&str]) -> Vec<String> {
    dates.iter().map(|s| s.to_string()).collect()
}

/// The worked scenario: dates 01 and 02 stored, the provider over-returns
/// 02 alongside 03 and 04, dedup drops 02, and both fresh points go in.
#[test]
fn over_returned_point_is_deduplicated() {
    let mut m = Reconciler::new(d(2024, 1, 5));
    let a = m.on_history(strings(&["2024-01-01", "2024-01-02"]));
    assert_eq!(
        a,
        Action::Fetch { window: Window::Range { from: d(2024, 1, 3), to: d(2024, 1, 5) } }
    );
    let a = m.on_fetched(vec![pt(2024, 1, 2), pt(2024, 1, 3), pt(2024, 1, 4)]);
    assert_eq!(a, Action::QueryExisting);
    let a = m.on_existing(strings(&["2024-01-01", "2024-01-02"]));
    assert_eq!(a, Action::Append { point: pt(2024, 1, 3) });
    let a = m.on_append_result(true);
    assert_eq!(a, Action::Append { point: pt(2024, 1, 4) });
    let a = m.on_append_result(true);
    assert_eq!(
        a,
        Action::Report { outcome: Outcome::Synchronized { applied: 2, attempted: 2 } }
    );
    assert!(m.is_done());
}

/// With the latest stored date at yesterday, the very first answer ends the
/// stock: no fetch action is ever produced.
#[test]
fn up_to_date_stock_never_reaches_the_provider() {
    let mut m = Reconciler::new(d(2024, 1, 5));
    let a = m.on_history(strings(&["2024-01-03", "2024-01-04"]));
    assert_eq!(a, Action::Report { outcome: Outcome::UpToDate });
    assert!(m.is_done());
}

/// With nothing stored, the fetch window has no lower bound and its upper
/// bound is today.
#[test]
fn empty_series_requests_a_full_backfill() {
    let mut m = Reconciler::new(d(2024, 1, 5));
    let a = m.on_history(vec![]);
    assert_eq!(a, Action::Fetch { window: Window::Full { to: d(2024, 1, 5) } });
    assert!(m.is_awaiting_fetch());
}

/// Two failing appends out of five are recorded, not retried: each pending
/// point is attempted exactly once and the tally reports three of five.
#[test]
fn partial_append_failures_are_counted_not_retried() {
    let mut m = Reconciler::new(d(2024, 1, 10));
    m.on_history(vec![]);
    let points = vec![
        pt(2024, 1, 2),
        pt(2024, 1, 3),
        pt(2024, 1, 4),
        pt(2024, 1, 5),
        pt(2024, 1, 8),
    ];
    m.on_fetched(points.clone());
    let a = m.on_existing(vec![]);
    assert_eq!(a, Action::Append { point: points[0] });
    let answers = [true, false, true, false, true];
    let mut last = a;
    for (i, ok) in answers.iter().enumerate() {
        last = m.on_append_result(*ok);
        if i + 1 < points.len() {
            assert_eq!(last, Action::Append { point: points[i + 1] });
        }
    }
    assert_eq!(
        last,
        Action::Report { outcome: Outcome::Synchronized { applied: 3, attempted: 5 } }
    );
}

#[test]
fn empty_fetch_reports_no_new_data() {
    let mut m = Reconciler::new(d(2024, 1, 5));
    m.on_history(strings(&["2024-01-01"]));
    let a = m.on_fetched(vec![]);
    assert_eq!(a, Action::Report { outcome: Outcome::NoNewData });
}

#[test]
fn fully_stored_fetch_reports_all_present() {
    let mut m = Reconciler::new(d(2024, 1, 5));
    m.on_history(strings(&["2024-01-01"]));
    m.on_fetched(vec![pt(2024, 1, 2), pt(2024, 1, 3)]);
    let a = m.on_existing(strings(&["2024-01-01", "2024-01-02", "2024-01-03"]));
    assert_eq!(a, Action::Report { outcome: Outcome::AllPresent });
}

#[test]
fn registry_failure_ends_the_stock() {
    let mut m = Reconciler::new(d(2024, 1, 5));
    let a = m.on_registry_failed();
    assert_eq!(
        a,
        Action::Report { outcome: Outcome::Failed { error: SyncError::Registry } }
    );
}

#[test]
fn provider_failure_ends_the_stock() {
    let mut m = Reconciler::new(d(2024, 1, 5));
    m.on_history(strings(&["2024-01-01"]));
    let a = m.on_fetch_failed();
    assert_eq!(
        a,
        Action::Report { outcome: Outcome::Failed { error: SyncError::Provider } }
    );
}

#[test]
fn malformed_stored_date_fails_the_stock() {
    let mut m = Reconciler::new(d(2024, 1, 5));
    let a = m.on_history(strings(&["2024-01-01", "01/02/2024"]));
    assert_eq!(
        a,
        Action::Report { outcome: Outcome::Failed { error: SyncError::DateParse } }
    );
}

/// A full cycle followed by a second one against the same provider: the
/// second run writes nothing and reports the series as current.
#[test]
fn second_cycle_writes_nothing() {
    let today = d(2024, 1, 5);
    let provider = vec![pt(2024, 1, 3), pt(2024, 1, 4)];
    let mut store: Vec<String> = vec![];

    let mut m = Reconciler::new(today);
    let a = m.on_history(store.clone());
    assert_eq!(a, Action::Fetch { window: Window::Full { to: today } });
    let mut a = m.on_fetched(provider.clone());
    assert_eq!(a, Action::QueryExisting);
    a = m.on_existing(store.clone());
    let mut writes = 0;
    while let Action::Append { point } = a {
        let dt = point.date;
        store.push(format!("{:04}-{:02}-{:02}", dt.year, dt.month, dt.day));
        writes += 1;
        a = m.on_append_result(true);
    }
    assert_eq!(
        a,
        Action::Report { outcome: Outcome::Synchronized { applied: 2, attempted: 2 } }
    );
    assert_eq!(writes, 2);

    let mut m2 = Reconciler::new(today);
    let a2 = m2.on_history(store.clone());
    assert_eq!(a2, Action::Report { outcome: Outcome::UpToDate });
    assert_eq!(store.len(), 2);
}

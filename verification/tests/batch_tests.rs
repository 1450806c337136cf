use profisync::batch::Batch;
use profisync::engine::{Outcome, SyncError};
use profisync::models::Stock;

fn stock(ticker: &str) -> Stock {
    Stock { ticker: ticker.to_string(), stock_exchange: "NYSE".to_string() }
}

#[test]
fn stocks_are_processed_in_listing_order() {
    let mut b = Batch::new(vec![stock("AAA"), stock("BBB")]);
    assert_eq!(b.current().unwrap().ticker, "AAA");
    b.record(Outcome::UpToDate);
    assert_eq!(b.current().unwrap().ticker, "BBB");
    b.record(Outcome::NoNewData);
    assert!(b.current().is_none());
    assert!(b.finished());
}

/// One stock's provider failure does not keep the stocks after it from
/// being processed in the same tick.
#[test]
fn a_failing_stock_does_not_stop_the_batch() {
    let mut b = Batch::new(vec![stock("AAA"), stock("BBB"), stock("CCC")]);
    b.record(Outcome::Failed { error: SyncError::Provider });
    assert_eq!(b.current().unwrap().ticker, "BBB");
    b.record(Outcome::Synchronized { applied: 2, attempted: 2 });
    assert_eq!(b.current().unwrap().ticker, "CCC");
    b.record(Outcome::AllPresent);
    assert!(b.finished());
    assert_eq!(
        b.results().as_slice(),
        &[
            Outcome::Failed { error: SyncError::Provider },
            Outcome::Synchronized { applied: 2, attempted: 2 },
            Outcome::AllPresent,
        ]
    );
}

#[test]
fn an_empty_listing_finishes_at_once() {
    let b = Batch::new(vec![]);
    assert!(b.finished());
    assert!(b.current().is_none());
    assert!(b.results().is_empty());
}

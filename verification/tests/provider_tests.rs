use profisync::date::Date;
use profisync::engine::SyncError;
use profisync::provider::{date_of_timestamp, decode_quotes, QuoteArrays, MIN_SYNC_TIMESTAMP};

fn d(year: u16, month: u8, day: u8) -> Date {
    Date { year, month, day }
}

fn arrays(
    timestamp: Vec<i64>,
    open: Vec<Option<u64>>,
    high: Vec<Option<u64>>,
    low: Vec<Option<u64>>,
    close: Vec<Option<u64>>,
    volume: Vec<Option<u64>>,
) -> QuoteArrays {
    QuoteArrays { timestamp, open, high, low, close, volume }
}

fn bits(v: f64) -> u64 {
    v.to_bits()
}

#[test]
fn timestamps_decode_to_their_utc_dates() {
    assert_eq!(date_of_timestamp(0), Ok(d(1970, 1, 1)));
    assert_eq!(date_of_timestamp(86399), Ok(d(1970, 1, 1)));
    assert_eq!(date_of_timestamp(86400), Ok(d(1970, 1, 2)));
    assert_eq!(date_of_timestamp(1704067200), Ok(d(2024, 1, 1)));
    assert_eq!(date_of_timestamp(-1), Ok(d(1969, 12, 31)));
    assert_eq!(date_of_timestamp(-86400), Ok(d(1969, 12, 31)));
}

#[test]
fn the_supported_window_covers_years_0000_to_9999() {
    assert_eq!(date_of_timestamp(MIN_SYNC_TIMESTAMP), Ok(d(0, 1, 1)));
    assert_eq!(date_of_timestamp(MIN_SYNC_TIMESTAMP - 1), Err(SyncError::Provider));
    assert_eq!(date_of_timestamp(253402300799), Ok(d(9999, 12, 31)));
    assert_eq!(date_of_timestamp(253402300800), Err(SyncError::Provider));
}

#[test]
fn complete_rows_become_points_in_order() {
    let q = arrays(
        vec![1704067200, 1704153600],
        vec![Some(bits(1.0)), Some(bits(2.0))],
        vec![Some(bits(1.5)), Some(bits(2.5))],
        vec![Some(bits(0.5)), Some(bits(1.5))],
        vec![Some(bits(1.2)), Some(bits(2.2))],
        vec![Some(100), Some(200)],
    );
    let pts = decode_quotes(&q).unwrap();
    assert_eq!(pts.len(), 2);
    assert_eq!(pts[0].date, d(2024, 1, 1));
    assert_eq!(pts[1].date, d(2024, 1, 2));
    assert_eq!(pts[0].open, bits(1.0));
    assert_eq!(pts[1].volume, 200);
}

#[test]
fn rows_with_any_missing_field_are_dropped() {
    let q = arrays(
        vec![1704067200, 1704153600, 1704240000],
        vec![Some(1), None, Some(3)],
        vec![Some(1), Some(2), Some(3)],
        vec![Some(1), Some(2), Some(3)],
        vec![Some(1), Some(2), None],
        vec![Some(1), Some(2), Some(3)],
    );
    let pts = decode_quotes(&q).unwrap();
    assert_eq!(pts.len(), 1);
    assert_eq!(pts[0].date, d(2024, 1, 1));
}

#[test]
fn short_value_arrays_mean_missing_fields() {
    let q = arrays(
        vec![1704067200, 1704153600],
        vec![Some(1)],
        vec![Some(1), Some(2)],
        vec![Some(1), Some(2)],
        vec![Some(1), Some(2)],
        vec![Some(1), Some(2)],
    );
    let pts = decode_quotes(&q).unwrap();
    assert_eq!(pts.len(), 1);
    assert_eq!(pts[0].date, d(2024, 1, 1));
}

#[test]
fn unsupported_timestamp_fails_the_decode() {
    let q = arrays(
        vec![1704067200, MIN_SYNC_TIMESTAMP - 86400],
        vec![Some(1), Some(2)],
        vec![Some(1), Some(2)],
        vec![Some(1), Some(2)],
        vec![Some(1), Some(2)],
        vec![Some(1), Some(2)],
    );
    assert_eq!(decode_quotes(&q), Err(SyncError::Provider));
}

#[test]
fn empty_answer_decodes_to_no_points() {
    let q = arrays(vec![], vec![], vec![], vec![], vec![], vec![]);
    assert_eq!(decode_quotes(&q), Ok(vec![]));
}

use profisync::date::{parse_date, Date};

fn d(year: u16, month: u8, day: u8) -> Date {
    Date { year, month, day }
}

#[test]
fn parse_accepts_plain_date() {
    assert_eq!(parse_date("2024-01-02"), Some(d(2024, 1, 2)));
    assert_eq!(parse_date("1970-01-01"), Some(d(1970, 1, 1)));
    assert_eq!(parse_date("9999-12-31"), Some(d(9999, 12, 31)));
}

#[test]
fn parse_rejects_malformed_text() {
    assert_eq!(parse_date(""), None);
    assert_eq!(parse_date("2024-1-2"), None);
    assert_eq!(parse_date("24-01-02"), None);
    assert_eq!(parse_date("2024/01/02"), None);
    assert_eq!(parse_date("2024-01-02x"), None);
    assert_eq!(parse_date("abcd-ef-gh"), None);
}

#[test]
fn parse_rejects_impossible_days() {
    assert_eq!(parse_date("2024-13-01"), None);
    assert_eq!(parse_date("2024-00-10"), None);
    assert_eq!(parse_date("2024-02-30"), None);
    assert_eq!(parse_date("2024-04-31"), None);
    assert_eq!(parse_date("2024-01-00"), None);
}

#[test]
fn parse_knows_leap_years() {
    assert_eq!(parse_date("2024-02-29"), Some(d(2024, 2, 29)));
    assert_eq!(parse_date("2023-02-29"), None);
    assert_eq!(parse_date("2000-02-29"), Some(d(2000, 2, 29)));
    assert_eq!(parse_date("1900-02-29"), None);
}

#[test]
fn successor_steps_through_the_calendar() {
    assert_eq!(d(2024, 1, 2).succ(), Some(d(2024, 1, 3)));
    assert_eq!(d(2024, 1, 31).succ(), Some(d(2024, 2, 1)));
    assert_eq!(d(2024, 2, 28).succ(), Some(d(2024, 2, 29)));
    assert_eq!(d(2023, 2, 28).succ(), Some(d(2023, 3, 1)));
    assert_eq!(d(2023, 12, 31).succ(), Some(d(2024, 1, 1)));
    assert_eq!(d(9999, 12, 31).succ(), None);
}

#[test]
fn calendar_order_is_lexicographic() {
    assert!(d(2023, 12, 31).on_or_before(d(2024, 1, 1)));
    assert!(d(2024, 1, 1).on_or_before(d(2024, 1, 1)));
    assert!(!d(2024, 1, 2).on_or_before(d(2024, 1, 1)));
    assert!(d(2024, 1, 31).on_or_before(d(2024, 2, 1)));
}

#[test]
fn validity_follows_the_calendar() {
    assert!(d(2024, 2, 29).is_valid());
    assert!(!d(2023, 2, 29).is_valid());
    assert!(!d(2024, 0, 1).is_valid());
    assert!(!d(2024, 1, 32).is_valid());
}

#[test]
fn the_clock_reads_a_real_date() {
    let today = profisync::clock::current_date().unwrap();
    assert!(today.is_valid());
}

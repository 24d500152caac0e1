use time::format_description::well_known::Iso8601;
use time::OffsetDateTime;

use ockam::date::is_expired;
use ockam::date::parse_timestamp;
use ockam::date::DateError;

#[test]
fn test_is_expired() {
    let now = OffsetDateTime::now_utc();

    let non_expired = now + time::Duration::days(1);
    let non_expired_str = non_expired.format(&Iso8601::DEFAULT).unwrap();
    assert!(!is_expired(&non_expired_str).unwrap());

    let expired = now - time::Duration::days(1);
    let expired_str = expired.format(&Iso8601::DEFAULT).unwrap();
    assert!(is_expired(&expired_str).unwrap());

    // The following cases just validate that the string parses.
    assert!(is_expired("2020-09-12T15:07:14.00").unwrap());
    assert!(is_expired("2020-09-12T15:07:14.00Z").unwrap());
}

#[test]
fn timestamp_exact_values() {
    assert_eq!(parse_timestamp("1970-01-01T00:00:00"), Ok(0));
    assert_eq!(parse_timestamp("1970-01-01T00:00:00Z"), Ok(0));
    assert_eq!(parse_timestamp("1970-01-02T00:00:00"), Ok(86400));
    assert_eq!(parse_timestamp("1970-01-01T01:02:03"), Ok(3723));
    // The offset shifts back to UTC: 02:00+02:00 is midnight.
    assert_eq!(parse_timestamp("1970-01-01T02:00:00+02:00"), Ok(0));
    assert_eq!(parse_timestamp("1970-01-01T00:00:00-01:30"), Ok(5400));
    // A leap year's extra day counts.
    assert_eq!(
        parse_timestamp("1972-03-01T00:00:00"),
        Ok((365 + 365 + 31 + 29) * 86400)
    );
    // A known moment well into the epoch.
    assert_eq!(parse_timestamp("2020-09-12T15:07:14.00Z"), Ok(1599923234));
}

#[test]
fn timestamp_rejects_malformed_text() {
    for bad in [
        "",
        "not a date",
        "1970-01-01",
        "1970-13-01T00:00:00",
        "1970-01-32T00:00:00",
        "1970-02-30T00:00:00",
        "1970-01-01T24:00:00",
        "1970-01-01T00:60:00",
        "1970-01-01 00:00:00",
        "1970-01-01T00:00:00.",
        "1970-01-01T00:00:00X",
        "1970-01-01T00:00:00+25:00",
        "1969-12-31T23:59:59",
    ] {
        assert_eq!(parse_timestamp(bad), Err(DateError::InvalidDate));
    }
}

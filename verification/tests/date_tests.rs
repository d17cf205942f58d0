use chrono::{DateTime, NaiveDate};
use manga_sources::date::{midnight_timestamp, parse_calendar_date, parse_rfc3339};

fn chrono_midnight(y: i32, m: u32, d: u32) -> i64 {
    NaiveDate::from_ymd_opt(y, m, d).unwrap().and_hms_opt(0, 0, 0).unwrap().and_utc().timestamp()
}

#[test]
fn midnight_of_known_dates() {
    assert_eq!(midnight_timestamp(2024, 1, 5), 1704412800);
    assert_eq!(midnight_timestamp(1970, 1, 1), 0);
    assert_eq!(midnight_timestamp(1969, 12, 31), -86400);
    assert_eq!(midnight_timestamp(2000, 2, 29), 951782400);
    assert_eq!(midnight_timestamp(1600, 3, 1), -11670912000);
    assert_eq!(midnight_timestamp(2100, 12, 31), 4133894400);
}

#[test]
fn midnight_agrees_with_chrono() {
    let dates = [
        (-262143, 1, 1),
        (262142, 12, 31),
        (-1, 2, 28),
        (0, 2, 29),
        (4, 3, 1),
        (1900, 2, 28),
        (1900, 3, 1),
        (2023, 12, 31),
    ];
    for (y, m, d) in dates {
        assert_eq!(midnight_timestamp(y, m, d), chrono_midnight(y, m, d), "{y}-{m}-{d}");
    }
    for y in 1890..2110 {
        for m in 1..=12 {
            assert_eq!(midnight_timestamp(y, m, 1), chrono_midnight(y, m, 1));
        }
    }
}

#[test]
fn calendar_dates_are_trimmed_and_read_with_the_format() {
    assert_eq!(parse_calendar_date(" Jan 05,2024 ", "%b %d,%Y"), Some(1704412800));
    assert_eq!(parse_calendar_date("2024/01/05", "%Y/%m/%d"), Some(1704412800));
    assert_eq!(parse_calendar_date("Jan-05-2024", "%b-%d-%Y"), Some(1704412800));
    assert_eq!(parse_calendar_date("yesterday", "%b %d,%Y"), None);
    assert_eq!(parse_calendar_date("2024/02/30", "%Y/%m/%d"), None);
}

#[test]
fn rfc3339_instants() {
    assert_eq!(parse_rfc3339("2024-01-05T10:00:00Z"), Some(1704448800));
    assert_eq!(parse_rfc3339("2024-01-05T10:00:00+02:00"), Some(1704441600));
    assert_eq!(
        parse_rfc3339("2021-07-01T12:34:56.789Z"),
        DateTime::parse_from_rfc3339("2021-07-01T12:34:56.789Z").ok().map(|d| d.timestamp())
    );
    assert_eq!(parse_rfc3339("not a date"), None);
}

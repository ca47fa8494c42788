use chrono::{FixedOffset, TimeZone};
use dsmrlib::error::DsmrError;
use dsmrlib::timestamp::{
    has_timestamp_shape, parse_date, resolve_instant, Timestamp, SUMMER_OFFSET, WINTER_OFFSET,
};

#[test]
fn winter_timestamp_is_one_hour_east_of_utc() {
    let expected =
        FixedOffset::east_opt(3600).unwrap().with_ymd_and_hms(2020, 12, 21, 1, 8, 33).unwrap();
    let decoded = parse_date("201221010833W").unwrap();
    assert_eq!(decoded, Timestamp { epoch_seconds: 1608509313, offset_seconds: 3600 });
    assert_eq!(decoded.epoch_seconds, expected.timestamp());
    assert_eq!(decoded.offset_seconds, WINTER_OFFSET);
    let back = FixedOffset::east_opt(decoded.offset_seconds)
        .unwrap()
        .timestamp_opt(decoded.epoch_seconds, 0)
        .unwrap();
    assert_eq!(back, expected);
    assert_eq!(back.format("%y%m%d%H%M%S").to_string(), "201221010833");
}

#[test]
fn summer_timestamp_is_two_hours_east_of_utc() {
    let expected =
        FixedOffset::east_opt(7200).unwrap().with_ymd_and_hms(2021, 7, 4, 13, 59, 0).unwrap();
    let decoded = parse_date("210704135900S").unwrap();
    assert_eq!(decoded, Timestamp { epoch_seconds: 1625399940, offset_seconds: 7200 });
    assert_eq!(decoded.epoch_seconds, expected.timestamp());
    assert_eq!(decoded.offset_seconds, SUMMER_OFFSET);
    let back = FixedOffset::east_opt(decoded.offset_seconds)
        .unwrap()
        .timestamp_opt(decoded.epoch_seconds, 0)
        .unwrap();
    assert_eq!(back.format("%y%m%d%H%M%S").to_string(), "210704135900");
}

#[test]
fn same_digits_under_w_and_s_lie_one_hour_apart() {
    let winter = parse_date("230129232331W").unwrap();
    let summer = parse_date("230129232331S").unwrap();
    assert_eq!(winter.epoch_seconds - summer.epoch_seconds, 3600);
    assert_eq!(
        winter.epoch_seconds + i64::from(winter.offset_seconds),
        summer.epoch_seconds + i64::from(summer.offset_seconds)
    );
}

#[test]
fn timestamps_round_trip_through_the_calendar() {
    for (text, y, mo, d, h, mi, s) in [
        ("000101000000W", 2000, 1, 1, 0, 0, 0),
        ("240229235959W", 2024, 2, 29, 23, 59, 59),
        ("691231120000S", 2069, 12, 31, 12, 0, 0),
        ("101221010511W", 2010, 12, 21, 1, 5, 11),
        ("220306205206S", 2022, 3, 6, 20, 52, 6),
    ] {
        let offset = if text.ends_with('W') { 3600 } else { 7200 };
        let expected =
            FixedOffset::east_opt(offset).unwrap().with_ymd_and_hms(y, mo, d, h, mi, s).unwrap();
        assert_eq!(
            parse_date(text),
            Ok(Timestamp { epoch_seconds: expected.timestamp(), offset_seconds: offset })
        );
    }
}

#[test]
fn malformed_timestamps_are_rejected() {
    for text in [
        "",
        "W",
        "201221010833",
        "201221010833X",
        "201221010833w",
        "201221010833 ",
        "20122101083W",
        "2012210108333W",
        "20122101083 W",
        " 01221010833W",
        "2012210108a3W",
        "+01221010833W",
        "201321010833W",
        "200230010833W",
        "210229010833W",
        "201221240833W",
        "201221016033W",
        "201221010861W",
        "200021010833W",
        "201200010833W",
        "201221010833é",
        "２０１２２１０１０８３３W",
        "0-0:96.7.19",
    ] {
        assert_eq!(parse_date(text), Err(DsmrError::MalformedTimestamp), "{:?}", text);
    }
}

#[test]
fn shape_of_a_timestamp_is_twelve_digits_and_one_character() {
    assert!(has_timestamp_shape("201221010833W"));
    assert!(has_timestamp_shape("999999999999?"));
    assert!(!has_timestamp_shape("201221010833"));
    assert!(!has_timestamp_shape("20122101083WW"));
    assert!(!has_timestamp_shape(""));
}

#[test]
fn instant_is_the_wall_clock_time_less_the_offset() {
    assert_eq!(
        resolve_instant(100_000, 'W'),
        Ok(Timestamp { epoch_seconds: 96_400, offset_seconds: 3600 })
    );
    assert_eq!(
        resolve_instant(100_000, 'S'),
        Ok(Timestamp { epoch_seconds: 92_800, offset_seconds: 7200 })
    );
    assert_eq!(resolve_instant(0, 'W'), Ok(Timestamp { epoch_seconds: -3600, offset_seconds: 3600 }));
    assert_eq!(resolve_instant(100_000, 'X'), Err(DsmrError::MalformedTimestamp));
    assert_eq!(resolve_instant(100_000, 'w'), Err(DsmrError::MalformedTimestamp));
    assert_eq!(resolve_instant(i64::MIN, 'W'), Err(DsmrError::MalformedTimestamp));
    assert_eq!(resolve_instant(i64::MIN + 3600, 'S'), Err(DsmrError::MalformedTimestamp));
    assert_eq!(
        resolve_instant(i64::MIN + 3600, 'W'),
        Ok(Timestamp { epoch_seconds: i64::MIN, offset_seconds: 3600 })
    );
    assert_eq!(
        resolve_instant(i64::MAX, 'S'),
        Ok(Timestamp { epoch_seconds: i64::MAX - 7200, offset_seconds: 7200 })
    );
}

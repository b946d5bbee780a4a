use chrono::{TimeZone, Utc};
use kline_engine::interval::{round_to_interval, Interval, IntervalError, INTERVAL_COUNT};

const ALL: [Interval; 5] = [
    Interval::OneSecond,
    Interval::OneMinute,
    Interval::FiveMinutes,
    Interval::FifteenMinutes,
    Interval::OneHour,
];

#[test]
fn test_round_to_minute() {
    let timestamp = Utc.with_ymd_and_hms(2024, 1, 1, 12, 34, 45).unwrap();
    let rounded = round_to_interval(timestamp.timestamp(), "1m");
    assert_eq!(
        rounded,
        Ok(Utc.with_ymd_and_hms(2024, 1, 1, 12, 34, 0).unwrap().timestamp())
    );
}

#[test]
fn test_round_to_5_minutes() {
    let timestamp = Utc.with_ymd_and_hms(2024, 1, 1, 12, 37, 45).unwrap();
    let rounded = round_to_interval(timestamp.timestamp(), "5m");
    assert_eq!(
        rounded,
        Ok(Utc.with_ymd_and_hms(2024, 1, 1, 12, 35, 0).unwrap().timestamp())
    );
}

#[test]
fn every_interval_rounds_down_to_its_own_width() {
    let t = Utc.with_ymd_and_hms(2024, 1, 1, 12, 37, 45).unwrap().timestamp();
    let start = |h, m, s| Utc.with_ymd_and_hms(2024, 1, 1, h, m, s).unwrap().timestamp();
    assert_eq!(round_to_interval(t, "1s"), Ok(start(12, 37, 45)));
    assert_eq!(round_to_interval(t, "1m"), Ok(start(12, 37, 0)));
    assert_eq!(round_to_interval(t, "5m"), Ok(start(12, 35, 0)));
    assert_eq!(round_to_interval(t, "15m"), Ok(start(12, 30, 0)));
    assert_eq!(round_to_interval(t, "1h"), Ok(start(12, 0, 0)));
}

#[test]
fn durations_and_labels() {
    let seconds: Vec<i64> = ALL.iter().map(|i| i.seconds()).collect();
    assert_eq!(seconds, vec![1, 60, 300, 900, 3600]);
    let labels: Vec<&str> = ALL.iter().map(|i| i.label()).collect();
    assert_eq!(labels, vec!["1s", "1m", "5m", "15m", "1h"]);
    for (k, interval) in ALL.iter().enumerate() {
        assert_eq!(Interval::parse(interval.label()), Some(*interval));
        assert_eq!(interval.index(), k);
        assert_eq!(Interval::from_index(k), Some(*interval));
    }
    assert_eq!(Interval::from_index(INTERVAL_COUNT), None);
}

#[test]
fn window_holds_its_instant_and_rounding_is_idempotent() {
    let samples = [
        0i64,
        1,
        59,
        60,
        61,
        3599,
        3600,
        1_704_112_485,
        -1,
        -59,
        -60,
        -61,
        -3600,
        -3601,
        i64::MAX,
        i64::MIN + 3600,
    ];
    for interval in ALL {
        for t in samples {
            let start = interval.window_start(t).unwrap();
            assert!(start <= t);
            assert!((t as i128) < start as i128 + interval.seconds() as i128);
            assert_eq!(start % interval.seconds(), 0);
            assert_eq!(interval.window_start(start), Some(start));
        }
    }
}

#[test]
fn instants_before_the_epoch_round_down() {
    assert_eq!(Interval::OneMinute.window_start(-1), Some(-60));
    assert_eq!(Interval::OneMinute.window_start(-60), Some(-60));
    assert_eq!(Interval::OneMinute.window_start(-61), Some(-120));
    assert_eq!(Interval::OneHour.window_start(-1), Some(-3600));
    assert_eq!(round_to_interval(-1, "5m"), Ok(-300));
}

#[test]
fn window_below_the_earliest_second_is_out_of_range() {
    assert_eq!(Interval::OneSecond.window_start(i64::MIN), Some(i64::MIN));
    assert_eq!(Interval::OneHour.window_start(i64::MIN), None);
    assert_eq!(Interval::OneMinute.window_start(i64::MIN), None);
    assert_eq!(
        round_to_interval(i64::MIN, "1h"),
        Err(IntervalError::TimestampOutOfRange)
    );
    assert_eq!(round_to_interval(i64::MIN, "1s"), Ok(i64::MIN));
}

#[test]
fn unknown_label_is_rejected() {
    assert_eq!(round_to_interval(0, "2m"), Err(IntervalError::UnknownInterval));
    assert_eq!(round_to_interval(0, "1d"), Err(IntervalError::UnknownInterval));
    assert_eq!(round_to_interval(0, ""), Err(IntervalError::UnknownInterval));
    assert_eq!(Interval::parse("1M"), None);
    assert_eq!(Interval::parse(""), None);
    assert_eq!(Interval::parse("15"), None);
    assert_eq!(Interval::parse("15m "), None);
    assert_eq!(Interval::parse(" 1m"), None);
    assert_eq!(Interval::parse("1é"), None);
    assert_eq!(Interval::parse("1ｍ"), None);
    assert_eq!(Interval::parse("151m"), None);
}

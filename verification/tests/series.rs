use kline_engine::interval::Interval;
use kline_engine::kline::{Kline, TradeError};
use kline_engine::series::{
    resolve_limit, Series, DEFAULT_LIMIT, HISTORY_CAPACITY, MAX_LIMIT,
};

fn filled(bars: i64) -> Series {
    let mut series = Series::new();
    for k in 0..bars {
        series
            .update_kline("X", Interval::OneMinute, k * 60, (k + 1) as u64, 1)
            .unwrap();
    }
    series
}

fn starts(bars: &[Kline]) -> Vec<i64> {
    bars.iter().map(|bar| bar.timestamp).collect()
}

#[test]
fn a_new_series_has_no_bars() {
    let series = Series::new();
    assert_eq!(series.closed_len(), 0);
    assert_eq!(series.get_klines(None), vec![]);
}

#[test]
fn trades_of_one_window_share_a_bar() {
    let mut series = Series::new();
    series.update_kline("X", Interval::OneMinute, 60, 10, 1).unwrap();
    series.update_kline("X", Interval::OneMinute, 60, 12, 2).unwrap();
    assert_eq!(series.closed_len(), 0);
    let bars = series.get_klines(None);
    assert_eq!(bars.len(), 1);
    assert_eq!(
        (bars[0].open, bars[0].high, bars[0].low, bars[0].close, bars[0].volume),
        (10, 12, 10, 12, 3)
    );
}

#[test]
fn a_new_window_closes_the_open_bar_unchanged() {
    let mut series = Series::new();
    series.update_kline("X", Interval::OneMinute, 60, 10, 1).unwrap();
    series.update_kline("X", Interval::OneMinute, 60, 12, 2).unwrap();
    let open_bar = series.get_klines(None).pop().unwrap();
    series.update_kline("X", Interval::OneMinute, 120, 9, 1).unwrap();
    let bars = series.get_klines(None);
    assert_eq!(bars.len(), 2);
    assert_eq!(bars[0], open_bar);
    assert_eq!(
        bars[1],
        Kline {
            timestamp: 120,
            open: 9,
            high: 9,
            low: 9,
            close: 9,
            volume: 1,
            symbol: "X".to_string(),
            interval: Interval::OneMinute,
        }
    );
}

#[test]
fn history_never_exceeds_its_capacity_and_loses_the_oldest_first() {
    assert_eq!(HISTORY_CAPACITY, 1000);
    let series = filled(1001);
    assert_eq!(series.closed_len(), 1000);
    let bars = series.get_klines(Some(1000));
    assert_eq!(bars.len(), 1001);
    assert_eq!(bars[0].timestamp, 0);
    assert_eq!(bars[1000].timestamp, 1000 * 60);

    let series = filled(1002);
    assert_eq!(series.closed_len(), 1000);
    let bars = series.get_klines(Some(1000));
    assert_eq!(bars.len(), 1001);
    assert_eq!(bars[0].timestamp, 60);
    assert_eq!(bars[0].open, 2);
    assert_eq!(bars[999].timestamp, 1000 * 60);
    assert_eq!(bars[1000].timestamp, 1001 * 60);

    let series = filled(2500);
    assert_eq!(series.closed_len(), 1000);
    let bars = series.get_klines(Some(5000));
    assert_eq!(starts(&bars), (1499..2500).map(|k| k * 60).collect::<Vec<i64>>());
}

#[test]
fn a_query_returns_the_most_recent_closed_bars_and_the_open_one() {
    let series = filled(10);
    assert_eq!(starts(&series.get_klines(Some(3))), vec![360, 420, 480, 540]);
    assert_eq!(starts(&series.get_klines(Some(1))), vec![480, 540]);
    assert_eq!(series.get_klines(Some(9)).len(), 10);
    assert_eq!(series.get_klines(Some(50)).len(), 10);
}

#[test]
fn limits_default_to_one_hundred_and_stop_at_one_thousand() {
    assert_eq!((DEFAULT_LIMIT, MAX_LIMIT), (100, 1000));
    assert_eq!(resolve_limit(None), 100);
    assert_eq!(resolve_limit(Some(0)), 100);
    assert_eq!(resolve_limit(Some(1)), 1);
    assert_eq!(resolve_limit(Some(100)), 100);
    assert_eq!(resolve_limit(Some(1000)), 1000);
    assert_eq!(resolve_limit(Some(1001)), 1000);
    assert_eq!(resolve_limit(Some(usize::MAX)), 1000);

    let series = filled(1200);
    assert_eq!(series.get_klines(None).len(), 101);
    assert_eq!(series.get_klines(Some(0)), series.get_klines(None));
    assert_eq!(series.get_klines(Some(100)), series.get_klines(None));
    assert_eq!(series.get_klines(Some(usize::MAX)).len(), 1001);
    let bars = series.get_klines(None);
    assert_eq!(bars[0].timestamp, 1099 * 60);
    assert_eq!(bars[100].timestamp, 1199 * 60);
}

#[test]
fn closed_bars_of_trades_in_order_have_increasing_windows() {
    let series = filled(300);
    let bars = series.get_klines(Some(1000));
    assert_eq!(bars.len(), 300);
    assert!(bars.windows(2).all(|pair| pair[0].timestamp < pair[1].timestamp));
}

#[test]
fn a_late_trade_opens_a_bar_of_its_own() {
    let mut series = Series::new();
    series.update_kline("X", Interval::OneMinute, 120, 10, 1).unwrap();
    series.update_kline("X", Interval::OneMinute, 60, 11, 1).unwrap();
    series.update_kline("X", Interval::OneMinute, 120, 12, 1).unwrap();
    let bars = series.get_klines(None);
    assert_eq!(starts(&bars), vec![120, 60, 120]);
    assert_eq!(bars[0].close, 10);
    assert_eq!(bars[2].open, 12);
    assert_eq!(bars[2].volume, 1);
}

#[test]
fn refused_trades_leave_the_series_alone() {
    let mut series = Series::new();
    assert_eq!(
        series.update_kline("X", Interval::OneMinute, 60, 0, 1),
        Err(TradeError::InvalidPrice)
    );
    assert_eq!(
        series.update_kline("X", Interval::OneMinute, 60, 1, 0),
        Err(TradeError::InvalidQuantity)
    );
    assert_eq!(series.get_klines(None), vec![]);

    series.update_kline("X", Interval::OneMinute, 60, 5, u64::MAX).unwrap();
    assert!(!series.has_room(60, 1));
    assert!(series.has_room(120, 1));
    assert!(series.has_room(120, u64::MAX));
    let before = series.get_klines(None);
    assert_eq!(
        series.update_kline("X", Interval::OneMinute, 60, 6, 1),
        Err(TradeError::VolumeOverflow)
    );
    assert_eq!(series.get_klines(None), before);
    assert_eq!(series.update_kline("X", Interval::OneMinute, 120, 6, 1), Ok(()));
    assert_eq!(series.closed_len(), 1);
}

use chrono::{TimeZone, Utc};
use kline_engine::interval::{Interval, IntervalError};
use kline_engine::kline::{Kline, TradeError, LOW_SENTINEL};
use kline_engine::kline_service::KlineService;
use kline_engine::transaction::{Side, Transaction};

fn at(h: u32, m: u32, s: u32) -> i64 {
    Utc.with_ymd_and_hms(2024, 1, 1, h, m, s).unwrap().timestamp()
}

fn trade(symbol: &str, time: i64, price: u64, amount: u64) -> Transaction {
    Transaction::stamped(
        format!("t-{}", time),
        symbol.to_string(),
        price,
        amount,
        Side::Buy,
        time,
        0,
    )
}

#[test]
fn three_trades_roll_the_minute_bar() {
    let mut service = KlineService::new();
    assert_eq!(service.update_with_transaction(&trade("X", at(12, 34, 45), 10, 1)), Ok(()));
    assert_eq!(service.update_with_transaction(&trade("X", at(12, 34, 50), 12, 2)), Ok(()));
    assert_eq!(service.update_with_transaction(&trade("X", at(12, 35, 5), 9, 1)), Ok(()));

    let bars = service.get_klines("X", "1m", None).unwrap();
    assert_eq!(bars.len(), 2);
    assert_eq!(
        bars[0],
        Kline {
            timestamp: at(12, 34, 0),
            open: 10,
            high: 12,
            low: 10,
            close: 12,
            volume: 3,
            symbol: "X".to_string(),
            interval: Interval::OneMinute,
        }
    );
    assert_eq!(
        bars[1],
        Kline {
            timestamp: at(12, 35, 0),
            open: 9,
            high: 9,
            low: 9,
            close: 9,
            volume: 1,
            symbol: "X".to_string(),
            interval: Interval::OneMinute,
        }
    );
}

#[test]
fn one_trade_reaches_all_five_intervals() {
    let mut service = KlineService::new();
    service.update_with_transaction(&trade("X", at(12, 34, 45), 10, 1)).unwrap();
    service.update_with_transaction(&trade("X", at(12, 34, 50), 12, 2)).unwrap();
    service.update_with_transaction(&trade("X", at(12, 35, 5), 9, 1)).unwrap();

    let seconds = service.get_klines("X", "1s", None).unwrap();
    assert_eq!(seconds.len(), 3);
    assert_eq!(seconds[2].timestamp, at(12, 35, 5));

    let five = service.get_klines("X", "5m", None).unwrap();
    assert_eq!(five.len(), 2);
    assert_eq!(five[0].timestamp, at(12, 30, 0));
    assert_eq!(five[0].volume, 3);
    assert_eq!(five[1].timestamp, at(12, 35, 0));

    let quarter = service.get_klines("X", "15m", None).unwrap();
    assert_eq!(quarter.len(), 1);
    assert_eq!(quarter[0].timestamp, at(12, 30, 0));
    assert_eq!((quarter[0].open, quarter[0].high, quarter[0].low, quarter[0].close), (10, 12, 9, 9));
    assert_eq!(quarter[0].volume, 4);

    let hour = service.get_klines("X", "1h", None).unwrap();
    assert_eq!(hour.len(), 1);
    assert_eq!(hour[0].timestamp, at(12, 0, 0));
    assert_eq!(hour[0].volume, 4);
}

#[test]
fn unknown_symbol_has_no_bars() {
    let mut service = KlineService::new();
    assert_eq!(service.get_klines("X", "1m", None), Ok(vec![]));
    service.update_with_transaction(&trade("X", at(1, 0, 0), 5, 5)).unwrap();
    assert_eq!(service.get_klines("Y", "1m", Some(10)), Ok(vec![]));
    assert_eq!(service.get_klines("X", "1m", Some(10)).unwrap().len(), 1);
}

#[test]
fn query_rejects_unknown_interval() {
    let mut service = KlineService::new();
    service.update_with_transaction(&trade("X", at(1, 0, 0), 5, 5)).unwrap();
    assert_eq!(service.get_klines("X", "2m", None), Err(IntervalError::UnknownInterval));
    assert_eq!(service.get_klines("X", "", None), Err(IntervalError::UnknownInterval));
    assert_eq!(service.get_klines("X", "1M", None), Err(IntervalError::UnknownInterval));
}

#[test]
fn refused_trades_change_nothing() {
    let mut service = KlineService::new();
    assert_eq!(
        service.update_with_transaction(&trade("X", at(1, 0, 0), 0, 5)),
        Err(TradeError::InvalidPrice)
    );
    assert_eq!(
        service.update_with_transaction(&trade("X", at(1, 0, 0), 5, 0)),
        Err(TradeError::InvalidQuantity)
    );
    assert_eq!(
        service.update_with_transaction(&trade("X", i64::MIN, 5, 5)),
        Err(TradeError::TimestampOutOfRange)
    );
    assert_eq!(service.get_klines("X", "1s", None), Ok(vec![]));

    service.update_with_transaction(&trade("X", at(1, 0, 0), 5, u64::MAX)).unwrap();
    let before = service.get_klines("X", "1h", None).unwrap();
    assert_eq!(
        service.update_with_transaction(&trade("X", at(1, 0, 30), 7, 1)),
        Err(TradeError::VolumeOverflow)
    );
    assert_eq!(service.get_klines("X", "1h", None).unwrap(), before);
    assert_eq!(service.get_klines("X", "1s", None).unwrap().len(), 1);
    assert_eq!(before[0].low, 5);
    assert_ne!(before[0].low, LOW_SENTINEL);
}

#[test]
fn symbols_do_not_touch_each_other() {
    let mut service = KlineService::new();
    service.update_with_transaction(&trade("X", at(1, 0, 0), 5, 5)).unwrap();
    let before = service.get_klines("X", "1m", None).unwrap();
    service.update_with_transaction(&trade("Y", at(1, 0, 1), 50, 1)).unwrap();
    service.update_with_transaction(&trade("Y", at(2, 0, 1), 60, 1)).unwrap();
    assert_eq!(service.get_klines("X", "1m", None).unwrap(), before);
    let other = service.get_klines("Y", "1m", None).unwrap();
    assert_eq!(other.len(), 2);
    assert!(other.iter().all(|bar| bar.symbol == "Y"));
}

#[test]
fn the_store_keeps_one_thousand_closed_bars_per_series() {
    let mut service = KlineService::new();
    for k in 0..1500i64 {
        service.update_with_transaction(&trade("X", k, 1 + k as u64, 2)).unwrap();
    }
    let seconds = service.get_klines("X", "1s", Some(5000)).unwrap();
    assert_eq!(seconds.len(), 1001);
    assert_eq!(seconds[0].timestamp, 499);
    assert_eq!(seconds[1000].timestamp, 1499);
    assert!(seconds.windows(2).all(|pair| pair[0].timestamp < pair[1].timestamp));

    assert_eq!(service.get_klines("X", "1s", None).unwrap().len(), 101);
    assert_eq!(
        service.get_klines("X", "1s", Some(0)).unwrap(),
        service.get_klines("X", "1s", None).unwrap()
    );
    assert_eq!(service.get_klines("X", "1s", Some(7)).unwrap().len(), 8);

    let minutes = service.get_klines("X", "1m", None).unwrap();
    assert_eq!(minutes.len(), 25);
    assert_eq!(minutes.iter().map(|bar| bar.volume).sum::<u64>(), 3000);
    assert_eq!(minutes[0].volume, 120);
    let hour = service.get_klines("X", "1h", None).unwrap();
    assert_eq!(hour.len(), 1);
    assert_eq!(
        (hour[0].open, hour[0].high, hour[0].low, hour[0].close, hour[0].volume),
        (1, 1500, 1, 1500, 3000)
    );
}

#[test]
fn trades_of_one_window_add_up_in_any_order() {
    let quantities = [5u64, 1, 9, 3, 7, 2];
    let mut forward = KlineService::new();
    for (k, quantity) in quantities.iter().enumerate() {
        forward
            .update_with_transaction(&trade("NEW", at(3, 0, k as u32), 10 + k as u64, *quantity))
            .unwrap();
    }
    let mut backward = KlineService::new();
    for (k, quantity) in quantities.iter().enumerate().rev() {
        backward
            .update_with_transaction(&trade("NEW", at(3, 0, k as u32), 10 + k as u64, *quantity))
            .unwrap();
    }
    for service in [&forward, &backward] {
        let bars = service.get_klines("NEW", "1m", None).unwrap();
        assert_eq!(bars.len(), 1);
        assert_eq!(bars[0].volume, 27);
        assert_eq!((bars[0].high, bars[0].low), (15, 10));
    }
}

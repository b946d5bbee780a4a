use kline_engine::interval::{Interval, IntervalError};
use kline_engine::kline_handler::{get_klines, KlineQuery};
use kline_engine::kline_service::KlineService;
use kline_engine::live_feed::{keeps_reading, next_action, same_text, ClientFrame, FeedAction, FeedEvent};
use kline_engine::transaction::{Side, Transaction};

fn trade(symbol: &str, time: i64, price: u64, amount: u64) -> Transaction {
    Transaction::stamped(
        format!("id-{}", time),
        symbol.to_string(),
        price,
        amount,
        Side::Sell,
        time,
        500,
    )
}

fn store() -> KlineService {
    let mut service = KlineService::new();
    for k in 0..5 {
        service
            .update_with_transaction(&trade("PEPE", 1_000_000 + k * 60, 100 + k as u64, 1))
            .unwrap();
    }
    service
}

#[test]
fn a_request_without_interval_asks_for_one_minute() {
    let service = store();
    let response = get_klines(
        &service,
        "PEPE".to_string(),
        KlineQuery { interval: None, limit: None },
    )
    .unwrap();
    assert_eq!(response.symbol, "PEPE");
    assert_eq!(response.interval, Interval::OneMinute);
    assert_eq!(response.data, service.get_klines("PEPE", "1m", None).unwrap());
    assert_eq!(response.data.len(), 5);
}

#[test]
fn a_request_names_interval_and_limit() {
    let service = store();
    let response = get_klines(
        &service,
        "PEPE".to_string(),
        KlineQuery { interval: Some("1h".to_string()), limit: Some(2) },
    )
    .unwrap();
    assert_eq!(response.interval, Interval::OneHour);
    assert_eq!(response.data.len(), 1);
    assert_eq!(response.data[0].volume, 5);
    assert_eq!(response.data[0].timestamp, 1_000_000 / 3600 * 3600);

    let response = get_klines(
        &service,
        "PEPE".to_string(),
        KlineQuery { interval: Some("1m".to_string()), limit: Some(2) },
    )
    .unwrap();
    assert_eq!(response.data.len(), 3);
    assert_eq!(response.data[2].close, 104);
}

#[test]
fn test_klines_endpoint_answer_has_symbol_interval_and_data() {
    let service = store();
    let response = get_klines(
        &service,
        "PEPE".to_string(),
        KlineQuery { interval: Some("1m".to_string()), limit: Some(10) },
    )
    .unwrap();
    assert_eq!(response.symbol, "PEPE");
    assert_eq!(response.interval.label(), "1m");
    assert_eq!(response.data.len(), 5);
}

#[test]
fn a_request_with_an_unknown_interval_is_refused() {
    let service = store();
    for label in ["2m", "", "1M", "60", "1 m"] {
        let refused = get_klines(
            &service,
            "PEPE".to_string(),
            KlineQuery { interval: Some(label.to_string()), limit: None },
        );
        assert_eq!(refused, Err(IntervalError::UnknownInterval));
    }
}

#[test]
fn a_request_for_an_unknown_symbol_gets_no_bars() {
    let service = store();
    let response = get_klines(
        &service,
        "NONE".to_string(),
        KlineQuery { interval: None, limit: None },
    )
    .unwrap();
    assert_eq!(response.symbol, "NONE");
    assert_eq!(response.data, vec![]);
}

#[test]
fn a_connection_delivers_the_trades_of_its_symbol() {
    let wanted = trade("PEPE", 1, 2, 3);
    assert_eq!(
        next_action("PEPE", FeedEvent::Trade(wanted.clone())),
        FeedAction::Deliver(wanted)
    );
    assert_eq!(next_action("PEPE", FeedEvent::Trade(trade("DOGE", 1, 2, 3))), FeedAction::Wait);
    assert_eq!(next_action("PEPE", FeedEvent::Trade(trade("pepe", 1, 2, 3))), FeedAction::Wait);
    assert_eq!(next_action("PEPE", FeedEvent::Delivered), FeedAction::Wait);
    assert_eq!(next_action("PEPE", FeedEvent::EncodeFailed), FeedAction::Wait);
    assert_eq!(next_action("PEPE", FeedEvent::BusLost), FeedAction::Close);
    assert_eq!(next_action("PEPE", FeedEvent::DeliveryFailed), FeedAction::Close);
}

#[test]
fn a_connection_reads_until_the_client_closes() {
    assert!(keeps_reading(ClientFrame::Text));
    assert!(keeps_reading(ClientFrame::Other));
    assert!(!keeps_reading(ClientFrame::Close));
    assert!(!keeps_reading(ClientFrame::Failed));
}

#[test]
fn texts_compare_by_their_characters() {
    assert!(same_text("", ""));
    assert!(same_text("DOGE", "DOGE"));
    assert!(!same_text("DOGE", "DOGE "));
    assert!(!same_text("DOGE", "doge"));
}

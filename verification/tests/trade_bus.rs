use kline_engine::stream_service::StreamService;

#[test]
fn listeners_get_messages_of_their_symbol_in_order() {
    let mut bus = StreamService::new();
    let mut pepe = bus.add_connection("PEPE");
    let mut doge = bus.add_connection("DOGE");
    bus.broadcast_to_symbol("PEPE", "one");
    bus.broadcast_to_symbol("PEPE", "two");
    bus.broadcast_to_symbol("DOGE", "three");
    assert_eq!(pepe.try_recv().unwrap(), "one");
    assert_eq!(pepe.try_recv().unwrap(), "two");
    assert!(pepe.try_recv().is_err());
    assert_eq!(doge.try_recv().unwrap(), "three");
    assert!(doge.try_recv().is_err());
}

#[test]
fn listeners_that_left_are_dropped() {
    let mut bus = StreamService::new();
    let first = bus.add_connection("PEPE");
    let mut second = bus.add_connection("PEPE");
    let third = bus.add_connection("PEPE");
    let _other = bus.add_connection("DOGE");
    assert_eq!(bus.listener_count("PEPE"), 3);
    drop(first);
    drop(third);
    bus.broadcast_to_symbol("PEPE", "hello");
    assert_eq!(bus.listener_count("PEPE"), 1);
    assert_eq!(bus.listener_count("DOGE"), 1);
    assert_eq!(second.try_recv().unwrap(), "hello");
    drop(second);
    bus.broadcast_to_symbol("PEPE", "anyone");
    assert_eq!(bus.listener_count("PEPE"), 0);
}

#[test]
fn broadcast_without_listeners_is_no_error() {
    let mut bus = StreamService::new();
    bus.broadcast_to_symbol("PEPE", "nobody");
    assert_eq!(bus.listener_count("PEPE"), 0);
}

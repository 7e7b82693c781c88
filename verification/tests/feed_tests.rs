use stock_stream::consumer::{index, kafka_info, mount, FeedAction, FeedEvent, StockFeed};

fn record(key: &[u8], payload: &[u8]) -> FeedEvent {
    FeedEvent::Record { key: Some(key.to_vec()), payload: Some(payload.to_vec()) }
}

fn forwarded(a: FeedAction) -> Option<String> {
    match a {
        FeedAction::Forward(t) => Some(t),
        _ => None,
    }
}

#[test]
fn unsubscribed_records_are_not_forwarded() {
    let mut f = StockFeed::new();
    assert!(matches!(f.step(record(b"ACA", b"quote")), FeedAction::Wait));
}

#[test]
fn subscribed_records_are_forwarded() {
    let mut f = StockFeed::new();
    assert!(matches!(f.step(FeedEvent::ClientText("ACA".to_string())), FeedAction::Wait));
    assert_eq!(forwarded(f.step(record(b"ACA", b"quote 1"))), Some("quote 1".to_string()));
    assert!(matches!(f.step(record(b"BNP", b"quote 2")), FeedAction::Wait));
    assert!(f.is_subscribed(&"ACA".to_string()));
    assert!(!f.is_subscribed(&"BNP".to_string()));
}

#[test]
fn subscribing_twice_keeps_one_subscription() {
    let mut f = StockFeed::new();
    f.step(FeedEvent::ClientText("ACA".to_string()));
    f.step(FeedEvent::ClientText("ACA".to_string()));
    assert!(f.is_subscribed(&"ACA".to_string()));
    assert_eq!(forwarded(f.step(record(b"ACA", b"x"))), Some("x".to_string()));
}

#[test]
fn record_without_key_or_payload_waits() {
    let mut f = StockFeed::new();
    f.step(FeedEvent::ClientText("ACA".to_string()));
    assert!(matches!(
        f.step(FeedEvent::Record { key: None, payload: Some(b"x".to_vec()) }),
        FeedAction::Wait
    ));
    assert!(matches!(
        f.step(FeedEvent::Record { key: Some(b"ACA".to_vec()), payload: None }),
        FeedAction::Wait
    ));
}

#[test]
fn invalid_key_reads_as_empty_name() {
    let mut f = StockFeed::new();
    assert!(matches!(f.step(record(&[0xff], b"x")), FeedAction::Wait));
    f.step(FeedEvent::ClientText(String::new()));
    assert_eq!(forwarded(f.step(record(&[0xff], b"x"))), Some("x".to_string()));
}

#[test]
fn invalid_payload_is_replaced() {
    let mut f = StockFeed::new();
    f.step(FeedEvent::ClientText("ACA".to_string()));
    assert_eq!(
        forwarded(f.step(record(b"ACA", &[0xc3]))),
        Some("toto not working".to_string())
    );
}

#[test]
fn close_and_failed_send_stop() {
    let mut f = StockFeed::new();
    assert!(matches!(f.step(FeedEvent::ClientClosed), FeedAction::Stop));
    assert!(matches!(f.step(FeedEvent::Sent(false)), FeedAction::Stop));
    assert!(matches!(f.step(FeedEvent::Sent(true)), FeedAction::Wait));
    assert!(matches!(f.step(FeedEvent::ClientFailed), FeedAction::Wait));
}

#[test]
fn broker_failure_is_reported() {
    let mut f = StockFeed::new();
    match f.step(FeedEvent::BrokerFailed("broker down".to_string())) {
        FeedAction::Report(line) => assert_eq!(line, "Kafka error: broker down"),
        _ => panic!("expected a report"),
    }
}

#[test]
fn index_redirects_permanently() {
    let r = index();
    assert_eq!(r.status, 308);
    assert_eq!(r.location, "/static/index.html");
}

#[test]
fn kafka_info_line() {
    assert_eq!(kafka_info("localhost", 9092), "Kafka Host: localhost, Port: 9092");
    assert_eq!(kafka_info("", 0), "Kafka Host: , Port: 0");
}

#[test]
fn consumer_routes() {
    let m = mount();
    assert_eq!(m.base, "/");
    assert_eq!(m.routes, vec!["/".to_string(), "/echo".to_string(), "/kafka_info".to_string()]);
}

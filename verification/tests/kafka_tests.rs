use stock_stream::kafka::{broker_address, broker_address_for_port, consumer_config, producer_config};

#[test]
fn consumer_settings() {
    let c = consumer_config("stocks", "localhost:9092");
    assert_eq!(c.get("group.id"), Some("stocks"));
    assert_eq!(c.get("bootstrap.servers"), Some("localhost:9092"));
    assert_eq!(c.get("auto.offset.reset"), Some("earliest"));
    assert_eq!(c.config_map().len(), 3);
}

#[test]
fn producer_settings() {
    let c = producer_config("kafka", "9093");
    assert_eq!(c.get("bootstrap.servers"), Some("kafka:9093"));
    assert_eq!(c.get("message.timeout.ms"), Some("5000"));
    assert_eq!(c.config_map().len(), 2);
}

#[test]
fn broker_addresses() {
    assert_eq!(broker_address("localhost", "9092"), "localhost:9092");
    assert_eq!(broker_address_for_port("broker", 29092), "broker:29092");
}

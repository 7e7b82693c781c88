use stock_stream::server::{echo_step, index, rocket, EchoAction, EchoEvent};

#[test]
fn echo_server_reactions() {
    assert!(matches!(echo_step(EchoEvent::ClientMessage), EchoAction::EchoBack));
    assert!(matches!(echo_step(EchoEvent::ClientFailed), EchoAction::Wait));
    assert!(matches!(echo_step(EchoEvent::Record { payload: None }), EchoAction::Wait));
    match echo_step(EchoEvent::Record { payload: Some(b"tick".to_vec()) }) {
        EchoAction::Forward(t) => assert_eq!(t, "tick"),
        _ => panic!("expected a forward"),
    }
    match echo_step(EchoEvent::Record { payload: Some(vec![0xff]) }) {
        EchoAction::Forward(t) => assert_eq!(t, ""),
        _ => panic!("expected a forward"),
    }
    match echo_step(EchoEvent::BrokerFailed("e".to_string())) {
        EchoAction::Report(t) => assert_eq!(t, "Kafka error: e"),
        _ => panic!("expected a report"),
    }
    assert!(matches!(echo_step(EchoEvent::Sent(false)), EchoAction::Stop));
    assert!(matches!(echo_step(EchoEvent::Sent(true)), EchoAction::Wait));
}

#[test]
fn echo_server_pages() {
    let r = index();
    assert_eq!(r.status, 308);
    assert_eq!(r.location, "/frontend/index.html");
    let m = rocket();
    assert_eq!(m.base, "/");
    assert_eq!(m.routes, vec!["/".to_string(), "/echo".to_string()]);
}

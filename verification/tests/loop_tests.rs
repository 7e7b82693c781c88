use stock_stream::cli::host_and_port;
use stock_stream::errors::ScraperError;
use stock_stream::schedule::{
    next, publish_next, publish_start, start, ErrorPolicy, LoopAction, LoopEvent, PublishAction,
};

#[test]
fn error_messages() {
    assert_eq!(ScraperError::Io("disk".into()).message(), "IO error: disk");
    assert_eq!(ScraperError::Join("panic".into()).message(), "Join error: panic");
    assert_eq!(ScraperError::Kafka("k".into()).message(), "Kafka error: k");
    assert_eq!(ScraperError::Reqwest("r".into()).message(), "Reqwest error: r");
    assert_eq!(ScraperError::Send("s".into()).message(), "Kafka send error: s");
    assert_eq!(ScraperError::Send("s".into()).short_message(), "Send error: s");
    assert_eq!(ScraperError::Io("d".into()).short_message(), "IO error: d");
}

#[test]
fn propagating_loop() {
    assert!(matches!(start(ErrorPolicy::Propagate), LoopAction::Scrape));
    assert!(matches!(next(ErrorPolicy::Propagate, LoopEvent::Scraped(Ok(()))), LoopAction::Sleep));
    assert!(matches!(next(ErrorPolicy::Propagate, LoopEvent::Slept), LoopAction::Scrape));
    match next(ErrorPolicy::Propagate, LoopEvent::Scraped(Err(ScraperError::Reqwest("x".into())))) {
        LoopAction::Finish(Err(ScraperError::Reqwest(m))) => assert_eq!(m, "x"),
        other => panic!("unexpected {:?}", other),
    }
    assert!(matches!(
        next(ErrorPolicy::Propagate, LoopEvent::ShutdownReceived),
        LoopAction::Finish(Ok(()))
    ));
}

#[test]
fn reporting_loop() {
    assert!(matches!(start(ErrorPolicy::Report), LoopAction::PollShutdown));
    assert!(matches!(next(ErrorPolicy::Report, LoopEvent::ShutdownPolled(false)), LoopAction::Scrape));
    assert!(matches!(
        next(ErrorPolicy::Report, LoopEvent::ShutdownPolled(true)),
        LoopAction::Finish(Ok(()))
    ));
    assert!(matches!(
        next(ErrorPolicy::Report, LoopEvent::Scraped(Err(ScraperError::Io("x".into())))),
        LoopAction::ReportThenSleep(ScraperError::Io(_))
    ));
    assert!(matches!(next(ErrorPolicy::Report, LoopEvent::Slept), LoopAction::PollShutdown));
}

#[test]
fn defaults_for_host_and_port() {
    assert_eq!(host_and_port(None, None), ("localhost".to_string(), "9092".to_string()));
    assert_eq!(
        host_and_port(Some("kafka".into()), Some("1".into())),
        ("kafka".to_string(), "1".to_string())
    );
}

#[test]
fn publishing_goes_in_order_and_stops_at_first_failure() {
    assert!(matches!(publish_start(0), PublishAction::Finish(Ok(()))));
    assert!(matches!(publish_start(3), PublishAction::Send(0)));
    assert!(matches!(publish_next(3, 0, Ok(())), PublishAction::Send(1)));
    assert!(matches!(publish_next(3, 2, Ok(())), PublishAction::Finish(Ok(()))));
    match publish_next(3, 1, Err(ScraperError::Send("timeout".into()))) {
        PublishAction::Finish(Err(ScraperError::Send(m))) => assert_eq!(m, "timeout"),
        other => panic!("unexpected {:?}", other),
    }
}

#[test]
fn shutdown_during_a_scrape_ends_the_loop_without_another_scrape() {
    let policy = ErrorPolicy::Propagate;
    let mut action = start(policy);
    assert!(matches!(action, LoopAction::Scrape));
    action = next(policy, LoopEvent::Scraped(Ok(())));
    assert!(matches!(action, LoopAction::Sleep));
    action = next(policy, LoopEvent::ShutdownReceived);
    assert!(matches!(action, LoopAction::Finish(Ok(()))));
}

#[test]
fn scrapes_are_separated_by_a_completed_wait() {
    let policy = ErrorPolicy::Report;
    let events = [
        LoopEvent::ShutdownPolled(false),
        LoopEvent::Scraped(Ok(())),
        LoopEvent::Slept,
        LoopEvent::ShutdownPolled(false),
    ];
    let mut actions = vec![start(policy)];
    for e in events {
        let a = next(policy, e);
        actions.push(a);
    }
    assert!(matches!(actions[1], LoopAction::Scrape));
    assert!(matches!(actions[2], LoopAction::Sleep));
    assert!(matches!(actions[3], LoopAction::PollShutdown));
    assert!(matches!(actions[4], LoopAction::Scrape));
}

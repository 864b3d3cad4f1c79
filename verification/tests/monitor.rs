use std::sync::mpsc::channel;

use humphrey::http::date::DateTime;
use humphrey::http::status::StatusCode;
use humphrey::monitor::{
    is_overloaded, served_event, Event, EventLevel, EventType, MonitorConfig, ToEventMask,
};

#[test]
fn event_masks() {
    assert_eq!(EventType::ConnectionSuccess.to_event_mask(), 0x01);
    assert_eq!(EventType::ThreadPoolPanic.to_event_mask(), 0x4000);
    assert_eq!(EventLevel::Debug.to_event_mask(), u32::MAX);
    assert_eq!(7u32.to_event_mask(), 7);
    let levels = [EventLevel::Error, EventLevel::Warning, EventLevel::Info, EventLevel::Debug];
    for pair in levels.windows(2) {
        let (low, high) = (pair[0].to_event_mask(), pair[1].to_event_mask());
        assert_eq!(low & high, low);
    }
}

#[test]
fn monitor_sends_only_subscribed_events() {
    let (tx, rx) = channel();
    let monitor = MonitorConfig::new(tx).with_subscription_to(EventLevel::Error);
    assert_eq!(monitor.mask(), 0b100_0000_1000_0100);
    assert!(monitor.wants(EventType::ConnectionError));
    assert!(!monitor.wants(EventType::ConnectionSuccess));
    monitor.send(Event::new(EventType::ConnectionSuccess));
    monitor.send(Event::new(EventType::ConnectionError).with_info("boom"));
    let received = rx.try_recv().unwrap();
    assert_eq!(received.kind, EventType::ConnectionError);
    assert_eq!(received.info, Some("boom".to_string()));
    assert!(rx.try_recv().is_err());
    let quiet = MonitorConfig::default();
    assert!(!quiet.wants(EventType::ConnectionError));
}

#[test]
fn event_log_lines() {
    let time = DateTime::from_timestamp(0);
    let event = Event::new(EventType::RequestServedSuccess)
        .with_peer("1.2.3.4:5678")
        .with_info("200 OK /index.html");
    assert_eq!(
        event.text_at(&time),
        "1970-01-01 00:00:00 1.2.3.4:5678 Request served: 200 OK /index.html"
    );
    let bare = Event::from(EventType::ConnectionClosed);
    assert_eq!(bare.text_at(&time), "1970-01-01 00:00:00 Connection closed");
    let unresolved: Result<String, ()> = Err(());
    assert_eq!(Event::new(EventType::ConnectionDenied).with_peer_result(unresolved).peer, None);
    assert!(Event::new(EventType::ConnectionDenied).to_string().ends_with("Connection denied"));
    assert_eq!(EventType::HTTPSRedirect.to_string(), "Redirected to HTTPS");
}

#[test]
fn served_events() {
    let e = served_event(StatusCode::OK, Some("/a"), "p");
    assert_eq!(e.kind, EventType::RequestServedSuccess);
    assert_eq!(e.info.as_deref(), Some("200 OK /a"));
    let e = served_event(StatusCode::RequestTimeout, None, "p");
    assert_eq!(e.kind, EventType::RequestTimeout);
    assert_eq!(e.info.as_deref(), Some("408 Request Timeout"));
    let e = served_event(StatusCode::NotFound, Some("/b"), "p");
    assert_eq!(e.kind, EventType::RequestServedError);
    assert_eq!(e.info.as_deref(), Some("404 Not Found /b"));
    let e = served_event(StatusCode::BadRequest, None, "p");
    assert_eq!(e.info.as_deref(), Some("400 Bad Request"));
    assert_eq!(e.peer.as_deref(), Some("p"));
}

#[test]
fn overload_threshold() {
    assert!(!is_overloaded(100));
    assert!(is_overloaded(101));
}

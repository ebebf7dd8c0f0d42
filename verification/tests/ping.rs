use wyoming::event::{Event, Eventable};
use wyoming::ping::{Ping, Pong};

#[test]
fn ping_round_trip() {
    let ping = Ping { text: "hello".into() };
    let event = ping.into_event();
    assert_eq!(event.event_type, "ping");
    let recovered = Ping::from_event(event).unwrap();
    assert_eq!(recovered.text, "hello");
}

#[test]
fn ping_empty_text() {
    let ping = Ping { text: String::new() };
    let event = ping.into_event();
    let recovered = Ping::from_event(event).unwrap();
    assert_eq!(recovered.text, "");
}

#[test]
fn pong_round_trip() {
    let pong = Pong { text: "world".into() };
    let event = pong.into_event();
    assert_eq!(event.event_type, "pong");
    let recovered = Pong::from_event(event).unwrap();
    assert_eq!(recovered.text, "world");
}

#[test]
fn pong_empty_text() {
    let pong = Pong { text: String::new() };
    let event = pong.into_event();
    let recovered = Pong::from_event(event).unwrap();
    assert_eq!(recovered.text, "");
}

#[test]
fn wrong_type_errors() {
    let event = Event::new("not-a-ping");
    assert!(Ping::from_event(event.clone()).is_err());
    assert!(Pong::from_event(event).is_err());
}

#[test]
fn ping_empty_text_writes_no_data() {
    let event = Ping { text: String::new() }.into_event();
    assert!(event.data.is_empty());
    let event = Ping { text: "x".into() }.into_event();
    assert_eq!(event.data.get("text").and_then(|v| v.as_str()), Some("x"));
}

use minibroker::broker::Broker;
use minibroker::protocol::{handle_line, line_is_blank, parse_offset, split3, Response};

fn expect_message(r: &Response, offset: usize, topic: &str, payload: &str) {
    match r {
        Response::Message { offset: o, topic: t, payload: p } => {
            assert_eq!(*o, offset);
            assert_eq!(t, topic);
            assert_eq!(p, payload);
        }
        _ => panic!("expected a message response"),
    }
}

#[test]
fn end_to_end_publish_then_consume() {
    let mut b = Broker::new();
    assert!(handle_line(&mut b, "PUBLISH t hello").is_empty());
    assert!(handle_line(&mut b, "PUBLISH t world").is_empty());

    let full = handle_line(&mut b, "CONSUME t");
    assert_eq!(full.len(), 2);
    expect_message(&full[0], 0, "t", "hello");
    expect_message(&full[1], 1, "t", "world");

    let tail = handle_line(&mut b, "SUBSCRIBE t 1");
    assert_eq!(tail.len(), 1);
    expect_message(&tail[0], 1, "t", "world");
}

#[test]
fn malformed_publish_leaves_state_unchanged() {
    let mut b = Broker::new();
    let r = handle_line(&mut b, "PUBLISH t");
    assert_eq!(r.len(), 1);
    assert!(matches!(r[0], Response::InvalidPublish));
    assert_eq!(b.topics.len(), 0);

    let r = handle_line(&mut b, "PUBLISH  trailing");
    assert_eq!(r.len(), 1);
    assert!(matches!(r[0], Response::InvalidPublish));
    assert_eq!(b.topics.len(), 0);

    let r = handle_line(&mut b, "PUBLISH");
    assert_eq!(r.len(), 1);
    assert!(matches!(r[0], Response::InvalidPublish));
    assert_eq!(b.topics.len(), 0);
}

#[test]
fn consume_unknown_topic_is_empty() {
    let mut b = Broker::new();
    let r = handle_line(&mut b, "CONSUME nosuch");
    assert!(r.is_empty());
    assert_eq!(b.topics.len(), 0);
    let r = handle_line(&mut b, "SUBSCRIBE nosuch 3");
    assert!(r.is_empty());
    assert_eq!(b.topics.len(), 0);
}

#[test]
fn unknown_command_answered_once() {
    let mut b = Broker::new();
    let r = handle_line(&mut b, "FROB t x");
    assert_eq!(r.len(), 1);
    assert!(matches!(r[0], Response::UnknownCommand));
    assert_eq!(b.topics.len(), 0);

    let r = handle_line(&mut b, "");
    assert_eq!(r.len(), 1);
    assert!(matches!(r[0], Response::UnknownCommand));
}

#[test]
fn commands_match_case_insensitively() {
    let mut b = Broker::new();
    assert!(handle_line(&mut b, "publish t hi").is_empty());
    let r = handle_line(&mut b, "Consume t");
    assert_eq!(r.len(), 1);
    expect_message(&r[0], 0, "t", "hi");
    let r = handle_line(&mut b, "sUbScRiBe t 0");
    assert_eq!(r.len(), 1);
}

#[test]
fn payload_keeps_embedded_spaces() {
    let mut b = Broker::new();
    assert!(handle_line(&mut b, "PUBLISH t hello world again").is_empty());
    let r = handle_line(&mut b, "CONSUME t");
    assert_eq!(r.len(), 1);
    expect_message(&r[0], 0, "t", "hello world again");
}

#[test]
fn subscribe_offset_defaults_to_zero() {
    let mut b = Broker::new();
    handle_line(&mut b, "PUBLISH t a");
    handle_line(&mut b, "PUBLISH t b");
    let r = handle_line(&mut b, "SUBSCRIBE t");
    assert_eq!(r.len(), 2);
    let r = handle_line(&mut b, "SUBSCRIBE t junk");
    assert_eq!(r.len(), 2);
    let r = handle_line(&mut b, "SUBSCRIBE t 99999999999999999999999999");
    assert_eq!(r.len(), 2);
}

#[test]
fn subscribe_offset_past_end_is_empty() {
    let mut b = Broker::new();
    handle_line(&mut b, "PUBLISH t a");
    let r = handle_line(&mut b, "SUBSCRIBE t 1");
    assert!(r.is_empty());
    let r = handle_line(&mut b, "SUBSCRIBE t 400");
    assert!(r.is_empty());
}

#[test]
fn trailing_space_means_empty_payload() {
    let mut b = Broker::new();
    let r = handle_line(&mut b, "PUBLISH t ");
    assert_eq!(r.len(), 1);
    assert!(matches!(r[0], Response::InvalidPublish));
    assert_eq!(b.topics.len(), 0);
}

#[test]
fn topics_are_independent() {
    let mut b = Broker::new();
    handle_line(&mut b, "PUBLISH a one");
    handle_line(&mut b, "PUBLISH b two");
    handle_line(&mut b, "PUBLISH a three");
    let ra = handle_line(&mut b, "CONSUME a");
    assert_eq!(ra.len(), 2);
    expect_message(&ra[0], 0, "a", "one");
    expect_message(&ra[1], 1, "a", "three");
    let rb = handle_line(&mut b, "CONSUME b");
    assert_eq!(rb.len(), 1);
    expect_message(&rb[0], 0, "b", "two");
}

#[test]
fn split3_bounds_fields() {
    assert_eq!(split3("one two three four"), ("one", "two", "three four"));
    assert_eq!(split3("one two"), ("one", "two", ""));
    assert_eq!(split3("one"), ("one", "", ""));
    assert_eq!(split3(""), ("", "", ""));
    assert_eq!(split3("a  b"), ("a", "", "b"));
}

#[test]
fn parse_offset_values() {
    assert_eq!(parse_offset(""), 0);
    assert_eq!(parse_offset("0"), 0);
    assert_eq!(parse_offset("42"), 42);
    assert_eq!(parse_offset("007"), 7);
    assert_eq!(parse_offset("4x2"), 0);
    assert_eq!(parse_offset("-3"), 0);
    assert_eq!(parse_offset("99999999999999999999999999"), 0);
}

#[test]
fn blank_lines_detected() {
    assert!(line_is_blank(""));
    assert!(line_is_blank("   "));
    assert!(line_is_blank(" \t\r"));
    assert!(!line_is_blank("x"));
    assert!(!line_is_blank("  x  "));
}

use minibroker::broker::Broker;
use minibroker::consumer::{backoff_seconds, Consumer, ResilientConsumer, RetryDecision};
use minibroker::message::Message as ClientMessage;
use minibroker::producer::{consume_command, publish_command, Producer, ProducerPool};

#[test]
fn poll_returns_backlog_in_order() {
    let mut b = Broker::new();
    let p = Producer::new();
    p.send(&mut b, "t", "hello");
    p.send(&mut b, "t", "world");
    let c = Consumer::new();
    let msgs = c.poll(&b, "t");
    assert_eq!(msgs.len(), 2);
    assert_eq!(msgs[0].offset, 0);
    assert_eq!(msgs[0].payload, "hello");
    assert_eq!(msgs[1].offset, 1);
    assert_eq!(msgs[1].payload, "world");
}

#[test]
fn poll_unknown_topic_is_empty() {
    let b = Broker::new();
    let c = Consumer::new();
    assert!(c.poll(&b, "nosuch").is_empty());
}

#[test]
fn poll_with_limit_truncates() {
    let mut b = Broker::new();
    let p = Producer::new();
    p.send_batch(
        &mut b,
        "t",
        &vec![String::from("a"), String::from("b"), String::from("c")],
    );
    let c = Consumer::new();
    let two = c.poll_with_limit(&b, "t", 2);
    assert_eq!(two.len(), 2);
    assert_eq!(two[0].payload, "a");
    assert_eq!(two[1].payload, "b");
    let all = c.poll_with_limit(&b, "t", 10);
    assert_eq!(all.len(), 3);
    let none = c.poll_with_limit(&b, "t", 0);
    assert!(none.is_empty());
    assert!(c.poll_with_limit(&b, "other", 5).is_empty());
}

#[test]
fn send_batch_keeps_order_and_offsets() {
    let mut b = Broker::new();
    let p = Producer::new();
    p.send(&mut b, "t", "first");
    p.send_batch(&mut b, "t", &vec![String::from("second"), String::from("third")]);
    let i = b.lookup("t").unwrap();
    assert_eq!(b.topics[i].messages.len(), 3);
    for (k, m) in b.topics[i].messages.iter().enumerate() {
        assert_eq!(m.offset, k);
    }
    assert_eq!(b.topics[i].messages[2].payload, "third");
}

#[test]
fn empty_batch_still_creates_topic() {
    let mut b = Broker::new();
    let p = Producer::new();
    p.send_batch(&mut b, "t", &Vec::new());
    assert!(b.lookup("t").is_some());
    assert_eq!(b.topics.len(), 1);
}

#[test]
fn backoff_doubles_per_failure_and_resets() {
    let rc = ResilientConsumer::new(String::from("127.0.0.1:9000"), String::from("t"), 5);
    assert_eq!(rc.max_retries, 5);

    let (n1, d1) = rc.next_decision(0, false);
    assert_eq!(n1, 1);
    assert!(matches!(d1, RetryDecision::Backoff { seconds: 2 }));

    let (n2, d2) = rc.next_decision(n1, false);
    assert_eq!(n2, 2);
    assert!(matches!(d2, RetryDecision::Backoff { seconds: 4 }));

    let (n3, d3) = rc.next_decision(n2, false);
    assert_eq!(n3, 3);
    assert!(matches!(d3, RetryDecision::Backoff { seconds: 8 }));

    let (n4, d4) = rc.next_decision(n3, true);
    assert_eq!(n4, 0);
    assert!(matches!(d4, RetryDecision::Proceed));
}

#[test]
fn retries_give_up_past_budget() {
    let rc = ResilientConsumer::new(String::from("addr"), String::from("t"), 2);
    let (n, d) = rc.next_decision(2, false);
    assert_eq!(n, 3);
    assert!(matches!(d, RetryDecision::GiveUp));
}

#[test]
fn backoff_seconds_values() {
    assert_eq!(backoff_seconds(0), 1);
    assert_eq!(backoff_seconds(1), 2);
    assert_eq!(backoff_seconds(5), 32);
    assert_eq!(backoff_seconds(10), 1024);
}

#[test]
fn pool_never_exceeds_capacity() {
    let mut pool: ProducerPool<u32> = ProducerPool::new(String::from("addr"), 2);
    assert!(pool.get_connection().is_none());
    pool.release_connection(10);
    pool.release_connection(20);
    assert_eq!(pool.connections.len(), 2);
    pool.release_connection(30);
    assert_eq!(pool.connections.len(), 2);
    assert_eq!(pool.get_connection(), Some(20));
    assert_eq!(pool.get_connection(), Some(10));
    assert!(pool.get_connection().is_none());
}

#[test]
fn pool_with_zero_capacity_holds_nothing() {
    let mut pool: ProducerPool<u32> = ProducerPool::new(String::from("addr"), 0);
    pool.release_connection(1);
    assert_eq!(pool.connections.len(), 0);
    assert!(pool.get_connection().is_none());
}

#[test]
fn wire_commands_format() {
    assert_eq!(publish_command("t", "hello"), "PUBLISH t hello\n");
    assert_eq!(publish_command("t", "hello world"), "PUBLISH t hello world\n");
    assert_eq!(consume_command("t"), "CONSUME t\n");
}

#[test]
fn client_message_record() {
    let m = ClientMessage {
        payload: String::from("p"),
        topic: String::from("t"),
        offset: 7,
    };
    assert_eq!(m.payload, "p");
    assert_eq!(m.topic, "t");
    assert_eq!(m.offset, 7);
}

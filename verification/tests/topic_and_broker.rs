use minibroker::broker::Broker;
use minibroker::topic::Topic;

#[test]
fn publish_assigns_dense_offsets() {
    let mut t = Topic::new("t");
    assert_eq!(t.publish(String::from("a")), 0);
    assert_eq!(t.publish(String::from("b")), 1);
    assert_eq!(t.publish(String::from("c")), 2);
    assert_eq!(t.next_offset, 3);
    let all = t.consume_all();
    assert_eq!(all.len(), 3);
    for (i, m) in all.iter().enumerate() {
        assert_eq!(m.offset, i);
    }
    assert_eq!(all[0].payload, "a");
    assert_eq!(all[1].payload, "b");
    assert_eq!(all[2].payload, "c");
}

#[test]
fn consume_from_offset_is_suffix() {
    let mut t = Topic::new("t");
    t.publish(String::from("a"));
    t.publish(String::from("b"));
    t.publish(String::from("c"));
    let tail = t.consume(1);
    assert_eq!(tail.len(), 2);
    assert_eq!(tail[0].offset, 1);
    assert_eq!(tail[0].payload, "b");
    assert_eq!(tail[1].offset, 2);
    assert_eq!(tail[1].payload, "c");
}

#[test]
fn consume_zero_equals_consume_all() {
    let mut t = Topic::new("t");
    t.publish(String::from("x"));
    t.publish(String::from("y"));
    let a = t.consume(0);
    let b = t.consume_all();
    assert_eq!(a.len(), b.len());
    for i in 0..a.len() {
        assert_eq!(a[i].offset, b[i].offset);
        assert_eq!(a[i].payload, b[i].payload);
    }
}

#[test]
fn consume_past_end_is_empty() {
    let mut t = Topic::new("t");
    t.publish(String::from("only"));
    assert!(t.consume(1).is_empty());
    assert!(t.consume(100).is_empty());
}

#[test]
fn consume_on_fresh_topic_is_empty() {
    let t = Topic::new("fresh");
    assert!(t.consume_all().is_empty());
    assert!(t.consume(0).is_empty());
}

#[test]
fn get_or_create_is_idempotent() {
    let mut b = Broker::new();
    let i = b.get_or_create_topic("orders");
    let j = b.get_or_create_topic("orders");
    assert_eq!(i, j);
    assert_eq!(b.topics.len(), 1);
}

#[test]
fn get_or_create_distinct_names() {
    let mut b = Broker::new();
    let i = b.get_or_create_topic("a");
    let j = b.get_or_create_topic("b");
    assert_ne!(i, j);
    assert_eq!(b.topics.len(), 2);
    assert_eq!(b.topics[i].name, "a");
    assert_eq!(b.topics[j].name, "b");
}

#[test]
fn lookup_does_not_create() {
    let mut b = Broker::new();
    assert!(b.lookup("missing").is_none());
    assert_eq!(b.topics.len(), 0);
    let i = b.get_or_create_topic("present");
    assert_eq!(b.lookup("present"), Some(i));
    assert_eq!(b.topics.len(), 1);
}

#[test]
fn publish_message_creates_and_appends() {
    let mut b = Broker::new();
    let off0 = b.publish_message("t", String::from("first"));
    assert_eq!(off0, 0);
    let off1 = b.publish_message("t", String::from("second"));
    assert_eq!(off1, 1);
    assert_eq!(b.topics.len(), 1);
    let i = b.lookup("t").unwrap();
    assert_eq!(b.topics[i].messages.len(), 2);
    assert_eq!(b.topics[i].messages[0].payload, "first");
    assert_eq!(b.topics[i].messages[1].payload, "second");
}

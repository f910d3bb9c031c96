use a3s_event::strmap::StrMap;
use a3s_event::types::{Event, EventCounts, ReceivedEvent, SubscriptionFilter};

fn empty_object() -> serde_json::Value {
    serde_json::Value::Object(serde_json::Map::new())
}

fn object_with(key: &str, value: serde_json::Value) -> serde_json::Value {
    let mut m = serde_json::Map::new();
    m.insert(key.to_string(), value);
    serde_json::Value::Object(m)
}

fn is_v4_uuid_text(s: &str) -> bool {
    let c: Vec<char> = s.chars().collect();
    c.len() == 36
        && c.iter().enumerate().all(|(i, ch)| {
            if i == 8 || i == 13 || i == 18 || i == 23 {
                *ch == '-'
            } else {
                ch.is_ascii_digit() || ('a'..='f').contains(ch)
            }
        })
        && c[14] == '4'
        && "89ab".contains(c[19])
}

#[test]
fn test_event_creation() {
    let event = Event::new(
        "events.market.forex",
        "market",
        "USD/CNY rate change",
        "reuters",
        object_with("rate", serde_json::Value::from(7.35)),
    ).unwrap();

    assert!(event.id.starts_with("evt-"));
    assert_eq!(event.subject, "events.market.forex");
    assert_eq!(event.category, "market");
    assert_eq!(event.source, "reuters");
    assert!(event.timestamp > 0);
    assert!(event.metadata.is_empty());
}

#[test]
fn test_event_with_metadata() {
    let event = Event::new("events.system.deploy", "system", "Deployed v1.2", "ci", empty_object()).unwrap()
        .with_metadata("env", "production")
        .with_metadata("version", "1.2.0");

    assert_eq!(event.metadata.len(), 2);
    assert_eq!(event.metadata.get("env").unwrap(), "production");
    assert_eq!(event.metadata.get("version").unwrap(), "1.2.0");
}

#[test]
fn test_event_counts_default() {
    let counts = EventCounts::default();
    assert_eq!(counts.total, 0);
    assert!(counts.categories.is_empty());
}

#[test]
fn event_id_is_prefixed_v4_uuid() {
    let a = Event::new("s", "c", "x", "y", empty_object()).unwrap();
    let b = Event::new("s", "c", "x", "y", empty_object()).unwrap();
    assert_eq!(a.id.len(), 40);
    assert!(is_v4_uuid_text(&a.id[4..]));
    assert_ne!(a.id, b.id);
    assert_eq!(a.summary, "x");
    assert_eq!(a.payload, empty_object());
}

#[test]
fn later_metadata_value_replaces_earlier() {
    let event = Event::new("s", "c", "x", "y", empty_object()).unwrap()
        .with_metadata("env", "staging")
        .with_metadata("env", "production");
    assert_eq!(event.metadata.len(), 1);
    assert_eq!(event.metadata.get("env").unwrap(), "production");
    assert!(event.metadata.get("missing").is_none());
}

#[test]
fn read_after_write_on_string_map() {
    let mut m: StrMap<u64> = StrMap::new();
    assert!(m.is_empty());
    m.insert("a".to_string(), 1);
    m.insert("b".to_string(), 2);
    m.insert("a".to_string(), 3);
    assert_eq!(m.len(), 2);
    assert_eq!(m.get("a"), Some(&3));
    assert_eq!(m.get("b"), Some(&2));
    assert!(m.contains_key("b"));
    assert!(!m.contains_key("c"));
    let mut keys: Vec<(String, u64)> = m.entries().to_vec();
    keys.sort();
    assert_eq!(keys, vec![("a".to_string(), 3), ("b".to_string(), 2)]);
    let c = m.clone();
    assert_eq!(c.get("a"), Some(&3));
    assert_eq!(c.len(), 2);
}

#[test]
fn received_event_and_filter_carry_their_fields() {
    let event = Event::new("events.a.b", "a", "s", "src", object_with("k", serde_json::Value::from(1))).unwrap();
    let received = ReceivedEvent { event: event.clone(), sequence: 7, num_delivered: 1, stream: "S".to_string() };
    assert_eq!(received.event.id, event.id);
    assert_eq!(received.event.payload, event.payload);
    assert_eq!(received.sequence, 7);
    let filter = SubscriptionFilter {
        subscriber_id: "financial-analyst".to_string(),
        subjects: vec!["events.market.>".to_string()],
        durable: true,
    };
    let copy = filter.clone();
    assert_eq!(copy.subscriber_id, "financial-analyst");
    assert!(copy.durable);
}

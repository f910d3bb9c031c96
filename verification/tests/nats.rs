use a3s_event::error::EventError;
use a3s_event::nats::{
    ack_error, connect_settings, collect_history_item, connect_error,
    delete_consumer_error, durable_consumer_error, durable_consumer_settings, ephemeral_consumer_error,
    ephemeral_consumer_settings, fetch_error, history_consumer_error, history_consumer_settings,
    publish_error, stream_info_error, stream_settings, stream_setup_error,
    subscribe_error, AckMode, DeliverFrom, FetchOutcome, NatsConfig, Retention, StorageType,
    StreamInfo,
};
use a3s_event::types::Event;

fn config() -> NatsConfig {
    NatsConfig {
        url: "nats://127.0.0.1:4222".to_string(),
        stream_name: "A3S_EVENTS".to_string(),
        subject_prefix: "events".to_string(),
        storage: StorageType::Memory,
        max_events: 100_000,
        max_age_secs: 604_800,
        max_bytes: 1_048_576,
        connect_timeout_secs: 5,
        request_timeout_secs: 10,
        token: Some("secret".to_string()),
    }
}

fn event(subject: &str) -> Event {
    Event::new(subject, "c", "s", "src", serde_json::Value::Null).unwrap()
}

#[test]
fn stream_subjects_cover_the_prefix() {
    assert_eq!(config().stream_subjects(), vec!["events.>".to_string()]);
}

#[test]
fn stream_settings_follow_config() {
    let s = stream_settings(&config());
    assert_eq!(s.name, "A3S_EVENTS");
    assert_eq!(s.subjects, vec!["events.>".to_string()]);
    assert_eq!(s.storage, StorageType::Memory);
    assert_eq!(s.max_messages, 100_000);
    assert_eq!(s.max_age_secs, 604_800);
    assert_eq!(s.max_bytes, 1_048_576);
    assert_eq!(s.retention, Retention::Limits);
}

#[test]
fn consumer_settings_and_configs() {
    let d = durable_consumer_settings("consumer-1", "events.market.>");
    assert_eq!(d.durable_name, Some("consumer-1".to_string()));
    assert_eq!(d.filter_subject, "events.market.>");
    assert_eq!(d.ack, AckMode::Explicit);
    assert_eq!(d.deliver, DeliverFrom::All);

    let e = ephemeral_consumer_settings("events.>");
    assert_eq!(e.durable_name, None);
    assert_eq!(e.deliver, DeliverFrom::All);

    let h = history_consumer_settings(Some("events.market.>"));
    assert_eq!(h.filter_subject, "events.market.>");
    assert_eq!(h.ack, AckMode::NoAck);
    assert_eq!(h.deliver, DeliverFrom::All);
    assert_eq!(h.durable_name, None);

    let all = history_consumer_settings(None);
    assert_eq!(all.filter_subject, "");
}

#[test]
fn connect_settings_follow_config() {
    let s = connect_settings(&config());
    assert_eq!(s.connect_timeout_secs, 5);
    assert_eq!(s.request_timeout_secs, 10);
    assert_eq!(s.token, Some("secret".to_string()));
    let mut c = config();
    c.token = None;
    assert_eq!(connect_settings(&c).token, None);
}

fn message(e: EventError) -> String {
    match e {
        EventError::Connection(m)
        | EventError::Consumer(m)
        | EventError::Stream(m)
        | EventError::JetStream(m)
        | EventError::Serialization(m) => m,
        EventError::Publish { subject, reason } => format!("publish {}: {}", subject, reason),
        EventError::Subscribe { subject, reason } => format!("subscribe {}: {}", subject, reason),
        EventError::RandomSourceUnavailable => "random source unavailable".to_string(),
        EventError::ClockBeforeEpoch => "clock before epoch".to_string(),
    }
}

#[test]
fn error_texts() {
    assert!(matches!(connect_error("nats://h:1", "refused"), EventError::Connection(_)));
    assert_eq!(message(connect_error("nats://h:1", "refused")), "nats://h:1: refused");
    assert_eq!(message(publish_error("events.a", "no stream")), "publish events.a: no stream");
    assert_eq!(message(ack_error("events.a", "timeout")), "publish events.a: ack failed: timeout");
    assert!(matches!(durable_consumer_error("c1", "x"), EventError::Consumer(_)));
    assert_eq!(message(durable_consumer_error("c1", "x")), "Failed to create durable consumer 'c1': x");
    assert_eq!(message(ephemeral_consumer_error("x")), "Failed to create ephemeral consumer: x");
    assert_eq!(message(subscribe_error("events.>", "x")), "subscribe events.>: x");
    assert_eq!(message(history_consumer_error("x")), "Failed to create history consumer: x");
    assert!(matches!(fetch_error("x"), EventError::JetStream(_)));
    assert_eq!(message(fetch_error("x")), "Failed to fetch history: x");
    assert_eq!(message(delete_consumer_error("c1", "x")), "Failed to delete consumer 'c1': x");
    assert!(matches!(stream_info_error("x"), EventError::Stream(_)));
    assert_eq!(message(stream_info_error("x")), "Failed to get stream info: x");
    assert_eq!(message(stream_setup_error("S", "x")), "Failed to create/get stream 'S': x");
}

#[test]
fn history_collection_stops_at_the_limit() {
    let mut events: Vec<Event> = Vec::new();
    assert!(collect_history_item(&mut events, 2, FetchOutcome::Decoded(event("a"))));
    assert!(collect_history_item(&mut events, 2, FetchOutcome::Undecodable));
    assert!(!collect_history_item(&mut events, 2, FetchOutcome::Decoded(event("b"))));
    assert_eq!(events.len(), 2);
    assert_eq!(events[0].subject, "a");
    assert_eq!(events[1].subject, "b");
    assert!(!collect_history_item(&mut events, 2, FetchOutcome::Undecodable));
    assert_eq!(events.len(), 2);
}

#[test]
fn history_collection_stops_at_an_error() {
    let mut events: Vec<Event> = Vec::new();
    assert!(!collect_history_item(&mut events, 5, FetchOutcome::Failed));
    assert!(events.is_empty());
}

#[test]
fn stream_info_fields() {
    let info = StreamInfo { messages: 3, bytes: 300, first_sequence: 1, last_sequence: 3, consumer_count: 2 };
    let copy = info.clone();
    assert_eq!(copy.messages, 3);
    assert_eq!(copy.consumer_count, 2);
}

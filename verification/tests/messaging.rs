use a3s_event::messaging::{route_subject, settle_wait, InMemoryMessaging, InMemoryStream, Message, WaitOutcome};

fn empty_object() -> serde_json::Value {
    serde_json::Value::Object(serde_json::Map::new())
}

fn received(stream: &InMemoryStream) -> Option<Message> {
    stream.receiver().try_recv().ok()
}

#[test]
fn test_send_receive() {
    let mut messaging = InMemoryMessaging::new();
    let stream = messaging.subscribe("session.*");
    let msg = Message::new("session-1".to_string(), "test".to_string(), empty_object()).unwrap();
    messaging.send(&msg).unwrap();
    let got = received(&stream).unwrap();
    assert_eq!(got.source_id, "session-1");
}

#[test]
fn test_broadcast() {
    let mut messaging = InMemoryMessaging::new();
    let stream1 = messaging.subscribe("*");
    let stream2 = messaging.subscribe("*");
    let mut payload = serde_json::Map::new();
    payload.insert("msg".to_string(), serde_json::Value::from("hi"));
    let msg = Message::broadcast("session-1".to_string(), "alert".to_string(), serde_json::Value::Object(payload)).unwrap();
    messaging.send(&msg).unwrap();
    let received1 = received(&stream1).unwrap();
    let received2 = received(&stream2).unwrap();
    assert_eq!(received1.source_id, "session-1");
    assert_eq!(received2.source_id, "session-1");
}

#[test]
fn test_message_to_session() {
    let msg = Message::new("s1".to_string(), "private".to_string(), empty_object()).unwrap().to_session("s2".to_string());
    assert_eq!(msg.target_id, Some("s2".to_string()));
}

#[test]
fn test_in_memory_messaging_is_connected() {
    let messaging = InMemoryMessaging::new();
    assert!(messaging.is_connected());
}

#[test]
fn test_in_memory_messaging_name() {
    let messaging = InMemoryMessaging::new();
    assert_eq!(messaging.name(), "in-memory");
}

#[test]
fn test_message_new_has_id() {
    let msg = Message::new("s1".to_string(), "test".to_string(), empty_object()).unwrap();
    assert!(!msg.id.is_empty());
}

#[test]
fn test_message_new_has_timestamp() {
    let msg = Message::new("s1".to_string(), "test".to_string(), empty_object()).unwrap();
    assert!(msg.timestamp > 0);
}

#[test]
fn test_message_broadcast_has_no_target() {
    let msg = Message::broadcast("s1".to_string(), "alert".to_string(), empty_object()).unwrap();
    assert!(msg.target_id.is_none());
}

#[test]
fn test_message_clone() {
    let msg = Message::new("s1".to_string(), "test".to_string(), empty_object()).unwrap();
    let cloned = msg.clone();
    assert_eq!(cloned.id, msg.id);
    assert_eq!(cloned.source_id, msg.source_id);
}

#[test]
fn test_subscribe_and_send_to_specific_session() {
    let mut messaging = InMemoryMessaging::new();
    let stream = messaging.subscribe("session.123");
    let msg = Message::new("session-1".to_string(), "test".to_string(), empty_object()).unwrap()
        .to_session("session.123".to_string());
    messaging.send(&msg).unwrap();
    let got = received(&stream).unwrap();
    assert_eq!(got.source_id, "session-1");
}

#[test]
fn test_message_debug() {
    let msg = Message::new("s1".to_string(), "test".to_string(), empty_object()).unwrap();
    let debug_str = format!("{:?}", msg);
    assert!(debug_str.contains("Message"));
}

#[test]
fn message_ids_are_distinct_v4_uuids() {
    let a = Message::new("s1".to_string(), "t".to_string(), empty_object()).unwrap();
    let b = Message::broadcast("s1".to_string(), "t".to_string(), empty_object()).unwrap();
    assert_eq!(a.id.len(), 36);
    assert_eq!(a.id.chars().nth(14), Some('4'));
    assert!("89ab".contains(a.id.chars().nth(19).unwrap()));
    assert_ne!(a.id, b.id);
    assert_eq!(a.msg_type, "t");
}

#[test]
fn routed_subjects() {
    assert_eq!(route_subject(&None), "*");
    assert_eq!(route_subject(&Some("s2".to_string())), "session.s2");
    assert_eq!(route_subject(&Some("session.123".to_string())), "session.123");
    assert_eq!(route_subject(&Some("sessions".to_string())), "session.sessions");
    assert_eq!(route_subject(&Some("".to_string())), "session.");
}

#[test]
fn recipients_of_broadcast_are_everyone_in_order() {
    let mut m = InMemoryMessaging::default();
    let _a = m.subscribe("session.1");
    let _b = m.subscribe("x.y");
    let _c = m.subscribe("*");
    let msg = Message::broadcast("s".to_string(), "t".to_string(), empty_object()).unwrap();
    assert_eq!(m.recipients(&msg), vec![0, 1, 2]);
}

#[test]
fn targeted_message_reaches_its_session_and_wildcard_filters_only() {
    let mut m = InMemoryMessaging::new();
    let s1 = m.subscribe("session.1");
    let s2 = m.subscribe("session.2");
    let all = m.subscribe("*");
    let wild = m.subscribe("session.*");
    let msg = Message::new("s".to_string(), "t".to_string(), empty_object()).unwrap().to_session("1".to_string());
    assert_eq!(m.recipients(&msg), vec![0, 2, 3]);
    m.send(&msg).unwrap();
    assert_eq!(received(&s1).unwrap().id, msg.id);
    assert!(received(&s2).is_none());
    assert_eq!(received(&all).unwrap().id, msg.id);
    assert_eq!(received(&wild).unwrap().id, msg.id);
    assert!(received(&s1).is_none());
}

#[test]
fn no_subscribers_no_recipients() {
    let mut m = InMemoryMessaging::new();
    let msg = Message::new("s".to_string(), "t".to_string(), empty_object()).unwrap();
    assert!(m.recipients(&msg).is_empty());
    assert!(m.send(&msg).is_ok());
}

#[test]
fn subscription_receives_matching_messages_in_order_after_subscribing() {
    let mut m = InMemoryMessaging::new();
    let early = Message::new("s".to_string(), "t".to_string(), empty_object()).unwrap().to_session("7".to_string());
    m.send(&early).unwrap();
    let s7 = m.subscribe("session.7");
    let a = Message::new("s".to_string(), "a".to_string(), empty_object()).unwrap().to_session("7".to_string());
    let b = Message::new("s".to_string(), "b".to_string(), empty_object()).unwrap().to_session("8".to_string());
    let c = Message::broadcast("s".to_string(), "c".to_string(), empty_object()).unwrap();
    m.send(&a).unwrap();
    m.send(&b).unwrap();
    m.send(&c).unwrap();
    assert_eq!(received(&s7).unwrap().id, a.id);
    let got_c = received(&s7).unwrap();
    assert_eq!(got_c.id, c.id);
    assert_eq!(got_c.timestamp, c.timestamp);
    assert_eq!(got_c.payload, c.payload);
    assert!(received(&s7).is_none());
}

#[test]
fn dropped_stream_does_not_stop_delivery() {
    let mut m = InMemoryMessaging::new();
    let gone = m.subscribe("*");
    let live = m.subscribe("*");
    drop(gone);
    let msg = Message::broadcast("s".to_string(), "t".to_string(), empty_object()).unwrap();
    assert!(m.send(&msg).is_ok());
    assert_eq!(received(&live).unwrap().id, msg.id);
}

#[test]
fn waits_yield_only_arrived_messages() {
    let msg = Message::new("s".to_string(), "t".to_string(), empty_object()).unwrap();
    assert_eq!(settle_wait(WaitOutcome::Received(msg.clone())).unwrap().id, msg.id);
    assert!(settle_wait(WaitOutcome::Closed).is_none());
    assert!(settle_wait(WaitOutcome::TimedOut).is_none());
}

#[test]
fn broadcast_and_new_agree_but_for_id_and_time() {
    let n = Message::new("s".to_string(), "t".to_string(), empty_object()).unwrap();
    let b = Message::broadcast("s".to_string(), "t".to_string(), empty_object()).unwrap();
    assert_eq!(n.source_id, b.source_id);
    assert_eq!(n.msg_type, b.msg_type);
    assert_eq!(n.payload, b.payload);
    assert!(n.target_id.is_none() && b.target_id.is_none());
    assert_ne!(n.id, b.id);
}

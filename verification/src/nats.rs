//! The decisions of the NATS JetStream client: how its configuration maps to
//! connection, stream and consumer settings, how failures are reported, and
//! how fetched history is collected. The caller turns the settings into the
//! client crate's option values and makes the network calls.
use vstd::prelude::*;
use crate::error::EventError;
use crate::types::Event;

verus! {

/// Where a stream keeps its data.
#[derive(Debug, Clone, Copy, PartialEq, Eq)]
pub enum StorageType {
    /// In files.
    File,
    /// In memory only.
    Memory,
}

/// When a stream may drop messages.
#[derive(Debug, Clone, Copy, PartialEq, Eq)]
pub enum Retention {
    /// Once a message, byte or age limit is reached.
    Limits,
    /// Once every interested consumer has acknowledged a message.
    Interest,
    /// Once the first consumer has acknowledged a message.
    WorkQueue,
}

/// How a consumer acknowledges messages.
#[derive(Debug, Clone, Copy, PartialEq, Eq)]
pub enum AckMode {
    /// Each message is acknowledged on its own.
    Explicit,
    /// No acknowledgement.
    NoAck,
    /// Acknowledging a message acknowledges all before it.
    All,
}

/// Where a consumer starts in its stream.
#[derive(Debug, Clone, Copy, PartialEq, Eq)]
pub enum DeliverFrom {
    /// From the first message.
    All,
    /// From the last message.
    Last,
    /// From messages published after the consumer was created.
    New,
}

/// Connection and stream configuration of the NATS provider.
#[derive(Debug, Clone)]
pub struct NatsConfig {
    /// Server URL, such as `nats://127.0.0.1:4222`.
    pub url: String,
    /// JetStream stream name.
    pub stream_name: String,
    /// Prefix of every event subject, such as `events`.
    pub subject_prefix: String,
    /// Where the stream keeps its data.
    pub storage: StorageType,
    /// Largest number of messages the stream keeps.
    pub max_events: i64,
    /// Oldest message age the stream keeps, in seconds (0: no limit).
    pub max_age_secs: u64,
    /// Largest number of bytes the stream keeps.
    pub max_bytes: i64,
    /// Connection timeout in seconds.
    pub connect_timeout_secs: u64,
    /// Request timeout in seconds.
    pub request_timeout_secs: u64,
    /// Authentication token.
    pub token: Option<String>,
}

/// The subject pattern that covers every subject under `prefix`.
pub open spec fn all_under(prefix: Seq<char>) -> Seq<char> {
    prefix + seq!['.', '>']
}

impl NatsConfig {
    /// The subjects the stream captures: everything under the subject prefix.
    pub fn stream_subjects(&self) -> (r: Vec<String>)
        ensures
            r@.len() == 1,
            r@[0]@ == all_under(self.subject_prefix@),
    {
        let mut s = self.subject_prefix.clone();
        proof {
            reveal_strlit(".>");
        }
        s.append(".>");
        let mut r: Vec<String> = Vec::new();
        r.push(s);
        r
    }
}

/// Summary of a stream's state.
#[derive(Debug, Clone)]
pub struct StreamInfo {
    /// Number of messages.
    pub messages: u64,
    /// Number of bytes.
    pub bytes: u64,
    /// Sequence number of the first message.
    pub first_sequence: u64,
    /// Sequence number of the last message.
    pub last_sequence: u64,
    /// Number of consumers.
    pub consumer_count: usize,
}

/// The settings a connection is made with.
#[derive(Debug, Clone)]
pub struct ConnectSettings {
    /// Connection timeout in seconds.
    pub connect_timeout_secs: u64,
    /// Request timeout in seconds.
    pub request_timeout_secs: u64,
    /// Authentication token, when one is set.
    pub token: Option<String>,
}

/// The connection the provider makes: with the configured connection and
/// request timeouts, and the configured token when there is one.
pub fn connect_settings(config: &NatsConfig) -> (s: ConnectSettings)
    ensures
        s.connect_timeout_secs == config.connect_timeout_secs,
        s.request_timeout_secs == config.request_timeout_secs,
        s.token == config.token,
{
    let token = match &config.token {
        Some(t) => Some(t.clone()),
        None => None,
    };
    ConnectSettings {
        connect_timeout_secs: config.connect_timeout_secs,
        request_timeout_secs: config.request_timeout_secs,
        token,
    }
}

/// The settings a stream is created with.
#[derive(Debug, Clone)]
pub struct StreamSettings {
    /// Stream name.
    pub name: String,
    /// Subjects the stream captures.
    pub subjects: Vec<String>,
    /// Where the stream keeps its data.
    pub storage: StorageType,
    /// Largest number of messages kept.
    pub max_messages: i64,
    /// Oldest message age kept, in seconds; 0 sets no age limit.
    pub max_age_secs: u64,
    /// Largest number of bytes kept.
    pub max_bytes: i64,
    /// When messages may be dropped.
    pub retention: Retention,
}

/// The settings a pull consumer is created with. An empty filter subject
/// stands for no filter.
#[derive(Debug, Clone)]
pub struct ConsumerSettings {
    /// The name of a durable consumer; `None` for an ephemeral one.
    pub durable_name: Option<String>,
    /// The subject filter; empty for none.
    pub filter_subject: String,
    /// How messages are acknowledged.
    pub ack: AckMode,
    /// Where delivery starts.
    pub deliver: DeliverFrom,
}

/// The stream the provider keeps: named by the configuration, capturing
/// every subject under the prefix, bounded by the configured limits, and
/// dropping messages only when a limit is reached.
pub fn stream_settings(config: &NatsConfig) -> (s: StreamSettings)
    ensures
        s.name == config.stream_name,
        s.subjects@.len() == 1,
        s.subjects@[0]@ == all_under(config.subject_prefix@),
        s.storage == config.storage,
        s.max_messages == config.max_events,
        s.max_age_secs == config.max_age_secs,
        s.max_bytes == config.max_bytes,
        s.retention == Retention::Limits,
{
    StreamSettings {
        name: config.stream_name.clone(),
        subjects: config.stream_subjects(),
        storage: config.storage,
        max_messages: config.max_events,
        max_age_secs: config.max_age_secs,
        max_bytes: config.max_bytes,
        retention: Retention::Limits,
    }
}

/// A durable consumer named `name` on `filter`, acknowledging each message.
pub fn durable_consumer_settings(name: &str, filter: &str) -> (s: ConsumerSettings)
    ensures
        s.durable_name matches Some(n) && n@ == name@,
        s.filter_subject@ == filter@,
        s.ack == AckMode::Explicit,
        s.deliver == DeliverFrom::All,
{
    ConsumerSettings {
        durable_name: Some(name.to_owned()),
        filter_subject: filter.to_owned(),
        ack: AckMode::Explicit,
        deliver: DeliverFrom::All,
    }
}

/// An unnamed consumer on `filter`, acknowledging each message.
pub fn ephemeral_consumer_settings(filter: &str) -> (s: ConsumerSettings)
    ensures
        s.durable_name is None,
        s.filter_subject@ == filter@,
        s.ack == AckMode::Explicit,
        s.deliver == DeliverFrom::All,
{
    ConsumerSettings {
        durable_name: None,
        filter_subject: filter.to_owned(),
        ack: AckMode::Explicit,
        deliver: DeliverFrom::All,
    }
}

/// The consumer that reads history: unnamed, without acknowledgements,
/// starting at the first stored message, on `filter` when one is given.
pub fn history_consumer_settings(filter: Option<&str>) -> (s: ConsumerSettings)
    ensures
        s.durable_name is None,
        s.filter_subject@ == match filter {
            Some(f) => f@,
            None => Seq::<char>::empty(),
        },
        s.ack == AckMode::NoAck,
        s.deliver == DeliverFrom::All,
{
    let filter_subject = match filter {
        Some(f) => f.to_owned(),
        None => String::new(),
    };
    ConsumerSettings { durable_name: None, filter_subject, ack: AckMode::NoAck, deliver: DeliverFrom::All }
}

/// `head`, then `name`, then `': `, then `reason`.
fn quoted_reason(head: &str, name: &str, reason: &str) -> (s: String)
    ensures
        s@ == head@ + name@ + "': "@ + reason@,
{
    let mut s = head.to_owned();
    s.append(name);
    s.append("': ");
    s.append(reason);
    s
}

/// `head` followed by `reason`.
fn with_reason(head: &str, reason: &str) -> (s: String)
    ensures
        s@ == head@ + reason@,
{
    let mut s = head.to_owned();
    s.append(reason);
    s
}

/// The error for a failed connection to `url`.
pub fn connect_error(url: &str, reason: &str) -> (e: EventError)
    ensures
        e matches EventError::Connection(m) && m@ == url@ + ": "@ + reason@,
{
    let mut m = url.to_owned();
    m.append(": ");
    m.append(reason);
    EventError::Connection(m)
}

/// The error for a publish to `subject` that the server refused.
pub fn publish_error(subject: &str, reason: &str) -> (e: EventError)
    ensures
        e matches EventError::Publish { subject: s, reason: r } && s@ == subject@ && r@ == reason@,
{
    EventError::Publish { subject: subject.to_owned(), reason: reason.to_owned() }
}

/// The error for a publish to `subject` whose acknowledgement failed.
pub fn ack_error(subject: &str, reason: &str) -> (e: EventError)
    ensures
        e matches EventError::Publish { subject: s, reason: r } && s@ == subject@ && r@
            == "ack failed: "@ + reason@,
{
    EventError::Publish { subject: subject.to_owned(), reason: with_reason("ack failed: ", reason) }
}

/// The error for a durable consumer `name` that could not be created.
pub fn durable_consumer_error(name: &str, reason: &str) -> (e: EventError)
    ensures
        e matches EventError::Consumer(m) && m@ == "Failed to create durable consumer '"@ + name@
            + "': "@ + reason@,
{
    EventError::Consumer(quoted_reason("Failed to create durable consumer '", name, reason))
}

/// The error for an ephemeral consumer that could not be created.
pub fn ephemeral_consumer_error(reason: &str) -> (e: EventError)
    ensures
        e matches EventError::Consumer(m) && m@ == "Failed to create ephemeral consumer: "@
            + reason@,
{
    EventError::Consumer(with_reason("Failed to create ephemeral consumer: ", reason))
}

/// The error for a subscription to `subject` whose message stream could
/// not be opened.
pub fn subscribe_error(subject: &str, reason: &str) -> (e: EventError)
    ensures
        e matches EventError::Subscribe { subject: s, reason: r } && s@ == subject@ && r@
            == reason@,
{
    EventError::Subscribe { subject: subject.to_owned(), reason: reason.to_owned() }
}

/// The error for a history consumer that could not be created.
pub fn history_consumer_error(reason: &str) -> (e: EventError)
    ensures
        e matches EventError::Consumer(m) && m@ == "Failed to create history consumer: "@
            + reason@,
{
    EventError::Consumer(with_reason("Failed to create history consumer: ", reason))
}

/// The error for a history fetch that failed.
pub fn fetch_error(reason: &str) -> (e: EventError)
    ensures
        e matches EventError::JetStream(m) && m@ == "Failed to fetch history: "@ + reason@,
{
    EventError::JetStream(with_reason("Failed to fetch history: ", reason))
}

/// The error for a consumer `name` that could not be deleted.
pub fn delete_consumer_error(name: &str, reason: &str) -> (e: EventError)
    ensures
        e matches EventError::Consumer(m) && m@ == "Failed to delete consumer '"@ + name@
            + "': "@ + reason@,
{
    EventError::Consumer(quoted_reason("Failed to delete consumer '", name, reason))
}

/// The error for stream information that could not be read.
pub fn stream_info_error(reason: &str) -> (e: EventError)
    ensures
        e matches EventError::Stream(m) && m@ == "Failed to get stream info: "@ + reason@,
{
    EventError::Stream(with_reason("Failed to get stream info: ", reason))
}

/// The error for a stream `name` that could not be created or fetched.
pub fn stream_setup_error(name: &str, reason: &str) -> (e: EventError)
    ensures
        e matches EventError::Stream(m) && m@ == "Failed to create/get stream '"@ + name@
            + "': "@ + reason@,
{
    EventError::Stream(quoted_reason("Failed to create/get stream '", name, reason))
}

/// One item of a history fetch, as the caller received it.
pub enum FetchOutcome {
    /// A message whose payload decoded to an event.
    Decoded(Event),
    /// A message whose payload is not an event.
    Undecodable,
    /// The fetch reported an error.
    Failed,
}

/// The events collected after one fetched item, and whether to go on
/// fetching: a decoded event is appended; collecting stops once `limit`
/// events are held, or at the first error.
pub open spec fn history_after(events: Seq<Event>, limit: usize, item: FetchOutcome) -> (
    Seq<Event>,
    bool,
) {
    match item {
        FetchOutcome::Decoded(e) => (events.push(e), events.len() + 1 < limit),
        FetchOutcome::Undecodable => (events, events.len() < limit),
        FetchOutcome::Failed => (events, false),
    }
}

/// Takes one fetched item into `events` and tells whether to fetch more.
pub fn collect_history_item(events: &mut Vec<Event>, limit: usize, item: FetchOutcome) -> (more: bool)
    ensures
        (final(events)@, more) == history_after(old(events)@, limit, item),
{
    match item {
        FetchOutcome::Decoded(e) => {
            events.push(e);
            events.len() < limit
        },
        FetchOutcome::Undecodable => events.len() < limit,
        FetchOutcome::Failed => false,
    }
}

/// Collecting history never loses or reorders what was collected, and
/// while fewer than `limit` events are held, one more item leaves at most
/// `limit`; a step that reaches `limit` stops the fetch.
pub proof fn law_history_bounded_by_limit(events: Seq<Event>, limit: usize, item: FetchOutcome)
    requires
        events.len() < limit,
    ensures
        history_after(events, limit, item).0.len() <= limit,
        history_after(events, limit, item).0.subrange(0, events.len() as int) == events,
        history_after(events, limit, item).0.len() == limit ==> !history_after(
            events,
            limit,
            item,
        ).1,
{
    let after = history_after(events, limit, item).0;
    assert(after.subrange(0, events.len() as int) =~= events);
}

/// The events collected from `items`, fed one at a time after `events`
/// until a step says to stop or the items run out.
pub open spec fn history_run(events: Seq<Event>, limit: usize, items: Seq<FetchOutcome>) -> Seq<
    Event,
>
    decreases items.len(),
{
    if items.len() == 0 {
        events
    } else {
        let (next, more) = history_after(events, limit, items[0]);
        if more {
            history_run(next, limit, items.drop_first())
        } else {
            next
        }
    }
}

/// A whole history fetch with a positive `limit` returns at most `limit`
/// events, and keeps the events it started with in front, in order.
pub proof fn law_history_run_within_limit(events: Seq<Event>, limit: usize, items: Seq<FetchOutcome>)
    requires
        events.len() < limit,
    ensures
        history_run(events, limit, items).len() <= limit,
        history_run(events, limit, items).len() >= events.len(),
        history_run(events, limit, items).subrange(0, events.len() as int) == events,
    decreases items.len(),
{
    if items.len() > 0 {
        let (next, more) = history_after(events, limit, items[0]);
        law_history_bounded_by_limit(events, limit, items[0]);
        if more {
            law_history_run_within_limit(next, limit, items.drop_first());
            let run = history_run(next, limit, items.drop_first());
            assert(run.subrange(0, events.len() as int) =~= run.subrange(0, next.len() as int).subrange(
                0,
                events.len() as int,
            ));
        }
    }
}

/// What one fetched item does to a history fetch: a fetch error ends it and
/// adds nothing; an undecodable payload adds nothing; a decoded event is
/// appended; and the fetch goes on, after a decoded or undecodable item,
/// exactly while fewer than `limit` events are held.
pub proof fn law_history_item_effects(events: Seq<Event>, limit: usize, e: Event)
    ensures
        history_after(events, limit, FetchOutcome::Failed) == (events, false),
        history_after(events, limit, FetchOutcome::Undecodable) == (events, events.len() < limit),
        history_after(events, limit, FetchOutcome::Decoded(e)) == (
            events.push(e),
            events.len() + 1 < limit,
        ),
{
}

/// A fetch error ends a history fetch at once: nothing fetched after it is
/// collected.
pub proof fn law_fetch_error_ends_history(
    events: Seq<Event>,
    limit: usize,
    rest: Seq<FetchOutcome>,
)
    ensures
        history_run(events, limit, seq![FetchOutcome::Failed] + rest) == events,
{
    let items = seq![FetchOutcome::Failed] + rest;
    assert(items[0] == FetchOutcome::Failed);
}

} // verus!

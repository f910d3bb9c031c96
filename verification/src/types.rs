//! Core event types.
use vstd::prelude::*;
use crate::clock::now_millis;
use crate::error::{EventError, Result};
use crate::ids::{fresh_uuid_v4_text, is_v4_uuid_text};
use crate::strmap::StrMap;

verus! {

/// A single event. Events are published to subjects that follow the
/// dot-separated convention `events.<category>.<topic>`.
#[derive(Debug, Clone)]
pub struct Event {
    /// Unique identifier: `evt-` followed by a random UUID.
    pub id: String,
    /// Subject the event was published to.
    pub subject: String,
    /// Top-level category for grouping (such as `market` or `system`).
    pub category: String,
    /// Arbitrary JSON data.
    pub payload: serde_json::Value,
    /// Human-readable summary.
    pub summary: String,
    /// System or service that produced the event.
    pub source: String,
    /// Unix timestamp in milliseconds.
    pub timestamp: u64,
    /// Key-value metadata.
    pub metadata: StrMap<String>,
}

/// The text every event id starts with.
pub open spec fn event_id_prefix() -> Seq<char> {
    seq!['e', 'v', 't', '-']
}

/// An event id: the prefix `evt-` followed by a random UUID's text.
pub open spec fn is_event_id(id: Seq<char>) -> bool {
    &&& id.len() == event_id_prefix().len() + 36
    &&& id.subrange(0, 4) == event_id_prefix()
    &&& is_v4_uuid_text(id.subrange(4, id.len() as int))
}

impl Event {
    /// A new event with a fresh id, the current time (0 for a clock reading
    /// before the Unix epoch) and no metadata; it fails when the random
    /// source cannot be read.
    pub fn new(
        subject: &str,
        category: &str,
        summary: &str,
        source: &str,
        payload: serde_json::Value,
    ) -> (r: Result<Self>)
        ensures
            match r {
                Ok(e) => {
                    &&& is_event_id(e.id@)
                    &&& e.subject@ == subject@
                    &&& e.category@ == category@
                    &&& e.summary@ == summary@
                    &&& e.source@ == source@
                    &&& e.payload == payload
                    &&& e.metadata@ == Map::<Seq<char>, String>::empty()
                },
                Err(e) => e is RandomSourceUnavailable,
            },
    {
        let uuid = match fresh_uuid_v4_text() {
            Some(u) => u,
            None => return Err(EventError::RandomSourceUnavailable),
        };
        let prefix = "evt-";
        proof {
            reveal_strlit("evt-");
        }
        let mut id = prefix.to_owned();
        id.append(uuid.as_str());
        proof {
            assert(id@.subrange(0, 4) =~= event_id_prefix());
            assert(id@.subrange(4, id@.len() as int) =~= uuid@);
        }
        Ok(Event {
            id,
            subject: subject.to_owned(),
            category: category.to_owned(),
            payload,
            summary: summary.to_owned(),
            source: source.to_owned(),
            timestamp: now_millis(),
            metadata: StrMap::new(),
        })
    }

    /// The same event with `key` set to `value` in its metadata, replacing
    /// an earlier value of `key`.
    pub fn with_metadata(self, key: &str, value: &str) -> (e: Self)
        ensures
            e.metadata@.dom() == self.metadata@.dom().insert(key@),
            e.metadata@[key@]@ == value@,
            forall|k: Seq<char>|
                k != key@ && #[trigger] self.metadata@.contains_key(k) ==> e.metadata@[k]
                    == self.metadata@[k],
            e.id == self.id,
            e.subject == self.subject,
            e.category == self.category,
            e.payload == self.payload,
            e.summary == self.summary,
            e.source == self.source,
            e.timestamp == self.timestamp,
    {
        let mut e = self;
        e.metadata.insert(key.to_owned(), value.to_owned());
        proof {
            assert(e.metadata@.dom() =~= self.metadata@.dom().insert(key@));
        }
        e
    }
}

/// An event as delivered, with its delivery context.
#[derive(Debug, Clone)]
pub struct ReceivedEvent {
    /// The event data.
    pub event: Event,
    /// Provider-assigned sequence number.
    pub sequence: u64,
    /// Number of delivery attempts.
    pub num_delivered: u64,
    /// Stream or topic name.
    pub stream: String,
}

/// Which subjects a subscriber wants.
#[derive(Debug, Clone)]
pub struct SubscriptionFilter {
    /// Subscriber identifier (such as a persona id).
    pub subscriber_id: String,
    /// Subject filter patterns (such as `events.market.>`).
    pub subjects: Vec<String>,
    /// Whether the subscription survives reconnects.
    pub durable: bool,
}

/// Event counts grouped by category.
#[derive(Debug, Clone)]
pub struct EventCounts {
    /// Count per category.
    pub categories: StrMap<u64>,
    /// Total event count.
    pub total: u64,
}

impl Default for EventCounts {
    /// No categories and a total of zero.
    fn default() -> (c: Self)
        ensures
            c.categories@ == Map::<Seq<char>, u64>::empty(),
            c.total == 0,
    {
        EventCounts { categories: StrMap::new(), total: 0 }
    }
}

} // verus!

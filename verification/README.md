# a3s_event

Event types and cross-session messaging with verified routing, checked with Verus.

- `src/pattern.rs` — dot-separated subject patterns and glob-style matching, with its laws.
- `src/strmap.rs` — string-keyed map used for event metadata and counts.
- `src/types.rs` — `Event`, `ReceivedEvent`, `SubscriptionFilter`, `EventCounts`.
- `src/messaging.rs` — `Message`, the in-memory broker and its routing laws.
- `src/nats.rs` — NATS JetStream settings, error texts and history collection.
- `src/clock.rs`, `src/ids.rs`, `src/json.rs`, `src/channel.rs` — the clock, UUIDs, JSON payloads and channels.
- `app/` — async ports, serde wire formats and the NATS client that performs the network calls.

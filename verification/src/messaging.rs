//! Cross-session messaging: message envelopes and an in-process broker that
//! routes each message to the subscribers whose filter its subject matches.
use vstd::prelude::*;
use crate::channel::{deliver, open_channel, same_channel, sent};
use crate::clock::clock_reading;
use crate::error::{EventError, Result};
use crate::ids::{fresh_uuid_v4_text, is_v4_uuid_text};
use crate::pattern::{
    chars_of, is_concrete, is_wildcard, law_concrete_pattern_matches_only_itself,
    lemma_concrete_is_not_wildcard, matches_pattern, pattern_matches,
};

verus! {

/// Message envelope for cross-session communication.
#[derive(Debug)]
pub struct Message {
    /// Unique message identifier.
    pub id: String,
    /// Source session id.
    pub source_id: String,
    /// Target session id, or `None` for a broadcast.
    pub target_id: Option<String>,
    /// Message type or category.
    pub msg_type: String,
    /// Message payload.
    pub payload: serde_json::Value,
    /// Timestamp in Unix milliseconds.
    pub timestamp: u64,
}

impl Clone for Message {
    /// A copy equal to the message in every field.
    fn clone(&self) -> (m: Self)
        ensures
            m == *self,
    {
        let target_id = match &self.target_id {
            Some(t) => Some(t.clone()),
            None => None,
        };
        Message {
            id: self.id.clone(),
            source_id: self.source_id.clone(),
            target_id,
            msg_type: self.msg_type.clone(),
            payload: self.payload.clone(),
            timestamp: self.timestamp,
        }
    }
}

/// The text that opens the subject of a session: `session.`.
pub open spec fn session_prefix() -> Seq<char> {
    seq!['s', 'e', 's', 's', 'i', 'o', 'n', '.']
}

/// A target already written as a session subject.
pub open spec fn is_session_subject(t: Seq<char>) -> bool {
    t.len() >= 8 && t.subrange(0, 8) == session_prefix()
}

/// The subject a message is routed under: `*` for a broadcast, and
/// `session.<id>` for a message to session `id` (a target already written
/// as `session.<id>` is that subject itself).
pub open spec fn routed_subject(target: Option<Seq<char>>) -> Seq<char> {
    match target {
        None => seq!['*'],
        Some(t) => if is_session_subject(t) {
            t
        } else {
            session_prefix() + t
        },
    }
}

/// The text of an optional target.
pub open spec fn target_view(target: Option<String>) -> Option<Seq<char>> {
    match target {
        Some(t) => Some(t@),
        None => None,
    }
}

fn has_session_prefix(t: &Vec<char>) -> (r: bool)
    ensures
        r == is_session_subject(t@),
{
    let p = chars_of("session.");
    proof {
        reveal_strlit("session.");
        assert(p@ =~= session_prefix());
    }
    if t.len() < 8 {
        return false;
    }
    for i in 0..8
        invariant
            p@ == session_prefix(),
            t@.len() >= 8,
            forall|j: int| 0 <= j < i ==> t@[j] == p@[j],
    {
        if t[i] != p[i] {
            return false;
        }
    }
    assert(t@.subrange(0, 8) =~= session_prefix());
    true
}

/// The subject under which a message with this target is routed.
pub fn route_subject(target: &Option<String>) -> (s: String)
    ensures
        s@ == routed_subject(target_view(*target)),
{
    match target {
        None => {
            proof {
                reveal_strlit("*");
            }
            "*".to_owned()
        },
        Some(t) => {
            let chars = chars_of(t.as_str());
            if has_session_prefix(&chars) {
                t.clone()
            } else {
                proof {
                    reveal_strlit("session.");
                }
                let mut s = "session.".to_owned();
                s.append(t.as_str());
                s
            }
        },
    }
}

/// A message just made by `new` or `broadcast` from these parts: a fresh
/// random id, no target, and the given source, type and payload.
pub open spec fn is_fresh_message(
    m: Message,
    source_id: String,
    msg_type: String,
    payload: serde_json::Value,
) -> bool {
    &&& is_v4_uuid_text(m.id@)
    &&& m.source_id == source_id
    &&& m.target_id is None
    &&& m.msg_type == msg_type
    &&& m.payload == payload
}

/// The errors a fresh message may fail with.
pub open spec fn is_fresh_message_error(e: EventError) -> bool {
    e is RandomSourceUnavailable || e is ClockBeforeEpoch
}

impl Message {
    /// A fresh broadcast message stamped with the current time: it fails
    /// when the random source cannot be read, and when the clock reads a
    /// time before the Unix epoch.
    fn fresh(source_id: String, msg_type: String, payload: serde_json::Value) -> (r: Result<Self>)
        ensures
            match r {
                Ok(m) => is_fresh_message(m, source_id, msg_type, payload),
                Err(e) => is_fresh_message_error(e),
            },
    {
        let id = match fresh_uuid_v4_text() {
            Some(id) => id,
            None => return Err(EventError::RandomSourceUnavailable),
        };
        let timestamp = match clock_reading() {
            Some(ms) => ms as u64,
            None => return Err(EventError::ClockBeforeEpoch),
        };
        Ok(Message { id, source_id, target_id: None, msg_type, payload, timestamp })
    }

    /// A new broadcast message with a fresh id and the current time.
    pub fn new(source_id: String, msg_type: String, payload: serde_json::Value) -> (r: Result<Self>)
        ensures
            match r {
                Ok(m) => is_fresh_message(m, source_id, msg_type, payload),
                Err(e) => is_fresh_message_error(e),
            },
    {
        Message::fresh(source_id, msg_type, payload)
    }

    /// The same message addressed to session `target_id`.
    pub fn to_session(self, target_id: String) -> (m: Self)
        ensures
            m == (Message { target_id: Some(target_id), ..self }),
    {
        let mut m = self;
        m.target_id = Some(target_id);
        m
    }

    /// A new message without a target, for every subscriber.
    pub fn broadcast(source_id: String, msg_type: String, payload: serde_json::Value) -> (r: Result<
        Self,
    >)
        ensures
            match r {
                Ok(m) => is_fresh_message(m, source_id, msg_type, payload),
                Err(e) => is_fresh_message_error(e),
            },
    {
        Message::fresh(source_id, msg_type, payload)
    }
}

/// One subscription of the broker: its filter and the channel it feeds.
struct Subscriber {
    filter: String,
    sender: flume::Sender<Message>,
}

/// In-memory message broker for a single process.
pub struct InMemoryMessaging {
    subscribers: Vec<Subscriber>,
}

/// The stream of messages of one subscription.
pub struct InMemoryStream {
    receiver: flume::Receiver<Message>,
}

/// Whether a message routed under `subject` goes to a subscription with
/// `filter`: the subject, read as a pattern, matches the filter, or the
/// filter, read as a subject pattern, matches the subject.
pub open spec fn delivers_to(subject: Seq<char>, filter: Seq<char>) -> bool {
    pattern_matches(subject, filter) || pattern_matches(filter, subject)
}

/// Exactly the indices `i`, in increasing order, of the filters that a
/// message routed under `subject` goes to.
pub open spec fn is_match_list(r: Seq<usize>, filters: Seq<Seq<char>>, subject: Seq<char>) -> bool {
    &&& forall|j: int|
        0 <= j < r.len() ==> #[trigger] r[j] < filters.len() && delivers_to(
            subject,
            filters[r[j] as int],
        )
    &&& forall|j: int, k: int| 0 <= j < k < r.len() ==> r[j] < r[k]
    &&& forall|i: int|
        0 <= i < filters.len() && delivers_to(subject, #[trigger] filters[i]) ==> r.contains(
            i as usize,
        )
}

/// The delivery log after sending `msg`: one copy of `msg` appended for each
/// subscription whose filter the message goes to, and nothing for the
/// others.
pub open spec fn after_send(log: Seq<Seq<Message>>, filters: Seq<Seq<char>>, msg: Message) -> Seq<
    Seq<Message>,
> {
    Seq::new(
        log.len(),
        |i: int|
            if delivers_to(routed_subject(target_view(msg.target_id)), filters[i]) {
                log[i].push(msg)
            } else {
                log[i]
            },
    )
}

/// The delivery log after sending each of `msgs` in order.
pub open spec fn after_sends(
    log: Seq<Seq<Message>>,
    filters: Seq<Seq<char>>,
    msgs: Seq<Message>,
) -> Seq<Seq<Message>>
    decreases msgs.len(),
{
    if msgs.len() == 0 {
        log
    } else {
        after_send(after_sends(log, filters, msgs.drop_last()), filters, msgs.last())
    }
}

/// The messages among `msgs`, in order, that go to a subscription with
/// `filter`.
pub open spec fn matching_messages(filter: Seq<char>, msgs: Seq<Message>) -> Seq<Message>
    decreases msgs.len(),
{
    if msgs.len() == 0 {
        Seq::<Message>::empty()
    } else {
        let prev = matching_messages(filter, msgs.drop_last());
        if delivers_to(routed_subject(target_view(msgs.last().target_id)), filter) {
            prev.push(msgs.last())
        } else {
            prev
        }
    }
}

impl InMemoryMessaging {
    /// The filters of the subscriptions, oldest first.
    pub closed spec fn filters(&self) -> Seq<Seq<char>> {
        self.subscribers@.map_values(|s: Subscriber| s.filter@)
    }

    /// For each subscription, oldest first, the messages sent into its
    /// channel, oldest first.
    pub closed spec fn delivered(&self) -> Seq<Seq<Message>> {
        self.subscribers@.map_values(|s: Subscriber| sent(s.sender))
    }

    /// Whether `stream` receives from the channel of subscription `i`.
    pub closed spec fn feeds(&self, i: int, stream: InMemoryStream) -> bool {
        0 <= i < self.subscribers@.len() && same_channel(
            self.subscribers@[i].sender,
            stream.receiver,
        )
    }

    /// There is one delivery log per subscription.
    pub proof fn lemma_one_log_per_subscription(&self)
        ensures
            self.delivered().len() == self.filters().len(),
    {
    }

    /// There are no more subscriptions than a `usize` counts.
    pub proof fn lemma_filters_len(&self)
        ensures
            self.filters().len() <= usize::MAX,
    {
        assert(self.subscribers.len() == self.subscribers@.len());
    }

    /// A broker without subscriptions.
    pub fn new() -> (m: Self)
        ensures
            m.filters() == Seq::<Seq<char>>::empty(),
            m.delivered() == Seq::<Seq<Message>>::empty(),
    {
        let m = InMemoryMessaging { subscribers: Vec::new() };
        assert(m.filters() =~= Seq::<Seq<char>>::empty());
        assert(m.delivered() =~= Seq::<Seq<Message>>::empty());
        m
    }

    /// Adds a subscription with `filter`, whose channel nothing has been sent
    /// into yet, and returns the stream that receives from that channel.
    pub fn subscribe(&mut self, filter: &str) -> (stream: InMemoryStream)
        ensures
            final(self).filters() == old(self).filters().push(filter@),
            final(self).delivered() == old(self).delivered().push(Seq::<Message>::empty()),
            final(self).feeds(old(self).filters().len() as int, stream),
            forall|i: int, s: InMemoryStream| #[trigger]
                old(self).feeds(i, s) ==> final(self).feeds(i, s),
    {
        let (tx, rx) = open_channel();
        self.subscribers.push(Subscriber { filter: filter.to_owned(), sender: tx });
        assert(self.filters() =~= old(self).filters().push(filter@));
        assert(self.delivered() =~= old(self).delivered().push(Seq::<Message>::empty()));
        let stream = InMemoryStream { receiver: rx };
        assert forall|i: int, s: InMemoryStream| #[trigger] old(self).feeds(i, s) implies self.feeds(
            i,
            s,
        ) by {
            assert(self.subscribers@[i] == old(self).subscribers@[i]);
        }
        stream
    }

    /// The subscriptions, by index, that `msg` is delivered to: those whose
    /// filter and the message's routed subject match, read either way.
    pub fn recipients(&self, msg: &Message) -> (r: Vec<usize>)
        ensures
            is_match_list(r@, self.filters(), routed_subject(target_view(msg.target_id))),
    {
        let subject = route_subject(&msg.target_id);
        let ghost filters = self.filters();
        let mut r: Vec<usize> = Vec::new();
        let n = self.subscribers.len();
        for i in 0..n
            invariant
                n == self.subscribers@.len(),
                filters == self.filters(),
                forall|j: int|
                    0 <= j < r@.len() ==> #[trigger] r@[j] < i && delivers_to(
                        subject@,
                        filters[r@[j] as int],
                    ),
                forall|j: int, k: int| 0 <= j < k < r@.len() ==> r@[j] < r@[k],
                forall|q: int|
                    0 <= q < i && delivers_to(subject@, #[trigger] filters[q]) ==> r@.contains(
                        q as usize,
                    ),
        {
            let ghost before = r@;
            let filter = self.subscribers[i].filter.as_str();
            if matches_pattern(subject.as_str(), filter) || matches_pattern(filter, subject.as_str()) {
                r.push(i);
                proof {
                    assert forall|q: int|
                        0 <= q < i + 1 && delivers_to(
                            subject@,
                            #[trigger] filters[q],
                        ) implies r@.contains(q as usize) by {
                        if q < i {
                            let w = choose|w: int| 0 <= w < before.len() && before[w] == q as usize;
                            assert(r@[w] == q as usize);
                        } else {
                            assert(r@[r@.len() - 1] == q as usize);
                        }
                    }
                }
            }
        }
        r
    }

    /// Sends one copy of `msg` into the channel of every subscription in
    /// `recipients(msg)`, and none into the others.
    pub fn send(&mut self, msg: &Message) -> (r: Result<()>)
        ensures
            r is Ok,
            final(self).filters() == old(self).filters(),
            final(self).delivered() == after_send(old(self).delivered(), old(self).filters(), *msg),
            forall|i: int, s: InMemoryStream| #[trigger]
                old(self).feeds(i, s) ==> final(self).feeds(i, s),
    {
        let ghost start = self.delivered();
        let ghost filters = self.filters();
        let ghost subs = self.subscribers@;
        let targets = self.recipients(msg);
        let n = targets.len();
        let ghost subject = routed_subject(target_view(msg.target_id));
        for j in 0..n
            invariant
                n == targets@.len(),
                is_match_list(targets@, filters, subject),
                self.filters() == filters,
                self.subscribers@.len() == subs.len(),
                filters == subs.map_values(|s: Subscriber| s.filter@),
                start == subs.map_values(|s: Subscriber| sent(s.sender)),
                forall|q: int|
                    0 <= q < subs.len() ==> (#[trigger] self.subscribers@[q]).filter
                        == subs[q].filter,
                forall|q: int, rx: flume::Receiver<Message>|
                    0 <= q < subs.len() && same_channel(subs[q].sender, rx) ==> #[trigger]
                    same_channel(self.subscribers@[q].sender, rx),
                forall|q: int|
                    0 <= q < subs.len() ==> #[trigger] sent(self.subscribers@[q].sender) == if exists|
                        k: int,
                    | 0 <= k < j && targets@[k] as int == q {
                        start[q].push(*msg)
                    } else {
                        start[q]
                    },
        {
            let i = targets[j];
            let copy = msg.clone();
            let ghost before = self.subscribers@;
            deliver(&mut self.subscribers[i].sender, copy);
            proof {
                assert forall|k: int| 0 <= k < j implies targets@[k] != i by {
                    assert(targets@[k] < targets@[j as int]);
                }
                assert forall|q: int|
                    0 <= q < subs.len() && q != i as int implies #[trigger] self.subscribers@[q]
                    == before[q] by {}
                assert forall|q: int| 0 <= q < subs.len() implies #[trigger] sent(
                    self.subscribers@[q].sender,
                ) == if exists|k: int| 0 <= k < j + 1 && targets@[k] as int == q {
                    start[q].push(*msg)
                } else {
                    start[q]
                } by {
                    if q == i as int {
                        assert(targets@[j as int] == q as usize);
                    } else {
                        assert(self.subscribers@[q] == before[q]);
                        if exists|k: int| 0 <= k < j + 1 && targets@[k] as int == q {
                            let k = choose|k: int| 0 <= k < j + 1 && targets@[k] as int == q;
                            assert(k < j);
                        }
                    }
                }
                assert(self.filters() =~= filters);
            }
        }
        proof {
            self.lemma_filters_len();
            assert forall|q: int| 0 <= q < filters.len() implies #[trigger] self.delivered()[q]
                == after_send(start, filters, *msg)[q] by {
                if delivers_to(subject, filters[q]) {
                    assert(targets@.contains(q as usize));
                    let k = choose|k: int| 0 <= k < targets@.len() && targets@[k] as int == q;
                    assert(0 <= k < n && targets@[k] as int == q);
                } else {
                    if exists|k: int| 0 <= k < n && targets@[k] as int == q {
                        let k = choose|k: int| 0 <= k < n && targets@[k] as int == q;
                        assert(delivers_to(subject, filters[targets@[k] as int]));
                    }
                }
            }
            assert(self.delivered() =~= after_send(start, filters, *msg));
        }
        Ok(())
    }

    /// Whether the broker can deliver messages: always.
    pub fn is_connected(&self) -> (r: bool)
        ensures
            r,
    {
        true
    }

    /// The transport's name.
    pub fn name(&self) -> (r: &'static str)
        ensures
            r@ == "in-memory"@,
    {
        "in-memory"
    }
}

impl Default for InMemoryMessaging {
    /// A broker without subscriptions.
    fn default() -> (m: Self)
        ensures
            m.filters() == Seq::<Seq<char>>::empty(),
    {
        InMemoryMessaging::new()
    }
}

/// How a wait for the next message of a stream ended.
pub enum WaitOutcome {
    /// A message arrived.
    Received(Message),
    /// Every sending end is gone.
    Closed,
    /// The time allowed ran out.
    TimedOut,
}

/// The message a wait yields: the one that arrived, and none when the
/// channel closed or the time ran out.
pub fn settle_wait(outcome: WaitOutcome) -> (r: Option<Message>)
    ensures
        r == match outcome {
            WaitOutcome::Received(m) => Some(m),
            WaitOutcome::Closed => None::<Message>,
            WaitOutcome::TimedOut => None::<Message>,
        },
{
    match outcome {
        WaitOutcome::Received(m) => Some(m),
        WaitOutcome::Closed => None,
        WaitOutcome::TimedOut => None,
    }
}

impl InMemoryStream {
    /// The receiving end of the channel that feeds this stream.
    pub closed spec fn receiving_end(&self) -> flume::Receiver<Message> {
        self.receiver
    }

    /// The receiving end of the subscription's channel.
    pub fn receiver(&self) -> (r: &flume::Receiver<Message>)
        ensures
            *r == self.receiving_end(),
    {
        &self.receiver
    }
}

proof fn lemma_increasing_at_least_index(r: Seq<usize>, j: int)
    requires
        forall|a: int, b: int| 0 <= a < b < r.len() ==> r[a] < r[b],
        0 <= j < r.len(),
    ensures
        r[j] >= j,
    decreases j,
{
    if j > 0 {
        lemma_increasing_at_least_index(r, j - 1);
    }
}

proof fn lemma_position_of_value(r: Seq<usize>, n: int, v: int) -> (w: int)
    requires
        forall|a: int, b: int| 0 <= a < b < r.len() ==> r[a] < r[b],
        forall|i: usize| (i as int) < n ==> #[trigger] r.contains(i),
        n <= usize::MAX + 1,
        0 <= v < n,
    ensures
        0 <= w < r.len(),
        r[w] == v as usize,
        w >= v,
    decreases v,
{
    assert(r.contains(v as usize));
    let w = choose|w: int| 0 <= w < r.len() && r[w] == v as usize;
    if v > 0 {
        let w2 = lemma_position_of_value(r, n, v - 1);
        if w < w2 {
            assert(r[w] < r[w2]);
        }
        assert(w != w2);
    }
    w
}

/// A broadcast reaches every subscription, once each, oldest first.
pub proof fn law_broadcast_reaches_every_subscription(
    m: InMemoryMessaging,
    msg: Message,
    r: Seq<usize>,
)
    requires
        msg.target_id is None,
        is_match_list(r, m.filters(), routed_subject(target_view(msg.target_id))),
    ensures
        r == Seq::new(m.filters().len(), |i: int| i as usize),
{
    let n = m.filters().len() as int;
    m.lemma_filters_len();
    assert forall|i: usize| (i as int) < n implies #[trigger] r.contains(i) by {
        assert(pattern_matches(seq!['*'], m.filters()[i as int]));
    }
    assert forall|j: int| 0 <= j < n implies j < r.len() && #[trigger] r[j] == j as usize by {
        let w = lemma_position_of_value(r, n, j);
        lemma_increasing_at_least_index(r, w);
        assert(w == j);
    }
    if r.len() > n {
        lemma_increasing_at_least_index(r, n);
        assert(r[n] < n);
    }
    assert(r.len() == n) by {
        if n > 0 {
            assert(r[n - 1] == (n - 1) as usize);
        }
    }
    assert(r =~= Seq::new(m.filters().len(), |i: int| i as usize));
}

/// A subscription with the filter `*` receives every message.
pub proof fn law_catch_all_subscription_receives_everything(
    m: InMemoryMessaging,
    msg: Message,
    r: Seq<usize>,
    i: int,
)
    requires
        is_match_list(r, m.filters(), routed_subject(target_view(msg.target_id))),
        0 <= i < m.filters().len(),
        is_wildcard(m.filters()[i]),
    ensures
        r.contains(i as usize),
{
}

/// A subscription whose filter is a message's routed subject (for a message
/// to session `x`, the filter `session.x`) receives that message.
pub proof fn law_session_subscription_receives_its_messages(
    m: InMemoryMessaging,
    msg: Message,
    r: Seq<usize>,
    i: int,
)
    requires
        is_match_list(r, m.filters(), routed_subject(target_view(msg.target_id))),
        0 <= i < m.filters().len(),
        m.filters()[i] == routed_subject(target_view(msg.target_id)),
    ensures
        r.contains(i as usize),
{
}

/// A message to a session whose subject holds no `*` segment reaches no
/// subscription whose filter is another subject without `*` segments: only
/// its own session's subscriptions and those whose filter has a wildcard.
pub proof fn law_targeted_message_skips_other_sessions(
    m: InMemoryMessaging,
    msg: Message,
    r: Seq<usize>,
    i: int,
)
    requires
        is_match_list(r, m.filters(), routed_subject(target_view(msg.target_id))),
        msg.target_id is Some,
        is_concrete(routed_subject(target_view(msg.target_id))),
        0 <= i < m.filters().len(),
        is_concrete(m.filters()[i]),
        m.filters()[i] != routed_subject(target_view(msg.target_id)),
    ensures
        !r.contains(i as usize),
{
    let subject = routed_subject(target_view(msg.target_id));
    let filter = m.filters()[i];
    m.lemma_filters_len();
    lemma_concrete_is_not_wildcard(subject);
    lemma_concrete_is_not_wildcard(filter);
    law_concrete_pattern_matches_only_itself(subject, filter);
    law_concrete_pattern_matches_only_itself(filter, subject);
    if r.contains(i as usize) {
        let w = choose|w: int| 0 <= w < r.len() && r[w] == i as usize;
        assert(delivers_to(subject, m.filters()[r[w] as int]));
    }
}

/// A subscription whose filter, read as a subject pattern, matches a
/// message's routed subject receives that message: a `session.*`
/// subscription receives the messages to every session.
pub proof fn law_pattern_subscription_receives_matching_sessions(
    m: InMemoryMessaging,
    msg: Message,
    r: Seq<usize>,
    i: int,
)
    requires
        is_match_list(r, m.filters(), routed_subject(target_view(msg.target_id))),
        0 <= i < m.filters().len(),
        pattern_matches(m.filters()[i], routed_subject(target_view(msg.target_id))),
    ensures
        r.contains(i as usize),
{
}

/// After a sequence of sends, each subscription's log has gained exactly
/// the sent messages that go to it, in the order they were sent. A new
/// subscription starts with an empty log, so it receives exactly the
/// matching messages sent after it subscribed, in order.
pub proof fn law_subscription_receives_matching_messages_in_order(
    log: Seq<Seq<Message>>,
    filters: Seq<Seq<char>>,
    msgs: Seq<Message>,
    i: int,
)
    requires
        log.len() == filters.len(),
        0 <= i < filters.len(),
    ensures
        after_sends(log, filters, msgs).len() == log.len(),
        after_sends(log, filters, msgs)[i] == log[i] + matching_messages(filters[i], msgs),
    decreases msgs.len(),
{
    if msgs.len() == 0 {
        assert(log[i] + Seq::<Message>::empty() =~= log[i]);
    } else {
        law_subscription_receives_matching_messages_in_order(log, filters, msgs.drop_last(), i);
        let prev = matching_messages(filters[i], msgs.drop_last());
        assert((log[i] + prev).push(msgs.last()) =~= log[i] + prev.push(msgs.last()));
    }
}

/// `broadcast` and `new` make the same message from the same parts, but for
/// the random id and the timestamp.
pub proof fn law_broadcast_agrees_with_new(
    b: Message,
    n: Message,
    source_id: String,
    msg_type: String,
    payload: serde_json::Value,
)
    requires
        is_fresh_message(b, source_id, msg_type, payload),
        is_fresh_message(n, source_id, msg_type, payload),
    ensures
        b == (Message { id: b.id, timestamp: b.timestamp, ..n }),
{
}

/// Routing: a broadcast goes under `*`; a message to a target that does not
/// begin with the eight characters `session.` goes under `session.`
/// followed by the target; a target that already begins with them goes
/// under the target itself.
pub proof fn law_routing_subject(t: Seq<char>)
    ensures
        routed_subject(None) == seq!['*'],
        t.len() < 8 || t.subrange(0, 8) != seq!['s', 'e', 's', 's', 'i', 'o', 'n', '.']
            ==> routed_subject(Some(t)) == seq!['s', 'e', 's', 's', 'i', 'o', 'n', '.'] + t,
        t.len() >= 8 && t.subrange(0, 8) == seq!['s', 'e', 's', 's', 'i', 'o', 'n', '.']
            ==> routed_subject(Some(t)) == t,
{
}

/// The recipients of a message are exactly the subscriptions whose filter
/// and the message's routed subject match, read as a pattern one way or the
/// other; a filter that matches in neither direction, wildcard or not,
/// never receives it.
pub proof fn law_recipients_are_the_pattern_matches(
    m: InMemoryMessaging,
    msg: Message,
    r: Seq<usize>,
    i: int,
)
    requires
        is_match_list(r, m.filters(), routed_subject(target_view(msg.target_id))),
        0 <= i < m.filters().len(),
    ensures
        r.contains(i as usize) <==> (pattern_matches(
            routed_subject(target_view(msg.target_id)),
            m.filters()[i],
        ) || pattern_matches(m.filters()[i], routed_subject(target_view(msg.target_id)))),
{
    m.lemma_filters_len();
    if r.contains(i as usize) {
        let w = choose|w: int| 0 <= w < r.len() && r[w] == i as usize;
        assert(delivers_to(
            routed_subject(target_view(msg.target_id)),
            m.filters()[r[w] as int],
        ));
    }
}

/// Sending hands one copy of the message to exactly the subscriptions whose
/// filter and the routed subject match, read as a pattern one way or the
/// other, and leaves every other subscription's channel as it was.
pub proof fn law_send_reaches_exactly_the_matching_filters(
    log: Seq<Seq<Message>>,
    filters: Seq<Seq<char>>,
    msg: Message,
    i: int,
)
    requires
        log.len() == filters.len(),
        0 <= i < log.len(),
    ensures
        after_send(log, filters, msg).len() == log.len(),
        after_send(log, filters, msg)[i] == if pattern_matches(
            routed_subject(target_view(msg.target_id)),
            filters[i],
        ) || pattern_matches(filters[i], routed_subject(target_view(msg.target_id))) {
            log[i].push(msg)
        } else {
            log[i]
        },
{
}

} // verus!

//! The polling broker over an external chat relay.
//!
//! There is no persistent connection: the subscriber asks the relay for
//! unread items across a fixed set of topics, sleeps a fixed interval,
//! and repeats — emulating push delivery. The relay itself is a local
//! process the hosting layer talks to; this module decides everything:
//! the exact request payloads, which conversations and messages count,
//! which lifecycle events fire, and when the loop ends.

use vstd::prelude::*;

use crate::address::Address;
use crate::address::KeybaseAddress;
use crate::error::Error;
use crate::protocol::json_str;

verus! {

/// Topic on which counterparties post newly built payloads.
pub open spec fn topic_slate_new() -> Seq<char> {
    "grin_slate_new"@
}

/// Topic for signed replies to newly received payloads.
pub open spec fn topic_slate_signed() -> Seq<char> {
    "grin_slate_signed"@
}

/// The wallet's own default topic, for everything else.
pub open spec fn topic_wallet_slates() -> Seq<char> {
    "wallet713_grin_slate"@
}

/// Milliseconds slept between two polls.
pub const SLEEP_DURATION_MS: u64 = 5000;

/// The topic a reply to a message goes out on: what arrived as a new
/// payload is answered on the signed-reply topic, everything else on
/// the wallet's own topic — so the reply topic always differs from the
/// topic the message arrived on.
pub open spec fn reply_topic(topic: Seq<char>) -> Seq<char> {
    if topic == topic_slate_new() {
        topic_slate_signed()
    } else {
        topic_wallet_slates()
    }
}

/// The reply topic for a message that arrived on `topic`.
pub fn reply_topic_for(topic: &str) -> (r: String)
    ensures
        r@ == reply_topic(topic@),
{
    let new_topic = String::from_str("grin_slate_new");
    if topic_eq(topic, &new_topic) {
        String::from_str("grin_slate_signed")
    } else {
        String::from_str("wallet713_grin_slate")
    }
}

/// String comparison against a &str.
fn topic_eq(a: &str, b: &String) -> (r: bool)
    ensures
        r == (a@ == b@),
{
    let owned = a.to_owned();
    owned.eq(b)
}

// ---------------------------------------------------------------------
// Relay request payloads
// ---------------------------------------------------------------------

/// The relay query for all conversations of the wallet's topic type.
pub open spec fn list_payload() -> Seq<char> {
    "{\"method\":\"list\",\"params\":{\"options\":{\"topic_type\":\"dev\"}}}"@
}

/// Builds the conversation-list query.
pub fn build_list_payload() -> (r: String)
    ensures
        r@ == list_payload(),
{
    let mut out = String::new();
    out.append("{\"method\":\"list\",\"params\":{\"options\":{\"topic_type\":\"dev\"}}}");
    out
}

/// The relay query for the unread messages of one channel and topic.
pub open spec fn read_payload(channel: Seq<char>, topic: Seq<char>) -> Seq<char> {
    "{\"method\":\"read\",\"params\":{\"options\":{\"channel\":{\"name\":"@ + json_str(channel)
        + ",\"topic_type\":\"dev\",\"topic_name\":"@ + json_str(topic)
        + "},\"unread_only\":true,\"peek\":false}}}"@
}

/// Builds the unread-messages query for one channel and topic.
pub fn build_read_payload(channel: &str, topic: &str) -> (r: String)
    ensures
        r@ == read_payload(channel@, topic@),
{
    let mut out = String::new();
    out.append("{\"method\":\"read\",\"params\":{\"options\":{\"channel\":{\"name\":");
    crate::protocol::append_json_str(&mut out, channel);
    out.append(",\"topic_type\":\"dev\",\"topic_name\":");
    crate::protocol::append_json_str(&mut out, topic);
    out.append("},\"unread_only\":true,\"peek\":false}}}");
    proof {
        assert(out@ =~= read_payload(channel@, topic@));
    }
    out
}

/// The relay call that sends `body` to one channel and topic, with an
/// optional message-expiry lifetime.
pub open spec fn send_payload(
    body: Seq<char>,
    channel: Seq<char>,
    topic: Seq<char>,
    ttl: Option<Seq<char>>,
) -> Seq<char> {
    "{\"method\":\"send\",\"params\":{\"options\":{\"channel\":{\"name\":"@ + json_str(channel)
        + ",\"topic_name\":"@ + json_str(topic)
        + ",\"topic_type\":\"dev\"},\"message\":{\"body\":"@ + json_str(body) + "}"@ + (match ttl {
        Some(t) => ",\"exploding_lifetime\":"@ + json_str(t),
        None => Seq::<char>::empty(),
    }) + "}}}"@
}

/// Builds the send call for one message.
pub fn build_send_payload(body: &str, channel: &str, topic: &str, ttl: Option<&String>) -> (r:
    String)
    ensures
        r@ == send_payload(body@, channel@, topic@, match ttl {
            Some(t) => Some(t@),
            None => None,
        }),
{
    let mut out = String::new();
    out.append("{\"method\":\"send\",\"params\":{\"options\":{\"channel\":{\"name\":");
    crate::protocol::append_json_str(&mut out, channel);
    out.append(",\"topic_name\":");
    crate::protocol::append_json_str(&mut out, topic);
    out.append(",\"topic_type\":\"dev\"},\"message\":{\"body\":");
    crate::protocol::append_json_str(&mut out, body);
    out.append("}");
    match ttl {
        Some(t) => {
            out.append(",\"exploding_lifetime\":");
            crate::protocol::append_json_str(&mut out, t.as_str());
        },
        None => {},
    }
    out.append("}}}");
    proof {
        assert(out@ =~= send_payload(body@, channel@, topic@, match ttl {
            Some(t) => Some(t@),
            None => None,
        }));
    }
    out
}

/// The relay's acknowledgement of a successful send: `Ok` exactly when
/// the response carried the expected confirmation text, the send error
/// otherwise.
pub fn check_send_response(message: Option<&String>) -> (r: Result<(), Error>)
    ensures
        r is Ok <==> (message matches Some(m) && m@ == "message sent"@),
        r is Err ==> r == Err::<(), Error>(Error::KeybaseMessageSendError),
{
    match message {
        Some(m) => {
            let expected = String::from_str("message sent");
            if m.eq(&expected) {
                Ok(())
            } else {
                Err(Error::KeybaseMessageSendError)
            }
        },
        None => Err(Error::KeybaseMessageSendError),
    }
}

} // verus!

verus! {

// ---------------------------------------------------------------------
// Relay data and its filters
// ---------------------------------------------------------------------

/// One conversation in the relay's listing.
pub struct Conversation {
    pub channel: String,
    pub topic: String,
    pub unread: bool,
}

/// The mathematical content of a conversation entry.
pub struct ConversationView {
    pub channel: Seq<char>,
    pub topic: Seq<char>,
    pub unread: bool,
}

impl DeepView for Conversation {
    type V = ConversationView;

    open spec fn deep_view(&self) -> ConversationView {
        ConversationView { channel: self.channel@, topic: self.topic@, unread: self.unread }
    }
}

/// One raw message of a channel, as the relay reports it.
pub struct RelayMessage {
    pub sender: String,
    pub body: String,
    pub is_text: bool,
    pub unread: bool,
}

/// The mathematical content of a relay message.
pub struct RelayMessageView {
    pub sender: Seq<char>,
    pub body: Seq<char>,
    pub is_text: bool,
    pub unread: bool,
}

impl DeepView for RelayMessage {
    type V = RelayMessageView;

    open spec fn deep_view(&self) -> RelayMessageView {
        RelayMessageView {
            sender: self.sender@,
            body: self.body@,
            is_text: self.is_text,
            unread: self.unread,
        }
    }
}

/// One unread item ready for delivery: sender, the topic it arrived on,
/// and its body.
pub struct UnreadMessage {
    pub sender: String,
    pub topic: String,
    pub body: String,
}

/// The mathematical content of an unread item.
pub struct UnreadMessageView {
    pub sender: Seq<char>,
    pub topic: Seq<char>,
    pub body: Seq<char>,
}

impl DeepView for UnreadMessage {
    type V = UnreadMessageView;

    open spec fn deep_view(&self) -> UnreadMessageView {
        UnreadMessageView { sender: self.sender@, topic: self.topic@, body: self.body@ }
    }
}

/// Whether a raw relay message counts: a proper unread text message
/// from a named sender with a nonempty body.
pub open spec fn kept_message(m: RelayMessageView) -> bool {
    m.is_text && m.unread && m.sender.len() > 0 && m.body.len() > 0
}

/// The unread items of one channel: the kept messages, in arrival
/// order, each stamped with the topic that was read.
pub open spec fn filtered_messages(ms: Seq<RelayMessageView>, topic: Seq<char>) -> Seq<
    UnreadMessageView,
>
    decreases ms.len(),
{
    if ms.len() == 0 {
        Seq::<UnreadMessageView>::empty()
    } else {
        let pre = filtered_messages(ms.drop_last(), topic);
        if kept_message(ms.last()) {
            pre + seq![
                UnreadMessageView { sender: ms.last().sender, topic, body: ms.last().body },
            ]
        } else {
            pre
        }
    }
}

/// Keeps exactly the proper unread text messages of one channel read,
/// in order, stamping each with the topic.
pub fn filter_messages(msgs: &Vec<RelayMessage>, topic: &str) -> (r: Vec<UnreadMessage>)
    ensures
        r.deep_view() == filtered_messages(msgs.deep_view(), topic@),
{
    let mut r: Vec<UnreadMessage> = Vec::new();
    let mut i: usize = 0;
    while i < msgs.len()
        invariant
            0 <= i <= msgs@.len(),
            r.deep_view() == filtered_messages(msgs.deep_view().subrange(0, i as int), topic@),
        decreases msgs@.len() - i,
    {
        let m = &msgs[i];
        if m.is_text && m.unread && !m.sender.as_str().is_empty() && !m.body.as_str().is_empty() {
            r.push(
                UnreadMessage {
                    sender: m.sender.clone(),
                    topic: topic.to_owned(),
                    body: m.body.clone(),
                },
            );
        }
        proof {
            let pre = msgs.deep_view().subrange(0, i as int);
            let cur = msgs.deep_view().subrange(0, i + 1);
            assert(cur.drop_last() =~= pre);
            assert(cur.last() == msgs@[i as int].deep_view());
            assert(r.deep_view() =~= filtered_messages(cur, topic@));
        }
        i = i + 1;
    }
    proof {
        assert(msgs.deep_view().subrange(0, msgs@.len() as int) =~= msgs.deep_view());
    }
    r
}

/// Whether `t` occurs among the known topics.
pub open spec fn topic_in(topics: Seq<Seq<char>>, t: Seq<char>) -> bool {
    exists|i: int| 0 <= i < topics.len() && topics[i] == t
}

/// Whether the listing holds an unread conversation on a known topic
/// with this channel and topic.
pub open spec fn wanted_channel(
    convs: Seq<ConversationView>,
    topics: Seq<Seq<char>>,
    c: Seq<char>,
    t: Seq<char>,
) -> bool {
    exists|i: int|
        0 <= i < convs.len() && convs[i].channel == c && convs[i].topic == t && convs[i].unread
            && topic_in(topics, t)
}

fn contains_topic(topics: &Vec<String>, t: &String) -> (r: bool)
    ensures
        r == topic_in(topics.deep_view(), t@),
{
    let mut i: usize = 0;
    while i < topics.len()
        invariant
            0 <= i <= topics@.len(),
            forall|j: int| 0 <= j < i ==> topics.deep_view()[j] != t@,
        decreases topics@.len() - i,
    {
        if topics[i].eq(t) {
            proof {
                assert(topics.deep_view()[i as int] == t@);
            }
            return true;
        }
        i = i + 1;
    }
    false
}

fn contains_pair(pairs: &Vec<(String, String)>, c: &String, t: &String) -> (r: bool)
    ensures
        r == exists|j: int| 0 <= j < pairs@.len() && (#[trigger] pairs@[j]).0@ == c@ && pairs@[j].1@
            == t@,
{
    let mut i: usize = 0;
    while i < pairs.len()
        invariant
            0 <= i <= pairs@.len(),
            forall|j: int| 0 <= j < i ==> !((#[trigger] pairs@[j]).0@ == c@ && pairs@[j].1@ == t@),
        decreases pairs@.len() - i,
    {
        let p = &pairs[i];
        if p.0.eq(c) && p.1.eq(t) {
            return true;
        }
        i = i + 1;
    }
    false
}

/// From the relay's conversation listing, the channels to read: each
/// unread conversation on a known topic, once — no channel-topic pair
/// twice, none that is not wanted, and none wanted left out.
pub fn select_channels(convs: &Vec<Conversation>, topics: &Vec<String>) -> (r: Vec<
    (String, String),
>)
    ensures
        forall|j: int|
            0 <= j < r@.len() ==> wanted_channel(
                convs.deep_view(),
                topics.deep_view(),
                (#[trigger] r@[j]).0@,
                r@[j].1@,
            ),
        forall|i: int|
            0 <= i < convs@.len() && (#[trigger] convs.deep_view()[i]).unread && topic_in(
                topics.deep_view(),
                convs.deep_view()[i].topic,
            ) ==> exists|j: int|
                0 <= j < r@.len() && (#[trigger] r@[j]).0@ == convs.deep_view()[i].channel
                    && r@[j].1@ == convs.deep_view()[i].topic,
        forall|j1: int, j2: int|
            0 <= j1 < j2 < r@.len() ==> !((#[trigger] r@[j1]).0@ == (#[trigger] r@[j2]).0@
                && r@[j1].1@ == r@[j2].1@),
{
    let mut r: Vec<(String, String)> = Vec::new();
    let mut i: usize = 0;
    while i < convs.len()
        invariant
            0 <= i <= convs@.len(),
            forall|j: int|
                0 <= j < r@.len() ==> wanted_channel(
                    convs.deep_view(),
                    topics.deep_view(),
                    (#[trigger] r@[j]).0@,
                    r@[j].1@,
                ),
            forall|k: int|
                0 <= k < i && (#[trigger] convs.deep_view()[k]).unread && topic_in(
                    topics.deep_view(),
                    convs.deep_view()[k].topic,
                ) ==> exists|j: int|
                    0 <= j < r@.len() && (#[trigger] r@[j]).0@ == convs.deep_view()[k].channel
                        && r@[j].1@ == convs.deep_view()[k].topic,
            forall|j1: int, j2: int|
                0 <= j1 < j2 < r@.len() ==> !((#[trigger] r@[j1]).0@ == (#[trigger] r@[j2]).0@
                    && r@[j1].1@ == r@[j2].1@),
        decreases convs@.len() - i,
    {
        let conv = &convs[i];
        if conv.unread && contains_topic(topics, &conv.topic) {
            if !contains_pair(&r, &conv.channel, &conv.topic) {
                let ghost prev = r@;
                r.push((conv.channel.clone(), conv.topic.clone()));
                proof {
                    let last = r@.len() - 1;
                    assert(forall|j: int| 0 <= j < prev.len() ==> r@[j] == prev[j]);
                    assert(r@[last].0@ == convs.deep_view()[i as int].channel);
                    assert(r@[last].1@ == convs.deep_view()[i as int].topic);
                    assert(wanted_channel(
                        convs.deep_view(),
                        topics.deep_view(),
                        r@[last].0@,
                        r@[last].1@,
                    )) by {
                        assert(convs.deep_view()[i as int].channel == r@[last].0@
                            && convs.deep_view()[i as int].topic == r@[last].1@
                            && convs.deep_view()[i as int].unread);
                    }
                }
            }
        }
        i = i + 1;
    }
    r
}

} // verus!

verus! {

// ---------------------------------------------------------------------
// The polling subscriber
// ---------------------------------------------------------------------

/// One event the poll loop hands to the subscription handler.
pub enum PollEvent {
    /// The relay answered for the first time: the subscription is live.
    Open,
    /// The relay answers again after a drop.
    Reestablished,
    /// The relay stopped answering after a successful subscription;
    /// polling continues as the retry mechanism.
    Dropped,
    /// One unread item: the sender's address — its topic remapped to
    /// the topic a reply should go out on — and the raw payload.
    Slate { from: KeybaseAddress, payload: String },
}

/// What the loop does after one poll.
pub enum PollOutcome {
    /// A local stop was observed: the loop ends, closing normally.
    Stopped,
    /// The relay failed before any successful subscription: starting
    /// the subscriber fails with this error.
    Fatal(Error),
    /// Deliver these events in order, sleep `sleep_ms`, poll again.
    Continue { events: Vec<PollEvent>, sleep_ms: u64 },
}

/// The polling subscriber: a stop flag flipped by `start`/`stop`, and
/// the loop's own delivery state.
pub struct KeybaseSubscriber {
    running: bool,
    subscribed: bool,
    dropped: bool,
    keybase_binary: Option<String>,
}

impl KeybaseSubscriber {
    /// Whether the loop should keep polling.
    pub closed spec fn live(&self) -> bool {
        self.running
    }

    /// Whether any poll has succeeded during this run.
    pub closed spec fn has_subscribed(&self) -> bool {
        self.subscribed
    }

    /// Whether the relay is currently unreachable after a successful
    /// subscription.
    pub closed spec fn was_dropped(&self) -> bool {
        self.dropped
    }

    /// The configured relay binary name, if any.
    pub closed spec fn binary(&self) -> Option<String> {
        self.keybase_binary
    }

    /// The configured relay binary name, for the hosting layer to
    /// invoke.
    pub fn keybase_binary(&self) -> (r: &Option<String>)
        ensures
            *r == self.binary(),
    {
        &self.keybase_binary
    }

    /// A subscriber that is not running. The relay process's presence
    /// is the hosting layer's to check before the loop starts.
    pub fn new(keybase_binary: Option<String>) -> (r: Result<Self, Error>)
        ensures
            r matches Ok(s) && !s.live() && !s.has_subscribed() && !s.was_dropped()
                && s.binary() == keybase_binary,
    {
        Ok(
            KeybaseSubscriber {
                running: false,
                subscribed: false,
                dropped: false,
                keybase_binary,
            },
        )
    }

    /// Enters the run: the loop is live, nothing seen yet.
    pub fn begin(&mut self)
        ensures
            final(self).live(),
            !final(self).has_subscribed(),
            !final(self).was_dropped(),
            final(self).binary() == old(self).binary(),
    {
        self.running = true;
        self.subscribed = false;
        self.dropped = false;
    }

    /// Requests shutdown; on this transport the request is always
    /// acknowledged synchronously, and the loop observes it on its next
    /// iteration — so stop latency is bounded by one poll interval.
    pub fn stop(&mut self) -> (r: bool)
        ensures
            r,
            !final(self).live(),
            final(self).has_subscribed() == old(self).has_subscribed(),
            final(self).was_dropped() == old(self).was_dropped(),
            final(self).binary() == old(self).binary(),
    {
        self.running = false;
        true
    }

    /// Reflects the stop flag: false as soon as `stop` has returned.
    pub fn is_running(&self) -> (r: bool)
        ensures
            r == self.live(),
    {
        self.running
    }

    /// One iteration of the poll loop, given the outcome of this
    /// round's relay query (`None` when the query failed): decides the
    /// events to deliver, in order, and whether the loop goes on. The
    /// first successful query opens the subscription; a failure after
    /// that reports one drop — exactly one per loss, not one per retry —
    /// and polling itself remains the retry mechanism; recovery reports
    /// one reestablishment; every unread item is delivered with its
    /// reply topic. A failure before any success is fatal for the run.
    pub fn poll_step(&mut self, result: Option<Vec<UnreadMessage>>) -> (outcome: PollOutcome)
        ensures
            final(self).binary() == old(self).binary(),
            final(self).live() == old(self).live(),
            !old(self).live() ==> outcome is Stopped && final(self).has_subscribed() == old(
                self,
            ).has_subscribed() && final(self).was_dropped() == old(self).was_dropped(),
            old(self).live() && result is None ==> {
                if old(self).was_dropped() {
                    &&& final(self).has_subscribed() == old(self).has_subscribed()
                    &&& final(self).was_dropped()
                    &&& outcome matches PollOutcome::Continue { events, sleep_ms } && events@.len()
                        == 0 && sleep_ms == SLEEP_DURATION_MS
                } else if old(self).has_subscribed() {
                    &&& final(self).has_subscribed()
                    &&& final(self).was_dropped()
                    &&& outcome matches PollOutcome::Continue { events, sleep_ms } && events@.len()
                        == 1 && events@[0] is Dropped && sleep_ms == SLEEP_DURATION_MS
                } else {
                    &&& final(self).has_subscribed() == old(self).has_subscribed()
                    &&& final(self).was_dropped() == old(self).was_dropped()
                    &&& outcome matches PollOutcome::Fatal(e) && e == Error::KeybaseNotFound
                }
            },
            old(self).live() ==> (result matches Some(unread) ==> {
                &&& final(self).has_subscribed()
                &&& !final(self).was_dropped()
                &&& outcome matches PollOutcome::Continue { events, sleep_ms } && sleep_ms
                    == SLEEP_DURATION_MS && {
                    let lead = (if !old(self).has_subscribed() {
                        1int
                    } else {
                        0int
                    }) + (if old(self).was_dropped() {
                        1int
                    } else {
                        0int
                    });
                    &&& events@.len() == lead + unread@.len()
                    &&& (!old(self).has_subscribed() ==> events@[0] is Open)
                    &&& (old(self).was_dropped() ==> events@[lead - 1] is Reestablished)
                    &&& (forall|j: int|
                        lead <= j < events@.len() ==> (#[trigger] events@[j]
                            matches PollEvent::Slate { from, payload } && from.username@
                            == unread@[j - lead].sender@ && (from.topic matches Some(t) && t@
                            == reply_topic(unread@[j - lead].topic@)) && payload@ == unread@[j
                            - lead].body@))
                }
            }),
    {
        if !self.running {
            return PollOutcome::Stopped;
        }
        match result {
            Some(unread) => {
                let mut events: Vec<PollEvent> = Vec::new();
                if !self.subscribed {
                    self.subscribed = true;
                    events.push(PollEvent::Open);
                }
                if self.dropped {
                    self.dropped = false;
                    events.push(PollEvent::Reestablished);
                }
                let ghost lead = events@.len() as int;
                let ghost lead_events = events@;
                let mut i: usize = 0;
                while i < unread.len()
                    invariant
                        0 <= i <= unread@.len(),
                        0 <= lead,
                        lead == lead_events.len(),
                        events@.len() == lead + i,
                        forall|j: int| 0 <= j < lead ==> events@[j] == #[trigger] lead_events[j],
                        forall|j: int|
                            0 <= j < i ==> (#[trigger] events@[lead + j]
                                matches PollEvent::Slate { from, payload } && from.username@
                                == unread@[j].sender@ && (from.topic matches Some(t) && t@
                                == reply_topic(unread@[j].topic@)) && payload@
                                == unread@[j].body@),
                    decreases unread@.len() - i,
                {
                    let m = &unread[i];
                    let from = KeybaseAddress {
                        username: m.sender.clone(),
                        topic: Some(reply_topic_for(m.topic.as_str())),
                    };
                    let ev = PollEvent::Slate { from, payload: m.body.clone() };
                    proof {
                        assert(ev matches PollEvent::Slate { from, payload } && from.username@
                            == unread@[i as int].sender@ && (from.topic matches Some(t) && t@
                            == reply_topic(unread@[i as int].topic@)) && payload@
                            == unread@[i as int].body@);
                    }
                    let ghost prev = events@;
                    proof {
                        assert(prev.len() == lead + i);
                    }
                    events.push(ev);
                    proof {
                        assert(events@ == prev.push(ev));
                        assert(forall|j: int| 0 <= j < prev.len() ==> events@[j] == prev[j]);
                        assert(events@[lead + i as int] == ev);
                        assert forall|j: int|
                            0 <= j < i + 1 implies (#[trigger] events@[lead + j]
                            matches PollEvent::Slate { from, payload } && from.username@
                            == unread@[j].sender@ && (from.topic matches Some(t) && t@
                            == reply_topic(unread@[j].topic@)) && payload@
                            == unread@[j].body@) by {
                            if j < i {
                                assert(events@[lead + j] == prev[lead + j]);
                                assert(prev[lead + j] matches PollEvent::Slate { from, payload }
                                    && from.username@ == unread@[j].sender@ && (from.topic
                                    matches Some(t) && t@ == reply_topic(unread@[j].topic@))
                                    && payload@ == unread@[j].body@);
                            } else {
                                assert(events@[lead + j] == ev);
                            }
                        }
                    }
                    i = i + 1;
                }
                proof {
                    if !old(self).has_subscribed() {
                        assert(events@[0] == lead_events[0]);
                        assert(lead_events[0] is Open);
                    }
                    if old(self).was_dropped() {
                        assert(events@[lead - 1] == lead_events[lead - 1]);
                        assert(lead_events[lead - 1] is Reestablished);
                    }
                    assert forall|j: int|
                        lead <= j < events@.len() implies (#[trigger] events@[j]
                        matches PollEvent::Slate { from, payload } && from.username@ == unread@[j
                        - lead].sender@ && (from.topic matches Some(t) && t@ == reply_topic(
                        unread@[j - lead].topic@,
                    )) && payload@ == unread@[j - lead].body@) by {
                        let k = j - lead;
                        assert(events@[lead + k] matches PollEvent::Slate { from, payload }
                            && from.username@ == unread@[k].sender@ && (from.topic matches Some(t)
                            && t@ == reply_topic(unread@[k].topic@)) && payload@
                            == unread@[k].body@);
                    }
                }
                PollOutcome::Continue { events, sleep_ms: SLEEP_DURATION_MS }
            },
            None => {
                if self.dropped {
                    PollOutcome::Continue { events: Vec::new(), sleep_ms: SLEEP_DURATION_MS }
                } else if self.subscribed {
                    self.dropped = true;
                    let mut events: Vec<PollEvent> = Vec::new();
                    events.push(PollEvent::Dropped);
                    PollOutcome::Continue { events, sleep_ms: SLEEP_DURATION_MS }
                } else {
                    PollOutcome::Fatal(Error::KeybaseNotFound)
                }
            },
        }
    }
}

} // verus!

verus! {

/// A message that arrived as a new payload is answered on a different
/// topic: the signed-reply topic, which is not the topic it arrived on.
pub proof fn lemma_reply_topic_remaps()
    ensures
        reply_topic(topic_slate_new()) == topic_slate_signed(),
        topic_slate_signed() != topic_slate_new(),
{
    reveal_strlit("grin_slate_new");
    reveal_strlit("grin_slate_signed");
    assert(topic_slate_new().len() != topic_slate_signed().len());
}

// ---------------------------------------------------------------------
// The polling publisher
// ---------------------------------------------------------------------

/// The topic an outbound message goes to: the one the address names, or
/// the wallet's own topic when the address names none.
pub open spec fn post_topic(topic: Option<Seq<char>>) -> Seq<char> {
    match topic {
        Some(t) => t,
        None => topic_wallet_slates(),
    }
}

/// The expiry the relay should apply: the configured lifetime, except
/// that the well-known wallet identity is exempt (its receiver cannot
/// read exploding messages).
pub open spec fn effective_ttl(username: Seq<char>, ttl: Option<Seq<char>>) -> Option<Seq<char>> {
    if username == "wallet713"@ {
        None
    } else {
        ttl
    }
}

/// Publishes outbound payloads through the relay's send call.
pub struct KeybasePublisher {
    pub ttl: Option<String>,
    pub keybase_binary: Option<String>,
}

impl KeybasePublisher {
    /// A publisher with an optional message expiry and an optional
    /// relay binary name. The relay process's presence is the hosting
    /// layer's to check before first use.
    pub fn new(ttl: Option<String>, keybase_binary: Option<String>) -> (r: Result<Self, Error>)
        ensures
            r matches Ok(p) && p.ttl == ttl && p.keybase_binary == keybase_binary,
    {
        Ok(KeybasePublisher { ttl, keybase_binary })
    }

    /// Frames one outbound payload as the relay's send call: the
    /// channel is the recipient's stripped identity, the topic comes
    /// from the address or falls back to the wallet's own topic, and
    /// the expiry is applied except for the well-known wallet identity.
    /// Only chat addresses can be posted to over this transport.
    pub fn post_slate(&self, slate_payload: &str, to: &Address) -> (r: Result<String, Error>)
        ensures
            match to {
                Address::Keybase(k) => r matches Ok(t) && t@ == send_payload(
                    slate_payload@,
                    k@.stripped(),
                    post_topic(k@.topic),
                    effective_ttl(k.username@, match self.ttl {
                        Some(ref t) => Some(t@),
                        None => None,
                    }),
                ),
                _ => r == Err::<String, Error>(
                    Error::Parse(crate::error::ParseError::UnknownScheme),
                ),
            },
    {
        let k = match to {
            Address::Keybase(k) => k,
            _ => {
                return Err(Error::Parse(crate::error::ParseError::UnknownScheme));
            },
        };
        let channel = k.stripped();
        let topic = match &k.topic {
            Some(t) => t.clone(),
            None => String::from_str("wallet713_grin_slate"),
        };
        let wallet_identity = String::from_str("wallet713");
        let ttl = if k.username.eq(&wallet_identity) {
            None
        } else {
            self.ttl.as_ref()
        };
        Ok(build_send_payload(slate_payload, channel.as_str(), topic.as_str(), ttl))
    }
}

} // verus!

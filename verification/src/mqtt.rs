//! The MQTT client's bookkeeping: what it has published, received and
//! subscribed to, and how its connection handler reacts to connection
//! events and errors.
use crate::text::{chars_eq, chars_of, owned};
use vstd::prelude::*;
use vstd::utf8::{decode_utf8, valid_utf8};

verus! {

/// `std::str::from_utf8`: the text the bytes encode, when they are valid
/// UTF-8.
#[verifier::external_body]
fn utf8_text(data: &[u8]) -> (res: Option<&str>)
    ensures
        res is Some <==> valid_utf8(data@),
        res matches Some(s) ==> s@ == decode_utf8(data@),
{
    std::str::from_utf8(data).ok()
}

#[derive(Debug, Clone)]
pub struct MqttStatus {
    pub broker_url: String,
    pub client_id: String,
    pub connected: bool,
    /// Signal to stop connection handler thread
    pub shutdown: bool,
    pub last_published_topic: String,
    pub last_received_topic: String,
    pub last_received_message: String,
    pub subscriptions: Vec<String>,
    pub publish_count: u32,
    pub receive_count: u32,
}

/// The subscribed topics, as character sequences.
pub open spec fn topics(subs: Seq<String>) -> Seq<Seq<char>> {
    subs.map_values(|s: String| s@)
}

/// No topic is listed twice.
pub open spec fn no_duplicates(ts: Seq<Seq<char>>) -> bool {
    forall|i: int, j: int| 0 <= i < j < ts.len() ==> ts[i] != ts[j]
}

impl Default for MqttStatus {
    /// A status with no broker or client named, nothing recorded.
    fn default() -> (res: Self)
        ensures
            res.wf(),
            res.broker_url@ == Seq::<char>::empty(),
            res.client_id@ == Seq::<char>::empty(),
            !res.connected,
            !res.shutdown,
            res.last_published_topic@ == Seq::<char>::empty(),
            res.last_received_topic@ == Seq::<char>::empty(),
            res.last_received_message@ == Seq::<char>::empty(),
            res.subscriptions@.len() == 0,
            res.publish_count == 0,
            res.receive_count == 0,
    {
        proof {
            reveal_strlit("");
        }
        MqttStatus::new("", "")
    }
}

impl MqttStatus {
    pub open spec fn wf(&self) -> bool {
        no_duplicates(topics(self.subscriptions@))
    }

    /// The status of a client of `broker_url` named `client_id`: not
    /// connected, nothing published, received or subscribed.
    pub fn new(broker_url: &str, client_id: &str) -> (res: Self)
        ensures
            res.wf(),
            res.broker_url@ == broker_url@,
            res.client_id@ == client_id@,
            !res.connected,
            !res.shutdown,
            res.last_published_topic@ == Seq::<char>::empty(),
            res.last_received_topic@ == Seq::<char>::empty(),
            res.last_received_message@ == Seq::<char>::empty(),
            res.subscriptions@.len() == 0,
            res.publish_count == 0,
            res.receive_count == 0,
    {
        MqttStatus {
            broker_url: owned(broker_url),
            client_id: owned(client_id),
            connected: false,
            shutdown: false,
            last_published_topic: String::new(),
            last_received_topic: String::new(),
            last_received_message: String::new(),
            subscriptions: Vec::new(),
            publish_count: 0,
            receive_count: 0,
        }
    }

    /// A publish to `topic` was enqueued.
    pub fn record_publish(&mut self, topic: &str)
        requires
            old(self).publish_count < u32::MAX,
        ensures
            final(self).last_published_topic@ == topic@,
            final(self).publish_count == old(self).publish_count + 1,
            final(self).subscriptions@ == old(self).subscriptions@,
            final(self).receive_count == old(self).receive_count,
            final(self).last_received_topic == old(self).last_received_topic,
            final(self).last_received_message == old(self).last_received_message,
    {
        self.last_published_topic = owned(topic);
        self.publish_count = self.publish_count + 1;
    }

    fn position(&self, topic: &str) -> (res: Option<usize>)
        ensures
            match res {
                Some(i) => i < self.subscriptions@.len() && self.subscriptions@[i as int]@ == topic@,
                None => !topics(self.subscriptions@).contains(topic@),
            },
    {
        let t = chars_of(topic);
        let mut i: usize = 0;
        while i < self.subscriptions.len()
            invariant
                i <= self.subscriptions@.len(),
                t@ == topic@,
                forall|j: int| 0 <= j < i ==> (#[trigger] self.subscriptions@[j])@ != topic@,
            decreases self.subscriptions@.len() - i,
        {
            if chars_eq(&chars_of(self.subscriptions[i].as_str()), topic) {
                return Some(i);
            }
            i = i + 1;
        }
        proof {
            if topics(self.subscriptions@).contains(topic@) {
                let k = choose|k: int|
                    0 <= k < topics(self.subscriptions@).len() && topics(self.subscriptions@)[k]
                        == topic@;
                assert(self.subscriptions@[k]@ == topic@);
            }
        }
        None
    }

    /// A subscription to `topic` was requested: it is listed once.
    pub fn add_subscription(&mut self, topic: &str)
        requires
            old(self).wf(),
        ensures
            final(self).wf(),
            topics(final(self).subscriptions@) == if topics(old(self).subscriptions@).contains(
                topic@,
            ) {
                topics(old(self).subscriptions@)
            } else {
                topics(old(self).subscriptions@).push(topic@)
            },
            final(self).publish_count == old(self).publish_count,
            final(self).receive_count == old(self).receive_count,
    {
        match self.position(topic) {
            None => {
                let ghost before = topics(self.subscriptions@);
                self.subscriptions.push(owned(topic));
                assert(topics(self.subscriptions@) =~= before.push(topic@));
                assert forall|a: int, b: int|
                    0 <= a < b < topics(self.subscriptions@).len() implies topics(
                    self.subscriptions@,
                )[a] != topics(self.subscriptions@)[b] by {
                    if b == before.len() {
                        assert(before.contains(before[a]));
                    }
                }
            },
            Some(i) => {
                assert(topics(self.subscriptions@)[i as int] == topic@);
            },
        }
    }

    /// `topic` was unsubscribed: it is no longer listed; the other topics
    /// keep their order.
    pub fn remove_subscription(&mut self, topic: &str)
        requires
            old(self).wf(),
        ensures
            final(self).wf(),
            topics(final(self).subscriptions@) == topics(old(self).subscriptions@).filter(
                |s: Seq<char>| s != topic@,
            ),
            final(self).publish_count == old(self).publish_count,
            final(self).receive_count == old(self).receive_count,
    {
        let ghost pred = |s: Seq<char>| s != topic@;
        let ghost old_topics = topics(self.subscriptions@);
        let t = chars_of(topic);
        let mut kept: Vec<String> = Vec::new();
        let mut i: usize = 0;
        while i < self.subscriptions.len()
            invariant
                i <= self.subscriptions@.len(),
                t@ == topic@,
                old_topics == topics(self.subscriptions@),
                pred == (|s: Seq<char>| s != topic@),
                topics(kept@) == old_topics.take(i as int).filter(pred),
            decreases self.subscriptions@.len() - i,
        {
            reveal_with_fuel(Seq::<_>::filter, 1);
            let s = self.subscriptions[i].clone();
            let ghost before = topics(kept@);
            let ghost tk = old_topics.take(i + 1);
            assert(tk.drop_last() =~= old_topics.take(i as int));
            assert(tk.last() == s@);
            if !chars_eq(&chars_of(s.as_str()), topic) {
                kept.push(s);
                assert(topics(kept@) =~= before.push(tk.last()));
            }
            i = i + 1;
        }
        assert(old_topics.take(i as int) =~= old_topics);
        proof {
            assert forall|a: int, b: int|
                0 <= a < b < topics(kept@).len() implies topics(kept@)[a] != topics(kept@)[b] by {
                lemma_filter_no_duplicates(old_topics, pred);
            }
        }
        self.subscriptions = kept;
    }

    /// A message on `topic` arrived: when its bytes are UTF-8 text, the
    /// topic and text are kept and counted; otherwise nothing changes.
    pub fn record_received(&mut self, topic: &str, data: &[u8])
        requires
            old(self).receive_count < u32::MAX,
        ensures
            valid_utf8(data@) ==> final(self).last_received_topic@ == topic@,
            valid_utf8(data@) ==> final(self).last_received_message@ == decode_utf8(data@),
            valid_utf8(data@) ==> final(self).receive_count == old(self).receive_count + 1,
            !valid_utf8(data@) ==> final(self).last_received_topic == old(self).last_received_topic,
            !valid_utf8(data@) ==> final(self).last_received_message == old(self).last_received_message,
            !valid_utf8(data@) ==> final(self).receive_count == old(self).receive_count,
            final(self).subscriptions@ == old(self).subscriptions@,
            final(self).publish_count == old(self).publish_count,
            final(self).connected == old(self).connected,
            final(self).shutdown == old(self).shutdown,
            final(self).broker_url == old(self).broker_url,
            final(self).client_id == old(self).client_id,
            final(self).last_published_topic == old(self).last_published_topic,
    {
        if let Some(text) = utf8_text(data) {
            self.last_received_topic = owned(topic);
            self.last_received_message = owned(text);
            self.receive_count = self.receive_count + 1;
        }
    }

    /// A message arrived from the broker, with its topic when it came with
    /// one.  With a topic it is recorded as `record_received` records it
    /// and is to be handed to the message handler once (the result is
    /// `true`); without one nothing changes and it is not handed on.
    pub fn on_message(&mut self, topic: Option<&str>, data: &[u8]) -> (deliver: bool)
        requires
            old(self).receive_count < u32::MAX,
        ensures
            deliver == topic is Some,
            topic is None ==> *final(self) == *old(self),
            topic matches Some(t) ==> {
                &&& valid_utf8(data@) ==> final(self).last_received_topic@ == t@
                &&& valid_utf8(data@) ==> final(self).last_received_message@ == decode_utf8(
                    data@,
                )
                &&& valid_utf8(data@) ==> final(self).receive_count == old(self).receive_count + 1
                &&& !valid_utf8(data@) ==> final(self).last_received_topic
                    == old(self).last_received_topic
                &&& !valid_utf8(data@) ==> final(self).last_received_message
                    == old(self).last_received_message
                &&& !valid_utf8(data@) ==> final(self).receive_count == old(self).receive_count
            },
            final(self).subscriptions@ == old(self).subscriptions@,
            final(self).publish_count == old(self).publish_count,
            final(self).connected == old(self).connected,
            final(self).broker_url == old(self).broker_url,
            final(self).client_id == old(self).client_id,
    {
        match topic {
            Some(t) => {
                self.record_received(t, data);
                true
            },
            None => false,
        }
    }
}

proof fn lemma_filter_no_duplicates(s: Seq<Seq<char>>, pred: spec_fn(Seq<char>) -> bool)
    requires
        no_duplicates(s),
    ensures
        no_duplicates(s.filter(pred)),
    decreases s.len(),
{
    reveal_with_fuel(Seq::<_>::filter, 1);
    if s.len() > 0 {
        let init = s.drop_last();
        assert forall|i: int, j: int| 0 <= i < j < init.len() implies init[i] != init[j] by {
            assert(init[i] == s[i] && init[j] == s[j]);
        }
        lemma_filter_no_duplicates(init, pred);
        if pred(s.last()) {
            let f = init.filter(pred);
            assert forall|k: int| 0 <= k < f.len() implies f[k] != s.last() by {
                assert(f.contains(f[k]));
                init.lemma_filter_contains_rev(pred, f[k]);
                let m = choose|m: int| 0 <= m < init.len() && init[m] == f[k];
                assert(s[m] == init[m]);
            }
        }
    }
}

/// Seconds to wait before the next connection attempt after the `n`-th
/// error in a row: 1, 2, 5, 10, 30, 60, then 300.
pub open spec fn backoff_for(n: u32) -> u64 {
    if n == 1 {
        1
    } else if n == 2 {
        2
    } else if n == 3 {
        5
    } else if n == 4 {
        10
    } else if n == 5 {
        30
    } else if n == 6 {
        60
    } else {
        300
    }
}

/// The wait never shrinks as errors mount, and is at most five minutes.
pub proof fn lemma_backoff_grows(a: u32, b: u32)
    requires
        1 <= a <= b,
    ensures
        backoff_for(a) <= backoff_for(b) <= 300,
{
}

pub fn backoff_secs(consecutive_errors: u32) -> (res: u64)
    ensures
        res == backoff_for(consecutive_errors),
{
    match consecutive_errors {
        1 => 1,
        2 => 2,
        3 => 5,
        4 => 10,
        5 => 30,
        6 => 60,
        _ => 300,
    }
}

/// What the connection handler does after an event.
#[derive(Debug, Clone, Copy, PartialEq, Eq, Structural)]
pub enum ConnectionStep {
    /// Go on with the next event.
    Continue,
    /// Leave the handler loop.
    Exit,
    /// Mark disconnected, wait this many seconds, then go on.
    Retry(u64),
}

/// Counts consecutive connection errors.
pub struct ConnectionTracker {
    consecutive_errors: u32,
}

/// `needle` occurs in `hay`.
pub open spec fn contains_text(hay: Seq<char>, needle: Seq<char>) -> bool {
    exists|i: int| 0 <= i <= hay.len() - needle.len() && #[trigger] hay.subrange(i, i + needle.len()) == needle
}

fn find_text(hay: &Vec<char>, needle: &Vec<char>) -> (res: bool)
    ensures
        res == contains_text(hay@, needle@),
{
    if needle.len() > hay.len() {
        return false;
    }
    let mut i: usize = 0;
    while i <= hay.len() - needle.len()
        invariant
            needle@.len() <= hay@.len(),
            forall|k: int| 0 <= k < i ==> #[trigger] hay@.subrange(k, k + needle@.len()) != needle@,
        decreases hay@.len() - needle@.len() + 1 - i,
    {
        let mut j: usize = 0;
        let mut same = true;
        while j < needle.len()
            invariant
                needle@.len() <= hay@.len(),
                i + needle.len() <= hay.len(),
                j <= needle@.len(),
                same == (forall|m: int| 0 <= m < j ==> hay@[i + m] == needle@[m]),
            decreases needle@.len() - j,
        {
            if hay[i + j] != needle[j] {
                same = false;
            }
            j = j + 1;
        }
        if same {
            assert(hay@.subrange(i as int, i + needle@.len()) =~= needle@);
            return true;
        }
        assert(hay@.subrange(i as int, i + needle@.len()) != needle@) by {
            let m = choose|m: int| 0 <= m < needle@.len() && hay@[i + m] != needle@[m];
            assert(hay@.subrange(i as int, i + needle@.len())[m] == hay@[i + m]);
        }
        i = i + 1;
    }
    false
}

impl ConnectionTracker {
    pub closed spec fn errors(&self) -> u32 {
        self.consecutive_errors
    }

    pub fn new() -> (res: Self)
        ensures
            res.errors() == 0,
    {
        ConnectionTracker { consecutive_errors: 0 }
    }

    pub fn consecutive_errors(&self) -> (res: u32)
        ensures
            res == self.errors(),
    {
        self.consecutive_errors
    }

    /// Connected to the broker: the error count starts over.
    pub fn on_connected(&mut self) -> (res: ConnectionStep)
        ensures
            final(self).errors() == 0,
            res == ConnectionStep::Continue,
    {
        self.consecutive_errors = 0;
        ConnectionStep::Continue
    }

    /// Disconnected from the broker: on demand, so the handler exits.
    pub fn on_disconnected(&mut self) -> (res: ConnectionStep)
        ensures
            final(self).errors() == old(self).errors(),
            res == ConnectionStep::Exit,
    {
        ConnectionStep::Exit
    }

    /// A connection error whose debug text is `error_text`: after three
    /// errors in a row that say `INVALID_STATE` (the client was closed) the
    /// handler exits; otherwise it waits the back-off time and retries.
    pub fn on_error(&mut self, error_text: &str) -> (res: ConnectionStep)
        requires
            old(self).errors() < u32::MAX,
        ensures
            final(self).errors() == old(self).errors() + 1,
            (contains_text(error_text@, "INVALID_STATE"@) && final(self).errors() >= 3) ==> res
                == ConnectionStep::Exit,
            !(contains_text(error_text@, "INVALID_STATE"@) && final(self).errors() >= 3) ==> res
                == ConnectionStep::Retry(backoff_for(final(self).errors())),
    {
        self.consecutive_errors = self.consecutive_errors + 1;
        let is_invalid_state = find_text(&chars_of(error_text), &chars_of("INVALID_STATE"));
        if is_invalid_state && self.consecutive_errors >= 3 {
            ConnectionStep::Exit
        } else {
            ConnectionStep::Retry(backoff_secs(self.consecutive_errors))
        }
    }
}

} // verus!

//! Subscriptions: what is stored is replayed, and what is published from then on follows.

use vstd::prelude::*;
use vstd::string::*;

use crate::ids::NodeId;
use crate::ids::NodeView;
use crate::ids::Topic;
use crate::keys::LogView;
use crate::message::FetchQuery;
use crate::message::MessageView;
use crate::message::StoredMessage;
use crate::service::proto_messages;
use crate::service::start_position;
use crate::service::MsgbusGrpcService;
use crate::status::status_from_error;
use crate::status::Code;
use crate::status::Status;
use crate::status::StatusView;
use crate::store::MsgbusStore;
use crate::wire::proto_message;
use crate::wire::MessageEnvelope;
use crate::wire::SubscribeRequest;

verus! {

/// How many stored messages are replayed where a request does not say.
pub const DEFAULT_REPLAY_LIMIT: u32 = 100;

/// How many stored messages are replayed at most.
pub open spec fn replay_size(limit: u32) -> nat {
    crate::engine::page_size(
        if limit == 0 {
            DEFAULT_REPLAY_LIMIT
        } else {
            limit
        },
    )
}

/// A subscription to a log, and the last position that it delivered.
pub struct Subscription {
    pub topic: Topic,
    pub origin: NodeId,
    pub last_sent: u64,
}

/// A [`Subscription`] as a value.
pub struct SubscriptionView {
    pub topic: Seq<char>,
    pub origin: NodeView,
    pub last_sent: u64,
}

impl View for Subscription {
    type V = SubscriptionView;

    open spec fn view(&self) -> SubscriptionView {
        SubscriptionView { topic: self.topic@, origin: self.origin@, last_sent: self.last_sent }
    }
}

impl SubscriptionView {
    /// The subscription is one to the log of `m`, and `m` stands behind all that it delivered.
    pub open spec fn admits(self, m: MessageView) -> bool {
        m.topic == self.topic && m.origin == self.origin && m.head_id > self.last_sent
    }

    /// The subscription after `m` was published.
    pub open spec fn after(self, m: MessageView) -> SubscriptionView {
        if self.admits(m) {
            SubscriptionView { last_sent: m.head_id, ..self }
        } else {
            self
        }
    }

    /// What the subscription delivers of what is published.
    pub open spec fn delivers(self, published: Seq<MessageView>) -> Seq<MessageView>
        decreases published.len(),
    {
        if published.len() == 0 {
            Seq::empty()
        } else {
            let m = published[0];
            let rest = self.after(m).delivers(published.skip(1));
            if self.admits(m) {
                seq![m] + rest
            } else {
                rest
            }
        }
    }
}

/// The last position of what was replayed, or the one before the first that was asked for.
pub open spec fn replayed_to(from: u64, replay: Seq<MessageView>) -> u64 {
    if replay.len() == 0 {
        (from - 1) as u64
    } else {
        replay.last().head_id
    }
}

/// What comes in while a subscription is live.
pub enum LiveEvent {
    /// A message was published.
    Published(StoredMessage),
    /// Messages were dropped before the subscription took them; the text says how many.
    Lagged(String),
}

/// What a live subscription does next.
pub enum LiveAction {
    /// It sends this message.
    Send(MessageEnvelope),
    /// It waits for the next event.
    Wait,
    /// It ends with this status.
    End(Status),
}

/// What is said to a subscription that messages were dropped for.
pub open spec fn lagged_status(text: Seq<char>) -> StatusView {
    StatusView { code: Code::Unavailable, message: "subscription lagged: "@ + text }
}

/// `replay` is what is replayed, and `sub` is the subscription behind it.
pub open spec fn is_subscribed(
    state: crate::store::StoreView,
    log: LogView,
    from: u64,
    limit: nat,
    out: Seq<crate::wire::EnvelopeView>,
    last_sent: u64,
) -> bool {
    exists|page: Seq<MessageView>| #[trigger]
        state.is_page(log, from, limit, page) && out == crate::service::envelopes_of(page)
            && last_sent == replayed_to(from, page)
}

impl<S: MsgbusStore> MsgbusGrpcService<S> {
    /// Opens a subscription: gives the stored messages that it replays, and what is to be known
    /// to go on with what is published from then on.
    pub fn subscribe(&self, request: SubscribeRequest) -> (res: Result<
        (Subscription, Vec<MessageEnvelope>),
        Status,
    >)
        requires
            self.store.valid(),
        ensures
            match crate::service::log_for(
                self.node@,
                request.topic@,
                crate::wire::optional_node(request.origin),
            ) {
                Err(e) => res matches Err(status) && status@ == e,
                Ok(log) => match res {
                    Ok((sub, replay)) => {
                        &&& self.store.state().wf()
                        &&& sub.topic@ == request.topic@
                        &&& crate::service::origin_for(
                            self.node@,
                            crate::wire::optional_node(request.origin),
                        ) == Ok::<NodeView, StatusView>(sub.origin@)
                        &&& is_subscribed(
                            self.store.state(),
                            log,
                            crate::service::first_position(request.from_head_id),
                            replay_size(request.replay_limit),
                            crate::engine::values_of(replay@),
                            sub.last_sent,
                        )
                    },
                    Err(status) => !S::reliable() && crate::service::fetch_failed(
                        &self.store,
                        log,
                        crate::service::first_position(request.from_head_id),
                        if request.replay_limit == 0 {
                            DEFAULT_REPLAY_LIMIT
                        } else {
                            request.replay_limit
                        },
                        status@,
                    ),
                },
            },
    {
        let topic = match Topic::new(request.topic.as_str()) {
            Ok(topic) => topic,
            Err(e) => return Err(status_from_error(e)),
        };
        let origin = self.request_origin(request.origin)?;
        let from = start_position(request.from_head_id);
        let limit: u32 = if request.replay_limit == 0 {
            DEFAULT_REPLAY_LIMIT
        } else {
            request.replay_limit
        };
        let query = FetchQuery {
            topic: topic.clone(),
            origin: origin.clone(),
            from_head_id: from,
            limit,
        };
        let replay = match self.store.fetch_messages(query) {
            Ok(replay) => replay,
            Err(e) => return Err(status_from_error(e)),
        };
        let ghost page = crate::engine::values_of(replay@);
        let ghost log = crate::keys::log_of(topic@, origin@);
        let mut last_sent: u64 = from.0.saturating_sub(1);
        for i in 0..replay.len()
            invariant
                from.0 >= 1,
                page == crate::engine::values_of(replay@),
                self.store.state().is_page(log, from.0, replay_size(request.replay_limit), page),
                last_sent == replayed_to(from.0, page.take(i as int)),
        {
            let head: u64 = replay[i].head_id.0;
            assert(page[i as int].head_id == head);
            proof {
                if i > 0 {
                    assert(page.take(i as int).last() == page[i - 1]);
                    assert(page[i - 1].head_id < page[i as int].head_id);
                }
                assert(page.take(i + 1).last() == page[i as int]);
            }
            if last_sent < head {
                last_sent = head;
            }
        }
        assert(page.take(page.len() as int) =~= page);
        Ok((Subscription { topic, origin, last_sent }, proto_messages(replay)))
    }
}

impl Subscription {
    /// Takes one event, and says what to do: a message of the log that stands behind all that was
    /// delivered is sent, another one is passed over, and dropped messages end the subscription.
    pub fn on_live(&mut self, event: LiveEvent) -> (res: LiveAction)
        ensures
            final(self).topic@ == old(self).topic@,
            final(self).origin@ == old(self).origin@,
            event matches LiveEvent::Published(message) ==> if message.topic@ == old(self).topic@
                && message.origin@ == old(self).origin@ && message.head_id.0
                > old(self).last_sent {
                &&& final(self).last_sent == message.head_id.0
                &&& res matches LiveAction::Send(envelope)
                &&& envelope.id@ == message.id@
                &&& envelope.topic@ == message.topic@
                &&& crate::wire::optional_node(envelope.origin) == Some(message.origin@)
                &&& envelope.head_id == message.head_id.0
                &&& envelope.payload@ == message.payload@
                &&& envelope.headers@ == message.headers@
                &&& envelope.created_at_ms == message.created_at_ms
                &&& envelope.deleted == message.deleted
            } else {
                final(self).last_sent == old(self).last_sent && res is Wait
            },
            match event {
                LiveEvent::Published(message) => {
                    &&& final(self)@ == old(self)@.after(message@)
                    &&& if old(self)@.admits(message@) {
                        res matches LiveAction::Send(envelope) && envelope@
                            == crate::wire::envelope_of(message@)
                    } else {
                        res is Wait
                    }
                },
                LiveEvent::Lagged(text) => {
                    &&& *final(self) == *old(self)
                    &&& res matches LiveAction::End(status) && status@ == lagged_status(text@)
                },
            },
    {
        match event {
            LiveEvent::Published(message) => {
                if message.topic == self.topic && message.origin == self.origin
                    && message.head_id.0 > self.last_sent {
                    self.last_sent = message.head_id.0;
                    LiveAction::Send(proto_message(message))
                } else {
                    LiveAction::Wait
                }
            },
            LiveEvent::Lagged(text) => {
                let mut line = "subscription lagged: ".to_owned();
                line.append(text.as_str());
                assert(line@ == "subscription lagged: "@ + text@);
                LiveAction::End(Status { code: Code::Unavailable, message: line })
            },
        }
    }
}

/// A subscription delivers messages of its log only, each behind the ones before: no position
/// comes twice, and none of those that were replayed comes again.
pub proof fn law_delivery_in_order(sub: SubscriptionView, published: Seq<MessageView>)
    ensures
        ({
            let out = sub.delivers(published);
            &&& forall|i: int|
                0 <= i < out.len() ==> (#[trigger] out[i]).topic == sub.topic && out[i].origin
                    == sub.origin && out[i].head_id > sub.last_sent
            &&& forall|i: int, j: int|
                0 <= i < j < out.len() ==> (#[trigger] out[i]).head_id < (
                #[trigger] out[j]).head_id
            &&& forall|i: int|
                0 <= i < out.len() ==> published.contains(#[trigger] out[i])
        }),
    decreases published.len(),
{
    if published.len() > 0 {
        let m = published[0];
        let next = sub.after(m);
        let rest = next.delivers(published.skip(1));
        law_delivery_in_order(next, published.skip(1));
        let out = sub.delivers(published);
        assert forall|i: int| 0 <= i < rest.len() implies published.contains(
            #[trigger] rest[i],
        ) by {
            let j = choose|j: int|
                0 <= j < published.skip(1).len() && published.skip(1)[j] == rest[i];
            assert(published[j + 1] == rest[i]);
        }
        if sub.admits(m) {
            assert(out =~= seq![m] + rest);
            assert forall|i: int| 0 < i < out.len() implies out[i] == #[trigger] rest[i - 1] by {}
            assert forall|i: int, j: int| 0 <= i < j < out.len() implies (#[trigger] out[i]).head_id
                < (#[trigger] out[j]).head_id by {
                assert(out[j] == rest[j - 1]);
                if i > 0 {
                    assert(out[i] == rest[i - 1]);
                }
            }
            assert forall|i: int| 0 <= i < out.len() implies published.contains(
                #[trigger] out[i],
            ) by {
                if i > 0 {
                    assert(out[i] == rest[i - 1]);
                } else {
                    assert(published[0] == out[0]);
                }
            }
            assert forall|i: int| 0 <= i < out.len() implies (#[trigger] out[i]).topic == sub.topic
                && out[i].origin == sub.origin && out[i].head_id > sub.last_sent by {
                if i > 0 {
                    assert(out[i] == rest[i - 1]);
                }
            }
        }
    }
}

/// A subscription misses nothing: messages of its log that are published in the order of their
/// positions, behind what was delivered, are all delivered, whatever else is published between.
pub proof fn law_delivery_is_complete(sub: SubscriptionView, published: Seq<MessageView>, k: int)
    requires
        0 <= k < published.len(),
        published[k].topic == sub.topic,
        published[k].origin == sub.origin,
        published[k].head_id > sub.last_sent,
        forall|i: int, j: int|
            0 <= i < j < published.len() && (#[trigger] published[i]).topic == sub.topic
                && published[i].origin == sub.origin && (#[trigger] published[j]).topic
                == sub.topic && published[j].origin == sub.origin ==> published[i].head_id
                < published[j].head_id,
    ensures
        sub.delivers(published).contains(published[k]),
    decreases published.len(),
{
    let m = published[0];
    let rest = sub.after(m).delivers(published.skip(1));
    let out = sub.delivers(published);
    if k == 0 {
        assert(out =~= seq![m] + rest);
        assert(out[0] == m);
    } else {
        let tail = published.skip(1);
        assert forall|i: int, j: int|
            0 <= i < j < tail.len() && (#[trigger] tail[i]).topic == sub.topic && tail[i].origin
                == sub.origin && (#[trigger] tail[j]).topic == sub.topic && tail[j].origin
                == sub.origin implies tail[i].head_id < tail[j].head_id by {
            assert(tail[i] == published[i + 1] && tail[j] == published[j + 1]);
        }
        assert(tail[k - 1] == published[k]);
        if sub.admits(m) {
            assert(published[0].head_id < published[k].head_id);
        }
        law_delivery_is_complete(sub.after(m), tail, k - 1);
        let i = choose|i: int| 0 <= i < rest.len() && rest[i] == published[k];
        if sub.admits(m) {
            assert(out =~= seq![m] + rest);
            assert(out[i + 1] == published[k]);
        } else {
            assert(out[i] == published[k]);
        }
    }
}

/// What a subscription replays and what it delivers from then on form one stream of messages of
/// its topic and its origin, by rising positions from the first one that was asked for.
pub proof fn law_replay_and_live_in_order(
    state: crate::store::StoreView,
    from: u64,
    limit: nat,
    page: Seq<MessageView>,
    sub: SubscriptionView,
    published: Seq<MessageView>,
)
    requires
        state.wf(),
        from >= 1,
        state.is_page(crate::keys::log_of(sub.topic, sub.origin), from, limit, page),
        sub.last_sent == replayed_to(from, page),
    ensures
        ({
            let stream = page + sub.delivers(published);
            &&& forall|i: int|
                0 <= i < stream.len() ==> (#[trigger] stream[i]).topic == sub.topic
                    && stream[i].origin == sub.origin && from <= stream[i].head_id
            &&& forall|i: int, j: int|
                0 <= i < j < stream.len() ==> (#[trigger] stream[i]).head_id < (
                #[trigger] stream[j]).head_id
        }),
{
    let log = crate::keys::log_of(sub.topic, sub.origin);
    law_delivery_in_order(sub, published);
    let live = sub.delivers(published);
    let stream = page + live;
    let n = page.len() as int;
    if n > 0 {
        assert(page.last() == page[n - 1]);
        assert(from <= page[n - 1].head_id);
    }
    assert forall|i: int| 0 <= i < stream.len() implies (#[trigger] stream[i]).topic == sub.topic
        && stream[i].origin == sub.origin && from <= stream[i].head_id by {
        if i < n {
            assert(stream[i] == page[i]);
            assert(crate::store::message_log(page[i]) == log);
        } else {
            assert(stream[i] == live[i - n]);
        }
    }
    assert forall|i: int, j: int| 0 <= i < j < stream.len() implies (#[trigger] stream[i]).head_id
        < (#[trigger] stream[j]).head_id by {
        if j < n {
            assert(stream[i] == page[i] && stream[j] == page[j]);
        } else {
            assert(stream[j] == live[j - n]);
            if i < n {
                assert(stream[i] == page[i]);
                if i < n - 1 {
                    assert(page[i].head_id < page[n - 1].head_id);
                }
            } else {
                assert(stream[i] == live[i - n]);
            }
        }
    }
}

} // verus!

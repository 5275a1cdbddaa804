//! What the daemon answers to the calls that reach it.

use std::collections::BTreeMap;

use vstd::prelude::*;
use vstd::string::*;

use crate::clock::now_ms;
use crate::error::ErrorView;
use crate::error::MsgbusError;
use crate::ids::HeadId;
use crate::ids::NodeId;
use crate::ids::NodeView;
use crate::ids::QueueName;
use crate::ids::Topic;
use crate::keys::LogView;
use crate::message::FetchQuery;
use crate::message::MessageView;
use crate::message::NewFifoMessage;
use crate::message::NewFifoView;
use crate::message::NewMessage;
use crate::message::NewMessageView;
use crate::message::PeerSyncState;
use crate::message::StoredFifoMessage;
use crate::message::StoredMessage;
use crate::message::SyncStateView;
use crate::message::TombstoneRange;
use crate::message::TopicHead;
use crate::message::TopicHeadView;
use crate::status::status_from_error;
use crate::status::Code;
use crate::status::Status;
use crate::status::StatusView;
use crate::store::MsgbusStore;
use crate::store::StoreView;
use crate::text::same_text;
use crate::wire::core_node;
use crate::wire::fifo_ack_parts;
use crate::wire::proto_fifo;
use crate::wire::proto_message;
use crate::wire::proto_node;
use crate::wire::proto_sync_state;
use crate::wire::proto_topic_head;
use crate::wire::reject_fifo_parts;
use crate::wire::AckFifoRequest;
use crate::wire::DeleteRangeRequest;
use crate::wire::DeleteRangeResponse;
use crate::wire::EnqueueFifoRequest;
use crate::wire::EnvelopeView;
use crate::wire::FetchRequest;
use crate::wire::FifoMessageView;
use crate::wire::FifoResponse;
use crate::wire::GetHeadRequest;
use crate::wire::GetHeadResponse;
use crate::wire::HealthResponse;
use crate::wire::MessageEnvelope;
use crate::wire::PeekFifoRequest;
use crate::wire::PublishRequest;
use crate::wire::PublishResponse;
use crate::wire::ReadyResponse;
use crate::wire::RejectFifoRequest;
use crate::wire::WireHeadView;
use crate::wire::WireNode;
use crate::wire::WireSyncState;
use crate::wire::WireSyncView;
use crate::wire::WireTopicHead;

verus! {

/// The topic of the messages that tell of deleted ranges.
pub const DELETE_TOPIC: &'static str = "$msgbus.delete";

/// The daemon: a store, and the node that it is the store of.
pub struct MsgbusGrpcService<S: MsgbusStore> {
    pub store: S,
    pub node: NodeId,
}

/// The node that a call speaks of: the local one where it names none.
pub open spec fn origin_for(local: NodeView, origin: Option<NodeView>) -> Result<
    NodeView,
    StatusView,
> {
    match origin {
        None => Ok(local),
        Some(node) => match crate::wire::node_error(node) {
            Some(e) => Err(e),
            None => Ok(
                if node.is_empty() {
                    local
                } else {
                    node
                },
            ),
        },
    }
}

/// The node that a call writes for, which can only be the local one.
pub open spec fn write_origin_for(local: NodeView, origin: Option<NodeView>) -> Result<
    NodeView,
    StatusView,
> {
    match origin_for(local, origin) {
        Err(e) => Err(e),
        Ok(node) => if node == local {
            Ok(node)
        } else {
            Err(crate::status::bad_argument("writes are accepted for the local node only"@))
        },
    }
}

/// The log that a call reads, or the first fault of what names it.
pub open spec fn log_for(
    local: NodeView,
    topic: Seq<char>,
    origin: Option<NodeView>,
) -> Result<LogView, StatusView> {
    match crate::wire::name_error("topic"@, topic) {
        Some(e) => Err(e),
        None => match origin_for(local, origin) {
            Err(e) => Err(e),
            Ok(node) => Ok(crate::keys::log_of(topic, node)),
        },
    }
}

/// The node that a call writes for in a topic, or the first fault of what names the two.
pub open spec fn writer_for(
    local: NodeView,
    topic: Seq<char>,
    origin: Option<NodeView>,
) -> Result<NodeView, StatusView> {
    match crate::wire::name_error("topic"@, topic) {
        Some(e) => Err(e),
        None => write_origin_for(local, origin),
    }
}

/// Messages as they read on the wire.
pub open spec fn envelopes_of(page: Seq<MessageView>) -> Seq<EnvelopeView> {
    page.map_values(|m: MessageView| crate::wire::envelope_of(m))
}

/// `out` is a page of a log as it reads on the wire.
pub open spec fn is_wire_page(
    state: StoreView,
    log: LogView,
    from: u64,
    limit: nat,
    out: Seq<EnvelopeView>,
) -> bool {
    exists|page: Seq<MessageView>| #[trigger]
        state.is_page(log, from, limit, page) && out == envelopes_of(page)
}

/// Last positions as they read on the wire.
pub open spec fn wire_heads_of(heads: Seq<TopicHeadView>) -> Seq<WireHeadView> {
    heads.map_values(|h: TopicHeadView| crate::wire::wire_head_of(h))
}

/// States of logs at peers as they read on the wire.
pub open spec fn wire_states_of(states: Seq<SyncStateView>) -> Seq<WireSyncView> {
    states.map_values(|s: SyncStateView| crate::wire::wire_sync_of(s))
}

/// Positions start at one: a request from position zero is one from position one.
pub open spec fn first_position(from: u64) -> u64 {
    if from == 0 {
        1
    } else {
        from
    }
}

/// The position from which a request reads.
pub fn start_position(from: u64) -> (res: HeadId)
    ensures
        res.0 == first_position(from),
        from >= 1 ==> res.0 == from,
        from == 0 ==> res.0 == 1,
{
    if from == 0 {
        HeadId(1)
    } else {
        HeadId(from)
    }
}

/// Messages for the wire.
pub fn proto_messages(messages: Vec<StoredMessage>) -> (res: Vec<MessageEnvelope>)
    ensures
        crate::engine::values_of(res@) == envelopes_of(crate::engine::values_of(messages@)),
{
    let mut out: Vec<MessageEnvelope> = Vec::new();
    for i in 0..messages.len()
        invariant
            out@.len() == i,
            forall|j: int|
                0 <= j < i ==> (#[trigger] out@[j])@ == crate::wire::envelope_of(messages@[j]@),
    {
        out.push(proto_message(messages[i].clone()));
    }
    assert(crate::engine::values_of(out@) =~= envelopes_of(crate::engine::values_of(messages@)));
    out
}

impl<S: MsgbusStore> MsgbusGrpcService<S> {
    /// The daemon of `node`, over `store`.
    pub fn new(store: S, node: NodeId) -> (res: MsgbusGrpcService<S>)
        ensures
            res.store == store,
            res.node == node,
    {
        MsgbusGrpcService { store, node }
    }

    /// The node that a call speaks of: the local one where it names none.
    pub fn request_origin(&self, origin: Option<WireNode>) -> (res: Result<NodeId, Status>)
        ensures
            match res {
                Ok(node) => origin_for(self.node@, crate::wire::optional_node(origin)) == Ok::<
                    NodeView,
                    StatusView,
                >(node@),
                Err(status) => origin_for(self.node@, crate::wire::optional_node(origin)) == Err::<
                    NodeView,
                    StatusView,
                >(status@),
            },
    {
        match origin {
            Some(origin) => {
                let node = core_node(origin)?;
                if node.is_empty() {
                    Ok(self.node.clone())
                } else {
                    Ok(node)
                }
            },
            None => Ok(self.node.clone()),
        }
    }

    /// The node that a call writes for, which can only be the local one.
    pub fn write_origin(&self, origin: Option<WireNode>) -> (res: Result<NodeId, Status>)
        ensures
            match res {
                Ok(node) => write_origin_for(self.node@, crate::wire::optional_node(origin))
                    == Ok::<NodeView, StatusView>(node@),
                Err(status) => write_origin_for(self.node@, crate::wire::optional_node(origin))
                    == Err::<NodeView, StatusView>(status@),
            },
    {
        let node = self.request_origin(origin)?;
        if node == self.node {
            Ok(node)
        } else {
            Err(Status::invalid_argument("writes are accepted for the local node only"))
        }
    }

    /// Appends a message to the log of its topic and the local node. The message goes out to the
    /// live subscriptions.
    pub fn publish(&mut self, request: PublishRequest) -> (res: Result<
        (PublishResponse, StoredMessage),
        Status,
    >)
        requires
            old(self).store.valid(),
        ensures
            final(self).store.valid(),
            final(self).node == old(self).node,
            res matches Ok((response, stored)) ==> {
                let log = LogView { topic: request.topic@, origin: old(self).node@ };
                let before = old(self).store.state();
                let after = final(self).store.state();
                let place = (log, stored.head_id.0);
                &&& stored.topic@ == request.topic@
                &&& stored.origin@ == old(self).node@
                &&& stored.payload@ == request.payload@
                &&& stored.headers@ == request.headers@
                &&& !stored.deleted
                &&& crate::ids::was_drawn(stored.id@)
                &&& crate::clock::is_reading(stored.created_at_ms)
                &&& !before.heads.contains_key(log) ==> stored.head_id.0 == 1
                &&& before.heads.contains_key(log) && before.heads[log] < u64::MAX
                    ==> stored.head_id.0 == before.heads[log] + 1
                &&& after.messages.contains_key(place)
                &&& after.messages[place].id == stored.id@
                &&& after.messages[place].topic == request.topic@
                &&& after.messages[place].origin == old(self).node@
                &&& after.messages[place].payload == request.payload@
                &&& after.messages[place].headers == request.headers@
                &&& after.messages[place].created_at_ms == stored.created_at_ms
                &&& !after.messages[place].deleted
                &&& after.heads == before.heads.insert(log, stored.head_id.0)
                &&& after.messages == before.messages.insert(place, after.messages[place])
                &&& response.message is Some
                &&& (response.message->0).id@ == stored.id@
                &&& (response.message->0).topic@ == request.topic@
                &&& crate::wire::optional_node((response.message->0).origin) == Some(
                    old(self).node@,
                )
                &&& (response.message->0).head_id == stored.head_id.0
                &&& (response.message->0).payload@ == request.payload@
                &&& (response.message->0).headers@ == request.headers@
                &&& (response.message->0).created_at_ms == stored.created_at_ms
                &&& !(response.message->0).deleted
            },
            match writer_for(
                old(self).node@,
                request.topic@,
                crate::wire::optional_node(request.origin),
            ) {
                Err(e) => res matches Err(status) && status@ == e && final(self).store.state()
                    == old(self).store.state(),
                Ok(origin) => match res {
                    Ok((response, stored)) => {
                        let log = crate::keys::log_of(request.topic@, origin);
                        &&& old(self).store.state().wf()
                        &&& crate::ids::is_random_id(stored.id@)
                        &&& stored@ == crate::message::placed(
                            NewMessageView {
                                id: stored.id@,
                                topic: request.topic@,
                                origin,
                                payload: request.payload@,
                                headers: request.headers@,
                            },
                            crate::ids::after(old(self).store.state().head_of(log)),
                            stored.created_at_ms,
                        )
                        &&& final(self).store.state() == old(self).store.state().appended(stored@)
                        &&& response.message matches Some(envelope) && envelope@
                            == crate::wire::envelope_of(stored@)
                    },
                    Err(status) => {
                        &&& !S::reliable()
                        &&& final(self).store.state() == old(self).store.state()
                        &&& publish_failed::<S>(
                            old(self).store.state(),
                            request.topic@,
                            origin,
                            request.payload@,
                            request.headers@,
                            status@,
                        )
                    },
                },
            },
    {
        let topic = match Topic::new(request.topic.as_str()) {
            Ok(topic) => topic,
            Err(e) => return Err(status_from_error(e)),
        };
        let origin = self.write_origin(request.origin)?;
        let message = NewMessage::new(topic, origin, request.payload, request.headers);
        match self.store.append_message(message) {
            Ok(stored) => Ok(
                (PublishResponse { message: Some(proto_message(stored.clone())) }, stored),
            ),
            Err(e) => Err(status_from_error(e)),
        }
    }

    /// The messages of a log from a position on, at most a page.
    pub fn fetch(&self, request: FetchRequest) -> (res: Result<Vec<MessageEnvelope>, Status>)
        requires
            self.store.valid(),
        ensures
            match log_for(
                self.node@,
                request.topic@,
                crate::wire::optional_node(request.origin),
            ) {
                Err(e) => res matches Err(status) && status@ == e,
                Ok(log) => match res {
                    Ok(out) => is_wire_page(
                        self.store.state(),
                        log,
                        first_position(request.from_head_id),
                        crate::engine::page_size(request.limit),
                        crate::engine::values_of(out@),
                    ),
                    Err(status) => !S::reliable() && fetch_failed(
                        &self.store,
                        log,
                        first_position(request.from_head_id),
                        request.limit,
                        status@,
                    ),
                },
            },
    {
        let topic = match Topic::new(request.topic.as_str()) {
            Ok(topic) => topic,
            Err(e) => return Err(status_from_error(e)),
        };
        let origin = self.request_origin(request.origin)?;
        let query = FetchQuery {
            topic,
            origin,
            from_head_id: start_position(request.from_head_id),
            limit: request.limit,
        };
        let ghost log = crate::keys::log_of(topic@, origin@);
        match self.store.fetch_messages(query) {
            Ok(messages) => {
                assert(self.store.state().is_page(
                    log,
                    first_position(request.from_head_id),
                    crate::engine::page_size(request.limit),
                    crate::engine::values_of(messages@),
                ));
                Ok(proto_messages(messages))
            },
            Err(e) => Err(status_from_error(e)),
        }
    }

    /// The last position of a log.
    pub fn get_head(&self, request: GetHeadRequest) -> (res: Result<GetHeadResponse, Status>)
        requires
            self.store.valid(),
        ensures
            match log_for(
                self.node@,
                request.topic@,
                crate::wire::optional_node(request.origin),
            ) {
                Err(e) => res matches Err(status) && status@ == e,
                Ok(log) => match res {
                    Ok(response) => {
                        &&& response.head_id == self.store.state().head_of(log)
                        &&& response.found == self.store.state().heads.contains_key(log)
                    },
                    Err(status) => !S::reliable() && head_failed(&self.store, log, status@),
                },
            },
    {
        let topic = match Topic::new(request.topic.as_str()) {
            Ok(topic) => topic,
            Err(e) => return Err(status_from_error(e)),
        };
        let origin = self.request_origin(request.origin)?;
        match self.store.get_head(&topic, &origin) {
            Ok(Some(head)) => Ok(GetHeadResponse { head_id: head.0, found: true }),
            Ok(None) => Ok(GetHeadResponse { head_id: 0, found: false }),
            Err(e) => {
                assert(crate::store::head_unread(
                    &self.store,
                    crate::keys::log_of(topic@, origin@),
                    e@,
                ));
                Err(status_from_error(e))
            },
        }
    }

    /// The last positions of all logs.
    pub fn list_heads(&self) -> (res: Result<Vec<WireTopicHead>, Status>)
        requires
            self.store.valid(),
        ensures
            match res {
                Ok(out) => exists|heads: Seq<TopicHeadView>| #[trigger]
                    self.store.state().lists_heads(heads) && crate::engine::values_of(out@)
                        == wire_heads_of(heads),
                Err(status) => !S::reliable() && heads_failed(&self.store, status@),
            },
    {
        let heads = match self.store.list_heads() {
            Ok(heads) => heads,
            Err(e) => return Err(status_from_error(e)),
        };
        let ghost listed = crate::engine::values_of(heads@);
        let mut out: Vec<WireTopicHead> = Vec::new();
        for head in iter: heads
            invariant
                listed == crate::engine::values_of(iter.seq()),
                out@.len() == iter.index(),
                forall|j: int|
                    0 <= j < iter.index() ==> (#[trigger] out@[j])@ == crate::wire::wire_head_of(
                        listed[j],
                    ),
        {
            out.push(proto_topic_head(head));
        }
        assert(crate::engine::values_of(out@) =~= wire_heads_of(listed));
        Ok(out)
    }

    /// Marks a range of a local log as deleted, and appends a message that tells of it to the
    /// local log of [`DELETE_TOPIC`], both or neither; `encode` writes the range down for that
    /// message. The message goes out to the live subscriptions, and to the peers with its log.
    /// A deletion is a write, and a client's writes are for the daemon's own node only (see
    /// [`crate::client::MsgbusClient::with_default_origin`]), so a range of another node's log is
    /// refused as any other write for that node is.
    pub fn delete_range<F: Fn(&TombstoneRange) -> Result<Vec<u8>, String>>(
        &mut self,
        request: DeleteRangeRequest,
        encode: F,
    ) -> (res: Result<(DeleteRangeResponse, StoredMessage), Status>)
        requires
            old(self).store.valid(),
            forall|range: &TombstoneRange| call_requires(encode, (range,)),
        ensures
            final(self).store.valid(),
            final(self).node == old(self).node,
            res matches Ok((response, marker)) ==> {
                &&& marker.topic@ == "$msgbus.delete"@
                &&& marker.origin@ == old(self).node@
                &&& !marker.deleted
                &&& crate::ids::was_drawn(marker.id@)
                &&& crate::clock::is_reading(marker.created_at_ms)
                &&& request.from_head_id <= request.to_head_id
                &&& forall|l: LogView, h: u64|
                    #![trigger final(self).store.state().messages[(l, h)]]
                    old(self).store.state().messages.contains_key((l, h)) && !(l.topic == marker.topic@
                        && l.origin == marker.origin@ && h == marker.head_id.0) ==> {
                        let was = old(self).store.state().messages[(l, h)];
                        let is = final(self).store.state().messages[(l, h)];
                        &&& final(self).store.state().messages.contains_key((l, h))
                        &&& is.deleted == (was.deleted || l.topic == request.topic@ && l.origin
                            == old(self).node@ && request.from_head_id <= h
                            <= request.to_head_id)
                        &&& is.payload == was.payload
                    }
            },
            match writer_for(
                old(self).node@,
                request.topic@,
                crate::wire::optional_node(request.origin),
            ) {
                Err(e) => res matches Err(status) && status@ == e && final(self).store.state()
                    == old(self).store.state(),
                Ok(origin) => match res {
                    Ok((response, marker)) => {
                        let log = crate::keys::log_of(request.topic@, origin);
                        let live = old(self).store.state().live(
                            log,
                            request.from_head_id,
                            request.to_head_id,
                        );
                        &&& request.from_head_id <= request.to_head_id
                        &&& live.finite()
                        &&& response.deleted_count == live.len()
                        &&& was_deleted(
                            old(self).store.state(),
                            final(self).store.state(),
                            old(self).node@,
                            request.topic@,
                            origin,
                            request.from_head_id,
                            request.to_head_id,
                            marker@,
                        )
                        &&& was_encoded(
                            encode,
                            request.topic@,
                            origin,
                            request.from_head_id,
                            request.to_head_id,
                            marker.payload@,
                        )
                    },
                    Err(status) => {
                        &&& final(self).store.state() == old(self).store.state()
                        &&& {
                            ||| not_encoded(
                                encode,
                                request.topic@,
                                origin,
                                request.from_head_id,
                                request.to_head_id,
                                status@,
                            )
                            ||| request.from_head_id > request.to_head_id && status@
                                == crate::status::status_of(crate::engine::range_error())
                            ||| request.from_head_id <= request.to_head_id && !S::reliable()
                                && delete_failed::<S, F>(
                                old(self).store.state(),
                                old(self).node@,
                                encode,
                                request.topic@,
                                origin,
                                request.from_head_id,
                                request.to_head_id,
                                status@,
                            )
                        }
                    },
                },
            },
    {
        let topic = match Topic::new(request.topic.as_str()) {
            Ok(topic) => topic,
            Err(e) => return Err(status_from_error(e)),
        };
        let origin = self.write_origin(request.origin)?;
        let range = TombstoneRange {
            topic,
            origin,
            from_head_id: HeadId(request.from_head_id),
            to_head_id: HeadId(request.to_head_id),
            created_at_ms: now_ms(),
        };
        let payload = match encode(&range) {
            Ok(payload) => payload,
            Err(text) => {
                let mut line = "failed to encode tombstone: ".to_owned();
                line.append(text.as_str());
                assert(line@ == "failed to encode tombstone: "@ + text@);
                return Err(Status { code: Code::Internal, message: line });
            },
        };
        let control = match Topic::new(DELETE_TOPIC) {
            Ok(topic) => topic,
            Err(e) => {
                proof {
                    lemma_delete_topic_is_valid();
                }
                return Err(status_from_error(e));
            },
        };
        let marker = NewMessage::new(control, self.node.clone(), payload, BTreeMap::new());
        match self.store.tombstone_range_with_marker(
            &range.topic,
            &range.origin,
            range.from_head_id,
            range.to_head_id,
            marker,
        ) {
            Ok((deleted_count, marker)) => Ok((DeleteRangeResponse { deleted_count }, marker)),
            Err(e) => Err(status_from_error(e)),
        }
    }

    /// Puts a message at the back of a queue.
    pub fn enqueue_fifo(&mut self, request: EnqueueFifoRequest) -> (res: Result<
        FifoResponse,
        Status,
    >)
        requires
            old(self).store.valid(),
        ensures
            final(self).store.valid(),
            final(self).node == old(self).node,
            res matches Ok(response) ==> {
                let before = old(self).store.state();
                let after = final(self).store.state();
                &&& response.message is Some
                &&& request.target is Some
                &&& {
                    let message = response.message->0;
                    let place = (request.queue@, message.sequence);
                    let there = after.fifo[place];
                    &&& message.queue@ == request.queue@
                    &&& message.topic@ == request.topic@
                    &&& crate::wire::optional_node(message.source) == Some(old(self).node@)
                    &&& crate::wire::optional_node(message.target) == Some((request.target->0)@)
                    &&& message.payload@ == request.payload@
                    &&& message.headers@ == request.headers@
                    &&& message.attempts == 0
                    &&& crate::ids::was_drawn(message.id@)
                    &&& crate::clock::is_reading(message.created_at_ms)
                    &&& !before.sequences.contains_key(request.queue@) ==> message.sequence == 1
                    &&& before.sequences.contains_key(request.queue@)
                        && before.sequences[request.queue@] < u64::MAX ==> message.sequence
                        == before.sequences[request.queue@] + 1
                    &&& after.fifo == before.fifo.insert(place, there)
                    &&& there.id == message.id@
                    &&& there.queue == request.queue@
                    &&& there.topic == request.topic@
                    &&& there.source == old(self).node@
                    &&& there.target == (request.target->0)@
                    &&& there.payload == request.payload@
                    &&& there.headers == request.headers@
                    &&& there.sequence == message.sequence
                    &&& there.attempts == 0
                    &&& there.created_at_ms == message.created_at_ms
                }
            },
            match enqueue_parts(
                old(self).node@,
                request.queue@,
                request.topic@,
                crate::wire::optional_node(request.source),
                crate::wire::optional_node(request.target),
            ) {
                Err(e) => res matches Err(status) && status@ == e && final(self).store.state()
                    == old(self).store.state(),
                Ok((source, target)) => match res {
                    Ok(response) => response.message matches Some(message) && was_enqueued(
                        old(self).store.state(),
                        final(self).store.state(),
                        NewFifoView {
                            id: message.id@,
                            queue: request.queue@,
                            topic: request.topic@,
                            source,
                            target,
                            payload: request.payload@,
                            headers: request.headers@,
                        },
                        message@,
                    ),
                    Err(status) => {
                        &&& !S::reliable()
                        &&& final(self).store.state() == old(self).store.state()
                        &&& enqueue_failed::<S>(
                            old(self).store.state(),
                            NewFifoView {
                                id: Seq::empty(),
                                queue: request.queue@,
                                topic: request.topic@,
                                source,
                                target,
                                payload: request.payload@,
                                headers: request.headers@,
                            },
                            status@,
                        )
                    },
                },
            },
    {
        let queue = match QueueName::new(request.queue.as_str()) {
            Ok(queue) => queue,
            Err(e) => return Err(status_from_error(e)),
        };
        let topic = match Topic::new(request.topic.as_str()) {
            Ok(topic) => topic,
            Err(e) => return Err(status_from_error(e)),
        };
        let source = self.write_origin(request.source)?;
        let target = match request.target {
            Some(target) => core_node(target)?,
            None => return Err(Status::invalid_argument("target is required")),
        };
        let message = NewFifoMessage::new(
            queue,
            topic,
            source,
            target,
            request.payload,
            request.headers,
        );
        match self.store.enqueue_fifo(message) {
            Ok(stored) => Ok(FifoResponse { message: Some(proto_fifo(stored)) }),
            Err(e) => Err(status_from_error(e)),
        }
    }

    /// The front message of a queue, left where it is.
    pub fn peek_fifo(&self, request: PeekFifoRequest) -> (res: Result<FifoResponse, Status>)
        requires
            self.store.valid(),
        ensures
            match crate::wire::name_error("queue"@, request.queue@) {
                Some(e) => res matches Err(status) && status@ == e,
                None => match res {
                    Ok(response) => exists|s: u64| #[trigger]
                        self.store.state().is_front(request.queue@, s) && (
                        response.message matches Some(message) && message@
                            == crate::wire::fifo_message_of(
                            self.store.state().fifo[(request.queue@, s)],
                        )),
                    Err(status) => {
                        ||| self.store.state().queue_empty(request.queue@) && status@
                            == queue_empty_status()
                        ||| !S::reliable() && peek_failed(&self.store, request.queue@, status@)
                    },
                },
            },
    {
        let queue = match QueueName::new(request.queue.as_str()) {
            Ok(queue) => queue,
            Err(e) => return Err(status_from_error(e)),
        };
        match self.store.peek_fifo(&queue) {
            Ok(Some(message)) => Ok(FifoResponse { message: Some(proto_fifo(message)) }),
            Ok(None) => Err(
                Status { code: Code::NotFound, message: "fifo queue is empty".to_owned() },
            ),
            Err(e) => Err(status_from_error(e)),
        }
    }

    /// Takes the front message of a queue away, if it is the one that is acknowledged, and says
    /// whether it was.
    pub fn ack_fifo(&mut self, request: AckFifoRequest) -> (res: Result<bool, Status>)
        requires
            old(self).store.valid(),
        ensures
            final(self).store.valid(),
            final(self).node == old(self).node,
            ({
                let before = old(self).store.state();
                let after = final(self).store.state();
                match crate::wire::fifo_parts_error(request.queue@, request.message_id@) {
                    Some(e) => res matches Err(status) && status@ == e && after == before,
                    None => match res {
                        Ok(true) => exists|s: u64| #[trigger]
                            before.is_front(request.queue@, s) && before.fifo[(
                                request.queue@,
                                s,
                            )].id == request.message_id@ && after == before.acked(
                                request.queue@,
                                s,
                            ),
                        Ok(false) => after == before && crate::store::front_differs(
                            before,
                            request.queue@,
                            request.message_id@,
                        ),
                        Err(status) => !S::reliable() && after == before && ack_failed::<S>(
                            before,
                            request.queue@,
                            request.message_id@,
                            status@,
                        ),
                    },
                }
            }),
    {
        let (queue, message_id) = fifo_ack_parts(request)?;
        match self.store.ack_fifo(&queue, &message_id) {
            Ok(accepted) => Ok(accepted),
            Err(e) => Err(status_from_error(e)),
        }
    }

    /// Counts one more attempt for the front message of a queue, if it is the one that is
    /// rejected, and says whether it was.
    pub fn reject_fifo(&mut self, request: RejectFifoRequest) -> (res: Result<bool, Status>)
        requires
            old(self).store.valid(),
        ensures
            final(self).store.valid(),
            final(self).node == old(self).node,
            ({
                let before = old(self).store.state();
                let after = final(self).store.state();
                match crate::wire::fifo_parts_error(request.queue@, request.message_id@) {
                    Some(e) => res matches Err(status) && status@ == e && after == before,
                    None => match res {
                        Ok(true) => exists|s: u64| #[trigger]
                            before.is_front(request.queue@, s) && before.fifo[(
                                request.queue@,
                                s,
                            )].id == request.message_id@ && after == before.rejected(
                                request.queue@,
                                s,
                            ),
                        Ok(false) => after == before && crate::store::front_differs(
                            before,
                            request.queue@,
                            request.message_id@,
                        ),
                        Err(status) => !S::reliable() && after == before && reject_failed::<S>(
                            before,
                            request.queue@,
                            request.message_id@,
                            status@,
                        ),
                    },
                }
            }),
    {
        let (queue, message_id) = reject_fifo_parts(request)?;
        match self.store.reject_fifo(&queue, &message_id) {
            Ok(accepted) => Ok(accepted),
            Err(e) => Err(status_from_error(e)),
        }
    }

    /// All that is known of logs at peers.
    pub fn list_peer_sync_states(&self) -> (res: Result<Vec<WireSyncState>, Status>)
        requires
            self.store.valid(),
        ensures
            match res {
                Ok(out) => exists|states: Seq<SyncStateView>| #[trigger]
                    self.store.state().lists_sync(states) && crate::engine::values_of(out@)
                        == wire_states_of(states),
                Err(status) => !S::reliable() && states_failed(&self.store, status@),
            },
    {
        let states = match self.store.list_peer_sync_states() {
            Ok(states) => states,
            Err(e) => {
                assert(crate::store::states_unread(&self.store, e@));
                return Err(status_from_error(e));
            },
        };
        let ghost listed = crate::engine::values_of(states@);
        let mut out: Vec<WireSyncState> = Vec::new();
        for state in iter: states
            invariant
                listed == crate::engine::values_of(iter.seq()),
                out@.len() == iter.index(),
                forall|j: int|
                    0 <= j < iter.index() ==> (#[trigger] out@[j])@ == crate::wire::wire_sync_of(
                        listed[j],
                    ),
        {
            out.push(proto_sync_state(state));
        }
        assert(crate::engine::values_of(out@) =~= wire_states_of(listed));
        Ok(out)
    }

    /// That the daemon is alive, and which node it is.
    pub fn health(&self) -> (res: HealthResponse)
        ensures
            res.status@ == "SERVING"@,
            res.node matches Some(node) && node@ == self.node@,
    {
        HealthResponse {
            status: "SERVING".to_owned(),
            node: Some(proto_node(self.node.clone())),
        }
    }

    /// Whether the daemon can read its store, and if not, what the store says.
    pub fn ready(&self) -> (res: ReadyResponse)
        requires
            self.store.valid(),
        ensures
            S::reliable() ==> res.ready,
            exists|listed: Result<Vec<TopicHead>, MsgbusError>| #[trigger]
                call_ensures(S::list_heads, (&self.store,), listed) && res.ready == (listed is Ok)
                    && res.error@ == match listed {
                    Ok(_) => Seq::<char>::empty(),
                    Err(e) => crate::error::error_line(e@),
                },
    {
        match self.store.list_heads() {
            Ok(_) => ready_response(None),
            Err(e) => ready_response(Some(e)),
        }
    }
}

/// The store could not read the page of a log from `from` on, and `status` tells why.
pub open spec fn fetch_failed<S: MsgbusStore>(
    store: &S,
    log: LogView,
    from: u64,
    limit: u32,
    status: StatusView,
) -> bool {
    exists|query: FetchQuery, e: MsgbusError| #[trigger]
        call_ensures(S::fetch_messages, (store, query), Err::<Vec<StoredMessage>, MsgbusError>(e))
            && log == crate::keys::log_of(query.topic@, query.origin@) && query.from_head_id.0
            == from && query.limit == limit && status == crate::status::status_of(e@)
}

/// The store could not read the last position of a log, and `status` tells why.
pub open spec fn head_failed<S: MsgbusStore>(store: &S, log: LogView, status: StatusView) -> bool {
    exists|e: ErrorView| #[trigger]
        crate::store::head_unread(store, log, e) && status == crate::status::status_of(e)
}

/// The store could not list the last positions, and `status` tells why.
pub open spec fn heads_failed<S: MsgbusStore>(store: &S, status: StatusView) -> bool {
    exists|e: MsgbusError| #[trigger]
        call_ensures(S::list_heads, (store,), Err::<Vec<TopicHead>, MsgbusError>(e)) && status
            == crate::status::status_of(e@)
}

/// The store could not read the front of a queue, and `status` tells why.
pub open spec fn peek_failed<S: MsgbusStore>(
    store: &S,
    queue: Seq<char>,
    status: StatusView,
) -> bool {
    exists|name: &QueueName, e: MsgbusError| #[trigger]
        call_ensures(
            S::peek_fifo,
            (store, name),
            Err::<Option<StoredFifoMessage>, MsgbusError>(e),
        ) && name@ == queue && status == crate::status::status_of(e@)
}

/// The store could not list what is known of logs at peers, and `status` tells why.
pub open spec fn states_failed<S: MsgbusStore>(store: &S, status: StatusView) -> bool {
    exists|e: ErrorView| #[trigger]
        crate::store::states_unread(store, e) && status == crate::status::status_of(e)
}

/// The store failed to append the message that was published, and `status` tells why.
pub open spec fn publish_failed<S: MsgbusStore>(
    before: StoreView,
    topic: Seq<char>,
    origin: NodeView,
    payload: Seq<u8>,
    headers: Map<String, String>,
    status: StatusView,
) -> bool {
    exists|m: NewMessageView, e: ErrorView| #[trigger]
        S::append_fails(before, m, e) && crate::ids::is_random_id(m.id) && m == (NewMessageView {
            id: m.id,
            topic,
            origin,
            payload,
            headers,
        }) && status == crate::status::status_of(e)
}

/// The store failed to mark a range as deleted and to append the message of `local` that tells of
/// it, with the payload that `encode` made of the range, and `status` tells why.
pub open spec fn delete_failed<S: MsgbusStore, F: Fn(&TombstoneRange) -> Result<Vec<u8>, String>>(
    before: StoreView,
    local: NodeView,
    encode: F,
    topic: Seq<char>,
    origin: NodeView,
    from: u64,
    to: u64,
    status: StatusView,
) -> bool {
    exists|m: NewMessageView, e: ErrorView| #[trigger]
        S::marker_fails(before, crate::keys::log_of(topic, origin), from, to, m, e)
            && crate::ids::is_random_id(m.id) && m == (NewMessageView {
            id: m.id,
            topic: DELETE_TOPIC@,
            origin: local,
            payload: m.payload,
            headers: Map::empty(),
        }) && was_encoded(encode, topic, origin, from, to, m.payload) && status
            == crate::status::status_of(e)
}

/// The store failed to put the message into its queue, and `status` tells why.
pub open spec fn enqueue_failed<S: MsgbusStore>(
    before: StoreView,
    asked: NewFifoView,
    status: StatusView,
) -> bool {
    exists|m: NewFifoView, e: ErrorView| #[trigger]
        S::enqueue_fails(before, m, e) && crate::ids::is_random_id(m.id) && m == (NewFifoView {
            id: m.id,
            ..asked
        }) && status == crate::status::status_of(e)
}

/// The store failed to take the front message of a queue away, and `status` tells why.
pub open spec fn ack_failed<S: MsgbusStore>(
    before: StoreView,
    queue: Seq<char>,
    id: Seq<char>,
    status: StatusView,
) -> bool {
    exists|e: ErrorView| #[trigger]
        S::ack_fails(before, queue, id, e) && status == crate::status::status_of(e)
}

/// The store failed to count an attempt for the front message of a queue, and `status` tells why.
pub open spec fn reject_failed<S: MsgbusStore>(
    before: StoreView,
    queue: Seq<char>,
    id: Seq<char>,
    status: StatusView,
) -> bool {
    exists|e: ErrorView| #[trigger]
        S::reject_fails(before, queue, id, e) && status == crate::status::status_of(e)
}

/// The store failed to mark a range as deleted, and `status` tells why.
pub open spec fn mark_failed<S: MsgbusStore>(
    before: StoreView,
    range: TombstoneRange,
    status: StatusView,
) -> bool {
    exists|e: ErrorView| #[trigger]
        S::tombstone_fails(
            before,
            crate::keys::log_of(range.topic@, range.origin@),
            range.from_head_id.0,
            range.to_head_id.0,
            e,
        ) && status == crate::status::status_of(e)
}

/// What a store that could be read, or could not, says of the daemon.
pub fn ready_response(failure: Option<MsgbusError>) -> (res: ReadyResponse)
    ensures
        res.ready == (failure is None),
        res.error@ == match failure {
            Some(e) => crate::error::error_line(e@),
            None => Seq::<char>::empty(),
        },
{
    match failure {
        None => ReadyResponse { ready: true, error: String::new() },
        Some(e) => ReadyResponse { ready: false, error: e.describe() },
    }
}

/// A store marked a range as deleted, and `marker` is the message at the end of the log of
/// [`DELETE_TOPIC`] of `local` that tells of it.
pub open spec fn was_deleted(
    before: StoreView,
    after: StoreView,
    local: NodeView,
    topic: Seq<char>,
    origin: NodeView,
    from: u64,
    to: u64,
    marker: MessageView,
) -> bool {
    let control = crate::keys::log_of(DELETE_TOPIC@, local);
    &&& crate::ids::is_random_id(marker.id)
    &&& marker == crate::message::placed(
        NewMessageView {
            id: marker.id,
            topic: DELETE_TOPIC@,
            origin: local,
            payload: marker.payload,
            headers: Map::empty(),
        },
        crate::ids::after(before.head_of(control)),
        marker.created_at_ms,
    )
    &&& exists|at: u64|
        crate::clock::is_reading(at) && after == before.tombstoned(
            crate::keys::log_of(topic, origin),
            #[trigger] crate::store::tombstone_record(topic, origin, from, to, at),
        ).appended(marker)
}

/// `payload` is what `encode` made of the range.
pub open spec fn was_encoded<F: Fn(&TombstoneRange) -> Result<Vec<u8>, String>>(
    encode: F,
    topic: Seq<char>,
    origin: NodeView,
    from: u64,
    to: u64,
    payload: Seq<u8>,
) -> bool {
    exists|range: &TombstoneRange, bytes: Vec<u8>| #[trigger]
        call_ensures(encode, (range,), Ok::<Vec<u8>, String>(bytes)) && bytes@ == payload
            && crate::clock::is_reading(range.created_at_ms) && range@ == crate::store::tombstone_record(
            topic,
            origin,
            from,
            to,
            range.created_at_ms,
        )
}

/// `encode` could make nothing of the range, and `status` says so.
pub open spec fn not_encoded<F: Fn(&TombstoneRange) -> Result<Vec<u8>, String>>(
    encode: F,
    topic: Seq<char>,
    origin: NodeView,
    from: u64,
    to: u64,
    status: StatusView,
) -> bool {
    exists|range: &TombstoneRange, text: String| #[trigger]
        call_ensures(encode, (range,), Err::<Vec<u8>, String>(text)) && status == (StatusView {
            code: Code::Internal,
            message: "failed to encode tombstone: "@ + text@,
        }) && range@ == crate::store::tombstone_record(
            topic,
            origin,
            from,
            to,
            range.created_at_ms,
        )
}

/// A store put `asked` at the back of its queue, under a random identifier, and `message` is the
/// message there as it reads on the wire.
pub open spec fn was_enqueued(
    before: StoreView,
    after: StoreView,
    asked: NewFifoView,
    message: FifoMessageView,
) -> bool {
    let stored = crate::message::queued(
        asked,
        crate::ids::after(before.sequence_of(asked.queue)),
        message.created_at_ms,
    );
    &&& crate::ids::is_random_id(asked.id)
    &&& after == before.enqueued(stored)
    &&& message == crate::wire::fifo_message_of(stored)
}

/// What is said of a queue without messages.
pub open spec fn queue_empty_status() -> StatusView {
    StatusView { code: Code::NotFound, message: "fifo queue is empty"@ }
}

/// The source and the target of a message for a queue, or the first fault of the request.
pub open spec fn enqueue_parts(
    local: NodeView,
    queue: Seq<char>,
    topic: Seq<char>,
    source: Option<NodeView>,
    target: Option<NodeView>,
) -> Result<(NodeView, NodeView), StatusView> {
    match crate::wire::name_error("queue"@, queue) {
        Some(e) => Err(e),
        None => match writer_for(local, topic, source) {
            Err(e) => Err(e),
            Ok(source) => match target {
                None => Err(crate::status::bad_argument("target is required"@)),
                Some(target) => match crate::wire::node_error(target) {
                    Some(e) => Err(e),
                    None => Ok((source, target)),
                },
            },
        },
    }
}

proof fn lemma_delete_topic_is_valid()
    ensures
        crate::ids::valid_part(DELETE_TOPIC@),
{
    reveal_strlit("$msgbus.delete");
    let name = DELETE_TOPIC@;
    assert(name[0] == '$');
    assert(!crate::text::is_white(name[0]));
    assert forall|i: int| 0 <= i < name.len() implies name[i] != '\0' by {}
}

/// `m` tells of a deleted range.
pub open spec fn is_control(m: MessageView) -> bool {
    m.topic == DELETE_TOPIC@ && !m.deleted
}

/// Whether a message tells of a deleted range.
pub fn is_control_message(message: &StoredMessage) -> (res: bool)
    ensures
        res == is_control(message@),
        res <==> message.topic@ == "$msgbus.delete"@ && !message.deleted,
{
    same_text(message.topic.as_str(), DELETE_TOPIC) && !message.deleted
}

/// What is said of a message that should tell of a deleted range and cannot be read.
pub open spec fn payload_error(text: Seq<char>) -> StatusView {
    crate::status::bad_argument("invalid tombstone payload: "@ + text)
}

/// What comes of a message that tells of a deleted range, where its payload was read as `range`.
pub open spec fn control_outcome<S: MsgbusStore>(
    before: StoreView,
    after: StoreView,
    range: Result<TombstoneRange, String>,
    res: Result<(), Status>,
) -> bool {
    match range {
        Err(text) => res matches Err(status) && status@ == payload_error(text@) && after == before,
        Ok(range) => {
            let from = range.from_head_id.0;
            let to = range.to_head_id.0;
            match res {
                Ok(_) => from <= to && exists|at: u64|
                    crate::clock::is_reading(at) && after == before.tombstoned(
                        crate::keys::log_of(range.topic@, range.origin@),
                        #[trigger] crate::store::tombstone_record(
                            range.topic@,
                            range.origin@,
                            from,
                            to,
                            at,
                        ),
                    ),
                Err(status) => {
                    &&& after == before
                    &&& if from > to {
                        status@ == crate::status::status_of(crate::engine::range_error())
                    } else {
                        !S::reliable() && mark_failed::<S>(before, range, status@)
                    }
                },
            }
        },
    }
}

/// Marks the range that was read out of a message as deleted.
pub fn apply_range<S: MsgbusStore>(store: &mut S, range: Result<TombstoneRange, String>) -> (res:
    Result<(), Status>)
    requires
        old(store).valid(),
    ensures
        final(store).valid(),
        control_outcome::<S>(old(store).state(), final(store).state(), range, res),
{
    match range {
        Err(text) => {
            let mut line = "invalid tombstone payload: ".to_owned();
            line.append(text.as_str());
            Err(Status::invalid_argument(line.as_str()))
        },
        Ok(range) => match store.tombstone_range(
            &range.topic,
            &range.origin,
            range.from_head_id,
            range.to_head_id,
        ) {
            Ok(_) => Ok(()),
            Err(e) => Err(status_from_error(e)),
        },
    }
}

/// Does to the store what a message of a peer tells of: marks the range that its payload holds as
/// deleted, as `decode` reads it. A message of another topic, or one that is itself deleted, tells
/// of nothing.
pub fn apply_control_message<
    S: MsgbusStore,
    F: Fn(&Vec<u8>) -> Result<TombstoneRange, String>,
>(store: &mut S, message: &StoredMessage, decode: F) -> (res: Result<(), Status>)
    requires
        old(store).valid(),
        forall|payload: &Vec<u8>| call_requires(decode, (payload,)),
    ensures
        final(store).valid(),
        message.topic@ != "$msgbus.delete"@ || message.deleted ==> res is Ok
            && final(store).state() == old(store).state(),
        message.topic@ == "$msgbus.delete"@ && !message.deleted ==> exists|
            range: Result<TombstoneRange, String>,
        | #[trigger]
            call_ensures(decode, (&message.payload,), range) && control_outcome::<S>(
                old(store).state(),
                final(store).state(),
                range,
                res,
            ),
        !is_control(message@) ==> res is Ok && final(store).state() == old(store).state(),
        is_control(message@) ==> exists|range: Result<TombstoneRange, String>| #[trigger]
            call_ensures(decode, (&message.payload,), range) && control_outcome::<S>(
                old(store).state(),
                final(store).state(),
                range,
                res,
            ),
{
    if !is_control_message(message) {
        return Ok(());
    }
    let range = decode(&message.payload);
    apply_range(store, range)
}

/// What was published is read back: a fetch from the position of a message that was just appended
/// gives that message, as it was sent, and nothing else.
pub proof fn law_published_message_is_fetched(
    s: StoreView,
    m: MessageView,
    limit: u32,
    out: Seq<EnvelopeView>,
)
    requires
        s.wf(),
        m.head_id == crate::ids::after(s.head_of(crate::store::message_log(m))),
        is_wire_page(
            s.appended(m),
            crate::store::message_log(m),
            m.head_id,
            crate::engine::page_size(limit),
            out,
        ),
    ensures
        out == seq![crate::wire::envelope_of(m)],
{
    let log = crate::store::message_log(m);
    let page = choose|page: Seq<MessageView>| #[trigger]
        s.appended(m).is_page(log, m.head_id, crate::engine::page_size(limit), page) && out
            == envelopes_of(page);
    crate::laws::law_append_reads_back(s, m, crate::engine::page_size(limit), page);
    assert(out =~= seq![crate::wire::envelope_of(m)]);
}

} // verus!

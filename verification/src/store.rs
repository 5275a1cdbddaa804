//! What a store holds, and what a store does.

use vstd::prelude::*;

use crate::error::ErrorView;
use crate::error::MsgbusError;
use crate::ids::HeadId;
use crate::ids::MessageId;
use crate::ids::NodeId;
use crate::ids::NodeView;
use crate::ids::QueueName;
use crate::ids::Topic;
use crate::keys::LogView;
use crate::message::FetchQuery;
use crate::message::FifoView;
use crate::message::MessageView;
use crate::message::NewFifoMessage;
use crate::message::NewFifoView;
use crate::message::NewMessage;
use crate::message::NewMessageView;
use crate::message::PeerSyncState;
use crate::message::ReplicateResult;
use crate::message::StoredFifoMessage;
use crate::message::StoredMessage;
use crate::message::SyncStateView;
use crate::message::TombstoneView;
use crate::message::TopicHead;
use crate::message::TopicHeadView;

verus! {

/// What a store holds.
pub struct StoreView {
    /// The last position of each log.
    pub heads: Map<LogView, u64>,
    /// The messages of the logs by their positions.
    pub messages: Map<(LogView, u64), MessageView>,
    /// The ranges of the logs that were marked as deleted.
    pub tombstones: Map<(LogView, u64, u64), TombstoneView>,
    /// The last number that each queue gave out.
    pub sequences: Map<Seq<char>, u64>,
    /// The messages of the queues by their numbers.
    pub fifo: Map<(Seq<char>, u64), FifoView>,
    /// What is known of logs at peers.
    pub sync: Map<(Seq<char>, LogView), SyncStateView>,
}

/// The log of a message.
pub open spec fn message_log(m: MessageView) -> LogView {
    crate::keys::log_of(m.topic, m.origin)
}

/// The log of a last position.
pub open spec fn head_log(h: TopicHeadView) -> LogView {
    crate::keys::log_of(h.topic, h.origin)
}

/// The record of a range that was marked as deleted.
pub open spec fn tombstone_record(
    topic: Seq<char>,
    origin: NodeView,
    from: u64,
    to: u64,
    created_at_ms: u64,
) -> TombstoneView {
    TombstoneView { topic, origin, from_head_id: from, to_head_id: to, created_at_ms }
}

impl StoreView {
    /// The store that holds nothing.
    pub open spec fn empty() -> StoreView {
        StoreView {
            heads: Map::empty(),
            messages: Map::empty(),
            tombstones: Map::empty(),
            sequences: Map::empty(),
            fifo: Map::empty(),
            sync: Map::empty(),
        }
    }

    /// What every store keeps to: messages stand at their own places, no message stands behind
    /// the last position of its log, where a message stands; and the like for queues.
    pub open spec fn wf(self) -> bool {
        &&& forall|log: LogView, h: u64| #[trigger]
            self.messages.contains_key((log, h)) ==> {
                &&& message_log(self.messages[(log, h)]) == log
                &&& self.messages[(log, h)].head_id == h
                &&& self.heads.contains_key(log)
                &&& h <= self.heads[log]
            }
        &&& forall|log: LogView| #[trigger]
            self.heads.contains_key(log) ==> self.messages.contains_key((log, self.heads[log]))
        &&& forall|queue: Seq<char>, s: u64| #[trigger]
            self.fifo.contains_key((queue, s)) ==> {
                &&& self.fifo[(queue, s)].queue == queue
                &&& self.fifo[(queue, s)].sequence == s
                &&& self.sequences.contains_key(queue)
                &&& s <= self.sequences[queue]
            }
    }

    /// The last position of a log; zero for a log without messages.
    pub open spec fn head_of(self, log: LogView) -> u64 {
        if self.heads.contains_key(log) {
            self.heads[log]
        } else {
            0
        }
    }

    /// The store with `m` at the end of its log.
    pub open spec fn appended(self, m: MessageView) -> StoreView {
        StoreView {
            heads: self.heads.insert(message_log(m), m.head_id),
            messages: self.messages.insert((message_log(m), m.head_id), m),
            ..self
        }
    }

    /// The store with `m` at its own place in its log.
    pub open spec fn replicated(self, m: MessageView) -> StoreView {
        let head = if self.head_of(message_log(m)) < m.head_id {
            m.head_id
        } else {
            self.head_of(message_log(m))
        };
        StoreView {
            heads: self.heads.insert(message_log(m), head),
            messages: self.messages.insert((message_log(m), m.head_id), m),
            ..self
        }
    }

    /// `out` holds the messages of `log` from position `from` on, by rising positions, up to
    /// `limit` of them.
    pub open spec fn is_page(
        self,
        log: LogView,
        from: u64,
        limit: nat,
        out: Seq<MessageView>,
    ) -> bool {
        &&& out.len() <= limit
        &&& forall|i: int|
            0 <= i < out.len() ==> {
                &&& self.messages.contains_key((log, (#[trigger] out[i]).head_id))
                &&& out[i] == self.messages[(log, out[i].head_id)]
                &&& from <= out[i].head_id
            }
        &&& forall|i: int, j: int|
            0 <= i < j < out.len() ==> (#[trigger] out[i]).head_id < (#[trigger] out[j]).head_id
        &&& forall|h: u64| #[trigger]
            self.messages.contains_key((log, h)) && from <= h ==> {
                ||| exists|i: int| 0 <= i < out.len() && (#[trigger] out[i]).head_id == h
                ||| out.len() == limit && out.len() > 0 && out.last().head_id < h
            }
    }

    /// `out` names each log that has messages once, with its last position.
    pub open spec fn lists_heads(self, out: Seq<TopicHeadView>) -> bool {
        &&& forall|i: int|
            0 <= i < out.len() ==> self.heads.contains_key(head_log(#[trigger] out[i]))
                && self.heads[head_log(out[i])] == out[i].head_id
        &&& forall|i: int, j: int|
            0 <= i < j < out.len() ==> head_log(#[trigger] out[i]) != head_log(#[trigger] out[j])
        &&& forall|log: LogView| #[trigger]
            self.heads.contains_key(log) ==> exists|i: int|
                0 <= i < out.len() && head_log(#[trigger] out[i]) == log
    }

    /// The store with the messages of `log` from `from` to `to` marked as deleted, and a record
    /// of the range.
    pub open spec fn tombstoned(self, log: LogView, record: TombstoneView) -> StoreView {
        let from = record.from_head_id;
        let to = record.to_head_id;
        StoreView {
            messages: Map::new(
                |p: (LogView, u64)| self.messages.contains_key(p),
                |p: (LogView, u64)|
                    if p.0 == log && from <= p.1 <= to {
                        self.messages[p].with_deleted(true)
                    } else {
                        self.messages[p]
                    },
            ),
            tombstones: self.tombstones.insert((log, from, to), record),
            ..self
        }
    }

    /// The positions from `from` to `to` of `log` with messages that are not deleted.
    pub open spec fn live(self, log: LogView, from: u64, to: u64) -> Set<u64> {
        Set::new(
            |h: u64|
                from <= h <= to && self.messages.contains_key((log, h))
                    && !self.messages[(log, h)].deleted,
        )
    }

    /// The last number that a queue gave out; zero where it gave none.
    pub open spec fn sequence_of(self, queue: Seq<char>) -> u64 {
        if self.sequences.contains_key(queue) {
            self.sequences[queue]
        } else {
            0
        }
    }

    /// The store with `m` at the back of its queue.
    pub open spec fn enqueued(self, m: FifoView) -> StoreView {
        StoreView {
            sequences: self.sequences.insert(m.queue, m.sequence),
            fifo: self.fifo.insert((m.queue, m.sequence), m),
            ..self
        }
    }

    /// The front message of `queue` has the number `s`.
    pub open spec fn is_front(self, queue: Seq<char>, s: u64) -> bool {
        &&& self.fifo.contains_key((queue, s))
        &&& forall|other: u64| #[trigger] self.fifo.contains_key((queue, other)) ==> s <= other
    }

    /// The queue holds no message.
    pub open spec fn queue_empty(self, queue: Seq<char>) -> bool {
        forall|s: u64| !#[trigger] self.fifo.contains_key((queue, s))
    }

    /// The store without the message `s` of `queue`.
    pub open spec fn acked(self, queue: Seq<char>, s: u64) -> StoreView {
        StoreView { fifo: self.fifo.remove((queue, s)), ..self }
    }

    /// The store with one more attempt counted for the message `s` of `queue`.
    pub open spec fn rejected(self, queue: Seq<char>, s: u64) -> StoreView {
        StoreView {
            fifo: self.fifo.insert((queue, s), self.fifo[(queue, s)].attempted()),
            ..self
        }
    }

    /// The store that knows `state` of a log at a peer.
    pub open spec fn with_sync(self, state: SyncStateView) -> StoreView {
        StoreView {
            sync: self.sync.insert(
                (state.peer, crate::keys::log_of(state.topic, state.origin)),
                state,
            ),
            ..self
        }
    }

    /// `out` holds all that is known of logs at peers, each once.
    pub open spec fn lists_sync(self, out: Seq<SyncStateView>) -> bool {
        &&& forall|i: int|
            0 <= i < out.len() ==> {
                let p = sync_place(#[trigger] out[i]);
                self.sync.contains_key(p) && self.sync[p] == out[i]
            }
        &&& forall|i: int, j: int|
            0 <= i < j < out.len() ==> sync_place(#[trigger] out[i]) != sync_place(
                #[trigger] out[j],
            )
        &&& forall|p: (Seq<char>, LogView)| #[trigger]
            self.sync.contains_key(p) ==> exists|i: int|
                0 <= i < out.len() && sync_place(#[trigger] out[i]) == p
    }
}

/// The peer and the log that a state speaks of.
pub open spec fn sync_place(state: SyncStateView) -> (Seq<char>, LogView) {
    (state.peer, crate::keys::log_of(state.topic, state.origin))
}

/// A store of messages. Each operation is atomic: where it fails, the store holds what it held.
/// What a valid store holds is in good order, before and after each operation.
pub trait MsgbusStore: Sized {
    /// What the store holds.
    closed spec fn state(&self) -> StoreView {
        arbitrary()
    }

    /// The store is in good order.
    closed spec fn valid(&self) -> bool {
        true
    }

    /// No operation of a store of this kind fails for reasons of its own.
    closed spec fn reliable() -> bool {
        false
    }

    /// A store of this kind that holds `before` can fail with `e` to append `message`.
    closed spec fn append_fails(before: StoreView, message: NewMessageView, e: ErrorView) -> bool {
        true
    }

    /// A store of this kind that holds `before` can fail with `e` to mark a range as deleted.
    closed spec fn tombstone_fails(
        before: StoreView,
        log: LogView,
        from: u64,
        to: u64,
        e: ErrorView,
    ) -> bool {
        true
    }

    /// A store of this kind that holds `before` can fail with `e` to mark a range as deleted and
    /// to append `marker`.
    closed spec fn marker_fails(
        before: StoreView,
        log: LogView,
        from: u64,
        to: u64,
        marker: NewMessageView,
        e: ErrorView,
    ) -> bool {
        true
    }

    /// A store of this kind that holds `before` can fail with `e` to copy `message`.
    closed spec fn replicate_fails(before: StoreView, message: MessageView, e: ErrorView) -> bool {
        true
    }

    /// A store of this kind that holds `before` can fail with `e` to put `message` into its queue.
    closed spec fn enqueue_fails(before: StoreView, message: NewFifoView, e: ErrorView) -> bool {
        true
    }

    /// A store of this kind that holds `before` can fail with `e` to take the message `id` from
    /// the front of `queue`.
    closed spec fn ack_fails(
        before: StoreView,
        queue: Seq<char>,
        id: Seq<char>,
        e: ErrorView,
    ) -> bool {
        true
    }

    /// A store of this kind that holds `before` can fail with `e` to count an attempt for the
    /// message `id` at the front of `queue`.
    closed spec fn reject_fails(
        before: StoreView,
        queue: Seq<char>,
        id: Seq<char>,
        e: ErrorView,
    ) -> bool {
        true
    }

    /// A store of this kind that holds `before` can fail with `e` to keep `state`.
    closed spec fn sync_fails(before: StoreView, state: SyncStateView, e: ErrorView) -> bool {
        true
    }

    /// Appends a message to the log of its topic and origin, and gives it the next position.
    fn append_message(&mut self, message: NewMessage) -> (res: Result<StoredMessage, MsgbusError>)
        requires
            old(self).valid(),
        ensures
            old(self).state().wf(),
            final(self).valid(),
            final(self).state().wf(),
            match res {
                Ok(stored) => {
                    let log = crate::keys::log_of(message.topic@, message.origin@);
                    &&& stored@ == crate::message::placed(
                        message@,
                        crate::ids::after(old(self).state().head_of(log)),
                        stored.created_at_ms,
                    )
                    &&& stored.id@ == message.id@
                    &&& stored.topic@ == message.topic@
                    &&& stored.origin@ == message.origin@
                    &&& stored.payload@ == message.payload@
                    &&& stored.headers@ == message.headers@
                    &&& !stored.deleted
                    &&& crate::clock::is_reading(stored.created_at_ms)
                    &&& final(self).state() == old(self).state().appended(stored@)
                },
                Err(e) => {
                    &&& !Self::reliable()
                    &&& final(self).state() == old(self).state()
                    &&& Self::append_fails(old(self).state(), message@, e@)
                },
            },
    ;

    /// The messages of a log from a position on, by rising positions, at most a page.
    fn fetch_messages(&self, query: FetchQuery) -> (res: Result<Vec<StoredMessage>, MsgbusError>)
        requires
            self.valid(),
        ensures
            self.state().wf(),
            match res {
                Ok(out) => self.state().is_page(
                    crate::keys::log_of(query.topic@, query.origin@),
                    query.from_head_id.0,
                    crate::engine::page_size(query.limit),
                    crate::engine::values_of(out@),
                ),
                Err(_) => !Self::reliable(),
            },
    ;

    /// The last position of the log of `topic` and `origin`, where it has one.
    fn get_head(&self, topic: &Topic, origin: &NodeId) -> (res: Result<Option<HeadId>, MsgbusError>)
        requires
            self.valid(),
        ensures
            self.state().wf(),
            match res {
                Ok(head) => {
                    let log = crate::keys::log_of(topic@, origin@);
                    head == if self.state().heads.contains_key(log) {
                        Some(HeadId(self.state().heads[log]))
                    } else {
                        None
                    }
                },
                Err(_) => !Self::reliable(),
            },
    ;

    /// The last positions of all logs.
    fn list_heads(&self) -> (res: Result<Vec<TopicHead>, MsgbusError>)
        requires
            self.valid(),
        ensures
            self.state().wf(),
            match res {
                Ok(out) => self.state().lists_heads(crate::engine::values_of(out@)),
                Err(_) => !Self::reliable(),
            },
    ;

    /// Marks the messages of a log from `from` to `to` as deleted, and says how many were not
    /// deleted before.
    fn tombstone_range(
        &mut self,
        topic: &Topic,
        origin: &NodeId,
        from: HeadId,
        to: HeadId,
    ) -> (res: Result<u64, MsgbusError>)
        requires
            old(self).valid(),
        ensures
            old(self).state().wf(),
            final(self).valid(),
            final(self).state().wf(),
            match res {
                Ok(changed) => {
                    let log = crate::keys::log_of(topic@, origin@);
                    &&& from.0 <= to.0
                    &&& old(self).state().live(log, from.0, to.0).finite()
                    &&& changed == old(self).state().live(log, from.0, to.0).len()
                    &&& exists|at: u64|
                        crate::clock::is_reading(at) && final(self).state()
                            == old(self).state().tombstoned(
                            log,
                            #[trigger] tombstone_record(topic@, origin@, from.0, to.0, at),
                        )
                },
                Err(e) => {
                    &&& final(self).state() == old(self).state()
                    &&& if from.0 > to.0 {
                        e@ == crate::engine::range_error()
                    } else {
                        !Self::reliable() && Self::tombstone_fails(
                            old(self).state(),
                            crate::keys::log_of(topic@, origin@),
                            from.0,
                            to.0,
                            e@,
                        )
                    }
                },
            },
    ;

    /// Marks a range as [`MsgbusStore::tombstone_range`] does and appends a message that tells of
    /// it, both or neither.
    fn tombstone_range_with_marker(
        &mut self,
        topic: &Topic,
        origin: &NodeId,
        from: HeadId,
        to: HeadId,
        marker: NewMessage,
    ) -> (res: Result<(u64, StoredMessage), MsgbusError>)
        requires
            old(self).valid(),
        ensures
            old(self).state().wf(),
            final(self).valid(),
            final(self).state().wf(),
            match res {
                Ok((changed, stored)) => {
                    let log = crate::keys::log_of(topic@, origin@);
                    let marker_log = crate::keys::log_of(marker.topic@, marker.origin@);
                    &&& from.0 <= to.0
                    &&& old(self).state().live(log, from.0, to.0).finite()
                    &&& changed == old(self).state().live(log, from.0, to.0).len()
                    &&& stored@ == crate::message::placed(
                        marker@,
                        crate::ids::after(old(self).state().head_of(marker_log)),
                        stored.created_at_ms,
                    )
                    &&& crate::clock::is_reading(stored.created_at_ms)
                    &&& exists|at: u64|
                        crate::clock::is_reading(at) && final(self).state()
                            == old(self).state().tombstoned(
                            log,
                            #[trigger] tombstone_record(topic@, origin@, from.0, to.0, at),
                        ).appended(stored@)
                },
                Err(e) => {
                    &&& final(self).state() == old(self).state()
                    &&& if from.0 > to.0 {
                        e@ == crate::engine::range_error()
                    } else {
                        !Self::reliable() && Self::marker_fails(
                            old(self).state(),
                            crate::keys::log_of(topic@, origin@),
                            from.0,
                            to.0,
                            marker@,
                            e@,
                        )
                    }
                },
            },
    ;

    /// Copies a message of a peer into its log at its own position. A message that is there
    /// already is left alone; another message at its position is a conflict.
    fn put_replicated_message(&mut self, message: StoredMessage) -> (res: Result<
        ReplicateResult,
        MsgbusError,
    >)
        requires
            old(self).valid(),
        ensures
            old(self).state().wf(),
            final(self).valid(),
            final(self).state().wf(),
            ({
                let place = (message_log(message@), message.head_id.0);
                let there = old(self).state().messages;
                match res {
                    Ok(ReplicateResult::Inserted) => {
                        &&& !there.contains_key(place)
                        &&& final(self).state() == old(self).state().replicated(message@)
                    },
                    Ok(ReplicateResult::AlreadyPresent) => {
                        &&& there.contains_key(place)
                        &&& there[place].id == message.id@
                        &&& final(self).state() == old(self).state()
                    },
                    Err(e) => {
                        &&& final(self).state() == old(self).state()
                        &&& {
                            ||| there.contains_key(place) && there[place].id != message.id@ && e@
                                == crate::engine::taken_error()
                            ||| !Self::reliable() && Self::replicate_fails(
                                old(self).state(),
                                message@,
                                e@,
                            )
                        }
                    },
                }
            }),
    ;

    /// Puts a message at the back of its queue and gives it the next number.
    fn enqueue_fifo(&mut self, message: NewFifoMessage) -> (res: Result<
        StoredFifoMessage,
        MsgbusError,
    >)
        requires
            old(self).valid(),
        ensures
            old(self).state().wf(),
            final(self).valid(),
            final(self).state().wf(),
            match res {
                Ok(stored) => {
                    &&& stored@ == crate::message::queued(
                        message@,
                        crate::ids::after(old(self).state().sequence_of(message.queue@)),
                        stored.created_at_ms,
                    )
                    &&& stored.id@ == message.id@
                    &&& stored.queue@ == message.queue@
                    &&& stored.topic@ == message.topic@
                    &&& stored.source@ == message.source@
                    &&& stored.target@ == message.target@
                    &&& stored.payload@ == message.payload@
                    &&& stored.headers@ == message.headers@
                    &&& stored.attempts == 0
                    &&& crate::clock::is_reading(stored.created_at_ms)
                    &&& final(self).state() == old(self).state().enqueued(stored@)
                },
                Err(e) => {
                    &&& !Self::reliable()
                    &&& final(self).state() == old(self).state()
                    &&& Self::enqueue_fails(old(self).state(), message@, e@)
                },
            },
    ;

    /// The front message of a queue, left where it is.
    fn peek_fifo(&self, queue: &QueueName) -> (res: Result<Option<StoredFifoMessage>, MsgbusError>)
        requires
            self.valid(),
        ensures
            self.state().wf(),
            match res {
                Ok(Some(message)) => self.state().is_front(queue@, message.sequence) && message@
                    == self.state().fifo[(queue@, message.sequence)],
                Ok(None) => self.state().queue_empty(queue@),
                Err(_) => !Self::reliable(),
            },
    ;

    /// Takes the front message of a queue away if it is the one with this identifier.
    fn ack_fifo(&mut self, queue: &QueueName, message_id: &MessageId) -> (res: Result<
        bool,
        MsgbusError,
    >)
        requires
            old(self).valid(),
        ensures
            old(self).state().wf(),
            final(self).valid(),
            final(self).state().wf(),
            match res {
                Ok(true) => exists|s: u64| #[trigger]
                    old(self).state().is_front(queue@, s) && old(self).state().fifo[(queue@, s)].id
                        == message_id@ && final(self).state() == old(self).state().acked(queue@, s),
                Ok(false) => final(self).state() == old(self).state() && front_differs(
                    old(self).state(),
                    queue@,
                    message_id@,
                ),
                Err(e) => {
                    &&& !Self::reliable()
                    &&& final(self).state() == old(self).state()
                    &&& Self::ack_fails(old(self).state(), queue@, message_id@, e@)
                },
            },
    ;

    /// Counts one more attempt for the front message of a queue if it is the one with this
    /// identifier.
    fn reject_fifo(&mut self, queue: &QueueName, message_id: &MessageId) -> (res: Result<
        bool,
        MsgbusError,
    >)
        requires
            old(self).valid(),
        ensures
            old(self).state().wf(),
            final(self).valid(),
            final(self).state().wf(),
            match res {
                Ok(true) => exists|s: u64| #[trigger]
                    old(self).state().is_front(queue@, s) && old(self).state().fifo[(queue@, s)].id
                        == message_id@ && final(self).state() == old(self).state().rejected(
                        queue@,
                        s,
                    ),
                Ok(false) => final(self).state() == old(self).state() && front_differs(
                    old(self).state(),
                    queue@,
                    message_id@,
                ),
                Err(e) => {
                    &&& !Self::reliable()
                    &&& final(self).state() == old(self).state()
                    &&& Self::reject_fails(old(self).state(), queue@, message_id@, e@)
                },
            },
    ;

    /// Keeps what is known of a log at a peer.
    fn put_peer_sync_state(&mut self, state: PeerSyncState) -> (res: Result<(), MsgbusError>)
        requires
            old(self).valid(),
        ensures
            old(self).state().wf(),
            final(self).valid(),
            final(self).state().wf(),
            match res {
                Ok(_) => final(self).state() == old(self).state().with_sync(state@),
                Err(e) => {
                    &&& !Self::reliable()
                    &&& final(self).state() == old(self).state()
                    &&& Self::sync_fails(old(self).state(), state@, e@)
                },
            },
    ;

    /// What is known of the log of `topic` and `origin` at `peer`.
    fn get_peer_sync_state(&self, peer: &str, topic: &Topic, origin: &NodeId) -> (res: Result<
        Option<PeerSyncState>,
        MsgbusError,
    >)
        requires
            self.valid(),
        ensures
            self.state().wf(),
            ({
                let place = (peer@, crate::keys::log_of(topic@, origin@));
                match res {
                    Ok(Some(state)) => self.state().sync.contains_key(place) && state@
                        == self.state().sync[place],
                    Ok(None) => !self.state().sync.contains_key(place),
                    Err(_) => !Self::reliable(),
                }
            }),
    ;

    /// All that is known of logs at peers.
    fn list_peer_sync_states(&self) -> (res: Result<Vec<PeerSyncState>, MsgbusError>)
        requires
            self.valid(),
        ensures
            self.state().wf(),
            match res {
                Ok(out) => self.state().lists_sync(crate::engine::values_of(out@)),
                Err(_) => !Self::reliable(),
            },
    ;
}

/// The store could not read the last position of a log, and `e` tells why.
pub open spec fn head_unread<S: MsgbusStore>(store: &S, log: LogView, e: ErrorView) -> bool {
    exists|topic: &Topic, origin: &NodeId, error: MsgbusError| #[trigger]
        call_ensures(S::get_head, (store, topic, origin), Err::<Option<HeadId>, MsgbusError>(error))
            && log == crate::keys::log_of(topic@, origin@) && error@ == e
}

/// The store could not read what is known of a log at a peer, and `e` tells why.
pub open spec fn sync_unread<S: MsgbusStore>(
    store: &S,
    peer: Seq<char>,
    log: LogView,
    e: ErrorView,
) -> bool {
    exists|name: &str, topic: &Topic, origin: &NodeId, error: MsgbusError| #[trigger]
        call_ensures(
            S::get_peer_sync_state,
            (store, name, topic, origin),
            Err::<Option<PeerSyncState>, MsgbusError>(error),
        ) && name@ == peer && log == crate::keys::log_of(topic@, origin@) && error@ == e
}

/// The store could not list what is known of logs at peers, and `e` tells why.
pub open spec fn states_unread<S: MsgbusStore>(store: &S, e: ErrorView) -> bool {
    exists|error: MsgbusError| #[trigger]
        call_ensures(
            S::list_peer_sync_states,
            (store,),
            Err::<Vec<PeerSyncState>, MsgbusError>(error),
        ) && error@ == e
}

/// The queue is empty, or its front message is not the one with identifier `id`.
pub open spec fn front_differs(state: StoreView, queue: Seq<char>, id: Seq<char>) -> bool {
    state.queue_empty(queue) || exists|s: u64| #[trigger]
        state.is_front(queue, s) && state.fifo[(queue, s)].id != id
}

} // verus!

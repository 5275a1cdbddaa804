//! Messages of the logs and of the queues.

use std::collections::BTreeMap;

use vstd::prelude::*;

use crate::ids::HeadId;
use crate::ids::MessageId;
use crate::ids::NodeId;
use crate::ids::NodeView;
use crate::ids::QueueName;
use crate::ids::Topic;

verus! {

/// A message that has no place in a log yet.
#[derive(Debug)]
pub struct NewMessage {
    pub id: MessageId,
    pub topic: Topic,
    pub origin: NodeId,
    pub payload: Vec<u8>,
    pub headers: BTreeMap<String, String>,
}

/// A [`NewMessage`] as a value.
pub struct NewMessageView {
    pub id: Seq<char>,
    pub topic: Seq<char>,
    pub origin: NodeView,
    pub payload: Seq<u8>,
    pub headers: Map<String, String>,
}

impl View for NewMessage {
    type V = NewMessageView;

    open spec fn view(&self) -> NewMessageView {
        NewMessageView {
            id: self.id@,
            topic: self.topic@,
            origin: self.origin@,
            payload: self.payload@,
            headers: self.headers@,
        }
    }
}

impl Clone for NewMessage {
    fn clone(&self) -> (res: NewMessage)
        ensures
            res@ == self@,
    {
        NewMessage {
            id: self.id.clone(),
            topic: self.topic.clone(),
            origin: self.origin.clone(),
            payload: self.payload.clone(),
            headers: self.headers.clone(),
        }
    }
}

impl NewMessage {
    /// A message with a random identifier.
    pub fn new(
        topic: Topic,
        origin: NodeId,
        payload: Vec<u8>,
        headers: BTreeMap<String, String>,
    ) -> (res: NewMessage)
        ensures
            crate::ids::is_random_id(res.id@),
            crate::ids::was_drawn(res.id@),
            res@ == (NewMessageView {
                id: res.id@,
                topic: topic@,
                origin: origin@,
                payload: payload@,
                headers: headers@,
            }),
    {
        NewMessage { id: MessageId::new(), topic, origin, payload, headers }
    }
}

/// A message at its place in the log of its topic and origin.
#[derive(Debug)]
pub struct StoredMessage {
    pub id: MessageId,
    pub topic: Topic,
    pub origin: NodeId,
    pub head_id: HeadId,
    pub payload: Vec<u8>,
    pub headers: BTreeMap<String, String>,
    pub created_at_ms: u64,
    pub deleted: bool,
}

/// A [`StoredMessage`] as a value.
pub struct MessageView {
    pub id: Seq<char>,
    pub topic: Seq<char>,
    pub origin: NodeView,
    pub head_id: u64,
    pub payload: Seq<u8>,
    pub headers: Map<String, String>,
    pub created_at_ms: u64,
    pub deleted: bool,
}

impl MessageView {
    /// The message with a mark that says whether it is deleted.
    pub open spec fn with_deleted(self, deleted: bool) -> MessageView {
        MessageView { deleted, ..self }
    }
}

/// A new message at position `head_id` of its log, stamped `created_at_ms`.
pub open spec fn placed(
    message: NewMessageView,
    head_id: u64,
    created_at_ms: u64,
) -> MessageView {
    MessageView {
        id: message.id,
        topic: message.topic,
        origin: message.origin,
        head_id,
        payload: message.payload,
        headers: message.headers,
        created_at_ms,
        deleted: false,
    }
}

impl View for StoredMessage {
    type V = MessageView;

    open spec fn view(&self) -> MessageView {
        MessageView {
            id: self.id@,
            topic: self.topic@,
            origin: self.origin@,
            head_id: self.head_id.0,
            payload: self.payload@,
            headers: self.headers@,
            created_at_ms: self.created_at_ms,
            deleted: self.deleted,
        }
    }
}

impl Clone for StoredMessage {
    fn clone(&self) -> (res: StoredMessage)
        ensures
            res@ == self@,
    {
        StoredMessage {
            id: self.id.clone(),
            topic: self.topic.clone(),
            origin: self.origin.clone(),
            head_id: self.head_id,
            payload: self.payload.clone(),
            headers: self.headers.clone(),
            created_at_ms: self.created_at_ms,
            deleted: self.deleted,
        }
    }
}

impl StoredMessage {
    /// Puts a new message at position `head_id` of its log, stamped `created_at_ms`.
    pub fn place(message: NewMessage, head_id: HeadId, created_at_ms: u64) -> (res: StoredMessage)
        ensures
            res@ == placed(message@, head_id.0, created_at_ms),
            res.payload@ == message.payload@,
            res.headers@ == message.headers@,
    {
        StoredMessage {
            id: message.id,
            topic: message.topic,
            origin: message.origin,
            head_id,
            payload: message.payload,
            headers: message.headers,
            created_at_ms,
            deleted: false,
        }
    }
}

/// Which part of a log to read.
#[derive(Debug)]
pub struct FetchQuery {
    pub topic: Topic,
    pub origin: NodeId,
    pub from_head_id: HeadId,
    pub limit: u32,
}

impl Clone for FetchQuery {
    fn clone(&self) -> (res: FetchQuery)
        ensures
            res == *self,
    {
        FetchQuery {
            topic: self.topic.clone(),
            origin: self.origin.clone(),
            from_head_id: self.from_head_id,
            limit: self.limit,
        }
    }
}

/// A range of a log whose messages were marked as deleted.
#[derive(Debug)]
pub struct TombstoneRange {
    pub topic: Topic,
    pub origin: NodeId,
    pub from_head_id: HeadId,
    pub to_head_id: HeadId,
    pub created_at_ms: u64,
}

/// A [`TombstoneRange`] as a value.
pub struct TombstoneView {
    pub topic: Seq<char>,
    pub origin: NodeView,
    pub from_head_id: u64,
    pub to_head_id: u64,
    pub created_at_ms: u64,
}

impl View for TombstoneRange {
    type V = TombstoneView;

    open spec fn view(&self) -> TombstoneView {
        TombstoneView {
            topic: self.topic@,
            origin: self.origin@,
            from_head_id: self.from_head_id.0,
            to_head_id: self.to_head_id.0,
            created_at_ms: self.created_at_ms,
        }
    }
}

impl Clone for TombstoneRange {
    fn clone(&self) -> (res: TombstoneRange)
        ensures
            res@ == self@,
    {
        TombstoneRange {
            topic: self.topic.clone(),
            origin: self.origin.clone(),
            from_head_id: self.from_head_id,
            to_head_id: self.to_head_id,
            created_at_ms: self.created_at_ms,
        }
    }
}

/// The last position of the log of a topic and an origin.
#[derive(Debug)]
pub struct TopicHead {
    pub topic: Topic,
    pub origin: NodeId,
    pub head_id: HeadId,
}

/// A [`TopicHead`] as a value.
pub struct TopicHeadView {
    pub topic: Seq<char>,
    pub origin: NodeView,
    pub head_id: u64,
}

impl View for TopicHead {
    type V = TopicHeadView;

    open spec fn view(&self) -> TopicHeadView {
        TopicHeadView { topic: self.topic@, origin: self.origin@, head_id: self.head_id.0 }
    }
}

impl Clone for TopicHead {
    fn clone(&self) -> (res: TopicHead)
        ensures
            res == *self,
    {
        TopicHead {
            topic: self.topic.clone(),
            origin: self.origin.clone(),
            head_id: self.head_id,
        }
    }
}

/// What became of a message that came from a peer.
#[derive(Copy, Clone, Debug, PartialEq, Eq, Structural)]
pub enum ReplicateResult {
    Inserted,
    AlreadyPresent,
}

/// A message that has no place in a queue yet.
#[derive(Debug)]
pub struct NewFifoMessage {
    pub id: MessageId,
    pub queue: QueueName,
    pub topic: Topic,
    pub source: NodeId,
    pub target: NodeId,
    pub payload: Vec<u8>,
    pub headers: BTreeMap<String, String>,
}

/// A [`NewFifoMessage`] as a value.
pub struct NewFifoView {
    pub id: Seq<char>,
    pub queue: Seq<char>,
    pub topic: Seq<char>,
    pub source: NodeView,
    pub target: NodeView,
    pub payload: Seq<u8>,
    pub headers: Map<String, String>,
}

impl View for NewFifoMessage {
    type V = NewFifoView;

    open spec fn view(&self) -> NewFifoView {
        NewFifoView {
            id: self.id@,
            queue: self.queue@,
            topic: self.topic@,
            source: self.source@,
            target: self.target@,
            payload: self.payload@,
            headers: self.headers@,
        }
    }
}

impl Clone for NewFifoMessage {
    fn clone(&self) -> (res: NewFifoMessage)
        ensures
            res@ == self@,
    {
        NewFifoMessage {
            id: self.id.clone(),
            queue: self.queue.clone(),
            topic: self.topic.clone(),
            source: self.source.clone(),
            target: self.target.clone(),
            payload: self.payload.clone(),
            headers: self.headers.clone(),
        }
    }
}

impl NewFifoMessage {
    /// A message with a random identifier.
    pub fn new(
        queue: QueueName,
        topic: Topic,
        source: NodeId,
        target: NodeId,
        payload: Vec<u8>,
        headers: BTreeMap<String, String>,
    ) -> (res: NewFifoMessage)
        ensures
            crate::ids::is_random_id(res.id@),
            crate::ids::was_drawn(res.id@),
            res@ == (NewFifoView {
                id: res.id@,
                queue: queue@,
                topic: topic@,
                source: source@,
                target: target@,
                payload: payload@,
                headers: headers@,
            }),
    {
        NewFifoMessage { id: MessageId::new(), queue, topic, source, target, payload, headers }
    }
}

/// A message at its place in a queue.
#[derive(Debug)]
pub struct StoredFifoMessage {
    pub id: MessageId,
    pub queue: QueueName,
    pub topic: Topic,
    pub source: NodeId,
    pub target: NodeId,
    pub payload: Vec<u8>,
    pub headers: BTreeMap<String, String>,
    pub created_at_ms: u64,
    pub sequence: u64,
    pub attempts: u32,
}

/// A [`StoredFifoMessage`] as a value.
pub struct FifoView {
    pub id: Seq<char>,
    pub queue: Seq<char>,
    pub topic: Seq<char>,
    pub source: NodeView,
    pub target: NodeView,
    pub payload: Seq<u8>,
    pub headers: Map<String, String>,
    pub created_at_ms: u64,
    pub sequence: u64,
    pub attempts: u32,
}

impl FifoView {
    /// The message after one more attempt; the count stays at the greatest number.
    pub open spec fn attempted(self) -> FifoView {
        FifoView {
            attempts: if self.attempts == u32::MAX {
                self.attempts
            } else {
                (self.attempts + 1) as u32
            },
            ..self
        }
    }
}

/// A new message at place `sequence` of its queue, stamped `created_at_ms`.
pub open spec fn queued(message: NewFifoView, sequence: u64, created_at_ms: u64) -> FifoView {
    FifoView {
        id: message.id,
        queue: message.queue,
        topic: message.topic,
        source: message.source,
        target: message.target,
        payload: message.payload,
        headers: message.headers,
        created_at_ms,
        sequence,
        attempts: 0,
    }
}

impl View for StoredFifoMessage {
    type V = FifoView;

    open spec fn view(&self) -> FifoView {
        FifoView {
            id: self.id@,
            queue: self.queue@,
            topic: self.topic@,
            source: self.source@,
            target: self.target@,
            payload: self.payload@,
            headers: self.headers@,
            created_at_ms: self.created_at_ms,
            sequence: self.sequence,
            attempts: self.attempts,
        }
    }
}

impl Clone for StoredFifoMessage {
    fn clone(&self) -> (res: StoredFifoMessage)
        ensures
            res@ == self@,
    {
        StoredFifoMessage {
            id: self.id.clone(),
            queue: self.queue.clone(),
            topic: self.topic.clone(),
            source: self.source.clone(),
            target: self.target.clone(),
            payload: self.payload.clone(),
            headers: self.headers.clone(),
            created_at_ms: self.created_at_ms,
            sequence: self.sequence,
            attempts: self.attempts,
        }
    }
}

impl StoredFifoMessage {
    /// Puts a new message at place `sequence` of its queue, stamped `created_at_ms`.
    pub fn place(message: NewFifoMessage, sequence: u64, created_at_ms: u64) -> (res:
        StoredFifoMessage)
        ensures
            res@ == queued(message@, sequence, created_at_ms),
            res.payload@ == message.payload@,
            res.headers@ == message.headers@,
    {
        StoredFifoMessage {
            id: message.id,
            queue: message.queue,
            topic: message.topic,
            source: message.source,
            target: message.target,
            payload: message.payload,
            headers: message.headers,
            created_at_ms,
            sequence,
            attempts: 0,
        }
    }
}

/// How far the log of a topic and an origin has been copied from a peer, and what went wrong.
#[derive(Debug)]
pub struct PeerSyncState {
    pub peer: String,
    pub topic: Topic,
    pub origin: NodeId,
    pub local_head: u64,
    pub remote_head: u64,
    pub last_synced_head: u64,
    pub consecutive_failures: u32,
    pub last_error: String,
}

/// A [`PeerSyncState`] as a value.
pub struct SyncStateView {
    pub peer: Seq<char>,
    pub topic: Seq<char>,
    pub origin: NodeView,
    pub local_head: u64,
    pub remote_head: u64,
    pub last_synced_head: u64,
    pub consecutive_failures: u32,
    pub last_error: Seq<char>,
}

impl View for PeerSyncState {
    type V = SyncStateView;

    open spec fn view(&self) -> SyncStateView {
        SyncStateView {
            peer: self.peer@,
            topic: self.topic@,
            origin: self.origin@,
            local_head: self.local_head,
            remote_head: self.remote_head,
            last_synced_head: self.last_synced_head,
            consecutive_failures: self.consecutive_failures,
            last_error: self.last_error@,
        }
    }
}

impl Clone for PeerSyncState {
    fn clone(&self) -> (res: PeerSyncState)
        ensures
            res@ == self@,
    {
        PeerSyncState {
            peer: self.peer.clone(),
            topic: self.topic.clone(),
            origin: self.origin.clone(),
            local_head: self.local_head,
            remote_head: self.remote_head,
            last_synced_head: self.last_synced_head,
            consecutive_failures: self.consecutive_failures,
            last_error: self.last_error.clone(),
        }
    }
}

} // verus!

//! What goes over the network, and how it stands for what the bus works on.

use std::collections::BTreeMap;

use vstd::prelude::*;

use crate::ids::HeadId;
use crate::ids::MessageId;
use crate::ids::NodeId;
use crate::ids::NodeView;
use crate::ids::QueueName;
use crate::ids::Topic;
use crate::message::FifoView;
use crate::message::MessageView;
use crate::message::PeerSyncState;
use crate::message::StoredFifoMessage;
use crate::message::StoredMessage;
use crate::message::SyncStateView;
use crate::message::TopicHead;
use crate::message::TopicHeadView;
use crate::status::status_from_error;
use crate::status::Status;
use crate::status::StatusView;

verus! {

/// A node on the wire: three texts that need not name a node.
#[derive(Debug)]
pub struct WireNode {
    pub tenant_id: String,
    pub bl_name: String,
    pub device_id: String,
}

impl View for WireNode {
    type V = NodeView;

    open spec fn view(&self) -> NodeView {
        NodeView {
            tenant_id: self.tenant_id@,
            bl_name: self.bl_name@,
            device_id: self.device_id@,
        }
    }
}

impl Clone for WireNode {
    fn clone(&self) -> (res: WireNode)
        ensures
            res == *self,
    {
        WireNode {
            tenant_id: self.tenant_id.clone(),
            bl_name: self.bl_name.clone(),
            device_id: self.device_id.clone(),
        }
    }
}

/// A node that may be left out.
pub open spec fn optional_node(node: Option<WireNode>) -> Option<NodeView> {
    match node {
        Some(n) => Some(n@),
        None => None,
    }
}

/// A message of a log on the wire.
#[derive(Debug)]
pub struct MessageEnvelope {
    pub id: String,
    pub topic: String,
    pub origin: Option<WireNode>,
    pub head_id: u64,
    pub payload: Vec<u8>,
    pub headers: BTreeMap<String, String>,
    pub created_at_ms: u64,
    pub deleted: bool,
}

/// A [`MessageEnvelope`] as a value.
pub struct EnvelopeView {
    pub id: Seq<char>,
    pub topic: Seq<char>,
    pub origin: Option<NodeView>,
    pub head_id: u64,
    pub payload: Seq<u8>,
    pub headers: Map<String, String>,
    pub created_at_ms: u64,
    pub deleted: bool,
}

impl View for MessageEnvelope {
    type V = EnvelopeView;

    open spec fn view(&self) -> EnvelopeView {
        EnvelopeView {
            id: self.id@,
            topic: self.topic@,
            origin: optional_node(self.origin),
            head_id: self.head_id,
            payload: self.payload@,
            headers: self.headers@,
            created_at_ms: self.created_at_ms,
            deleted: self.deleted,
        }
    }
}

/// A message of a queue on the wire.
#[derive(Debug)]
pub struct FifoMessage {
    pub id: String,
    pub queue: String,
    pub topic: String,
    pub source: Option<WireNode>,
    pub target: Option<WireNode>,
    pub payload: Vec<u8>,
    pub headers: BTreeMap<String, String>,
    pub created_at_ms: u64,
    pub sequence: u64,
    pub attempts: u32,
}

/// A [`FifoMessage`] as a value.
pub struct FifoMessageView {
    pub id: Seq<char>,
    pub queue: Seq<char>,
    pub topic: Seq<char>,
    pub source: Option<NodeView>,
    pub target: Option<NodeView>,
    pub payload: Seq<u8>,
    pub headers: Map<String, String>,
    pub created_at_ms: u64,
    pub sequence: u64,
    pub attempts: u32,
}

impl View for FifoMessage {
    type V = FifoMessageView;

    open spec fn view(&self) -> FifoMessageView {
        FifoMessageView {
            id: self.id@,
            queue: self.queue@,
            topic: self.topic@,
            source: optional_node(self.source),
            target: optional_node(self.target),
            payload: self.payload@,
            headers: self.headers@,
            created_at_ms: self.created_at_ms,
            sequence: self.sequence,
            attempts: self.attempts,
        }
    }
}

/// The last position of a log on the wire.
#[derive(Debug)]
pub struct WireTopicHead {
    pub topic: String,
    pub origin: Option<WireNode>,
    pub head_id: u64,
}

/// A [`WireTopicHead`] as a value.
pub struct WireHeadView {
    pub topic: Seq<char>,
    pub origin: Option<NodeView>,
    pub head_id: u64,
}

impl View for WireTopicHead {
    type V = WireHeadView;

    open spec fn view(&self) -> WireHeadView {
        WireHeadView {
            topic: self.topic@,
            origin: optional_node(self.origin),
            head_id: self.head_id,
        }
    }
}

impl Clone for WireTopicHead {
    fn clone(&self) -> (res: WireTopicHead)
        ensures
            res@ == self@,
    {
        WireTopicHead {
            topic: self.topic.clone(),
            origin: match &self.origin {
                Some(node) => Some(node.clone()),
                None => None,
            },
            head_id: self.head_id,
        }
    }
}

/// What is known of a log at a peer, on the wire.
#[derive(Debug)]
pub struct WireSyncState {
    pub peer: String,
    pub topic: String,
    pub origin: Option<WireNode>,
    pub local_head: u64,
    pub remote_head: u64,
    pub last_synced_head: u64,
    pub consecutive_failures: u32,
    pub last_error: String,
}

/// A [`WireSyncState`] as a value.
pub struct WireSyncView {
    pub peer: Seq<char>,
    pub topic: Seq<char>,
    pub origin: Option<NodeView>,
    pub local_head: u64,
    pub remote_head: u64,
    pub last_synced_head: u64,
    pub consecutive_failures: u32,
    pub last_error: Seq<char>,
}

impl View for WireSyncState {
    type V = WireSyncView;

    open spec fn view(&self) -> WireSyncView {
        WireSyncView {
            peer: self.peer@,
            topic: self.topic@,
            origin: optional_node(self.origin),
            local_head: self.local_head,
            remote_head: self.remote_head,
            last_synced_head: self.last_synced_head,
            consecutive_failures: self.consecutive_failures,
            last_error: self.last_error@,
        }
    }
}

/// What is wrong with a node from the wire: nothing where all its parts are empty, which stands
/// for a node that was not named.
pub open spec fn node_error(node: NodeView) -> Option<StatusView> {
    if node.is_empty() {
        None
    } else {
        match node.error() {
            Some(e) => Some(crate::status::status_of(e)),
            None => None,
        }
    }
}

/// The node that the wire gives, empty where it names none.
pub fn core_node(value: WireNode) -> (res: Result<NodeId, Status>)
    ensures
        match res {
            Ok(node) => node_error(value@) is None && node@ == value@,
            Err(status) => node_error(value@) == Some(status@),
        },
{
    if value.tenant_id.as_str().is_empty() && value.bl_name.as_str().is_empty()
        && value.device_id.as_str().is_empty() {
        return Ok(
            NodeId {
                tenant_id: value.tenant_id,
                bl_name: value.bl_name,
                device_id: value.device_id,
            },
        );
    }
    match NodeId::new(
        value.tenant_id.as_str(),
        value.bl_name.as_str(),
        value.device_id.as_str(),
    ) {
        Ok(node) => Ok(node),
        Err(e) => Err(status_from_error(e)),
    }
}

/// A node for the wire.
pub fn proto_node(value: NodeId) -> (res: WireNode)
    ensures
        res@ == value@,
{
    WireNode {
        tenant_id: value.tenant_id,
        bl_name: value.bl_name,
        device_id: value.device_id,
    }
}

/// How a message of a log reads on the wire.
pub open spec fn envelope_of(m: MessageView) -> EnvelopeView {
    EnvelopeView {
        id: m.id,
        topic: m.topic,
        origin: Some(m.origin),
        head_id: m.head_id,
        payload: m.payload,
        headers: m.headers,
        created_at_ms: m.created_at_ms,
        deleted: m.deleted,
    }
}

/// A message of a log for the wire.
pub fn proto_message(value: StoredMessage) -> (res: MessageEnvelope)
    ensures
        res@ == envelope_of(value@),
{
    MessageEnvelope {
        id: value.id.as_str().to_owned(),
        topic: value.topic.into_string(),
        origin: Some(proto_node(value.origin)),
        head_id: value.head_id.0,
        payload: value.payload,
        headers: value.headers,
        created_at_ms: value.created_at_ms,
        deleted: value.deleted,
    }
}

/// A name that the wire gives, or what is wrong with it.
pub open spec fn name_error(part: Seq<char>, text: Seq<char>) -> Option<StatusView> {
    match crate::ids::part_error(part, text) {
        Some(e) => Some(crate::status::status_of(e)),
        None => None,
    }
}

/// The message that an envelope holds, or the first fault of the envelope.
pub open spec fn message_of(envelope: EnvelopeView) -> Result<MessageView, StatusView> {
    match envelope.origin {
        None => Err(crate::status::bad_argument("message origin is required"@)),
        Some(origin) => match node_error(origin) {
            Some(e) => Err(e),
            None => if envelope.head_id == 0 {
                Err(crate::status::bad_argument("message head_id must be greater than zero"@))
            } else {
                match (name_error("message_id"@, envelope.id), name_error(
                    "topic"@,
                    envelope.topic,
                )) {
                    (Some(e), _) => Err(e),
                    (None, Some(e)) => Err(e),
                    (None, None) => Ok(
                        MessageView {
                            id: envelope.id,
                            topic: envelope.topic,
                            origin,
                            head_id: envelope.head_id,
                            payload: envelope.payload,
                            headers: envelope.headers,
                            created_at_ms: envelope.created_at_ms,
                            deleted: envelope.deleted,
                        },
                    ),
                }
            },
        },
    }
}

/// The message of a log that the wire gives.
pub fn core_message(value: MessageEnvelope) -> (res: Result<StoredMessage, Status>)
    ensures
        match res {
            Ok(message) => message_of(value@) == Ok::<MessageView, StatusView>(message@),
            Err(status) => message_of(value@) == Err::<MessageView, StatusView>(status@),
        },
{
    let origin = match value.origin {
        Some(node) => match core_node(node) {
            Ok(origin) => origin,
            Err(status) => return Err(status),
        },
        None => return Err(Status::invalid_argument("message origin is required")),
    };
    if value.head_id == 0 {
        return Err(Status::invalid_argument("message head_id must be greater than zero"));
    }
    let id = match MessageId::from_string(value.id.as_str()) {
        Ok(id) => id,
        Err(e) => return Err(status_from_error(e)),
    };
    let topic = match Topic::new(value.topic.as_str()) {
        Ok(topic) => topic,
        Err(e) => return Err(status_from_error(e)),
    };
    Ok(
        StoredMessage {
            id,
            topic,
            origin,
            head_id: HeadId(value.head_id),
            payload: value.payload,
            headers: value.headers,
            created_at_ms: value.created_at_ms,
            deleted: value.deleted,
        },
    )
}

/// A message that goes over the wire arrives as it was sent.
pub proof fn law_message_crosses_the_wire(m: MessageView)
    requires
        crate::ids::valid_part(m.id),
        crate::ids::valid_part(m.topic),
        m.origin.is_empty() || m.origin.error() is None,
        m.head_id > 0,
    ensures
        message_of(envelope_of(m)) == Ok::<MessageView, StatusView>(m),
{
}

/// How the last position of a log reads on the wire.
pub open spec fn wire_head_of(h: TopicHeadView) -> WireHeadView {
    WireHeadView { topic: h.topic, origin: Some(h.origin), head_id: h.head_id }
}

/// The last position of a log for the wire.
pub fn proto_topic_head(value: TopicHead) -> (res: WireTopicHead)
    ensures
        res@ == wire_head_of(value@),
{
    WireTopicHead {
        topic: value.topic.into_string(),
        origin: Some(proto_node(value.origin)),
        head_id: value.head_id.0,
    }
}

/// The last position of a log that the wire gives, or the first fault of it.
pub open spec fn topic_head_of(head: WireHeadView) -> Result<TopicHeadView, StatusView> {
    match head.origin {
        None => Err(crate::status::bad_argument("topic head origin is required"@)),
        Some(origin) => match node_error(origin) {
            Some(e) => Err(e),
            None => match name_error("topic"@, head.topic) {
                Some(e) => Err(e),
                None => Ok(TopicHeadView { topic: head.topic, origin, head_id: head.head_id }),
            },
        },
    }
}

/// The last position of a log that the wire gives.
pub fn core_topic_head(value: WireTopicHead) -> (res: Result<TopicHead, Status>)
    ensures
        match res {
            Ok(head) => topic_head_of(value@) == Ok::<TopicHeadView, StatusView>(head@),
            Err(status) => topic_head_of(value@) == Err::<TopicHeadView, StatusView>(status@),
        },
{
    let origin = match value.origin {
        Some(node) => match core_node(node) {
            Ok(origin) => origin,
            Err(status) => return Err(status),
        },
        None => return Err(Status::invalid_argument("topic head origin is required")),
    };
    match Topic::new(value.topic.as_str()) {
        Ok(topic) => Ok(TopicHead { topic, origin, head_id: HeadId(value.head_id) }),
        Err(e) => Err(status_from_error(e)),
    }
}

/// The last position of a log that goes over the wire arrives as it was sent.
pub proof fn law_topic_head_crosses_the_wire(h: TopicHeadView)
    requires
        crate::ids::valid_part(h.topic),
        h.origin.is_empty() || h.origin.error() is None,
    ensures
        topic_head_of(wire_head_of(h)) == Ok::<TopicHeadView, StatusView>(h),
{
}

/// How a message of a queue reads on the wire.
pub open spec fn fifo_message_of(m: FifoView) -> FifoMessageView {
    FifoMessageView {
        id: m.id,
        queue: m.queue,
        topic: m.topic,
        source: Some(m.source),
        target: Some(m.target),
        payload: m.payload,
        headers: m.headers,
        created_at_ms: m.created_at_ms,
        sequence: m.sequence,
        attempts: m.attempts,
    }
}

/// A message of a queue for the wire.
pub fn proto_fifo(value: StoredFifoMessage) -> (res: FifoMessage)
    ensures
        res@ == fifo_message_of(value@),
{
    FifoMessage {
        id: value.id.as_str().to_owned(),
        queue: value.queue.as_str().to_owned(),
        topic: value.topic.into_string(),
        source: Some(proto_node(value.source)),
        target: Some(proto_node(value.target)),
        payload: value.payload,
        headers: value.headers,
        created_at_ms: value.created_at_ms,
        sequence: value.sequence,
        attempts: value.attempts,
    }
}

/// How a state of a log at a peer reads on the wire.
pub open spec fn wire_sync_of(s: SyncStateView) -> WireSyncView {
    WireSyncView {
        peer: s.peer,
        topic: s.topic,
        origin: Some(s.origin),
        local_head: s.local_head,
        remote_head: s.remote_head,
        last_synced_head: s.last_synced_head,
        consecutive_failures: s.consecutive_failures,
        last_error: s.last_error,
    }
}

/// A state of a log at a peer for the wire.
pub fn proto_sync_state(value: PeerSyncState) -> (res: WireSyncState)
    ensures
        res@ == wire_sync_of(value@),
{
    WireSyncState {
        peer: value.peer,
        topic: value.topic.into_string(),
        origin: Some(proto_node(value.origin)),
        local_head: value.local_head,
        remote_head: value.remote_head,
        last_synced_head: value.last_synced_head,
        consecutive_failures: value.consecutive_failures,
        last_error: value.last_error,
    }
}

/// A message to be published.
#[derive(Debug)]
pub struct PublishRequest {
    pub topic: String,
    pub origin: Option<WireNode>,
    pub payload: Vec<u8>,
    pub headers: BTreeMap<String, String>,
}

/// The answer to a [`PublishRequest`].
#[derive(Debug)]
pub struct PublishResponse {
    pub message: Option<MessageEnvelope>,
}

/// A request for the messages of a log.
#[derive(Debug)]
pub struct FetchRequest {
    pub topic: String,
    pub origin: Option<WireNode>,
    pub from_head_id: u64,
    pub limit: u32,
}

/// A request for the messages of a log, those that are there and those to come.
#[derive(Debug)]
pub struct SubscribeRequest {
    pub topic: String,
    pub origin: Option<WireNode>,
    pub from_head_id: u64,
    pub replay_limit: u32,
}

/// One message of a subscription.
#[derive(Debug)]
pub struct SubscribeResponse {
    pub message: Option<MessageEnvelope>,
}

/// A request for the last position of a log.
#[derive(Debug)]
pub struct GetHeadRequest {
    pub topic: String,
    pub origin: Option<WireNode>,
}

/// The last position of a log; zero where nothing was found.
#[derive(Debug)]
pub struct GetHeadResponse {
    pub head_id: u64,
    pub found: bool,
}

/// A request to mark a range of a log as deleted.
#[derive(Debug)]
pub struct DeleteRangeRequest {
    pub topic: String,
    pub origin: Option<WireNode>,
    pub from_head_id: u64,
    pub to_head_id: u64,
}

/// How many messages a [`DeleteRangeRequest`] deleted.
#[derive(Debug)]
pub struct DeleteRangeResponse {
    pub deleted_count: u64,
}

/// A message to be put at the back of a queue.
#[derive(Debug)]
pub struct EnqueueFifoRequest {
    pub queue: String,
    pub topic: String,
    pub source: Option<WireNode>,
    pub target: Option<WireNode>,
    pub payload: Vec<u8>,
    pub headers: BTreeMap<String, String>,
}

/// The answer to an [`EnqueueFifoRequest`] or a [`PeekFifoRequest`].
#[derive(Debug)]
pub struct FifoResponse {
    pub message: Option<FifoMessage>,
}

/// A request for the front message of a queue.
#[derive(Debug)]
pub struct PeekFifoRequest {
    pub queue: String,
}

/// That the daemon is alive, and which node it is.
#[derive(Debug)]
pub struct HealthResponse {
    pub status: String,
    pub node: Option<WireNode>,
}

/// Whether the daemon can work on its store, and what keeps it from that.
#[derive(Debug)]
pub struct ReadyResponse {
    pub ready: bool,
    pub error: String,
}

/// The acknowledgement of a message of a queue on the wire.
#[derive(Debug)]
pub struct AckFifoRequest {
    pub queue: String,
    pub message_id: String,
}

/// The refusal of a message of a queue on the wire.
#[derive(Debug)]
pub struct RejectFifoRequest {
    pub queue: String,
    pub message_id: String,
}

/// What is wrong with the name of a queue and the identifier of a message: the first that is not
/// accepted.
pub open spec fn fifo_parts_error(queue: Seq<char>, message_id: Seq<char>) -> Option<StatusView> {
    match name_error("queue"@, queue) {
        Some(e) => Some(e),
        None => name_error("message_id"@, message_id),
    }
}

fn fifo_parts(queue: String, message_id: String) -> (res: Result<(QueueName, MessageId), Status>)
    ensures
        match res {
            Ok((q, id)) => fifo_parts_error(queue@, message_id@) is None && q@ == queue@ && id@
                == message_id@,
            Err(status) => fifo_parts_error(queue@, message_id@) == Some(status@),
        },
{
    let queue = match QueueName::new(queue.as_str()) {
        Ok(queue) => queue,
        Err(e) => return Err(status_from_error(e)),
    };
    match MessageId::from_string(message_id.as_str()) {
        Ok(message_id) => Ok((queue, message_id)),
        Err(e) => Err(status_from_error(e)),
    }
}

/// The queue and the message that are acknowledged.
pub fn fifo_ack_parts(request: AckFifoRequest) -> (res: Result<(QueueName, MessageId), Status>)
    ensures
        match res {
            Ok((q, id)) => fifo_parts_error(request.queue@, request.message_id@) is None && q@
                == request.queue@ && id@ == request.message_id@,
            Err(status) => fifo_parts_error(request.queue@, request.message_id@) == Some(status@),
        },
{
    fifo_parts(request.queue, request.message_id)
}

/// The queue and the message that are rejected.
pub fn reject_fifo_parts(request: RejectFifoRequest) -> (res: Result<
    (QueueName, MessageId),
    Status,
>)
    ensures
        match res {
            Ok((q, id)) => fifo_parts_error(request.queue@, request.message_id@) is None && q@
                == request.queue@ && id@ == request.message_id@,
            Err(status) => fifo_parts_error(request.queue@, request.message_id@) == Some(status@),
        },
{
    fifo_parts(request.queue, request.message_id)
}

} // verus!

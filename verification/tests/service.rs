use std::collections::BTreeMap;

use msgbus::error::MsgbusError;
use msgbus::ids::{HeadId, MessageId, NodeId, QueueName, Topic};
use msgbus::memory::MemoryStore;
use msgbus::message::{
    FetchQuery, NewFifoMessage, NewMessage, PeerSyncState, ReplicateResult, StoredFifoMessage,
    StoredMessage, TombstoneRange, TopicHead,
};
use msgbus::service::{
    apply_control_message, apply_range, is_control_message, ready_response, MsgbusGrpcService,
    DELETE_TOPIC,
};
use msgbus::status::{retryable_status, status_from_error, Code, Status};
use msgbus::store::MsgbusStore;
use msgbus::subscribe::{LiveAction, LiveEvent};
use msgbus::sync::{LogSync, PeerSpec, PeerSync, SyncAction, SyncError};
use msgbus::wire::{
    core_message, core_node, core_topic_head, proto_message, proto_node, AckFifoRequest,
    DeleteRangeRequest, EnqueueFifoRequest, FetchRequest, GetHeadRequest, PeekFifoRequest,
    PublishRequest, RejectFifoRequest, SubscribeRequest, WireNode, WireTopicHead,
};

fn node() -> NodeId {
    NodeId::new("tenant", "bl", "device").expect("valid node")
}

fn other() -> WireNode {
    WireNode {
        tenant_id: "tenant".to_string(),
        bl_name: "bl".to_string(),
        device_id: "other".to_string(),
    }
}

fn unnamed() -> WireNode {
    WireNode {
        tenant_id: String::new(),
        bl_name: String::new(),
        device_id: String::new(),
    }
}

fn service() -> MsgbusGrpcService<MemoryStore> {
    MsgbusGrpcService::new(MemoryStore::new(), node())
}

fn publish(topic: &str, origin: Option<WireNode>) -> PublishRequest {
    let mut headers = BTreeMap::new();
    headers.insert("k".to_string(), "v".to_string());
    PublishRequest {
        topic: topic.to_string(),
        origin,
        payload: b"hello".to_vec(),
        headers,
    }
}

fn delete(from: u64, to: u64) -> DeleteRangeRequest {
    DeleteRangeRequest {
        topic: "events".to_string(),
        origin: None,
        from_head_id: from,
        to_head_id: to,
    }
}

fn encode(range: &TombstoneRange) -> Result<Vec<u8>, String> {
    Ok(format!("{}-{}", range.from_head_id.0, range.to_head_id.0).into_bytes())
}

fn refused<T>(outcome: Result<T, Status>, code: Code, message: &str) {
    match outcome {
        Ok(_) => panic!("expected {message}"),
        Err(status) => {
            assert_eq!(status.code, code);
            assert_eq!(status.message, message);
        }
    }
}

/// A store that can do nothing.
struct BrokenStore;

fn broken<T>() -> Result<T, MsgbusError> {
    Err(MsgbusError::Storage("disk on fire".to_string()))
}

impl MsgbusStore for BrokenStore {
    fn append_message(&mut self, _message: NewMessage) -> Result<StoredMessage, MsgbusError> {
        broken()
    }

    fn fetch_messages(&self, _query: FetchQuery) -> Result<Vec<StoredMessage>, MsgbusError> {
        broken()
    }

    fn get_head(&self, _topic: &Topic, _origin: &NodeId) -> Result<Option<HeadId>, MsgbusError> {
        broken()
    }

    fn list_heads(&self) -> Result<Vec<TopicHead>, MsgbusError> {
        broken()
    }

    fn tombstone_range(
        &mut self,
        _topic: &Topic,
        _origin: &NodeId,
        _from: HeadId,
        _to: HeadId,
    ) -> Result<u64, MsgbusError> {
        broken()
    }

    fn tombstone_range_with_marker(
        &mut self,
        _topic: &Topic,
        _origin: &NodeId,
        _from: HeadId,
        _to: HeadId,
        _marker: NewMessage,
    ) -> Result<(u64, StoredMessage), MsgbusError> {
        broken()
    }

    fn put_replicated_message(
        &mut self,
        _message: StoredMessage,
    ) -> Result<ReplicateResult, MsgbusError> {
        broken()
    }

    fn enqueue_fifo(&mut self, _message: NewFifoMessage) -> Result<StoredFifoMessage, MsgbusError> {
        broken()
    }

    fn peek_fifo(&self, _queue: &QueueName) -> Result<Option<StoredFifoMessage>, MsgbusError> {
        broken()
    }

    fn ack_fifo(&mut self, _queue: &QueueName, _id: &MessageId) -> Result<bool, MsgbusError> {
        broken()
    }

    fn reject_fifo(&mut self, _queue: &QueueName, _id: &MessageId) -> Result<bool, MsgbusError> {
        broken()
    }

    fn put_peer_sync_state(&mut self, _state: PeerSyncState) -> Result<(), MsgbusError> {
        broken()
    }

    fn get_peer_sync_state(
        &self,
        _peer: &str,
        _topic: &Topic,
        _origin: &NodeId,
    ) -> Result<Option<PeerSyncState>, MsgbusError> {
        broken()
    }

    fn list_peer_sync_states(&self) -> Result<Vec<PeerSyncState>, MsgbusError> {
        broken()
    }
}

#[test]
fn a_published_message_is_fetched() {
    let mut service = service();
    let (response, stored) = service.publish(publish("events", None)).expect("publish");
    let envelope = response.message.expect("message");
    assert_eq!(envelope.head_id, 1);
    assert_eq!(envelope.id, stored.id.as_str());
    assert_eq!(envelope.origin.expect("origin").device_id, "device");
    service.publish(publish("events", Some(unnamed()))).expect("publish");
    let fetched = service
        .fetch(FetchRequest {
            topic: "events".to_string(),
            origin: None,
            from_head_id: 0,
            limit: 0,
        })
        .expect("fetch");
    assert_eq!(fetched.len(), 2);
    assert_eq!(fetched[0].payload, b"hello");
    assert_eq!(fetched[0].headers.get("k").map(|v| v.as_str()), Some("v"));
    assert_eq!(fetched[1].head_id, 2);
}

#[test]
fn bad_names_are_refused_over_the_wire() {
    let mut service = service();
    refused(
        service.publish(publish("", None)),
        Code::InvalidArgument,
        "topic is empty",
    );
    let mut half = other();
    half.bl_name = String::new();
    refused(
        service.publish(publish("events", Some(half))),
        Code::InvalidArgument,
        "bl_name is empty",
    );
    refused(
        service.get_head(GetHeadRequest {
            topic: "a\0".to_string(),
            origin: None,
        }),
        Code::InvalidArgument,
        "topic contains NUL byte",
    );
}

#[test]
fn only_the_local_node_writes() {
    let mut service = service();
    let local = proto_node(node());
    assert!(service.publish(publish("events", Some(local))).is_ok());
    let message = "writes are accepted for the local node only";
    refused(
        service.publish(publish("events", Some(other()))),
        Code::InvalidArgument,
        message,
    );
    let mut request = delete(1, 1);
    request.origin = Some(other());
    refused(
        service.delete_range(request, encode),
        Code::InvalidArgument,
        message,
    );
    let head = service
        .get_head(GetHeadRequest {
            topic: "events".to_string(),
            origin: Some(other()),
        })
        .expect("head");
    assert!(!head.found);
    assert_eq!(head.head_id, 0);
}

#[test]
fn a_deleted_range_leaves_a_marker() {
    let mut service = service();
    for _ in 0..3 {
        service.publish(publish("events", None)).expect("publish");
    }
    let (response, marker) = service.delete_range(delete(2, 9), encode).expect("delete");
    assert_eq!(response.deleted_count, 2);
    assert_eq!(marker.topic.as_str(), DELETE_TOPIC);
    assert_eq!(marker.topic.as_str(), "$msgbus.delete");
    assert_eq!(marker.payload, b"2-9");
    assert!(marker.headers.is_empty());
    assert!(is_control_message(&marker));
    let head = service
        .get_head(GetHeadRequest {
            topic: "events".to_string(),
            origin: None,
        })
        .expect("head");
    assert!(head.found);
    assert_eq!(head.head_id, 3);
    refused(
        service.delete_range(delete(2, 1), encode),
        Code::InvalidArgument,
        "from_head_id must be <= to_head_id",
    );
    refused(
        service.delete_range(delete(1, 1), |_: &TombstoneRange| Err("no ink".to_string())),
        Code::Internal,
        "failed to encode tombstone: no ink",
    );
    assert_eq!(service.list_heads().expect("heads").len(), 2);
}

#[test]
fn a_queue_over_the_wire() {
    let mut service = service();
    let enqueue = |target: Option<WireNode>| EnqueueFifoRequest {
        queue: "q".to_string(),
        topic: "events".to_string(),
        source: None,
        target,
        payload: b"job".to_vec(),
        headers: BTreeMap::new(),
    };
    let peek = || PeekFifoRequest {
        queue: "q".to_string(),
    };
    refused(service.peek_fifo(peek()), Code::NotFound, "fifo queue is empty");
    refused(
        service.enqueue_fifo(enqueue(None)),
        Code::InvalidArgument,
        "target is required",
    );
    let first = service
        .enqueue_fifo(enqueue(Some(other())))
        .expect("enqueue")
        .message
        .expect("message");
    assert_eq!(first.sequence, 1);
    assert_eq!(first.target.expect("target").device_id, "other");
    assert_eq!(first.source.expect("source").device_id, "device");
    let ack = |id: &str| AckFifoRequest {
        queue: "q".to_string(),
        message_id: id.to_string(),
    };
    assert!(!service.ack_fifo(ack("someone else")).expect("ack"));
    refused(service.ack_fifo(ack("")), Code::InvalidArgument, "message_id is empty");
    assert!(service
        .reject_fifo(RejectFifoRequest {
            queue: "q".to_string(),
            message_id: first.id.clone(),
        })
        .expect("reject"));
    let front = service.peek_fifo(peek()).expect("peek").message.expect("front");
    assert_eq!(front.attempts, 1);
    assert!(service.ack_fifo(ack(&first.id)).expect("ack"));
    refused(service.peek_fifo(peek()), Code::NotFound, "fifo queue is empty");
    refused(
        service.reject_fifo(RejectFifoRequest {
            queue: " ".to_string(),
            message_id: String::new(),
        }),
        Code::InvalidArgument,
        "queue is empty",
    );
}

#[test]
fn the_daemon_says_how_it_is() {
    let service = service();
    let health = service.health();
    assert_eq!(health.status, "SERVING");
    assert_eq!(health.node.expect("node").device_id, "device");
    let ready = service.ready();
    assert!(ready.ready);
    assert_eq!(ready.error, "");
    let broken = MsgbusGrpcService::new(BrokenStore, node());
    let ready = broken.ready();
    assert!(!ready.ready);
    assert_eq!(ready.error, "storage error: disk on fire");
    assert!(!ready_response(Some(MsgbusError::NotFound("x".to_string()))).ready);
}

#[test]
fn a_broken_store_is_an_internal_error() {
    let mut service = MsgbusGrpcService::new(BrokenStore, node());
    refused(
        service.publish(publish("events", None)),
        Code::Internal,
        "disk on fire",
    );
    refused(service.list_heads(), Code::Internal, "disk on fire");
    refused(service.list_peer_sync_states(), Code::Internal, "disk on fire");
    refused(service.delete_range(delete(1, 2), encode), Code::Internal, "disk on fire");
    let fetch = FetchRequest {
        topic: "events".to_string(),
        origin: None,
        from_head_id: 1,
        limit: 1,
    };
    refused(service.fetch(fetch), Code::Internal, "disk on fire");
    let head = GetHeadRequest { topic: "events".to_string(), origin: None };
    refused(service.get_head(head), Code::Internal, "disk on fire");
    let peek = PeekFifoRequest { queue: "q".to_string() };
    refused(service.peek_fifo(peek), Code::Internal, "disk on fire");
    let subscribe = SubscribeRequest {
        topic: "events".to_string(),
        origin: None,
        from_head_id: 1,
        replay_limit: 0,
    };
    refused(service.subscribe(subscribe), Code::Internal, "disk on fire");
    let id = MessageId::new().as_str().to_string();
    let ack = AckFifoRequest { queue: "q".to_string(), message_id: id.clone() };
    refused(service.ack_fifo(ack), Code::Internal, "disk on fire");
    let reject = RejectFifoRequest { queue: "q".to_string(), message_id: id };
    refused(service.reject_fifo(reject), Code::Internal, "disk on fire");
    let range = TombstoneRange {
        topic: Topic::new("events").expect("topic"),
        origin: node(),
        from_head_id: HeadId(1),
        to_head_id: HeadId(2),
        created_at_ms: 0,
    };
    refused(apply_range(&mut BrokenStore, Ok(range)), Code::Internal, "disk on fire");
}

#[test]
fn a_broken_store_stops_the_copying() {
    let head = || WireTopicHead {
        topic: "events".to_string(),
        origin: Some(proto_node(node())),
        head_id: 3,
    };
    let fire = |error: SyncError| {
        assert!(matches!(error, SyncError::Store(MsgbusError::Storage(text)) if text == "disk on fire"));
    };
    fire(LogSync::open(&BrokenStore, head()).err().expect("failure"));
    let mut round = PeerSync::new(PeerSpec::parse("http://a").expect("peer"), 2);
    match round.on_heads(&mut BrokenStore, vec![head()]) {
        SyncAction::Fail(error) => fire(error),
        _ => panic!("expected a failure"),
    }
    assert_eq!(round.waiting.len(), 1);
    let gone = SyncError::Peer("gone".to_string());
    fire(round.on_failure(&mut BrokenStore, &gone).expect_err("failure"));
}

#[test]
fn a_subscription_replays_its_own_log_only() {
    let ab = NodeId::new("a/b", "c", "d").expect("valid node");
    let bc = NodeId::new("a", "b/c", "d").expect("valid node");
    let mut service = MsgbusGrpcService::new(MemoryStore::new(), ab.clone());
    let (_, stored) = service.publish(publish("e", None)).expect("publish");
    let request = |origin: &NodeId| SubscribeRequest {
        topic: "e".to_string(),
        origin: Some(proto_node(origin.clone())),
        from_head_id: 1,
        replay_limit: 10,
    };
    let (mut other, replay) = service.subscribe(request(&bc)).expect("subscribe");
    assert!(replay.is_empty());
    assert!(matches!(
        other.on_live(LiveEvent::Published(stored)),
        LiveAction::Wait
    ));
    let (_, replay) = service.subscribe(request(&ab)).expect("subscribe");
    assert_eq!(replay.len(), 1);
}

#[test]
fn control_messages_delete_ranges() {
    let mut store = MemoryStore::new();
    let topic = Topic::new("events").expect("topic");
    let stored = store
        .append_message(NewMessage::new(
            topic.clone(),
            node(),
            b"one".to_vec(),
            BTreeMap::new(),
        ))
        .expect("append");
    let range = |from: u64, to: u64| TombstoneRange {
        topic: Topic::new("events").expect("topic"),
        origin: node(),
        from_head_id: HeadId(from),
        to_head_id: HeadId(to),
        created_at_ms: 0,
    };
    let deleted = |store: &MemoryStore| {
        store
            .fetch_messages(FetchQuery {
                topic: Topic::new("events").expect("topic"),
                origin: node(),
                from_head_id: HeadId(1),
                limit: 1,
            })
            .expect("fetch")[0]
            .deleted
    };
    let decode = |_: &Vec<u8>| Ok(range(1, 1));
    assert!(apply_control_message(&mut store, &stored, decode).is_ok());
    assert!(!deleted(&store));
    let mut control = stored.clone();
    control.topic = Topic::new(DELETE_TOPIC).expect("topic");
    refused(
        apply_control_message(&mut store, &control, |_: &Vec<u8>| Err("garbage".to_string())),
        Code::InvalidArgument,
        "invalid tombstone payload: garbage",
    );
    refused(
        apply_range(&mut store, Ok(range(2, 1))),
        Code::InvalidArgument,
        "from_head_id must be <= to_head_id",
    );
    assert!(!deleted(&store));
    control.deleted = true;
    assert!(apply_control_message(&mut store, &control, decode).is_ok());
    assert!(!deleted(&store));
    control.deleted = false;
    assert!(apply_control_message(&mut store, &control, decode).is_ok());
    assert!(deleted(&store));
}

#[test]
fn a_subscription_replays_and_goes_on() {
    let mut service = service();
    let mut live = Vec::new();
    for _ in 0..4 {
        let (_, stored) = service.publish(publish("events", None)).expect("publish");
        live.push(stored);
    }
    let (_, elsewhere) = service.publish(publish("others", None)).expect("publish");
    let (mut sub, replay) = service
        .subscribe(SubscribeRequest {
            topic: "events".to_string(),
            origin: None,
            from_head_id: 2,
            replay_limit: 2,
        })
        .expect("subscribe");
    assert_eq!(replay.len(), 2);
    assert_eq!(replay[0].head_id, 2);
    assert_eq!(sub.last_sent, 3);
    assert!(matches!(
        sub.on_live(LiveEvent::Published(live[2].clone())),
        LiveAction::Wait
    ));
    assert!(matches!(
        sub.on_live(LiveEvent::Published(elsewhere)),
        LiveAction::Wait
    ));
    match sub.on_live(LiveEvent::Published(live[3].clone())) {
        LiveAction::Send(envelope) => assert_eq!(envelope.head_id, 4),
        _ => panic!("expected a message"),
    }
    assert_eq!(sub.last_sent, 4);
    match sub.on_live(LiveEvent::Lagged("channel lagged by 3".to_string())) {
        LiveAction::End(status) => {
            assert_eq!(status.code, Code::Unavailable);
            assert_eq!(status.message, "subscription lagged: channel lagged by 3");
        }
        _ => panic!("expected an end"),
    }
    let (sub, replay) = service
        .subscribe(SubscribeRequest {
            topic: "events".to_string(),
            origin: None,
            from_head_id: 9,
            replay_limit: 0,
        })
        .expect("subscribe");
    assert!(replay.is_empty());
    assert_eq!(sub.last_sent, 8);
}

#[test]
fn the_usual_replay_is_a_hundred_messages() {
    let mut service = service();
    for _ in 0..101 {
        service.publish(publish("events", None)).expect("publish");
    }
    let (sub, replay) = service
        .subscribe(SubscribeRequest {
            topic: "events".to_string(),
            origin: None,
            from_head_id: 0,
            replay_limit: 0,
        })
        .expect("subscribe");
    assert_eq!(replay.len(), 100);
    assert_eq!(sub.last_sent, 100);
}

#[test]
fn messages_cross_the_wire() {
    let mut store = MemoryStore::new();
    let stored = store
        .append_message(NewMessage::new(
            Topic::new("events").expect("topic"),
            node(),
            b"one".to_vec(),
            BTreeMap::new(),
        ))
        .expect("append");
    let back = core_message(proto_message(stored.clone())).expect("message");
    assert_eq!(format!("{back:?}"), format!("{stored:?}"));
    let mut envelope = proto_message(stored.clone());
    envelope.origin = None;
    refused(
        core_message(envelope),
        Code::InvalidArgument,
        "message origin is required",
    );
    let mut envelope = proto_message(stored.clone());
    envelope.head_id = 0;
    refused(
        core_message(envelope),
        Code::InvalidArgument,
        "message head_id must be greater than zero",
    );
    let mut envelope = proto_message(stored);
    envelope.id = String::new();
    refused(core_message(envelope), Code::InvalidArgument, "message_id is empty");
    refused(
        core_topic_head(WireTopicHead {
            topic: "events".to_string(),
            origin: None,
            head_id: 1,
        }),
        Code::InvalidArgument,
        "topic head origin is required",
    );
    assert!(core_node(unnamed()).expect("node").is_empty());
    assert!(core_node(other()).expect("node") != node());
}

#[test]
fn errors_have_their_codes() {
    let code = |error: MsgbusError| status_from_error(error).code;
    assert_eq!(code(MsgbusError::InvalidArgument(String::new())), Code::InvalidArgument);
    assert_eq!(code(MsgbusError::NotFound(String::new())), Code::NotFound);
    assert_eq!(code(MsgbusError::Conflict(String::new())), Code::FailedPrecondition);
    assert_eq!(code(MsgbusError::Storage(String::new())), Code::Internal);
    assert_eq!(code(MsgbusError::Serialization(String::new())), Code::Internal);
    assert_eq!(Code::Success.number(), 0);
    assert_eq!(Code::Unauthenticated.number(), 16);
    let text = status_from_error(MsgbusError::NotFound("x".to_string())).describe();
    assert_eq!(text, "code: 'Some requested entity was not found', message: \"x\"");
    for code in [Code::Unavailable, Code::DeadlineExceeded, Code::Aborted, Code::Cancelled] {
        assert!(retryable_status(code));
    }
    for code in [Code::Internal, Code::InvalidArgument, Code::NotFound, Code::Unknown] {
        assert!(!retryable_status(code));
    }
}

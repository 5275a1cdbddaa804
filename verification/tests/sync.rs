use std::collections::BTreeMap;
use std::time::Duration;

use msgbus::error::MsgbusError;
use msgbus::ids::{HeadId, NodeId, Topic};
use msgbus::memory::MemoryStore;
use msgbus::message::{FetchQuery, NewMessage, StoredMessage, TombstoneRange};
use msgbus::service::MsgbusGrpcService;
use msgbus::status::{Code, Status};
use msgbus::store::MsgbusStore;
use msgbus::sync::{
    check_identity, LogSync, PeerSpec, PeerSync, PeerSyncConfig, SyncAction, SyncError,
};
use msgbus::wire::{proto_message, proto_node, WireTopicHead};

const DELETE_TOPIC: &str = "$msgbus.delete";

fn encode(range: &TombstoneRange) -> Vec<u8> {
    let origin = &range.origin;
    let fields = [
        range.topic.as_str(),
        origin.tenant_id.as_str(),
        origin.bl_name.as_str(),
        origin.device_id.as_str(),
        &range.from_head_id.0.to_string(),
        &range.to_head_id.0.to_string(),
    ];
    serde_json::to_vec(&fields).expect("encode")
}

fn decode(payload: &Vec<u8>) -> Result<TombstoneRange, String> {
    let fields: Vec<String> = serde_json::from_slice(payload).map_err(|e| e.to_string())?;
    if fields.len() != 6 {
        return Err("six fields expected".to_string());
    }
    let number = |text: &str| text.parse::<u64>().map_err(|e| e.to_string());
    Ok(TombstoneRange {
        topic: Topic::new(&fields[0]).map_err(|e| e.describe())?,
        origin: NodeId::new(&fields[1], &fields[2], &fields[3]).map_err(|e| e.describe())?,
        from_head_id: HeadId(number(&fields[4])?),
        to_head_id: HeadId(number(&fields[5])?),
        created_at_ms: 0,
    })
}

/// One round over all peers, against a peer in the same process.
fn sync_once(
    store: &mut MemoryStore,
    published: &mut Vec<StoredMessage>,
    config: &PeerSyncConfig,
    remote: &MsgbusGrpcService<MemoryStore>,
) -> Result<(), SyncError> {
    for peer in &config.peers {
        let mut round = PeerSync::new(peer.clone(), config.batch_limit);
        let mut action = round.start();
        loop {
            action = match action {
                SyncAction::AskHealth => round.on_health(remote.health().node),
                SyncAction::ListHeads => {
                    round.on_heads(store, remote.list_heads().expect("list heads"))
                }
                SyncAction::Fetch(request) => {
                    let mut outcome = None;
                    for envelope in remote.fetch(request).expect("fetch") {
                        match round.on_answer(store, Some(envelope), decode) {
                            SyncAction::Publish(message) => published.push(message),
                            SyncAction::Continue => {}
                            other => {
                                outcome = Some(other);
                                break;
                            }
                        }
                    }
                    match outcome {
                        Some(other) => other,
                        None => round.on_batch_end(store),
                    }
                }
                SyncAction::Done => break,
                SyncAction::Fail(error) => {
                    round.on_failure(store, &error).expect("record");
                    return Err(error);
                }
                SyncAction::Continue | SyncAction::Publish(_) => panic!("no answer is due"),
            };
        }
    }
    Ok(())
}

fn node(device: &str) -> NodeId {
    NodeId::new("tenant", "bl", device).expect("valid node")
}

fn config(expected_node: Option<NodeId>, batch_limit: u32) -> PeerSyncConfig {
    PeerSyncConfig {
        local_node: node("local"),
        peers: vec![PeerSpec {
            endpoint: "http://127.0.0.1:1".to_string(),
            expected_node,
        }],
        interval: Duration::from_secs(1),
        batch_limit,
        tls: None,
    }
}

fn append(store: &mut MemoryStore, topic: &str, origin: &NodeId, payload: &[u8]) -> StoredMessage {
    store
        .append_message(NewMessage::new(
            Topic::new(topic).expect("topic"),
            origin.clone(),
            payload.to_vec(),
            BTreeMap::new(),
        ))
        .expect("append")
}

#[test]
fn sync_once_replicates_messages_and_delete_markers() {
    let local_node = NodeId::new("tenant", "bl", "local").expect("local node");
    let remote_node = NodeId::new("tenant", "bl", "remote").expect("remote node");
    let mut local_store = MemoryStore::new();
    let remote_store = MemoryStore::new();
    let topic = Topic::new("events").expect("topic");

    let mut remote = MsgbusGrpcService::new(remote_store, remote_node.clone());
    remote
        .store
        .append_message(NewMessage::new(
            topic.clone(),
            remote_node.clone(),
            b"one".to_vec(),
            BTreeMap::new(),
        ))
        .expect("append remote message");

    let mut published = Vec::new();
    let config = PeerSyncConfig {
        local_node,
        peers: vec![PeerSpec {
            endpoint: "http://127.0.0.1:50051".to_string(),
            expected_node: Some(remote_node.clone()),
        }],
        interval: Duration::from_secs(1),
        batch_limit: 10,
        tls: None,
    };

    sync_once(&mut local_store, &mut published, &config, &remote).expect("initial sync");
    let messages = local_store
        .fetch_messages(FetchQuery {
            topic: topic.clone(),
            origin: remote_node.clone(),
            from_head_id: HeadId(1),
            limit: 10,
        })
        .expect("fetch local replicated messages");
    assert_eq!(messages.len(), 1);
    assert!(!messages[0].deleted);

    let range = TombstoneRange {
        topic: topic.clone(),
        origin: remote_node.clone(),
        from_head_id: HeadId(1),
        to_head_id: HeadId(1),
        created_at_ms: 0,
    };
    remote
        .store
        .tombstone_range_with_marker(
            &topic,
            &remote_node,
            HeadId(1),
            HeadId(1),
            NewMessage::new(
                Topic::new(DELETE_TOPIC).expect("delete topic"),
                remote_node.clone(),
                encode(&range),
                BTreeMap::new(),
            ),
        )
        .expect("delete remote message");

    sync_once(&mut local_store, &mut published, &config, &remote).expect("delete marker sync");
    let messages = local_store
        .fetch_messages(FetchQuery {
            topic,
            origin: remote_node,
            from_head_id: HeadId(1),
            limit: 10,
        })
        .expect("fetch deleted local message");
    assert_eq!(messages.len(), 1);
    assert!(messages[0].deleted);
    assert_eq!(published.len(), 2);
}

#[test]
fn logs_are_copied_in_batches() {
    let origin = node("remote");
    let mut remote = MsgbusGrpcService::new(MemoryStore::new(), origin.clone());
    for i in 0..7u8 {
        append(&mut remote.store, "events", &origin, &[i]);
    }
    append(&mut remote.store, "other", &origin, b"x");
    let mut local = MemoryStore::new();
    let mut published = Vec::new();
    sync_once(&mut local, &mut published, &config(None, 3), &remote).expect("sync");
    assert_eq!(published.len(), 8);
    let topic = Topic::new("events").expect("topic");
    assert_eq!(local.get_head(&topic, &origin).expect("head"), Some(HeadId(7)));
    let state = local
        .get_peer_sync_state("http://127.0.0.1:1", &topic, &origin)
        .expect("state")
        .expect("kept");
    assert_eq!((state.local_head, state.remote_head, state.last_synced_head), (7, 7, 7));
    assert_eq!(state.consecutive_failures, 0);
    assert_eq!(state.last_error, "");
    published.clear();
    sync_once(&mut local, &mut published, &config(None, 0), &remote).expect("sync");
    assert!(published.is_empty());
    assert_eq!(local.list_peer_sync_states().expect("states").len(), 2);
}

#[test]
fn a_pinned_peer_must_be_the_one() {
    let origin = node("remote");
    let mut remote = MsgbusGrpcService::new(MemoryStore::new(), origin.clone());
    append(&mut remote.store, "events", &origin, b"x");
    let mut local = MemoryStore::new();
    let mut published = Vec::new();
    let outcome = sync_once(&mut local, &mut published, &config(Some(node("else")), 3), &remote);
    match outcome {
        Err(error) => assert_eq!(
            error.describe(),
            "peer http://127.0.0.1:1 is not the expected node tenant/bl/else"
        ),
        Ok(()) => panic!("expected a refusal"),
    }
    assert!(published.is_empty());
    assert!(local.list_heads().expect("heads").is_empty());
    let spec = PeerSpec {
        endpoint: "e".to_string(),
        expected_node: Some(origin.clone()),
    };
    assert!(check_identity(&spec, Some(proto_node(origin))).is_ok());
    assert!(check_identity(&spec, None).is_err());
}

#[test]
fn peers_are_read_from_text() {
    let pinned = PeerSpec::parse("http://127.0.0.1:50052=tenant/default/node-b").expect("peer");
    assert_eq!(pinned.endpoint, "http://127.0.0.1:50052");
    assert_eq!(
        pinned.expected_node.expect("node").key(),
        "tenant/default/node-b"
    );
    let open = PeerSpec::parse("http://127.0.0.1:50052").expect("peer");
    assert_eq!(open.endpoint, "http://127.0.0.1:50052");
    assert!(open.expected_node.is_none());
    let refused = |text: &str| match PeerSpec::parse(text) {
        Err(MsgbusError::InvalidArgument(text)) => text,
        other => panic!("unexpected outcome: {other:?}"),
    };
    assert_eq!(refused("x=tenant/bl"), "peer identity must be tenant/bl/device");
    assert_eq!(refused("x=a/b/c/d"), "peer identity must be tenant/bl/device");
    assert_eq!(refused("x="), "peer identity must be tenant/bl/device");
    assert_eq!(refused("x=a//c"), "bl_name is empty");
    assert_eq!(refused("=a/b/c"), "peer is empty");
    assert_eq!(refused(""), "peer is empty");
}

#[test]
fn sync_is_off_without_peers() {
    let config = PeerSyncConfig::disabled();
    assert!(!config.is_enabled());
    assert_eq!(config.interval, Duration::from_secs(1));
    assert!(config.local_node.is_empty());
    assert!(config.tls.is_none());
    assert_eq!(config.batch_limit, 100);
    let mut some = config.clone();
    some.peers.push(PeerSpec::parse("http://a").expect("peer"));
    assert!(some.is_enabled());
}

#[test]
fn a_message_that_was_not_asked_for_stops_the_round() {
    let origin = node("remote");
    let mut source = MemoryStore::new();
    let wrong = append(&mut source, "other", &origin, b"x");
    let mut store = MemoryStore::new();
    let mut round = PeerSync::new(PeerSpec::parse("http://a").expect("peer"), 2);
    let head = WireTopicHead {
        topic: "events".to_string(),
        origin: Some(proto_node(origin.clone())),
        head_id: 3,
    };
    match round.on_heads(&mut store, vec![head]) {
        SyncAction::Fetch(request) => {
            assert_eq!(request.from_head_id, 1);
            assert_eq!(request.limit, 2);
            assert_eq!(request.topic, "events");
        }
        _ => panic!("expected a fetch"),
    }
    assert!(matches!(round.on_answer(&mut store, None, decode), SyncAction::Continue));
    let error = match round.on_answer(&mut store, Some(proto_message(wrong)), decode) {
        SyncAction::Fail(error) => error,
        _ => panic!("expected a failure"),
    };
    assert_eq!(
        error.describe(),
        "peer http://a returned mismatched message for topic=events origin=tenant/bl/remote"
    );
    for failures in 1..3 {
        round.current = Some(LogSync {
            head: msgbus::message::TopicHead {
                topic: Topic::new("events").expect("topic"),
                origin: origin.clone(),
                head_id: HeadId(3),
            },
            local_head: 0,
            batch_start: 0,
            fetched: 0,
            stalled: false,
        });
        round.on_failure(&mut store, &error).expect("record");
        let state = store
            .get_peer_sync_state("http://a", &Topic::new("events").expect("topic"), &origin)
            .expect("state")
            .expect("kept");
        assert_eq!(state.consecutive_failures, failures);
        assert_eq!(state.last_error, error.describe());
        assert_eq!((state.local_head, state.remote_head), (0, 3));
    }
}

#[test]
fn a_peer_that_gives_nothing_is_left() {
    let origin = node("remote");
    let mut store = MemoryStore::new();
    let mut round = PeerSync::new(PeerSpec::parse("http://a").expect("peer"), 2);
    let head = |head_id: u64| WireTopicHead {
        topic: "events".to_string(),
        origin: Some(proto_node(node("remote"))),
        head_id,
    };
    assert!(matches!(round.start(), SyncAction::ListHeads));
    assert!(matches!(
        round.on_heads(&mut store, vec![head(3)]),
        SyncAction::Fetch(_)
    ));
    assert!(matches!(round.on_batch_end(&mut store), SyncAction::Done));
    let state = store
        .get_peer_sync_state("http://a", &Topic::new("events").expect("topic"), &origin)
        .expect("state")
        .expect("kept");
    assert_eq!((state.local_head, state.remote_head), (0, 3));
    let nameless = WireTopicHead {
        topic: String::new(),
        origin: None,
        head_id: 1,
    };
    match round.on_heads(&mut store, vec![head(0), nameless]) {
        SyncAction::Fail(SyncError::Call(Status { code, message })) => {
            assert_eq!(code, Code::InvalidArgument);
            assert_eq!(message, "topic head origin is required");
        }
        _ => panic!("expected a failure"),
    }
}

#[test]
fn a_conflict_stops_the_round() {
    let origin = node("remote");
    let mut source = MemoryStore::new();
    let theirs = append(&mut source, "events", &origin, b"theirs");
    let mut store = MemoryStore::new();
    append(&mut store, "events", &origin, b"ours");
    let mut log = LogSync::open(
        &store,
        WireTopicHead {
            topic: "events".to_string(),
            origin: Some(proto_node(origin)),
            head_id: 2,
        },
    )
    .expect("open");
    assert_eq!(log.local_head, 1);
    let request = log.next_request(0).expect("request");
    assert_eq!((request.from_head_id, request.limit), (2, 1));
    match log.receive(&mut store, "p", Some(proto_message(theirs)), decode) {
        Err(SyncError::Store(MsgbusError::Conflict(_))) => {}
        other => panic!("unexpected outcome: {other:?}"),
    }
    assert_eq!(log.fetched, 0);
    log.end_batch();
    assert!(log.stalled);
    assert!(log.next_request(5).is_none());
}

fn failures(store: &MemoryStore, peer: &str, topic: &str, origin: &NodeId) -> (u32, String) {
    let state = store
        .get_peer_sync_state(peer, &Topic::new(topic).expect("topic"), origin)
        .expect("state")
        .expect("kept");
    (state.consecutive_failures, state.last_error)
}

#[test]
fn a_peer_that_cannot_be_asked_is_kept_as_failed() {
    let origin = node("remote");
    let mut source = MemoryStore::new();
    append(&mut source, "events", &origin, b"one");
    append(&mut source, "others", &origin, b"two");
    let remote = MsgbusGrpcService::new(source, origin.clone());
    let mut local = MemoryStore::new();
    let mut published = Vec::new();
    sync_once(&mut local, &mut published, &config(None, 10), &remote).expect("sync");
    let elsewhere = PeerSyncConfig {
        peers: vec![PeerSpec::parse("http://b").expect("peer")],
        ..config(None, 10)
    };
    sync_once(&mut local, &mut published, &elsewhere, &remote).expect("sync");
    let peer = "http://127.0.0.1:1";
    let down = SyncError::Peer("connection refused".to_string());
    for count in 1..3 {
        let mut round = PeerSync::new(PeerSpec::parse(peer).expect("peer"), 10);
        round.on_failure(&mut local, &down).expect("record");
        for topic in ["events", "others"] {
            assert_eq!(
                failures(&local, peer, topic, &origin),
                (count, "connection refused".to_string())
            );
            assert_eq!(failures(&local, "http://b", topic, &origin), (0, String::new()));
        }
    }
    let state = local
        .get_peer_sync_state(peer, &Topic::new("events").expect("topic"), &origin)
        .expect("state")
        .expect("kept");
    assert_eq!((state.local_head, state.remote_head, state.last_synced_head), (1, 1, 1));
    sync_once(&mut local, &mut published, &config(None, 10), &remote).expect("sync");
    assert_eq!(failures(&local, peer, "events", &origin), (0, String::new()));
}

#[test]
fn a_wrong_peer_is_kept_as_failed() {
    let origin = node("remote");
    let mut source = MemoryStore::new();
    append(&mut source, "events", &origin, b"one");
    let remote = MsgbusGrpcService::new(source, origin.clone());
    let mut local = MemoryStore::new();
    let mut published = Vec::new();
    sync_once(&mut local, &mut published, &config(None, 10), &remote).expect("sync");
    let pinned = config(Some(node("another")), 10);
    assert!(sync_once(&mut local, &mut published, &pinned, &remote).is_err());
    assert_eq!(
        failures(&local, "http://127.0.0.1:1", "events", &origin),
        (
            1,
            "peer http://127.0.0.1:1 is not the expected node tenant/bl/another".to_string()
        )
    );
}

#[test]
fn logs_that_a_failed_round_did_not_reach_are_kept_as_failed() {
    let origin = node("remote");
    let mut store = MemoryStore::new();
    append(&mut store, "first", &origin, b"one");
    append(&mut store, "third", &origin, b"three");
    let head = |topic: &str, head_id: u64| WireTopicHead {
        topic: topic.to_string(),
        origin: Some(proto_node(node("remote"))),
        head_id,
    };
    let peer = PeerSpec::parse("http://a").expect("peer");
    let mut round = PeerSync::new(peer.clone(), 2);
    let heads = vec![head("first", 1), head("third", 1)];
    assert!(matches!(round.on_heads(&mut store, heads), SyncAction::Done));
    let mut round = PeerSync::new(peer.clone(), 2);
    let heads = vec![head("first", 1), head("second", 4), head("third", 5), head("fourth", 9)];
    assert!(matches!(round.on_heads(&mut store, heads), SyncAction::Fetch(_)));
    let error = SyncError::Peer("gone".to_string());
    round.on_failure(&mut store, &error).expect("record");
    assert!(round.current.is_none());
    assert_eq!(failures(&store, "http://a", "first", &origin), (0, String::new()));
    assert_eq!(failures(&store, "http://a", "second", &origin), (1, "gone".to_string()));
    assert_eq!(failures(&store, "http://a", "third", &origin), (1, "gone".to_string()));
    assert_eq!(failures(&store, "http://a", "fourth", &origin), (1, "gone".to_string()));
    assert_eq!(store.list_peer_sync_states().expect("states").len(), 4);
    let heads = |topic: &str| {
        let state = store
            .get_peer_sync_state("http://a", &Topic::new(topic).expect("topic"), &origin)
            .expect("state")
            .expect("kept");
        (state.local_head, state.remote_head, state.last_synced_head)
    };
    assert_eq!(heads("second"), (0, 4, 0));
    assert_eq!(heads("third"), (1, 5, 1));
    assert_eq!(heads("fourth"), (0, 9, 0));
    let mut round = PeerSync::new(peer, 2);
    let nameless = WireTopicHead { topic: String::new(), origin: None, head_id: 1 };
    match round.on_heads(&mut store, vec![head("first", 1), nameless]) {
        SyncAction::Fail(error) => round.on_failure(&mut store, &error).expect("record"),
        _ => panic!("expected a failure"),
    }
    let text = "code: 'Client specified an invalid argument', \
                message: \"topic head origin is required\"";
    assert_eq!(failures(&store, "http://a", "first", &origin), (1, text.to_string()));
    assert_eq!(failures(&store, "http://a", "third", &origin), (2, text.to_string()));
}

#[test]
fn a_refused_deletion_is_kept_with_the_head_of_the_store() {
    let origin = node("remote");
    let mut source = MemoryStore::new();
    append(&mut source, DELETE_TOPIC, &origin, b"not a range");
    let remote = MsgbusGrpcService::new(source, origin.clone());
    let mut local = MemoryStore::new();
    let mut published = Vec::new();
    match sync_once(&mut local, &mut published, &config(None, 10), &remote) {
        Err(SyncError::Call(status)) => assert_eq!(status.code, Code::InvalidArgument),
        _ => panic!("expected a refusal"),
    }
    let topic = Topic::new(DELETE_TOPIC).expect("topic");
    assert_eq!(local.get_head(&topic, &origin).expect("head"), Some(HeadId(1)));
    let state = local
        .get_peer_sync_state("http://127.0.0.1:1", &topic, &origin)
        .expect("state")
        .expect("kept");
    assert_eq!((state.local_head, state.remote_head), (1, 1));
    assert_eq!((state.last_synced_head, state.consecutive_failures), (0, 1));
}

#[test]
fn a_second_round_changes_nothing() {
    let origin = node("remote");
    let mut source = MemoryStore::new();
    for payload in [b"one", b"two", b"six"] {
        append(&mut source, "events", &origin, payload);
    }
    append(&mut source, "others", &node("third"), b"four");
    let mut remote = MsgbusGrpcService::new(source, origin.clone());
    let request = msgbus::wire::DeleteRangeRequest {
        topic: "events".to_string(),
        origin: None,
        from_head_id: 2,
        to_head_id: 2,
    };
    remote.delete_range(request, |range: &TombstoneRange| Ok(encode(range))).expect("delete");
    let mut local = MemoryStore::new();
    let mut published = Vec::new();
    sync_once(&mut local, &mut published, &config(None, 2), &remote).expect("sync");
    assert_eq!(published.len(), 5);
    let shown = |store: &MemoryStore| {
        let mut out = String::new();
        for head in store.list_heads().expect("heads") {
            out.push_str(&format!("{head:?}"));
            let query = FetchQuery {
                topic: head.topic,
                origin: head.origin,
                from_head_id: HeadId(1),
                limit: 100,
            };
            out.push_str(&format!("{:?}", store.fetch_messages(query).expect("fetch")));
        }
        out.push_str(&format!("{:?}", store.list_peer_sync_states().expect("states")));
        out
    };
    let before = shown(&local);
    published.clear();
    let mut round = PeerSync::new(config(None, 2).peers[0].clone(), 2);
    let heads = remote.list_heads().expect("heads");
    assert!(matches!(round.on_heads(&mut local, heads), SyncAction::Done));
    assert_eq!(shown(&local), before);
}

use std::collections::BTreeMap;

use msgbus::engine;
use msgbus::engine::effective_limit;
use msgbus::error::MsgbusError;
use msgbus::ids::{HeadId, MessageId, NodeId, QueueName, Topic};
use msgbus::memory::MemoryStore;
use msgbus::message::{
    FetchQuery, NewFifoMessage, NewMessage, PeerSyncState, ReplicateResult, StoredFifoMessage,
    StoredMessage,
};
use msgbus::store::MsgbusStore;
use msgbus::table::{MemTable, OrderedTable, Row};

fn node() -> NodeId {
    NodeId::new("tenant", "bl", "device").expect("valid node")
}

fn topic() -> Topic {
    Topic::new("events").expect("valid topic")
}

/// An ordered table over a map of the standard library.
struct MapTable<V> {
    rows: BTreeMap<String, V>,
}

impl<V> MapTable<V> {
    fn new() -> Self {
        MapTable { rows: BTreeMap::new() }
    }
}

impl<V: Row> OrderedTable<V> for MapTable<V> {
    fn get(&self, key: &str) -> Result<Option<V>, MsgbusError> {
        Ok(self.rows.get(key).map(|row| row.duplicate()))
    }

    fn insert(&mut self, key: &str, value: V) -> Result<(), MsgbusError> {
        self.rows.insert(key.to_string(), value);
        Ok(())
    }

    fn remove(&mut self, key: &str) -> Result<(), MsgbusError> {
        self.rows.remove(key);
        Ok(())
    }

    fn seek(&self, key: &str, past: bool) -> Result<Option<(String, V)>, MsgbusError> {
        Ok(self
            .rows
            .range(key.to_string()..)
            .find(|(k, _)| !past || k.as_str() != key)
            .map(|(k, row)| (k.clone(), row.duplicate())))
    }
}

/// A table that fails.
struct BrokenTable;

impl<V: Row> OrderedTable<V> for BrokenTable {
    fn get(&self, _key: &str) -> Result<Option<V>, MsgbusError> {
        Err(MsgbusError::Storage("broken".to_string()))
    }

    fn insert(&mut self, _key: &str, _value: V) -> Result<(), MsgbusError> {
        Err(MsgbusError::Storage("broken".to_string()))
    }

    fn remove(&mut self, _key: &str) -> Result<(), MsgbusError> {
        Err(MsgbusError::Storage("broken".to_string()))
    }

    fn seek(&self, _key: &str, _past: bool) -> Result<Option<(String, V)>, MsgbusError> {
        Err(MsgbusError::Storage("broken".to_string()))
    }
}

fn message(payload: &[u8]) -> NewMessage {
    NewMessage::new(topic(), node(), payload.to_vec(), BTreeMap::new())
}

fn fetch_all(store: &MemoryStore) -> Vec<StoredMessage> {
    store
        .fetch_messages(FetchQuery {
            topic: topic(),
            origin: node(),
            from_head_id: HeadId(1),
            limit: 0,
        })
        .expect("fetch")
}

#[test]
fn appends_and_fetches_messages_in_head_order() {
    let mut store = MemoryStore::new();
    let origin = node();
    let topic = topic();

    let first = store
        .append_message(NewMessage::new(
            topic.clone(),
            origin.clone(),
            b"one".to_vec(),
            BTreeMap::new(),
        ))
        .expect("append first");
    let second = store
        .append_message(NewMessage::new(
            topic.clone(),
            origin.clone(),
            b"two".to_vec(),
            BTreeMap::new(),
        ))
        .expect("append second");

    assert_eq!(first.head_id, HeadId(1));
    assert_eq!(second.head_id, HeadId(2));
    assert_eq!(
        store
            .get_head(&topic, &origin)
            .expect("head")
            .expect("head exists"),
        HeadId(2)
    );

    let messages = store
        .fetch_messages(FetchQuery {
            topic,
            origin,
            from_head_id: HeadId(1),
            limit: 10,
        })
        .expect("fetch");
    assert_eq!(messages.len(), 2);
    assert_eq!(messages[0].payload, b"one");
    assert_eq!(messages[1].payload, b"two");
}

#[test]
fn lib_appends_and_fetches_messages_in_head_order() {
    let mut heads: MapTable<u64> = MapTable::new();
    let mut messages: MapTable<StoredMessage> = MapTable::new();
    let origin = node();
    let topic = topic();

    let first = engine::append_message(
        &mut heads,
        &mut messages,
        NewMessage::new(
            topic.clone(),
            origin.clone(),
            b"one".to_vec(),
            BTreeMap::new(),
        ),
        5,
    )
    .expect("append first");
    let second = engine::append_message(
        &mut heads,
        &mut messages,
        NewMessage::new(
            topic.clone(),
            origin.clone(),
            b"two".to_vec(),
            BTreeMap::new(),
        ),
        6,
    )
    .expect("append second");

    assert_eq!(first.head_id, HeadId(1));
    assert_eq!(first.created_at_ms, 5);
    assert_eq!(second.head_id, HeadId(2));
    assert_eq!(
        engine::get_head(&heads, &topic, &origin)
            .expect("head")
            .expect("head exists"),
        HeadId(2)
    );

    let fetched = engine::fetch_messages(
        &messages,
        &FetchQuery {
            topic,
            origin,
            from_head_id: HeadId(1),
            limit: 10,
        },
    )
    .expect("fetch");
    assert_eq!(fetched.len(), 2);
    assert_eq!(fetched[0].payload, b"one");
    assert_eq!(fetched[1].payload, b"two");
    assert_eq!(
        heads.rows.keys().next().map(|k| k.as_str()),
        Some("head/ZXZlbnRz/dGVuYW50L2JsL2RldmljZQ")
    );
}

#[test]
fn tombstone_marks_messages_without_changing_head() {
    let mut store = MemoryStore::new();
    let origin = node();
    let topic = topic();
    for payload in [b"one".to_vec(), b"two".to_vec(), b"three".to_vec()] {
        store
            .append_message(NewMessage::new(
                topic.clone(),
                origin.clone(),
                payload,
                BTreeMap::new(),
            ))
            .expect("append");
    }

    let deleted = store
        .tombstone_range(&topic, &origin, HeadId(2), HeadId(3))
        .expect("delete range");
    assert_eq!(deleted, 2);
    assert_eq!(
        store
            .get_head(&topic, &origin)
            .expect("head")
            .expect("head exists"),
        HeadId(3)
    );

    let messages = store
        .fetch_messages(FetchQuery {
            topic,
            origin,
            from_head_id: HeadId(1),
            limit: 10,
        })
        .expect("fetch");
    assert!(!messages[0].deleted);
    assert!(messages[1].deleted);
    assert!(messages[2].deleted);
}

#[test]
fn fifo_ack_only_accepts_front_message() {
    let mut store = MemoryStore::new();
    let source = node();
    let target = NodeId::new("tenant", "bl", "target").expect("valid target");
    let queue = QueueName::new("tenant/bl/target").expect("valid queue");
    let topic = topic();

    let first = store
        .enqueue_fifo(NewFifoMessage::new(
            queue.clone(),
            topic.clone(),
            source.clone(),
            target.clone(),
            b"one".to_vec(),
            BTreeMap::new(),
        ))
        .expect("enqueue first");
    let second = store
        .enqueue_fifo(NewFifoMessage::new(
            queue.clone(),
            topic,
            source,
            target,
            b"two".to_vec(),
            BTreeMap::new(),
        ))
        .expect("enqueue second");

    assert!(!store.ack_fifo(&queue, &second.id).expect("ack second"));
    assert_eq!(
        store.peek_fifo(&queue).expect("peek").expect("front").id,
        first.id
    );
    assert!(store.ack_fifo(&queue, &first.id).expect("ack first"));
    assert_eq!(
        store.peek_fifo(&queue).expect("peek").expect("front").id,
        second.id
    );
}

#[test]
fn lib_fifo_ack_only_accepts_front_message() {
    let mut sequences: MapTable<u64> = MapTable::new();
    let mut fifo: MapTable<StoredFifoMessage> = MapTable::new();
    let source = node();
    let target = NodeId::new("tenant", "bl", "target").expect("valid target");
    let queue = QueueName::new("tenant/bl/target").expect("valid queue");
    let topic = topic();

    let first = engine::enqueue_fifo(
        &mut sequences,
        &mut fifo,
        NewFifoMessage::new(
            queue.clone(),
            topic.clone(),
            source.clone(),
            target.clone(),
            b"one".to_vec(),
            BTreeMap::new(),
        ),
        1,
    )
    .expect("enqueue first");
    let second = engine::enqueue_fifo(
        &mut sequences,
        &mut fifo,
        NewFifoMessage::new(
            queue.clone(),
            topic,
            source,
            target,
            b"two".to_vec(),
            BTreeMap::new(),
        ),
        2,
    )
    .expect("enqueue second");

    let ack = engine::FifoFrontAction::Ack;
    assert!(!engine::update_fifo_front(&mut fifo, &queue, &second.id, ack).expect("ack second"));
    assert_eq!(
        engine::peek_fifo(&fifo, &queue).expect("peek").expect("front").id,
        first.id
    );
    assert!(engine::update_fifo_front(&mut fifo, &queue, &first.id, ack).expect("ack first"));
    assert_eq!(
        engine::peek_fifo(&fifo, &queue).expect("peek").expect("front").id,
        second.id
    );
}

#[test]
fn a_page_is_bounded() {
    assert_eq!(effective_limit(0), 100);
    assert_eq!(effective_limit(1), 1);
    assert_eq!(effective_limit(10_000), 10_000);
    assert_eq!(effective_limit(10_001), 10_000);
    let mut store = MemoryStore::new();
    for _ in 0..102 {
        store.append_message(message(b"x")).expect("append");
    }
    assert_eq!(fetch_all(&store).len(), 100);
    let rest = store
        .fetch_messages(FetchQuery {
            topic: topic(),
            origin: node(),
            from_head_id: HeadId(101),
            limit: 10,
        })
        .expect("fetch");
    assert_eq!(rest.len(), 2);
    assert_eq!(rest[1].head_id, HeadId(102));
}

#[test]
fn logs_do_not_mix() {
    let mut store = MemoryStore::new();
    let other = NodeId::new("tenant", "bl", "other").expect("valid node");
    store.append_message(message(b"one")).expect("append");
    let elsewhere = store
        .append_message(NewMessage::new(topic(), other.clone(), b"two".to_vec(), BTreeMap::new()))
        .expect("append");
    assert_eq!(elsewhere.head_id, HeadId(1));
    assert_eq!(fetch_all(&store).len(), 1);
    let heads = store.list_heads().expect("heads");
    assert_eq!(heads.len(), 2);
    assert!(heads.iter().all(|head| head.head_id == HeadId(1)));
    assert!(heads.iter().any(|head| head.origin == other));
    assert!(store
        .get_head(&Topic::new("none").expect("topic"), &other)
        .expect("head")
        .is_none());
}

#[test]
fn a_second_deletion_finds_nothing() {
    let mut store = MemoryStore::new();
    for payload in [b"one", b"two"] {
        store.append_message(message(payload)).expect("append");
    }
    let range = |store: &mut MemoryStore, from: u64, to: u64| {
        store.tombstone_range(&topic(), &node(), HeadId(from), HeadId(to))
    };
    assert_eq!(range(&mut store, 1, 1).expect("delete"), 1);
    assert_eq!(range(&mut store, 1, 2).expect("delete"), 1);
    assert_eq!(range(&mut store, 1, u64::MAX).expect("delete"), 0);
    match range(&mut store, 2, 1) {
        Err(MsgbusError::InvalidArgument(text)) => {
            assert_eq!(text, "from_head_id must be <= to_head_id")
        }
        other => panic!("unexpected outcome: {other:?}"),
    }
}

#[test]
fn a_range_and_its_marker_go_together() {
    let mut store = MemoryStore::new();
    store.append_message(message(b"one")).expect("append");
    let marker_topic = Topic::new("$msgbus.delete").expect("topic");
    let marker = NewMessage::new(marker_topic.clone(), node(), b"range".to_vec(), BTreeMap::new());
    let (deleted, stored) = store
        .tombstone_range_with_marker(&topic(), &node(), HeadId(1), HeadId(5), marker.clone())
        .expect("delete");
    assert_eq!(deleted, 1);
    assert_eq!(stored.head_id, HeadId(1));
    assert_eq!(stored.payload, b"range");
    assert!(store
        .tombstone_range_with_marker(&topic(), &node(), HeadId(2), HeadId(1), marker)
        .is_err());
    assert_eq!(
        store.get_head(&marker_topic, &node()).expect("head"),
        Some(HeadId(1))
    );
}

#[test]
fn copies_keep_their_places() {
    let mut remote = MemoryStore::new();
    let mut local = MemoryStore::new();
    for payload in [b"one", b"two"] {
        remote.append_message(message(payload)).expect("append");
    }
    let messages = fetch_all(&remote);
    let copy = |store: &mut MemoryStore, m: &StoredMessage| {
        store.put_replicated_message(m.clone()).expect("copy")
    };
    assert_eq!(copy(&mut local, &messages[1]), ReplicateResult::Inserted);
    assert_eq!(local.get_head(&topic(), &node()).expect("head"), Some(HeadId(2)));
    assert_eq!(copy(&mut local, &messages[0]), ReplicateResult::Inserted);
    assert_eq!(local.get_head(&topic(), &node()).expect("head"), Some(HeadId(2)));
    assert_eq!(copy(&mut local, &messages[0]), ReplicateResult::AlreadyPresent);
    let copies = fetch_all(&local);
    assert_eq!(copies.len(), 2);
    assert_eq!(copies[0].id, messages[0].id);
    assert_eq!(copies[1].payload, b"two");

    let mut stranger = messages[0].clone();
    stranger.id = MessageId::new();
    match local.put_replicated_message(stranger) {
        Err(MsgbusError::Conflict(text)) => {
            assert_eq!(text, "another message holds this position of the log")
        }
        other => panic!("unexpected outcome: {other:?}"),
    }
}

#[test]
fn a_rejected_message_stays_in_front() {
    let mut store = MemoryStore::new();
    let queue = QueueName::new("q").expect("queue");
    let new = |payload: &[u8]| {
        NewFifoMessage::new(
            QueueName::new("q").expect("queue"),
            topic(),
            node(),
            node(),
            payload.to_vec(),
            BTreeMap::new(),
        )
    };
    assert!(store.peek_fifo(&queue).expect("peek").is_none());
    assert!(!store.ack_fifo(&queue, &MessageId::new()).expect("ack"));
    let first = store.enqueue_fifo(new(b"one")).expect("enqueue");
    let second = store.enqueue_fifo(new(b"two")).expect("enqueue");
    assert_eq!((first.sequence, second.sequence), (1, 2));
    assert_eq!(first.attempts, 0);
    assert!(store.reject_fifo(&queue, &first.id).expect("reject"));
    assert!(!store.reject_fifo(&queue, &second.id).expect("reject"));
    let front = store.peek_fifo(&queue).expect("peek").expect("front");
    assert_eq!(front.id, first.id);
    assert_eq!(front.attempts, 1);
    assert!(store.ack_fifo(&queue, &first.id).expect("ack"));
    assert!(store.ack_fifo(&queue, &second.id).expect("ack"));
    assert!(store.peek_fifo(&queue).expect("peek").is_none());
    assert_eq!(store.enqueue_fifo(new(b"three")).expect("enqueue").sequence, 3);
}

#[test]
fn queues_do_not_mix() {
    let mut store = MemoryStore::new();
    let put = |store: &mut MemoryStore, name: &str| {
        store
            .enqueue_fifo(NewFifoMessage::new(
                QueueName::new(name).expect("queue"),
                topic(),
                node(),
                node(),
                Vec::new(),
                BTreeMap::new(),
            ))
            .expect("enqueue")
    };
    let a = put(&mut store, "a");
    let b = put(&mut store, "ab");
    assert_eq!((a.sequence, b.sequence), (1, 1));
    let queue = QueueName::new("a").expect("queue");
    assert!(!store.ack_fifo(&queue, &b.id).expect("ack"));
    assert!(store.ack_fifo(&queue, &a.id).expect("ack"));
    assert!(store.peek_fifo(&queue).expect("peek").is_none());
}

#[test]
fn sync_states_are_kept_by_peer_and_log() {
    let mut store = MemoryStore::new();
    let state = |peer: &str, local: u64| PeerSyncState {
        peer: peer.to_string(),
        topic: topic(),
        origin: node(),
        local_head: local,
        remote_head: 9,
        last_synced_head: local,
        consecutive_failures: 0,
        last_error: String::new(),
    };
    store.put_peer_sync_state(state("a", 1)).expect("put");
    store.put_peer_sync_state(state("b", 2)).expect("put");
    store.put_peer_sync_state(state("a", 3)).expect("put");
    assert_eq!(store.list_peer_sync_states().expect("list").len(), 2);
    let kept = store
        .get_peer_sync_state("a", &topic(), &node())
        .expect("get")
        .expect("kept");
    assert_eq!(kept.local_head, 3);
    assert!(store
        .get_peer_sync_state("c", &topic(), &node())
        .expect("get")
        .is_none());
}

#[test]
fn the_last_position_is_its_own_successor() {
    let mut heads: MemTable<u64> = MemTable::new();
    let mut messages: MemTable<StoredMessage> = MemTable::new();
    heads
        .insert("head/ZXZlbnRz/dGVuYW50L2JsL2RldmljZQ", u64::MAX)
        .expect("insert");
    let stored = engine::append_message(&mut heads, &mut messages, message(b"x"), 0).expect("append");
    assert_eq!(stored.head_id, HeadId(u64::MAX));
}

#[test]
fn a_last_position_without_a_message_is_a_storage_error() {
    let mut heads: MemTable<u64> = MemTable::new();
    let messages: MemTable<StoredMessage> = MemTable::new();
    heads.insert("head/YQ/Yg", 1).expect("insert");
    match engine::list_heads(&heads, &messages) {
        Err(MsgbusError::Storage(text)) => {
            assert_eq!(text, "the last position of a log holds no message")
        }
        other => panic!("unexpected outcome: {other:?}"),
    }
}

#[test]
fn failures_of_a_table_are_passed_on() {
    let mut broken = BrokenTable;
    let mut messages: MemTable<StoredMessage> = MemTable::new();
    assert!(engine::append_message(&mut broken, &mut messages, message(b"x"), 0).is_err());
    assert!(engine::get_head(&broken, &topic(), &node()).is_err());
    assert!(engine::peek_fifo(&broken, &QueueName::new("q").expect("queue")).is_err());
}

#[test]
fn a_table_walks_in_the_order_of_its_keys() {
    let mut table: MemTable<u64> = MemTable::new();
    for (key, value) in [("b", 2), ("a", 1), ("c", 3), ("b", 20)] {
        table.insert(key, value).expect("insert");
    }
    assert_eq!(table.get("b").expect("get"), Some(20));
    assert_eq!(table.seek("b", true).expect("seek"), Some(("c".to_string(), 3)));
    assert_eq!(table.seek("bb", false).expect("seek"), Some(("c".to_string(), 3)));
    table.remove("b").expect("remove");
    table.remove("zz").expect("remove");
    let all = engine::walk(&table, "", "", None, None).expect("walk");
    assert_eq!(all, vec![("a".to_string(), 1), ("c".to_string(), 3)]);
    let one = engine::walk(&table, "", "", Some("b"), Some(5)).expect("walk");
    assert_eq!(one.len(), 1);
}

#[test]
fn nodes_that_read_alike_have_logs_of_their_own() {
    let mut store = MemoryStore::new();
    let ab = NodeId::new("a/b", "c", "d").expect("valid node");
    let bc = NodeId::new("a", "b/c", "d").expect("valid node");
    let topic = Topic::new("e").expect("topic");
    let put = |store: &mut MemoryStore, origin: &NodeId, payload: &[u8]| {
        store
            .append_message(NewMessage::new(
                Topic::new("e").expect("topic"),
                origin.clone(),
                payload.to_vec(),
                BTreeMap::new(),
            ))
            .expect("append")
    };
    assert_eq!(put(&mut store, &ab, b"one").head_id, HeadId(1));
    assert_eq!(store.get_head(&topic, &bc).expect("head"), None);
    assert_eq!(put(&mut store, &bc, b"other").head_id, HeadId(1));
    assert_eq!(put(&mut store, &ab, b"two").head_id, HeadId(2));
    assert_eq!(store.get_head(&topic, &bc).expect("head"), Some(HeadId(1)));
    assert_eq!(store.list_heads().expect("heads").len(), 2);
    let page = store
        .fetch_messages(FetchQuery {
            topic,
            origin: bc.clone(),
            from_head_id: HeadId(1),
            limit: 10,
        })
        .expect("fetch");
    assert_eq!(page.len(), 1);
    assert_eq!(page[0].payload, b"other".to_vec());
    assert_eq!(page[0].origin, bc);
}

#[test]
fn messages_leave_a_queue_in_the_order_in_which_they_entered() {
    let mut store = MemoryStore::new();
    let put = |store: &mut MemoryStore, name: &str, payload: &[u8]| {
        store
            .enqueue_fifo(NewFifoMessage::new(
                QueueName::new(name).expect("queue"),
                topic(),
                node(),
                node(),
                payload.to_vec(),
                BTreeMap::new(),
            ))
            .expect("enqueue")
    };
    let queue = QueueName::new("q").expect("queue");
    let side = QueueName::new("side").expect("queue");
    let mut ids = Vec::new();
    for payload in [b"one", b"two", b"six"] {
        ids.push(put(&mut store, "q", payload).id);
        put(&mut store, "side", payload);
    }
    for (i, payload) in [b"one", b"two", b"six"].iter().enumerate() {
        let seen = store.peek_fifo(&queue).expect("peek").expect("front");
        assert_eq!(seen.payload, payload.to_vec());
        assert_eq!(seen.id, ids[i]);
        let other = store.peek_fifo(&side).expect("peek").expect("front");
        assert!(store.reject_fifo(&side, &other.id).expect("reject"));
        assert!(store.ack_fifo(&side, &other.id).expect("ack"));
        store.append_message(message(b"log")).expect("append");
        let again = store.peek_fifo(&queue).expect("peek").expect("front");
        assert_eq!(again.id, seen.id);
        assert!(store.ack_fifo(&queue, &seen.id).expect("ack"));
        assert!(!store.ack_fifo(&queue, &seen.id).expect("ack"));
    }
    assert!(store.peek_fifo(&queue).expect("peek").is_none());
}

#[test]
fn pages_join() {
    let mut store = MemoryStore::new();
    for i in 0..7u8 {
        store.append_message(message(&[i])).expect("append");
    }
    let read = |from: u64, limit: u32| {
        let query = FetchQuery {
            topic: topic(),
            origin: node(),
            from_head_id: HeadId(from),
            limit,
        };
        let page = store.fetch_messages(query).expect("fetch");
        page.iter().map(|m| m.head_id.0).collect::<Vec<u64>>()
    };
    for (first, second) in [(3, 2), (3, 9), (7, 1), (20, 5)] {
        let mut joined = read(2, first);
        let behind = HeadId(*joined.last().expect("some")).next();
        joined.extend(read(behind.0, second));
        assert_eq!(joined, read(2, first + second));
    }
    assert_eq!(read(2, 20), vec![2, 3, 4, 5, 6, 7]);
}

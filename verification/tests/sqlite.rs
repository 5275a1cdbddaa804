use std::collections::BTreeMap;

use msgbus::engine::FifoFrontAction;
use msgbus::error::MsgbusError;
use msgbus::ids::{HeadId, MessageId, NodeId, QueueName, Topic};
use msgbus::message::{FetchQuery, NewFifoMessage, NewMessage, PeerSyncState};
use msgbus::sqlite::{
    decode_headers, encode_headers, headers_result, i64_to_u64, plan_append, plan_enqueue,
    plan_fetch, plan_front, plan_message, plan_replicate, plan_sync_state, plan_tombstone, read_head,
    row_to_fifo, row_to_head, row_to_message, row_to_sync_state, u64_to_i64, FifoRow, FrontPlan,
    MessageRow, ReplicatePlan,
};

fn node() -> NodeId {
    NodeId::new("tenant", "bl", "device").expect("valid node")
}

fn topic() -> Topic {
    Topic::new("events").expect("valid topic")
}

fn headers() -> BTreeMap<String, String> {
    let mut headers = BTreeMap::new();
    headers.insert("b\"".to_string(), "2".to_string());
    headers.insert("a".to_string(), "\u{e9}\n".to_string());
    headers
}

fn new_message() -> NewMessage {
    NewMessage::new(topic(), node(), b"one".to_vec(), headers())
}

fn new_fifo() -> NewFifoMessage {
    NewFifoMessage::new(
        QueueName::new("q").expect("queue"),
        topic(),
        node(),
        node(),
        b"one".to_vec(),
        headers(),
    )
}

fn invalid(text: &str) -> MsgbusError {
    MsgbusError::InvalidArgument(text.to_string())
}

fn storage(text: &str) -> MsgbusError {
    MsgbusError::Storage(text.to_string())
}

fn same<T>(outcome: Result<T, MsgbusError>, expected: MsgbusError) -> bool {
    match outcome {
        Ok(_) => false,
        Err(error) => error.describe() == expected.describe(),
    }
}

#[test]
fn integers_are_checked_both_ways() {
    assert_eq!(u64_to_i64(0).expect("fits"), 0);
    assert_eq!(u64_to_i64(9_223_372_036_854_775_807).expect("fits"), i64::MAX);
    assert!(same(
        u64_to_i64(9_223_372_036_854_775_808),
        invalid("9223372036854775808 exceeds i64")
    ));
    assert!(same(
        u64_to_i64(u64::MAX),
        invalid("18446744073709551615 exceeds i64")
    ));
    assert_eq!(i64_to_u64(i64::MAX).expect("not negative"), 9_223_372_036_854_775_807);
    assert!(same(
        i64_to_u64(-1),
        storage("negative integer stored in sqlite: -1")
    ));
    assert!(same(
        i64_to_u64(i64::MIN),
        storage("negative integer stored in sqlite: -9223372036854775808")
    ));
}

#[test]
fn heads_are_read_from_their_rows() {
    assert_eq!(read_head(None).expect("none"), None);
    assert_eq!(read_head(Some(4)).expect("some"), Some(HeadId(4)));
    assert!(same(
        read_head(Some(-4)),
        storage("negative integer stored in sqlite: -4")
    ));
}

#[test]
fn headers_go_through_json() {
    let text = encode_headers(&headers()).expect("encode");
    assert_eq!(text, "{\"a\":\"\u{e9}\\n\",\"b\\\"\":\"2\"}");
    assert_eq!(decode_headers(&text).expect("decode"), headers());
    assert_eq!(encode_headers(&BTreeMap::new()).expect("encode"), "{}");
    match decode_headers("{\"a\":1}") {
        Err(MsgbusError::Serialization(text)) => {
            assert_eq!(text, "invalid type: integer `1`, expected a string at line 1 column 6")
        }
        other => panic!("unexpected outcome: {other:?}"),
    }
    assert!(same(
        headers_result(Err("why".to_string())),
        MsgbusError::Serialization("why".to_string())
    ));
}

#[test]
fn an_append_takes_the_next_position() {
    let first = plan_append(None, new_message(), 7).expect("plan");
    assert_eq!(first.head_id, 1);
    assert_eq!(first.stored.head_id, HeadId(1));
    assert_eq!(first.created_at_ms, 7);
    assert_eq!(first.origin_key, "tenant/bl/device");
    assert_eq!(first.headers_json, "{\"a\":\"\u{e9}\\n\",\"b\\\"\":\"2\"}");
    let message = |tenant: &str, bl: &str| NewMessage {
        origin: NodeId::new(tenant, bl, "d").expect("valid node"),
        ..new_message()
    };
    assert_eq!(
        plan_append(None, message("a/b", "c"), 7).expect("plan").origin_key,
        "/a~1b/c/d"
    );
    assert_eq!(
        plan_append(None, message("a", "b/c"), 7).expect("plan").origin_key,
        "/a/b~1c/d"
    );
    assert_eq!(plan_append(None, message("a~b", "c"), 7).expect("plan").origin_key, "a~b/c/d");
    let next = plan_append(Some(41), new_message(), 7).expect("plan");
    assert_eq!(next.head_id, 42);
    assert!(same(
        plan_append(Some(i64::MAX), new_message(), 7),
        invalid("9223372036854775808 exceeds i64")
    ));
    assert!(same(
        plan_append(Some(-1), new_message(), 7),
        storage("negative integer stored in sqlite: -1")
    ));
    assert!(same(
        plan_append(None, new_message(), u64::MAX),
        invalid("18446744073709551615 exceeds i64")
    ));
}

#[test]
fn a_message_is_read_back_from_its_row() {
    let mut stored = plan_append(Some(2), new_message(), 7).expect("plan").stored;
    stored.deleted = true;
    let plan = plan_message(stored.clone()).expect("plan");
    let row = |plan: &msgbus::sqlite::AppendPlan| MessageRow {
        id: plan.stored.id.as_str().to_string(),
        topic: plan.stored.topic.as_str().to_string(),
        origin: Ok(plan.stored.origin.clone()),
        head_id: plan.head_id,
        payload: plan.stored.payload.clone(),
        headers: decode_headers(&plan.headers_json),
        created_at_ms: plan.created_at_ms,
        deleted: plan.stored.deleted,
    };
    let back = row_to_message(row(&plan)).expect("row");
    assert_eq!(format!("{back:?}"), format!("{stored:?}"));

    let mut bad = row(&plan);
    bad.head_id = -3;
    assert!(same(
        row_to_message(bad),
        storage("negative integer stored in sqlite: -3")
    ));
    let mut bad = row(&plan);
    bad.topic = " ".to_string();
    bad.origin = Err(MsgbusError::Serialization("origin".to_string()));
    assert!(same(row_to_message(bad), invalid("topic is empty")));
    let mut bad = row(&plan);
    bad.origin = Err(MsgbusError::Serialization("origin".to_string()));
    bad.headers = Err(MsgbusError::Serialization("headers".to_string()));
    assert!(same(
        row_to_message(bad),
        MsgbusError::Serialization("origin".to_string())
    ));
}

#[test]
fn a_fetch_asks_for_a_page() {
    let query = |from: u64, limit: u32| FetchQuery {
        topic: topic(),
        origin: node(),
        from_head_id: HeadId(from),
        limit,
    };
    let plan = plan_fetch(query(3, 0)).expect("plan");
    assert_eq!(plan.topic, "events");
    assert_eq!(plan.origin_key, "tenant/bl/device");
    assert_eq!((plan.from_head_id, plan.limit), (3, 100));
    assert_eq!(plan_fetch(query(3, 20_000)).expect("plan").limit, 10_000);
    assert!(same(
        plan_fetch(query(u64::MAX, 1)),
        invalid("18446744073709551615 exceeds i64")
    ));
}

#[test]
fn a_range_is_checked_before_it_is_written() {
    let plan = plan_tombstone(&topic(), &node(), HeadId(1), HeadId(2), 9).expect("plan");
    assert_eq!((plan.from_head_id, plan.to_head_id, plan.created_at_ms), (1, 2, 9));
    assert_eq!(plan.tombstone.to_head_id, HeadId(2));
    assert!(same(
        plan_tombstone(&topic(), &node(), HeadId(u64::MAX), HeadId(2), 9),
        invalid("from_head_id must be <= to_head_id")
    ));
    assert!(same(
        plan_tombstone(&topic(), &node(), HeadId(1), HeadId(u64::MAX), 9),
        invalid("18446744073709551615 exceeds i64")
    ));
}

#[test]
fn a_queue_row_is_read_back() {
    let plan = plan_enqueue(Some(4), new_fifo(), 8).expect("plan");
    assert_eq!((plan.sequence, plan.created_at_ms), (5, 8));
    let row = |queue: &str| FifoRow {
        queue: queue.to_string(),
        sequence: plan.sequence,
        id: plan.stored.id.as_str().to_string(),
        topic: plan.stored.topic.as_str().to_string(),
        source: Ok(plan.stored.source.clone()),
        target: Ok(plan.stored.target.clone()),
        payload: plan.stored.payload.clone(),
        headers: decode_headers(&plan.headers_json),
        created_at_ms: plan.created_at_ms,
        attempts: plan.stored.attempts,
    };
    let back = row_to_fifo(row("q")).expect("row");
    assert_eq!(format!("{back:?}"), format!("{:?}", plan.stored));
    assert!(same(row_to_fifo(row("")), invalid("queue is empty")));
    assert!(same(
        plan_enqueue(Some(i64::MAX), new_fifo(), 8),
        invalid("9223372036854775808 exceeds i64")
    ));
}

#[test]
fn only_the_front_row_is_touched() {
    let mut front = plan_enqueue(Some(4), new_fifo(), 8).expect("plan").stored;
    front.attempts = 2;
    let id = front.id.clone();
    let ack = FifoFrontAction::Ack;
    let reject = FifoFrontAction::Reject;
    assert_eq!(
        plan_front(Some(front.clone()), &id, ack).expect("plan"),
        FrontPlan::Delete { sequence: 5 }
    );
    assert_eq!(
        plan_front(Some(front.clone()), &id, reject).expect("plan"),
        FrontPlan::SetAttempts {
            sequence: 5,
            attempts: 3
        }
    );
    assert_eq!(
        plan_front(Some(front.clone()), &MessageId::new(), ack).expect("plan"),
        FrontPlan::Keep
    );
    assert_eq!(plan_front(None, &id, reject).expect("plan"), FrontPlan::Keep);
    front.attempts = u32::MAX;
    assert_eq!(
        plan_front(Some(front), &id, reject).expect("plan"),
        FrontPlan::SetAttempts {
            sequence: 5,
            attempts: u32::MAX
        }
    );
}

#[test]
fn a_copy_keeps_the_greater_head() {
    let stored = plan_append(Some(6), new_message(), 7).expect("plan").stored;
    let head = |row: Option<i64>| match plan_replicate(None, row, stored.clone()).expect("plan") {
        ReplicatePlan::Insert { columns, head } => {
            assert_eq!(columns.head_id, 7);
            head
        }
        ReplicatePlan::Present => panic!("expected an insert"),
    };
    assert_eq!(head(None), 7);
    assert_eq!(head(Some(3)), 7);
    assert_eq!(head(Some(9)), 9);
    let id = stored.id.as_str().to_string();
    assert!(matches!(
        plan_replicate(Some(id), None, stored.clone()).expect("plan"),
        ReplicatePlan::Present
    ));
    assert!(same(
        plan_replicate(Some("another".to_string()), None, stored.clone()),
        MsgbusError::Conflict("another message holds this position of the log".to_string())
    ));
    assert!(same(
        plan_replicate(None, Some(-1), stored),
        storage("negative integer stored in sqlite: -1")
    ));
}

#[test]
fn head_rows_name_their_logs() {
    let head = row_to_head("events".to_string(), Ok(node()), 3).expect("row");
    assert_eq!(head.head_id, HeadId(3));
    assert_eq!(head.topic, topic());
    assert!(head.origin == node());
    assert!(same(
        row_to_head(String::new(), Ok(node()), 3),
        invalid("topic is empty")
    ));
    assert!(same(
        row_to_head("events".to_string(), Ok(node()), -3),
        storage("negative integer stored in sqlite: -3")
    ));
}

#[test]
fn a_sync_state_is_read_back_from_its_row() {
    let state = PeerSyncState {
        peer: "p".to_string(),
        topic: topic(),
        origin: node(),
        local_head: 1,
        remote_head: 2,
        last_synced_head: 1,
        consecutive_failures: 4,
        last_error: "why".to_string(),
    };
    let numbers = plan_sync_state(&state).expect("plan");
    assert_eq!((numbers.local_head, numbers.remote_head), (1, 2));
    let back = row_to_sync_state(
        "p".to_string(),
        "events".to_string(),
        Ok(node()),
        numbers,
        "why".to_string(),
    )
    .expect("row");
    assert_eq!(format!("{back:?}"), format!("{state:?}"));
    let mut far = state.clone();
    far.remote_head = u64::MAX;
    assert!(same(
        plan_sync_state(&far),
        invalid("18446744073709551615 exceeds i64")
    ));
    let mut numbers = numbers;
    numbers.last_synced_head = -1;
    assert!(same(
        row_to_sync_state(String::new(), "t".to_string(), Ok(node()), numbers, String::new()),
        storage("negative integer stored in sqlite: -1")
    ));
}

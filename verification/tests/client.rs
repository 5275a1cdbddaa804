use std::collections::BTreeMap;
use std::time::Duration;

use msgbus::client::{
    fetched, labelled, published, queued_message, required, MsgbusClient, SdkError, StreamAction, StreamEvent,
    SubscribeOptions,
};
use msgbus::status::{Code, Status};
use msgbus::wire::{
    FifoResponse, MessageEnvelope, PublishResponse, SubscribeResponse, WireNode,
};

fn node(device: &str) -> WireNode {
    WireNode {
        tenant_id: "tenant".to_string(),
        bl_name: "bl".to_string(),
        device_id: device.to_string(),
    }
}

fn envelope(head_id: u64) -> MessageEnvelope {
    MessageEnvelope {
        id: "m".to_string(),
        topic: "events".to_string(),
        origin: Some(node("device")),
        head_id,
        payload: Vec::new(),
        headers: BTreeMap::new(),
        created_at_ms: 0,
        deleted: false,
    }
}

fn status(code: Code) -> Status {
    Status {
        code,
        message: "because".to_string(),
    }
}

#[test]
fn calls_name_the_default_node() {
    let bare = MsgbusClient::new();
    assert!(bare.publish("t", b"x".to_vec()).origin.is_none());
    let client = bare.with_default_origin(node("device")).clone();
    let request = client.publish("t", b"x".to_vec());
    assert_eq!(request.topic, "t");
    assert_eq!(request.payload, b"x");
    assert!(request.headers.is_empty());
    assert_eq!(request.origin.expect("origin").device_id, "device");
    let fetch = client.fetch("t", Some(node("other")), 3, 7);
    assert_eq!(fetch.origin.expect("origin").device_id, "other");
    assert_eq!((fetch.from_head_id, fetch.limit), (3, 7));
    assert_eq!(
        client.get_head("t", None).origin.expect("origin").device_id,
        "device"
    );
    let delete = client.delete_range("t", None, 1, 2);
    assert_eq!((delete.from_head_id, delete.to_head_id), (1, 2));
    let enqueue = client.enqueue_fifo("q", "t", node("target"), b"x".to_vec());
    assert_eq!(enqueue.source.expect("source").device_id, "device");
    assert_eq!(enqueue.target.expect("target").device_id, "target");
    assert_eq!(client.peek_fifo("q").queue, "q");
    assert_eq!(client.ack_fifo("q", "m").message_id, "m");
    assert_eq!(client.reject_fifo("q", "m").queue, "q");
}

#[test]
fn subscriptions_have_usual_options() {
    let options = SubscribeOptions::default();
    assert!(options.origin.is_none());
    assert_eq!(options.from_head_id, 1);
    assert_eq!(options.replay_limit, 100);
    assert_eq!(options.reconnect_delay, Duration::from_millis(250));
    let client = MsgbusClient::new();
    let request = client.subscribe("t", None, 0);
    assert_eq!((request.from_head_id, request.replay_limit), (0, 100));
    let sub = client.subscribe_reconnecting("t", None, 0);
    assert_eq!(sub.next_head_id, 1);
    assert!(!sub.open);
}

#[test]
fn empty_answers_are_protocol_errors() {
    assert!(matches!(required(Some(3), "none"), Ok(3)));
    let line = |error: SdkError| error.describe();
    assert_eq!(line(required::<u8>(None, "none").unwrap_err()), "protocol error: none");
    assert_eq!(
        line(published(PublishResponse { message: None }).unwrap_err()),
        "protocol error: server returned empty publish response"
    );
    assert_eq!(
        line(queued_message(FifoResponse { message: None }).unwrap_err()),
        "protocol error: server returned empty fifo response"
    );
    assert_eq!(line(SdkError::Transport("down".to_string())), "transport error: down");
    assert_eq!(
        line(SdkError::Status(status(Code::Internal))),
        "rpc error: code: 'Internal error', message: \"because\""
    );
    assert_eq!(labelled("kind: ", "text"), "kind: text");
}

#[test]
fn answers_without_messages_are_passed_over() {
    let messages = fetched(vec![Some(envelope(1)), None, Some(envelope(2))]);
    assert_eq!(messages.len(), 2);
    assert_eq!(messages[1].head_id, 2);
}

#[test]
fn a_broken_subscription_goes_on_where_it_was() {
    let client = MsgbusClient::new();
    let mut sub = client.subscribe_reconnecting("t", Some(node("device")), 5);
    match sub.next_message() {
        StreamAction::Open(request) => assert_eq!(request.from_head_id, 5),
        _ => panic!("expected to open"),
    }
    assert!(matches!(
        sub.on_event(StreamEvent::OpenFailed(SdkError::Status(status(Code::Unavailable)))),
        StreamAction::Pause(delay) if delay == Duration::from_millis(250)
    ));
    assert!(matches!(sub.on_event(StreamEvent::Opened), StreamAction::Receive));
    assert!(matches!(sub.next_message(), StreamAction::Receive));
    let answer = |head: u64| {
        StreamEvent::Answer(SubscribeResponse {
            message: Some(envelope(head)),
        })
    };
    match sub.on_event(answer(5)) {
        StreamAction::Deliver(message) => assert_eq!(message.head_id, 5),
        _ => panic!("expected a message"),
    }
    assert!(matches!(
        sub.on_event(StreamEvent::Broken(status(Code::Aborted))),
        StreamAction::Pause(delay) if delay == Duration::from_millis(250)
    ));
    match sub.next_message() {
        StreamAction::Open(request) => {
            assert_eq!(request.from_head_id, 6);
            assert_eq!(request.origin.expect("origin").device_id, "device");
        }
        _ => panic!("expected to open"),
    }
    sub.on_event(StreamEvent::Opened);
    assert!(matches!(sub.on_event(StreamEvent::Ended), StreamAction::Pause(delay) if delay == Duration::from_millis(250)));
    assert!(!sub.open);
    assert_eq!(sub.next_head_id, 6);
}

#[test]
fn lasting_failures_reach_the_application() {
    let client = MsgbusClient::new();
    let mut sub = client.subscribe_reconnecting("t", None, 1);
    assert!(matches!(
        sub.on_event(StreamEvent::OpenFailed(SdkError::Transport("down".to_string()))),
        StreamAction::Fail(SdkError::Transport(_))
    ));
    assert!(matches!(
        sub.on_event(StreamEvent::OpenFailed(SdkError::Status(status(Code::NotFound)))),
        StreamAction::Fail(SdkError::Status(_))
    ));
    sub.on_event(StreamEvent::Opened);
    assert!(matches!(
        sub.on_event(StreamEvent::Broken(status(Code::InvalidArgument))),
        StreamAction::Fail(SdkError::Status(_))
    ));
    match sub.on_event(StreamEvent::Answer(SubscribeResponse { message: None })) {
        StreamAction::Fail(SdkError::Protocol(text)) => {
            assert_eq!(text, "server returned empty subscribe response")
        }
        _ => panic!("expected a protocol error"),
    }
    assert!(sub.open);
    assert_eq!(sub.next_head_id, 1);
}

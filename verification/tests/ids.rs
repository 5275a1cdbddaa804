use msgbus::clock::{now_ms, stamp};
use msgbus::error::{storage_err, MsgbusError};
use msgbus::ids::{validate_part, HeadId, MessageId, NodeId, QueueName, Topic};

fn refusal(error: MsgbusError) -> String {
    match error {
        MsgbusError::InvalidArgument(text) => text,
        other => panic!("unexpected error: {other:?}"),
    }
}

#[test]
fn node_key_joins_parts() {
    let node = NodeId::new("tenant", "bl", "device").expect("valid node");
    assert_eq!(node.key(), "tenant/bl/device");
    assert!(!node.is_empty());
    assert!(node.validate().is_ok());
    assert!(node == node.clone());
}

#[test]
fn node_names_the_first_bad_part() {
    assert_eq!(refusal(NodeId::new("", "", "").unwrap_err()), "tenant_id is empty");
    assert_eq!(refusal(NodeId::new("t", " \t\n", "d").unwrap_err()), "bl_name is empty");
    assert_eq!(refusal(NodeId::new("t", "b", "\u{3000}").unwrap_err()), "device_id is empty");
    assert_eq!(
        refusal(NodeId::new("t", "b", "d\0").unwrap_err()),
        "device_id contains NUL byte"
    );
    let empty = NodeId {
        tenant_id: String::new(),
        bl_name: String::new(),
        device_id: String::new(),
    };
    assert!(empty.is_empty());
    assert_eq!(empty.key(), "//");
}

#[test]
fn names_are_kept_as_they_are() {
    assert_eq!(Topic::new(" events ").expect("topic").as_str(), " events ");
    assert_eq!(Topic::new("caf\u{e9}").expect("topic").into_string(), "caf\u{e9}");
    assert_eq!(QueueName::new("a/b").expect("queue").as_str(), "a/b");
    assert_eq!(MessageId::from_string("m-1").expect("id").as_str(), "m-1");
}

#[test]
fn blank_names_are_refused() {
    assert_eq!(refusal(Topic::new("").unwrap_err()), "topic is empty");
    assert_eq!(refusal(QueueName::new("\u{a0}").unwrap_err()), "queue is empty");
    assert_eq!(refusal(MessageId::from_string("").unwrap_err()), "message_id is empty");
    assert_eq!(refusal(Topic::new("a\0b").unwrap_err()), "topic contains NUL byte");
    assert_eq!(refusal(validate_part("part", "").unwrap_err()), "part is empty");
    assert!(validate_part("part", "\u{200b}").is_ok());
}

#[test]
fn random_identifiers_have_the_hyphenated_form() {
    let id = MessageId::new();
    let text = id.as_str();
    assert_eq!(text.len(), 36);
    for (i, c) in text.chars().enumerate() {
        match i {
            8 | 13 | 18 | 23 => assert_eq!(c, '-'),
            14 => assert_eq!(c, '4'),
            19 => assert!("89ab".contains(c)),
            _ => assert!(c.is_ascii_digit() || ('a'..='f').contains(&c)),
        }
    }
    assert!(MessageId::from_string(text).is_ok());
    assert!(MessageId::new() != MessageId::default());
}

#[test]
fn positions_stop_at_the_greatest_number() {
    assert_eq!(HeadId(7).next(), HeadId(8));
    assert_eq!(HeadId(u64::MAX).next(), HeadId(u64::MAX));
    assert_eq!(HeadId::default(), HeadId(0));
}

#[test]
fn stamps_are_milliseconds() {
    assert_eq!(stamp(None), 0);
    assert_eq!(stamp(Some(1_700_000_000_123)), 1_700_000_000_123);
    let first = now_ms();
    assert!(first > 1_600_000_000_000);
}

#[test]
fn errors_read_with_their_kind() {
    assert_eq!(
        MsgbusError::InvalidArgument("a".to_string()).describe(),
        "invalid argument: a"
    );
    assert_eq!(MsgbusError::NotFound("b".to_string()).describe(), "not found: b");
    assert_eq!(MsgbusError::Conflict("c".to_string()).describe(), "conflict: c");
    assert_eq!(storage_err("d").describe(), "storage error: d");
    assert_eq!(
        MsgbusError::Serialization("e".to_string()).describe(),
        "serialization error: e"
    );
}

#[test]
fn nodes_have_log_keys_of_their_own() {
    let key = |tenant: &str, bl: &str, device: &str| {
        NodeId::new(tenant, bl, device).expect("valid node").log_key()
    };
    assert_eq!(key("tenant", "bl", "device"), "tenant/bl/device");
    assert_eq!(key("a~b", "~1", "d~"), "a~b/~1/d~");
    assert_eq!(key("a/b", "c", "d"), "/a~1b/c/d");
    assert_eq!(key("a", "b/c", "d"), "/a/b~1c/d");
    assert_eq!(key("a~1b", "c", "~/"), "/a~01b/c/~0~1");
    let joined = |tenant: &str, bl: &str| NodeId::new(tenant, bl, "d").expect("valid node").key();
    assert_eq!(joined("a/b", "c"), joined("a", "b/c"));
}

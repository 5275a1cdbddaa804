use msgbus::ids::{HeadId, NodeId, QueueName, Topic};
use msgbus::keys::{
    enc, fifo_message_key, fifo_prefix, fifo_sequence_key, head_key, message_key, message_prefix,
    sync_key, tombstone_key,
};
use msgbus::text::{has_prefix, push_decimal, push_digits, text_before};

fn node() -> NodeId {
    NodeId::new("tenant", "bl", "device").expect("valid node")
}

fn topic() -> Topic {
    Topic::new("events").expect("valid topic")
}

#[test]
fn names_are_encoded_for_keys() {
    assert_eq!(enc(""), "");
    assert_eq!(enc("p"), "cA");
    assert_eq!(enc("events"), "ZXZlbnRz");
    assert_eq!(enc("a?b>c"), "YT9iPmM");
    assert_eq!(enc("\u{ff}\u{ff}\u{ff}"), "w7_Dv8O_");
    assert_eq!(enc("caf\u{e9}"), "Y2Fmw6k");
}

#[test]
fn keys_of_a_log() {
    assert_eq!(head_key(&topic(), &node()), "head/ZXZlbnRz/dGVuYW50L2JsL2RldmljZQ");
    assert_eq!(message_prefix(&topic(), &node()), "msg/ZXZlbnRz/dGVuYW50L2JsL2RldmljZQ/");
    assert_eq!(
        message_key(&topic(), &node(), HeadId(42)),
        "msg/ZXZlbnRz/dGVuYW50L2JsL2RldmljZQ/00000000000000000042"
    );
    assert_eq!(
        message_key(&topic(), &node(), HeadId(u64::MAX)),
        "msg/ZXZlbnRz/dGVuYW50L2JsL2RldmljZQ/18446744073709551615"
    );
    assert_eq!(
        tombstone_key(&topic(), &node(), HeadId(1), HeadId(20)),
        "tombstone/ZXZlbnRz/dGVuYW50L2JsL2RldmljZQ/00000000000000000001-00000000000000000020"
    );
    assert_eq!(
        sync_key("p", &topic(), &node()),
        "sync/cA/ZXZlbnRz/dGVuYW50L2JsL2RldmljZQ"
    );
}

#[test]
fn keys_of_a_queue() {
    let queue = QueueName::new("tenant/bl/target").expect("valid queue");
    assert_eq!(fifo_sequence_key(&queue), "fifo-seq/dGVuYW50L2JsL3RhcmdldA");
    assert_eq!(fifo_prefix(&queue), "fifo/dGVuYW50L2JsL3RhcmdldA/");
    assert_eq!(
        fifo_message_key(&queue, 3),
        "fifo/dGVuYW50L2JsL3RhcmdldA/00000000000000000003"
    );
}

#[test]
fn keys_order_as_positions_do() {
    let low = message_key(&topic(), &node(), HeadId(9));
    let high = message_key(&topic(), &node(), HeadId(10));
    assert!(text_before(&low, &high));
    assert!(!text_before(&high, &low));
    assert!(!text_before(&low, &low));
    assert!(low < high);
}

#[test]
fn different_logs_have_different_keys() {
    let other = NodeId::new("tenant", "bl", "device2").expect("valid node");
    assert_ne!(head_key(&topic(), &node()), head_key(&topic(), &other));
    let key = message_key(&topic(), &other, HeadId(1));
    assert!(!has_prefix(&key, &message_prefix(&topic(), &node())));
    assert!(has_prefix(&key, &message_prefix(&topic(), &other)));
    let ab = NodeId::new("a/b", "c", "d").expect("valid node");
    let bc = NodeId::new("a", "b/c", "d").expect("valid node");
    assert_eq!(ab.key(), bc.key());
    assert_ne!(head_key(&topic(), &ab), head_key(&topic(), &bc));
    assert_ne!(message_prefix(&topic(), &ab), message_prefix(&topic(), &bc));
}

#[test]
fn numbers_are_written_in_digits() {
    let mut out = "n=".to_string();
    push_decimal(&mut out, 0);
    push_decimal(&mut out, 18_446_744_073_709_551_615);
    assert_eq!(out, "n=018446744073709551615");
    let mut padded = String::new();
    push_digits(&mut padded, 7, 3);
    assert_eq!(padded, "007");
}

//! The keys under which rows stand in the ordered tables.
//!
//! A key is a tag, then names in URL-safe base64, then numbers of a fixed width, joined by
//! slashes. Base64 keeps slashes out of the names, and the fixed width lets the order of the
//! keys follow the order of the numbers.

use vstd::prelude::*;
use vstd::string::*;

use crate::ids::HeadId;
use crate::ids::NodeId;
use crate::ids::NodeView;
use crate::ids::QueueName;
use crate::ids::Topic;
use crate::text::push_digits;

verus! {

/// The digit `n` of the URL-safe base64 alphabet of RFC 4648.
pub open spec fn base64_digit(n: int) -> char
    recommends
        0 <= n < 64,
{
    if n < 26 {
        (65 + n) as char
    } else if n < 52 {
        (97 + (n - 26)) as char
    } else if n < 62 {
        (48 + (n - 52)) as char
    } else if n == 62 {
        '-'
    } else {
        '_'
    }
}

/// The URL-safe base64 text of `bytes`, without padding, as RFC 4648 defines it: each three bytes
/// give four digits of six bits, and one or two bytes at the end give two or three digits, with
/// zero bits behind the last byte.
pub open spec fn base64_text(bytes: Seq<u8>) -> Seq<char>
    decreases bytes.len(),
{
    if bytes.len() == 0 {
        Seq::empty()
    } else if bytes.len() == 1 {
        seq![base64_digit(bytes[0] as int / 4), base64_digit(bytes[0] as int % 4 * 16)]
    } else if bytes.len() == 2 {
        seq![
            base64_digit(bytes[0] as int / 4),
            base64_digit(bytes[0] as int % 4 * 16 + bytes[1] as int / 16),
            base64_digit(bytes[1] as int % 16 * 4),
        ]
    } else {
        seq![
            base64_digit(bytes[0] as int / 4),
            base64_digit(bytes[0] as int % 4 * 16 + bytes[1] as int / 16),
            base64_digit(bytes[1] as int % 16 * 4 + bytes[2] as int / 64),
            base64_digit(bytes[2] as int % 64),
        ] + base64_text(bytes.skip(3))
    }
}

/// Calls `base64::Engine::encode` on the engine `URL_SAFE_NO_PAD`: the URL-safe base64 text of the
/// bytes, without padding. Running out of memory for the text is left aside.
#[verifier::external_body]
fn base64_url(bytes: &[u8]) -> (res: String)
    ensures
        res@ == base64_text(bytes@),
{
    base64::Engine::encode(&base64::engine::general_purpose::URL_SAFE_NO_PAD, bytes)
}

/// A name as it stands in a key.
pub open spec fn key_text(name: Seq<char>) -> Seq<char> {
    base64_text(vstd::utf8::encode_utf8(name))
}

/// A name as it stands in a key.
pub fn enc(value: &str) -> (res: String)
    ensures
        res@ == key_text(value@),
{
    base64_url(value.as_bytes())
}

/// A log: a topic and an origin.
pub struct LogView {
    pub topic: Seq<char>,
    pub origin: NodeView,
}

/// The log of a topic and an origin.
pub open spec fn log_of(topic: Seq<char>, origin: NodeView) -> LogView {
    LogView { topic, origin }
}

/// The names of a log as they stand in a key.
pub open spec fn log_text(log: LogView) -> Seq<char> {
    key_text(log.topic) + seq!['/'] + key_text(log.origin.log_key())
}

/// The key of the last position of a log.
pub open spec fn head_key_text(log: LogView) -> Seq<char> {
    "head/"@ + log_text(log)
}

/// What the keys of the messages of a log start with.
pub open spec fn message_prefix_text(log: LogView) -> Seq<char> {
    "msg/"@ + log_text(log) + seq!['/']
}

/// The key of the message at `head_id` of a log.
pub open spec fn message_key_text(log: LogView, head_id: u64) -> Seq<char> {
    message_prefix_text(log) + crate::text::digits(head_id as nat, 20)
}

/// The key of a deleted range of a log.
pub open spec fn tombstone_key_text(log: LogView, from: u64, to: u64) -> Seq<char> {
    "tombstone/"@ + log_text(log) + seq!['/'] + crate::text::digits(from as nat, 20) + seq!['-']
        + crate::text::digits(to as nat, 20)
}

/// The key of the last number that a queue gave out.
pub open spec fn fifo_sequence_key_text(queue: Seq<char>) -> Seq<char> {
    "fifo-seq/"@ + key_text(queue)
}

/// What the keys of the messages of a queue start with.
pub open spec fn fifo_prefix_text(queue: Seq<char>) -> Seq<char> {
    "fifo/"@ + key_text(queue) + seq!['/']
}

/// The key of the message with number `sequence` of a queue.
pub open spec fn fifo_message_key_text(queue: Seq<char>, sequence: u64) -> Seq<char> {
    fifo_prefix_text(queue) + crate::text::digits(sequence as nat, 20)
}

/// The key of what is known of a log at a peer.
pub open spec fn sync_key_text(peer: Seq<char>, log: LogView) -> Seq<char> {
    "sync/"@ + key_text(peer) + seq!['/'] + log_text(log)
}

fn push_log(key: &mut String, topic: &Topic, origin: &NodeId)
    ensures
        final(key)@ == old(key)@ + log_text(log_of(topic@, origin@)),
{
    proof {
        reveal_strlit("/");
        assert("/"@ =~= seq!['/']);
    }
    let topic_text = enc(topic.as_str());
    let origin_key = origin.log_key();
    let origin_text = enc(origin_key.as_str());
    key.append(topic_text.as_str());
    key.append("/");
    key.append(origin_text.as_str());
    assert(key@ =~= old(key)@ + log_text(log_of(topic@, origin@)));
}

/// The key of the last position of the log of `topic` and `origin`.
pub fn head_key(topic: &Topic, origin: &NodeId) -> (res: String)
    ensures
        res@ == head_key_text(log_of(topic@, origin@)),
{
    let mut key = "head/".to_owned();
    push_log(&mut key, topic, origin);
    key
}

/// What the keys of the messages of the log of `topic` and `origin` start with.
pub fn message_prefix(topic: &Topic, origin: &NodeId) -> (res: String)
    ensures
        res@ == message_prefix_text(log_of(topic@, origin@)),
{
    proof {
        reveal_strlit("/");
        assert("/"@ =~= seq!['/']);
    }
    let mut key = "msg/".to_owned();
    push_log(&mut key, topic, origin);
    key.append("/");
    key
}

/// The key of the message at `head_id` of the log of `topic` and `origin`.
pub fn message_key(topic: &Topic, origin: &NodeId, head_id: HeadId) -> (res: String)
    ensures
        res@ == message_key_text(log_of(topic@, origin@), head_id.0),
{
    let mut key = message_prefix(topic, origin);
    push_digits(&mut key, head_id.0, 20);
    key
}

/// The key of the deleted range `from` to `to` of the log of `topic` and `origin`.
pub fn tombstone_key(topic: &Topic, origin: &NodeId, from: HeadId, to: HeadId) -> (res: String)
    ensures
        res@ == tombstone_key_text(log_of(topic@, origin@), from.0, to.0),
{
    proof {
        reveal_strlit("/");
        assert("/"@ =~= seq!['/']);
        reveal_strlit("-");
        assert("-"@ =~= seq!['-']);
    }
    let mut key = "tombstone/".to_owned();
    push_log(&mut key, topic, origin);
    key.append("/");
    push_digits(&mut key, from.0, 20);
    key.append("-");
    push_digits(&mut key, to.0, 20);
    key
}

/// The key of the last number that `queue` gave out.
pub fn fifo_sequence_key(queue: &QueueName) -> (res: String)
    ensures
        res@ == fifo_sequence_key_text(queue@),
{
    let text = enc(queue.as_str());
    let mut key = "fifo-seq/".to_owned();
    key.append(text.as_str());
    key
}

/// What the keys of the messages of `queue` start with.
pub fn fifo_prefix(queue: &QueueName) -> (res: String)
    ensures
        res@ == fifo_prefix_text(queue@),
{
    proof {
        reveal_strlit("/");
        assert("/"@ =~= seq!['/']);
    }
    let text = enc(queue.as_str());
    let mut key = "fifo/".to_owned();
    key.append(text.as_str());
    key.append("/");
    key
}

/// The key of the message with number `sequence` of `queue`.
pub fn fifo_message_key(queue: &QueueName, sequence: u64) -> (res: String)
    ensures
        res@ == fifo_message_key_text(queue@, sequence),
{
    let mut key = fifo_prefix(queue);
    push_digits(&mut key, sequence, 20);
    key
}

/// The key of what is known of the log of `topic` and `origin` at `peer`.
pub fn sync_key(peer: &str, topic: &Topic, origin: &NodeId) -> (res: String)
    ensures
        res@ == sync_key_text(peer@, log_of(topic@, origin@)),
{
    proof {
        reveal_strlit("/");
        assert("/"@ =~= seq!['/']);
    }
    let text = enc(peer);
    let mut key = "sync/".to_owned();
    key.append(text.as_str());
    key.append("/");
    push_log(&mut key, topic, origin);
    key
}

proof fn lemma_base64_digit_injective(a: int, b: int)
    requires
        0 <= a < 64,
        0 <= b < 64,
    ensures
        base64_digit(a) == base64_digit(b) ==> a == b,
        base64_digit(a) != '/',
{
}

/// Base64 text holds no slash.
pub proof fn lemma_base64_no_slash(bytes: Seq<u8>)
    ensures
        !base64_text(bytes).contains('/'),
    decreases bytes.len(),
{
    let text = base64_text(bytes);
    if bytes.len() >= 3 {
        lemma_base64_no_slash(bytes.skip(3));
    }
    assert forall|i: int| 0 <= i < text.len() implies text[i] != '/' by {
        if i < 4 {
            let b0 = bytes[0] as int;
            let b1 = bytes[1] as int;
            let b2 = bytes[2] as int;
            lemma_base64_digit_injective(b0 / 4, 0);
            lemma_base64_digit_injective(b0 % 4 * 16, 0);
            lemma_base64_digit_injective(b0 % 4 * 16 + b1 / 16, 0);
            lemma_base64_digit_injective(b1 % 16 * 4, 0);
            lemma_base64_digit_injective(b1 % 16 * 4 + b2 / 64, 0);
            lemma_base64_digit_injective(b2 % 64, 0);
        } else {
            assert(text[i] == base64_text(bytes.skip(3))[i - 4]);
        }
    }
}

proof fn lemma_base64_len(bytes: Seq<u8>)
    ensures
        bytes.len() == 0 ==> base64_text(bytes).len() == 0,
        bytes.len() == 1 ==> base64_text(bytes).len() == 2,
        bytes.len() == 2 ==> base64_text(bytes).len() == 3,
        bytes.len() >= 3 ==> base64_text(bytes).len() >= 4,
{
}

/// Different bytes have different base64 texts.
pub proof fn lemma_base64_injective(a: Seq<u8>, b: Seq<u8>)
    requires
        base64_text(a) == base64_text(b),
    ensures
        a == b,
    decreases a.len(),
{
    let x = base64_text(a);
    let y = base64_text(b);
    let a0 = a[0] as int;
    let a1 = a[1] as int;
    let a2 = a[2] as int;
    let b0 = b[0] as int;
    let b1 = b[1] as int;
    let b2 = b[2] as int;
    lemma_base64_len(a);
    lemma_base64_len(b);
    if a.len() == 0 || b.len() == 0 {
        assert(a.len() == b.len());
    } else if a.len() == 1 || b.len() == 1 {
        assert(a.len() == b.len());
        assert(x[0] == y[0] && x[1] == y[1]);
        lemma_base64_digit_injective(a0 / 4, b0 / 4);
        lemma_base64_digit_injective(a0 % 4 * 16, b0 % 4 * 16);
        assert(a0 == b0);
    } else if a.len() == 2 || b.len() == 2 {
        assert(a.len() == b.len());
        assert(x[0] == y[0] && x[1] == y[1] && x[2] == y[2]);
        lemma_base64_digit_injective(a0 / 4, b0 / 4);
        lemma_base64_digit_injective(a0 % 4 * 16 + a1 / 16, b0 % 4 * 16 + b1 / 16);
        lemma_base64_digit_injective(a1 % 16 * 4, b1 % 16 * 4);
        assert(a0 == b0 && a1 == b1);
    } else {
        assert(x[0] == y[0] && x[1] == y[1] && x[2] == y[2] && x[3] == y[3]);
        lemma_base64_digit_injective(a0 / 4, b0 / 4);
        lemma_base64_digit_injective(a0 % 4 * 16 + a1 / 16, b0 % 4 * 16 + b1 / 16);
        lemma_base64_digit_injective(a1 % 16 * 4 + a2 / 64, b1 % 16 * 4 + b2 / 64);
        lemma_base64_digit_injective(a2 % 64, b2 % 64);
        assert(a0 == b0 && a1 == b1 && a2 == b2);
        assert(base64_text(a.skip(3)) =~= x.skip(4));
        assert(base64_text(b.skip(3)) =~= y.skip(4));
        lemma_base64_injective(a.skip(3), b.skip(3));
        assert(a =~= seq![a[0], a[1], a[2]] + a.skip(3));
        assert(b =~= seq![b[0], b[1], b[2]] + b.skip(3));
    }
    assert(a =~= b);
}

/// Different names read differently in a key, and hold no slash there.
pub proof fn lemma_key_text(a: Seq<char>, b: Seq<char>)
    ensures
        key_text(a) == key_text(b) ==> a == b,
        !key_text(a).contains('/'),
{
    lemma_base64_no_slash(vstd::utf8::encode_utf8(a));
    if key_text(a) == key_text(b) {
        lemma_base64_injective(vstd::utf8::encode_utf8(a), vstd::utf8::encode_utf8(b));
        vstd::utf8::encode_utf8_decode_utf8(a);
        vstd::utf8::encode_utf8_decode_utf8(b);
    }
}

proof fn lemma_same_behind(p: Seq<char>, x: Seq<char>, y: Seq<char>)
    requires
        p + x == p + y,
    ensures
        x == y,
{
    assert(x =~= (p + x).skip(p.len() as int));
    assert(y =~= (p + y).skip(p.len() as int));
}

/// Different logs read differently in a key.
pub proof fn lemma_log_text_injective(a: LogView, b: LogView)
    requires
        log_text(a) == log_text(b),
    ensures
        a == b,
{
    lemma_key_text(a.topic, b.topic);
    lemma_key_text(b.topic, a.topic);
    crate::ids::lemma_split_at_slash(
        key_text(a.topic),
        key_text(a.origin.log_key()),
        key_text(b.topic),
        key_text(b.origin.log_key()),
    );
    lemma_key_text(a.origin.log_key(), b.origin.log_key());
    crate::ids::law_nodes_have_their_own_log_keys(a.origin, b.origin);
}

/// Different logs have different keys for their last positions.
pub proof fn lemma_head_key_injective(a: LogView, b: LogView)
    ensures
        head_key_text(a) == head_key_text(b) ==> a == b,
{
    if head_key_text(a) == head_key_text(b) {
        lemma_same_behind("head/"@, log_text(a), log_text(b));
        lemma_log_text_injective(a, b);
    }
}

/// Only the keys of a log's own messages start with its prefix.
pub proof fn lemma_message_prefix_identifies(a: LogView, b: LogView, rest: Seq<char>)
    ensures
        crate::text::starts_with(message_prefix_text(b) + rest, message_prefix_text(a)) ==> a == b,
        crate::text::starts_with(message_prefix_text(a) + rest, message_prefix_text(a)),
{
    let p = message_prefix_text(a);
    let key = message_prefix_text(b) + rest;
    assert((p + rest).take(p.len() as int) =~= p);
    if crate::text::starts_with(key, p) {
        let tail = key.skip(p.len() as int);
        assert(key =~= p + tail);
        let x = key_text(a.origin.log_key()) + seq!['/'] + tail;
        let y = key_text(b.origin.log_key()) + seq!['/'] + rest;
        assert(p + tail =~= "msg/"@ + (key_text(a.topic) + seq!['/'] + x));
        assert(key =~= "msg/"@ + (key_text(b.topic) + seq!['/'] + y));
        lemma_same_behind(
            "msg/"@,
            key_text(a.topic) + seq!['/'] + x,
            key_text(b.topic) + seq!['/'] + y,
        );
        lemma_key_text(a.topic, b.topic);
        lemma_key_text(b.topic, a.topic);
        crate::ids::lemma_split_at_slash(key_text(a.topic), x, key_text(b.topic), y);
        lemma_key_text(a.origin.log_key(), b.origin.log_key());
        crate::ids::law_nodes_have_their_own_log_keys(a.origin, b.origin);
        lemma_key_text(b.origin.log_key(), a.origin.log_key());
        crate::ids::lemma_split_at_slash(
            key_text(a.origin.log_key()),
            tail,
            key_text(b.origin.log_key()),
            rest,
        );
    }
}

proof fn lemma_twenty_digits(v: u64)
    ensures
        (v as nat) < crate::text::pow10(20),
{
    reveal_with_fuel(crate::text::pow10, 21);
}

/// The keys of the messages of one log are ordered as their positions are.
pub proof fn lemma_message_keys_ordered(log: LogView, a: u64, b: u64)
    ensures
        crate::text::text_lt(message_key_text(log, a), message_key_text(log, b)) == (a < b),
        message_key_text(log, a) == message_key_text(log, b) ==> a == b,
{
    lemma_twenty_digits(a);
    lemma_twenty_digits(b);
    let x = crate::text::digits(a as nat, 20);
    let y = crate::text::digits(b as nat, 20);
    crate::text::lemma_digits_order(a as nat, b as nat, 20);
    crate::text::lemma_text_lt_behind_prefix(message_prefix_text(log), x, y);
    if message_key_text(log, a) == message_key_text(log, b) {
        lemma_same_behind(message_prefix_text(log), x, y);
    }
}

/// A message key tells the log and the position.
pub proof fn lemma_message_key_identifies(a: LogView, m: u64, b: LogView, n: u64)
    ensures
        message_key_text(a, m) == message_key_text(b, n) ==> a == b && m == n,
        crate::text::starts_with(message_key_text(b, n), message_prefix_text(a)) == (a == b),
{
    lemma_message_prefix_identifies(a, b, crate::text::digits(n as nat, 20));
    lemma_message_prefix_identifies(a, a, crate::text::digits(m as nat, 20));
    if message_key_text(a, m) == message_key_text(b, n) {
        lemma_message_keys_ordered(a, m, n);
    }
}

/// A tombstone key tells the log and the range.
pub proof fn lemma_tombstone_key_identifies(
    a: LogView,
    from_a: u64,
    to_a: u64,
    b: LogView,
    from_b: u64,
    to_b: u64,
)
    ensures
        tombstone_key_text(a, from_a, to_a) == tombstone_key_text(b, from_b, to_b) ==> a == b
            && from_a == from_b && to_a == to_b,
{
    let k = tombstone_key_text(a, from_a, to_a);
    let l = tombstone_key_text(b, from_b, to_b);
    if k == l {
        let fa = crate::text::digits(from_a as nat, 20);
        let ta = crate::text::digits(to_a as nat, 20);
        let fb = crate::text::digits(from_b as nat, 20);
        let tb = crate::text::digits(to_b as nat, 20);
        let ra = fa + seq!['-'] + ta;
        let rb = fb + seq!['-'] + tb;
        let x = key_text(a.origin.log_key()) + seq!['/'] + ra;
        let y = key_text(b.origin.log_key()) + seq!['/'] + rb;
        assert(k =~= "tombstone/"@ + (key_text(a.topic) + seq!['/'] + x));
        assert(l =~= "tombstone/"@ + (key_text(b.topic) + seq!['/'] + y));
        lemma_same_behind(
            "tombstone/"@,
            key_text(a.topic) + seq!['/'] + x,
            key_text(b.topic) + seq!['/'] + y,
        );
        lemma_key_text(a.topic, b.topic);
        lemma_key_text(b.topic, a.topic);
        crate::ids::lemma_split_at_slash(key_text(a.topic), x, key_text(b.topic), y);
        lemma_key_text(a.origin.log_key(), b.origin.log_key());
        crate::ids::law_nodes_have_their_own_log_keys(a.origin, b.origin);
        lemma_key_text(b.origin.log_key(), a.origin.log_key());
        crate::ids::lemma_split_at_slash(
            key_text(a.origin.log_key()),
            ra,
            key_text(b.origin.log_key()),
            rb,
        );
        crate::text::lemma_digits_len(from_a as nat, 20);
        crate::text::lemma_digits_len(from_b as nat, 20);
        crate::text::lemma_digits_len(to_a as nat, 20);
        crate::text::lemma_digits_len(to_b as nat, 20);
        assert(fa =~= ra.take(20));
        assert(fb =~= rb.take(20));
        assert(ta =~= ra.skip(21));
        assert(tb =~= rb.skip(21));
        lemma_twenty_digits(from_a);
        lemma_twenty_digits(from_b);
        lemma_twenty_digits(to_a);
        lemma_twenty_digits(to_b);
        crate::text::lemma_digits_order(from_a as nat, from_b as nat, 20);
        crate::text::lemma_digits_order(to_a as nat, to_b as nat, 20);
    }
}

/// Different queues have different keys for the last numbers that they gave out.
pub proof fn lemma_fifo_sequence_key_injective(a: Seq<char>, b: Seq<char>)
    ensures
        fifo_sequence_key_text(a) == fifo_sequence_key_text(b) ==> a == b,
{
    if fifo_sequence_key_text(a) == fifo_sequence_key_text(b) {
        lemma_same_behind("fifo-seq/"@, key_text(a), key_text(b));
        lemma_key_text(a, b);
    }
}

/// The keys of the messages of one queue are ordered as their numbers are.
pub proof fn lemma_fifo_keys_ordered(queue: Seq<char>, a: u64, b: u64)
    ensures
        crate::text::text_lt(fifo_message_key_text(queue, a), fifo_message_key_text(queue, b)) == (a
            < b),
        fifo_message_key_text(queue, a) == fifo_message_key_text(queue, b) ==> a == b,
{
    lemma_twenty_digits(a);
    lemma_twenty_digits(b);
    let x = crate::text::digits(a as nat, 20);
    let y = crate::text::digits(b as nat, 20);
    crate::text::lemma_digits_order(a as nat, b as nat, 20);
    crate::text::lemma_text_lt_behind_prefix(fifo_prefix_text(queue), x, y);
    if fifo_message_key_text(queue, a) == fifo_message_key_text(queue, b) {
        lemma_same_behind(fifo_prefix_text(queue), x, y);
    }
}

/// A queue key tells the queue and the number.
pub proof fn lemma_fifo_key_identifies(a: Seq<char>, m: u64, b: Seq<char>, n: u64)
    ensures
        fifo_message_key_text(a, m) == fifo_message_key_text(b, n) ==> a == b && m == n,
        crate::text::starts_with(fifo_message_key_text(b, n), fifo_prefix_text(a)) == (a == b),
{
    let p = fifo_prefix_text(a);
    let key = fifo_message_key_text(b, n);
    let rest = crate::text::digits(n as nat, 20);
    assert(fifo_message_key_text(a, n).take(p.len() as int) =~= p);
    assert(fifo_message_key_text(a, m).take(p.len() as int) =~= p);
    if crate::text::starts_with(key, p) {
        let tail = key.skip(p.len() as int);
        assert(key =~= p + tail);
        assert(p + tail =~= "fifo/"@ + (key_text(a) + seq!['/'] + tail));
        assert(key =~= "fifo/"@ + (key_text(b) + seq!['/'] + rest));
        lemma_same_behind("fifo/"@, key_text(a) + seq!['/'] + tail, key_text(b) + seq!['/'] + rest);
        lemma_key_text(a, b);
        lemma_key_text(b, a);
        crate::ids::lemma_split_at_slash(key_text(a), tail, key_text(b), rest);
    }
    if fifo_message_key_text(a, m) == key {
        lemma_fifo_keys_ordered(a, m, n);
    }
}

/// A sync key tells the peer and the log.
pub proof fn lemma_sync_key_identifies(p: Seq<char>, a: LogView, q: Seq<char>, b: LogView)
    ensures
        sync_key_text(p, a) == sync_key_text(q, b) ==> p == q && a == b,
{
    if sync_key_text(p, a) == sync_key_text(q, b) {
        assert(sync_key_text(p, a) =~= "sync/"@ + (key_text(p) + seq!['/'] + log_text(a)));
        assert(sync_key_text(q, b) =~= "sync/"@ + (key_text(q) + seq!['/'] + log_text(b)));
        lemma_same_behind(
            "sync/"@,
            key_text(p) + seq!['/'] + log_text(a),
            key_text(q) + seq!['/'] + log_text(b),
        );
        lemma_key_text(p, q);
        lemma_key_text(q, p);
        crate::ids::lemma_split_at_slash(key_text(p), log_text(a), key_text(q), log_text(b));
        lemma_log_text_injective(a, b);
    }
}

} // verus!

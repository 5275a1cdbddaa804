//! What copying from a peer does, said of what the peer gives and of what the store holds.

use vstd::prelude::*;

use crate::error::ErrorView;
use crate::error::MsgbusError;
use crate::ids::NodeView;
use crate::keys::LogView;
use crate::message::MessageView;
use crate::message::StoredMessage;
use crate::message::SyncStateView;
use crate::message::TombstoneRange;
use crate::message::TopicHeadView;
use crate::status::Code;
use crate::store::MsgbusStore;
use crate::store::StoreView;
use crate::sync::LogSync;
use crate::sync::LogSyncView;
use crate::sync::PeerSpec;
use crate::sync::RoundView;
use crate::sync::SyncAction;
use crate::sync::SyncError;
use crate::wire::WireHeadView;
use crate::wire::WireTopicHead;

verus! {

/// A peer without an equals sign in its text is the endpoint of that text, whatever node it is; a
/// peer with one is the endpoint before the last one, pinned to the node whose parts stand behind
/// it with slashes between them.
pub proof fn law_peers(text: &str, res: Result<PeerSpec, MsgbusError>)
    requires
        call_ensures(PeerSpec::parse, (text,), res),
    ensures
        !text@.contains('=') ==> {
            &&& res is Ok <==> crate::ids::valid_part(text@)
            &&& res matches Ok(peer) ==> peer.endpoint@ == text@ && peer.expected_node is None
        },
        res matches Ok(peer) ==> crate::ids::valid_part(peer.endpoint@),
        text@.contains('=') ==> (res matches Ok(peer) ==> {
            &&& peer.expected_node is Some
            &&& {
                let node = (peer.expected_node->0)@;
                &&& text@ == peer.endpoint@ + seq!['='] + (node.tenant_id + seq!['/']
                    + node.bl_name + seq!['/'] + node.device_id)
                &&& !(node.tenant_id + seq!['/'] + node.bl_name + seq!['/']
                    + node.device_id).contains('=')
                &&& !node.tenant_id.contains('/') && !node.bl_name.contains('/')
                    && !node.device_id.contains('/')
                &&& crate::ids::valid_part(node.tenant_id) && crate::ids::valid_part(node.bl_name)
                    && crate::ids::valid_part(node.device_id)
            }
        }),
        res matches Err(e) ==> e is InvalidArgument,
{
    let t = text@;
    t.index_of_last_ensures('=');
    if res is Err {
        assert((res->Err_0)@.kind == crate::error::ErrorKind::InvalidArgument);
    }
    if res is Ok {
        let peer = res->Ok_0;
        assert(peer@.endpoint == peer.endpoint@);
        if t.contains('=') {
            let i = t.index_of_last('=')->0;
            let rest = t.subrange(i + 1, t.len() as int);
            rest.index_of_first_ensures('/');
            rest.index_of_last_ensures('/');
            let node = (peer.expected_node->0)@;
            let p = rest.index_of_first('/')->0;
            let q = rest.index_of_last('/')->0;
            assert(t =~= t.subrange(0, i) + seq!['='] + rest);
            assert(node == crate::sync::identity_of(rest)->Ok_0);
            assert(rest =~= node.tenant_id + seq!['/'] + node.bl_name + seq!['/']
                + node.device_id);
            assert(!rest.contains('=')) by {
                if rest.contains('=') {
                    let k = choose|k: int| 0 <= k < rest.len() && rest[k] == '=';
                    assert(t[i + 1 + k] == '=');
                }
            }
            assert(!node.tenant_id.contains('/')) by {
                if node.tenant_id.contains('/') {
                    let k = choose|k: int| 0 <= k < node.tenant_id.len() && node.tenant_id[k] == '/';
                    assert(rest[k] == '/');
                }
            }
            assert(!node.device_id.contains('/')) by {
                if node.device_id.contains('/') {
                    let k = choose|k: int| 0 <= k < node.device_id.len() && node.device_id[k] == '/';
                    assert(rest[q + 1 + k] == '/');
                }
            }
        }
    }
}

/// The state of a log under way: nothing of it is copied when it is opened; the position moves on
/// to that of each message that is copied and never back; a batch counts from where the log stands;
/// and the log is left when the position that the peer named is reached, or when a batch brought
/// nothing new.
pub proof fn law_log_under_way(v: LogSyncView, head: TopicHeadView, local: u64, at: u64)
    ensures
        ({
            let o = crate::sync::opened(head, local);
            o.head == head && o.local_head == local && o.batch_start == local && o.fetched == 0
                && !o.stalled
        }),
        v.behind() <==> !v.stalled && v.local_head < v.head.head_id,
        ({
            let b = v.batch_begun();
            b.head == v.head && b.local_head == v.local_head && b.batch_start == v.local_head
                && b.fetched == 0 && b.stalled == v.stalled
        }),
        ({
            let c = v.counted(at);
            &&& c.local_head >= at && c.local_head >= v.local_head
            &&& c.local_head == at || c.local_head == v.local_head
            &&& v.fetched < u32::MAX ==> c.fetched == v.fetched + 1
            &&& v.fetched == u32::MAX ==> c.fetched == v.fetched
            &&& c.head == v.head && c.batch_start == v.batch_start && c.stalled == v.stalled
        }),
        ({
            let e = v.batch_ended();
            &&& e.stalled <==> v.stalled || v.fetched == 0 || v.local_head == v.batch_start
            &&& e.head == v.head && e.local_head == v.local_head && e.batch_start == v.batch_start
                && e.fetched == v.fetched
        }),
{
}

/// A log is compared at the last position that the store has of it, and is the one that the peer
/// named; a log that is named badly is refused.
pub proof fn law_opened_logs<S: MsgbusStore>(
    store: &S,
    head: WireTopicHead,
    res: Result<LogSync, SyncError>,
)
    requires
        call_ensures(LogSync::open::<S>, (store, head), res),
    ensures
        ({
            let well = head.origin is Some && crate::wire::node_error((head.origin->0)@) is None
                && crate::ids::valid_part(head.topic@);
            &&& !well ==> (res matches Err(SyncError::Call(status)) && status.code
                == Code::InvalidArgument)
            &&& well && S::reliable() ==> res is Ok
            &&& res matches Ok(log) ==> {
                let l = LogView { topic: head.topic@, origin: (head.origin->0)@ };
                &&& well
                &&& log.head.topic@ == head.topic@
                &&& log.head.origin@ == (head.origin->0)@
                &&& log.head.head_id.0 == head.head_id
                &&& store.state().heads.contains_key(l) ==> log.local_head
                    == store.state().heads[l]
                &&& !store.state().heads.contains_key(l) ==> log.local_head == 0
                &&& log.batch_start == log.local_head && log.fetched == 0 && !log.stalled
            }
        }),
{
    crate::terms::law_values_off_the_wire(
        crate::wire::EnvelopeView {
            id: Seq::empty(),
            topic: Seq::empty(),
            origin: None,
            head_id: 0,
            payload: Seq::empty(),
            headers: Map::empty(),
            created_at_ms: 0,
            deleted: false,
        },
        head@,
    );
    assert(head@.origin == crate::wire::optional_node(head.origin));
    if res is Ok {
        let log = res->Ok_0;
        assert(log@.head == log.head@);
        assert(log@.local_head == log.local_head);
        assert(log@.batch_start == log.batch_start);
        assert(log@.fetched == log.fetched && log@.stalled == log.stalled);
        assert(log.head@.head_id == log.head.head_id.0);
    } else if res->Err_0 is Call {
        let status = (res->Err_0)->Call_0;
        assert(status@.code == status.code);
    }
}

/// The view of a log under way has its fields, and so have that of a peer and that of a round.
pub proof fn law_sync_views(
    log: LogSync,
    peer: PeerSpec,
    sync: crate::sync::PeerSync,
    state: StoreView,
    i: int,
)
    ensures
        sync.round(state).state == state,
        sync.round(state).waiting.len() == sync.waiting@.len(),
        0 <= i < sync.waiting@.len() ==> sync.round(state).waiting[i] == sync.waiting@[i]@,
        sync.round(state).current is Some <==> sync.current is Some,
        sync.current matches Some(log) ==> sync.round(state).current == Some(log@),
        log@.head == log.head@,
        log@.local_head == log.local_head,
        log@.batch_start == log.batch_start,
        log@.fetched == log.fetched,
        log@.stalled == log.stalled,
        peer@.endpoint == peer.endpoint@,
        peer@.expected_node is Some <==> peer.expected_node is Some,
        peer.expected_node matches Some(node) ==> peer@.expected_node == Some(node@),
{
}

/// A message of a peer that was received well is at its place in the store, as it was sent; one
/// that was there stays as it was. Where it tells of no deletion, nothing else changes.
pub proof fn law_received_messages<
    S: MsgbusStore,
    F: Fn(&Vec<u8>) -> Result<TombstoneRange, String>,
>(
    before: StoreView,
    after: StoreView,
    decode: F,
    m: MessageView,
    inserted: Option<StoredMessage>,
    l: LogView,
    h: u64,
)
    requires
        crate::sync::message_outcome::<S, F>(before, after, decode, m, Ok(inserted)),
    ensures
        ({
            let log = LogView { topic: m.topic, origin: m.origin };
            let place = (log, m.head_id);
            let is = after.messages[place];
            &&& after.messages.contains_key(place)
            &&& is.id == m.id
            &&& !before.messages.contains_key(place) ==> {
                &&& is.topic == m.topic && is.origin == m.origin && is.head_id == m.head_id
                &&& is.payload == m.payload && is.headers == m.headers
                &&& is.created_at_ms == m.created_at_ms
                &&& m.deleted ==> is.deleted
                &&& inserted is Some
                &&& (inserted->0)@ == m
                &&& after.heads.contains_key(log) && after.heads[log] >= m.head_id
            }
            &&& before.messages.contains_key(place) ==> inserted is None && is.payload
                == before.messages[place].payload && after.heads == before.heads
            &&& (l, h) != place ==> after.messages.contains_key((l, h))
                == before.messages.contains_key((l, h))
            &&& (l, h) != place && before.messages.contains_key((l, h)) ==> after.messages[(
                l,
                h,
            )].id == before.messages[(l, h)].id && after.messages[(l, h)].payload
                == before.messages[(l, h)].payload
            &&& l != log ==> after.heads.contains_key(l) == before.heads.contains_key(l)
                && after.heads[l] == before.heads[l]
            &&& m.topic != "$msgbus.delete"@ || m.deleted ==> {
                &&& !before.messages.contains_key(place) ==> after.messages
                    == before.messages.insert(place, m)
                &&& before.messages.contains_key(place) ==> after.messages == before.messages
            }
            &&& after.sequences == before.sequences && after.fifo == before.fifo && after.sync
                == before.sync
        }),
{
    let log = LogView { topic: m.topic, origin: m.origin };
    let place = (log, m.head_id);
    let mid = crate::sync::copied(before, m);
    crate::effects::law_replicate_effect(before, m);
    assert(crate::store::message_log(m) == log);
    assert(mid.messages.contains_key(place));
    if crate::service::is_control(m) {
        let (payload, range) = choose|payload: &Vec<u8>, range: TombstoneRange| #[trigger]
            call_ensures(decode, (payload,), Ok::<TombstoneRange, String>(range)) && payload@
                == m.payload && crate::sync::was_marked(mid, after, range);
        law_marked_ranges(mid, after, range, l, h);
        law_marked_ranges(mid, after, range, log, m.head_id);
    }
}

/// To mark a range that a message told of marks the messages from its first to its last position
/// and no other, and changes nothing else of any message.
pub proof fn law_marked_ranges(
    before: StoreView,
    after: StoreView,
    range: TombstoneRange,
    l: LogView,
    h: u64,
)
    requires
        crate::sync::was_marked(before, after, range),
    ensures
        range.from_head_id.0 <= range.to_head_id.0,
        after.messages.contains_key((l, h)) == before.messages.contains_key((l, h)),
        before.messages.contains_key((l, h)) ==> {
            let was = before.messages[(l, h)];
            let is = after.messages[(l, h)];
            &&& is.deleted == (was.deleted || l.topic == range.topic@ && l.origin == range.origin@
                && range.from_head_id.0 <= h <= range.to_head_id.0)
            &&& is.id == was.id && is.topic == was.topic && is.origin == was.origin
            &&& is.head_id == was.head_id && is.payload == was.payload && is.headers
                == was.headers && is.created_at_ms == was.created_at_ms
        },
        after.heads == before.heads && after.sequences == before.sequences && after.fifo
            == before.fifo && after.sync == before.sync,
{
    let log = crate::keys::log_of(range.topic@, range.origin@);
    let at = choose|at: u64|
        after == before.tombstoned(
            log,
            #[trigger] crate::store::tombstone_record(
                range.topic@,
                range.origin@,
                range.from_head_id.0,
                range.to_head_id.0,
                at,
            ),
        );
    let record = crate::store::tombstone_record(
        range.topic@,
        range.origin@,
        range.from_head_id.0,
        range.to_head_id.0,
        at,
    );
    crate::effects::law_tombstone_effect(before, log, record);
    assert(after.messages.contains_key((l, h)) == before.messages.contains_key((l, h)));
    if before.messages.contains_key((l, h)) {
        let is = after.messages[(l, h)];
        assert(is.id == before.messages[(l, h)].id);
    }
}

/// A message of a peer that tells of a deletion, at whatever position of its log it stands, marks
/// the range that its payload holds: every message of the range that the store has is deleted
/// afterwards.
pub proof fn law_every_marker_is_taken<
    S: MsgbusStore,
    F: Fn(&Vec<u8>) -> Result<TombstoneRange, String>,
>(
    before: StoreView,
    after: StoreView,
    decode: F,
    m: MessageView,
    inserted: Option<StoredMessage>,
)
    requires
        crate::sync::message_outcome::<S, F>(before, after, decode, m, Ok(inserted)),
        m.topic == "$msgbus.delete"@,
        !m.deleted,
    ensures
        exists|payload: &Vec<u8>, range: TombstoneRange| #[trigger]
            call_ensures(decode, (payload,), Ok::<TombstoneRange, String>(range)) && payload@
                == m.payload && range.from_head_id.0 <= range.to_head_id.0 && (forall|h: u64|
                #![trigger after.messages[(
                    LogView { topic: range.topic@, origin: range.origin@ },
                    h,
                )]]
                range.from_head_id.0 <= h <= range.to_head_id.0 && before.messages.contains_key(
                    (LogView { topic: range.topic@, origin: range.origin@ }, h),
                ) ==> after.messages.contains_key(
                    (LogView { topic: range.topic@, origin: range.origin@ }, h),
                ) && after.messages[(
                    LogView { topic: range.topic@, origin: range.origin@ },
                    h,
                )].deleted),
{
    let mid = crate::sync::copied(before, m);
    crate::effects::law_replicate_effect(before, m);
    assert(crate::service::is_control(m));
    let (payload, range) = choose|payload: &Vec<u8>, range: TombstoneRange| #[trigger]
        call_ensures(decode, (payload,), Ok::<TombstoneRange, String>(range)) && payload@
            == m.payload && crate::sync::was_marked(mid, after, range);
    let log = LogView { topic: range.topic@, origin: range.origin@ };
    assert forall|h: u64|
        range.from_head_id.0 <= h <= range.to_head_id.0 && before.messages.contains_key(
            (log, h),
        ) implies after.messages.contains_key((log, h)) && (
    #[trigger] after.messages[(log, h)]).deleted by {
        law_marked_ranges(mid, after, range, log, h);
        assert(mid.messages.contains_key((log, h)));
    }
    law_marked_ranges(mid, after, range, log, 0);
}

/// A deletion reaches every peer that takes the message telling of it: where `encode` wrote the
/// range down and `decode` reads it back, every message of the range that the peer has is deleted
/// there afterwards. This holds of each deletion, however many there were before.
pub proof fn law_deletions_reach_the_peers<
    S: MsgbusStore,
    E: Fn(&TombstoneRange) -> Result<Vec<u8>, String>,
    F: Fn(&Vec<u8>) -> Result<TombstoneRange, String>,
>(
    here: StoreView,
    then: StoreView,
    local: NodeView,
    topic: Seq<char>,
    origin: NodeView,
    from: u64,
    to: u64,
    marker: MessageView,
    encode: E,
    decode: F,
    before: StoreView,
    after: StoreView,
    inserted: Option<StoredMessage>,
    h: u64,
)
    requires
        crate::service::was_deleted(here, then, local, topic, origin, from, to, marker),
        crate::service::was_encoded(encode, topic, origin, from, to, marker.payload),
        forall|
            range: &TombstoneRange,
            bytes: Vec<u8>,
            payload: &Vec<u8>,
            read: Result<TombstoneRange, String>,
        |
            #![trigger
                call_ensures(encode, (range,), Ok::<Vec<u8>, String>(bytes)),
                call_ensures(decode, (payload,), read)
            ]
            call_ensures(encode, (range,), Ok::<Vec<u8>, String>(bytes)) && payload@ == bytes@
                && call_ensures(decode, (payload,), read) ==> (read matches Ok(r) && r@ == range@),
        crate::sync::message_outcome::<S, F>(before, after, decode, marker, Ok(inserted)),
        from <= h <= to,
        before.messages.contains_key((LogView { topic, origin }, h)),
    ensures
        after.messages.contains_key((LogView { topic, origin }, h)),
        after.messages[(LogView { topic, origin }, h)].deleted,
{
    assert(marker.topic == "$msgbus.delete"@ && !marker.deleted);
    law_every_marker_is_taken::<S, F>(before, after, decode, marker, inserted);
    let (payload, range) = choose|payload: &Vec<u8>, range: TombstoneRange| #[trigger]
        call_ensures(decode, (payload,), Ok::<TombstoneRange, String>(range)) && payload@
            == marker.payload && range.from_head_id.0 <= range.to_head_id.0 && (forall|h: u64|
            #![trigger after.messages[(
                LogView { topic: range.topic@, origin: range.origin@ },
                h,
            )]]
            range.from_head_id.0 <= h <= range.to_head_id.0 && before.messages.contains_key(
                (LogView { topic: range.topic@, origin: range.origin@ }, h),
            ) ==> after.messages.contains_key(
                (LogView { topic: range.topic@, origin: range.origin@ }, h),
            ) && after.messages[(
                LogView { topic: range.topic@, origin: range.origin@ },
                h,
            )].deleted);
    let (written, bytes) = choose|written: &TombstoneRange, bytes: Vec<u8>| #[trigger]
        call_ensures(encode, (written,), Ok::<Vec<u8>, String>(bytes)) && bytes@ == marker.payload
            && written@ == crate::store::tombstone_record(
            topic,
            origin,
            from,
            to,
            written.created_at_ms,
        );
    assert(range@ == written@);
    assert(range@.topic == topic && range@.origin == origin);
    assert(range@.from_head_id == from && range@.to_head_id == to);
    assert(LogView { topic: range.topic@, origin: range.origin@ } == (LogView { topic, origin }));
    assert(after.messages[(LogView { topic: range.topic@, origin: range.origin@ }, h)].deleted);
}

/// A message of a peer that could not be taken leaves every message of the store as it was: one
/// whose place another message holds is a conflict, and one that tells of a deletion that cannot be
/// made is stored, and the deletion refused.
pub proof fn law_refused_messages<
    S: MsgbusStore,
    F: Fn(&Vec<u8>) -> Result<TombstoneRange, String>,
>(
    before: StoreView,
    after: StoreView,
    decode: F,
    m: MessageView,
    error: SyncError,
)
    requires
        crate::sync::message_outcome::<S, F>(before, after, decode, m, Err(error)),
    ensures
        ({
            let place = (LogView { topic: m.topic, origin: m.origin }, m.head_id);
            &&& error is Store ==> after == before
            &&& error is Store && S::reliable() ==> before.messages.contains_key(place)
                && before.messages[place].id != m.id
            &&& error is Call ==> m.topic == "$msgbus.delete"@ && !m.deleted && after.messages
                == if before.messages.contains_key(place) {
                before.messages
            } else {
                before.messages.insert(place, m)
            }
            &&& !(error is Peer)
            &&& error matches SyncError::Call(status) ==> exists|
                payload: &Vec<u8>,
                read: Result<TombstoneRange, String>,
            | #[trigger]
                call_ensures(decode, (payload,), read) && payload@ == m.payload && match read {
                    Err(text) => status.code == Code::InvalidArgument && status.message@
                        == "invalid tombstone payload: "@ + text@,
                    Ok(range) => if range.from_head_id.0 > range.to_head_id.0 {
                        status.code == Code::InvalidArgument && status.message@
                            == "from_head_id must be <= to_head_id"@
                    } else {
                        !S::reliable() && crate::service::mark_failed::<S>(
                            crate::sync::copied(before, m),
                            range,
                            status@,
                        )
                    },
                }
            &&& error matches SyncError::Store(e) ==> {
                ||| before.messages.contains_key(place) && before.messages[place].id != m.id && e@
                    == crate::engine::taken_error()
                ||| !S::reliable() && S::replicate_fails(before, m, e@)
            }
        }),
{
    crate::effects::law_replicate_effect(before, m);
    if error is Call {
        let status = error->Call_0;
        assert(status@.code == status.code && status@.message == status.message@);
        let (payload, read) = choose|payload: &Vec<u8>, read: Result<TombstoneRange, String>|
            #[trigger] call_ensures(decode, (payload,), read) && payload@ == m.payload && match read {
                Err(text) => status@ == crate::service::payload_error(text@),
                Ok(range) => if range.from_head_id.0 > range.to_head_id.0 {
                    status@ == crate::status::status_of(crate::engine::range_error())
                } else {
                    !S::reliable() && crate::service::mark_failed::<S>(
                        crate::sync::copied(before, m),
                        range,
                        status@,
                    )
                },
            };
        assert(call_ensures(decode, (payload,), read));
    }
}

/// What is kept of a log that was copied: where it stands here and there, and no failure.
pub proof fn law_kept_success(v: LogSyncView, peer: Seq<char>)
    ensures
        ({
            let k = crate::sync::synced_state(v, peer);
            &&& k.peer == peer
            &&& k.topic == v.head.topic && k.origin == v.head.origin
            &&& k.local_head == v.local_head && k.remote_head == v.head.head_id
            &&& k.last_synced_head == v.local_head
            &&& k.consecutive_failures == 0
            &&& k.last_error.len() == 0
        }),
{
}

/// What is kept of a log that failed: where it stands here and there, how far it was copied when it
/// last went well, one failure more than before, and why.
pub proof fn law_kept_failure(
    s: StoreView,
    peer: Seq<char>,
    head: TopicHeadView,
    error: Seq<char>,
    known: SyncStateView,
)
    ensures
        ({
            let log = LogView { topic: head.topic, origin: head.origin };
            let k = crate::sync::failure_of(s, peer, head, error);
            &&& k.peer == peer
            &&& k.topic == head.topic && k.origin == head.origin
            &&& k.local_head == if s.heads.contains_key(log) {
                s.heads[log]
            } else {
                0
            }
            &&& k.remote_head == head.head_id
            &&& k.last_error == error
            &&& !s.sync.contains_key((peer, log)) ==> k.consecutive_failures == 1
                && k.last_synced_head == 0
            &&& s.sync.contains_key((peer, log)) ==> {
                let was = s.sync[(peer, log)];
                &&& k.last_synced_head == was.last_synced_head
                &&& was.consecutive_failures < u32::MAX ==> k.consecutive_failures
                    == was.consecutive_failures + 1
                &&& was.consecutive_failures == u32::MAX ==> k.consecutive_failures
                    == was.consecutive_failures
            }
        }),
        ({
            let again = crate::sync::failed_again(known, error);
            &&& again.last_error == error
            &&& known.consecutive_failures < u32::MAX ==> again.consecutive_failures
                == known.consecutive_failures + 1
            &&& known.consecutive_failures == u32::MAX ==> again.consecutive_failures
                == known.consecutive_failures
            &&& again.peer == known.peer && again.topic == known.topic && again.origin
                == known.origin
            &&& again.local_head == known.local_head && again.remote_head == known.remote_head
            &&& again.last_synced_head == known.last_synced_head
        }),
{
}

/// A failure of a peer as a whole is counted for every log of it that is known, but for those that
/// are dealt with by themselves, and for no other peer's logs.
pub proof fn law_blame(
    s: StoreView,
    peer: Seq<char>,
    heads: Seq<WireHeadView>,
    error: Seq<char>,
    p: (Seq<char>, LogView),
)
    ensures
        ({
            let t = crate::sync::blamed(s, peer, heads, error);
            let listed = exists|i: int|
                0 <= i < heads.len() && (crate::wire::topic_head_of(#[trigger] heads[i]) matches Ok(
                    h,
                ) && h.topic == p.1.topic && h.origin == p.1.origin);
            &&& t.sync.contains_key(p) == s.sync.contains_key(p)
            &&& s.sync.contains_key(p) && p.0 == peer && !listed ==> t.sync[p]
                == crate::sync::failed_again(s.sync[p], error)
            &&& s.sync.contains_key(p) && (p.0 != peer || listed) ==> t.sync[p] == s.sync[p]
            &&& t.heads == s.heads && t.messages == s.messages && t.tombstones == s.tombstones
                && t.sequences == s.sequences && t.fifo == s.fifo
        }),
{
    let listed = exists|i: int|
        0 <= i < heads.len() && (crate::wire::topic_head_of(#[trigger] heads[i]) matches Ok(h)
            && h.topic == p.1.topic && h.origin == p.1.origin);
    assert(crate::sync::names_log(heads, p.1) == listed) by {
        if listed {
            let i = choose|i: int|
                0 <= i < heads.len() && (crate::wire::topic_head_of(#[trigger] heads[i]) matches Ok(
                    h,
                ) && h.topic == p.1.topic && h.origin == p.1.origin);
            let h = crate::wire::topic_head_of(heads[i])->Ok_0;
            assert(crate::store::head_log(h) == p.1);
        }
    }
}

/// The logs that a failed round did not reach are each kept as failed; nothing else is changed.
pub proof fn law_failures_kept(
    s: StoreView,
    peer: Seq<char>,
    heads: Seq<WireHeadView>,
    error: Seq<char>,
    p: (Seq<char>, LogView),
)
    requires
        crate::rounds::names_each_once(heads),
    ensures
        ({
            let t = crate::sync::failures_kept(s, peer, heads, error);
            &&& t.heads == s.heads && t.messages == s.messages && t.tombstones == s.tombstones
                && t.sequences == s.sequences && t.fifo == s.fifo
            &&& forall|i: int|
                0 <= i < heads.len() ==> (crate::wire::topic_head_of(
                    #[trigger] heads[i],
                ) matches Ok(h) ==> {
                    let place = (peer, LogView { topic: h.topic, origin: h.origin });
                    t.sync.contains_key(place) && t.sync[place] == crate::sync::failure_of(
                        s,
                        peer,
                        h,
                        error,
                    )
                })
            &&& !(p.0 == peer && exists|i: int|
                0 <= i < heads.len() && (crate::wire::topic_head_of(#[trigger] heads[i]) matches Ok(
                    h,
                ) && h.topic == p.1.topic && h.origin == p.1.origin)) ==> t.sync.contains_key(p)
                == s.sync.contains_key(p) && t.sync[p] == s.sync[p]
        }),
    decreases heads.len(),
{
    if heads.len() > 0 {
        let n = heads.len() - 1;
        let less = heads.drop_last();
        let before = crate::sync::failures_kept(s, peer, less, error);
        let t = crate::sync::failures_kept(s, peer, heads, error);
        assert(crate::rounds::names_each_once(less)) by {
            assert forall|i: int, j: int| 0 <= i < j < less.len() implies (
            #[trigger] less[i]).topic != (#[trigger] less[j]).topic || less[i].origin
                != less[j].origin by {
                assert(heads[i].topic != heads[j].topic || heads[i].origin != heads[j].origin);
            }
        }
        law_failures_kept(s, peer, less, error, p);
        if crate::wire::topic_head_of(heads[n]) is Ok {
            let last = crate::wire::topic_head_of(heads[n])->Ok_0;
            let own = (peer, LogView { topic: last.topic, origin: last.origin });
            law_failures_kept(s, peer, less, error, own);
            assert(!exists|i: int|
                0 <= i < less.len() && (crate::wire::topic_head_of(#[trigger] less[i]) matches Ok(h)
                    && h.topic == last.topic && h.origin == last.origin)) by {
                if exists|i: int|
                    0 <= i < less.len() && (crate::wire::topic_head_of(
                        #[trigger] less[i],
                    ) matches Ok(h) && h.topic == last.topic && h.origin == last.origin) {
                    let i = choose|i: int|
                        0 <= i < less.len() && (crate::wire::topic_head_of(
                            #[trigger] less[i],
                        ) matches Ok(h) && h.topic == last.topic && h.origin == last.origin);
                    assert(heads[i].topic != heads[n].topic || heads[i].origin
                        != heads[n].origin);
                }
            }
            assert(crate::sync::failure_of(before, peer, last, error) == crate::sync::failure_of(
                s,
                peer,
                last,
                error,
            ));
            assert(t.sync == before.sync.insert(
                own,
                crate::sync::failure_of(s, peer, last, error),
            ));
            assert forall|i: int| 0 <= i < heads.len() implies (crate::wire::topic_head_of(
                #[trigger] heads[i],
            ) matches Ok(h) ==> {
                let place = (peer, LogView { topic: h.topic, origin: h.origin });
                t.sync.contains_key(place) && t.sync[place] == crate::sync::failure_of(
                    s,
                    peer,
                    h,
                    error,
                )
            }) by {
                if i < n && crate::wire::topic_head_of(heads[i]) is Ok {
                    assert(less[i] == heads[i]);
                    assert(heads[i].topic != heads[n].topic || heads[i].origin
                        != heads[n].origin);
                }
            }
            if !(p.0 == peer && exists|i: int|
                0 <= i < heads.len() && (crate::wire::topic_head_of(#[trigger] heads[i]) matches Ok(
                    h,
                ) && h.topic == p.1.topic && h.origin == p.1.origin)) {
                assert(p != own) by {
                    if p == own {
                        assert(crate::wire::topic_head_of(heads[n]) is Ok);
                        assert(last.topic == p.1.topic && last.origin == p.1.origin);
                    }
                }
                assert(!(p.0 == peer && exists|i: int|
                    0 <= i < less.len() && (crate::wire::topic_head_of(
                        #[trigger] less[i],
                    ) matches Ok(h) && h.topic == p.1.topic && h.origin == p.1.origin))) by {
                    if p.0 == peer && exists|i: int|
                        0 <= i < less.len() && (crate::wire::topic_head_of(
                            #[trigger] less[i],
                        ) matches Ok(h) && h.topic == p.1.topic && h.origin == p.1.origin) {
                        let i = choose|i: int|
                            0 <= i < less.len() && (crate::wire::topic_head_of(
                                #[trigger] less[i],
                            ) matches Ok(h) && h.topic == p.1.topic && h.origin == p.1.origin);
                        assert(heads[i] == less[i]);
                    }
                }
            }
        } else {
            assert(t == before);
            assert forall|i: int| 0 <= i < heads.len() implies (crate::wire::topic_head_of(
                #[trigger] heads[i],
            ) matches Ok(h) ==> {
                let place = (peer, LogView { topic: h.topic, origin: h.origin });
                t.sync.contains_key(place) && t.sync[place] == crate::sync::failure_of(
                    s,
                    peer,
                    h,
                    error,
                )
            }) by {
                if i < n {
                    assert(less[i] == heads[i]);
                }
            }
            if !(p.0 == peer && exists|i: int|
                0 <= i < heads.len() && (crate::wire::topic_head_of(#[trigger] heads[i]) matches Ok(
                    h,
                ) && h.topic == p.1.topic && h.origin == p.1.origin)) {
                if p.0 == peer && exists|i: int|
                    0 <= i < less.len() && (crate::wire::topic_head_of(
                        #[trigger] less[i],
                    ) matches Ok(h) && h.topic == p.1.topic && h.origin == p.1.origin) {
                    let i = choose|i: int|
                        0 <= i < less.len() && (crate::wire::topic_head_of(
                            #[trigger] less[i],
                        ) matches Ok(h) && h.topic == p.1.topic && h.origin == p.1.origin);
                    assert(heads[i] == less[i]);
                }
            }
        }
    }
}

/// A failed round keeps its failure of the log that was under way, or of the peer's other known
/// logs where none was, and of the logs that it did not reach.
pub proof fn law_failed_rounds(round: RoundView, peer: Seq<char>, error: Seq<char>)
    ensures
        round.current matches Some(log) ==> crate::sync::failed_round(round, peer, error)
            == crate::sync::failures_kept(
            StoreView {
                sync: round.state.sync.insert(
                    (peer, LogView { topic: log.head.topic, origin: log.head.origin }),
                    crate::sync::failure_of(round.state, peer, log.head, error),
                ),
                ..round.state
            },
            peer,
            round.waiting,
            error,
        ),
        round.current is None ==> crate::sync::failed_round(round, peer, error)
            == crate::sync::failures_kept(
            crate::sync::blamed(round.state, peer, round.waiting, error),
            peer,
            round.waiting,
            error,
        ),
{
}

/// To keep of logs that they are copied keeps it of each of them, and changes nothing else.
pub proof fn law_recorded(
    s: StoreView,
    peer: Seq<char>,
    heads: Seq<WireHeadView>,
    p: (Seq<char>, LogView),
)
    requires
        crate::rounds::names_each_once(heads),
    ensures
        ({
            let t = crate::sync::recorded(s, peer, heads);
            &&& t.heads == s.heads && t.messages == s.messages && t.tombstones == s.tombstones
                && t.sequences == s.sequences && t.fifo == s.fifo
            &&& forall|i: int|
                0 <= i < heads.len() ==> (crate::wire::topic_head_of(
                    #[trigger] heads[i],
                ) matches Ok(h) ==> {
                    let log = LogView { topic: h.topic, origin: h.origin };
                    let k = t.sync[(peer, log)];
                    &&& t.sync.contains_key((peer, log))
                    &&& k.peer == peer && k.topic == h.topic && k.origin == h.origin
                    &&& k.remote_head == h.head_id
                    &&& k.local_head == if s.heads.contains_key(log) {
                        s.heads[log]
                    } else {
                        0
                    }
                    &&& k.last_synced_head == k.local_head
                    &&& k.consecutive_failures == 0 && k.last_error.len() == 0
                })
            &&& !(p.0 == peer && crate::sync::names_log(heads, p.1)) ==> t.sync.contains_key(p)
                == s.sync.contains_key(p) && t.sync[p] == s.sync[p]
        }),
    decreases heads.len(),
{
    if heads.len() > 0 {
        let n = heads.len() - 1;
        let less = heads.drop_last();
        if !crate::sync::names_log(heads, p.1) {
            if crate::sync::names_log(less, p.1) {
                let i = choose|i: int|
                    0 <= i < less.len() && (crate::wire::topic_head_of(
                        #[trigger] less[i],
                    ) matches Ok(h) && crate::store::head_log(h) == p.1);
                assert(heads[i] == less[i]);
            }
            if crate::wire::topic_head_of(heads[n]) is Ok {
                let last = crate::wire::topic_head_of(heads[n])->Ok_0;
                assert(crate::store::head_log(last) != p.1);
            }
        }
        let before = crate::sync::recorded(s, peer, less);
        let t = crate::sync::recorded(s, peer, heads);
        assert(crate::rounds::names_each_once(less)) by {
            assert forall|i: int, j: int| 0 <= i < j < less.len() implies (
            #[trigger] less[i]).topic != (#[trigger] less[j]).topic || less[i].origin
                != less[j].origin by {
                assert(heads[i].topic != heads[j].topic || heads[i].origin != heads[j].origin);
            }
        }
        law_recorded(s, peer, less, p);
        assert forall|i: int| 0 <= i < heads.len() implies (crate::wire::topic_head_of(
            #[trigger] heads[i],
        ) matches Ok(h) ==> {
            let log = LogView { topic: h.topic, origin: h.origin };
            let k = t.sync[(peer, log)];
            &&& t.sync.contains_key((peer, log))
            &&& k.peer == peer && k.topic == h.topic && k.origin == h.origin
            &&& k.remote_head == h.head_id
            &&& k.local_head == if s.heads.contains_key(log) {
                s.heads[log]
            } else {
                0
            }
            &&& k.last_synced_head == k.local_head
            &&& k.consecutive_failures == 0 && k.last_error.len() == 0
        }) by {
            if i < n {
                assert(less[i] == heads[i]);
                assert(heads[i].topic != heads[n].topic || heads[i].origin != heads[n].origin);
            }
        }
    }
}

/// A round asks a peer for the first log, in the order in which the peer named them, of which the
/// store lacks something, from behind the last position that the store has, as many messages as is
/// set but at least one; it asks for nothing where the store has all that the peer named; and it
/// stops at a log that is named badly.
pub proof fn law_rounds_ask_for_what_is_missing<S: MsgbusStore>(
    before: StoreView,
    peer: Seq<char>,
    batch_limit: u32,
    heads: Seq<WireHeadView>,
    after: RoundView,
    res: SyncAction,
)
    requires
        crate::sync::advanced::<S>(before, peer, batch_limit, heads, after, res),
    ensures
        res is Fetch || res is Done || res is Fail,
        res matches SyncAction::Fetch(request) ==> exists|k: int| #[trigger]
            is_wanted(before, heads, k) && request.topic@ == heads[k].topic
                && crate::wire::optional_node(request.origin) == heads[k].origin
                && request.from_head_id == before.head_of(
                LogView { topic: heads[k].topic, origin: heads[k].origin->0 },
            ) + 1 && request.limit >= 1 && (batch_limit >= 1 ==> request.limit == batch_limit) && (
            batch_limit == 0 ==> request.limit == 1) && after.waiting == heads.skip(k + 1)
                && after.state == crate::sync::recorded(before, peer, heads.take(k)) && (
            after.current matches Some(v) && v.head.topic == heads[k].topic && Some(v.head.origin)
                == heads[k].origin && v.head.head_id == heads[k].head_id && v.local_head + 1
                == request.from_head_id),
        res is Done ==> after.current is None && after.waiting.len() == 0 && after.state
            == crate::sync::recorded(before, peer, heads) && forall|i: int|
            0 <= i < heads.len() ==> has_all(before, #[trigger] heads[i]),
        S::reliable() && (forall|i: int|
            0 <= i < heads.len() ==> crate::wire::topic_head_of(#[trigger] heads[i]) is Ok) ==> !(
        res is Fail),
        res matches SyncAction::Fail(SyncError::Call(status)) ==> exists|k: int| #[trigger]
            is_misnamed(before, heads, k) && crate::wire::topic_head_of(heads[k])->Err_0 == status@
                && after.state == crate::sync::recorded(before, peer, heads.take(k))
                && after.waiting == heads.skip(k) && after.current is None,
        res matches SyncAction::Fail(SyncError::Store(e)) ==> !S::reliable() && exists|k: int|
            #![trigger heads.skip(k)]
            0 <= k < heads.len() && crate::wire::topic_head_of(heads[k]) is Ok && after.state
                == crate::sync::recorded(before, peer, heads.take(k)) && after.waiting
                == heads.skip(k) && after.current is None && crate::sync::look_failed::<S>(
                after.state,
                peer,
                crate::wire::topic_head_of(heads[k])->Ok_0,
                e@,
            ),
        !(res matches SyncAction::Fail(SyncError::Peer(_))),
{
    match res {
        SyncAction::Fetch(request) => {
            let (k, v) = choose|k: int, v: LogSyncView| #[trigger]
                crate::sync::first_behind(before, heads, k, v) && after == crate::sync::advanced_to(
                    before,
                    peer,
                    heads,
                    k,
                    v,
                ) && crate::sync::asks_for(request, v, batch_limit);
            assert forall|i: int| 0 <= i < k implies has_all(before, #[trigger] heads[i]) by {
                assert(heads.take(k)[i] == heads[i]);
            }
            assert(is_wanted(before, heads, k));
        },
        SyncAction::Done => {
            assert forall|i: int| 0 <= i < heads.len() implies has_all(
                before,
                #[trigger] heads[i],
            ) by {}
        },
        SyncAction::Fail(SyncError::Call(status)) => {
            let k = choose|k: int| #[trigger]
                crate::sync::first_bad(before, heads, k, status@) && after
                    == crate::sync::stopped_at(before, peer, heads, k);
            assert(crate::wire::topic_head_of(heads[k]) is Err);
            assert forall|i: int| 0 <= i < k implies has_all(before, #[trigger] heads[i]) by {
                assert(heads.take(k)[i] == heads[i]);
            }
            assert(is_misnamed(before, heads, k));
        },
        SyncAction::Fail(SyncError::Store(e)) => {
            let k = choose|k: int| #[trigger]
                crate::sync::looked_at(before, heads, k) && after == crate::sync::stopped_at(
                    before,
                    peer,
                    heads,
                    k,
                ) && crate::sync::look_failed::<S>(
                    after.state,
                    peer,
                    crate::wire::topic_head_of(heads[k])->Ok_0,
                    e@,
                );
            assert(after.waiting == heads.skip(k));
        },
        _ => {},
    }
}

/// The log `k` of those that a peer named is named badly, and the store has all of those before it.
pub open spec fn is_misnamed(s: StoreView, heads: Seq<WireHeadView>, k: int) -> bool {
    &&& 0 <= k < heads.len()
    &&& forall|i: int| 0 <= i < k ==> has_all(s, #[trigger] heads[i])
    &&& crate::wire::topic_head_of(heads[k]) is Err
}

/// The store has the log that a peer named as far as the peer named it.
pub open spec fn has_all(s: StoreView, head: WireHeadView) -> bool {
    &&& head.origin is Some
    &&& crate::wire::topic_head_of(head) is Ok
    &&& head.head_id == 0 || s.heads.contains_key(
        LogView { topic: head.topic, origin: head.origin->0 },
    ) && head.head_id <= s.heads[LogView { topic: head.topic, origin: head.origin->0 }]
}

/// The store lacks something of the log `k` of those that a peer named, and of none before it.
pub open spec fn is_wanted(s: StoreView, heads: Seq<WireHeadView>, k: int) -> bool {
    &&& 0 <= k < heads.len()
    &&& forall|i: int| 0 <= i < k ==> has_all(s, #[trigger] heads[i])
    &&& !has_all(s, heads[k])
    &&& crate::wire::topic_head_of(heads[k]) is Ok
}

/// Behind a batch, a log that is not copied yet and that the batch moved on is asked for from
/// behind the last message that came; a log that is copied, or that the batch did not move, is kept
/// as it stands, and the next one is looked for.
pub proof fn law_batches<S: MsgbusStore>(
    before: RoundView,
    log: LogSyncView,
    peer: Seq<char>,
    batch_limit: u32,
    after: RoundView,
    res: SyncAction,
)
    requires
        crate::sync::batch_left::<S>(before, log, peer, batch_limit, after, res),
    ensures
        !log.stalled && log.fetched > 0 && log.local_head != log.batch_start && log.local_head
            < log.head.head_id ==> {
            &&& res matches SyncAction::Fetch(request)
            &&& request.topic@ == log.head.topic
            &&& crate::wire::optional_node(request.origin) == Some(log.head.origin)
            &&& request.from_head_id == log.local_head + 1
            &&& batch_limit >= 1 ==> request.limit == batch_limit
            &&& batch_limit == 0 ==> request.limit == 1
            &&& after.state == before.state && after.waiting == before.waiting
            &&& after.current matches Some(v) && v.head == log.head && v.local_head
                == log.local_head && v.batch_start == log.local_head && v.fetched == 0
                && !v.stalled
        },
        log.stalled || log.fetched == 0 || log.local_head == log.batch_start || log.local_head
            >= log.head.head_id ==> {
            let kept = before.state.with_sync(
                crate::sync::synced_state(log.batch_ended(), peer),
            );
            crate::sync::advanced::<S>(
                kept,
                peer,
                batch_limit,
                before.waiting,
                after,
                res,
            ) || !S::reliable() && res is Fail && after.state == before.state
        },
{
}

/// An answer that holds no message changes nothing; one that holds a message that cannot be read,
/// or of another log, stops the round and changes nothing; and one of the log under way is taken,
/// sent on where it is new, and counted.
pub proof fn law_answers<S: MsgbusStore, F: Fn(&Vec<u8>) -> Result<TombstoneRange, String>>(
    before: StoreView,
    after: StoreView,
    peer: Seq<char>,
    log: LogSyncView,
    next: LogSyncView,
    envelope: Option<crate::wire::MessageEnvelope>,
    decode: F,
    res: SyncAction,
)
    requires
        crate::sync::answered::<S, F>(before, after, peer, log, next, envelope, decode, res),
    ensures
        envelope is None ==> res is Continue && next == log && after == before,
        envelope matches Some(e) ==> {
            let m = crate::wire::message_of(e@);
            &&& m is Err ==> (res matches SyncAction::Fail(SyncError::Call(status)) && status@
                == m->Err_0) && next == log && after == before
            &&& m is Ok && ((m->Ok_0).topic != log.head.topic || (m->Ok_0).origin
                != log.head.origin) ==> {
                &&& res matches SyncAction::Fail(SyncError::Peer(text))
                &&& text@ == crate::sync::mismatch_error(peer, log.head)
                &&& next == log && after == before
            }
            &&& m is Ok && (m->Ok_0).topic == log.head.topic && (m->Ok_0).origin == log.head.origin
                ==> {
                let place = (
                    LogView { topic: (m->Ok_0).topic, origin: (m->Ok_0).origin },
                    (m->Ok_0).head_id,
                );
                &&& res is Publish || res is Continue || res is Fail
                &&& res matches SyncAction::Publish(message) ==> message@ == m->Ok_0
                    && !before.messages.contains_key(place)
                    && crate::sync::message_outcome::<S, F>(
                    before,
                    after,
                    decode,
                    m->Ok_0,
                    Ok(Some(message)),
                )
                &&& res is Continue ==> before.messages.contains_key(place)
                    && crate::sync::message_outcome::<S, F>(
                    before,
                    after,
                    decode,
                    m->Ok_0,
                    Ok(None),
                )
                &&& res is Publish || res is Continue ==> next == log.counted((m->Ok_0).head_id)
                &&& res matches SyncAction::Fail(error) ==> next == log
                    && crate::sync::message_outcome::<S, F>(
                    before,
                    after,
                    decode,
                    m->Ok_0,
                    Err(error),
                )
            }
        },
{
}

/// An error of the copying reads as what went wrong: as the store's error reads, as the status
/// reads, or as the text that tells of the peer.
pub proof fn law_sync_errors(e: MsgbusError, text: String)
    ensures
        crate::sync::sync_error_line(SyncError::Store(e)) == crate::error::error_line(e@),
        crate::sync::sync_error_line(SyncError::Peer(text)) == text@,
        forall|status: crate::status::Status|
            #![trigger crate::sync::sync_error_line(SyncError::Call(status))]
            crate::sync::sync_error_line(SyncError::Call(status)) == crate::status::status_text(
                crate::status::code_number(status.code),
                status.message@,
            ),
{
}

/// A failure to read or to keep is told as the store told it.
pub proof fn law_sync_failures<S: MsgbusStore>(
    store: &S,
    peer: Seq<char>,
    head: TopicHeadView,
    error: Seq<char>,
    e: ErrorView,
    failure: SyncError,
    before: StoreView,
    after: StoreView,
    p: (Seq<char>, LogView),
)
    ensures
        crate::sync::failure_unkept(store, peer, head, error, failure) ==> (
        failure matches SyncError::Store(told) && {
            let log = LogView { topic: head.topic, origin: head.origin };
            ||| crate::store::sync_unread(store, peer, log, told@)
            ||| crate::store::head_unread(store, log, told@)
            ||| S::sync_fails(
                store.state(),
                crate::sync::failure_of(store.state(), peer, head, error),
                told@,
            )
        }),
        crate::sync::keeping_failed::<S>(after, peer, failure) ==> failure is Store,
        crate::sync::same_but_sync(before, after, peer) ==> {
            &&& after.heads == before.heads && after.messages == before.messages
                && after.tombstones == before.tombstones && after.sequences == before.sequences
                && after.fifo == before.fifo
            &&& p.0 != peer ==> after.sync.contains_key(p) == before.sync.contains_key(p)
                && after.sync[p] == before.sync[p]
        },
        crate::sync::look_failed::<S>(before, peer, head, e) ==> {
            let log = LogView { topic: head.topic, origin: head.origin };
            ||| exists|s: &S| #[trigger]
                crate::store::head_unread(s, log, e) && s.state() == before
            ||| exists|kept: SyncStateView| #[trigger]
                S::sync_fails(before, kept, e) && kept.peer == peer && kept.topic == head.topic
                    && kept.origin == head.origin
        },
{
    if crate::sync::same_but_sync(before, after, peer) {
        assert(after.sync.contains_key(p) == before.sync.contains_key(p) || p.0 == peer);
    }
    if crate::sync::look_failed::<S>(before, peer, head, e) {
        let log = crate::store::head_log(head);
        if !(exists|s: &S| #[trigger]
            crate::store::head_unread(s, log, e) && s.state() == before) {
            let kept = crate::sync::synced_state(
                crate::sync::opened(head, before.head_of(log)),
                peer,
            );
            assert(S::sync_fails(before, kept, e));
        }
    }
}

} // verus!

//! What the operations on a store do to it, said place by place.

use vstd::prelude::*;

use crate::ids::NodeView;
use crate::keys::LogView;
use crate::message::FifoView;
use crate::message::MessageView;
use crate::message::SyncStateView;
use crate::message::TombstoneView;
use crate::message::TopicHeadView;
use crate::store::StoreView;

verus! {

/// The last position of a log is the one that is kept for it, and zero where none is; the last
/// number of a queue likewise. A store that holds nothing holds nothing anywhere.
pub proof fn law_last_positions(s: StoreView, log: LogView, queue: Seq<char>)
    ensures
        s.heads.contains_key(log) ==> s.head_of(log) == s.heads[log],
        !s.heads.contains_key(log) ==> s.head_of(log) == 0,
        s.sequences.contains_key(queue) ==> s.sequence_of(queue) == s.sequences[queue],
        !s.sequences.contains_key(queue) ==> s.sequence_of(queue) == 0,
        StoreView::empty().heads == Map::<LogView, u64>::empty(),
        StoreView::empty().messages == Map::<(LogView, u64), MessageView>::empty(),
        StoreView::empty().tombstones == Map::<(LogView, u64, u64), TombstoneView>::empty(),
        StoreView::empty().sequences == Map::<Seq<char>, u64>::empty(),
        StoreView::empty().fifo == Map::<(Seq<char>, u64), FifoView>::empty(),
        StoreView::empty().sync == Map::<(Seq<char>, LogView), SyncStateView>::empty(),
{
}

/// To append a message puts it at its position and makes that the last one of its log, and changes
/// nothing else.
pub proof fn law_append_effect(s: StoreView, m: MessageView)
    ensures
        ({
            let log = LogView { topic: m.topic, origin: m.origin };
            let t = s.appended(m);
            &&& t.heads == s.heads.insert(log, m.head_id)
            &&& t.messages == s.messages.insert((log, m.head_id), m)
            &&& t.tombstones == s.tombstones
            &&& t.sequences == s.sequences
            &&& t.fifo == s.fifo
            &&& t.sync == s.sync
        }),
{
}

/// To copy a message of a peer puts it at its position, moves the last position of its log there if
/// it stood before, and changes nothing else.
pub proof fn law_replicate_effect(s: StoreView, m: MessageView)
    ensures
        ({
            let log = LogView { topic: m.topic, origin: m.origin };
            let t = s.replicated(m);
            &&& t.heads.contains_key(log)
            &&& t.heads[log] >= m.head_id
            &&& s.heads.contains_key(log) ==> t.heads[log] >= s.heads[log]
            &&& t.heads[log] == m.head_id || s.heads.contains_key(log) && t.heads[log]
                == s.heads[log]
            &&& forall|other: LogView|
                #![trigger t.heads.contains_key(other)]
                #![trigger t.heads[other]]
                other != log ==> t.heads.contains_key(other) == s.heads.contains_key(other)
                    && t.heads[other] == s.heads[other]
            &&& t.messages == s.messages.insert((log, m.head_id), m)
            &&& t.tombstones == s.tombstones
            &&& t.sequences == s.sequences
            &&& t.fifo == s.fifo
            &&& t.sync == s.sync
        }),
{
}

/// To mark a range as deleted marks the messages of the log from its first to its last position,
/// both among them, and no other; takes no message away; keeps a record of the range; and changes
/// nothing else.
pub proof fn law_tombstone_effect(s: StoreView, log: LogView, record: TombstoneView)
    ensures
        ({
            let t = s.tombstoned(log, record);
            &&& forall|l: LogView, h: u64|
                #![trigger t.messages.contains_key((l, h))]
                t.messages.contains_key((l, h)) == s.messages.contains_key((l, h))
            &&& forall|l: LogView, h: u64|
                #![trigger t.messages[(l, h)]]
                s.messages.contains_key((l, h)) ==> {
                    let was = s.messages[(l, h)];
                    let is = t.messages[(l, h)];
                    &&& is.deleted == (was.deleted || l == log && record.from_head_id <= h
                        <= record.to_head_id)
                    &&& is.id == was.id && is.topic == was.topic && is.origin == was.origin
                    &&& is.head_id == was.head_id && is.payload == was.payload
                    &&& is.headers == was.headers && is.created_at_ms == was.created_at_ms
                }
            &&& t.tombstones == s.tombstones.insert(
                (log, record.from_head_id, record.to_head_id),
                record,
            )
            &&& t.heads == s.heads
            &&& t.sequences == s.sequences
            &&& t.fifo == s.fifo
            &&& t.sync == s.sync
        }),
{
}

/// The messages that a deletion counts are those of the log in the range that were not deleted.
pub proof fn law_live_messages(s: StoreView, log: LogView, from: u64, to: u64, h: u64)
    ensures
        s.live(log, from, to).contains(h) <==> from <= h <= to && s.messages.contains_key((log, h))
            && !s.messages[(log, h)].deleted,
{
}

/// To enqueue puts a message under its number and makes that the last one of its queue; to
/// acknowledge takes the message away; to reject counts one more attempt for it. None of them
/// changes anything else.
pub proof fn law_queue_effects(s: StoreView, m: FifoView, queue: Seq<char>, n: u64)
    ensures
        ({
            let t = s.enqueued(m);
            &&& t.fifo == s.fifo.insert((m.queue, m.sequence), m)
            &&& t.sequences == s.sequences.insert(m.queue, m.sequence)
            &&& t.heads == s.heads && t.messages == s.messages && t.tombstones == s.tombstones
                && t.sync == s.sync
        }),
        ({
            let t = s.acked(queue, n);
            &&& t.fifo == s.fifo.remove((queue, n))
            &&& t.sequences == s.sequences
            &&& t.heads == s.heads && t.messages == s.messages && t.tombstones == s.tombstones
                && t.sync == s.sync
        }),
        ({
            let t = s.rejected(queue, n);
            let was = s.fifo[(queue, n)];
            let is = t.fifo[(queue, n)];
            &&& t.fifo == s.fifo.insert((queue, n), is)
            &&& is.attempts == if was.attempts == u32::MAX {
                was.attempts as int
            } else {
                was.attempts + 1
            }
            &&& is == (FifoView { attempts: is.attempts, ..was })
            &&& t.sequences == s.sequences
            &&& t.heads == s.heads && t.messages == s.messages && t.tombstones == s.tombstones
                && t.sync == s.sync
        }),
{
}

/// The front of a queue is the message with the smallest number, and an empty queue has none.
pub proof fn law_front_of_a_queue(s: StoreView, queue: Seq<char>, n: u64, id: Seq<char>)
    ensures
        s.is_front(queue, n) <==> s.fifo.contains_key((queue, n)) && forall|other: u64|
            #![trigger s.fifo.contains_key((queue, other))]
            s.fifo.contains_key((queue, other)) ==> n <= other,
        s.queue_empty(queue) <==> forall|other: u64|
            !#[trigger] s.fifo.contains_key((queue, other)),
        s.is_front(queue, n) ==> (crate::store::front_differs(s, queue, id) <==> s.fifo[(
            queue,
            n,
        )].id != id),
        s.queue_empty(queue) ==> crate::store::front_differs(s, queue, id),
{
}

/// To keep what is known of a log at a peer replaces what was known of that log at that peer, and
/// changes nothing else.
pub proof fn law_sync_effect(s: StoreView, state: SyncStateView)
    ensures
        ({
            let t = s.with_sync(state);
            let place = (state.peer, LogView { topic: state.topic, origin: state.origin });
            &&& t.sync == s.sync.insert(place, state)
            &&& t.heads == s.heads && t.messages == s.messages && t.tombstones == s.tombstones
                && t.sequences == s.sequences && t.fifo == s.fifo
        }),
{
}

/// A page is a run of the log: its messages are those of the log from the first position on, each
/// as it is stored, in the order of their positions, none left out up to the last of them; it is
/// as long as it may be, or holds the rest of the log.
pub proof fn law_pages(
    s: StoreView,
    log: LogView,
    from: u64,
    limit: nat,
    out: Seq<MessageView>,
    h: u64,
)
    requires
        s.is_page(log, from, limit, out),
    ensures
        out.len() <= limit,
        forall|i: int|
            0 <= i < out.len() ==> {
                let at = (#[trigger] out[i]).head_id;
                from <= at && s.messages.contains_key((log, at)) && s.messages[(log, at)] == out[i]
            },
        forall|i: int, j: int|
            0 <= i < j < out.len() ==> (#[trigger] out[i]).head_id < (#[trigger] out[j]).head_id,
        s.messages.contains_key((log, h)) && from <= h && (out.len() < limit || out.len() > 0 && h
            <= out[out.len() - 1].head_id) ==> exists|i: int|
            0 <= i < out.len() && #[trigger] out[i] == s.messages[(log, h)],
{
    if s.messages.contains_key((log, h)) && from <= h && (out.len() < limit || out.len() > 0 && h
        <= out[out.len() - 1].head_id) {
        if out.len() > 0 {
            assert(out.last() == out[out.len() - 1]);
        }
        let i = choose|i: int| 0 <= i < out.len() && (#[trigger] out[i]).head_id == h;
        assert(out[i] == s.messages[(log, h)]);
    }
}

/// A page that starts at the position of a message has that message first.
pub proof fn law_page_starts_with_its_position(
    s: StoreView,
    log: LogView,
    from: u64,
    limit: nat,
    out: Seq<MessageView>,
)
    requires
        s.is_page(log, from, limit, out),
        s.messages.contains_key((log, from)),
        s.messages[(log, from)].head_id == from,
        limit > 0,
    ensures
        out.len() > 0,
        out[0] == s.messages[(log, from)],
{
    if out.len() > 0 {
        assert(out.last() == out[out.len() - 1]);
        assert(from <= out[out.len() - 1].head_id);
    }
    law_pages(s, log, from, limit, out, from);
    let i = choose|i: int| 0 <= i < out.len() && #[trigger] out[i] == s.messages[(log, from)];
    if i > 0 {
        assert(out[0].head_id < out[i].head_id);
        assert(from <= out[0].head_id);
    }
}

/// The last positions that are listed are those of all logs with messages, each once; and what is
/// known of logs at peers is listed in full, each once.
pub proof fn law_lists(
    s: StoreView,
    heads: Seq<TopicHeadView>,
    states: Seq<SyncStateView>,
    log: LogView,
    place: (Seq<char>, LogView),
)
    ensures
        s.lists_heads(heads) ==> {
            &&& forall|i: int|
                0 <= i < heads.len() ==> {
                    let h = #[trigger] heads[i];
                    let l = LogView { topic: h.topic, origin: h.origin };
                    s.heads.contains_key(l) && s.heads[l] == h.head_id
                }
            &&& forall|i: int, j: int|
                0 <= i < j < heads.len() ==> (#[trigger] heads[i]).topic != (
                #[trigger] heads[j]).topic || heads[i].origin != heads[j].origin
            &&& s.heads.contains_key(log) ==> exists|i: int|
                0 <= i < heads.len() && (#[trigger] heads[i]).topic == log.topic && heads[i].origin
                    == log.origin
        },
        s.lists_sync(states) ==> {
            &&& forall|i: int|
                0 <= i < states.len() ==> {
                    let k = #[trigger] states[i];
                    let p = (k.peer, LogView { topic: k.topic, origin: k.origin });
                    s.sync.contains_key(p) && s.sync[p] == k
                }
            &&& forall|i: int, j: int|
                0 <= i < j < states.len() ==> (#[trigger] states[i]).peer != (
                #[trigger] states[j]).peer || states[i].topic != states[j].topic
                    || states[i].origin != states[j].origin
            &&& s.sync.contains_key(place) ==> exists|i: int|
                0 <= i < states.len() && #[trigger] states[i] == s.sync[place]
        },
{
    if s.lists_heads(heads) {
        assert forall|i: int, j: int| 0 <= i < j < heads.len() implies (#[trigger] heads[i]).topic
            != (#[trigger] heads[j]).topic || heads[i].origin != heads[j].origin by {
            assert(crate::store::head_log(heads[i]) != crate::store::head_log(heads[j]));
        }
        if s.heads.contains_key(log) {
            let i = choose|i: int|
                0 <= i < heads.len() && crate::store::head_log(#[trigger] heads[i]) == log;
            assert(heads[i].topic == log.topic);
        }
        assert forall|i: int| 0 <= i < heads.len() implies {
            let h = #[trigger] heads[i];
            let l = LogView { topic: h.topic, origin: h.origin };
            s.heads.contains_key(l) && s.heads[l] == h.head_id
        } by {
            assert(s.heads.contains_key(crate::store::head_log(heads[i])));
        }
    }
    if s.lists_sync(states) {
        assert forall|i: int, j: int| 0 <= i < j < states.len() implies (#[trigger] states[i]).peer
            != (#[trigger] states[j]).peer || states[i].topic != states[j].topic
            || states[i].origin != states[j].origin by {
            assert(crate::store::sync_place(states[i]) != crate::store::sync_place(states[j]));
        }
        if s.sync.contains_key(place) {
            let i = choose|i: int|
                0 <= i < states.len() && crate::store::sync_place(#[trigger] states[i]) == place;
            assert(states[i] == s.sync[place]);
        }
        assert forall|i: int| 0 <= i < states.len() implies {
            let k = #[trigger] states[i];
            let p = (k.peer, LogView { topic: k.topic, origin: k.origin });
            s.sync.contains_key(p) && s.sync[p] == k
        } by {
            assert(s.sync.contains_key(crate::store::sync_place(states[i])));
        }
    }
}

/// A store in good order has every message at its own place, none behind the last position of its
/// log, and one there; and every queued message at its own place, none behind the last number.
pub proof fn law_good_order(s: StoreView, log: LogView, h: u64, queue: Seq<char>, n: u64)
    requires
        s.wf(),
    ensures
        s.messages.contains_key((log, h)) ==> s.messages[(log, h)].topic == log.topic
            && s.messages[(log, h)].origin == log.origin && s.messages[(log, h)].head_id == h
            && s.heads.contains_key(log) && h <= s.heads[log],
        s.heads.contains_key(log) ==> s.messages.contains_key((log, s.heads[log])),
        s.fifo.contains_key((queue, n)) ==> s.fifo[(queue, n)].queue == queue && s.fifo[(
            queue,
            n,
        )].sequence == n && s.sequences.contains_key(queue) && n <= s.sequences[queue],
{
    if s.messages.contains_key((log, h)) {
        assert(crate::store::message_log(s.messages[(log, h)]) == log);
    }
}

/// A deletion that was made leaves a message at the end of the local log of deletions that tells
/// of it, not deleted itself, and marks the messages of the range and no other; nothing is taken
/// away, and nothing else is changed.
pub proof fn law_deletion_effect(
    before: StoreView,
    after: StoreView,
    local: NodeView,
    topic: Seq<char>,
    origin: NodeView,
    from: u64,
    to: u64,
    marker: MessageView,
    l: LogView,
    h: u64,
)
    requires
        before.wf(),
        crate::service::was_deleted(before, after, local, topic, origin, from, to, marker),
        !before.heads.contains_key(LogView { topic: "$msgbus.delete"@, origin: local })
            || before.heads[LogView { topic: "$msgbus.delete"@, origin: local }] < u64::MAX,
    ensures
        ({
            let log = LogView { topic, origin };
            let control = LogView { topic: "$msgbus.delete"@, origin: local };
            &&& marker.topic == "$msgbus.delete"@
            &&& marker.origin == local
            &&& !marker.deleted
            &&& marker.headers == Map::<String, String>::empty()
            &&& marker.head_id == if before.heads.contains_key(control) {
                before.heads[control] + 1
            } else {
                1
            }
            &&& after.heads == before.heads.insert(control, marker.head_id)
            &&& after.messages.contains_key((control, marker.head_id))
            &&& after.messages[(control, marker.head_id)] == marker
            &&& before.messages.contains_key((l, h)) ==> {
                let was = before.messages[(l, h)];
                let is = after.messages[(l, h)];
                &&& after.messages.contains_key((l, h))
                &&& is.deleted == (was.deleted || l == log && from <= h <= to)
                &&& is.id == was.id && is.payload == was.payload && is.headers == was.headers
                &&& is.topic == was.topic && is.origin == was.origin && is.head_id == was.head_id
                &&& is.created_at_ms == was.created_at_ms
            }
            &&& after.messages.contains_key((l, h)) && !before.messages.contains_key((l, h)) ==> l
                == control && h == marker.head_id
            &&& after.tombstones.contains_key((log, from, to))
            &&& after.tombstones[(log, from, to)].topic == topic
            &&& after.tombstones[(log, from, to)].origin == origin
            &&& after.tombstones[(log, from, to)].from_head_id == from
            &&& after.tombstones[(log, from, to)].to_head_id == to
            &&& after.sequences == before.sequences && after.fifo == before.fifo && after.sync
                == before.sync
        }),
{
    let log = LogView { topic, origin };
    let control = LogView { topic: "$msgbus.delete"@, origin: local };
    let at = choose|at: u64|
        after == before.tombstoned(
            crate::keys::log_of(topic, origin),
            #[trigger] crate::store::tombstone_record(topic, origin, from, to, at),
        ).appended(marker);
    let record = crate::store::tombstone_record(topic, origin, from, to, at);
    let mid = before.tombstoned(log, record);
    law_tombstone_effect(before, log, record);
    law_append_effect(mid, marker);
    law_last_positions(before, control, topic);
    if before.messages.contains_key((l, h)) && (l, h) == (control, marker.head_id) {
        law_good_order(before, control, h, topic, 0);
    }
    assert(mid.messages.contains_key((l, h)) == before.messages.contains_key((l, h)));
    assert(before.messages.contains_key((l, h)) ==> (mid.messages[(l, h)].deleted == (
    before.messages[(l, h)].deleted || l == log && from <= h <= to)));
}

/// A message of a queue that was enqueued is at the back of its queue as it was sent, and the
/// answer shows it as it was sent.
pub proof fn law_enqueue_effect(
    before: StoreView,
    after: StoreView,
    asked: crate::message::NewFifoView,
    message: crate::wire::FifoMessageView,
)
    requires
        crate::service::was_enqueued(before, after, asked, message),
        !before.sequences.contains_key(asked.queue) || before.sequences[asked.queue] < u64::MAX,
    ensures
        ({
            let n = message.sequence;
            let there = after.fifo[(asked.queue, n)];
            &&& crate::ids::is_random_id(asked.id)
            &&& n == if before.sequences.contains_key(asked.queue) {
                before.sequences[asked.queue] + 1
            } else {
                1
            }
            &&& after.sequences == before.sequences.insert(asked.queue, n)
            &&& after.fifo == before.fifo.insert((asked.queue, n), there)
            &&& there.id == asked.id && there.queue == asked.queue && there.topic == asked.topic
            &&& there.source == asked.source && there.target == asked.target
            &&& there.payload == asked.payload && there.headers == asked.headers
            &&& there.sequence == n && there.attempts == 0
            &&& message.id == asked.id && message.queue == asked.queue && message.topic
                == asked.topic
            &&& message.source == Some(asked.source) && message.target == Some(asked.target)
            &&& message.payload == asked.payload && message.headers == asked.headers
            &&& message.attempts == 0
            &&& there.created_at_ms == message.created_at_ms
            &&& after.heads == before.heads && after.messages == before.messages
                && after.tombstones == before.tombstones && after.sync == before.sync
        }),
{
}

} // verus!

//! What the rows of the tables stand for.

use vstd::prelude::*;

use crate::keys::LogView;
use crate::message::FifoView;
use crate::message::MessageView;
use crate::message::SyncStateView;
use crate::message::TombstoneView;
use crate::message::TopicHeadView;
use crate::store::StoreView;

verus! {

/// The last positions by their logs.
pub open spec fn heads_of(rows: Map<Seq<char>, u64>) -> Map<LogView, u64> {
    Map::new(
        |log: LogView| rows.contains_key(crate::keys::head_key_text(log)),
        |log: LogView| rows[crate::keys::head_key_text(log)],
    )
}

/// The messages of the logs by their positions.
pub open spec fn messages_of(rows: Map<Seq<char>, MessageView>) -> Map<
    (LogView, u64),
    MessageView,
> {
    Map::new(
        |p: (LogView, u64)| rows.contains_key(crate::keys::message_key_text(p.0, p.1)),
        |p: (LogView, u64)| rows[crate::keys::message_key_text(p.0, p.1)],
    )
}

/// The deleted ranges by their places.
pub open spec fn tombstones_of(rows: Map<Seq<char>, TombstoneView>) -> Map<
    (LogView, u64, u64),
    TombstoneView,
> {
    Map::new(
        |p: (LogView, u64, u64)|
            rows.contains_key(crate::keys::tombstone_key_text(p.0, p.1, p.2)),
        |p: (LogView, u64, u64)| rows[crate::keys::tombstone_key_text(p.0, p.1, p.2)],
    )
}

/// The last numbers by their queues.
pub open spec fn sequences_of(rows: Map<Seq<char>, u64>) -> Map<Seq<char>, u64> {
    Map::new(
        |q: Seq<char>| rows.contains_key(crate::keys::fifo_sequence_key_text(q)),
        |q: Seq<char>| rows[crate::keys::fifo_sequence_key_text(q)],
    )
}

/// The messages of the queues by their numbers.
pub open spec fn fifo_of(rows: Map<Seq<char>, FifoView>) -> Map<(Seq<char>, u64), FifoView> {
    Map::new(
        |p: (Seq<char>, u64)| rows.contains_key(crate::keys::fifo_message_key_text(p.0, p.1)),
        |p: (Seq<char>, u64)| rows[crate::keys::fifo_message_key_text(p.0, p.1)],
    )
}

/// What is known of logs at peers.
pub open spec fn sync_of(rows: Map<Seq<char>, SyncStateView>) -> Map<
    (Seq<char>, LogView),
    SyncStateView,
> {
    Map::new(
        |p: (Seq<char>, LogView)| rows.contains_key(crate::keys::sync_key_text(p.0, p.1)),
        |p: (Seq<char>, LogView)| rows[crate::keys::sync_key_text(p.0, p.1)],
    )
}

/// The key under which a message belongs.
pub open spec fn own_message_key(m: MessageView) -> Seq<char> {
    crate::keys::message_key_text(crate::store::message_log(m), m.head_id)
}

/// The key under which a message of a queue belongs.
pub open spec fn own_fifo_key(m: FifoView) -> Seq<char> {
    crate::keys::fifo_message_key_text(m.queue, m.sequence)
}

/// The key under which a state belongs.
pub open spec fn own_sync_key(s: SyncStateView) -> Seq<char> {
    crate::keys::sync_key_text(s.peer, crate::keys::log_of(s.topic, s.origin))
}

/// Each message stands under its own key.
pub open spec fn messages_keyed(rows: Map<Seq<char>, MessageView>) -> bool {
    forall|k: Seq<char>| #[trigger] rows.contains_key(k) ==> k == own_message_key(rows[k])
}

/// Each message of a queue stands under its own key.
pub open spec fn fifo_keyed(rows: Map<Seq<char>, FifoView>) -> bool {
    forall|k: Seq<char>| #[trigger] rows.contains_key(k) ==> k == own_fifo_key(rows[k])
}

/// Each state stands under its own key.
pub open spec fn sync_keyed(rows: Map<Seq<char>, SyncStateView>) -> bool {
    forall|k: Seq<char>| #[trigger] rows.contains_key(k) ==> k == own_sync_key(rows[k])
}

/// Each last position stands under the key of a log, and the message there is one of that log.
pub open spec fn heads_keyed(
    heads: Map<Seq<char>, u64>,
    messages: Map<Seq<char>, MessageView>,
) -> bool {
    forall|k: Seq<char>| #[trigger]
        heads.contains_key(k) ==> {
            let at = crate::engine::message_key_of_head(k, heads[k]);
            messages.contains_key(at) && k == crate::keys::head_key_text(
                crate::store::message_log(messages[at]),
            )
        }
}

/// A row for the last position of a log is that last position.
pub proof fn lemma_heads_insert(rows: Map<Seq<char>, u64>, log: LogView, head: u64)
    ensures
        heads_of(rows.insert(crate::keys::head_key_text(log), head)) == heads_of(rows).insert(
            log,
            head,
        ),
{
    let a = heads_of(rows.insert(crate::keys::head_key_text(log), head));
    let b = heads_of(rows).insert(log, head);
    assert forall|l: LogView| #[trigger] a.contains_key(l) == b.contains_key(l) && (a.contains_key(
        l,
    ) ==> a[l] == b[l]) by {
        crate::keys::lemma_head_key_injective(l, log);
    }
    crate::table::lemma_same_rows(a, b);
}

/// A row for a position of a log is the message there.
pub proof fn lemma_messages_insert(
    rows: Map<Seq<char>, MessageView>,
    log: LogView,
    h: u64,
    m: MessageView,
)
    ensures
        messages_of(rows.insert(crate::keys::message_key_text(log, h), m)) == messages_of(
            rows,
        ).insert((log, h), m),
{
    let a = messages_of(rows.insert(crate::keys::message_key_text(log, h), m));
    let b = messages_of(rows).insert((log, h), m);
    assert forall|p: (LogView, u64)| #[trigger]
        a.contains_key(p) == b.contains_key(p) && (a.contains_key(p) ==> a[p] == b[p]) by {
        crate::keys::lemma_message_key_identifies(p.0, p.1, log, h);
    }
    crate::table::lemma_same_rows(a, b);
}

/// A row for a deleted range is that range.
pub proof fn lemma_tombstones_insert(
    rows: Map<Seq<char>, TombstoneView>,
    log: LogView,
    from: u64,
    to: u64,
    t: TombstoneView,
)
    ensures
        tombstones_of(rows.insert(crate::keys::tombstone_key_text(log, from, to), t))
            == tombstones_of(rows).insert((log, from, to), t),
{
    let a = tombstones_of(rows.insert(crate::keys::tombstone_key_text(log, from, to), t));
    let b = tombstones_of(rows).insert((log, from, to), t);
    assert forall|p: (LogView, u64, u64)| #[trigger]
        a.contains_key(p) == b.contains_key(p) && (a.contains_key(p) ==> a[p] == b[p]) by {
        crate::keys::lemma_tombstone_key_identifies(p.0, p.1, p.2, log, from, to);
    }
    crate::table::lemma_same_rows(a, b);
}

/// A row for the last number of a queue is that number.
pub proof fn lemma_sequences_insert(rows: Map<Seq<char>, u64>, queue: Seq<char>, s: u64)
    ensures
        sequences_of(rows.insert(crate::keys::fifo_sequence_key_text(queue), s)) == sequences_of(
            rows,
        ).insert(queue, s),
{
    let a = sequences_of(rows.insert(crate::keys::fifo_sequence_key_text(queue), s));
    let b = sequences_of(rows).insert(queue, s);
    assert forall|q: Seq<char>| #[trigger]
        a.contains_key(q) == b.contains_key(q) && (a.contains_key(q) ==> a[q] == b[q]) by {
        crate::keys::lemma_fifo_sequence_key_injective(q, queue);
    }
    crate::table::lemma_same_rows(a, b);
}

/// A row for a number of a queue is the message there.
pub proof fn lemma_fifo_insert(
    rows: Map<Seq<char>, FifoView>,
    queue: Seq<char>,
    s: u64,
    m: FifoView,
)
    ensures
        fifo_of(rows.insert(crate::keys::fifo_message_key_text(queue, s), m)) == fifo_of(
            rows,
        ).insert((queue, s), m),
        fifo_of(rows.remove(crate::keys::fifo_message_key_text(queue, s))) == fifo_of(rows).remove(
            (queue, s),
        ),
{
    let a = fifo_of(rows.insert(crate::keys::fifo_message_key_text(queue, s), m));
    let b = fifo_of(rows).insert((queue, s), m);
    let c = fifo_of(rows.remove(crate::keys::fifo_message_key_text(queue, s)));
    let d = fifo_of(rows).remove((queue, s));
    assert forall|p: (Seq<char>, u64)| #[trigger]
        a.contains_key(p) == b.contains_key(p) && (a.contains_key(p) ==> a[p] == b[p]) by {
        crate::keys::lemma_fifo_key_identifies(p.0, p.1, queue, s);
    }
    assert forall|p: (Seq<char>, u64)| #[trigger]
        c.contains_key(p) == d.contains_key(p) && (c.contains_key(p) ==> c[p] == d[p]) by {
        crate::keys::lemma_fifo_key_identifies(p.0, p.1, queue, s);
    }
    crate::table::lemma_same_rows(a, b);
    crate::table::lemma_same_rows(c, d);
}

/// A row for a log at a peer is what is known of the log.
pub proof fn lemma_sync_insert(
    rows: Map<Seq<char>, SyncStateView>,
    peer: Seq<char>,
    log: LogView,
    s: SyncStateView,
)
    ensures
        sync_of(rows.insert(crate::keys::sync_key_text(peer, log), s)) == sync_of(rows).insert(
            (peer, log),
            s,
        ),
{
    let a = sync_of(rows.insert(crate::keys::sync_key_text(peer, log), s));
    let b = sync_of(rows).insert((peer, log), s);
    assert forall|p: (Seq<char>, LogView)| #[trigger]
        a.contains_key(p) == b.contains_key(p) && (a.contains_key(p) ==> a[p] == b[p]) by {
        crate::keys::lemma_sync_key_identifies(p.0, p.1, peer, log);
    }
    crate::table::lemma_same_rows(a, b);
}

/// The keys of a range are those of the positions of the range.
pub proof fn lemma_in_range(log: LogView, from: u64, to: u64, other: LogView, h: u64)
    ensures
        crate::engine::in_range(log, from, to, crate::keys::message_key_text(other, h)) == (other
            == log && from <= h <= to),
{
    let k = crate::keys::message_key_text(other, h);
    crate::keys::lemma_message_key_identifies(log, from, other, h);
    if other == log {
        crate::keys::lemma_message_keys_ordered(log, from, h);
        crate::keys::lemma_message_keys_ordered(log, h, from);
        crate::keys::lemma_message_keys_ordered(log, h, to);
        crate::keys::lemma_message_keys_ordered(log, to, h);
    }
}

/// To mark a range of rows is to mark the positions of the range.
pub proof fn lemma_messages_marked(
    rows: Map<Seq<char>, MessageView>,
    log: LogView,
    from: u64,
    to: u64,
)
    requires
        messages_keyed(rows),
    ensures
        messages_of(crate::engine::marked(rows, log, from, to)) == Map::new(
            |p: (LogView, u64)| messages_of(rows).contains_key(p),
            |p: (LogView, u64)|
                if p.0 == log && from <= p.1 <= to {
                    messages_of(rows)[p].with_deleted(true)
                } else {
                    messages_of(rows)[p]
                },
        ),
        messages_keyed(crate::engine::marked(rows, log, from, to)),
{
    let a = messages_of(crate::engine::marked(rows, log, from, to));
    let b = Map::new(
        |p: (LogView, u64)| messages_of(rows).contains_key(p),
        |p: (LogView, u64)|
            if p.0 == log && from <= p.1 <= to {
                messages_of(rows)[p].with_deleted(true)
            } else {
                messages_of(rows)[p]
            },
    );
    assert forall|p: (LogView, u64)| #[trigger]
        a.contains_key(p) == b.contains_key(p) && (a.contains_key(p) ==> a[p] == b[p]) by {
        lemma_in_range(log, from, to, p.0, p.1);
    }
    crate::table::lemma_same_rows(a, b);
}

/// As many rows of a range are live as positions.
pub proof fn lemma_live_count(
    state: StoreView,
    rows: Map<Seq<char>, MessageView>,
    log: LogView,
    from: u64,
    to: u64,
)
    requires
        messages_keyed(rows),
        state.messages == messages_of(rows),
        crate::engine::live_keys(rows, log, from, to).finite(),
    ensures
        state.live(log, from, to).finite(),
        state.live(log, from, to).len() == crate::engine::live_keys(rows, log, from, to).len(),
{
    let keys = crate::engine::live_keys(rows, log, from, to);
    let live = state.live(log, from, to);
    let f = |k: Seq<char>| rows[k].head_id;
    assert forall|k: Seq<char>| keys.contains(k) implies live.contains(#[trigger] f(k))
        && crate::keys::message_key_text(log, f(k)) == k by {
        let m = rows[k];
        assert(rows.contains_key(k));
        lemma_in_range(log, from, to, crate::store::message_log(m), m.head_id);
    }
    assert forall|h: u64| live.contains(h) implies keys.contains(
        #[trigger] crate::keys::message_key_text(log, h),
    ) && f(crate::keys::message_key_text(log, h)) == h by {
        let k = crate::keys::message_key_text(log, h);
        lemma_in_range(log, from, to, log, h);
        assert(rows.contains_key(k));
        crate::keys::lemma_message_key_identifies(
            log,
            h,
            crate::store::message_log(rows[k]),
            rows[k].head_id,
        );
    }
    assert(live =~= keys.map(f)) by {
        assert forall|h: u64| live.contains(h) implies keys.map(f).contains(h) by {
            let k = crate::keys::message_key_text(log, h);
            assert(keys.contains(k) && f(k) == h);
        }
    }
    vstd::set_lib::lemma_map_size(keys, live, f);
}

/// A walk over the rows of a log gives a page of the log.
pub proof fn lemma_walk_is_page(
    state: StoreView,
    rows: Map<Seq<char>, MessageView>,
    log: LogView,
    from: u64,
    limit: usize,
    met: Seq<(Seq<char>, MessageView)>,
)
    requires
        messages_keyed(rows),
        state.messages == messages_of(rows),
        crate::engine::is_walk(
            rows,
            crate::keys::message_key_text(log, from),
            crate::keys::message_prefix_text(log),
            None,
            Some(limit),
            met,
        ),
    ensures
        state.is_page(log, from, limit as nat, crate::engine::without_keys(met)),
{
    let start = crate::keys::message_key_text(log, from);
    let prefix = crate::keys::message_prefix_text(log);
    let out = crate::engine::without_keys(met);
    assert forall|i: int| 0 <= i < met.len() implies {
        &&& (#[trigger] met[i]).0 == crate::keys::message_key_text(log, met[i].1.head_id)
        &&& from <= met[i].1.head_id
    } by {
        let m = met[i].1;
        assert(rows.contains_key(met[i].0));
        crate::keys::lemma_message_key_identifies(
            log,
            from,
            crate::store::message_log(m),
            m.head_id,
        );
        crate::keys::lemma_message_keys_ordered(log, from, m.head_id);
    }
    assert forall|i: int| 0 <= i < out.len() implies {
        &&& state.messages.contains_key((log, (#[trigger] out[i]).head_id))
        &&& out[i] == state.messages[(log, out[i].head_id)]
        &&& from <= out[i].head_id
    } by {
        assert(out[i] == met[i].1);
    }
    assert forall|i: int, j: int| 0 <= i < j < out.len() implies (#[trigger] out[i]).head_id < (
    #[trigger] out[j]).head_id by {
        assert(out[i] == met[i].1 && out[j] == met[j].1);
        crate::keys::lemma_message_keys_ordered(log, met[i].1.head_id, met[j].1.head_id);
    }
    assert forall|h: u64| #[trigger] state.messages.contains_key((log, h)) && from <= h implies {
        ||| exists|i: int| 0 <= i < out.len() && (#[trigger] out[i]).head_id == h
        ||| out.len() == limit && out.len() > 0 && out.last().head_id < h
    } by {
        let k = crate::keys::message_key_text(log, h);
        crate::keys::lemma_message_key_identifies(log, from, log, h);
        crate::keys::lemma_message_keys_ordered(log, from, h);
        assert(rows.contains_key(k));
        assert(crate::engine::in_walk(start, prefix, None, k));
        if exists|i: int| 0 <= i < met.len() && (#[trigger] met[i]).0 == k {
            let i = choose|i: int| 0 <= i < met.len() && (#[trigger] met[i]).0 == k;
            crate::keys::lemma_message_keys_ordered(log, met[i].1.head_id, h);
            assert(out[i].head_id == h);
        } else {
            let last = met.last();
            assert(last == met[met.len() - 1]);
            assert(out.last() == last.1);
            crate::keys::lemma_message_keys_ordered(log, last.1.head_id, h);
        }
    }
}

/// The front row of a queue is its front message.
pub proof fn lemma_front(
    state: StoreView,
    rows: Map<Seq<char>, FifoView>,
    queue: Seq<char>,
    k: Seq<char>,
)
    requires
        fifo_keyed(rows),
        state.fifo == fifo_of(rows),
        crate::engine::is_front_key(rows, queue, k),
    ensures
        k == crate::keys::fifo_message_key_text(queue, rows[k].sequence),
        state.is_front(queue, rows[k].sequence),
        state.fifo[(queue, rows[k].sequence)] == rows[k],
{
    let m = rows[k];
    crate::keys::lemma_fifo_key_identifies(queue, 0, m.queue, m.sequence);
    assert forall|other: u64| #[trigger] state.fifo.contains_key((queue, other)) implies m.sequence
        <= other by {
        let o = crate::keys::fifo_message_key_text(queue, other);
        crate::keys::lemma_fifo_key_identifies(queue, 0, queue, other);
        assert(rows.contains_key(o));
        crate::keys::lemma_fifo_keys_ordered(queue, m.sequence, other);
    }
}

/// Where no row of a queue is there, the queue is empty.
pub proof fn lemma_no_front(state: StoreView, rows: Map<Seq<char>, FifoView>, queue: Seq<char>)
    requires
        state.fifo == fifo_of(rows),
        crate::engine::no_front_key(rows, queue),
    ensures
        state.queue_empty(queue),
{
    assert forall|s: u64| !#[trigger] state.fifo.contains_key((queue, s)) by {
        crate::keys::lemma_fifo_key_identifies(queue, 0, queue, s);
        assert(!rows.contains_key(crate::keys::fifo_message_key_text(queue, s)));
    }
}

/// The message at the last position of a log stands under its own key.
pub proof fn lemma_message_key_of_head(log: LogView, head: u64)
    ensures
        crate::engine::message_key_of_head(crate::keys::head_key_text(log), head)
            == crate::keys::message_key_text(log, head),
{
    reveal_strlit("head/");
    let k = crate::keys::head_key_text(log);
    assert(k.skip(5) =~= crate::keys::log_text(log));
    assert(crate::engine::message_key_of_head(k, head) =~= crate::keys::message_key_text(
        log,
        head,
    ));
}

/// A walk over all last positions lists them.
pub proof fn lemma_walk_lists_heads(
    state: StoreView,
    heads: Map<Seq<char>, u64>,
    messages: Map<Seq<char>, MessageView>,
    met: Seq<(Seq<char>, u64)>,
    out: Seq<TopicHeadView>,
)
    requires
        heads_keyed(heads, messages),
        state.heads == heads_of(heads),
        crate::engine::is_walk(heads, "head/"@, "head/"@, None, None, met),
        out.len() == met.len(),
        forall|i: int|
            0 <= i < met.len() ==> crate::engine::names_head(
                messages,
                met[i],
                #[trigger] out[i],
            ),
    ensures
        state.lists_heads(out),
{
    assert forall|i: int| 0 <= i < out.len() implies (#[trigger] met[i]).0
        == crate::keys::head_key_text(crate::store::head_log(out[i])) && met[i].1 == out[i].head_id
        && heads.contains_key(met[i].0) && heads[met[i].0] == met[i].1 by {
        assert(crate::engine::names_head(messages, met[i], out[i]));
        let at = crate::engine::message_key_of_head(met[i].0, met[i].1);
        assert(messages.contains_key(at));
    }
    assert forall|i: int| 0 <= i < out.len() implies state.heads.contains_key(
        crate::store::head_log(#[trigger] out[i]),
    ) && state.heads[crate::store::head_log(out[i])] == out[i].head_id by {
        assert(heads.contains_key(met[i].0));
    }
    assert forall|i: int, j: int| 0 <= i < j < out.len() implies crate::store::head_log(
        #[trigger] out[i],
    ) != crate::store::head_log(#[trigger] out[j]) by {
        assert(crate::text::text_lt(met[i].0, met[j].0));
        crate::text::lemma_text_lt_irreflexive(met[i].0);
    }
    assert forall|log: LogView| #[trigger] state.heads.contains_key(log) implies exists|i: int|
        0 <= i < out.len() && crate::store::head_log(#[trigger] out[i]) == log by {
        let k = crate::keys::head_key_text(log);
        assert(heads.contains_key(k));
        lemma_tag_prefix("head/"@, crate::keys::log_text(log));
        let i = choose|i: int| 0 <= i < met.len() && (#[trigger] met[i]).0 == k;
        crate::keys::lemma_head_key_injective(crate::store::head_log(out[i]), log);
    }
}

/// What starts with a tag comes behind it.
pub proof fn lemma_tag_prefix(tag: Seq<char>, rest: Seq<char>)
    ensures
        crate::text::starts_with(tag + rest, tag),
        crate::text::text_le(tag, tag + rest),
{
    assert((tag + rest).take(tag.len() as int) =~= tag);
    if rest.len() == 0 {
        assert(tag + rest =~= tag);
    } else {
        assert(crate::text::parts_below(tag, tag + rest, tag.len() as int));
    }
}

/// A walk over all states lists them.
pub proof fn lemma_walk_lists_sync(
    state: StoreView,
    rows: Map<Seq<char>, SyncStateView>,
    met: Seq<(Seq<char>, SyncStateView)>,
)
    requires
        sync_keyed(rows),
        state.sync == sync_of(rows),
        crate::engine::is_walk(rows, "sync/"@, "sync/"@, None, None, met),
    ensures
        state.lists_sync(crate::engine::without_keys(met)),
{
    let out = crate::engine::without_keys(met);
    assert forall|i: int| 0 <= i < out.len() implies {
        let p = crate::store::sync_place(#[trigger] out[i]);
        &&& met[i].0 == crate::keys::sync_key_text(p.0, p.1)
        &&& state.sync.contains_key(p)
        &&& state.sync[p] == out[i]
    } by {
        assert(rows.contains_key(met[i].0));
    }
    assert forall|i: int, j: int| 0 <= i < j < out.len() implies crate::store::sync_place(
        #[trigger] out[i],
    ) != crate::store::sync_place(#[trigger] out[j]) by {
        assert(crate::text::text_lt(met[i].0, met[j].0));
        crate::text::lemma_text_lt_irreflexive(met[i].0);
    }
    assert forall|p: (Seq<char>, LogView)| #[trigger] state.sync.contains_key(p) implies exists|
        i: int,
    | 0 <= i < out.len() && crate::store::sync_place(#[trigger] out[i]) == p by {
        let k = crate::keys::sync_key_text(p.0, p.1);
        assert(rows.contains_key(k));
        let rest = crate::keys::key_text(p.0) + seq!['/'] + crate::keys::log_text(p.1);
        assert(k =~= "sync/"@ + rest);
        lemma_tag_prefix("sync/"@, rest);
        let i = choose|i: int| 0 <= i < met.len() && (#[trigger] met[i]).0 == k;
        let q = crate::store::sync_place(out[i]);
        crate::keys::lemma_sync_key_identifies(q.0, q.1, p.0, p.1);
    }
}

/// The rows of the six tables.
pub struct TablesView {
    pub heads: Map<Seq<char>, u64>,
    pub messages: Map<Seq<char>, MessageView>,
    pub tombstones: Map<Seq<char>, TombstoneView>,
    pub sequences: Map<Seq<char>, u64>,
    pub fifo: Map<Seq<char>, FifoView>,
    pub sync: Map<Seq<char>, SyncStateView>,
}

impl TablesView {
    /// The store that the tables stand for.
    pub open spec fn state(self) -> StoreView {
        StoreView {
            heads: heads_of(self.heads),
            messages: messages_of(self.messages),
            tombstones: tombstones_of(self.tombstones),
            sequences: sequences_of(self.sequences),
            fifo: fifo_of(self.fifo),
            sync: sync_of(self.sync),
        }
    }

    /// Each row stands under its own key, and the store is in good order.
    pub open spec fn in_order(self) -> bool {
        &&& messages_keyed(self.messages)
        &&& fifo_keyed(self.fifo)
        &&& sync_keyed(self.sync)
        &&& heads_keyed(self.heads, self.messages)
        &&& self.state().wf()
    }

    /// With the message `m` in its row, and `head` as the last position of its log.
    pub open spec fn with_message(self, m: MessageView, head: u64) -> TablesView {
        let log = crate::store::message_log(m);
        TablesView {
            heads: self.heads.insert(crate::keys::head_key_text(log), head),
            messages: self.messages.insert(crate::keys::message_key_text(log, m.head_id), m),
            ..self
        }
    }

    /// With the rows of a range marked as deleted, and a row for the range.
    pub open spec fn with_range(self, log: LogView, record: TombstoneView) -> TablesView {
        let from = record.from_head_id;
        let to = record.to_head_id;
        TablesView {
            messages: crate::engine::marked(self.messages, log, from, to),
            tombstones: self.tombstones.insert(
                crate::keys::tombstone_key_text(log, from, to),
                record,
            ),
            ..self
        }
    }

    /// With the message `m` in its row, and its number as the last one of its queue.
    pub open spec fn with_queued(self, m: FifoView) -> TablesView {
        TablesView {
            sequences: self.sequences.insert(
                crate::keys::fifo_sequence_key_text(m.queue),
                m.sequence,
            ),
            fifo: self.fifo.insert(
                crate::keys::fifo_message_key_text(m.queue, m.sequence),
                m,
            ),
            ..self
        }
    }
}

/// Empty tables stand for the store that holds nothing.
pub proof fn law_empty_tables(t: TablesView)
    requires
        t.heads == Map::<Seq<char>, u64>::empty(),
        t.messages == Map::<Seq<char>, MessageView>::empty(),
        t.tombstones == Map::<Seq<char>, TombstoneView>::empty(),
        t.sequences == Map::<Seq<char>, u64>::empty(),
        t.fifo == Map::<Seq<char>, FifoView>::empty(),
        t.sync == Map::<Seq<char>, SyncStateView>::empty(),
    ensures
        t.in_order(),
        t.state() == StoreView::empty(),
{
    assert(t.state().heads =~= StoreView::empty().heads);
    assert(t.state().messages =~= StoreView::empty().messages);
    assert(t.state().tombstones =~= StoreView::empty().tombstones);
    assert(t.state().sequences =~= StoreView::empty().sequences);
    assert(t.state().fifo =~= StoreView::empty().fifo);
    assert(t.state().sync =~= StoreView::empty().sync);
}

/// To write a message into its row keeps each last position at a message of its log.
proof fn lemma_heads_keyed_insert(
    heads: Map<Seq<char>, u64>,
    messages: Map<Seq<char>, MessageView>,
    m: MessageView,
    head: u64,
)
    requires
        heads_keyed(heads, messages),
        messages_keyed(messages),
        head == m.head_id || heads.contains_key(
            crate::keys::head_key_text(crate::store::message_log(m)),
        ) && heads[crate::keys::head_key_text(crate::store::message_log(m))] == head,
    ensures
        heads_keyed(
            heads.insert(crate::keys::head_key_text(crate::store::message_log(m)), head),
            messages.insert(own_message_key(m), m),
        ),
        messages_keyed(messages.insert(own_message_key(m), m)),
{
    let log = crate::store::message_log(m);
    let key = crate::keys::head_key_text(log);
    let own = own_message_key(m);
    let new_heads = heads.insert(key, head);
    let new_messages = messages.insert(own, m);
    lemma_message_key_of_head(log, head);
    assert forall|k: Seq<char>| #[trigger] new_heads.contains_key(k) implies {
        let at = crate::engine::message_key_of_head(k, new_heads[k]);
        new_messages.contains_key(at) && k == crate::keys::head_key_text(
            crate::store::message_log(new_messages[at]),
        )
    } by {
        let at = crate::engine::message_key_of_head(k, new_heads[k]);
        if k == key && head == m.head_id {
            assert(at == own);
        } else {
            assert(heads.contains_key(k) && heads[k] == new_heads[k]);
            let there = crate::store::message_log(messages[at]);
            lemma_message_key_of_head(there, heads[k]);
            crate::keys::lemma_message_key_identifies(there, heads[k], log, m.head_id);
        }
    }
}

/// The row that the next message of a log is written into, with the row of its last position, is
/// that message at the end of the log.
pub proof fn law_append_rows(t: TablesView, m: MessageView)
    requires
        t.in_order(),
        m.head_id == crate::ids::after(
            crate::engine::head_in(t.heads, crate::store::message_log(m)),
        ),
    ensures
        t.with_message(m, m.head_id).in_order(),
        t.with_message(m, m.head_id).state() == t.state().appended(m),
        crate::engine::head_in(t.heads, crate::store::message_log(m)) == t.state().head_of(
            crate::store::message_log(m),
        ),
{
    let log = crate::store::message_log(m);
    lemma_heads_insert(t.heads, log, m.head_id);
    lemma_messages_insert(t.messages, log, m.head_id, m);
    lemma_heads_keyed_insert(t.heads, t.messages, m, m.head_id);
    crate::laws::law_append_keeps_wf(t.state(), m);
}

/// The row that a message of a peer is written into, with the row of the last position of its log,
/// is that message at its place.
pub proof fn law_replicate_rows(t: TablesView, m: MessageView)
    requires
        t.in_order(),
        !t.messages.contains_key(own_message_key(m)),
    ensures
        ({
            let log = crate::store::message_log(m);
            let head = t.state().replicated(m).heads[log];
            &&& t.with_message(m, head).in_order()
            &&& t.with_message(m, head).state() == t.state().replicated(m)
            &&& !t.state().messages.contains_key((log, m.head_id))
        }),
{
    let log = crate::store::message_log(m);
    let head = t.state().replicated(m).heads[log];
    lemma_heads_insert(t.heads, log, head);
    lemma_messages_insert(t.messages, log, m.head_id, m);
    lemma_heads_keyed_insert(t.heads, t.messages, m, head);
    crate::laws::law_replicate_keeps_wf(t.state(), m);
}

/// To mark the rows of a range, and to write a row for it, is to mark the range; and as many rows
/// were live as messages.
pub proof fn law_tombstone_rows(t: TablesView, log: LogView, record: TombstoneView)
    requires
        t.in_order(),
        crate::engine::live_keys(
            t.messages,
            log,
            record.from_head_id,
            record.to_head_id,
        ).finite(),
    ensures
        t.with_range(log, record).in_order(),
        t.with_range(log, record).state() == t.state().tombstoned(log, record),
        t.state().live(log, record.from_head_id, record.to_head_id).finite(),
        t.state().live(log, record.from_head_id, record.to_head_id).len()
            == crate::engine::live_keys(
            t.messages,
            log,
            record.from_head_id,
            record.to_head_id,
        ).len(),
{
    let from = record.from_head_id;
    let to = record.to_head_id;
    lemma_messages_marked(t.messages, log, from, to);
    assert(messages_of(crate::engine::marked(t.messages, log, from, to)) =~= t.state().tombstoned(
        log,
        record,
    ).messages);
    lemma_tombstones_insert(t.tombstones, log, from, to, record);
    lemma_live_count(t.state(), t.messages, log, from, to);
    crate::laws::law_tombstone_keeps_wf(t.state(), log, record);
}

/// The row that the next message of a queue is written into, with the row of its last number, is
/// that message at the back of the queue.
pub proof fn law_enqueue_rows(t: TablesView, m: FifoView)
    requires
        t.in_order(),
        m.sequence == crate::ids::after(crate::engine::sequence_in(t.sequences, m.queue)),
    ensures
        t.with_queued(m).in_order(),
        t.with_queued(m).state() == t.state().enqueued(m),
        crate::engine::sequence_in(t.sequences, m.queue) == t.state().sequence_of(m.queue),
{
    lemma_sequences_insert(t.sequences, m.queue, m.sequence);
    lemma_fifo_insert(t.fifo, m.queue, m.sequence, m);
    crate::laws::law_enqueue_keeps_wf(t.state(), m);
}

/// To take the front row of a queue away, or to count one more attempt in it, is to do so with the
/// front message.
pub proof fn law_front_rows(t: TablesView, queue: Seq<char>, k: Seq<char>)
    requires
        t.in_order(),
        crate::engine::is_front_key(t.fifo, queue, k),
    ensures
        ({
            let n = t.fifo[k].sequence;
            let acked = TablesView { fifo: t.fifo.remove(k), ..t };
            let rejected = TablesView { fifo: t.fifo.insert(k, t.fifo[k].attempted()), ..t };
            &&& t.state().is_front(queue, n)
            &&& t.state().fifo[(queue, n)] == t.fifo[k]
            &&& acked.in_order()
            &&& acked.state() == t.state().acked(queue, n)
            &&& rejected.in_order()
            &&& rejected.state() == t.state().rejected(queue, n)
        }),
{
    let n = t.fifo[k].sequence;
    lemma_front(t.state(), t.fifo, queue, k);
    lemma_fifo_insert(t.fifo, queue, n, t.fifo[k].attempted());
    crate::laws::law_front_update_keeps_wf(t.state(), queue, n);
}

/// Where the front row of a queue is another one, or there is none, so it is with the message.
pub proof fn law_front_differs_rows(t: TablesView, queue: Seq<char>, id: Seq<char>)
    requires
        t.in_order(),
        crate::engine::no_front_key(t.fifo, queue) || exists|k: Seq<char>| #[trigger]
            crate::engine::is_front_key(t.fifo, queue, k) && t.fifo[k].id != id,
    ensures
        crate::store::front_differs(t.state(), queue, id),
{
    if crate::engine::no_front_key(t.fifo, queue) {
        lemma_no_front(t.state(), t.fifo, queue);
    } else {
        let k = choose|k: Seq<char>| #[trigger]
            crate::engine::is_front_key(t.fifo, queue, k) && t.fifo[k].id != id;
        lemma_front(t.state(), t.fifo, queue, k);
        assert(t.state().is_front(queue, t.fifo[k].sequence));
    }
}

/// The row of a state of a log at a peer is that state.
pub proof fn law_sync_rows(t: TablesView, s: SyncStateView)
    requires
        t.in_order(),
    ensures
        ({
            let written = TablesView { sync: t.sync.insert(own_sync_key(s), s), ..t };
            &&& written.in_order()
            &&& written.state() == t.state().with_sync(s)
        }),
{
    let p = crate::store::sync_place(s);
    lemma_sync_insert(t.sync, p.0, p.1, s);
    crate::laws::law_sync_state_keeps_wf(t.state(), s);
}

} // verus!

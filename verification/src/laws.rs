//! What holds of the messages of a store as they come and go.

use vstd::prelude::*;

use crate::keys::LogView;
use crate::message::FifoView;
use crate::message::MessageView;
use crate::message::SyncStateView;
use crate::message::TombstoneView;
use crate::store::StoreView;

verus! {

/// The empty store is in good order.
pub proof fn law_empty_store_wf()
    ensures
        StoreView::empty().wf(),
{
}

/// To append a message at the next position of its log keeps a store in good order.
pub proof fn law_append_keeps_wf(s: StoreView, m: MessageView)
    requires
        s.wf(),
        m.head_id == crate::ids::after(s.head_of(crate::store::message_log(m))),
    ensures
        s.appended(m).wf(),
{
}

/// To copy a message to a position that no message holds keeps a store in good order.
pub proof fn law_replicate_keeps_wf(s: StoreView, m: MessageView)
    requires
        s.wf(),
        !s.messages.contains_key((crate::store::message_log(m), m.head_id)),
    ensures
        s.replicated(m).wf(),
{
}

/// To mark a range as deleted keeps a store in good order.
pub proof fn law_tombstone_keeps_wf(s: StoreView, log: LogView, record: TombstoneView)
    requires
        s.wf(),
    ensures
        s.tombstoned(log, record).wf(),
{
}

/// To put a message at the back of its queue keeps a store in good order.
pub proof fn law_enqueue_keeps_wf(s: StoreView, m: FifoView)
    requires
        s.wf(),
        m.sequence == crate::ids::after(s.sequence_of(m.queue)),
    ensures
        s.enqueued(m).wf(),
{
}

/// To take the front message of a queue away, or to count one more attempt for it, keeps a store
/// in good order.
pub proof fn law_front_update_keeps_wf(s: StoreView, queue: Seq<char>, seq: u64)
    requires
        s.wf(),
        s.is_front(queue, seq),
    ensures
        s.acked(queue, seq).wf(),
        s.rejected(queue, seq).wf(),
{
}

/// To keep a state of a log at a peer keeps a store in good order.
pub proof fn law_sync_state_keeps_wf(s: StoreView, state: SyncStateView)
    requires
        s.wf(),
    ensures
        s.with_sync(state).wf(),
{
}

/// A message that was appended is at once the whole rest of its log from its position on.
pub proof fn law_append_reads_back(
    s: StoreView,
    m: MessageView,
    limit: nat,
    out: Seq<MessageView>,
)
    requires
        s.wf(),
        m.head_id == crate::ids::after(s.head_of(crate::store::message_log(m))),
        limit > 0,
        s.appended(m).is_page(crate::store::message_log(m), m.head_id, limit, out),
    ensures
        out == seq![m],
{
    let log = crate::store::message_log(m);
    let t = s.appended(m);
    assert(t.messages.contains_key((log, m.head_id)));
    if out.len() > 1 {
        assert(out[0].head_id < out[1].head_id);
        assert(t.messages.contains_key((log, out[1].head_id)));
        assert(s.messages.contains_key((log, out[1].head_id)));
    }
    assert(out.len() == 1);
    assert(t.messages.contains_key((log, out[0].head_id)));
    if out[0].head_id != m.head_id {
        assert(s.messages.contains_key((log, out[0].head_id)));
    }
    assert(out =~= seq![m]);
}

/// To append a message gives it the position behind the last one of its log, which no message held
/// (the first message stands at position one), and leaves every other message and every other log
/// as it was.
pub proof fn law_append_extends(s: StoreView, m: MessageView)
    requires
        s.wf(),
        s.head_of(crate::store::message_log(m)) < u64::MAX,
        m.head_id == crate::ids::after(s.head_of(crate::store::message_log(m))),
    ensures
        s.appended(m).head_of(crate::store::message_log(m)) == s.head_of(
            crate::store::message_log(m),
        ) + 1,
        !s.messages.contains_key((crate::store::message_log(m), m.head_id)),
        forall|p: (LogView, u64)| #[trigger]
            s.messages.contains_key(p) ==> s.appended(m).messages.contains_key(p) && s.appended(
                m,
            ).messages[p] == s.messages[p],
        forall|log: LogView|
            log != crate::store::message_log(m) ==> #[trigger] s.appended(m).head_of(log)
                == s.head_of(log),
        s.appended(m).tombstones == s.tombstones,
        s.appended(m).sequences == s.sequences,
        s.appended(m).fifo == s.fifo,
        s.appended(m).sync == s.sync,
{
}

/// No message leaves its place in a log, and no last position falls, when a message is appended,
/// when one is copied, and when a range is marked as deleted.
pub proof fn law_logs_only_grow(
    s: StoreView,
    m: MessageView,
    copy: MessageView,
    log: LogView,
    record: TombstoneView,
    other: LogView,
)
    requires
        m.head_id == crate::ids::after(s.head_of(crate::store::message_log(m))),
    ensures
        s.head_of(other) <= s.appended(m).head_of(other),
        s.head_of(other) <= s.replicated(copy).head_of(other),
        s.head_of(other) == s.tombstoned(log, record).head_of(other),
        s.messages.dom().subset_of(s.appended(m).messages.dom()),
        s.messages.dom().subset_of(s.replicated(copy).messages.dom()),
        s.messages.dom() == s.tombstoned(log, record).messages.dom(),
{
    assert(s.messages.dom() =~= s.tombstoned(log, record).messages.dom());
}

/// A log, a position and a size fix the page.
pub proof fn law_page_unique(
    s: StoreView,
    log: LogView,
    from: u64,
    limit: nat,
    a: Seq<MessageView>,
    b: Seq<MessageView>,
)
    requires
        s.is_page(log, from, limit, a),
        s.is_page(log, from, limit, b),
    ensures
        a == b,
{
    lemma_page_below(s, log, from, limit, a, b, a.len() as int);
    lemma_page_below(s, log, from, limit, b, a, b.len() as int);
    assert(a.take(a.len() as int) =~= a);
    assert(b.take(b.len() as int) =~= b);
    assert(a =~= b);
}

/// The first messages of a page are those of any other page with the same start and size.
proof fn lemma_page_below(
    s: StoreView,
    log: LogView,
    from: u64,
    limit: nat,
    a: Seq<MessageView>,
    b: Seq<MessageView>,
    n: int,
)
    requires
        s.is_page(log, from, limit, a),
        s.is_page(log, from, limit, b),
        0 <= n <= a.len(),
    ensures
        n <= b.len(),
        a.take(n) == b.take(n),
    decreases n,
{
    if n > 0 {
        lemma_page_below(s, log, from, limit, a, b, n - 1);
        let k = n - 1;
        let h = a[k].head_id;
        assert(s.messages.contains_key((log, h)));
        if b.len() < n {
            // The other page ends before this message, so it was cut short.
            if exists|i: int| 0 <= i < b.len() && (#[trigger] b[i]).head_id == h {
                let i = choose|i: int| 0 <= i < b.len() && (#[trigger] b[i]).head_id == h;
                assert(a.take(k)[i] == b.take(k)[i]);
                assert(a[i].head_id < a[k].head_id);
            }
            assert(false);
        }
        let g = b[k].head_id;
        assert(s.messages.contains_key((log, g)));
        assert(g == h) by {
            if exists|i: int| 0 <= i < b.len() && (#[trigger] b[i]).head_id == h {
                let i = choose|i: int| 0 <= i < b.len() && (#[trigger] b[i]).head_id == h;
                if i < k {
                    assert(a.take(k)[i] == b.take(k)[i]);
                    assert(a[i].head_id < a[k].head_id);
                }
                if k < i {
                    // Then a message of the other page is missing from this one.
                    assert(b[k].head_id < b[i].head_id);
                    if exists|j: int| 0 <= j < a.len() && (#[trigger] a[j]).head_id == g {
                        let j = choose|j: int| 0 <= j < a.len() && (#[trigger] a[j]).head_id == g;
                        if j < k {
                            assert(a.take(k)[j] == b.take(k)[j]);
                            assert(b[j].head_id < b[k].head_id);
                        } else if k < j {
                            assert(a[k].head_id < a[j].head_id);
                        }
                    } else {
                        assert(a.last() == a[a.len() - 1]);
                        if k < a.len() - 1 {
                            assert(a[k].head_id < a[a.len() - 1].head_id);
                        }
                    }
                }
            } else {
                // The other page is full and ends before this message.
                assert(b.last() == b[b.len() - 1]);
                if k < b.len() - 1 {
                    assert(b[k].head_id < b[b.len() - 1].head_id);
                }
                assert(g < h);
                if exists|j: int| 0 <= j < a.len() && (#[trigger] a[j]).head_id == g {
                    let j = choose|j: int| 0 <= j < a.len() && (#[trigger] a[j]).head_id == g;
                    if j < k {
                        assert(a.take(k)[j] == b.take(k)[j]);
                        assert(b[j].head_id < b[k].head_id);
                    } else if k < j {
                        assert(a[k].head_id < a[j].head_id);
                    }
                } else {
                    assert(a.last() == a[a.len() - 1]);
                    if k < a.len() - 1 {
                        assert(a[k].head_id < a[a.len() - 1].head_id);
                    }
                }
            }
        }
        assert(a[k] == b[k]);
        assert(a.take(n) =~= a.take(k).push(a[k]));
        assert(b.take(n) =~= b.take(k).push(b[k]));
    }
}

/// A page, followed by the page from behind its last message on, is one larger page: reading on
/// neither repeats nor loses a message, whether the first page is full or not.
pub proof fn law_pages_join(
    s: StoreView,
    log: LogView,
    from: u64,
    n: nat,
    m: nat,
    a: Seq<MessageView>,
    b: Seq<MessageView>,
)
    requires
        s.is_page(log, from, n, a),
        a.len() > 0,
        a.last().head_id < u64::MAX,
        s.is_page(log, (a.last().head_id + 1) as u64, m, b),
    ensures
        s.is_page(log, from, n + m, a + b),
{
    let c = a + b;
    let len = a.len() as int;
    let last = a.last().head_id;
    assert(a.last() == a[len - 1]);
    assert forall|i: int| 0 <= i < c.len() implies {
        &&& s.messages.contains_key((log, (#[trigger] c[i]).head_id))
        &&& c[i] == s.messages[(log, c[i].head_id)]
        &&& from <= c[i].head_id
    } by {
        if i < len {
            assert(c[i] == a[i]);
        } else {
            assert(c[i] == b[i - len]);
            assert(from <= a[len - 1].head_id);
        }
    }
    assert forall|i: int, j: int| 0 <= i < j < c.len() implies (#[trigger] c[i]).head_id < (
    #[trigger] c[j]).head_id by {
        if j < len {
            assert(c[i] == a[i] && c[j] == a[j]);
        } else {
            assert(c[j] == b[j - len]);
            if i < len {
                assert(c[i] == a[i]);
                if i < len - 1 {
                    assert(a[i].head_id < a[len - 1].head_id);
                }
            } else {
                assert(c[i] == b[i - len]);
            }
        }
    }
    assert forall|h: u64| #[trigger] s.messages.contains_key((log, h)) && from <= h implies {
        ||| exists|i: int| 0 <= i < c.len() && (#[trigger] c[i]).head_id == h
        ||| c.len() == n + m && c.len() > 0 && c.last().head_id < h
    } by {
        if exists|i: int| 0 <= i < a.len() && (#[trigger] a[i]).head_id == h {
            let i = choose|i: int| 0 <= i < a.len() && (#[trigger] a[i]).head_id == h;
            assert(c[i].head_id == h);
        } else {
            assert(last < h) by {
                if h <= last {
                    assert(a.last() == a[len - 1]);
                }
            }
            if exists|i: int| 0 <= i < b.len() && (#[trigger] b[i]).head_id == h {
                let i = choose|i: int| 0 <= i < b.len() && (#[trigger] b[i]).head_id == h;
                assert(c[len + i].head_id == h);
            } else {
                assert(c.last() == b.last());
            }
        }
    }
}

/// Reading on joins: a fetch of `j` messages that gives some, followed by a fetch of `k` messages
/// from behind the last of them, gives what one fetch of `j + k` messages gives.
pub proof fn law_fetches_join(
    s: StoreView,
    log: LogView,
    from: u64,
    j: u32,
    k: u32,
    a: Seq<MessageView>,
    b: Seq<MessageView>,
    all: Seq<MessageView>,
)
    requires
        1 <= j,
        1 <= k,
        j + k <= 10_000,
        s.is_page(log, from, crate::engine::page_size(j), a),
        a.len() > 0,
        a.last().head_id < u64::MAX,
        s.is_page(
            log,
            crate::ids::after(a.last().head_id),
            crate::engine::page_size(k),
            b,
        ),
        s.is_page(log, from, crate::engine::page_size((j + k) as u32), all),
    ensures
        all == a + b,
{
    law_pages_join(
        s,
        log,
        from,
        crate::engine::page_size(j),
        crate::engine::page_size(k),
        a,
        b,
    );
    law_page_unique(s, log, from, crate::engine::page_size((j + k) as u32), all, a + b);
}

/// A page that is not full ends with the last message of its log.
pub proof fn law_short_page_is_the_rest(
    s: StoreView,
    log: LogView,
    from: u64,
    limit: nat,
    out: Seq<MessageView>,
)
    requires
        s.wf(),
        s.is_page(log, from, limit, out),
        out.len() < limit,
        s.heads.contains_key(log),
        from <= s.heads[log],
    ensures
        out.len() > 0,
        out.last().head_id == s.heads[log],
{
    let head = s.heads[log];
    assert(s.messages.contains_key((log, head)));
    let i = choose|i: int| 0 <= i < out.len() && (#[trigger] out[i]).head_id == head;
    let last = out.len() - 1;
    assert(s.messages.contains_key((log, out[last].head_id)));
    if i < last {
        assert(out[i].head_id < out[last].head_id);
    }
}

/// To mark a range deletes the messages of the range, and changes neither another message nor
/// any last position.
pub proof fn law_tombstone_marks_the_range(
    s: StoreView,
    log: LogView,
    record: TombstoneView,
    p: (LogView, u64),
)
    requires
        s.messages.contains_key(p),
    ensures
        s.tombstoned(log, record).heads == s.heads,
        s.tombstoned(log, record).messages.contains_key(p),
        s.tombstoned(log, record).messages[p] == if p.0 == log && record.from_head_id <= p.1
            <= record.to_head_id {
            s.messages[p].with_deleted(true)
        } else {
            s.messages[p]
        },
{
}

/// A range that is marked a second time has no message left to delete.
pub proof fn law_second_tombstone_finds_nothing(
    s: StoreView,
    log: LogView,
    record: TombstoneView,
    from: u64,
    to: u64,
)
    requires
        record.from_head_id <= from,
        to <= record.to_head_id,
    ensures
        s.tombstoned(log, record).live(log, from, to) == Set::<u64>::empty(),
        s.tombstoned(log, record).live(log, from, to).len() == 0,
        s.tombstoned(log, record).tombstoned(log, record) == s.tombstoned(log, record),
{
    let once = s.tombstoned(log, record);
    let twice = once.tombstoned(log, record);
    assert(once.live(log, from, to) =~= Set::<u64>::empty());
    assert forall|p: (LogView, u64)| #[trigger]
        twice.messages.contains_key(p) == once.messages.contains_key(p) && (
    twice.messages.contains_key(p) ==> twice.messages[p] == once.messages[p]) by {}
    crate::table::lemma_same_rows(twice.messages, once.messages);
    assert(twice.tombstones =~= once.tombstones);
}

/// Two messages of different places can be copied in either order.
pub proof fn law_replication_commutes(s: StoreView, a: MessageView, b: MessageView)
    requires
        (crate::store::message_log(a), a.head_id) != (crate::store::message_log(b), b.head_id),
    ensures
        s.replicated(a).replicated(b) == s.replicated(b).replicated(a),
{
    let x = s.replicated(a).replicated(b);
    let y = s.replicated(b).replicated(a);
    assert(x.heads =~= y.heads);
    assert(x.messages =~= y.messages);
}

/// A message that was copied is at its place, and a second copy finds it there.
pub proof fn law_replicated_is_present(s: StoreView, m: MessageView)
    ensures
        s.replicated(m).messages.contains_key((crate::store::message_log(m), m.head_id)),
        s.replicated(m).messages[(crate::store::message_log(m), m.head_id)] == m,
        s.replicated(m).head_of(crate::store::message_log(m)) >= m.head_id,
        s.replicated(m).replicated(m) == s.replicated(m),
{
    let once = s.replicated(m);
    let twice = once.replicated(m);
    assert(twice.heads =~= once.heads);
    assert(twice.messages =~= once.messages);
}

/// A message at the back of a queue leaves the front message in front, and becomes the front
/// message of an empty queue.
pub proof fn law_fifo_enqueue(s: StoreView, m: FifoView, front: u64)
    requires
        s.wf(),
        m.sequence == crate::ids::after(s.sequence_of(m.queue)),
    ensures
        s.is_front(m.queue, front) ==> s.enqueued(m).is_front(m.queue, front),
        s.queue_empty(m.queue) ==> s.enqueued(m).is_front(m.queue, m.sequence),
        s.enqueued(m).fifo[(m.queue, m.sequence)] == m,
        s.sequence_of(m.queue) < u64::MAX ==> forall|p: (Seq<char>, u64)| #[trigger]
            s.fifo.contains_key(p) ==> s.enqueued(m).fifo.contains_key(p) && s.enqueued(m).fifo[p]
                == s.fifo[p],
{
    let t = s.enqueued(m);
    if s.is_front(m.queue, front) {
        assert(s.fifo.contains_key((m.queue, front)));
        assert forall|other: u64| #[trigger] t.fifo.contains_key((m.queue, other)) implies front
            <= other by {
            if other != m.sequence {
                assert(s.fifo.contains_key((m.queue, other)));
            }
        }
    }
    if s.queue_empty(m.queue) {
        assert forall|other: u64| #[trigger] t.fifo.contains_key((m.queue, other)) implies m.sequence
            <= other by {
            if other != m.sequence {
                assert(s.fifo.contains_key((m.queue, other)));
            }
        }
    }
}

/// Messages leave a queue in the order in which they came: behind the front message, when it is
/// taken away, comes the one that came next.
pub proof fn law_fifo_order(s: StoreView, queue: Seq<char>, front: u64, next: u64)
    requires
        s.is_front(queue, front),
    ensures
        s.acked(queue, front).is_front(queue, next) <==> {
            &&& s.fifo.contains_key((queue, next))
            &&& front < next
            &&& forall|other: u64| #[trigger]
                s.fifo.contains_key((queue, other)) && front < other ==> next <= other
        },
        s.acked(queue, front).queue_empty(queue) <==> forall|other: u64| #[trigger]
            s.fifo.contains_key((queue, other)) ==> other == front,
        !s.acked(queue, front).fifo.contains_key((queue, front)),
        s.acked(queue, front).sequences == s.sequences,
{
    let t = s.acked(queue, front);
    assert forall|other: u64| #[trigger] s.fifo.contains_key((queue, other)) implies other == front
        || t.fifo.contains_key((queue, other)) by {}
    assert forall|other: u64| #[trigger] t.fifo.contains_key((queue, other)) implies other != front
        && s.fifo.contains_key((queue, other)) by {}
}

/// A queue has one front message at most.
pub proof fn law_fifo_front_unique(s: StoreView, queue: Seq<char>, a: u64, b: u64)
    requires
        s.is_front(queue, a),
        s.is_front(queue, b),
    ensures
        a == b,
        !s.queue_empty(queue),
{
}

/// To reject the front message leaves it in front, with one more attempt, and changes no other
/// message.
pub proof fn law_fifo_reject_keeps_front(s: StoreView, queue: Seq<char>, front: u64)
    requires
        s.is_front(queue, front),
    ensures
        s.rejected(queue, front).is_front(queue, front),
        s.fifo[(queue, front)].attempts < u32::MAX ==> s.rejected(queue, front).fifo[(
            queue,
            front,
        )].attempts == s.fifo[(queue, front)].attempts + 1,
        s.rejected(queue, front).fifo[(queue, front)].id == s.fifo[(queue, front)].id,
        forall|p: (Seq<char>, u64)|
            p != (queue, front) ==> #[trigger] s.rejected(queue, front).fifo.contains_key(p)
                == s.fifo.contains_key(p) && s.rejected(queue, front).fifo[p] == s.fifo[p],
{
    let t = s.rejected(queue, front);
    assert forall|other: u64| #[trigger] t.fifo.contains_key((queue, other)) implies front
        <= other by {
        assert(s.fifo.contains_key((queue, other)));
    }
}

/// What happens in one queue is not seen in another.
pub proof fn law_queues_apart(s: StoreView, m: FifoView, front: u64, queue: Seq<char>, n: u64)
    requires
        m.queue != queue,
    ensures
        s.enqueued(m).is_front(queue, n) == s.is_front(queue, n),
        s.acked(m.queue, front).is_front(queue, n) == s.is_front(queue, n),
        s.rejected(m.queue, front).is_front(queue, n) == s.is_front(queue, n),
{
    assert forall|other: u64| s.enqueued(m).fifo.contains_key((queue, other)) == (
    #[trigger] s.fifo.contains_key((queue, other))) by {}
    assert forall|other: u64| s.acked(m.queue, front).fifo.contains_key((queue, other)) == (
    #[trigger] s.fifo.contains_key((queue, other))) by {}
    assert forall|other: u64| s.rejected(m.queue, front).fifo.contains_key((queue, other)) == (
    #[trigger] s.fifo.contains_key((queue, other))) by {}
}

/// Messages of a page, those of a range marked as deleted.
pub open spec fn marked_page(page: Seq<MessageView>, from: u64, to: u64) -> Seq<MessageView> {
    page.map_values(
        |m: MessageView|
            if from <= m.head_id <= to {
                m.with_deleted(true)
            } else {
                m
            },
    )
}

/// Deletion keeps the order of a log: a page that is read after a range was marked as deleted has
/// the messages that it had before, at the same positions, with those of the range marked.
pub proof fn law_deletion_keeps_the_order(
    s: StoreView,
    log: LogView,
    record: TombstoneView,
    from: u64,
    limit: nat,
    before: Seq<MessageView>,
    after: Seq<MessageView>,
)
    requires
        s.is_page(log, from, limit, before),
        s.tombstoned(log, record).is_page(log, from, limit, after),
    ensures
        after == marked_page(before, record.from_head_id, record.to_head_id),
{
    let t = s.tombstoned(log, record);
    let marked = marked_page(before, record.from_head_id, record.to_head_id);
    assert(marked.len() == before.len());
    assert forall|i: int| 0 <= i < marked.len() implies {
        &&& t.messages.contains_key((log, (#[trigger] marked[i]).head_id))
        &&& marked[i] == t.messages[(log, marked[i].head_id)]
        &&& from <= marked[i].head_id
    } by {
        assert(marked[i].head_id == before[i].head_id);
        assert(s.messages.contains_key((log, before[i].head_id)));
    }
    assert forall|i: int, j: int| 0 <= i < j < marked.len() implies (#[trigger] marked[i]).head_id
        < (#[trigger] marked[j]).head_id by {
        assert(before[i].head_id < before[j].head_id);
    }
    assert forall|h: u64| #[trigger] t.messages.contains_key((log, h)) && from <= h implies {
        ||| exists|i: int| 0 <= i < marked.len() && (#[trigger] marked[i]).head_id == h
        ||| marked.len() == limit && marked.len() > 0 && marked.last().head_id < h
    } by {
        assert(s.messages.contains_key((log, h)));
        if exists|i: int| 0 <= i < before.len() && (#[trigger] before[i]).head_id == h {
            let i = choose|i: int| 0 <= i < before.len() && (#[trigger] before[i]).head_id == h;
            assert(marked[i].head_id == h);
        } else {
            let last = before.len() - 1;
            assert(before.last() == before[last]);
            assert(marked.last() == marked[last]);
        }
    }
    law_page_unique(t, log, from, limit, after, marked);
}

} // verus!

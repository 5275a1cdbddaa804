//! What one round of copying from a peer leaves to the next.

use vstd::prelude::*;

use crate::keys::LogView;
use crate::message::MessageView;
use crate::message::StoredMessage;
use crate::message::TombstoneRange;
use crate::message::TopicHeadView;
use crate::status::StatusView;
use crate::store::MsgbusStore;
use crate::store::StoreView;
use crate::sync::LogSyncView;
use crate::sync::RoundView;
use crate::sync::SyncAction;
use crate::wire::MessageEnvelope;
use crate::wire::WireHeadView;

verus! {

/// A peer names no log twice among `heads`.
pub open spec fn names_each_once(heads: Seq<WireHeadView>) -> bool {
    forall|i: int, j: int|
        0 <= i < j < heads.len() ==> (#[trigger] heads[i]).topic != (#[trigger] heads[j]).topic
            || heads[i].origin != heads[j].origin
}

/// A daemon names each of its logs once.
pub proof fn law_daemon_names_each_once(s: StoreView, listed: Seq<TopicHeadView>)
    requires
        s.lists_heads(listed),
    ensures
        names_each_once(crate::service::wire_heads_of(listed)),
{
    let heads = crate::service::wire_heads_of(listed);
    assert forall|i: int, j: int| 0 <= i < j < heads.len() implies (#[trigger] heads[i]).topic != (
    #[trigger] heads[j]).topic || heads[i].origin != heads[j].origin by {
        assert(crate::store::head_log(listed[i]) != crate::store::head_log(listed[j]));
    }
}

/// A batch of `log` that is the last one brought the log to the position that the peer named.
pub open spec fn brings_all(log: LogSyncView) -> bool {
    log.batch_ended().behind() || log.head.head_id <= log.local_head
}

/// The log `v` after the messages of a page were copied.
pub open spec fn counted_all(v: LogSyncView, page: Seq<MessageView>) -> LogSyncView
    decreases page.len(),
{
    if page.len() == 0 {
        v
    } else {
        counted_all(v, page.drop_last()).counted(page.last().head_id)
    }
}

proof fn lemma_counted_all(v: LogSyncView, page: Seq<MessageView>)
    ensures
        ({
            let after = counted_all(v, page);
            &&& after.head == v.head
            &&& after.batch_start == v.batch_start
            &&& after.stalled == v.stalled
            &&& after.local_head >= v.local_head
            &&& page.len() > 0 ==> after.fetched > 0 && after.local_head >= page.last().head_id
        }),
    decreases page.len(),
{
    if page.len() > 0 {
        lemma_counted_all(v, page.drop_last());
    }
}

/// A peer that holds the log up to the position that it named gives it up to there: a batch that
/// is the page of its log that was asked for is not the last one, or brings all.
pub proof fn law_unchanged_peer_brings_all(
    remote: StoreView,
    v: LogSyncView,
    limit: nat,
    page: Seq<MessageView>,
)
    requires
        remote.wf(),
        v.behind(),
        v.head.head_id <= remote.head_of(crate::store::head_log(v.head)),
        limit > 0,
        remote.is_page(
            crate::store::head_log(v.head),
            (v.local_head + 1) as u64,
            limit,
            page,
        ),
    ensures
        brings_all(counted_all(v.batch_begun(), page)),
{
    let log = crate::store::head_log(v.head);
    lemma_counted_all(v.batch_begun(), page);
    let last = remote.heads[log];
    assert(remote.messages.contains_key((log, last)));
    assert(page.len() > 0);
    assert(page[page.len() - 1].head_id >= v.local_head + 1);
}

/// One step of a round that goes well: an answer to a fetch, or the end of a batch, where a peer
/// gives its logs up to the positions that it named.
pub open spec fn steps_to<
    S: MsgbusStore,
    F: Fn(&Vec<u8>) -> Result<TombstoneRange, String>,
>(
    a: RoundView,
    b: RoundView,
    peer: Seq<char>,
    batch_limit: u32,
    decode: F,
) -> bool {
    match a.current {
        None => false,
        Some(log) => {
            ||| takes_answer::<S, F>(a, log, b, peer, decode)
            ||| brings_all(log) && ends_batch::<S>(a, log, b, peer, batch_limit)
        },
    }
}

/// An answer to a fetch was taken, as [`crate::sync::PeerSync::on_answer`] does.
pub open spec fn takes_answer<
    S: MsgbusStore,
    F: Fn(&Vec<u8>) -> Result<TombstoneRange, String>,
>(
    a: RoundView,
    log: LogSyncView,
    b: RoundView,
    peer: Seq<char>,
    decode: F,
) -> bool {
    &&& b.waiting == a.waiting
    &&& b.current is Some
    &&& exists|envelope: Option<MessageEnvelope>, res: SyncAction| #[trigger]
        crate::sync::answered::<S, F>(
            a.state,
            b.state,
            peer,
            log,
            b.current->0,
            envelope,
            decode,
            res,
        ) && !(res is Fail)
}

/// A batch was ended, as [`crate::sync::PeerSync::on_batch_end`] does.
pub open spec fn ends_batch<S: MsgbusStore>(
    a: RoundView,
    log: LogSyncView,
    b: RoundView,
    peer: Seq<char>,
    batch_limit: u32,
) -> bool {
    exists|res: SyncAction| #[trigger]
        crate::sync::batch_left::<S>(a, log, peer, batch_limit, b, res) && !(res is Fail)
}

/// The logs `heads` were taken from a peer, as [`crate::sync::PeerSync::on_heads`] does.
pub open spec fn takes_heads<S: MsgbusStore>(
    before: StoreView,
    peer: Seq<char>,
    batch_limit: u32,
    heads: Seq<WireHeadView>,
    after: RoundView,
) -> bool {
    exists|res: SyncAction| #[trigger]
        crate::sync::advanced::<S>(before, peer, batch_limit, heads, after, res) && !(
        res is Fail)
}

/// `rounds` is a round against a peer with the logs `heads`, step by step, to its end.
pub open spec fn is_round<
    S: MsgbusStore,
    F: Fn(&Vec<u8>) -> Result<TombstoneRange, String>,
>(
    before: StoreView,
    peer: Seq<char>,
    batch_limit: u32,
    decode: F,
    heads: Seq<WireHeadView>,
    rounds: Seq<RoundView>,
) -> bool {
    &&& rounds.len() > 0
    &&& takes_heads::<S>(before, peer, batch_limit, heads, rounds[0])
    &&& forall|i: int|
        0 <= i < rounds.len() - 1 ==> steps_to::<S, F>(
            #[trigger] rounds[i],
            rounds[i + 1],
            peer,
            batch_limit,
            decode,
        )
    &&& rounds.last().current is None
}

/// The log `head` of `peer` is copied, and the store `s` keeps that it is.
pub open spec fn is_settled(s: StoreView, peer: Seq<char>, head: WireHeadView) -> bool {
    match crate::wire::topic_head_of(head) {
        Err(_) => false,
        Ok(h) => {
            let log = crate::store::head_log(h);
            &&& h.head_id <= s.head_of(log)
            &&& s.sync.contains_key((peer, log))
            &&& s.sync[(peer, log)] == crate::sync::synced_state(
                crate::sync::opened(h, s.head_of(log)),
                peer,
            )
        },
    }
}

/// The first `n` of the logs `heads` of `peer` are copied, and the store `s` keeps that they are.
pub open spec fn settled(
    s: StoreView,
    peer: Seq<char>,
    heads: Seq<WireHeadView>,
    n: int,
) -> bool {
    forall|i: int| 0 <= i < n ==> is_settled(s, peer, #[trigger] heads[i])
}

/// A round has dealt with the first `n` of the logs `heads`, and the next one is under way, if any
/// is left.
spec fn is_at(r: RoundView, peer: Seq<char>, heads: Seq<WireHeadView>, n: int) -> bool {
    &&& r.state.wf()
    &&& 0 <= n <= heads.len()
    &&& settled(r.state, peer, heads, n)
    &&& match r.current {
        None => n == heads.len(),
        Some(log) => {
            &&& n < heads.len()
            &&& r.waiting == heads.skip(n + 1)
            &&& crate::wire::topic_head_of(heads[n]) == Ok::<TopicHeadView, StatusView>(log.head)
            &&& log.local_head == r.state.head_of(crate::store::head_log(log.head))
        },
    }
}

/// To keep of a log that it is copied settles it, and unsettles none of the logs before it.
proof fn lemma_record_settles(s: StoreView, peer: Seq<char>, heads: Seq<WireHeadView>, n: int)
    requires
        s.wf(),
        names_each_once(heads),
        0 <= n < heads.len(),
        settled(s, peer, heads, n),
        crate::wire::topic_head_of(heads[n]) is Ok,
        (crate::wire::topic_head_of(heads[n])->Ok_0).head_id <= s.head_of(
            crate::store::head_log(crate::wire::topic_head_of(heads[n])->Ok_0),
        ),
    ensures
        ({
            let h = crate::wire::topic_head_of(heads[n])->Ok_0;
            let next = s.with_sync(
                crate::sync::synced_state(
                    crate::sync::opened(h, s.head_of(crate::store::head_log(h))),
                    peer,
                ),
            );
            &&& next.wf()
            &&& settled(next, peer, heads, n + 1)
            &&& next.heads == s.heads
        }),
{
    let h = crate::wire::topic_head_of(heads[n])->Ok_0;
    let state = crate::sync::synced_state(
        crate::sync::opened(h, s.head_of(crate::store::head_log(h))),
        peer,
    );
    let next = s.with_sync(state);
    crate::laws::law_sync_state_keeps_wf(s, state);
    assert forall|i: int| 0 <= i < n + 1 implies is_settled(next, peer, #[trigger] heads[i]) by {
        if i < n {
            assert(is_settled(s, peer, heads[i]));
            assert(heads[i].topic != heads[n].topic || heads[i].origin != heads[n].origin);
        }
    }
}

/// To keep of the logs from `lo` to `hi` that they are copied settles them.
proof fn lemma_recorded_settles(
    s: StoreView,
    peer: Seq<char>,
    heads: Seq<WireHeadView>,
    lo: int,
    hi: int,
)
    requires
        s.wf(),
        names_each_once(heads),
        0 <= lo <= hi <= heads.len(),
        settled(s, peer, heads, lo),
        crate::sync::caught_up(s, heads.subrange(lo, hi)),
    ensures
        ({
            let after = crate::sync::recorded(s, peer, heads.subrange(lo, hi));
            &&& after.wf()
            &&& after.heads == s.heads
            &&& settled(after, peer, heads, hi)
        }),
    decreases hi - lo,
{
    let part = heads.subrange(lo, hi);
    if lo < hi {
        let shorter = heads.subrange(lo, hi - 1);
        assert(part.drop_last() =~= shorter);
        assert(part.last() == heads[hi - 1]);
        assert(crate::sync::caught_up(s, shorter)) by {
            assert forall|i: int| 0 <= i < shorter.len() implies (crate::wire::topic_head_of(
                #[trigger] shorter[i],
            ) matches Ok(h) && h.head_id <= s.head_of(crate::store::head_log(h))) by {
                assert(shorter[i] == part[i]);
            }
        }
        lemma_recorded_settles(s, peer, heads, lo, hi - 1);
        assert(part[hi - 1 - lo] == heads[hi - 1]);
        lemma_record_settles(crate::sync::recorded(s, peer, shorter), peer, heads, hi - 1);
    }
}

/// Looking for the next log leads from one place in a round to another.
proof fn lemma_heads_lead_on<S: MsgbusStore>(
    s: StoreView,
    peer: Seq<char>,
    batch_limit: u32,
    heads: Seq<WireHeadView>,
    n: int,
    b: RoundView,
    res: SyncAction,
)
    requires
        s.wf(),
        names_each_once(heads),
        0 <= n <= heads.len(),
        settled(s, peer, heads, n),
        crate::sync::advanced::<S>(s, peer, batch_limit, heads.skip(n), b, res),
        !(res is Fail),
    ensures
        exists|m: int| is_at(b, peer, heads, m),
{
    let rest = heads.skip(n);
    if res is Done {
        assert(rest =~= heads.subrange(n, heads.len() as int));
        lemma_recorded_settles(s, peer, heads, n, heads.len() as int);
        assert(is_at(b, peer, heads, heads.len() as int));
    } else {
        let (k, v) = choose|k: int, v: LogSyncView| #[trigger]
            crate::sync::first_behind(s, rest, k, v) && b == crate::sync::advanced_to(
                s,
                peer,
                rest,
                k,
                v,
            );
        assert(rest.take(k) =~= heads.subrange(n, n + k));
        assert(rest.skip(k + 1) =~= heads.skip(n + k + 1));
        assert(rest[k] == heads[n + k]);
        lemma_recorded_settles(s, peer, heads, n, n + k);
        assert(b.state.head_of(crate::store::head_log(v.head)) == s.head_of(
            crate::store::head_log(v.head),
        ));
        assert(is_at(b, peer, heads, n + k));
    }
}

/// A message that is taken changes no log but its own, and nothing that is known of logs.
proof fn lemma_took_keeps(before: StoreView, m: MessageView, after: StoreView)
    requires
        before.wf(),
        crate::sync::took(before, m, after),
    ensures
        after.wf(),
        after.sync == before.sync,
        forall|log: LogView|
            log != crate::store::message_log(m) ==> #[trigger] after.head_of(log)
                == before.head_of(log),
{
    let mid = crate::sync::copied(before, m);
    if !before.messages.contains_key((crate::store::message_log(m), m.head_id)) {
        crate::laws::law_replicate_keeps_wf(before, m);
    }
    if after != mid {
        let (log, record) = choose|log: LogView, record: crate::message::TombstoneView|
            after == #[trigger] mid.tombstoned(log, record);
        crate::laws::law_tombstone_keeps_wf(mid, log, record);
    }
}

/// A step leads from one place in a round to the same or a later one.
proof fn lemma_step_leads_on<
    S: MsgbusStore,
    F: Fn(&Vec<u8>) -> Result<TombstoneRange, String>,
>(
    a: RoundView,
    b: RoundView,
    peer: Seq<char>,
    batch_limit: u32,
    decode: F,
    heads: Seq<WireHeadView>,
    n: int,
)
    requires
        names_each_once(heads),
        is_at(a, peer, heads, n),
        steps_to::<S, F>(a, b, peer, batch_limit, decode),
    ensures
        exists|m: int| is_at(b, peer, heads, m),
{
    let log = a.current->0;
    let own = crate::store::head_log(log.head);
    if takes_answer::<S, F>(a, log, b, peer, decode) {
        let next = b.current->0;
        let (envelope, res) = choose|envelope: Option<MessageEnvelope>, res: SyncAction|
            #[trigger] crate::sync::answered::<S, F>(
                a.state,
                b.state,
                peer,
                log,
                next,
                envelope,
                decode,
                res,
            ) && !(res is Fail);
        if envelope is Some {
            let m = crate::wire::message_of((envelope->0)@)->Ok_0;
            let inserted: Option<StoredMessage> = match res {
                SyncAction::Publish(message) => Some(message),
                _ => None,
            };
            crate::sync::law_received_is_taken::<S, F>(a.state, b.state, decode, m, inserted);
            crate::sync::law_count_follows_the_store(a.state, b.state, log, m);
            lemma_took_keeps(a.state, m, b.state);
            assert(own == crate::store::message_log(m));
            assert forall|i: int| 0 <= i < n implies is_settled(
                b.state,
                peer,
                #[trigger] heads[i],
            ) by {
                assert(is_settled(a.state, peer, heads[i]));
                assert(heads[i].topic != heads[n].topic || heads[i].origin != heads[n].origin);
            }
        }
        assert(is_at(b, peer, heads, n));
    } else {
        let res = choose|res: SyncAction| #[trigger]
            crate::sync::batch_left::<S>(a, log, peer, batch_limit, b, res) && !(res is Fail);
        let ended = log.batch_ended();
        if ended.behind() {
            assert(is_at(b, peer, heads, n));
        } else {
            let s = a.state.with_sync(crate::sync::synced_state(ended, peer));
            lemma_record_settles(a.state, peer, heads, n);
            assert(crate::sync::synced_state(ended, peer) == crate::sync::synced_state(
                crate::sync::opened(log.head, a.state.head_of(own)),
                peer,
            ));
            lemma_heads_lead_on::<S>(s, peer, batch_limit, heads, n + 1, b, res);
        }
    }
}

proof fn lemma_round_so_far<
    S: MsgbusStore,
    F: Fn(&Vec<u8>) -> Result<TombstoneRange, String>,
>(
    before: StoreView,
    peer: Seq<char>,
    batch_limit: u32,
    decode: F,
    heads: Seq<WireHeadView>,
    rounds: Seq<RoundView>,
    i: int,
)
    requires
        before.wf(),
        names_each_once(heads),
        is_round::<S, F>(before, peer, batch_limit, decode, heads, rounds),
        0 <= i < rounds.len(),
    ensures
        exists|n: int| is_at(rounds[i], peer, heads, n),
    decreases i,
{
    if i == 0 {
        let res = choose|res: SyncAction| #[trigger]
            crate::sync::advanced::<S>(before, peer, batch_limit, heads, rounds[0], res) && !(
            res is Fail);
        assert(heads.skip(0) =~= heads);
        lemma_heads_lead_on::<S>(before, peer, batch_limit, heads, 0, rounds[0], res);
    } else {
        lemma_round_so_far::<S, F>(before, peer, batch_limit, decode, heads, rounds, i - 1);
        let at = rounds[i - 1];
        let n = choose|n: int| is_at(at, peer, heads, n);
        assert(steps_to::<S, F>(rounds[i - 1], rounds[i - 1 + 1], peer, batch_limit, decode));
        lemma_step_leads_on::<S, F>(
            rounds[i - 1],
            rounds[i],
            peer,
            batch_limit,
            decode,
            heads,
            n,
        );
    }
}

/// After a round against a peer that gave its logs up to the positions that it named, the store
/// has all the logs of the peer, and keeps of each that it has.
pub proof fn law_round_copies_all<
    S: MsgbusStore,
    F: Fn(&Vec<u8>) -> Result<TombstoneRange, String>,
>(
    before: StoreView,
    peer: Seq<char>,
    batch_limit: u32,
    decode: F,
    heads: Seq<WireHeadView>,
    rounds: Seq<RoundView>,
)
    requires
        before.wf(),
        names_each_once(heads),
        is_round::<S, F>(before, peer, batch_limit, decode, heads, rounds),
    ensures
        crate::sync::caught_up(rounds.last().state, heads),
        settled(rounds.last().state, peer, heads, heads.len() as int),
        rounds.last().state.wf(),
{
    let last = rounds.len() - 1;
    lemma_round_so_far::<S, F>(before, peer, batch_limit, decode, heads, rounds, last);
    let n = choose|n: int| is_at(rounds[last], peer, heads, n);
    let s = rounds.last().state;
    assert(rounds.last() == rounds[last]);
    assert forall|i: int| 0 <= i < heads.len() implies (crate::wire::topic_head_of(
        #[trigger] heads[i],
    ) matches Ok(h) && h.head_id <= s.head_of(crate::store::head_log(h))) by {
        assert(is_settled(s, peer, heads[i]));
    }
}

/// To keep of settled logs that they are copied changes nothing.
proof fn lemma_recorded_again(s: StoreView, peer: Seq<char>, heads: Seq<WireHeadView>, n: int)
    requires
        0 <= n <= heads.len(),
        settled(s, peer, heads, n),
    ensures
        crate::sync::recorded(s, peer, heads.take(n)) == s,
    decreases n,
{
    if n > 0 {
        lemma_recorded_again(s, peer, heads, n - 1);
        assert(heads.take(n).drop_last() =~= heads.take(n - 1));
        assert(heads.take(n).last() == heads[n - 1]);
        assert(is_settled(s, peer, heads[n - 1]));
        let h = crate::wire::topic_head_of(heads[n - 1])->Ok_0;
        let place = (peer, crate::store::head_log(h));
        assert(s.sync.insert(place, s.sync[place]) =~= s.sync);
    }
}

/// A second round against a peer that did not change asks it for no messages and leaves the store
/// as it is: after a round in which the peer gave its logs up to the positions that it named, and
/// with the same positions named again, nothing is fetched, copied, deleted or sent to
/// subscriptions, and what is known of the logs stays as well.
pub proof fn law_second_round_changes_nothing<
    S: MsgbusStore,
    F: Fn(&Vec<u8>) -> Result<TombstoneRange, String>,
>(
    before: StoreView,
    peer: Seq<char>,
    batch_limit: u32,
    decode: F,
    heads: Seq<WireHeadView>,
    rounds: Seq<RoundView>,
    again: RoundView,
    res: SyncAction,
)
    requires
        before.wf(),
        names_each_once(heads),
        is_round::<S, F>(before, peer, batch_limit, decode, heads, rounds),
        crate::sync::advanced::<S>(
            rounds.last().state,
            peer,
            batch_limit,
            heads,
            again,
            res,
        ),
    ensures
        again.state == rounds.last().state,
        again.current is None,
        S::reliable() ==> res is Done,
        res is Done || res is Fail,
{
    let s = rounds.last().state;
    law_round_copies_all::<S, F>(before, peer, batch_limit, decode, heads, rounds);
    assert forall|k: int| 0 <= k <= heads.len() implies crate::sync::recorded(
        s,
        peer,
        #[trigger] heads.take(k),
    ) == s by {
        lemma_recorded_again(s, peer, heads, k);
    }
    assert(heads.take(heads.len() as int) =~= heads);
    assert(forall|k: int| 0 <= k < heads.len() ==> is_settled(s, peer, #[trigger] heads[k]));
}

} // verus!

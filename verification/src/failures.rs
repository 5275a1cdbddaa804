//! Whose error comes out where a table fails: always the one that the table itself gave for the step
//! that was made on it.

use vstd::prelude::*;

use crate::engine::FifoFrontAction;
use crate::error::ErrorView;
use crate::error::MsgbusError;
use crate::keys::LogView;
use crate::message::FifoView;
use crate::message::MessageView;
use crate::message::NewFifoView;
use crate::message::NewMessageView;
use crate::message::StoredFifoMessage;
use crate::message::StoredMessage;
use crate::message::TombstoneRange;
use crate::message::TombstoneView;
use crate::store::MsgbusStore;
use crate::sync::SyncError;
use crate::table::OrderedTable;
use crate::table::Row;

verus! {

/// A read that failed was made on the table, for the key, and the error is the table's; a walk fails
/// at its start or behind one of its rows.
pub proof fn law_failed_reads<V: Row, T: OrderedTable<V>>(
    table: &T,
    key: Seq<char>,
    past: bool,
    prefix: Seq<char>,
    end: Option<Seq<char>>,
    e: ErrorView,
)
    ensures
        crate::table::get_failed::<V, T>(table, key, e) ==> !T::reliable() && exists|
            k: &str,
            error: MsgbusError,
        | #[trigger]
            call_ensures(T::get, (table, k), Err::<Option<V>, MsgbusError>(error)) && k@ == key
                && error@ == e,
        crate::table::seek_failed::<V, T>(table, key, past, e) ==> !T::reliable() && exists|
            k: &str,
            error: MsgbusError,
        | #[trigger]
            call_ensures(T::seek, (table, k, past), Err::<Option<(String, V)>, MsgbusError>(error))
                && k@ == key && error@ == e,
        crate::engine::walk_failed::<V, T>(table, key, prefix, end, e) ==> {
            ||| crate::table::seek_failed::<V, T>(table, key, false, e)
            ||| exists|k: Seq<char>| #[trigger]
                crate::table::seek_failed::<V, T>(table, k, true, e) && table.rows().contains_key(k)
                    && prefix.len() <= k.len() && k.take(prefix.len() as int) == prefix
        },
{
}

/// A message that could not be appended, copied or enqueued was held up by a step on the tables that
/// it goes into, with the rows that it goes into them with.
pub proof fn law_failed_writes<
    H: OrderedTable<u64>,
    M: OrderedTable<StoredMessage>,
    F: OrderedTable<StoredFifoMessage>,
>(
    heads: &H,
    messages: &M,
    rows: Map<Seq<char>, MessageView>,
    fifo: Map<Seq<char>, FifoView>,
    new: NewMessageView,
    copy: MessageView,
    queued: NewFifoView,
    now: u64,
    e: ErrorView,
)
    ensures
        crate::engine::append_failed::<H, M>(heads, rows, new, now, e) ==> {
            let log = LogView { topic: new.topic, origin: new.origin };
            let key = crate::keys::head_key_text(log);
            ||| crate::table::get_failed::<u64, H>(heads, key, e)
            ||| !H::reliable() && exists|next: u64| #[trigger]
                H::insert_fails(heads.rows(), key, next, e)
            ||| !M::reliable() && exists|k: Seq<char>, m: MessageView| #[trigger]
                M::insert_fails(rows, k, m, e) && m.payload == new.payload && m.topic == new.topic
                    && m.origin == new.origin && k == crate::keys::message_key_text(log, m.head_id)
        },
        crate::engine::replicate_failed(heads, messages, copy, e) ==> {
            let log = LogView { topic: copy.topic, origin: copy.origin };
            let key = crate::keys::message_key_text(log, copy.head_id);
            let head_key = crate::keys::head_key_text(log);
            ||| crate::table::get_failed::<StoredMessage, M>(messages, key, e)
            ||| crate::table::get_failed::<u64, H>(heads, head_key, e)
            ||| !H::reliable() && exists|head: u64| #[trigger]
                H::insert_fails(heads.rows(), head_key, head, e)
            ||| !M::reliable() && M::insert_fails(messages.rows(), key, copy, e)
        },
        crate::engine::enqueue_failed::<H, F>(heads, fifo, queued, now, e) ==> {
            let key = crate::keys::fifo_sequence_key_text(queued.queue);
            ||| crate::table::get_failed::<u64, H>(heads, key, e)
            ||| !H::reliable() && exists|next: u64| #[trigger]
                H::insert_fails(heads.rows(), key, next, e)
            ||| !F::reliable() && exists|k: Seq<char>, m: FifoView| #[trigger]
                F::insert_fails(fifo, k, m, e) && m.payload == queued.payload && m.queue
                    == queued.queue && k == crate::keys::fifo_message_key_text(
                    queued.queue,
                    m.sequence,
                )
        },
{
    let log = crate::keys::log_of(new.topic, new.origin);
    let next = crate::ids::after(crate::engine::head_in(heads.rows(), log));
    let m = crate::message::placed(new, next, now);
    let k = crate::keys::message_key_text(log, next);
    if crate::engine::append_failed::<H, M>(heads, rows, new, now, e) {
        if !M::reliable() && M::insert_fails(rows, k, m, e) {
            assert(m.payload == new.payload && m.head_id == next);
        }
    }
    let n = crate::ids::after(crate::engine::sequence_in(heads.rows(), queued.queue));
    let f = crate::message::queued(queued, n, now);
    let fk = crate::keys::fifo_message_key_text(queued.queue, n);
    if crate::engine::enqueue_failed::<H, F>(heads, fifo, queued, now, e) {
        if !F::reliable() && F::insert_fails(fifo, fk, f, e) {
            assert(f.payload == queued.payload && f.sequence == n);
        }
    }
}

/// A deletion or a change of the front of a queue that failed was held up by a step on the tables
/// that it is made on.
pub proof fn law_failed_changes<
    M: OrderedTable<StoredMessage>,
    T: OrderedTable<TombstoneRange>,
    F: OrderedTable<StoredFifoMessage>,
>(
    messages: &M,
    before: Map<Seq<char>, MessageView>,
    rows: Map<Seq<char>, MessageView>,
    tombstones: Map<Seq<char>, TombstoneView>,
    record: TombstoneView,
    log: LogView,
    from: u64,
    to: u64,
    k: Seq<char>,
    queue: Seq<char>,
    id: Seq<char>,
    action: FifoFrontAction,
    fifo: Map<Seq<char>, FifoView>,
    e: ErrorView,
)
    ensures
        crate::engine::mark_failed::<M>(before, rows, log, from, to, k, e) ==> {
            &&& !M::reliable()
            &&& before.contains_key(k) && !before[k].deleted
            &&& M::insert_fails(rows, k, MessageView { deleted: true, ..before[k] }, e)
            &&& crate::engine::partly_marked(before, rows, log, from, to)
        },
        crate::engine::partly_marked(before, rows, log, from, to) ==> rows.contains_key(k)
            == before.contains_key(k) && (rows.contains_key(k) ==> rows[k] == before[k] || rows[k]
            == (MessageView { deleted: true, ..before[k] })),
        crate::engine::tombstone_failed::<M, T>(messages, tombstones, record, e) ==> {
            let l = LogView { topic: record.topic, origin: record.origin };
            ||| crate::engine::walk_failed::<StoredMessage, M>(
                messages,
                crate::keys::message_key_text(l, record.from_head_id),
                crate::keys::message_prefix_text(l),
                Some(crate::keys::message_key_text(l, record.to_head_id)),
                e,
            )
            ||| exists|r: Map<Seq<char>, MessageView>, q: Seq<char>| #[trigger]
                crate::engine::mark_failed::<M>(
                    messages.rows(),
                    r,
                    l,
                    record.from_head_id,
                    record.to_head_id,
                    q,
                    e,
                )
            ||| !T::reliable() && T::insert_fails(
                tombstones,
                crate::keys::tombstone_key_text(l, record.from_head_id, record.to_head_id),
                record,
                e,
            )
        },
        crate::engine::front_failed::<F>(fifo, queue, id, action, k, e) ==> {
            &&& !F::reliable()
            &&& fifo.contains_key(k) && fifo[k].id == id
            &&& action == FifoFrontAction::Ack ==> F::remove_fails(fifo, k, e)
            &&& action == FifoFrontAction::Reject ==> exists|m: FifoView| #[trigger]
                F::insert_fails(fifo, k, m, e) && m.id == id
        },
{
    if crate::engine::front_failed::<F>(fifo, queue, id, action, k, e) && action
        == FifoFrontAction::Reject {
        assert(F::insert_fails(fifo, k, fifo[k].attempted(), e));
    }
}

/// The last position of a log that could not be named is one whose message could not be read, or is
/// not there.
pub proof fn law_unnamed_heads<H: OrderedTable<u64>, M: OrderedTable<StoredMessage>>(
    heads: &H,
    messages: &M,
    k: Seq<char>,
    e: ErrorView,
)
    ensures
        crate::engine::unnamed_head(heads, messages, k, e) ==> {
            let key = crate::engine::message_key_of_head(k, heads.rows()[k]);
            &&& heads.rows().contains_key(k)
            &&& crate::table::get_failed::<StoredMessage, M>(messages, key, e)
                || !messages.rows().contains_key(key) && e == crate::engine::headless_error()
        },
{
}

/// A store that could not read or keep what is known of a peer gave the error itself, for a call on
/// what it holds.
pub proof fn law_failed_bookkeeping<S: MsgbusStore>(
    store: &S,
    state: crate::store::StoreView,
    peer: Seq<char>,
    log: LogView,
    e: ErrorView,
    failure: SyncError,
)
    ensures
        crate::store::head_unread(store, log, e) ==> exists|
            topic: &crate::ids::Topic,
            origin: &crate::ids::NodeId,
            error: MsgbusError,
        | #[trigger]
            call_ensures(
                S::get_head,
                (store, topic, origin),
                Err::<Option<crate::ids::HeadId>, MsgbusError>(error),
            ) && topic@ == log.topic && origin@ == log.origin && error@ == e,
        crate::store::sync_unread(store, peer, log, e) ==> exists|
            name: &str,
            topic: &crate::ids::Topic,
            origin: &crate::ids::NodeId,
            error: MsgbusError,
        | #[trigger]
            call_ensures(
                S::get_peer_sync_state,
                (store, name, topic, origin),
                Err::<Option<crate::message::PeerSyncState>, MsgbusError>(error),
            ) && name@ == peer && topic@ == log.topic && origin@ == log.origin && error@ == e,
        crate::store::states_unread(store, e) ==> exists|error: MsgbusError| #[trigger]
            call_ensures(
                S::list_peer_sync_states,
                (store,),
                Err::<Vec<crate::message::PeerSyncState>, MsgbusError>(error),
            ) && error@ == e,
        crate::sync::keeping_failed::<S>(state, peer, failure) ==> (
        failure matches SyncError::Store(error) && {
            ||| exists|s: &S| #[trigger]
                crate::store::states_unread(s, error@) && s.state() == state
            ||| exists|s: &S, l: LogView| #[trigger]
                crate::store::head_unread(s, l, error@) && s.state() == state
            ||| exists|s: &S, l: LogView| #[trigger]
                crate::store::sync_unread(s, peer, l, error@) && s.state() == state
            ||| exists|kept: crate::message::SyncStateView| #[trigger]
                S::sync_fails(state, kept, error@) && kept.peer == peer
        }),
{
}

} // verus!

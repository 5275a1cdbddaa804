//! A store that holds its tables in memory.

use vstd::prelude::*;

use crate::clock::now_ms;
use crate::engine;
use crate::engine::FifoFrontAction;
use crate::error::MsgbusError;
use crate::ids::HeadId;
use crate::ids::MessageId;
use crate::ids::NodeId;
use crate::ids::QueueName;
use crate::ids::Topic;
use crate::layout::TablesView;
use crate::message::FetchQuery;
use crate::message::MessageView;
use crate::message::NewFifoMessage;
use crate::message::NewMessage;
use crate::message::PeerSyncState;
use crate::message::ReplicateResult;
use crate::message::StoredFifoMessage;
use crate::message::StoredMessage;
use crate::message::TombstoneRange;
use crate::message::TopicHead;
use crate::store::MsgbusStore;
use crate::store::StoreView;
use crate::table::MemTable;
use crate::table::OrderedTable;

verus! {

/// A store that holds its tables in memory and forgets them when it is dropped.
pub struct MemoryStore {
    heads: MemTable<u64>,
    messages: MemTable<StoredMessage>,
    tombstones: MemTable<TombstoneRange>,
    sequences: MemTable<u64>,
    fifo: MemTable<StoredFifoMessage>,
    sync: MemTable<PeerSyncState>,
}

impl MemoryStore {
    /// A store that holds nothing.
    pub fn new() -> (res: MemoryStore)
        ensures
            res.valid(),
            res.state() == StoreView::empty(),
    {
        let res = MemoryStore {
            heads: MemTable::new(),
            messages: MemTable::new(),
            tombstones: MemTable::new(),
            sequences: MemTable::new(),
            fifo: MemTable::new(),
            sync: MemTable::new(),
        };
        proof {
            crate::layout::law_empty_tables(res.tables());
        }
        res
    }

    spec fn tables(&self) -> TablesView {
        TablesView {
            heads: self.heads.rows(),
            messages: self.messages.rows(),
            tombstones: self.tombstones.rows(),
            sequences: self.sequences.rows(),
            fifo: self.fifo.rows(),
            sync: self.sync.rows(),
        }
    }

    /// A store in memory is in good order at all times, and none of its operations fails for
    /// reasons of its own.
    pub proof fn law_in_good_order(&self)
        requires
            self.valid(),
        ensures
            self.state().wf(),
            MemoryStore::reliable(),
    {
    }
}

impl MsgbusStore for MemoryStore {
    closed spec fn state(&self) -> StoreView {
        self.tables().state()
    }

    closed spec fn valid(&self) -> bool {
        &&& self.heads.valid()
        &&& self.messages.valid()
        &&& self.tombstones.valid()
        &&& self.sequences.valid()
        &&& self.fifo.valid()
        &&& self.sync.valid()
        &&& self.tables().in_order()
    }

    closed spec fn reliable() -> bool {
        true
    }

    fn append_message(&mut self, message: NewMessage) -> (res: Result<
        StoredMessage,
        MsgbusError,
    >) {
        let ghost before = *self;
        let now: u64 = now_ms();
        let res = engine::append_message(&mut self.heads, &mut self.messages, message, now);
        proof {
            crate::layout::law_append_rows(before.tables(), (res->Ok_0)@);
        }
        res
    }

    fn fetch_messages(&self, query: FetchQuery) -> (res: Result<Vec<StoredMessage>, MsgbusError>) {
        let res = engine::fetch_messages(&self.messages, &query);
        proof {
            let log = crate::keys::log_of(query.topic@, query.origin@);
            let limit = crate::engine::page_size(query.limit) as usize;
            let met = choose|met: Seq<(Seq<char>, MessageView)>| #[trigger]
                crate::engine::is_walk(
                    self.messages.rows(),
                    crate::keys::message_key_text(log, query.from_head_id.0),
                    crate::keys::message_prefix_text(log),
                    None,
                    Some(limit),
                    met,
                ) && crate::engine::values_of((res->Ok_0)@) == crate::engine::without_keys(met);
            crate::layout::lemma_walk_is_page(
                self.state(),
                self.messages.rows(),
                log,
                query.from_head_id.0,
                limit,
                met,
            );
        }
        res
    }

    fn get_head(&self, topic: &Topic, origin: &NodeId) -> (res: Result<
        Option<HeadId>,
        MsgbusError,
    >) {
        engine::get_head(&self.heads, topic, origin)
    }

    fn list_heads(&self) -> (res: Result<Vec<TopicHead>, MsgbusError>) {
        let res = engine::list_heads(&self.heads, &self.messages);
        proof {
            let out = (res->Ok_0)@;
            let met = choose|met: Seq<(Seq<char>, u64)>| #[trigger]
                crate::engine::is_walk(self.heads.rows(), "head/"@, "head/"@, None, None, met)
                    && out.len() == met.len() && forall|i: int|
                    0 <= i < met.len() ==> crate::engine::names_head(
                        self.messages.rows(),
                        met[i],
                        (#[trigger] out[i])@,
                    );
            let values = crate::engine::values_of(out);
            assert forall|i: int| 0 <= i < met.len() implies crate::engine::names_head(
                self.messages.rows(),
                met[i],
                #[trigger] values[i],
            ) by {
                assert(values[i] == out[i]@);
            }
            crate::layout::lemma_walk_lists_heads(
                self.state(),
                self.heads.rows(),
                self.messages.rows(),
                met,
                values,
            );
        }
        res
    }

    fn tombstone_range(
        &mut self,
        topic: &Topic,
        origin: &NodeId,
        from: HeadId,
        to: HeadId,
    ) -> (res: Result<u64, MsgbusError>) {
        let ghost before = *self;
        let now: u64 = now_ms();
        let res = engine::tombstone_range(
            &mut self.messages,
            &mut self.tombstones,
            topic,
            origin,
            from,
            to,
            now,
        );
        proof {
            if res is Ok {
                let log = crate::keys::log_of(topic@, origin@);
                let record = crate::store::tombstone_record(topic@, origin@, from.0, to.0, now);
                crate::layout::law_tombstone_rows(before.tables(), log, record);
                assert(self.tables() == before.tables().with_range(log, record));
            }
        }
        res
    }

    fn tombstone_range_with_marker(
        &mut self,
        topic: &Topic,
        origin: &NodeId,
        from: HeadId,
        to: HeadId,
        marker: NewMessage,
    ) -> (res: Result<(u64, StoredMessage), MsgbusError>) {
        let ghost before = *self;
        let now: u64 = now_ms();
        let res = engine::tombstone_range_with_marker(
            &mut self.heads,
            &mut self.messages,
            &mut self.tombstones,
            topic,
            origin,
            from,
            to,
            marker,
            now,
        );
        proof {
            if res is Ok {
                let log = crate::keys::log_of(topic@, origin@);
                let record = crate::store::tombstone_record(topic@, origin@, from.0, to.0, now);
                let m = (res->Ok_0).1@;
                let marked = before.tables().with_range(log, record);
                crate::layout::law_tombstone_rows(before.tables(), log, record);
                crate::layout::law_append_rows(marked, m);
                assert(self.tables() == marked.with_message(m, m.head_id));
                assert(self.state() == before.state().tombstoned(log, record).appended(m));
            }
        }
        res
    }

    fn put_replicated_message(&mut self, message: StoredMessage) -> (res: Result<
        ReplicateResult,
        MsgbusError,
    >) {
        let ghost before = *self;
        let ghost m = message@;
        let res = engine::put_replicated_message(&mut self.heads, &mut self.messages, message);
        proof {
            if res == Ok::<ReplicateResult, MsgbusError>(ReplicateResult::Inserted) {
                let log = crate::store::message_log(m);
                let head = before.state().replicated(m).heads[log];
                crate::layout::law_replicate_rows(before.tables(), m);
                assert(self.tables() == before.tables().with_message(m, head));
            }
        }
        res
    }

    fn enqueue_fifo(&mut self, message: NewFifoMessage) -> (res: Result<
        StoredFifoMessage,
        MsgbusError,
    >) {
        let ghost before = *self;
        let now: u64 = now_ms();
        let res = engine::enqueue_fifo(&mut self.sequences, &mut self.fifo, message, now);
        proof {
            crate::layout::law_enqueue_rows(before.tables(), (res->Ok_0)@);
        }
        res
    }

    fn peek_fifo(&self, queue: &QueueName) -> (res: Result<
        Option<StoredFifoMessage>,
        MsgbusError,
    >) {
        let res = engine::peek_fifo(&self.fifo, queue);
        proof {
            if res->Ok_0 is Some {
                let message = (res->Ok_0)->0;
                let k = choose|k: Seq<char>| #[trigger]
                    crate::engine::is_front_key(self.fifo.rows(), queue@, k) && message@
                        == self.fifo.rows()[k];
                crate::layout::lemma_front(self.state(), self.fifo.rows(), queue@, k);
            } else {
                crate::layout::lemma_no_front(self.state(), self.fifo.rows(), queue@);
            }
        }
        res
    }

    fn ack_fifo(&mut self, queue: &QueueName, message_id: &MessageId) -> (res: Result<
        bool,
        MsgbusError,
    >) {
        let ghost before = *self;
        let res = engine::update_fifo_front(
            &mut self.fifo,
            queue,
            message_id,
            FifoFrontAction::Ack,
        );
        proof {
            let rows = before.fifo.rows();
            if res == Ok::<bool, MsgbusError>(true) {
                let k = choose|k: Seq<char>| #[trigger]
                    crate::engine::is_front_key(rows, queue@, k) && rows[k].id == message_id@
                        && self.fifo.rows() == rows.remove(k);
                crate::layout::law_front_rows(before.tables(), queue@, k);
                assert(before.state().is_front(queue@, rows[k].sequence));
            } else {
                crate::layout::law_front_differs_rows(before.tables(), queue@, message_id@);
            }
        }
        res
    }

    fn reject_fifo(&mut self, queue: &QueueName, message_id: &MessageId) -> (res: Result<
        bool,
        MsgbusError,
    >) {
        let ghost before = *self;
        let res = engine::update_fifo_front(
            &mut self.fifo,
            queue,
            message_id,
            FifoFrontAction::Reject,
        );
        proof {
            let rows = before.fifo.rows();
            if res == Ok::<bool, MsgbusError>(true) {
                let k = choose|k: Seq<char>| #[trigger]
                    crate::engine::is_front_key(rows, queue@, k) && rows[k].id == message_id@
                        && self.fifo.rows() == rows.insert(k, rows[k].attempted());
                crate::layout::law_front_rows(before.tables(), queue@, k);
                assert(before.state().is_front(queue@, rows[k].sequence));
            } else {
                crate::layout::law_front_differs_rows(before.tables(), queue@, message_id@);
            }
        }
        res
    }

    fn put_peer_sync_state(&mut self, state: PeerSyncState) -> (res: Result<(), MsgbusError>) {
        let ghost before = *self;
        let ghost s = state@;
        let res = engine::put_peer_sync_state(&mut self.sync, state);
        proof {
            crate::layout::law_sync_rows(before.tables(), s);
        }
        res
    }

    fn get_peer_sync_state(&self, peer: &str, topic: &Topic, origin: &NodeId) -> (res: Result<
        Option<PeerSyncState>,
        MsgbusError,
    >) {
        engine::get_peer_sync_state(&self.sync, peer, topic, origin)
    }

    fn list_peer_sync_states(&self) -> (res: Result<Vec<PeerSyncState>, MsgbusError>) {
        let res = engine::list_peer_sync_states(&self.sync);
        proof {
            let met = choose|met: Seq<(Seq<char>, crate::message::SyncStateView)>| #[trigger]
                crate::engine::is_walk(self.sync.rows(), "sync/"@, "sync/"@, None, None, met)
                    && crate::engine::values_of((res->Ok_0)@) == crate::engine::without_keys(met);
            crate::layout::lemma_walk_lists_sync(self.state(), self.sync.rows(), met);
        }
        res
    }
}

} // verus!

//! What the SQL store writes into its rows and reads out of them, said of the values.

use std::collections::BTreeMap;

use vstd::prelude::*;

use crate::engine::FifoFrontAction;
use crate::error::ErrorKind;
use crate::error::ErrorView;
use crate::error::MsgbusError;
use crate::ids::HeadId;
use crate::ids::MessageId;
use crate::ids::NodeId;
use crate::ids::Topic;
use crate::message::FetchQuery;
use crate::message::NewFifoMessage;
use crate::message::NewMessage;
use crate::message::PeerSyncState;
use crate::message::StoredFifoMessage;
use crate::message::StoredMessage;
use crate::message::TopicHead;
use crate::sqlite::AppendPlan;
use crate::sqlite::EnqueuePlan;
use crate::sqlite::FetchPlan;
use crate::sqlite::FifoRow;
use crate::sqlite::FrontPlan;
use crate::sqlite::MessageRow;
use crate::sqlite::ReplicatePlan;
use crate::sqlite::SyncNumbers;
use crate::sqlite::TombstonePlan;

verus! {

/// A number is written as itself where a row can hold it, and refused where it cannot; a number
/// that is not negative is read as itself, and a negative one is refused.
pub proof fn law_row_numbers(
    v: u64,
    w: Result<i64, MsgbusError>,
    n: i64,
    r: Result<u64, MsgbusError>,
    row: Option<i64>,
    head: Result<Option<HeadId>, MsgbusError>,
)
    ensures
        call_ensures(crate::sqlite::u64_to_i64, (v,), w) ==> {
            &&& w is Ok <==> v <= i64::MAX
            &&& w matches Ok(x) ==> x == v
            &&& w matches Err(e) ==> (e matches MsgbusError::InvalidArgument(text) && text@
                == crate::text::decimal(v as nat) + " exceeds i64"@)
        },
        call_ensures(crate::sqlite::i64_to_u64, (n,), r) ==> {
            &&& r is Ok <==> n >= 0
            &&& r matches Ok(x) ==> x == n
            &&& r matches Err(e) ==> (e matches MsgbusError::Storage(text) && text@
                == "negative integer stored in sqlite: "@ + (seq!['-'] + crate::text::decimal(
                (-n) as nat,
            )))
        },
        call_ensures(crate::sqlite::read_head, (row,), head) ==> {
            &&& row is None ==> head == Ok::<Option<HeadId>, MsgbusError>(None)
            &&& row is Some && row->0 >= 0 ==> (head matches Ok(Some(h)) && h.0 == row->0)
            &&& row is Some && row->0 < 0 ==> head is Err
        },
        crate::sqlite::exceeds_error(v) == (ErrorView {
            kind: ErrorKind::InvalidArgument,
            text: crate::text::decimal(v as nat) + " exceeds i64"@,
        }),
        n < 0 ==> crate::sqlite::negative_error(n) == (ErrorView {
            kind: ErrorKind::Storage,
            text: "negative integer stored in sqlite: "@ + (seq!['-'] + crate::text::decimal(
                (-n) as nat,
            )),
        }),
        v <= i64::MAX ==> crate::sqlite::sql_int(v) == Ok::<i64, ErrorView>(v as i64),
        v > i64::MAX ==> crate::sqlite::sql_int(v) is Err,
        n >= 0 ==> crate::sqlite::sql_nat(n) == Ok::<u64, ErrorView>(n as u64),
        n < 0 ==> crate::sqlite::sql_nat(n) is Err,
        crate::sqlite::current_of(None) == Ok::<u64, ErrorView>(0),
        n >= 0 ==> crate::sqlite::current_of(Some(n)) == Ok::<u64, ErrorView>(n as u64),
        n < 0 ==> crate::sqlite::current_of(Some(n)) is Err,
{
    if w is Err {
        assert((w->Err_0)@.kind == ErrorKind::InvalidArgument ==> w->Err_0 is InvalidArgument);
    }
    if r is Err {
        assert((r->Err_0)@.kind == ErrorKind::Storage ==> r->Err_0 is Storage);
    }
    if head is Ok && row is Some && row->0 >= 0 {
        assert(call_ensures(crate::sqlite::read_head, (row,), head) ==> head->Ok_0 == Some(
            HeadId((row->0) as u64),
        ));
    }
}

/// Whatever is read of headers is what was written of them.
pub proof fn law_row_headers(
    headers: &BTreeMap<String, String>,
    written: Result<String, MsgbusError>,
    text: &str,
    read: Result<BTreeMap<String, String>, MsgbusError>,
)
    requires
        call_ensures(crate::sqlite::encode_headers, (headers,), written),
    ensures
        written is Ok,
        call_ensures(crate::sqlite::decode_headers, (text,), read) && text@ == (written->Ok_0)@ ==> (
        read matches Ok(map) && map@ == headers@),
{
}

/// What is written of a message is the message: appended under the number behind the last one, with
/// everything that it was sent with.
pub proof fn law_appended_rows(
    row: Option<i64>,
    message: NewMessage,
    now: u64,
    res: Result<AppendPlan, MsgbusError>,
)
    requires
        call_ensures(crate::sqlite::plan_append, (row, message, now), res),
    ensures
        res is Ok <==> now <= i64::MAX && (row matches Some(last) ==> 0 <= last < i64::MAX),
        res matches Ok(plan) ==> {
            &&& row is None ==> plan.head_id == 1
            &&& row matches Some(last) ==> plan.head_id == last + 1
            &&& plan.created_at_ms == now
            &&& plan.origin_key@ == message.origin@.log_key()
            &&& plan.stored.id@ == message.id@
            &&& plan.stored.topic@ == message.topic@
            &&& plan.stored.origin@ == message.origin@
            &&& plan.stored.head_id.0 == plan.head_id
            &&& plan.stored.payload@ == message.payload@
            &&& plan.stored.headers@ == message.headers@
            &&& plan.stored.created_at_ms == now
            &&& !plan.stored.deleted
            &&& plan.headers_json@ == crate::sqlite::headers_json(message.headers@)
        },
{
    if res is Ok {
        let plan = res->Ok_0;
        assert(plan@.stored == plan.stored@);
        assert(plan@.head_id == plan.head_id && plan@.created_at_ms == plan.created_at_ms);
        assert(plan.stored@.payload == message@.payload);
        assert(plan.stored@.headers == message@.headers);
        assert(plan.stored@.head_id == plan.stored.head_id.0);
    }
}

/// What is written of a message of a peer is the message, and the last position of its log becomes
/// the greater one of the two; one that is there is left alone, and another one at its position is
/// a conflict.
pub proof fn law_copied_rows(
    there: Option<String>,
    row: Option<i64>,
    message: StoredMessage,
    res: Result<ReplicatePlan, MsgbusError>,
    plain: Result<AppendPlan, MsgbusError>,
)
    ensures
        call_ensures(crate::sqlite::plan_replicate, (there, row, message), res) ==> {
            &&& there matches Some(id) ==> {
                &&& id@ == message.id@ ==> (res matches Ok(ReplicatePlan::Present))
                &&& id@ != message.id@ ==> (res matches Err(MsgbusError::Conflict(_)))
            }
            &&& there is None ==> {
                &&& res is Ok <==> message.head_id.0 <= i64::MAX && message.created_at_ms
                    <= i64::MAX && (row matches Some(last) ==> last >= 0)
                &&& res matches Ok(plan) ==> {
                    &&& plan is Insert
                    &&& plan->columns.stored@ == message@
                    &&& plan->columns.head_id == message.head_id.0
                    &&& plan->columns.created_at_ms == message.created_at_ms
                    &&& plan->columns.origin_key@ == message.origin@.log_key()
                    &&& plan->columns.headers_json@ == crate::sqlite::headers_json(
                        message.headers@,
                    )
                    &&& plan->head >= message.head_id.0
                    &&& row matches Some(last) ==> plan->head >= last
                    &&& plan->head == message.head_id.0 || row == Some(plan->head)
                }
            }
        },
        call_ensures(crate::sqlite::plan_message, (message,), plain) ==> {
            &&& plain is Ok <==> message.head_id.0 <= i64::MAX && message.created_at_ms
                <= i64::MAX
            &&& plain matches Ok(plan) ==> plan.stored@ == message@ && plan.head_id
                == message.head_id.0 && plan.created_at_ms == message.created_at_ms
                && plan.origin_key@ == message.origin@.log_key() && plan.headers_json@
                == crate::sqlite::headers_json(message.headers@)
        },
{
    assert(message@.head_id == message.head_id.0);
    assert(message@.headers == message.headers@);
    if call_ensures(crate::sqlite::plan_replicate, (there, row, message), res) {
        if res is Ok && there is None {
            let plan = res->Ok_0;
            assert(plan@ is Insert);
            assert(plan is Insert);
            assert(plan->columns@.stored == plan->columns.stored@);
            assert(plan->columns@.head_id == plan->columns.head_id);
            assert(plan@->columns == plan->columns@);
        }
        if res is Ok && there is Some {
            assert((res->Ok_0)@ is Present);
        }
        if res is Err && there is Some {
            assert((res->Err_0)@.kind == ErrorKind::Conflict);
        }
    }
    if plain is Ok {
        assert((plain->Ok_0)@.stored == (plain->Ok_0).stored@);
    }
}

/// A fetch is asked of the rows of the log that it names, from the position that it names, at most
/// a page.
pub proof fn law_fetched_rows(query: FetchQuery, res: Result<FetchPlan, MsgbusError>)
    requires
        call_ensures(crate::sqlite::plan_fetch, (query,), res),
    ensures
        res is Ok <==> query.from_head_id.0 <= i64::MAX,
        res matches Ok(plan) ==> {
            &&& plan.topic@ == query.topic@
            &&& plan.origin_key@ == query.origin@.log_key()
            &&& plan.from_head_id == query.from_head_id.0
            &&& query.limit == 0 ==> plan.limit == 100
            &&& 1 <= query.limit <= 10_000 ==> plan.limit == query.limit
            &&& query.limit > 10_000 ==> plan.limit == 10_000
        },
{
    if res is Ok {
        let plan = res->Ok_0;
        assert(plan@.limit == plan.limit as nat);
        assert(plan@.from_head_id == plan.from_head_id);
    }
}

/// A deletion is made from its first to its last position, both among them, in the log that it
/// names, and its record says so.
pub proof fn law_deleted_rows(
    topic: &Topic,
    origin: &NodeId,
    from: HeadId,
    to: HeadId,
    now: u64,
    res: Result<TombstonePlan, MsgbusError>,
)
    requires
        call_ensures(crate::sqlite::plan_tombstone, (topic, origin, from, to, now), res),
    ensures
        from.0 > to.0 ==> (res matches Err(MsgbusError::InvalidArgument(text)) && text@
            == "from_head_id must be <= to_head_id"@),
        res is Ok <==> from.0 <= to.0 && to.0 <= i64::MAX && now <= i64::MAX,
        res matches Ok(plan) ==> {
            &&& plan.origin_key@ == origin@.log_key()
            &&& plan.from_head_id == from.0
            &&& plan.to_head_id == to.0
            &&& plan.created_at_ms == now
            &&& plan.tombstone.topic@ == topic@
            &&& plan.tombstone.origin@ == origin@
            &&& plan.tombstone.from_head_id == from
            &&& plan.tombstone.to_head_id == to
            &&& plan.tombstone.created_at_ms == now
        },
{
    if res is Ok {
        let plan = res->Ok_0;
        assert(plan@.tombstone == plan.tombstone@);
        assert(plan@.from_head_id == plan.from_head_id && plan@.to_head_id == plan.to_head_id);
        assert(plan.tombstone@.from_head_id == plan.tombstone.from_head_id.0);
        assert(plan.tombstone@.to_head_id == plan.tombstone.to_head_id.0);
    } else if from.0 > to.0 {
        assert((res->Err_0)@.kind == ErrorKind::InvalidArgument);
    }
}

/// What is written of a message of a queue is the message: under the number behind the last one,
/// with everything that it was sent with.
pub proof fn law_enqueued_rows(
    row: Option<i64>,
    message: NewFifoMessage,
    now: u64,
    res: Result<EnqueuePlan, MsgbusError>,
)
    requires
        call_ensures(crate::sqlite::plan_enqueue, (row, message, now), res),
    ensures
        res is Ok <==> now <= i64::MAX && (row matches Some(last) ==> 0 <= last < i64::MAX),
        res matches Ok(plan) ==> {
            &&& row is None ==> plan.sequence == 1
            &&& row matches Some(last) ==> plan.sequence == last + 1
            &&& plan.created_at_ms == now
            &&& plan.stored.id@ == message.id@
            &&& plan.stored.queue@ == message.queue@
            &&& plan.stored.topic@ == message.topic@
            &&& plan.stored.source@ == message.source@
            &&& plan.stored.target@ == message.target@
            &&& plan.stored.payload@ == message.payload@
            &&& plan.stored.headers@ == message.headers@
            &&& plan.stored.sequence == plan.sequence
            &&& plan.stored.attempts == 0
            &&& plan.stored.created_at_ms == now
            &&& plan.headers_json@ == crate::sqlite::headers_json(message.headers@)
        },
{
    if res is Ok {
        let plan = res->Ok_0;
        assert(plan@.stored == plan.stored@);
        assert(plan@.sequence == plan.sequence && plan@.created_at_ms == plan.created_at_ms);
        assert(plan.stored@.payload == message@.payload);
        assert(plan.stored@.headers == message@.headers);
    }
}

/// The front row of a queue goes when its message is acknowledged, counts one more attempt when it
/// is rejected, and stays as it is for any other message.
pub proof fn law_front_rows(
    front: Option<StoredFifoMessage>,
    id: &MessageId,
    action: FifoFrontAction,
    res: Result<FrontPlan, MsgbusError>,
)
    requires
        call_ensures(crate::sqlite::plan_front, (front, id, action), res),
    ensures
        front is None ==> res == Ok::<FrontPlan, MsgbusError>(FrontPlan::Keep),
        front matches Some(m) ==> {
            &&& m.id@ != id@ ==> res == Ok::<FrontPlan, MsgbusError>(FrontPlan::Keep)
            &&& m.id@ == id@ && m.sequence > i64::MAX ==> res is Err
            &&& m.id@ == id@ && m.sequence <= i64::MAX && action == FifoFrontAction::Ack ==> res
                == Ok::<FrontPlan, MsgbusError>(FrontPlan::Delete { sequence: m.sequence as i64 })
            &&& m.id@ == id@ && m.sequence <= i64::MAX && action == FifoFrontAction::Reject ==> res
                == Ok::<FrontPlan, MsgbusError>(
                FrontPlan::SetAttempts {
                    sequence: m.sequence as i64,
                    attempts: if m.attempts == u32::MAX {
                        m.attempts
                    } else {
                        (m.attempts + 1) as u32
                    },
                },
            )
        },
{
    if front is Some {
        let m = front->0;
        assert(m@.id == m.id@ && m@.sequence == m.sequence && m@.attempts == m.attempts);
    }
}

/// A row of the messages is read as the message that it holds, if its numbers and its names are in
/// order and its columns could be decoded.
pub proof fn law_message_rows(row: MessageRow, res: Result<StoredMessage, MsgbusError>)
    requires
        call_ensures(crate::sqlite::row_to_message, (row,), res),
    ensures
        res is Ok <==> row.head_id >= 0 && row.created_at_ms >= 0 && crate::ids::valid_part(row.id@)
            && crate::ids::valid_part(row.topic@) && row.origin is Ok && row.headers is Ok,
        res matches Ok(m) ==> {
            &&& m.id@ == row.id@
            &&& m.topic@ == row.topic@
            &&& m.origin@ == (row.origin->Ok_0)@
            &&& m.head_id.0 == row.head_id
            &&& m.payload@ == row.payload@
            &&& m.headers@ == (row.headers->Ok_0)@
            &&& m.created_at_ms == row.created_at_ms
            &&& m.deleted == row.deleted
        },
        res matches Err(e) ==> if row.head_id < 0 {
            e@ == crate::sqlite::negative_error(row.head_id)
        } else if row.created_at_ms < 0 {
            e@ == crate::sqlite::negative_error(row.created_at_ms)
        } else if !crate::ids::valid_part(row.id@) {
            Some(e@) == crate::ids::part_error("message_id"@, row.id@)
        } else if !crate::ids::valid_part(row.topic@) {
            Some(e@) == crate::ids::part_error("topic"@, row.topic@)
        } else if row.origin is Err {
            e@ == (row.origin->Err_0)@
        } else {
            e@ == (row.headers->Err_0)@
        },
{
    assert(row@.origin is Ok <==> row.origin is Ok);
    assert(row@.headers is Ok <==> row.headers is Ok);
    if res is Ok {
        let m = res->Ok_0;
        assert(m@.payload == m.payload@ && row@.payload == row.payload@);
        assert(m@.headers == m.headers@);
        assert(m@.head_id == m.head_id.0);
    }
}

/// A row of the queues is read as the message that it holds, if its numbers and its names are in
/// order and its columns could be decoded.
pub proof fn law_queue_rows(row: FifoRow, res: Result<StoredFifoMessage, MsgbusError>)
    requires
        call_ensures(crate::sqlite::row_to_fifo, (row,), res),
    ensures
        res is Ok <==> row.sequence >= 0 && row.created_at_ms >= 0 && crate::ids::valid_part(row.id@)
            && crate::ids::valid_part(row.queue@) && crate::ids::valid_part(row.topic@)
            && row.source is Ok && row.target is Ok && row.headers is Ok,
        res matches Ok(m) ==> {
            &&& m.id@ == row.id@
            &&& m.queue@ == row.queue@
            &&& m.topic@ == row.topic@
            &&& m.source@ == (row.source->Ok_0)@
            &&& m.target@ == (row.target->Ok_0)@
            &&& m.payload@ == row.payload@
            &&& m.headers@ == (row.headers->Ok_0)@
            &&& m.created_at_ms == row.created_at_ms
            &&& m.sequence == row.sequence
            &&& m.attempts == row.attempts
        },
        res matches Err(e) ==> if row.sequence < 0 {
            e@ == crate::sqlite::negative_error(row.sequence)
        } else if row.created_at_ms < 0 {
            e@ == crate::sqlite::negative_error(row.created_at_ms)
        } else if !crate::ids::valid_part(row.id@) {
            Some(e@) == crate::ids::part_error("message_id"@, row.id@)
        } else if !crate::ids::valid_part(row.queue@) {
            Some(e@) == crate::ids::part_error("queue"@, row.queue@)
        } else if !crate::ids::valid_part(row.topic@) {
            Some(e@) == crate::ids::part_error("topic"@, row.topic@)
        } else if row.source is Err {
            e@ == (row.source->Err_0)@
        } else if row.target is Err {
            e@ == (row.target->Err_0)@
        } else {
            e@ == (row.headers->Err_0)@
        },
{
    assert(row@.source is Ok <==> row.source is Ok);
    assert(row@.target is Ok <==> row.target is Ok);
    assert(row@.headers is Ok <==> row.headers is Ok);
    if res is Ok {
        let m = res->Ok_0;
        assert(m@.payload == m.payload@ && row@.payload == row.payload@);
        assert(m@.headers == m.headers@);
    }
}

/// A row of the last positions is read as the position of the log that it names, and a row of what
/// is known of logs at peers as what was written into it.
pub proof fn law_other_rows(
    topic: String,
    origin: Result<NodeId, MsgbusError>,
    head_id: i64,
    head: Result<TopicHead, MsgbusError>,
    state: &PeerSyncState,
    numbers: Result<SyncNumbers, MsgbusError>,
    peer: String,
    n: SyncNumbers,
    last_error: String,
    read: Result<PeerSyncState, MsgbusError>,
)
    ensures
        call_ensures(crate::sqlite::row_to_head, (topic, origin, head_id), head) ==> {
            &&& head is Ok <==> head_id >= 0 && crate::ids::valid_part(topic@) && origin is Ok
            &&& head matches Ok(h) ==> h.topic@ == topic@ && h.origin@ == (origin->Ok_0)@
                && h.head_id.0 == head_id
            &&& head matches Err(e) ==> if head_id < 0 {
                e@ == crate::sqlite::negative_error(head_id)
            } else if !crate::ids::valid_part(topic@) {
                Some(e@) == crate::ids::part_error("topic"@, topic@)
            } else {
                e@ == (origin->Err_0)@
            }
        },
        call_ensures(crate::sqlite::plan_sync_state, (state,), numbers) ==> {
            &&& numbers is Ok <==> state.local_head <= i64::MAX && state.remote_head <= i64::MAX
                && state.last_synced_head <= i64::MAX
            &&& numbers matches Ok(k) ==> k.local_head == state.local_head && k.remote_head
                == state.remote_head && k.last_synced_head == state.last_synced_head
                && k.consecutive_failures == state.consecutive_failures
            &&& numbers matches Err(e) ==> e@ == crate::sqlite::exceeds_error(
                if state.local_head > i64::MAX {
                    state.local_head
                } else if state.remote_head > i64::MAX {
                    state.remote_head
                } else {
                    state.last_synced_head
                },
            )
        },
        call_ensures(
            crate::sqlite::row_to_sync_state,
            (peer, topic, origin, n, last_error),
            read,
        ) ==> {
            &&& read is Ok <==> n.local_head >= 0 && n.remote_head >= 0 && n.last_synced_head >= 0
                && crate::ids::valid_part(topic@) && origin is Ok
            &&& read matches Ok(k) ==> {
                &&& k.peer@ == peer@
                &&& k.topic@ == topic@
                &&& k.origin@ == (origin->Ok_0)@
                &&& k.local_head == n.local_head
                &&& k.remote_head == n.remote_head
                &&& k.last_synced_head == n.last_synced_head
                &&& k.consecutive_failures == n.consecutive_failures
                &&& k.last_error@ == last_error@
            }
        },
{
    if head is Ok {
        assert((head->Ok_0)@.head_id == (head->Ok_0).head_id.0);
    }
    if read is Ok {
        assert((read->Ok_0)@.local_head == (read->Ok_0).local_head);
    }
}

} // verus!

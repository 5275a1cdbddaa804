//! The operations of a store, over ordered tables.
//!
//! Each function works on the tables of one transaction. Where it fails, the transaction is given
//! up, and what the tables hold then does not matter.

use vstd::prelude::*;
use vstd::string::*;

use crate::error::storage_err;
use crate::error::ErrorView;
use crate::error::MsgbusError;
use crate::ids::HeadId;
use crate::ids::MessageId;
use crate::ids::NodeId;
use crate::ids::QueueName;
use crate::ids::Topic;
use crate::keys::fifo_message_key;
use crate::keys::fifo_prefix;
use crate::keys::fifo_sequence_key;
use crate::keys::head_key;
use crate::keys::message_key;
use crate::keys::message_prefix;
use crate::keys::sync_key;
use crate::keys::tombstone_key;
use crate::message::FetchQuery;
use crate::message::NewFifoMessage;
use crate::message::NewMessage;
use crate::message::PeerSyncState;
use crate::message::ReplicateResult;
use crate::message::StoredFifoMessage;
use crate::message::StoredMessage;
use crate::message::TombstoneRange;
use crate::message::TopicHead;
use crate::table::OrderedTable;
use crate::table::Row;
use crate::text::has_prefix;
use crate::text::text_before;

verus! {

/// How many messages a fetch gives at most: a hundred where `limit` is zero, and never more than
/// ten thousand.
pub open spec fn page_size(limit: u32) -> nat {
    if limit == 0 {
        100
    } else if limit > 10_000 {
        10_000
    } else {
        limit as nat
    }
}

/// How many messages a fetch gives at most.
pub fn effective_limit(limit: u32) -> (res: usize)
    ensures
        res == page_size(limit),
{
    if limit == 0 {
        100
    } else if limit > 10_000 {
        10_000
    } else {
        limit as usize
    }
}

/// `k` lies in the walk from `start` through the keys with `prefix`, up to `end`.
pub open spec fn in_walk(
    start: Seq<char>,
    prefix: Seq<char>,
    end: Option<Seq<char>>,
    k: Seq<char>,
) -> bool {
    &&& crate::text::starts_with(k, prefix)
    &&& crate::text::text_le(start, k)
    &&& match end {
        Some(e) => crate::text::text_le(k, e),
        None => true,
    }
}

/// `out` is what a walk over `rows` meets, in the order of the keys, at most `limit` rows.
pub open spec fn is_walk<W>(
    rows: Map<Seq<char>, W>,
    start: Seq<char>,
    prefix: Seq<char>,
    end: Option<Seq<char>>,
    limit: Option<usize>,
    out: Seq<(Seq<char>, W)>,
) -> bool {
    &&& forall|i: int|
        0 <= i < out.len() ==> rows.contains_key((#[trigger] out[i]).0) && out[i].1
            == rows[out[i].0] && in_walk(start, prefix, end, out[i].0)
    &&& forall|i: int, j: int|
        0 <= i < j < out.len() ==> crate::text::text_lt(
            (#[trigger] out[i]).0,
            (#[trigger] out[j]).0,
        )
    &&& forall|k: Seq<char>| #[trigger]
        rows.contains_key(k) && in_walk(start, prefix, end, k) ==> {
            ||| exists|i: int| 0 <= i < out.len() && (#[trigger] out[i]).0 == k
            ||| out.len() > 0 && crate::text::text_lt(out.last().0, k) && limit == Some(
                out.len() as usize,
            )
        }
    &&& limit matches Some(n) ==> out.len() <= n
}

/// The rows of a walk as values.
pub open spec fn row_values<V: Row>(rows: Seq<(String, V)>) -> Seq<(Seq<char>, V::V)> {
    rows.map_values(|row: (String, V)| (row.0@, row.1@))
}

spec fn keys_at_or_behind<W>(rows: Map<Seq<char>, W>, key: Seq<char>) -> Set<Seq<char>> {
    rows.dom().filter(|k: Seq<char>| crate::text::text_le(key, k))
}

proof fn lemma_fewer_behind<W>(rows: Map<Seq<char>, W>, key: Seq<char>, next: Seq<char>)
    requires
        rows.dom().finite(),
        rows.contains_key(key),
        crate::text::text_lt(key, next),
    ensures
        keys_at_or_behind(rows, next).len() < keys_at_or_behind(rows, key).len(),
{
    let a = keys_at_or_behind(rows, key);
    let b = keys_at_or_behind(rows, next);
    rows.dom().lemma_len_filter(|k: Seq<char>| crate::text::text_le(key, k));
    assert(a.contains(key));
    assert forall|k: Seq<char>| b.contains(k) implies a.remove(key).contains(k) by {
        if k != next {
            crate::text::lemma_text_lt_transitive(key, next, k);
        }
        crate::text::lemma_text_lt_irreflexive(key);
    }
    vstd::set_lib::lemma_len_subset(b, a.remove(key));
}

/// The row under `key`.
fn row_under<V: Row, T: OrderedTable<V>>(table: &T, key: &str) -> (res: Result<
    Option<V>,
    MsgbusError,
>)
    requires
        table.valid(),
    ensures
        match res {
            Ok(Some(value)) => table.rows().contains_key(key@) && value@ == table.rows()[key@],
            Ok(None) => !table.rows().contains_key(key@),
            Err(e) => crate::table::get_failed::<V, T>(table, key@, e@),
        },
{
    table.get(key)
}

/// The first row at `key` or behind it; with `past`, the first one behind it.
fn row_from<V: Row, T: OrderedTable<V>>(table: &T, key: &str, past: bool) -> (res: Result<
    Option<(String, V)>,
    MsgbusError,
>)
    requires
        table.valid(),
    ensures
        table.rows().dom().finite(),
        match res {
            Ok(Some((k, value))) => crate::table::is_first_from(table.rows(), key@, past, k@)
                && value@ == table.rows()[k@],
            Ok(None) => crate::table::none_from(table.rows(), key@, past),
            Err(e) => crate::table::seek_failed::<V, T>(table, key@, past, e@),
        },
{
    table.seek(key, past)
}

/// The table could not find a row of a walk, and `e` tells why.
pub open spec fn walk_failed<V: Row, T: OrderedTable<V>>(
    table: &T,
    start: Seq<char>,
    prefix: Seq<char>,
    end: Option<Seq<char>>,
    e: ErrorView,
) -> bool {
    ||| crate::table::seek_failed::<V, T>(table, start, false, e)
    ||| exists|k: Seq<char>| #[trigger]
        crate::table::seek_failed::<V, T>(table, k, true, e) && table.rows().contains_key(k)
            && in_walk(start, prefix, end, k)
}

/// Walks the rows whose keys start with `prefix`, from `start` on, up to `end` where one is
/// given, and gives at most `limit` of them.
pub fn walk<V: Row, T: OrderedTable<V>>(
    table: &T,
    start: &str,
    prefix: &str,
    end: Option<&str>,
    limit: Option<usize>,
) -> (res: Result<Vec<(String, V)>, MsgbusError>)
    requires
        table.valid(),
        crate::text::starts_with(start@, prefix@),
        limit != Some(0usize),
    ensures
        res matches Ok(out) ==> is_walk(
            table.rows(),
            start@,
            prefix@,
            match end {
                Some(e) => Some(e@),
                None => None,
            },
            limit,
            row_values(out@),
        ),
        res matches Err(error) ==> walk_failed::<V, T>(
            table,
            start@,
            prefix@,
            match end {
                Some(e) => Some(e@),
                None => None,
            },
            error@,
        ),
        T::reliable() ==> res is Ok,
{
    let ghost rows = table.rows();
    let ghost last = match end {
        Some(e) => Some(e@),
        None => None,
    };
    let mut out: Vec<(String, V)> = Vec::new();
    let mut next: Option<(String, V)> = row_from(table, start, false)?;
    let ghost mut cursor = start@;
    proof {
        assert(row_values(out@).len() == 0);
        if next is Some {
            assert(crate::table::is_first_from(rows, start@, false, (next->0).0@));
        }
    }
    loop
        invariant_except_break
            limit matches Some(n) ==> out@.len() < n,
        invariant
            table.valid(),
            rows == table.rows(),
            rows.dom().finite(),
            crate::text::starts_with(start@, prefix@),
            last == (match end {
                Some(e) => Some(e@),
                None => None,
            }),
            out@.len() == 0 ==> cursor == start@,
            out@.len() > 0 ==> cursor == row_values(out@).last().0,
            crate::text::text_le(start@, cursor),
            match next {
                Some((k, v)) => crate::table::is_first_from(rows, cursor, out@.len() > 0, k@)
                    && v@ == rows[k@],
                None => crate::table::none_from(rows, cursor, out@.len() > 0),
            },
            forall|i: int|
                0 <= i < row_values(out@).len() ==> rows.contains_key(
                    (#[trigger] row_values(out@)[i]).0,
                ) && row_values(out@)[i].1 == rows[row_values(out@)[i].0] && in_walk(
                    start@,
                    prefix@,
                    last,
                    row_values(out@)[i].0,
                ),
            forall|i: int, j: int|
                0 <= i < j < row_values(out@).len() ==> crate::text::text_lt(
                    (#[trigger] row_values(out@)[i]).0,
                    (#[trigger] row_values(out@)[j]).0,
                ),
            forall|k: Seq<char>| #[trigger]
                rows.contains_key(k) && in_walk(start@, prefix@, last, k) && out@.len() > 0
                    && crate::text::text_le(k, cursor) ==> exists|i: int|
                    0 <= i < row_values(out@).len() && (#[trigger] row_values(out@)[i]).0 == k,
        ensures
            is_walk(rows, start@, prefix@, last, limit, row_values(out@)),
        decreases
                match next {
                    Some((k, _)) => keys_at_or_behind(rows, k@).len() + 1,
                    None => 0,
                },
    {
        let ghost values = row_values(out@);
        match next {
            None => {
                proof {
                    assert forall|k: Seq<char>| #[trigger]
                        rows.contains_key(k) && in_walk(start@, prefix@, last, k) implies exists|
                        i: int,
                    | 0 <= i < values.len() && (#[trigger] values[i]).0 == k by {
                        crate::text::lemma_text_lt_total(cursor, k);
                    }
                }
                break;
            },
            Some((k, v)) => {
                let beyond = match end {
                    Some(e) => text_before(e, k.as_str()),
                    None => false,
                };
                if beyond || !has_prefix(k.as_str(), prefix) {
                    proof {
                        assert(crate::text::text_le(start@, k@)) by {
                            if cursor != start@ && cursor != k@ {
                                crate::text::lemma_text_lt_transitive(start@, cursor, k@);
                            }
                        }
                        assert forall|q: Seq<char>| #[trigger]
                            rows.contains_key(q) && in_walk(start@, prefix@, last, q) implies exists|
                            i: int,
                        | 0 <= i < values.len() && (#[trigger] values[i]).0 == q by {
                            crate::text::lemma_text_lt_total(q, k@);
                            if crate::text::text_le(k@, q) {
                                if beyond {
                                    let e = end.unwrap()@;
                                    crate::text::lemma_text_lt_irreflexive(e);
                                    if q != k@ {
                                        crate::text::lemma_text_lt_transitive(e, k@, q);
                                    }
                                    if q != e {
                                        crate::text::lemma_text_lt_transitive(e, q, e);
                                    }
                                } else {
                                    crate::text::lemma_prefix_contiguous(prefix@, start@, k@, q);
                                }
                            }
                            // `q` stands before `k`, the first key behind the cursor.
                            crate::text::lemma_text_lt_total(cursor, q);
                            if crate::table::from_key(cursor, out@.len() > 0, q) {
                                assert(crate::text::text_le(k@, q));
                                if q != k@ {
                                    crate::text::lemma_text_lt_transitive(q, k@, q);
                                }
                                crate::text::lemma_text_lt_irreflexive(q);
                            }
                        }
                    }
                    break;
                }
                let ghost before = cursor;
                proof {
                    cursor = k@;
                    assert(crate::text::text_le(start@, k@)) by {
                        if before != start@ && before != k@ {
                            crate::text::lemma_text_lt_transitive(start@, before, k@);
                        }
                    }
                    if end is Some {
                        crate::text::lemma_text_lt_total(end.unwrap()@, k@);
                    }
                    assert(in_walk(start@, prefix@, last, k@));
                }
                let past = row_from(table, k.as_str(), true)?;
                proof {
                    if past is Some {
                        lemma_fewer_behind(rows, k@, (past->0).0@);
                    }
                }
                let ghost row = (k@, v@);
                out.push((k, v));
                proof {
                    let now = row_values(out@);
                    assert(now =~= values.push(row));
                    assert(in_walk(start@, prefix@, last, row.0));
                    assert forall|i: int, j: int|
                        0 <= i < j < now.len() implies crate::text::text_lt(
                        (#[trigger] now[i]).0,
                        (#[trigger] now[j]).0,
                    ) by {
                        if j == values.len() && i + 1 < j {
                            assert(crate::text::text_lt(values[i].0, values[j - 1].0));
                            crate::text::lemma_text_lt_transitive(
                                values[i].0,
                                before,
                                row.0,
                            );
                        }
                    }
                    assert forall|q: Seq<char>| #[trigger]
                        rows.contains_key(q) && in_walk(start@, prefix@, last, q)
                            && crate::text::text_le(q, cursor) implies exists|i: int|
                        0 <= i < now.len() && (#[trigger] now[i]).0 == q by {
                        if q == row.0 {
                            assert(now[values.len() as int].0 == q);
                        } else {
                            crate::text::lemma_text_lt_total(before, q);
                            if crate::table::from_key(before, values.len() > 0, q) {
                                assert(crate::text::text_le(row.0, q));
                                crate::text::lemma_text_lt_transitive(q, row.0, q);
                                crate::text::lemma_text_lt_irreflexive(q);
                            }
                            if values.len() == 0 {
                                crate::text::lemma_text_lt_irreflexive(q);
                                if crate::text::text_lt(q, before) && before != q {
                                    crate::text::lemma_text_lt_transitive(before, q, before);
                                    crate::text::lemma_text_lt_irreflexive(before);
                                }
                            }
                            let i = choose|i: int|
                                0 <= i < values.len() && (#[trigger] values[i]).0 == q;
                            assert(now[i].0 == q);
                        }
                    }
                }
                next = past;
                let full = match limit {
                    Some(n) => out.len() >= n,
                    None => false,
                };
                if full {
                    proof {
                        let now = row_values(out@);
                        assert forall|q: Seq<char>| #[trigger]
                            rows.contains_key(q) && in_walk(start@, prefix@, last, q) implies {
                            ||| exists|i: int| 0 <= i < now.len() && (#[trigger] now[i]).0 == q
                            ||| crate::text::text_lt(now.last().0, q)
                        } by {
                            crate::text::lemma_text_lt_total(cursor, q);
                        }
                        assert(limit == Some(now.len() as usize));
                    }
                    break;
                }
            },
        }
    }
    Ok(out)
}

/// The last position that `heads` gives for a log; zero where it gives none.
pub open spec fn head_in(heads: Map<Seq<char>, u64>, log: crate::keys::LogView) -> u64 {
    if heads.contains_key(crate::keys::head_key_text(log)) {
        heads[crate::keys::head_key_text(log)]
    } else {
        0
    }
}

/// The tables could not take `message` at the end of its log, and `e` tells why.
pub open spec fn append_failed<H: OrderedTable<u64>, M: OrderedTable<StoredMessage>>(
    heads: &H,
    messages: Map<Seq<char>, crate::message::MessageView>,
    message: crate::message::NewMessageView,
    now: u64,
    e: ErrorView,
) -> bool {
    let log = crate::keys::log_of(message.topic, message.origin);
    let head_key = crate::keys::head_key_text(log);
    let next = crate::ids::after(head_in(heads.rows(), log));
    ||| crate::table::get_failed::<u64, H>(heads, head_key, e)
    ||| !H::reliable() && H::insert_fails(heads.rows(), head_key, next, e)
    ||| !M::reliable() && M::insert_fails(
        messages,
        crate::keys::message_key_text(log, next),
        crate::message::placed(message, next, now),
        e,
    )
}

/// Appends a message to the log of its topic and origin, at the position behind the last one.
pub fn append_message<H: OrderedTable<u64>, M: OrderedTable<StoredMessage>>(
    heads: &mut H,
    messages: &mut M,
    message: NewMessage,
    now: u64,
) -> (res: Result<StoredMessage, MsgbusError>)
    requires
        old(heads).valid(),
        old(messages).valid(),
    ensures
        res matches Ok(stored) ==> {
            let log = crate::keys::log_of(message.topic@, message.origin@);
            let next = crate::ids::after(head_in(old(heads).rows(), log));
            &&& final(heads).valid()
            &&& final(messages).valid()
            &&& stored@ == crate::message::placed(message@, next, now)
            &&& final(heads).rows() == old(heads).rows().insert(
                crate::keys::head_key_text(log),
                next,
            )
            &&& final(messages).rows() == old(messages).rows().insert(
                crate::keys::message_key_text(log, next),
                stored@,
            )
        },
        res matches Err(e) ==> append_failed::<H, M>(
            &*old(heads),
            old(messages).rows(),
            message@,
            now,
            e@,
        ),
        H::reliable() && M::reliable() ==> res is Ok,
{
    let head_key = head_key(&message.topic, &message.origin);
    let current: u64 = match row_under(&*heads, head_key.as_str())? {
        Some(head) => head,
        None => 0,
    };
    let next: u64 = current.saturating_add(1);
    heads.insert(head_key.as_str(), next)?;
    let stored = StoredMessage::place(message, HeadId(next), now);
    let key = message_key(&stored.topic, &stored.origin, stored.head_id);
    messages.insert(key.as_str(), stored.clone())?;
    Ok(stored)
}

/// Rows as values.
pub open spec fn values_of<V: View>(rows: Seq<V>) -> Seq<V::V> {
    rows.map_values(|row: V| row@)
}

/// The rows of a walk, without their keys.
pub open spec fn without_keys<W>(rows: Seq<(Seq<char>, W)>) -> Seq<W> {
    rows.map_values(|row: (Seq<char>, W)| row.1)
}

/// The messages of a log from a position on, in the order of their positions, at most a page.
pub fn fetch_messages<M: OrderedTable<StoredMessage>>(messages: &M, query: &FetchQuery) -> (res:
    Result<Vec<StoredMessage>, MsgbusError>)
    requires
        messages.valid(),
    ensures
        res matches Ok(out) ==> {
            let log = crate::keys::log_of(query.topic@, query.origin@);
            exists|rows: Seq<(Seq<char>, crate::message::MessageView)>| #[trigger]
                is_walk(
                    messages.rows(),
                    crate::keys::message_key_text(log, query.from_head_id.0),
                    crate::keys::message_prefix_text(log),
                    None,
                    Some(page_size(query.limit) as usize),
                    rows,
                ) && values_of(out@) == without_keys(rows)
        },
        res matches Err(e) ==> {
            let log = crate::keys::log_of(query.topic@, query.origin@);
            walk_failed::<StoredMessage, M>(
                messages,
                crate::keys::message_key_text(log, query.from_head_id.0),
                crate::keys::message_prefix_text(log),
                None,
                e@,
            )
        },
        M::reliable() ==> res is Ok,
{
    let ghost log = crate::keys::log_of(query.topic@, query.origin@);
    let prefix = message_prefix(&query.topic, &query.origin);
    let start = message_key(&query.topic, &query.origin, query.from_head_id);
    proof {
        crate::keys::lemma_message_key_identifies(
            log,
            query.from_head_id.0,
            log,
            query.from_head_id.0,
        );
    }
    let limit: usize = effective_limit(query.limit);
    let rows = walk(messages, start.as_str(), prefix.as_str(), None, Some(limit))?;
    let ghost values = row_values(rows@);
    let mut out: Vec<StoredMessage> = Vec::new();
    for i in 0..rows.len()
        invariant
            values == row_values(rows@),
            out@.len() == i,
            forall|j: int| 0 <= j < i ==> (#[trigger] out@[j])@ == values[j].1,
    {
        out.push(rows[i].1.clone());
    }
    proof {
        assert(values_of(out@) =~= without_keys(values));
        assert(is_walk(
            messages.rows(),
            crate::keys::message_key_text(log, query.from_head_id.0),
            crate::keys::message_prefix_text(log),
            None,
            Some(page_size(query.limit) as usize),
            values,
        ));
    }
    Ok(out)
}

/// The last position of the log of `topic` and `origin`, where it has one.
pub fn get_head<H: OrderedTable<u64>>(heads: &H, topic: &Topic, origin: &NodeId) -> (res: Result<
    Option<HeadId>,
    MsgbusError,
>)
    requires
        heads.valid(),
    ensures
        res matches Ok(head) ==> {
            let key = crate::keys::head_key_text(crate::keys::log_of(topic@, origin@));
            head == if heads.rows().contains_key(key) {
                Some(HeadId(heads.rows()[key]))
            } else {
                None
            }
        },
        res matches Err(e) ==> crate::table::get_failed::<u64, H>(
            heads,
            crate::keys::head_key_text(crate::keys::log_of(topic@, origin@)),
            e@,
        ),
        H::reliable() ==> res is Ok,
{
    let key = head_key(topic, origin);
    match row_under(heads, key.as_str())? {
        Some(head) => Ok(Some(HeadId(head))),
        None => Ok(None),
    }
}

/// Where the message at the last position of a log stands, by the key of that position.
pub open spec fn message_key_of_head(key: Seq<char>, head: u64) -> Seq<char> {
    "msg/"@ + key.skip(5) + seq!['/'] + crate::text::digits(head as nat, 20)
}

/// `head` is the row `row` of the last positions, named by the message that stands there.
pub open spec fn names_head(
    messages: Map<Seq<char>, crate::message::MessageView>,
    row: (Seq<char>, u64),
    head: crate::message::TopicHeadView,
) -> bool {
    let key = message_key_of_head(row.0, row.1);
    &&& messages.contains_key(key)
    &&& head.topic == messages[key].topic
    &&& head.origin == messages[key].origin
    &&& head.head_id == row.1
}

/// What is said of a log whose last position holds no message.
pub open spec fn headless_error() -> ErrorView {
    crate::error::storage_failure("the last position of a log holds no message"@)
}

/// The message at the last position of a log, which stands under `k`, could not be read, or none
/// stands there, and `e` tells why.
pub open spec fn unnamed_head<H: OrderedTable<u64>, M: OrderedTable<StoredMessage>>(
    heads: &H,
    messages: &M,
    k: Seq<char>,
    e: ErrorView,
) -> bool {
    let key = message_key_of_head(k, heads.rows()[k]);
    &&& heads.rows().contains_key(k)
    &&& crate::text::starts_with(k, "head/"@)
    &&& {
        ||| crate::table::get_failed::<StoredMessage, M>(messages, key, e)
        ||| !messages.rows().contains_key(key) && e == headless_error()
    }
}

/// The last positions of all logs.
pub fn list_heads<H: OrderedTable<u64>, M: OrderedTable<StoredMessage>>(
    heads: &H,
    messages: &M,
) -> (res: Result<Vec<TopicHead>, MsgbusError>)
    requires
        heads.valid(),
        messages.valid(),
    ensures
        res matches Ok(out) ==> exists|rows: Seq<(Seq<char>, u64)>| #[trigger]
            is_walk(heads.rows(), "head/"@, "head/"@, None, None, rows) && out@.len() == rows.len()
                && forall|i: int|
                0 <= i < rows.len() ==> names_head(
                    messages.rows(),
                    rows[i],
                    (#[trigger] out@[i])@,
                ),
        res matches Err(e) ==> {
            ||| walk_failed::<u64, H>(heads, "head/"@, "head/"@, None, e@)
            ||| exists|k: Seq<char>| #[trigger] unnamed_head(heads, messages, k, e@)
        },
        H::reliable() && M::reliable() && (forall|k: Seq<char>| #[trigger]
            heads.rows().contains_key(k) ==> messages.rows().contains_key(
                message_key_of_head(k, heads.rows()[k]),
            )) ==> res is Ok,
{
    proof {
        reveal_strlit("head/");
        reveal_strlit("msg/");
        reveal_strlit("/");
        assert("/"@ =~= seq!['/']);
        assert("head/"@.take(5) =~= "head/"@);
    }
    let rows = walk(heads, "head/", "head/", None, None)?;
    let ghost values = row_values(rows@);
    let mut out: Vec<TopicHead> = Vec::new();
    for i in 0..rows.len()
        invariant
            messages.valid(),
            values == row_values(rows@),
            is_walk(heads.rows(), "head/"@, "head/"@, None, None, values),
            "head/"@.len() == 5,
            "/"@ == seq!['/'],
            out@.len() == i,
            forall|j: int|
                0 <= j < i ==> names_head(messages.rows(), values[j], (#[trigger] out@[j])@),
    {
        let text = rows[i].0.as_str();
        let head: u64 = rows[i].1;
        proof {
            assert(values[i as int].0 == text@);
            assert(crate::text::starts_with(text@, "head/"@));
        }
        let len: usize = text.unicode_len();
        let rest = text.substring_char(5, len);
        let mut key = "msg/".to_owned();
        key.append(rest);
        key.append("/");
        crate::text::push_digits(&mut key, head, 20);
        assert(rest@ =~= text@.skip(5));
        assert(key@ =~= message_key_of_head(text@, head));
        let row = match row_under(messages, key.as_str()) {
            Ok(row) => row,
            Err(e) => {
                assert(unnamed_head(heads, messages, text@, e@));
                return Err(e);
            },
        };
        match row {
            Some(message) => {
                out.push(
                    TopicHead {
                        topic: message.topic,
                        origin: message.origin,
                        head_id: HeadId(head),
                    },
                );
            },
            None => {
                let e = storage_err("the last position of a log holds no message");
                assert(unnamed_head(heads, messages, text@, e@));
                return Err(e);
            },
        }
    }
    Ok(out)
}

/// `k` is the key of a message of `log` from position `from` to position `to`.
pub open spec fn in_range(log: crate::keys::LogView, from: u64, to: u64, k: Seq<char>) -> bool {
    in_walk(
        crate::keys::message_key_text(log, from),
        crate::keys::message_prefix_text(log),
        Some(crate::keys::message_key_text(log, to)),
        k,
    )
}

/// The messages, with those of a range marked as deleted.
pub open spec fn marked(
    rows: Map<Seq<char>, crate::message::MessageView>,
    log: crate::keys::LogView,
    from: u64,
    to: u64,
) -> Map<Seq<char>, crate::message::MessageView> {
    Map::new(
        |k: Seq<char>| rows.contains_key(k),
        |k: Seq<char>|
            if in_range(log, from, to, k) {
                rows[k].with_deleted(true)
            } else {
                rows[k]
            },
    )
}

/// The keys of the messages of a range that are not deleted.
pub open spec fn live_keys(
    rows: Map<Seq<char>, crate::message::MessageView>,
    log: crate::keys::LogView,
    from: u64,
    to: u64,
) -> Set<Seq<char>> {
    rows.dom().filter(|k: Seq<char>| in_range(log, from, to, k) && !rows[k].deleted)
}

/// The refusal of a range that ends before it starts.
pub open spec fn range_error() -> crate::error::ErrorView {
    crate::error::invalid_argument("from_head_id must be <= to_head_id"@)
}

spec fn marked_so_far(
    rows: Map<Seq<char>, crate::message::MessageView>,
    met: Seq<(Seq<char>, crate::message::MessageView)>,
    i: int,
) -> Map<Seq<char>, crate::message::MessageView> {
    Map::new(
        |k: Seq<char>| rows.contains_key(k),
        |k: Seq<char>|
            if exists|j: int| 0 <= j < i && (#[trigger] met[j]).0 == k {
                rows[k].with_deleted(true)
            } else {
                rows[k]
            },
    )
}

/// `rows` are `before`, with some of the messages of a range marked as deleted.
pub open spec fn partly_marked(
    before: Map<Seq<char>, crate::message::MessageView>,
    rows: Map<Seq<char>, crate::message::MessageView>,
    log: crate::keys::LogView,
    from: u64,
    to: u64,
) -> bool {
    forall|k: Seq<char>|
        #![trigger rows.contains_key(k)]
        #![trigger rows[k]]
        rows.contains_key(k) == before.contains_key(k) && (rows.contains_key(k) ==> rows[k]
            == before[k] || in_range(log, from, to, k) && rows[k] == before[k].with_deleted(true))
}

/// The message under `k`, one of a range, could not be marked as deleted, and `e` tells why.
pub open spec fn mark_failed<M: OrderedTable<StoredMessage>>(
    before: Map<Seq<char>, crate::message::MessageView>,
    rows: Map<Seq<char>, crate::message::MessageView>,
    log: crate::keys::LogView,
    from: u64,
    to: u64,
    k: Seq<char>,
    e: ErrorView,
) -> bool {
    &&& !M::reliable()
    &&& partly_marked(before, rows, log, from, to)
    &&& before.contains_key(k)
    &&& in_range(log, from, to, k)
    &&& !before[k].deleted
    &&& M::insert_fails(rows, k, before[k].with_deleted(true), e)
}

/// The tables could not mark a range as deleted, and `e` tells why.
pub open spec fn tombstone_failed<M: OrderedTable<StoredMessage>, T: OrderedTable<TombstoneRange>>(
    messages: &M,
    tombstones: Map<Seq<char>, crate::message::TombstoneView>,
    record: crate::message::TombstoneView,
    e: ErrorView,
) -> bool {
    let log = crate::keys::log_of(record.topic, record.origin);
    let from = record.from_head_id;
    let to = record.to_head_id;
    ||| walk_failed::<StoredMessage, M>(
        messages,
        crate::keys::message_key_text(log, from),
        crate::keys::message_prefix_text(log),
        Some(crate::keys::message_key_text(log, to)),
        e,
    )
    ||| exists|rows: Map<Seq<char>, crate::message::MessageView>, k: Seq<char>| #[trigger]
        mark_failed::<M>(messages.rows(), rows, log, from, to, k, e)
    ||| !T::reliable() && T::insert_fails(
        tombstones,
        crate::keys::tombstone_key_text(log, from, to),
        record,
        e,
    )
}

/// Marks the messages of a log from `from` to `to` as deleted, leaves a record of the range, and
/// says how many messages were not deleted before.
pub fn tombstone_range<M: OrderedTable<StoredMessage>, T: OrderedTable<TombstoneRange>>(
    messages: &mut M,
    tombstones: &mut T,
    topic: &Topic,
    origin: &NodeId,
    from: HeadId,
    to: HeadId,
    now: u64,
) -> (res: Result<u64, MsgbusError>)
    requires
        old(messages).valid(),
        old(tombstones).valid(),
    ensures
        from.0 > to.0 ==> {
            &&& res matches Err(e)
            &&& e@ == range_error()
            &&& *final(messages) == *old(messages)
            &&& *final(tombstones) == *old(tombstones)
        },
        res matches Ok(changed) ==> {
            let log = crate::keys::log_of(topic@, origin@);
            &&& final(messages).valid()
            &&& final(tombstones).valid()
            &&& final(messages).rows() == marked(old(messages).rows(), log, from.0, to.0)
            &&& live_keys(old(messages).rows(), log, from.0, to.0).finite()
            &&& changed == live_keys(old(messages).rows(), log, from.0, to.0).len()
            &&& final(tombstones).rows() == old(tombstones).rows().insert(
                crate::keys::tombstone_key_text(log, from.0, to.0),
                crate::message::TombstoneView {
                    topic: topic@,
                    origin: origin@,
                    from_head_id: from.0,
                    to_head_id: to.0,
                    created_at_ms: now,
                },
            )
        },
        res matches Err(e) ==> from.0 > to.0 || tombstone_failed::<M, T>(
            &*old(messages),
            old(tombstones).rows(),
            crate::store::tombstone_record(topic@, origin@, from.0, to.0, now),
            e@,
        ),
        M::reliable() && T::reliable() && from.0 <= to.0 ==> res is Ok,
{
    if from.0 > to.0 {
        return Err(MsgbusError::InvalidArgument("from_head_id must be <= to_head_id".to_owned()));
    }
    let ghost log = crate::keys::log_of(topic@, origin@);
    let ghost rows = messages.rows();
    let prefix = message_prefix(topic, origin);
    let start = message_key(topic, origin, from);
    let end = message_key(topic, origin, to);
    proof {
        crate::keys::lemma_message_key_identifies(log, from.0, log, from.0);
    }
    let met = walk(&*messages, start.as_str(), prefix.as_str(), Some(end.as_str()), None)?;
    let ghost values = row_values(met@);
    let mut changed: u64 = 0;
    let ghost mut done = Set::<Seq<char>>::empty();
    proof {
        assert(marked_so_far(rows, values, 0) =~= rows);
    }
    for i in 0..met.len()
        invariant
            from.0 <= to.0,
            messages.valid(),
            rows == old(messages).rows(),
            log == crate::keys::log_of(topic@, origin@),
            start@ == crate::keys::message_key_text(log, from.0),
            prefix@ == crate::keys::message_prefix_text(log),
            end@ == crate::keys::message_key_text(log, to.0),
            values == row_values(met@),
            is_walk(rows, start@, prefix@, Some(end@), None, values),
            messages.rows() == marked_so_far(rows, values, i as int),
            done.finite(),
            changed == done.len(),
            changed <= i,
            forall|k: Seq<char>| #[trigger]
                done.contains(k) <==> exists|j: int|
                    0 <= j < i && (#[trigger] values[j]).0 == k && !values[j].1.deleted,
    {
        let ghost k = values[i as int].0;
        let ghost before = done;
        proof {
            assert(k == met@[i as int].0@);
            assert(rows.contains_key(k) && values[i as int].1 == rows[k]);
            assert(!before.contains(k)) by {
                if before.contains(k) {
                    let j = choose|j: int|
                        0 <= j < i && (#[trigger] values[j]).0 == k && !values[j].1.deleted;
                    crate::text::lemma_text_lt_irreflexive(k);
                    assert(crate::text::text_lt(values[j].0, values[i as int].0));
                }
            }
        }
        if !met[i].1.deleted {
            let mut message = met[i].1.clone();
            message.deleted = true;
            proof {
                assert(message@ == rows[k].with_deleted(true));
            }
            let ghost so_far = messages.rows();
            match messages.insert(met[i].0.as_str(), message) {
                Ok(_) => {},
                Err(e) => {
                    proof {
                        assert forall|q: Seq<char>|
                            #![trigger so_far.contains_key(q)]
                            #![trigger so_far[q]]
                            so_far.contains_key(q) == rows.contains_key(q) && (
                            so_far.contains_key(q) ==> so_far[q] == rows[q] || in_range(
                                log,
                                from.0,
                                to.0,
                                q,
                            ) && so_far[q] == rows[q].with_deleted(true)) by {
                            if exists|j: int| 0 <= j < i && (#[trigger] values[j]).0 == q {
                                let j = choose|j: int| 0 <= j < i && (#[trigger] values[j]).0 == q;
                                assert(in_walk(start@, prefix@, Some(end@), values[j].0));
                            }
                        }
                        assert(mark_failed::<M>(rows, so_far, log, from.0, to.0, k, e@));
                    }
                    return Err(e);
                },
            }
            changed = changed.saturating_add(1);
            proof {
                done = done.insert(k);
                crate::table::lemma_same_rows(
                    messages.rows(),
                    marked_so_far(rows, values, i + 1),
                );
            }
        } else {
            proof {
                assert(rows[k].with_deleted(true) == rows[k]);
                crate::table::lemma_same_rows(
                    messages.rows(),
                    marked_so_far(rows, values, i + 1),
                );
            }
        }
        proof {
            assert forall|q: Seq<char>| #[trigger] done.contains(q) <==> exists|j: int|
                0 <= j < i + 1 && (#[trigger] values[j]).0 == q && !values[j].1.deleted by {
                if done.contains(q) && q != k {
                    assert(before.contains(q));
                }
                if q == k && !rows[k].deleted {
                    assert(values[i as int].0 == q);
                }
            }
        }
    }
    proof {
        let end_row = values.len() as int;
        assert forall|k: Seq<char>| rows.contains_key(k) implies (#[trigger] in_range(
            log,
            from.0,
            to.0,
            k,
        ) <==> exists|j: int| 0 <= j < end_row && (#[trigger] values[j]).0 == k) by {}
        crate::table::lemma_same_rows(messages.rows(), marked(rows, log, from.0, to.0));
        assert(done =~= live_keys(rows, log, from.0, to.0)) by {
            assert forall|k: Seq<char>| done.contains(k) == live_keys(
                rows,
                log,
                from.0,
                to.0,
            ).contains(k) by {
                if done.contains(k) {
                    let j = choose|j: int|
                        0 <= j < end_row && (#[trigger] values[j]).0 == k && !values[j].1.deleted;
                    assert(rows.contains_key(k));
                    assert(in_range(log, from.0, to.0, k));
                }
                if live_keys(rows, log, from.0, to.0).contains(k) {
                    assert(in_range(log, from.0, to.0, k));
                    let j = choose|j: int| 0 <= j < end_row && (#[trigger] values[j]).0 == k;
                    assert(values[j].1 == rows[k]);
                }
            }
        }
    }
    let tombstone = TombstoneRange {
        topic: topic.clone(),
        origin: origin.clone(),
        from_head_id: from,
        to_head_id: to,
        created_at_ms: now,
    };
    let key = tombstone_key(topic, origin, from, to);
    tombstones.insert(key.as_str(), tombstone)?;
    Ok(changed)
}

/// Marks a range as [`tombstone_range`] does and appends `marker`, which tells of it.
pub fn tombstone_range_with_marker<
    H: OrderedTable<u64>,
    M: OrderedTable<StoredMessage>,
    T: OrderedTable<TombstoneRange>,
>(
    heads: &mut H,
    messages: &mut M,
    tombstones: &mut T,
    topic: &Topic,
    origin: &NodeId,
    from: HeadId,
    to: HeadId,
    marker: NewMessage,
    now: u64,
) -> (res: Result<(u64, StoredMessage), MsgbusError>)
    requires
        old(heads).valid(),
        old(messages).valid(),
        old(tombstones).valid(),
    ensures
        from.0 > to.0 ==> {
            &&& res matches Err(e)
            &&& e@ == range_error()
            &&& *final(heads) == *old(heads)
            &&& *final(messages) == *old(messages)
            &&& *final(tombstones) == *old(tombstones)
        },
        res matches Ok((changed, stored)) ==> {
            let log = crate::keys::log_of(topic@, origin@);
            let marker_log = crate::keys::log_of(marker.topic@, marker.origin@);
            let next = crate::ids::after(head_in(old(heads).rows(), marker_log));
            &&& final(heads).valid()
            &&& final(messages).valid()
            &&& final(tombstones).valid()
            &&& live_keys(old(messages).rows(), log, from.0, to.0).finite()
            &&& changed == live_keys(old(messages).rows(), log, from.0, to.0).len()
            &&& stored@ == crate::message::placed(marker@, next, now)
            &&& final(heads).rows() == old(heads).rows().insert(
                crate::keys::head_key_text(marker_log),
                next,
            )
            &&& final(messages).rows() == marked(old(messages).rows(), log, from.0, to.0).insert(
                crate::keys::message_key_text(marker_log, next),
                stored@,
            )
            &&& final(tombstones).rows() == old(tombstones).rows().insert(
                crate::keys::tombstone_key_text(log, from.0, to.0),
                crate::message::TombstoneView {
                    topic: topic@,
                    origin: origin@,
                    from_head_id: from.0,
                    to_head_id: to.0,
                    created_at_ms: now,
                },
            )
        },
        res matches Err(e) ==> {
            ||| from.0 > to.0
            ||| tombstone_failed::<M, T>(
                &*old(messages),
                old(tombstones).rows(),
                crate::store::tombstone_record(topic@, origin@, from.0, to.0, now),
                e@,
            )
            ||| append_failed::<H, M>(
                &*old(heads),
                marked(
                    old(messages).rows(),
                    crate::keys::log_of(topic@, origin@),
                    from.0,
                    to.0,
                ),
                marker@,
                now,
                e@,
            )
        },
        H::reliable() && M::reliable() && T::reliable() && from.0 <= to.0 ==> res is Ok,
{
    let changed: u64 = tombstone_range(messages, tombstones, topic, origin, from, to, now)?;
    let stored = append_message(heads, messages, marker, now)?;
    Ok((changed, stored))
}

/// What is said of a message that another one has taken the place of.
pub open spec fn taken_error() -> crate::error::ErrorView {
    crate::error::conflict("another message holds this position of the log"@)
}

/// The tables could not take a copy of `message`, and `e` tells why.
pub open spec fn replicate_failed<H: OrderedTable<u64>, M: OrderedTable<StoredMessage>>(
    heads: &H,
    messages: &M,
    message: crate::message::MessageView,
    e: ErrorView,
) -> bool {
    let log = crate::keys::log_of(message.topic, message.origin);
    let key = crate::keys::message_key_text(log, message.head_id);
    let head_key = crate::keys::head_key_text(log);
    let head = vstd::math::max(
        head_in(heads.rows(), log) as int,
        message.head_id as int,
    ) as u64;
    ||| crate::table::get_failed::<StoredMessage, M>(messages, key, e)
    ||| crate::table::get_failed::<u64, H>(heads, head_key, e)
    ||| !H::reliable() && H::insert_fails(heads.rows(), head_key, head, e)
    ||| !M::reliable() && M::insert_fails(messages.rows(), key, message, e)
}

/// Copies a message of a peer into its log, at its own position, unless it is there already.
pub fn put_replicated_message<H: OrderedTable<u64>, M: OrderedTable<StoredMessage>>(
    heads: &mut H,
    messages: &mut M,
    message: StoredMessage,
) -> (res: Result<ReplicateResult, MsgbusError>)
    requires
        old(heads).valid(),
        old(messages).valid(),
    ensures
        ({
            let log = crate::keys::log_of(message.topic@, message.origin@);
            let key = crate::keys::message_key_text(log, message.head_id.0);
            let there = old(messages).rows();
            match res {
                Ok(ReplicateResult::Inserted) => {
                    &&& !there.contains_key(key)
                    &&& final(heads).valid()
                    &&& final(messages).valid()
                    &&& final(messages).rows() == there.insert(key, message@)
                    &&& final(heads).rows() == old(heads).rows().insert(
                        crate::keys::head_key_text(log),
                        vstd::math::max(
                            head_in(old(heads).rows(), log) as int,
                            message.head_id.0 as int,
                        ) as u64,
                    )
                },
                Ok(ReplicateResult::AlreadyPresent) => {
                    &&& there.contains_key(key)
                    &&& there[key].id == message.id@
                    &&& *final(heads) == *old(heads)
                    &&& *final(messages) == *old(messages)
                },
                Err(e) => {
                    ||| {
                        &&& there.contains_key(key)
                        &&& there[key].id != message.id@
                        &&& e@ == taken_error()
                        &&& *final(heads) == *old(heads)
                        &&& *final(messages) == *old(messages)
                    }
                    ||| replicate_failed(&*old(heads), &*old(messages), message@, e@)
                },
            }
        }),
{
    let key = message_key(&message.topic, &message.origin, message.head_id);
    match row_under(&*messages, key.as_str())? {
        Some(there) => {
            if there.id == message.id {
                return Ok(ReplicateResult::AlreadyPresent);
            }
            return Err(
                MsgbusError::Conflict("another message holds this position of the log".to_owned()),
            );
        },
        None => {},
    }
    let head_key = head_key(&message.topic, &message.origin);
    let current: u64 = match row_under(&*heads, head_key.as_str())? {
        Some(head) => head,
        None => 0,
    };
    let head: u64 = if current < message.head_id.0 {
        message.head_id.0
    } else {
        current
    };
    heads.insert(head_key.as_str(), head)?;
    messages.insert(key.as_str(), message)?;
    Ok(ReplicateResult::Inserted)
}

/// The last number that `sequences` gives for a queue; zero where it gives none.
pub open spec fn sequence_in(sequences: Map<Seq<char>, u64>, queue: Seq<char>) -> u64 {
    if sequences.contains_key(crate::keys::fifo_sequence_key_text(queue)) {
        sequences[crate::keys::fifo_sequence_key_text(queue)]
    } else {
        0
    }
}

/// The tables could not take `message` at the back of its queue, and `e` tells why.
pub open spec fn enqueue_failed<S: OrderedTable<u64>, F: OrderedTable<StoredFifoMessage>>(
    sequences: &S,
    fifo: Map<Seq<char>, crate::message::FifoView>,
    message: crate::message::NewFifoView,
    now: u64,
    e: ErrorView,
) -> bool {
    let key = crate::keys::fifo_sequence_key_text(message.queue);
    let next = crate::ids::after(sequence_in(sequences.rows(), message.queue));
    ||| crate::table::get_failed::<u64, S>(sequences, key, e)
    ||| !S::reliable() && S::insert_fails(sequences.rows(), key, next, e)
    ||| !F::reliable() && F::insert_fails(
        fifo,
        crate::keys::fifo_message_key_text(message.queue, next),
        crate::message::queued(message, next, now),
        e,
    )
}

/// Puts a message at the back of its queue, under the number behind the last one.
pub fn enqueue_fifo<S: OrderedTable<u64>, F: OrderedTable<StoredFifoMessage>>(
    sequences: &mut S,
    fifo: &mut F,
    message: NewFifoMessage,
    now: u64,
) -> (res: Result<StoredFifoMessage, MsgbusError>)
    requires
        old(sequences).valid(),
        old(fifo).valid(),
    ensures
        res matches Ok(stored) ==> {
            let queue = message.queue@;
            let next = crate::ids::after(sequence_in(old(sequences).rows(), queue));
            &&& final(sequences).valid()
            &&& final(fifo).valid()
            &&& stored@ == crate::message::queued(message@, next, now)
            &&& final(sequences).rows() == old(sequences).rows().insert(
                crate::keys::fifo_sequence_key_text(queue),
                next,
            )
            &&& final(fifo).rows() == old(fifo).rows().insert(
                crate::keys::fifo_message_key_text(queue, next),
                stored@,
            )
        },
        res matches Err(e) ==> enqueue_failed::<S, F>(
            &*old(sequences),
            old(fifo).rows(),
            message@,
            now,
            e@,
        ),
        S::reliable() && F::reliable() ==> res is Ok,
{
    let sequence_key = fifo_sequence_key(&message.queue);
    let current: u64 = match row_under(&*sequences, sequence_key.as_str())? {
        Some(sequence) => sequence,
        None => 0,
    };
    let next: u64 = current.saturating_add(1);
    sequences.insert(sequence_key.as_str(), next)?;
    let stored = StoredFifoMessage::place(message, next, now);
    let key = fifo_message_key(&stored.queue, stored.sequence);
    fifo.insert(key.as_str(), stored.clone())?;
    Ok(stored)
}

/// `k` is the first key of the messages of a queue.
pub open spec fn is_front_key<W>(rows: Map<Seq<char>, W>, queue: Seq<char>, k: Seq<char>) -> bool {
    &&& rows.contains_key(k)
    &&& crate::text::starts_with(k, crate::keys::fifo_prefix_text(queue))
    &&& forall|other: Seq<char>| #[trigger]
        rows.contains_key(other) && crate::text::starts_with(
            other,
            crate::keys::fifo_prefix_text(queue),
        ) ==> crate::text::text_le(k, other)
}

/// No message of a queue is there.
pub open spec fn no_front_key<W>(rows: Map<Seq<char>, W>, queue: Seq<char>) -> bool {
    forall|k: Seq<char>| #[trigger]
        rows.contains_key(k) ==> !crate::text::starts_with(k, crate::keys::fifo_prefix_text(queue))
}

fn front_row<F: OrderedTable<StoredFifoMessage>>(fifo: &F, queue: &QueueName) -> (res: Result<
    Option<(String, StoredFifoMessage)>,
    MsgbusError,
>)
    requires
        fifo.valid(),
    ensures
        match res {
            Ok(Some((k, message))) => is_front_key(fifo.rows(), queue@, k@) && message@
                == fifo.rows()[k@],
            Ok(None) => no_front_key(fifo.rows(), queue@),
            Err(e) => crate::table::seek_failed::<StoredFifoMessage, F>(
                fifo,
                crate::keys::fifo_prefix_text(queue@),
                false,
                e@,
            ),
        },
{
    let prefix = fifo_prefix(queue);
    let ghost rows = fifo.rows();
    let ghost p = prefix@;
    let first = row_from(fifo, prefix.as_str(), false)?;
    proof {
        assert forall|k: Seq<char>| crate::text::starts_with(
            k,
            p,
        ) implies #[trigger] crate::text::text_le(p, k) by {
            if k.len() == p.len() {
                assert(k =~= k.take(p.len() as int));
            } else {
                assert forall|j: int| 0 <= j < p.len() implies p[j] == k[j] by {
                    assert(k.take(p.len() as int)[j] == k[j]);
                }
                assert(crate::text::parts_below(p, k, p.len() as int));
            }
        }
        assert(p.take(p.len() as int) =~= p);
    }
    match first {
        Some((k, message)) => {
            if !has_prefix(k.as_str(), prefix.as_str()) {
                proof {
                    assert forall|other: Seq<char>| #[trigger]
                        rows.contains_key(other) implies !crate::text::starts_with(other, p) by {
                        if crate::text::starts_with(other, p) {
                            assert(crate::text::text_le(p, other));
                            crate::text::lemma_prefix_contiguous(p, p, k@, other);
                        }
                    }
                }
                return Ok(None);
            }
            proof {
                assert forall|other: Seq<char>| #[trigger]
                    rows.contains_key(other) && crate::text::starts_with(
                        other,
                        p,
                    ) implies crate::text::text_le(k@, other) by {
                    assert(crate::text::text_le(p, other));
                }
            }
            Ok(Some((k, message)))
        },
        None => {
            proof {
                assert forall|other: Seq<char>| #[trigger]
                    rows.contains_key(other) implies !crate::text::starts_with(other, p) by {
                    if crate::text::starts_with(other, p) {
                        assert(crate::text::text_le(p, other));
                    }
                }
            }
            Ok(None)
        },
    }
}

/// The front message of a queue, left where it is.
pub fn peek_fifo<F: OrderedTable<StoredFifoMessage>>(fifo: &F, queue: &QueueName) -> (res: Result<
    Option<StoredFifoMessage>,
    MsgbusError,
>)
    requires
        fifo.valid(),
    ensures
        match res {
            Ok(Some(message)) => exists|k: Seq<char>| #[trigger]
                is_front_key(fifo.rows(), queue@, k) && message@ == fifo.rows()[k],
            Ok(None) => no_front_key(fifo.rows(), queue@),
            Err(e) => crate::table::seek_failed::<StoredFifoMessage, F>(
                fifo,
                crate::keys::fifo_prefix_text(queue@),
                false,
                e@,
            ),
        },
{
    match front_row(fifo, queue)? {
        Some((_, message)) => Ok(Some(message)),
        None => Ok(None),
    }
}

/// What is done with the front message of a queue.
#[derive(Copy, Clone, Debug, PartialEq, Eq, Structural)]
pub enum FifoFrontAction {
    Ack,
    Reject,
}

/// The front message of a queue, the one with identifier `id`, stands under `k` and could not be
/// taken away, or no attempt could be counted for it, and `e` tells why.
pub open spec fn front_failed<F: OrderedTable<StoredFifoMessage>>(
    rows: Map<Seq<char>, crate::message::FifoView>,
    queue: Seq<char>,
    id: Seq<char>,
    action: FifoFrontAction,
    k: Seq<char>,
    e: ErrorView,
) -> bool {
    &&& !F::reliable()
    &&& is_front_key(rows, queue, k)
    &&& rows[k].id == id
    &&& match action {
        FifoFrontAction::Ack => F::remove_fails(rows, k, e),
        FifoFrontAction::Reject => F::insert_fails(rows, k, rows[k].attempted(), e),
    }
}

/// Takes the front message of a queue away, or counts one more attempt for it, if it is the one
/// with identifier `message_id`; otherwise leaves the queue as it is and says so.
pub fn update_fifo_front<F: OrderedTable<StoredFifoMessage>>(
    fifo: &mut F,
    queue: &QueueName,
    message_id: &MessageId,
    action: FifoFrontAction,
) -> (res: Result<bool, MsgbusError>)
    requires
        old(fifo).valid(),
    ensures
        match res {
            Ok(true) => final(fifo).valid() && exists|k: Seq<char>| #[trigger]
                is_front_key(old(fifo).rows(), queue@, k) && old(fifo).rows()[k].id == message_id@
                    && final(fifo).rows() == match action {
                    FifoFrontAction::Ack => old(fifo).rows().remove(k),
                    FifoFrontAction::Reject => old(fifo).rows().insert(
                        k,
                        old(fifo).rows()[k].attempted(),
                    ),
                },
            Ok(false) => *final(fifo) == *old(fifo) && (no_front_key(old(fifo).rows(), queue@)
                || exists|k: Seq<char>| #[trigger]
                is_front_key(old(fifo).rows(), queue@, k) && old(fifo).rows()[k].id != message_id@),
            Err(e) => {
                ||| crate::table::seek_failed::<StoredFifoMessage, F>(
                    &*old(fifo),
                    crate::keys::fifo_prefix_text(queue@),
                    false,
                    e@,
                )
                ||| exists|k: Seq<char>| #[trigger]
                    front_failed::<F>(old(fifo).rows(), queue@, message_id@, action, k, e@)
            },
        },
{
    let ghost rows = fifo.rows();
    match front_row(&*fifo, queue)? {
        Some((k, message)) => {
            if message.id != *message_id {
                return Ok(false);
            }
            let done = match action {
                FifoFrontAction::Ack => fifo.remove(k.as_str()),
                FifoFrontAction::Reject => {
                    let mut attempted = message;
                    attempted.attempts = attempted.attempts.saturating_add(1);
                    fifo.insert(k.as_str(), attempted)
                },
            };
            match done {
                Ok(_) => Ok(true),
                Err(e) => {
                    assert(front_failed::<F>(rows, queue@, message_id@, action, k@, e@));
                    Err(e)
                },
            }
        },
        None => Ok(false),
    }
}

/// Keeps what is known of a log at a peer, in place of what was known before.
pub fn put_peer_sync_state<P: OrderedTable<PeerSyncState>>(
    states: &mut P,
    state: PeerSyncState,
) -> (res: Result<(), MsgbusError>)
    requires
        old(states).valid(),
    ensures
        ({
            let key = crate::keys::sync_key_text(
                state.peer@,
                crate::keys::log_of(state.topic@, state.origin@),
            );
            match res {
                Ok(_) => final(states).valid() && final(states).rows()
                    == old(states).rows().insert(key, state@),
                Err(e) => !P::reliable() && P::insert_fails(
                    old(states).rows(),
                    key,
                    state@,
                    e@,
                ),
            }
        }),
{
    let key = sync_key(state.peer.as_str(), &state.topic, &state.origin);
    states.insert(key.as_str(), state)
}

/// What is known of the log of `topic` and `origin` at `peer`.
pub fn get_peer_sync_state<P: OrderedTable<PeerSyncState>>(
    states: &P,
    peer: &str,
    topic: &Topic,
    origin: &NodeId,
) -> (res: Result<Option<PeerSyncState>, MsgbusError>)
    requires
        states.valid(),
    ensures
        ({
            let key = crate::keys::sync_key_text(peer@, crate::keys::log_of(topic@, origin@));
            match res {
                Ok(Some(state)) => states.rows().contains_key(key) && state@ == states.rows()[key],
                Ok(None) => !states.rows().contains_key(key),
                Err(e) => crate::table::get_failed::<PeerSyncState, P>(states, key, e@),
            }
        }),
{
    let key = sync_key(peer, topic, origin);
    row_under(states, key.as_str())
}

/// All that is known of logs at peers.
pub fn list_peer_sync_states<P: OrderedTable<PeerSyncState>>(states: &P) -> (res: Result<
    Vec<PeerSyncState>,
    MsgbusError,
>)
    requires
        states.valid(),
    ensures
        res matches Ok(out) ==> exists|
            rows: Seq<(Seq<char>, crate::message::SyncStateView)>,
        | #[trigger]
            is_walk(states.rows(), "sync/"@, "sync/"@, None, None, rows) && values_of(out@)
                == without_keys(rows),
        res matches Err(e) ==> walk_failed::<PeerSyncState, P>(
            states,
            "sync/"@,
            "sync/"@,
            None,
            e@,
        ),
        P::reliable() ==> res is Ok,
{
    proof {
        assert("sync/"@.take("sync/"@.len() as int) =~= "sync/"@);
    }
    let rows = walk(states, "sync/", "sync/", None, None)?;
    let ghost values = row_values(rows@);
    let mut out: Vec<PeerSyncState> = Vec::new();
    for i in 0..rows.len()
        invariant
            values == row_values(rows@),
            out@.len() == i,
            forall|j: int| 0 <= j < i ==> (#[trigger] out@[j])@ == values[j].1,
    {
        out.push(rows[i].1.clone());
    }
    proof {
        assert(values_of(out@) =~= without_keys(values));
        assert(is_walk(states.rows(), "sync/"@, "sync/"@, None, None, values));
    }
    Ok(out)
}

} // verus!

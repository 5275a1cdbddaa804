//! What the SQL store writes into its rows and reads out of them.
//!
//! SQLite holds signed integers of 64 bits, so that positions, numbers and times are checked on
//! the way in and on the way out. The functions here say what a statement is given, and what is
//! made of what it gives back; the statements themselves are run elsewhere.

use std::collections::BTreeMap;

use vstd::prelude::*;
use vstd::string::*;

use crate::engine::effective_limit;
use crate::engine::FifoFrontAction;
use crate::error::ErrorKind;
use crate::error::ErrorView;
use crate::error::MsgbusError;
use crate::ids::HeadId;
use crate::ids::MessageId;
use crate::ids::NodeId;
use crate::ids::NodeView;
use crate::ids::QueueName;
use crate::ids::Topic;
use crate::message::FetchQuery;
use crate::message::FifoView;
use crate::message::MessageView;
use crate::message::NewFifoMessage;
use crate::message::NewFifoView;
use crate::message::NewMessage;
use crate::message::NewMessageView;
use crate::message::PeerSyncState;
use crate::message::StoredFifoMessage;
use crate::message::StoredMessage;
use crate::message::SyncStateView;
use crate::message::TombstoneRange;
use crate::message::TombstoneView;
use crate::message::TopicHead;
use crate::message::TopicHeadView;
use crate::store::StoreView;

verus! {

/// A number in decimal digits, with a sign where it is negative.
pub open spec fn signed_decimal(v: int) -> Seq<char> {
    if v < 0 {
        seq!['-'] + crate::text::decimal((-v) as nat)
    } else {
        crate::text::decimal(v as nat)
    }
}

/// The refusal of a number that SQLite cannot hold.
pub open spec fn exceeds_error(v: u64) -> ErrorView {
    crate::error::invalid_argument(crate::text::decimal(v as nat) + " exceeds i64"@)
}

/// What is said of a negative number where none can stand.
pub open spec fn negative_error(v: i64) -> ErrorView {
    crate::error::storage_failure(
        "negative integer stored in sqlite: "@ + signed_decimal(v as int),
    )
}

/// A number as SQLite holds it.
pub open spec fn sql_int(v: u64) -> Result<i64, ErrorView> {
    if v <= i64::MAX {
        Ok(v as i64)
    } else {
        Err(exceeds_error(v))
    }
}

/// A number that SQLite holds, as one that is not negative.
pub open spec fn sql_nat(v: i64) -> Result<u64, ErrorView> {
    if v >= 0 {
        Ok(v as u64)
    } else {
        Err(negative_error(v))
    }
}

/// A number as SQLite holds it.
pub fn u64_to_i64(value: u64) -> (res: Result<i64, MsgbusError>)
    ensures
        crate::error::is_outcome(res, sql_int(value)),
{
    if value <= i64::MAX as u64 {
        Ok(value as i64)
    } else {
        let mut text = String::new();
        crate::text::push_decimal(&mut text, value);
        text.append(" exceeds i64");
        assert(text@ =~= crate::text::decimal(value as nat) + " exceeds i64"@);
        Err(MsgbusError::InvalidArgument(text))
    }
}

/// A number that SQLite holds, as one that is not negative.
pub fn i64_to_u64(value: i64) -> (res: Result<u64, MsgbusError>)
    ensures
        crate::error::is_outcome(res, sql_nat(value)),
{
    if value >= 0 {
        Ok(value as u64)
    } else {
        let size: u64 = if value == i64::MIN {
            9_223_372_036_854_775_808
        } else {
            (-value) as u64
        };
        let mut text = "negative integer stored in sqlite: ".to_owned();
        text.append("-");
        crate::text::push_decimal(&mut text, size);
        proof {
            reveal_strlit("-");
            assert("-"@ =~= seq!['-']);
            assert(text@ =~= "negative integer stored in sqlite: "@ + signed_decimal(
                value as int,
            ));
        }
        Err(MsgbusError::Storage(text))
    }
}

/// What SQLite holds of a number is read back as the number.
pub proof fn law_sql_integers_read_back(v: u64)
    ensures
        sql_int(v) is Ok <==> v <= i64::MAX,
        sql_int(v) is Ok ==> sql_nat(sql_int(v)->Ok_0) == Ok::<u64, ErrorView>(v),
{
}

/// The last position that a row gives, or zero where there is none.
pub open spec fn current_of(row: Option<i64>) -> Result<u64, ErrorView> {
    match row {
        Some(v) => sql_nat(v),
        None => Ok(0u64),
    }
}

fn current(row: Option<i64>) -> (res: Result<u64, MsgbusError>)
    ensures
        crate::error::is_outcome(res, current_of(row)),
{
    match row {
        Some(v) => i64_to_u64(v),
        None => Ok(0),
    }
}

/// What the row of a last position says.
pub open spec fn head_of_row(row: Option<i64>) -> Result<Option<HeadId>, ErrorView> {
    match row {
        Some(v) => match sql_nat(v) {
            Ok(head) => Ok(Some(HeadId(head))),
            Err(e) => Err(e),
        },
        None => Ok(None),
    }
}

/// The last position of a log, by what the statement gave.
pub fn read_head(row: Option<i64>) -> (res: Result<Option<HeadId>, MsgbusError>)
    ensures
        crate::error::is_outcome(res, head_of_row(row)),
{
    match row {
        Some(v) => match i64_to_u64(v) {
            Ok(head) => Ok(Some(HeadId(head))),
            Err(e) => Err(e),
        },
        None => Ok(None),
    }
}

/// How headers read as JSON: what `serde_json::to_string` writes for them.
pub uninterp spec fn headers_json(headers: Map<String, String>) -> Seq<char>;

/// What `serde_json::from_str` reads out of a text: headers, or what is wrong with the text.
pub uninterp spec fn headers_read(text: Seq<char>) -> Result<Map<String, String>, Seq<char>>;

/// The text is read as these headers.
pub open spec fn reads_as(text: Seq<char>, headers: Map<String, String>) -> bool {
    headers_read(text) matches Ok(read) && read == headers
}

/// Calls `serde_json::to_string` on a map from texts to texts, which it writes without fail as an
/// object with one member for each header. What it writes is read back as the same headers. Which
/// text that is, is not said here beyond its name.
#[verifier::external_body]
fn write_headers(headers: &BTreeMap<String, String>) -> (res: Result<String, String>)
    ensures
        res is Ok,
        (res->Ok_0)@ == headers_json(headers@),
        reads_as((res->Ok_0)@, headers@),
{
    serde_json::to_string(headers).map_err(|e| e.to_string())
}

/// Calls `serde_json::from_str` for a map from texts to texts; the error is given as it reads.
/// What is read out of which text is not said here beyond its name.
#[verifier::external_body]
fn read_headers(text: &str) -> (res: Result<BTreeMap<String, String>, String>)
    ensures
        match res {
            Ok(headers) => reads_as(text@, headers@),
            Err(e) => headers_read(text@) matches Err(wrong) && wrong == e@,
        },
{
    serde_json::from_str(text).map_err(|e| e.to_string())
}

/// Headers that were read out of a text, or the error that tells what is wrong with the text.
pub open spec fn headers_or_error(read: Result<Map<String, String>, Seq<char>>) -> Result<
    Map<String, String>,
    ErrorView,
> {
    match read {
        Ok(headers) => Ok(headers),
        Err(text) => Err(ErrorView { kind: ErrorKind::Serialization, text }),
    }
}

/// What was made of an attempt to read headers.
pub fn headers_result(read: Result<BTreeMap<String, String>, String>) -> (res: Result<
    BTreeMap<String, String>,
    MsgbusError,
>)
    ensures
        match read {
            Ok(headers) => res == Ok::<BTreeMap<String, String>, MsgbusError>(headers),
            Err(text) => res matches Err(e) && e@ == (ErrorView {
                kind: ErrorKind::Serialization,
                text: text@,
            }),
        },
{
    match read {
        Ok(headers) => Ok(headers),
        Err(text) => Err(MsgbusError::Serialization(text)),
    }
}

/// Headers as JSON.
pub fn encode_headers(headers: &BTreeMap<String, String>) -> (res: Result<String, MsgbusError>)
    ensures
        res matches Ok(text) && text@ == headers_json(headers@) && reads_as(text@, headers@),
{
    match write_headers(headers) {
        Ok(text) => Ok(text),
        Err(text) => Err(MsgbusError::Serialization(text)),
    }
}

/// The headers that a JSON text holds.
pub fn decode_headers(text: &str) -> (res: Result<BTreeMap<String, String>, MsgbusError>)
    ensures
        decoded_headers(res) == headers_or_error(headers_read(text@)),
{
    headers_result(read_headers(text))
}

/// What is written to append a message.
pub struct AppendPlan {
    pub stored: StoredMessage,
    pub origin_key: String,
    pub head_id: i64,
    pub headers_json: String,
    pub created_at_ms: i64,
}

/// An [`AppendPlan`] as a value.
pub struct AppendView {
    pub stored: MessageView,
    pub origin_key: Seq<char>,
    pub head_id: i64,
    pub headers_json: Seq<char>,
    pub created_at_ms: i64,
}

impl View for AppendPlan {
    type V = AppendView;

    open spec fn view(&self) -> AppendView {
        AppendView {
            stored: self.stored@,
            origin_key: self.origin_key@,
            head_id: self.head_id,
            headers_json: self.headers_json@,
            created_at_ms: self.created_at_ms,
        }
    }
}

/// How `stored` is written into its row.
pub open spec fn message_columns(stored: MessageView) -> Result<AppendView, ErrorView> {
    match sql_int(stored.head_id) {
        Err(e) => Err(e),
        Ok(head_id) => match sql_int(stored.created_at_ms) {
            Err(e) => Err(e),
            Ok(created_at_ms) => Ok(
                AppendView {
                    stored,
                    origin_key: stored.origin.log_key(),
                    head_id,
                    headers_json: headers_json(stored.headers),
                    created_at_ms,
                },
            ),
        },
    }
}

/// What is written to append `message` behind the position that `row` gives.
pub open spec fn append_columns(row: Option<i64>, message: NewMessageView, now: u64) -> Result<
    AppendView,
    ErrorView,
> {
    match current_of(row) {
        Err(e) => Err(e),
        Ok(head) => message_columns(
            crate::message::placed(message, crate::ids::after(head), now),
        ),
    }
}

/// How a message is written into its row.
pub fn plan_message(stored: StoredMessage) -> (res: Result<AppendPlan, MsgbusError>)
    ensures
        crate::error::is_outcome_of(res, message_columns(stored@)),
        res matches Ok(plan) ==> reads_as(plan.headers_json@, stored@.headers),
{
    let head_id: i64 = u64_to_i64(stored.head_id.0)?;
    let headers_json = encode_headers(&stored.headers)?;
    let created_at_ms: i64 = u64_to_i64(stored.created_at_ms)?;
    let origin_key = stored.origin.log_key();
    Ok(AppendPlan { stored, origin_key, head_id, headers_json, created_at_ms })
}

/// What is written to append a message to its log, of which `row` is the last position.
pub fn plan_append(row: Option<i64>, message: NewMessage, now: u64) -> (res: Result<
    AppendPlan,
    MsgbusError,
>)
    ensures
        crate::error::is_outcome_of(res, append_columns(row, message@, now)),
        res matches Ok(plan) ==> reads_as(plan.headers_json@, message@.headers),
{
    let head: u64 = current(row)?;
    plan_message(StoredMessage::place(message, HeadId(head.saturating_add(1)), now))
}

/// What a fetch asks for.
pub struct FetchPlan {
    pub topic: String,
    pub origin_key: String,
    pub from_head_id: i64,
    pub limit: u32,
}

/// A [`FetchPlan`] as a value.
pub struct FetchPlanView {
    pub topic: Seq<char>,
    pub origin_key: Seq<char>,
    pub from_head_id: i64,
    pub limit: nat,
}

impl View for FetchPlan {
    type V = FetchPlanView;

    open spec fn view(&self) -> FetchPlanView {
        FetchPlanView {
            topic: self.topic@,
            origin_key: self.origin_key@,
            from_head_id: self.from_head_id,
            limit: self.limit as nat,
        }
    }
}

/// What the statement of a fetch is given.
pub open spec fn fetch_columns(topic: Seq<char>, origin: NodeView, from: u64, limit: u32) -> Result<
    FetchPlanView,
    ErrorView,
> {
    match sql_int(from) {
        Err(e) => Err(e),
        Ok(from_head_id) => Ok(
            FetchPlanView {
                topic,
                origin_key: origin.log_key(),
                from_head_id,
                limit: crate::engine::page_size(limit),
            },
        ),
    }
}

/// What the statement of a fetch is given.
pub fn plan_fetch(query: FetchQuery) -> (res: Result<FetchPlan, MsgbusError>)
    ensures
        crate::error::is_outcome_of(
            res,
            fetch_columns(query.topic@, query.origin@, query.from_head_id.0, query.limit),
        ),
{
    let from_head_id: i64 = u64_to_i64(query.from_head_id.0)?;
    let limit: usize = effective_limit(query.limit);
    let origin_key = query.origin.log_key();
    Ok(
        FetchPlan {
            topic: query.topic.into_string(),
            origin_key,
            from_head_id,
            limit: limit as u32,
        },
    )
}

/// What is written to mark a range as deleted.
pub struct TombstonePlan {
    pub tombstone: TombstoneRange,
    pub origin_key: String,
    pub from_head_id: i64,
    pub to_head_id: i64,
    pub created_at_ms: i64,
}

/// A [`TombstonePlan`] as a value.
pub struct TombstonePlanView {
    pub tombstone: TombstoneView,
    pub origin_key: Seq<char>,
    pub from_head_id: i64,
    pub to_head_id: i64,
    pub created_at_ms: i64,
}

impl View for TombstonePlan {
    type V = TombstonePlanView;

    open spec fn view(&self) -> TombstonePlanView {
        TombstonePlanView {
            tombstone: self.tombstone@,
            origin_key: self.origin_key@,
            from_head_id: self.from_head_id,
            to_head_id: self.to_head_id,
            created_at_ms: self.created_at_ms,
        }
    }
}

/// What is written to mark a range as deleted.
pub open spec fn tombstone_columns(record: TombstoneView) -> Result<TombstonePlanView, ErrorView> {
    if record.from_head_id > record.to_head_id {
        Err(crate::engine::range_error())
    } else {
        match sql_int(record.from_head_id) {
            Err(e) => Err(e),
            Ok(from_head_id) => match sql_int(record.to_head_id) {
                Err(e) => Err(e),
                Ok(to_head_id) => match sql_int(record.created_at_ms) {
                    Err(e) => Err(e),
                    Ok(created_at_ms) => Ok(
                        TombstonePlanView {
                            tombstone: record,
                            origin_key: record.origin.log_key(),
                            from_head_id,
                            to_head_id,
                            created_at_ms,
                        },
                    ),
                },
            },
        }
    }
}

/// What is written to mark a range as deleted.
pub fn plan_tombstone(topic: &Topic, origin: &NodeId, from: HeadId, to: HeadId, now: u64) -> (res:
    Result<TombstonePlan, MsgbusError>)
    ensures
        crate::error::is_outcome_of(
            res,
            tombstone_columns(
                crate::store::tombstone_record(topic@, origin@, from.0, to.0, now),
            ),
        ),
{
    if from.0 > to.0 {
        return Err(MsgbusError::InvalidArgument("from_head_id must be <= to_head_id".to_owned()));
    }
    let from_head_id: i64 = u64_to_i64(from.0)?;
    let to_head_id: i64 = u64_to_i64(to.0)?;
    let created_at_ms: i64 = u64_to_i64(now)?;
    let tombstone = TombstoneRange {
        topic: topic.clone(),
        origin: origin.clone(),
        from_head_id: from,
        to_head_id: to,
        created_at_ms: now,
    };
    Ok(
        TombstonePlan {
            tombstone,
            origin_key: origin.log_key(),
            from_head_id,
            to_head_id,
            created_at_ms,
        },
    )
}

/// What is written to put a message at the back of a queue.
pub struct EnqueuePlan {
    pub stored: StoredFifoMessage,
    pub sequence: i64,
    pub headers_json: String,
    pub created_at_ms: i64,
}

/// An [`EnqueuePlan`] as a value.
pub struct EnqueueView {
    pub stored: FifoView,
    pub sequence: i64,
    pub headers_json: Seq<char>,
    pub created_at_ms: i64,
}

impl View for EnqueuePlan {
    type V = EnqueueView;

    open spec fn view(&self) -> EnqueueView {
        EnqueueView {
            stored: self.stored@,
            sequence: self.sequence,
            headers_json: self.headers_json@,
            created_at_ms: self.created_at_ms,
        }
    }
}

/// How a message of a queue is written into its row.
pub open spec fn fifo_columns(stored: FifoView) -> Result<EnqueueView, ErrorView> {
    match sql_int(stored.sequence) {
        Err(e) => Err(e),
        Ok(sequence) => match sql_int(stored.created_at_ms) {
            Err(e) => Err(e),
            Ok(created_at_ms) => Ok(
                EnqueueView {
                    stored,
                    sequence,
                    headers_json: headers_json(stored.headers),
                    created_at_ms,
                },
            ),
        },
    }
}

/// What is written to put `message` behind the number that `row` gives.
pub open spec fn enqueue_columns(row: Option<i64>, message: NewFifoView, now: u64) -> Result<
    EnqueueView,
    ErrorView,
> {
    match current_of(row) {
        Err(e) => Err(e),
        Ok(last) => fifo_columns(crate::message::queued(message, crate::ids::after(last), now)),
    }
}

/// What is written to put a message at the back of its queue, of which `row` is the last number.
pub fn plan_enqueue(row: Option<i64>, message: NewFifoMessage, now: u64) -> (res: Result<
    EnqueuePlan,
    MsgbusError,
>)
    ensures
        crate::error::is_outcome_of(res, enqueue_columns(row, message@, now)),
        res matches Ok(plan) ==> reads_as(plan.headers_json@, message@.headers),
{
    let last: u64 = current(row)?;
    let stored = StoredFifoMessage::place(message, last.saturating_add(1), now);
    let sequence: i64 = u64_to_i64(stored.sequence)?;
    let headers_json = encode_headers(&stored.headers)?;
    let created_at_ms: i64 = u64_to_i64(stored.created_at_ms)?;
    Ok(EnqueuePlan { stored, sequence, headers_json, created_at_ms })
}

/// What is done with the front row of a queue.
#[derive(Copy, Clone, Debug, PartialEq, Eq, Structural)]
pub enum FrontPlan {
    /// Nothing: the message was not the front one.
    Keep,
    /// The row with this number goes.
    Delete { sequence: i64 },
    /// The row with this number counts this many attempts.
    SetAttempts { sequence: i64, attempts: u32 },
}

/// What is done with the front row of a queue.
pub open spec fn front_plan(front: Option<FifoView>, id: Seq<char>, action: FifoFrontAction) -> Result<
    FrontPlan,
    ErrorView,
> {
    match front {
        None => Ok(FrontPlan::Keep),
        Some(message) => if message.id != id {
            Ok(FrontPlan::Keep)
        } else {
            match sql_int(message.sequence) {
                Err(e) => Err(e),
                Ok(sequence) => Ok(
                    match action {
                        FifoFrontAction::Ack => FrontPlan::Delete { sequence },
                        FifoFrontAction::Reject => FrontPlan::SetAttempts {
                            sequence,
                            attempts: message.attempted().attempts,
                        },
                    },
                ),
            }
        },
    }
}

/// What is done with the front row of a queue, `front`, where `message_id` is acknowledged or
/// rejected.
pub fn plan_front(
    front: Option<StoredFifoMessage>,
    message_id: &MessageId,
    action: FifoFrontAction,
) -> (res: Result<FrontPlan, MsgbusError>)
    ensures
        crate::error::is_outcome(
            res,
            front_plan(
                match front {
                    Some(message) => Some(message@),
                    None => None,
                },
                message_id@,
                action,
            ),
        ),
{
    match front {
        None => Ok(FrontPlan::Keep),
        Some(message) => {
            if message.id != *message_id {
                return Ok(FrontPlan::Keep);
            }
            let sequence: i64 = u64_to_i64(message.sequence)?;
            match action {
                FifoFrontAction::Ack => Ok(FrontPlan::Delete { sequence }),
                FifoFrontAction::Reject => Ok(
                    FrontPlan::SetAttempts {
                        sequence,
                        attempts: message.attempts.saturating_add(1),
                    },
                ),
            }
        },
    }
}

/// A row of the messages, its JSON columns decoded as far as they could be.
pub struct MessageRow {
    pub id: String,
    pub topic: String,
    pub origin: Result<NodeId, MsgbusError>,
    pub head_id: i64,
    pub payload: Vec<u8>,
    pub headers: Result<BTreeMap<String, String>, MsgbusError>,
    pub created_at_ms: i64,
    pub deleted: bool,
}

/// A [`MessageRow`] as a value.
pub struct MessageRowView {
    pub id: Seq<char>,
    pub topic: Seq<char>,
    pub origin: Result<NodeView, ErrorView>,
    pub head_id: i64,
    pub payload: Seq<u8>,
    pub headers: Result<Map<String, String>, ErrorView>,
    pub created_at_ms: i64,
    pub deleted: bool,
}

/// A node that was decoded, or what went wrong, as a value.
pub open spec fn decoded_node(node: Result<NodeId, MsgbusError>) -> Result<NodeView, ErrorView> {
    match node {
        Ok(n) => Ok(n@),
        Err(e) => Err(e@),
    }
}

/// Headers that were decoded, or what went wrong, as a value.
pub open spec fn decoded_headers(headers: Result<BTreeMap<String, String>, MsgbusError>) -> Result<
    Map<String, String>,
    ErrorView,
> {
    match headers {
        Ok(h) => Ok(h@),
        Err(e) => Err(e@),
    }
}

impl View for MessageRow {
    type V = MessageRowView;

    open spec fn view(&self) -> MessageRowView {
        MessageRowView {
            id: self.id@,
            topic: self.topic@,
            origin: decoded_node(self.origin),
            head_id: self.head_id,
            payload: self.payload@,
            headers: decoded_headers(self.headers),
            created_at_ms: self.created_at_ms,
            deleted: self.deleted,
        }
    }
}

/// The message that a row holds, or the first fault of the row.
pub open spec fn message_of_row(row: MessageRowView) -> Result<MessageView, ErrorView> {
    match (sql_nat(row.head_id), sql_nat(row.created_at_ms)) {
        (Err(e), _) => Err(e),
        (_, Err(e)) => Err(e),
        (Ok(head_id), Ok(created_at_ms)) => match (
            crate::ids::part_error("message_id"@, row.id),
            crate::ids::part_error("topic"@, row.topic),
            row.origin,
            row.headers,
        ) {
            (Some(e), _, _, _) => Err(e),
            (_, Some(e), _, _) => Err(e),
            (_, _, Err(e), _) => Err(e),
            (_, _, _, Err(e)) => Err(e),
            (_, _, Ok(origin), Ok(headers)) => Ok(
                MessageView {
                    id: row.id,
                    topic: row.topic,
                    origin,
                    head_id,
                    payload: row.payload,
                    headers,
                    created_at_ms,
                    deleted: row.deleted,
                },
            ),
        },
    }
}

/// The message that a row holds.
pub fn row_to_message(row: MessageRow) -> (res: Result<StoredMessage, MsgbusError>)
    ensures
        crate::error::is_outcome_of(res, message_of_row(row@)),
{
    let head_id: u64 = i64_to_u64(row.head_id)?;
    let created_at_ms: u64 = i64_to_u64(row.created_at_ms)?;
    let id = MessageId::from_string(row.id.as_str())?;
    let topic = Topic::new(row.topic.as_str())?;
    let origin = row.origin?;
    let headers = row.headers?;
    Ok(
        StoredMessage {
            id,
            topic,
            origin,
            head_id: HeadId(head_id),
            payload: row.payload,
            headers,
            created_at_ms,
            deleted: row.deleted,
        },
    )
}

/// A row of the queues, its JSON columns decoded as far as they could be.
pub struct FifoRow {
    pub queue: String,
    pub sequence: i64,
    pub id: String,
    pub topic: String,
    pub source: Result<NodeId, MsgbusError>,
    pub target: Result<NodeId, MsgbusError>,
    pub payload: Vec<u8>,
    pub headers: Result<BTreeMap<String, String>, MsgbusError>,
    pub created_at_ms: i64,
    pub attempts: u32,
}

/// A [`FifoRow`] as a value.
pub struct FifoRowView {
    pub queue: Seq<char>,
    pub sequence: i64,
    pub id: Seq<char>,
    pub topic: Seq<char>,
    pub source: Result<NodeView, ErrorView>,
    pub target: Result<NodeView, ErrorView>,
    pub payload: Seq<u8>,
    pub headers: Result<Map<String, String>, ErrorView>,
    pub created_at_ms: i64,
    pub attempts: u32,
}

impl View for FifoRow {
    type V = FifoRowView;

    open spec fn view(&self) -> FifoRowView {
        FifoRowView {
            queue: self.queue@,
            sequence: self.sequence,
            id: self.id@,
            topic: self.topic@,
            source: decoded_node(self.source),
            target: decoded_node(self.target),
            payload: self.payload@,
            headers: decoded_headers(self.headers),
            created_at_ms: self.created_at_ms,
            attempts: self.attempts,
        }
    }
}

/// What is wrong with the names of a row of the queues: the first of them that is not accepted.
pub open spec fn fifo_names_error(row: FifoRowView) -> Option<ErrorView> {
    match (
        crate::ids::part_error("message_id"@, row.id),
        crate::ids::part_error("queue"@, row.queue),
        crate::ids::part_error("topic"@, row.topic),
    ) {
        (Some(e), _, _) => Some(e),
        (_, Some(e), _) => Some(e),
        (_, _, e) => e,
    }
}

/// The message that a row of the queues holds, or the first fault of the row.
pub open spec fn fifo_of_row(row: FifoRowView) -> Result<FifoView, ErrorView> {
    match (sql_nat(row.sequence), sql_nat(row.created_at_ms)) {
        (Err(e), _) => Err(e),
        (_, Err(e)) => Err(e),
        (Ok(sequence), Ok(created_at_ms)) => match (
            fifo_names_error(row),
            row.source,
            row.target,
            row.headers,
        ) {
            (Some(e), _, _, _) => Err(e),
            (_, Err(e), _, _) => Err(e),
            (_, _, Err(e), _) => Err(e),
            (_, _, _, Err(e)) => Err(e),
            (None, Ok(source), Ok(target), Ok(headers)) => Ok(
                FifoView {
                    id: row.id,
                    queue: row.queue,
                    topic: row.topic,
                    source,
                    target,
                    payload: row.payload,
                    headers,
                    created_at_ms,
                    sequence,
                    attempts: row.attempts,
                },
            ),
        },
    }
}

/// The message that a row of the queues holds.
pub fn row_to_fifo(row: FifoRow) -> (res: Result<StoredFifoMessage, MsgbusError>)
    ensures
        crate::error::is_outcome_of(res, fifo_of_row(row@)),
{
    let sequence: u64 = i64_to_u64(row.sequence)?;
    let created_at_ms: u64 = i64_to_u64(row.created_at_ms)?;
    let id = MessageId::from_string(row.id.as_str())?;
    let queue = QueueName::new(row.queue.as_str())?;
    let topic = Topic::new(row.topic.as_str())?;
    let source = row.source?;
    let target = row.target?;
    let headers = row.headers?;
    Ok(
        StoredFifoMessage {
            id,
            queue,
            topic,
            source,
            target,
            payload: row.payload,
            headers,
            created_at_ms,
            sequence,
            attempts: row.attempts,
        },
    )
}

/// What is done with a message of a peer.
pub enum ReplicatePlan {
    /// Nothing: it is there.
    Present,
    /// It is written into its row, and the last position of its log becomes `head`.
    Insert { columns: AppendPlan, head: i64 },
}

/// A [`ReplicatePlan`] as a value.
pub enum ReplicatePlanView {
    Present,
    Insert { columns: AppendView, head: i64 },
}

impl View for ReplicatePlan {
    type V = ReplicatePlanView;

    open spec fn view(&self) -> ReplicatePlanView {
        match *self {
            ReplicatePlan::Present => ReplicatePlanView::Present,
            ReplicatePlan::Insert { columns, head } => ReplicatePlanView::Insert {
                columns: columns@,
                head,
            },
        }
    }
}

/// What is done with the message `m` of a peer, where `there` is the identifier of the message at
/// its position, and `row` is the last position of its log.
pub open spec fn replicate_columns(
    there: Option<Seq<char>>,
    row: Option<i64>,
    m: MessageView,
) -> Result<ReplicatePlanView, ErrorView> {
    match there {
        Some(id) => if id == m.id {
            Ok(ReplicatePlanView::Present)
        } else {
            Err(crate::engine::taken_error())
        },
        None => match (current_of(row), message_columns(m)) {
            (Err(e), _) => Err(e),
            (_, Err(e)) => Err(e),
            (Ok(current), Ok(columns)) => Ok(
                ReplicatePlanView::Insert {
                    columns,
                    head: if current < m.head_id {
                        columns.head_id
                    } else {
                        current as i64
                    },
                },
            ),
        },
    }
}

/// What is done with a message of a peer, where `there` is the identifier of the message at its
/// position, and `row` is the last position of its log.
pub fn plan_replicate(there: Option<String>, row: Option<i64>, message: StoredMessage) -> (res:
    Result<ReplicatePlan, MsgbusError>)
    ensures
        crate::error::is_outcome_of(
            res,
            replicate_columns(
                match there {
                    Some(id) => Some(id@),
                    None => None,
                },
                row,
                message@,
            ),
        ),
{
    match there {
        Some(id) => {
            if crate::text::same_text(id.as_str(), message.id.as_str()) {
                return Ok(ReplicatePlan::Present);
            }
            return Err(
                MsgbusError::Conflict("another message holds this position of the log".to_owned()),
            );
        },
        None => {},
    }
    let current: u64 = current(row)?;
    let position: u64 = message.head_id.0;
    let columns = plan_message(message)?;
    let head: i64 = if current < position {
        columns.head_id
    } else {
        current as i64
    };
    Ok(ReplicatePlan::Insert { columns, head })
}

/// The last position of a log, by the row that names the log, or the first fault of the row.
pub open spec fn topic_head_of_row(
    topic: Seq<char>,
    origin: Result<NodeView, ErrorView>,
    head_id: i64,
) -> Result<TopicHeadView, ErrorView> {
    match (sql_nat(head_id), crate::ids::part_error("topic"@, topic), origin) {
        (Err(e), _, _) => Err(e),
        (_, Some(e), _) => Err(e),
        (_, _, Err(e)) => Err(e),
        (Ok(head_id), None, Ok(origin)) => Ok(TopicHeadView { topic, origin, head_id }),
    }
}

/// The last position of a log, by the row that names the log.
pub fn row_to_head(topic: String, origin: Result<NodeId, MsgbusError>, head_id: i64) -> (res: Result<
    TopicHead,
    MsgbusError,
>)
    ensures
        crate::error::is_outcome_of(
            res,
            topic_head_of_row(topic@, decoded_node(origin), head_id),
        ),
{
    let head: u64 = i64_to_u64(head_id)?;
    let topic = Topic::new(topic.as_str())?;
    let origin = origin?;
    Ok(TopicHead { topic, origin, head_id: HeadId(head) })
}

/// The numbers of a state of a log at a peer as SQLite holds them.
#[derive(Copy, Clone, Debug, PartialEq, Eq, Structural)]
pub struct SyncNumbers {
    pub local_head: i64,
    pub remote_head: i64,
    pub last_synced_head: i64,
    pub consecutive_failures: u32,
}

/// How the numbers of a state are written into its row.
pub open spec fn sync_columns(state: SyncStateView) -> Result<SyncNumbers, ErrorView> {
    match (
        sql_int(state.local_head),
        sql_int(state.remote_head),
        sql_int(state.last_synced_head),
    ) {
        (Err(e), _, _) => Err(e),
        (_, Err(e), _) => Err(e),
        (_, _, Err(e)) => Err(e),
        (Ok(local_head), Ok(remote_head), Ok(last_synced_head)) => Ok(
            SyncNumbers {
                local_head,
                remote_head,
                last_synced_head,
                consecutive_failures: state.consecutive_failures,
            },
        ),
    }
}

/// How the numbers of a state are written into its row.
pub fn plan_sync_state(state: &PeerSyncState) -> (res: Result<SyncNumbers, MsgbusError>)
    ensures
        crate::error::is_outcome(res, sync_columns(state@)),
{
    let local_head: i64 = u64_to_i64(state.local_head)?;
    let remote_head: i64 = u64_to_i64(state.remote_head)?;
    let last_synced_head: i64 = u64_to_i64(state.last_synced_head)?;
    Ok(
        SyncNumbers {
            local_head,
            remote_head,
            last_synced_head,
            consecutive_failures: state.consecutive_failures,
        },
    )
}

/// The state that a row holds, or the first fault of the row.
pub open spec fn sync_state_of_row(
    peer: Seq<char>,
    topic: Seq<char>,
    origin: Result<NodeView, ErrorView>,
    numbers: SyncNumbers,
    last_error: Seq<char>,
) -> Result<SyncStateView, ErrorView> {
    match (
        sql_nat(numbers.local_head),
        sql_nat(numbers.remote_head),
        sql_nat(numbers.last_synced_head),
    ) {
        (Err(e), _, _) => Err(e),
        (_, Err(e), _) => Err(e),
        (_, _, Err(e)) => Err(e),
        (Ok(local_head), Ok(remote_head), Ok(last_synced_head)) => match (
            crate::ids::part_error("topic"@, topic),
            origin,
        ) {
            (Some(e), _) => Err(e),
            (_, Err(e)) => Err(e),
            (None, Ok(origin)) => Ok(
                SyncStateView {
                    peer,
                    topic,
                    origin,
                    local_head,
                    remote_head,
                    last_synced_head,
                    consecutive_failures: numbers.consecutive_failures,
                    last_error,
                },
            ),
        },
    }
}

/// The state that a row holds.
pub fn row_to_sync_state(
    peer: String,
    topic: String,
    origin: Result<NodeId, MsgbusError>,
    numbers: SyncNumbers,
    last_error: String,
) -> (res: Result<PeerSyncState, MsgbusError>)
    ensures
        crate::error::is_outcome_of(
            res,
            sync_state_of_row(peer@, topic@, decoded_node(origin), numbers, last_error@),
        ),
{
    let local_head: u64 = i64_to_u64(numbers.local_head)?;
    let remote_head: u64 = i64_to_u64(numbers.remote_head)?;
    let last_synced_head: u64 = i64_to_u64(numbers.last_synced_head)?;
    let topic = Topic::new(topic.as_str())?;
    let origin = origin?;
    Ok(
        PeerSyncState {
            peer,
            topic,
            origin,
            local_head,
            remote_head,
            last_synced_head,
            consecutive_failures: numbers.consecutive_failures,
            last_error,
        },
    )
}

/// A state of a log at a peer that was written into its row is read back as it was.
pub proof fn law_sync_row_reads_back(state: SyncStateView)
    requires
        crate::ids::valid_part(state.topic),
        sync_columns(state) is Ok,
    ensures
        sync_state_of_row(
            state.peer,
            state.topic,
            Ok(state.origin),
            sync_columns(state)->Ok_0,
            state.last_error,
        ) == Ok::<SyncStateView, ErrorView>(state),
{
}

/// The rows of a log that takes a message of a peer hold what a store with the message holds: the
/// last position is the greater one of the two.
pub proof fn law_sql_replicate_is_replicated(s: StoreView, m: MessageView)
    requires
        s.wf(),
        !s.messages.contains_key((crate::store::message_log(m), m.head_id)),
        s.head_of(crate::store::message_log(m)) <= i64::MAX,
        message_columns(m) is Ok,
    ensures
        ({
            let log = crate::store::message_log(m);
            let row = if s.heads.contains_key(log) {
                Some(s.heads[log] as i64)
            } else {
                None
            };
            let plan = replicate_columns(None, row, m);
            &&& plan is Ok
            &&& plan->Ok_0 is Insert
            &&& (plan->Ok_0)->columns.stored == m
            &&& (plan->Ok_0)->head == s.replicated(m).head_of(log)
        }),
{
}

/// A message that was written into its row is read back as it was.
pub proof fn law_message_row_reads_back(m: MessageView)
    requires
        crate::ids::valid_part(m.id),
        crate::ids::valid_part(m.topic),
        message_columns(m) is Ok,
    ensures
        ({
            let columns = message_columns(m)->Ok_0;
            message_of_row(
                MessageRowView {
                    id: columns.stored.id,
                    topic: columns.stored.topic,
                    origin: Ok(columns.stored.origin),
                    head_id: columns.head_id,
                    payload: columns.stored.payload,
                    headers: Ok(columns.stored.headers),
                    created_at_ms: columns.created_at_ms,
                    deleted: columns.stored.deleted,
                },
            ) == Ok::<MessageView, ErrorView>(m)
        }),
{
}

/// A message of a queue that was written into its row is read back as it was.
pub proof fn law_fifo_row_reads_back(m: FifoView)
    requires
        crate::ids::valid_part(m.id),
        crate::ids::valid_part(m.queue),
        crate::ids::valid_part(m.topic),
        fifo_columns(m) is Ok,
    ensures
        ({
            let columns = fifo_columns(m)->Ok_0;
            fifo_of_row(
                FifoRowView {
                    queue: columns.stored.queue,
                    sequence: columns.sequence,
                    id: columns.stored.id,
                    topic: columns.stored.topic,
                    source: Ok(columns.stored.source),
                    target: Ok(columns.stored.target),
                    payload: columns.stored.payload,
                    headers: Ok(columns.stored.headers),
                    created_at_ms: columns.created_at_ms,
                    attempts: columns.stored.attempts,
                },
            ) == Ok::<FifoView, ErrorView>(m)
        }),
{
}

/// A log that the rows hold grows as every log does: behind the position that the row gives, up
/// to the greatest one that a row can hold.
pub proof fn law_sql_append_is_next(head: u64, message: NewMessageView, now: u64)
    requires
        now <= i64::MAX,
    ensures
        head < i64::MAX ==> {
            let columns = append_columns(Some(head as i64), message, now);
            &&& columns is Ok
            &&& (columns->Ok_0).head_id == head + 1
            &&& (columns->Ok_0).stored == crate::message::placed(
                message,
                crate::ids::after(head),
                now,
            )
        },
        append_columns(Some(i64::MAX), message, now) == Err::<AppendView, ErrorView>(
            exceeds_error((i64::MAX + 1) as u64),
        ),
        append_columns(None, message, now) is Ok,
        (append_columns(None, message, now)->Ok_0).head_id == 1,
{
}

/// A queue that the rows hold grows as every queue does: behind the number that the row gives, up
/// to the greatest one that a row can hold.
pub proof fn law_sql_enqueue_is_next(last: u64, message: NewFifoView, now: u64)
    requires
        now <= i64::MAX,
    ensures
        last < i64::MAX ==> {
            let columns = enqueue_columns(Some(last as i64), message, now);
            &&& columns is Ok
            &&& (columns->Ok_0).sequence == last + 1
            &&& (columns->Ok_0).stored == crate::message::queued(
                message,
                crate::ids::after(last),
                now,
            )
        },
        enqueue_columns(Some(i64::MAX), message, now) == Err::<EnqueueView, ErrorView>(
            exceeds_error((i64::MAX + 1) as u64),
        ),
        enqueue_columns(None, message, now) is Ok,
        (enqueue_columns(None, message, now)->Ok_0).sequence == 1,
{
}

/// What is done with the front row of a queue is what a store does with the front message: the row
/// of an acknowledged message goes, that of a rejected one counts one more attempt, and the row of
/// another message stays as it is.
pub proof fn law_sql_front_is_front_update(
    s: StoreView,
    queue: Seq<char>,
    n: u64,
    id: Seq<char>,
)
    requires
        s.wf(),
        s.is_front(queue, n),
        n <= i64::MAX,
    ensures
        ({
            let front = s.fifo[(queue, n)];
            let ack = front_plan(Some(front), id, FifoFrontAction::Ack);
            let reject = front_plan(Some(front), id, FifoFrontAction::Reject);
            if front.id == id {
                &&& ack == Ok::<FrontPlan, ErrorView>(FrontPlan::Delete { sequence: n as i64 })
                &&& reject == Ok::<FrontPlan, ErrorView>(
                    FrontPlan::SetAttempts {
                        sequence: n as i64,
                        attempts: s.rejected(queue, n).fifo[(queue, n)].attempts,
                    },
                )
            } else {
                &&& crate::store::front_differs(s, queue, id)
                &&& ack == Ok::<FrontPlan, ErrorView>(FrontPlan::Keep)
                &&& reject == Ok::<FrontPlan, ErrorView>(FrontPlan::Keep)
            }
        }),
{
}

/// The bounds of a range, as the statement that marks it is given them, pick out the positions of
/// the range, and the first position of a fetch those that it reads.
pub proof fn law_sql_bounds_pick_positions(
    record: TombstoneView,
    topic: Seq<char>,
    origin: NodeView,
    from: u64,
    limit: u32,
    h: u64,
)
    requires
        h <= i64::MAX,
    ensures
        tombstone_columns(record) matches Ok(columns) ==> (columns.from_head_id <= h
            <= columns.to_head_id) == (record.from_head_id <= h <= record.to_head_id),
        fetch_columns(topic, origin, from, limit) matches Ok(columns) ==> (columns.from_head_id
            <= h) == (from <= h),
{
}

} // verus!

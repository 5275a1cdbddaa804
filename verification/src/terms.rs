//! What the terms of the contracts mean, said of plain values: names, errors, messages, what goes
//! over the network, and the places where things are kept.

use std::collections::BTreeMap;

use vstd::prelude::*;

use crate::error::ErrorKind;
use crate::error::ErrorView;
use crate::error::MsgbusError;
use crate::ids::HeadId;
use crate::ids::MessageId;
use crate::ids::NodeId;
use crate::ids::NodeView;
use crate::ids::QueueName;
use crate::ids::Topic;
use crate::keys::LogView;
use crate::message::FifoView;
use crate::message::MessageView;
use crate::message::NewFifoMessage;
use crate::message::NewFifoView;
use crate::message::NewMessage;
use crate::message::NewMessageView;
use crate::message::PeerSyncState;
use crate::message::StoredFifoMessage;
use crate::message::StoredMessage;
use crate::message::SyncStateView;
use crate::message::TombstoneRange;
use crate::message::TopicHead;
use crate::message::TopicHeadView;
use crate::status::Code;
use crate::status::Status;
use crate::status::StatusView;
use crate::table::Row;
use crate::wire::AckFifoRequest;
use crate::wire::EnvelopeView;
use crate::wire::FifoMessage;
use crate::wire::MessageEnvelope;
use crate::wire::RejectFifoRequest;
use crate::wire::WireHeadView;
use crate::wire::WireNode;
use crate::wire::WireSyncState;
use crate::wire::WireTopicHead;

verus! {

/// White space is what Unicode says it is.
pub proof fn law_white_space(c: char)
    ensures
        crate::text::is_white(c) <==> {
            ||| c == ' '
            ||| c == '\t'
            ||| c == '\n'
            ||| c == '\r'
            ||| c as u32 == 11
            ||| c as u32 == 12
            ||| c as u32 == 0x85
            ||| c as u32 == 0xa0
            ||| c as u32 == 0x1680
            ||| 0x2000 <= c as u32 <= 0x200a
            ||| c as u32 == 0x2028
            ||| c as u32 == 0x2029
            ||| c as u32 == 0x202f
            ||| c as u32 == 0x205f
            ||| c as u32 == 0x3000
        },
{
}

/// A name is accepted if and only if something in it is not white space and nothing in it is a NUL
/// character; the refusal is an invalid argument that tells the part and which of the two it is.
pub proof fn law_accepted_names(part: Seq<char>, value: Seq<char>)
    ensures
        crate::ids::valid_part(value) <==> (exists|i: int|
            0 <= i < value.len() && !crate::text::is_white(#[trigger] value[i])) && forall|i: int|
            0 <= i < value.len() ==> #[trigger] value[i] != '\0',
        crate::ids::part_error(part, value) is None <==> crate::ids::valid_part(value),
        (forall|i: int| 0 <= i < value.len() ==> crate::text::is_white(#[trigger] value[i]))
            ==> crate::ids::part_error(part, value) == Some(
            ErrorView { kind: ErrorKind::InvalidArgument, text: part + " is empty"@ },
        ),
        (exists|i: int| 0 <= i < value.len() && !crate::text::is_white(#[trigger] value[i])) && (
        exists|i: int| 0 <= i < value.len() && #[trigger] value[i] == '\0')
            ==> crate::ids::part_error(part, value) == Some(
            ErrorView { kind: ErrorKind::InvalidArgument, text: part + " contains NUL byte"@ },
        ),
        crate::text::is_blank(value) <==> forall|i: int|
            0 <= i < value.len() ==> crate::text::is_white(#[trigger] value[i]),
{
}

/// What is wrong with a node is what is wrong with the first of its parts that is not accepted,
/// told by the name of the part; a node is empty if all its parts are.
pub proof fn law_accepted_nodes(node: NodeView)
    ensures
        node.error() is None <==> crate::ids::valid_part(node.tenant_id) && crate::ids::valid_part(
            node.bl_name,
        ) && crate::ids::valid_part(node.device_id),
        !crate::ids::valid_part(node.tenant_id) ==> node.error() == crate::ids::part_error(
            "tenant_id"@,
            node.tenant_id,
        ),
        crate::ids::valid_part(node.tenant_id) && !crate::ids::valid_part(node.bl_name)
            ==> node.error() == crate::ids::part_error("bl_name"@, node.bl_name),
        crate::ids::valid_part(node.tenant_id) && crate::ids::valid_part(node.bl_name)
            && !crate::ids::valid_part(node.device_id) ==> node.error()
            == crate::ids::part_error("device_id"@, node.device_id),
        node.is_empty() <==> node.tenant_id == Seq::<char>::empty() && node.bl_name
            == Seq::<char>::empty() && node.device_id == Seq::<char>::empty(),
        node.key() == node.tenant_id + seq!['/'] + node.bl_name + seq!['/'] + node.device_id,
        node.has_slash() <==> node.tenant_id.contains('/') || node.bl_name.contains('/')
            || node.device_id.contains('/'),
{
    if node.is_empty() {
        assert(node.tenant_id =~= Seq::<char>::empty());
        assert(node.bl_name =~= Seq::<char>::empty());
        assert(node.device_id =~= Seq::<char>::empty());
    }
}

/// Whatever makes a name keeps its text, and gives it back.
pub proof fn law_names_keep_their_text(
    text: &str,
    topic: Topic,
    queue: QueueName,
    id: MessageId,
    shown: &str,
)
    ensures
        call_ensures(Topic::new, (text,), Ok::<Topic, MsgbusError>(topic)) && call_ensures(
            Topic::as_str,
            (&topic,),
            shown,
        ) ==> shown@ == text@,
        call_ensures(QueueName::new, (text,), Ok::<QueueName, MsgbusError>(queue)) && call_ensures(
            QueueName::as_str,
            (&queue,),
            shown,
        ) ==> shown@ == text@,
        call_ensures(MessageId::from_string, (text,), Ok::<MessageId, MsgbusError>(id))
            && call_ensures(MessageId::as_str, (&id,), shown) ==> shown@ == text@,
{
}

/// A random identifier has thirty-six characters: hyphens at four fixed places, the version four,
/// one of four variants, and otherwise hexadecimal digits in lower case.
pub proof fn law_random_identifiers(s: Seq<char>)
    requires
        crate::ids::is_random_id(s),
    ensures
        s.len() == 36,
        s[8] == '-' && s[13] == '-' && s[18] == '-' && s[23] == '-',
        s[14] == '4',
        s[19] == '8' || s[19] == '9' || s[19] == 'a' || s[19] == 'b',
        forall|i: int|
            0 <= i < 36 && i != 8 && i != 13 && i != 18 && i != 23 ==> '0' <= #[trigger] s[i] <= '9'
                || 'a' <= s[i] <= 'f',
{
    assert(s[8] == '-' && s[13] == '-' && s[18] == '-' && s[23] == '-');
    assert forall|i: int| 0 <= i < 36 && i != 8 && i != 13 && i != 18 && i != 23 implies '0'
        <= #[trigger] s[i] <= '9' || 'a' <= s[i] <= 'f' by {
        assert(crate::ids::is_hex_digit(s[i]));
    }
}

/// Behind a position comes the next one, and behind the greatest one that one itself.
pub proof fn law_next_position(v: u64)
    ensures
        v < u64::MAX ==> crate::ids::after(v) == v + 1,
        v == u64::MAX ==> crate::ids::after(v) == v,
{
}

/// An error keeps its kind and its text, and reads as the two.
pub proof fn law_errors(text: String, t: Seq<char>)
    ensures
        MsgbusError::InvalidArgument(text)@ == (ErrorView {
            kind: ErrorKind::InvalidArgument,
            text: text@,
        }),
        MsgbusError::NotFound(text)@ == (ErrorView { kind: ErrorKind::NotFound, text: text@ }),
        MsgbusError::Conflict(text)@ == (ErrorView { kind: ErrorKind::Conflict, text: text@ }),
        MsgbusError::Storage(text)@ == (ErrorView { kind: ErrorKind::Storage, text: text@ }),
        MsgbusError::Serialization(text)@ == (ErrorView {
            kind: ErrorKind::Serialization,
            text: text@,
        }),
        crate::error::invalid_argument(t) == (ErrorView {
            kind: ErrorKind::InvalidArgument,
            text: t,
        }),
        crate::error::conflict(t) == (ErrorView { kind: ErrorKind::Conflict, text: t }),
        crate::error::storage_failure(t) == (ErrorView { kind: ErrorKind::Storage, text: t }),
        crate::error::error_line(ErrorView { kind: ErrorKind::InvalidArgument, text: t })
            == "invalid argument: "@ + t,
        crate::error::error_line(ErrorView { kind: ErrorKind::NotFound, text: t }) == "not found: "@
            + t,
        crate::error::error_line(ErrorView { kind: ErrorKind::Conflict, text: t }) == "conflict: "@
            + t,
        crate::error::error_line(ErrorView { kind: ErrorKind::Storage, text: t })
            == "storage error: "@ + t,
        crate::error::error_line(ErrorView { kind: ErrorKind::Serialization, text: t })
            == "serialization error: "@ + t,
{
}

/// The refusals of the bus and what they say.
pub proof fn law_refusals(text: Seq<char>, peer: Seq<char>, node: NodeView, head: TopicHeadView)
    ensures
        crate::engine::range_error() == (ErrorView {
            kind: ErrorKind::InvalidArgument,
            text: "from_head_id must be <= to_head_id"@,
        }),
        crate::engine::taken_error() == (ErrorView {
            kind: ErrorKind::Conflict,
            text: "another message holds this position of the log"@,
        }),
        crate::engine::headless_error() == (ErrorView {
            kind: ErrorKind::Storage,
            text: "the last position of a log holds no message"@,
        }),
        crate::service::queue_empty_status() == (StatusView {
            code: Code::NotFound,
            message: "fifo queue is empty"@,
        }),
        crate::service::payload_error(text) == (StatusView {
            code: Code::InvalidArgument,
            message: "invalid tombstone payload: "@ + text,
        }),
        crate::subscribe::lagged_status(text) == (StatusView {
            code: Code::Unavailable,
            message: "subscription lagged: "@ + text,
        }),
        crate::status::bad_argument(text) == (StatusView {
            code: Code::InvalidArgument,
            message: text,
        }),
        crate::sync::identity_form_error() == (ErrorView {
            kind: ErrorKind::InvalidArgument,
            text: "peer identity must be tenant/bl/device"@,
        }),
        crate::sync::identity_error(peer, node) == "peer "@ + peer + " is not the expected node "@
            + node.tenant_id + seq!['/'] + node.bl_name + seq!['/'] + node.device_id,
        crate::sync::mismatch_error(peer, head) == "peer "@ + peer
            + " returned mismatched message for topic="@ + head.topic + " origin="@
            + head.origin.tenant_id + seq!['/'] + head.origin.bl_name + seq!['/']
            + head.origin.device_id,
{
    assert(crate::sync::identity_error(peer, node) =~= "peer "@ + peer
        + " is not the expected node "@ + node.tenant_id + seq!['/'] + node.bl_name + seq!['/']
        + node.device_id);
    assert(crate::sync::mismatch_error(peer, head) =~= "peer "@ + peer
        + " returned mismatched message for topic="@ + head.topic + " origin="@
        + head.origin.tenant_id + seq!['/'] + head.origin.bl_name + seq!['/']
        + head.origin.device_id);
}

/// An outcome that is expected is the one that comes: success with success, and an error with the
/// same error.
pub proof fn law_outcomes<T: View>(
    res: Result<T, MsgbusError>,
    plain: Result<T, ErrorView>,
    viewed: Result<T::V, ErrorView>,
)
    ensures
        crate::error::is_outcome(res, plain) ==> {
            &&& res is Ok == plain is Ok
            &&& res is Ok ==> res->Ok_0 == plain->Ok_0
            &&& res is Err ==> (res->Err_0)@ == plain->Err_0
        },
        crate::error::is_outcome_of(res, viewed) ==> {
            &&& res is Ok == viewed is Ok
            &&& res is Ok ==> (res->Ok_0)@ == viewed->Ok_0
            &&& res is Err ==> (res->Err_0)@ == viewed->Err_0
        },
{
}

/// A status tells an error of the bus by the code of its kind and by its text; the errors that a
/// call may be made again for are the four that pass by themselves.
pub proof fn law_statuses(error: MsgbusError, status: Status, code: Code, again: bool, n: i32)
    ensures
        call_ensures(crate::status::status_from_error, (error,), status) ==> match error {
            MsgbusError::InvalidArgument(text) => status.code == Code::InvalidArgument
                && status.message@ == text@,
            MsgbusError::NotFound(text) => status.code == Code::NotFound && status.message@
                == text@,
            MsgbusError::Conflict(text) => status.code == Code::FailedPrecondition
                && status.message@ == text@,
            MsgbusError::Storage(text) => status.code == Code::Internal && status.message@
                == text@,
            MsgbusError::Serialization(text) => status.code == Code::Internal && status.message@
                == text@,
        },
        crate::status::status_of(error@) == (StatusView {
            code: match error {
                MsgbusError::InvalidArgument(_) => Code::InvalidArgument,
                MsgbusError::NotFound(_) => Code::NotFound,
                MsgbusError::Conflict(_) => Code::FailedPrecondition,
                MsgbusError::Storage(_) => Code::Internal,
                MsgbusError::Serialization(_) => Code::Internal,
            },
            message: error@.text,
        }),
        status@ == (StatusView { code: status.code, message: status.message@ }),
        crate::status::is_retryable(code) <==> code == Code::Unavailable || code
            == Code::DeadlineExceeded || code == Code::Aborted || code == Code::Cancelled,
        call_ensures(crate::status::retryable_status, (code,), again) ==> again == (code
            == Code::Unavailable || code == Code::DeadlineExceeded || code == Code::Aborted || code
            == Code::Cancelled),
        call_ensures(Code::number, (&code,), n) ==> {
            &&& code == Code::Success ==> n == 0
            &&& code == Code::Cancelled ==> n == 1
            &&& code == Code::Unknown ==> n == 2
            &&& code == Code::InvalidArgument ==> n == 3
            &&& code == Code::DeadlineExceeded ==> n == 4
            &&& code == Code::NotFound ==> n == 5
            &&& code == Code::AlreadyExists ==> n == 6
            &&& code == Code::PermissionDenied ==> n == 7
            &&& code == Code::ResourceExhausted ==> n == 8
            &&& code == Code::FailedPrecondition ==> n == 9
            &&& code == Code::Aborted ==> n == 10
            &&& code == Code::OutOfRange ==> n == 11
            &&& code == Code::Unimplemented ==> n == 12
            &&& code == Code::Internal ==> n == 13
            &&& code == Code::Unavailable ==> n == 14
            &&& code == Code::DataLoss ==> n == 15
            &&& code == Code::Unauthenticated ==> n == 16
        },
{
}

/// The view of a value has its fields.
pub proof fn law_views(
    node: NodeId,
    wire: WireNode,
    new: NewMessage,
    stored: StoredMessage,
    range: TombstoneRange,
    head: TopicHead,
    state: PeerSyncState,
)
    ensures
        node@.tenant_id == node.tenant_id@,
        node@.bl_name == node.bl_name@,
        node@.device_id == node.device_id@,
        wire@.tenant_id == wire.tenant_id@,
        wire@.bl_name == wire.bl_name@,
        wire@.device_id == wire.device_id@,
        new@.id == new.id@,
        new@.topic == new.topic@,
        new@.origin == new.origin@,
        new@.payload == new.payload@,
        new@.headers == new.headers@,
        stored@.id == stored.id@,
        stored@.topic == stored.topic@,
        stored@.origin == stored.origin@,
        stored@.head_id == stored.head_id.0,
        stored@.payload == stored.payload@,
        stored@.headers == stored.headers@,
        stored@.created_at_ms == stored.created_at_ms,
        stored@.deleted == stored.deleted,
        range@.topic == range.topic@,
        range@.origin == range.origin@,
        range@.from_head_id == range.from_head_id.0,
        range@.to_head_id == range.to_head_id.0,
        range@.created_at_ms == range.created_at_ms,
        head@.topic == head.topic@,
        head@.origin == head.origin@,
        head@.head_id == head.head_id.0,
        state@.peer == state.peer@,
        state@.topic == state.topic@,
        state@.origin == state.origin@,
        state@.local_head == state.local_head,
        state@.remote_head == state.remote_head,
        state@.last_synced_head == state.last_synced_head,
        state@.consecutive_failures == state.consecutive_failures,
        state@.last_error == state.last_error@,
{
}

/// The view of a message of a queue has its fields.
pub proof fn law_queue_views(new: NewFifoMessage, stored: StoredFifoMessage)
    ensures
        new@.id == new.id@,
        new@.queue == new.queue@,
        new@.topic == new.topic@,
        new@.source == new.source@,
        new@.target == new.target@,
        new@.payload == new.payload@,
        new@.headers == new.headers@,
        stored@.id == stored.id@,
        stored@.queue == stored.queue@,
        stored@.topic == stored.topic@,
        stored@.source == stored.source@,
        stored@.target == stored.target@,
        stored@.payload == stored.payload@,
        stored@.headers == stored.headers@,
        stored@.created_at_ms == stored.created_at_ms,
        stored@.sequence == stored.sequence,
        stored@.attempts == stored.attempts,
{
}

/// The view of what goes over the wire has its fields.
pub proof fn law_wire_views(
    envelope: MessageEnvelope,
    queued: FifoMessage,
    head: WireTopicHead,
    state: WireSyncState,
    node: WireNode,
)
    ensures
        crate::wire::optional_node(None) == None::<NodeView>,
        crate::wire::optional_node(Some(node)) == Some(node@),
        envelope@.id == envelope.id@,
        envelope@.topic == envelope.topic@,
        envelope@.origin == crate::wire::optional_node(envelope.origin),
        envelope@.head_id == envelope.head_id,
        envelope@.payload == envelope.payload@,
        envelope@.headers == envelope.headers@,
        envelope@.created_at_ms == envelope.created_at_ms,
        envelope@.deleted == envelope.deleted,
        queued@.id == queued.id@,
        queued@.queue == queued.queue@,
        queued@.topic == queued.topic@,
        queued@.source == crate::wire::optional_node(queued.source),
        queued@.target == crate::wire::optional_node(queued.target),
        queued@.payload == queued.payload@,
        queued@.headers == queued.headers@,
        queued@.created_at_ms == queued.created_at_ms,
        queued@.sequence == queued.sequence,
        queued@.attempts == queued.attempts,
        head@.topic == head.topic@,
        head@.origin == crate::wire::optional_node(head.origin),
        head@.head_id == head.head_id,
        state@.peer == state.peer@,
        state@.topic == state.topic@,
        state@.origin == crate::wire::optional_node(state.origin),
        state@.local_head == state.local_head,
        state@.remote_head == state.remote_head,
        state@.last_synced_head == state.last_synced_head,
        state@.consecutive_failures == state.consecutive_failures,
        state@.last_error == state.last_error@,
{
}

/// A new message holds what it is made of, and a message that gets its place in a log keeps all of
/// that: its identifier, topic, origin, payload and headers. It is not deleted.
pub proof fn law_placed_messages_keep_all(
    topic: Topic,
    origin: NodeId,
    payload: Vec<u8>,
    headers: BTreeMap<String, String>,
    new: NewMessage,
    head_id: HeadId,
    at: u64,
    stored: StoredMessage,
)
    requires
        call_ensures(StoredMessage::place, (new, head_id, at), stored),
    ensures
        stored.id@ == new.id@,
        stored.topic@ == new.topic@,
        stored.origin@ == new.origin@,
        stored.payload@ == new.payload@,
        stored.headers@ == new.headers@,
        stored.head_id == head_id,
        stored.created_at_ms == at,
        !stored.deleted,
        call_ensures(NewMessage::new, (topic, origin, payload, headers), new) ==> new.topic@
            == topic@ && new.origin@ == origin@ && new.payload@ == payload@ && new.headers@
            == headers@ && crate::ids::is_random_id(new.id@),
{
    assert(stored@.payload == new@.payload);
    assert(stored@.headers == new@.headers);
    assert(stored@.head_id == head_id.0);
    if call_ensures(NewMessage::new, (topic, origin, payload, headers), new) {
        assert(new@.payload == payload@);
    }
}

/// What [`crate::message::placed`] stands for: the message as it was, at its place.
pub proof fn law_place_in_a_log(m: NewMessageView, head_id: u64, at: u64)
    ensures
        ({
            let p = crate::message::placed(m, head_id, at);
            &&& p.id == m.id
            &&& p.topic == m.topic
            &&& p.origin == m.origin
            &&& p.payload == m.payload
            &&& p.headers == m.headers
            &&& p.head_id == head_id
            &&& p.created_at_ms == at
            &&& !p.deleted
        }),
{
}

/// A message that gets its place in a queue keeps its identifier, queue, topic, source, target,
/// payload and headers, and no attempt is counted for it.
pub proof fn law_queued_messages_keep_all(
    queue: QueueName,
    topic: Topic,
    source: NodeId,
    target: NodeId,
    payload: Vec<u8>,
    headers: BTreeMap<String, String>,
    new: NewFifoMessage,
    sequence: u64,
    at: u64,
    stored: StoredFifoMessage,
)
    requires
        call_ensures(StoredFifoMessage::place, (new, sequence, at), stored),
    ensures
        stored.id@ == new.id@,
        stored.queue@ == new.queue@,
        stored.topic@ == new.topic@,
        stored.source@ == new.source@,
        stored.target@ == new.target@,
        stored.payload@ == new.payload@,
        stored.headers@ == new.headers@,
        stored.created_at_ms == at,
        stored.sequence == sequence,
        stored.attempts == 0,
        call_ensures(NewFifoMessage::new, (queue, topic, source, target, payload, headers), new)
            ==> new.queue@ == queue@ && new.topic@ == topic@ && new.source@ == source@
            && new.target@ == target@ && new.payload@ == payload@ && new.headers@ == headers@
            && crate::ids::is_random_id(new.id@),
{
    assert(stored@.payload == new@.payload);
    assert(stored@.headers == new@.headers);
    if call_ensures(
        NewFifoMessage::new,
        (queue, topic, source, target, payload, headers),
        new,
    ) {
        assert(new@.payload == payload@);
    }
}

/// What [`crate::message::queued`] stands for, and what a count of one more attempt changes.
pub proof fn law_place_in_a_queue(m: NewFifoView, sequence: u64, at: u64, f: FifoView)
    ensures
        ({
            let p = crate::message::queued(m, sequence, at);
            &&& p.id == m.id
            &&& p.queue == m.queue
            &&& p.topic == m.topic
            &&& p.source == m.source
            &&& p.target == m.target
            &&& p.payload == m.payload
            &&& p.headers == m.headers
            &&& p.created_at_ms == at
            &&& p.sequence == sequence
            &&& p.attempts == 0
        }),
        f.attempts < u32::MAX ==> f.attempted().attempts == f.attempts + 1,
        f.attempts == u32::MAX ==> f.attempted().attempts == f.attempts,
        f.attempted() == (FifoView { attempts: f.attempted().attempts, ..f }),
{
}

/// The mark of deletion is the only thing that it changes.
pub proof fn law_deletion_mark(m: MessageView, deleted: bool)
    ensures
        m.with_deleted(deleted).deleted == deleted,
        m.with_deleted(deleted).id == m.id,
        m.with_deleted(deleted).topic == m.topic,
        m.with_deleted(deleted).origin == m.origin,
        m.with_deleted(deleted).head_id == m.head_id,
        m.with_deleted(deleted).payload == m.payload,
        m.with_deleted(deleted).headers == m.headers,
        m.with_deleted(deleted).created_at_ms == m.created_at_ms,
{
}

/// A message of a log reads on the wire as it is stored.
pub proof fn law_messages_on_the_wire(
    value: StoredMessage,
    envelope: MessageEnvelope,
    m: MessageView,
)
    ensures
        call_ensures(crate::wire::proto_message, (value,), envelope) ==> {
            &&& envelope.id@ == value.id@
            &&& envelope.topic@ == value.topic@
            &&& envelope.origin matches Some(node) && node@ == value.origin@
            &&& envelope.head_id == value.head_id.0
            &&& envelope.payload@ == value.payload@
            &&& envelope.headers@ == value.headers@
            &&& envelope.created_at_ms == value.created_at_ms
            &&& envelope.deleted == value.deleted
        },
        ({
            let e = crate::wire::envelope_of(m);
            &&& e.id == m.id
            &&& e.topic == m.topic
            &&& e.origin == Some(m.origin)
            &&& e.head_id == m.head_id
            &&& e.payload == m.payload
            &&& e.headers == m.headers
            &&& e.created_at_ms == m.created_at_ms
            &&& e.deleted == m.deleted
        }),
{
    if call_ensures(crate::wire::proto_message, (value,), envelope) {
        assert(envelope@.payload == value@.payload);
        assert(envelope@.headers == value@.headers);
        assert(envelope@.origin == Some(value@.origin));
    }
}

/// A message of a queue reads on the wire as it is stored.
pub proof fn law_queue_messages_on_the_wire(
    value: StoredFifoMessage,
    message: FifoMessage,
    m: FifoView,
)
    ensures
        call_ensures(crate::wire::proto_fifo, (value,), message) ==> {
            &&& message.id@ == value.id@
            &&& message.queue@ == value.queue@
            &&& message.topic@ == value.topic@
            &&& message.source matches Some(node) && node@ == value.source@
            &&& message.target matches Some(node) && node@ == value.target@
            &&& message.payload@ == value.payload@
            &&& message.headers@ == value.headers@
            &&& message.created_at_ms == value.created_at_ms
            &&& message.sequence == value.sequence
            &&& message.attempts == value.attempts
        },
        ({
            let w = crate::wire::fifo_message_of(m);
            &&& w.id == m.id
            &&& w.queue == m.queue
            &&& w.topic == m.topic
            &&& w.source == Some(m.source)
            &&& w.target == Some(m.target)
            &&& w.payload == m.payload
            &&& w.headers == m.headers
            &&& w.created_at_ms == m.created_at_ms
            &&& w.sequence == m.sequence
            &&& w.attempts == m.attempts
        }),
{
    if call_ensures(crate::wire::proto_fifo, (value,), message) {
        assert(message@.payload == value@.payload);
        assert(message@.headers == value@.headers);
        assert(message@.source == Some(value@.source));
        assert(message@.target == Some(value@.target));
    }
}

/// The last position of a log and what is known of a log at a peer read on the wire as they are
/// stored.
pub proof fn law_states_on_the_wire(
    head: TopicHead,
    wire_head: WireTopicHead,
    state: PeerSyncState,
    wire_state: WireSyncState,
    h: TopicHeadView,
    s: SyncStateView,
)
    ensures
        call_ensures(crate::wire::proto_topic_head, (head,), wire_head) ==> {
            &&& wire_head.topic@ == head.topic@
            &&& wire_head.origin matches Some(node) && node@ == head.origin@
            &&& wire_head.head_id == head.head_id.0
        },
        call_ensures(crate::wire::proto_sync_state, (state,), wire_state) ==> {
            &&& wire_state.peer@ == state.peer@
            &&& wire_state.topic@ == state.topic@
            &&& wire_state.origin matches Some(node) && node@ == state.origin@
            &&& wire_state.local_head == state.local_head
            &&& wire_state.remote_head == state.remote_head
            &&& wire_state.last_synced_head == state.last_synced_head
            &&& wire_state.consecutive_failures == state.consecutive_failures
            &&& wire_state.last_error@ == state.last_error@
        },
        ({
            let w = crate::wire::wire_head_of(h);
            w.topic == h.topic && w.origin == Some(h.origin) && w.head_id == h.head_id
        }),
        ({
            let w = crate::wire::wire_sync_of(s);
            &&& w.peer == s.peer
            &&& w.topic == s.topic
            &&& w.origin == Some(s.origin)
            &&& w.local_head == s.local_head
            &&& w.remote_head == s.remote_head
            &&& w.last_synced_head == s.last_synced_head
            &&& w.consecutive_failures == s.consecutive_failures
            &&& w.last_error == s.last_error
        }),
{
    if call_ensures(crate::wire::proto_topic_head, (head,), wire_head) {
        assert(wire_head@.origin == Some(head@.origin));
    }
    if call_ensures(crate::wire::proto_sync_state, (state,), wire_state) {
        assert(wire_state@.origin == Some(state@.origin));
    }
}

/// A node of the wire is accepted if it is all empty or each part is an accepted name, and it is
/// then the node that was named; a name is accepted over the wire if it is an accepted name.
pub proof fn law_names_off_the_wire(
    node: NodeView,
    value: WireNode,
    res: Result<NodeId, Status>,
    part: Seq<char>,
    text: Seq<char>,
)
    ensures
        crate::wire::node_error(node) is None <==> {
            ||| node.tenant_id.len() == 0 && node.bl_name.len() == 0 && node.device_id.len() == 0
            ||| crate::ids::valid_part(node.tenant_id) && crate::ids::valid_part(node.bl_name)
                && crate::ids::valid_part(node.device_id)
        },
        crate::wire::node_error(node) matches Some(e) ==> e.code == Code::InvalidArgument
            && node.error() is Some && e.message == (node.error()->0).text,
        call_ensures(crate::wire::core_node, (value,), res) ==> {
            &&& res is Ok <==> crate::wire::node_error(value@) is None
            &&& res matches Ok(n) ==> n.tenant_id@ == value.tenant_id@ && n.bl_name@
                == value.bl_name@ && n.device_id@ == value.device_id@
            &&& res matches Err(status) ==> crate::wire::node_error(value@) == Some(status@)
        },
        crate::wire::name_error(part, text) is None <==> crate::ids::valid_part(text),
        crate::wire::name_error(part, text) matches Some(e) ==> e.code == Code::InvalidArgument
            && crate::ids::part_error(part, text) is Some && e.message == (
        crate::ids::part_error(part, text)->0).text,
{
    assert(call_ensures(crate::wire::core_node, (value,), res) ==> match res {
        Ok(n) => n@.tenant_id == value@.tenant_id && n@.bl_name == value@.bl_name && n@.device_id
            == value@.device_id,
        Err(_) => true,
    });
}

/// A message is taken off the wire if and only if it names its origin, its position is not zero,
/// and its identifier and its topic are accepted names; it is then the message that was sent.
pub proof fn law_messages_off_the_wire(value: MessageEnvelope, res: Result<StoredMessage, Status>)
    requires
        call_ensures(crate::wire::core_message, (value,), res),
    ensures
        res is Ok <==> value.origin is Some && crate::wire::node_error((value.origin->0)@) is None
            && value.head_id > 0 && crate::ids::valid_part(value.id@) && crate::ids::valid_part(
            value.topic@,
        ),
        res matches Ok(m) ==> {
            &&& m.id@ == value.id@
            &&& m.topic@ == value.topic@
            &&& m.origin@ == (value.origin->0)@
            &&& m.head_id.0 == value.head_id
            &&& m.payload@ == value.payload@
            &&& m.headers@ == value.headers@
            &&& m.created_at_ms == value.created_at_ms
            &&& m.deleted == value.deleted
        },
        res matches Err(status) ==> status.code == Code::InvalidArgument,
        value.origin is None ==> (res matches Err(status) && status.message@
            == "message origin is required"@),
        value.origin is Some && crate::wire::node_error((value.origin->0)@) is None
            && value.head_id == 0 ==> (res matches Err(status) && status.message@
            == "message head_id must be greater than zero"@),
{
    if res is Ok {
        let m = res->Ok_0;
        assert(m@.payload == value@.payload);
        assert(m@.headers == value@.headers);
    } else {
        assert((res->Err_0)@.code == (res->Err_0).code);
        assert((res->Err_0)@.message == (res->Err_0).message@);
    }
}

/// The last position of a log is taken off the wire if and only if it names its origin and its
/// topic well; it is then the one that was sent, zero or not.
pub proof fn law_heads_off_the_wire(value: WireTopicHead, res: Result<TopicHead, Status>)
    requires
        call_ensures(crate::wire::core_topic_head, (value,), res),
    ensures
        res is Ok <==> value.origin is Some && crate::wire::node_error((value.origin->0)@) is None
            && crate::ids::valid_part(value.topic@),
        res matches Ok(h) ==> h.topic@ == value.topic@ && h.origin@ == (value.origin->0)@
            && h.head_id.0 == value.head_id,
        res matches Err(status) ==> status.code == Code::InvalidArgument,
        value.origin is None ==> (res matches Err(status) && status.message@
            == "topic head origin is required"@),
{
    if res is Ok {
        assert((res->Ok_0)@.head_id == (res->Ok_0).head_id.0);
    } else {
        assert((res->Err_0)@.code == (res->Err_0).code);
        assert((res->Err_0)@.message == (res->Err_0).message@);
    }
}

/// What [`crate::wire::message_of`] and [`crate::wire::topic_head_of`] stand for.
pub proof fn law_values_off_the_wire(e: EnvelopeView, h: WireHeadView)
    ensures
        crate::wire::message_of(e) is Ok <==> e.origin is Some && crate::wire::node_error(
            e.origin->0,
        ) is None && e.head_id > 0 && crate::ids::valid_part(e.id) && crate::ids::valid_part(
            e.topic,
        ),
        crate::wire::message_of(e) matches Ok(m) ==> m.id == e.id && m.topic == e.topic && Some(
            m.origin,
        ) == e.origin && m.head_id == e.head_id && m.payload == e.payload && m.headers == e.headers
            && m.created_at_ms == e.created_at_ms && m.deleted == e.deleted,
        crate::wire::message_of(e) matches Err(status) ==> status.code
            == Code::InvalidArgument && match e.origin {
            None => status.message == "message origin is required"@,
            Some(origin) => if crate::wire::node_error(origin) is Some {
                Some(status) == crate::wire::node_error(origin)
            } else if e.head_id == 0 {
                status.message == "message head_id must be greater than zero"@
            } else if !crate::ids::valid_part(e.id) {
                Some(status) == crate::wire::name_error("message_id"@, e.id)
            } else {
                Some(status) == crate::wire::name_error("topic"@, e.topic)
            },
        },
        crate::wire::topic_head_of(h) matches Err(status) ==> status.code
            == Code::InvalidArgument && match h.origin {
            None => status.message == "topic head origin is required"@,
            Some(origin) => if crate::wire::node_error(origin) is Some {
                Some(status) == crate::wire::node_error(origin)
            } else {
                Some(status) == crate::wire::name_error("topic"@, h.topic)
            },
        },
        crate::wire::topic_head_of(h) is Ok <==> h.origin is Some && crate::wire::node_error(
            h.origin->0,
        ) is None && crate::ids::valid_part(h.topic),
        crate::wire::topic_head_of(h) matches Ok(t) ==> t.topic == h.topic && Some(t.origin)
            == h.origin && t.head_id == h.head_id,
{
}

/// An acknowledgement and a rejection name the queue and the message that they were sent for.
pub proof fn law_queue_requests_off_the_wire(
    ack: AckFifoRequest,
    reject: RejectFifoRequest,
    res: Result<(QueueName, MessageId), Status>,
)
    ensures
        call_ensures(crate::wire::fifo_ack_parts, (ack,), res) ==> {
            &&& res is Ok <==> crate::ids::valid_part(ack.queue@) && crate::ids::valid_part(
                ack.message_id@,
            )
            &&& res matches Ok((queue, id)) ==> queue@ == ack.queue@ && id@ == ack.message_id@
            &&& res matches Err(status) ==> status.code == Code::InvalidArgument
        },
        call_ensures(crate::wire::reject_fifo_parts, (reject,), res) ==> {
            &&& res is Ok <==> crate::ids::valid_part(reject.queue@) && crate::ids::valid_part(
                reject.message_id@,
            )
            &&& res matches Ok((queue, id)) ==> queue@ == reject.queue@ && id@
                == reject.message_id@
            &&& res matches Err(status) ==> status.code == Code::InvalidArgument
        },
        crate::wire::fifo_parts_error(ack.queue@, ack.message_id@) is None
            <==> crate::ids::valid_part(ack.queue@) && crate::ids::valid_part(ack.message_id@),
        !crate::ids::valid_part(ack.queue@) ==> crate::wire::fifo_parts_error(
            ack.queue@,
            ack.message_id@,
        ) == crate::wire::name_error("queue"@, ack.queue@),
        crate::ids::valid_part(ack.queue@) ==> crate::wire::fifo_parts_error(
            ack.queue@,
            ack.message_id@,
        ) == crate::wire::name_error("message_id"@, ack.message_id@),
{
    if res is Err {
        assert((res->Err_0)@.code == (res->Err_0).code);
    }
}

/// A log is a topic and an origin, and what is kept is kept by its own.
pub proof fn law_logs(
    topic: Seq<char>,
    origin: NodeView,
    m: MessageView,
    h: TopicHeadView,
    s: SyncStateView,
    from: u64,
    to: u64,
    at: u64,
)
    ensures
        crate::keys::log_of(topic, origin).topic == topic,
        crate::keys::log_of(topic, origin).origin == origin,
        crate::store::message_log(m) == (LogView { topic: m.topic, origin: m.origin }),
        crate::store::head_log(h) == (LogView { topic: h.topic, origin: h.origin }),
        crate::store::sync_place(s) == (s.peer, LogView { topic: s.topic, origin: s.origin }),
        ({
            let r = crate::store::tombstone_record(topic, origin, from, to, at);
            r.topic == topic && r.origin == origin && r.from_head_id == from && r.to_head_id == to
                && r.created_at_ms == at
        }),
{
}

/// Rows are given out as they are, one for one.
pub proof fn law_rows_as_values<V: Row, W>(
    rows: Seq<V>,
    keyed: Seq<(String, V)>,
    met: Seq<(Seq<char>, W)>,
    i: int,
)
    ensures
        crate::engine::values_of(rows).len() == rows.len(),
        0 <= i < rows.len() ==> crate::engine::values_of(rows)[i] == rows[i]@,
        crate::engine::row_values(keyed).len() == keyed.len(),
        0 <= i < keyed.len() ==> crate::engine::row_values(keyed)[i] == (
            keyed[i].0@,
            keyed[i].1@,
        ),
        crate::engine::without_keys(met).len() == met.len(),
        0 <= i < met.len() ==> crate::engine::without_keys(met)[i] == met[i].1,
{
}

/// How much is read at a time, what the topic of deletions is, and how much is replayed.
pub proof fn law_usual_sizes(limit: u32, res: usize)
    ensures
        crate::engine::page_size(0) == 100,
        1 <= limit <= 10_000 ==> crate::engine::page_size(limit) == limit,
        limit > 10_000 ==> crate::engine::page_size(limit) == 10_000,
        crate::subscribe::replay_size(0) == 100,
        1 <= limit <= 10_000 ==> crate::subscribe::replay_size(limit) == limit,
        limit > 10_000 ==> crate::subscribe::replay_size(limit) == 10_000,
        call_ensures(crate::engine::effective_limit, (limit,), res) ==> {
            &&& limit == 0 ==> res == 100
            &&& 1 <= limit <= 10_000 ==> res == limit
            &&& limit > 10_000 ==> res == 10_000
        },
        crate::service::DELETE_TOPIC@ == "$msgbus.delete"@,
        crate::subscribe::DEFAULT_REPLAY_LIMIT == 100,
{
}

/// The number that a text of decimal digits stands for.
pub open spec fn number_in(s: Seq<char>) -> nat
    decreases s.len(),
{
    if s.len() == 0 {
        0
    } else {
        number_in(s.drop_last()) * 10 + ((s.last() as int - '0' as int) as nat)
    }
}

/// Numbers are written so that they are read back: in decimal digits, without leading zeros, or
/// with leading zeros to a width that holds them.
pub proof fn law_numerals(v: nat)
    ensures
        number_in(crate::text::decimal(v)) == v,
        crate::text::decimal(v).len() > 0,
        crate::text::decimal(v).len() > 1 ==> crate::text::decimal(v)[0] != '0',
        forall|i: int|
            0 <= i < crate::text::decimal(v).len() ==> '0' <= #[trigger] crate::text::decimal(v)[i]
                <= '9',
    decreases v,
{
    let s = crate::text::decimal(v);
    if v < 10 {
        assert(s.drop_last() =~= Seq::<char>::empty());
        assert(number_in(s.drop_last()) == 0);
        assert(s.last() as int == 48 + v);
    } else {
        law_numerals(v / 10);
        let t = crate::text::decimal(v / 10);
        assert(s.drop_last() =~= t);
        assert(s.last() as int == 48 + v % 10);
        assert(s[0] == t[0]);
        if t.len() == 1 {
            assert(t.drop_last() =~= Seq::<char>::empty());
            assert(number_in(t.drop_last()) == 0);
            assert(number_in(t) == v / 10);
        }
    }
}

/// A number that fits is read back from as many digits as it is written with.
pub proof fn law_padded_numerals(v: nat, width: nat)
    requires
        v < crate::text::pow10(width),
    ensures
        number_in(crate::text::digits(v, width)) == v,
        crate::text::digits(v, width).len() == width,
    decreases width,
{
    let s = crate::text::digits(v, width);
    if width > 0 {
        let n = (width - 1) as nat;
        assert(crate::text::pow10(width) == 10 * crate::text::pow10(n));
        assert(v / 10 < crate::text::pow10(n));
        law_padded_numerals(v / 10, n);
        assert(s.drop_last() =~= crate::text::digits(v / 10, n));
        assert(s.last() as int == 48 + v % 10);
    }
}

/// One text starts with another if the other is its beginning, and comes before another if it is a
/// proper beginning of it or has the smaller character where the two first differ.
pub proof fn law_order_of_texts(a: Seq<char>, b: Seq<char>, i: int)
    ensures
        crate::text::starts_with(a, b) <==> b.len() <= a.len() && forall|j: int|
            0 <= j < b.len() ==> #[trigger] a[j] == b[j],
        0 <= i < a.len() && i < b.len() && a.take(i) == b.take(i) && (a[i] as int) < (b[i] as int)
            ==> crate::text::text_lt(a, b),
        a.len() < b.len() && a == b.take(a.len() as int) ==> crate::text::text_lt(a, b),
        crate::text::text_le(a, b) <==> a == b || crate::text::text_lt(a, b),
        crate::text::text_lt(a, b) ==> !crate::text::text_lt(b, a) && a != b,
        a != b ==> crate::text::text_lt(a, b) || crate::text::text_lt(b, a),
{
    if crate::text::starts_with(a, b) {
        assert forall|j: int| 0 <= j < b.len() implies #[trigger] a[j] == b[j] by {
            assert(a.take(b.len() as int)[j] == a[j]);
        }
    }
    if b.len() <= a.len() && (forall|j: int| 0 <= j < b.len() ==> #[trigger] a[j] == b[j]) {
        assert(a.take(b.len() as int) =~= b);
    }
    if 0 <= i < a.len() && i < b.len() && a.take(i) == b.take(i) && (a[i] as int) < (b[i] as int) {
        assert forall|j: int| 0 <= j < i implies a[j] == b[j] by {
            assert(a.take(i)[j] == b.take(i)[j]);
        }
        assert(crate::text::parts_below(a, b, i));
    }
    if a.len() < b.len() && a == b.take(a.len() as int) {
        assert forall|j: int| 0 <= j < a.len() implies a[j] == b[j] by {
            assert(b.take(a.len() as int)[j] == b[j]);
        }
        assert(crate::text::parts_below(a, b, a.len() as int));
    }
    if crate::text::text_lt(a, b) {
        crate::text::lemma_text_lt_irreflexive(a);
        if crate::text::text_lt(b, a) {
            crate::text::lemma_text_lt_transitive(a, b, a);
        }
    }
    if a != b {
        crate::text::lemma_text_lt_total(a, b);
    }
}

/// What stands first at a key or behind it is the row with the smallest such key.
pub proof fn law_first_rows<W>(
    rows: Map<Seq<char>, W>,
    key: Seq<char>,
    k: Seq<char>,
    other: Seq<char>,
)
    ensures
        crate::table::from_key(key, true, k) <==> crate::text::text_lt(key, k),
        crate::table::from_key(key, false, k) <==> key == k || crate::text::text_lt(key, k),
        crate::table::is_first_from(rows, key, true, k) ==> rows.contains_key(k)
            && crate::text::text_lt(key, k) && (rows.contains_key(other) && crate::text::text_lt(
            key,
            other,
        ) ==> k == other || crate::text::text_lt(k, other)),
        crate::table::is_first_from(rows, key, false, k) ==> rows.contains_key(k) && (key == k
            || crate::text::text_lt(key, k)) && (rows.contains_key(other) && (key == other
            || crate::text::text_lt(key, other)) ==> k == other || crate::text::text_lt(k, other)),
        crate::table::none_from(rows, key, true) && rows.contains_key(other)
            ==> !crate::text::text_lt(key, other),
        crate::table::none_from(rows, key, false) && rows.contains_key(other) ==> key != other
            && !crate::text::text_lt(key, other),
{
}

/// Where everything is kept: under the kind of the thing, then its names, then its numbers in
/// twenty digits.
pub proof fn law_keys(log: LogView, queue: Seq<char>, peer: Seq<char>, n: u64, m: u64)
    ensures
        ({
            let names = crate::keys::key_text(log.topic) + seq!['/'] + crate::keys::key_text(
                log.origin.log_key(),
            );
            &&& crate::keys::head_key_text(log) == "head/"@ + names
            &&& crate::keys::message_prefix_text(log) == "msg/"@ + names + seq!['/']
            &&& crate::keys::message_key_text(log, n) == "msg/"@ + names + seq!['/']
                + crate::text::digits(n as nat, 20)
            &&& crate::keys::tombstone_key_text(log, n, m) == "tombstone/"@ + names + seq!['/']
                + crate::text::digits(n as nat, 20) + seq!['-'] + crate::text::digits(
                m as nat,
                20,
            )
            &&& crate::keys::sync_key_text(peer, log) == "sync/"@ + crate::keys::key_text(peer)
                + seq!['/'] + names
        }),
        crate::keys::fifo_sequence_key_text(queue) == "fifo-seq/"@ + crate::keys::key_text(queue),
        crate::keys::fifo_prefix_text(queue) == "fifo/"@ + crate::keys::key_text(queue)
            + seq!['/'],
        crate::keys::fifo_message_key_text(queue, n) == "fifo/"@ + crate::keys::key_text(queue)
            + seq!['/'] + crate::text::digits(n as nat, 20),
{
}

} // verus!

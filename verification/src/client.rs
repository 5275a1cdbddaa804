//! What an application says to its daemon, and what it makes of the answers.

use std::collections::BTreeMap;
use std::time::Duration;

use vstd::prelude::*;
use vstd::string::*;

use crate::clock::duration_from_millis;
use crate::status::retryable_status;
use crate::status::Code;
use crate::status::Status;
use crate::wire::AckFifoRequest;
use crate::wire::DeleteRangeRequest;
use crate::wire::EnqueueFifoRequest;
use crate::wire::FetchRequest;
use crate::wire::FifoMessage;
use crate::wire::FifoResponse;
use crate::wire::GetHeadRequest;
use crate::wire::MessageEnvelope;
use crate::wire::PeekFifoRequest;
use crate::wire::PublishRequest;
use crate::wire::PublishResponse;
use crate::wire::RejectFifoRequest;
use crate::wire::SubscribeRequest;
use crate::wire::SubscribeResponse;
use crate::wire::WireNode;

verus! {

/// Why a call of an application did not give what it asked for.
#[derive(Debug)]
pub enum SdkError {
    /// The daemon could not be reached.
    Transport(String),
    /// The daemon refused the call.
    Status(Status),
    /// The daemon answered with something that is no answer.
    Protocol(String),
}

/// How a failed call reads.
pub open spec fn sdk_error_line(e: SdkError) -> Seq<char> {
    match e {
        SdkError::Transport(text) => "transport error: "@ + text@,
        SdkError::Status(status) => "rpc error: "@ + crate::status::status_text(
            crate::status::code_number(status.code),
            status.message@,
        ),
        SdkError::Protocol(text) => "protocol error: "@ + text@,
    }
}

/// A line of text behind the name of its kind.
pub fn labelled(kind: &str, text: &str) -> (line: String)
    ensures
        line@ == kind@ + text@,
{
    let mut line = kind.to_owned();
    line.append(text);
    line
}

impl SdkError {
    /// The error as a line of text.
    pub fn describe(&self) -> (line: String)
        ensures
            line@ == sdk_error_line(*self),
    {
        match self {
            SdkError::Transport(text) => labelled("transport error: ", text.as_str()),
            SdkError::Status(status) => labelled("rpc error: ", status.describe().as_str()),
            SdkError::Protocol(text) => labelled("protocol error: ", text.as_str()),
        }
    }
}

/// What an answer must hold, or the error that it does not.
pub fn required<T>(value: Option<T>, message: &str) -> (res: Result<T, SdkError>)
    ensures
        match value {
            Some(v) => res == Ok::<T, SdkError>(v),
            None => res matches Err(SdkError::Protocol(text)) && text@ == message@,
        },
{
    match value {
        Some(v) => Ok(v),
        None => Err(SdkError::Protocol(message.to_owned())),
    }
}

/// The message that a publish was answered with.
pub fn published(response: PublishResponse) -> (res: Result<MessageEnvelope, SdkError>)
    ensures
        match response.message {
            Some(message) => res == Ok::<MessageEnvelope, SdkError>(message),
            None => res matches Err(SdkError::Protocol(text)) && text@
                == "server returned empty publish response"@,
        },
{
    required(response.message, "server returned empty publish response")
}

/// The message that a call on a queue was answered with.
pub fn queued_message(response: FifoResponse) -> (res: Result<FifoMessage, SdkError>)
    ensures
        match response.message {
            Some(message) => res == Ok::<FifoMessage, SdkError>(message),
            None => res matches Err(SdkError::Protocol(text)) && text@
                == "server returned empty fifo response"@,
        },
{
    required(response.message, "server returned empty fifo response")
}

/// The messages of a fetch: answers that hold none are passed over.
pub open spec fn messages_in(answers: Seq<Option<MessageEnvelope>>) -> Seq<MessageEnvelope>
    decreases answers.len(),
{
    if answers.len() == 0 {
        Seq::empty()
    } else {
        let before = messages_in(answers.drop_last());
        match answers.last() {
            Some(message) => before.push(message),
            None => before,
        }
    }
}

/// The messages of a fetch: answers that hold none are passed over.
pub fn fetched(answers: Vec<Option<MessageEnvelope>>) -> (res: Vec<MessageEnvelope>)
    ensures
        res@ == messages_in(answers@),
{
    let mut out: Vec<MessageEnvelope> = Vec::new();
    for answer in iter: answers
        invariant
            iter.seq() == answers@,
            out@ == messages_in(answers@.take(iter.index())),
    {
        proof {
            assert(answers@.take(iter.index() + 1).drop_last() =~= answers@.take(iter.index()));
        }
        match answer {
            Some(message) => {
                out.push(message);
            },
            None => {},
        }
    }
    assert(answers@.take(answers@.len() as int) =~= answers@);
    out
}

/// How a subscription is to be opened.
#[derive(Debug)]
pub struct SubscribeOptions {
    /// The node whose log is read; where it is left out, the default one of the client.
    pub origin: Option<WireNode>,
    /// The first position to deliver.
    pub from_head_id: u64,
    /// How many stored messages are replayed at most before what is published follows.
    pub replay_limit: u32,
    /// How long to wait before a subscription is opened again.
    pub reconnect_delay: Duration,
}

impl Clone for SubscribeOptions {
    fn clone(&self) -> (res: SubscribeOptions)
        ensures
            res == *self,
    {
        SubscribeOptions {
            origin: match &self.origin {
                Some(node) => Some(node.clone()),
                None => None,
            },
            from_head_id: self.from_head_id,
            replay_limit: self.replay_limit,
            reconnect_delay: self.reconnect_delay,
        }
    }
}

impl Default for SubscribeOptions {
    fn default() -> (res: SubscribeOptions)
        ensures
            res == (SubscribeOptions {
                origin: None,
                from_head_id: 1,
                replay_limit: 100,
                reconnect_delay: crate::clock::duration_of_millis(250),
            }),
    {
        SubscribeOptions {
            origin: None,
            from_head_id: 1,
            replay_limit: 100,
            reconnect_delay: duration_from_millis(250),
        }
    }
}

/// An application as its daemon sees it.
#[derive(Debug)]
pub struct MsgbusClient {
    pub default_origin: Option<WireNode>,
}

/// The node that is named, or else the default one.
pub open spec fn or_default(named: Option<WireNode>, default: Option<WireNode>) -> Option<WireNode> {
    match named {
        Some(_) => named,
        None => default,
    }
}

impl Clone for MsgbusClient {
    fn clone(&self) -> (res: MsgbusClient)
        ensures
            res == *self,
    {
        MsgbusClient { default_origin: self.default_node() }
    }
}

impl MsgbusClient {
    /// A client that names no node of its own.
    pub fn new() -> (res: MsgbusClient)
        ensures
            res.default_origin is None,
    {
        MsgbusClient { default_origin: None }
    }

    /// The client, with the node that it names where a call names none. A daemon accepts writes
    /// for its own node only, so this is as a rule the node of the daemon.
    pub fn with_default_origin(self, origin: WireNode) -> (res: MsgbusClient)
        ensures
            res.default_origin == Some(origin),
    {
        MsgbusClient { default_origin: Some(origin) }
    }

    fn default_node(&self) -> (res: Option<WireNode>)
        ensures
            res == self.default_origin,
    {
        match &self.default_origin {
            Some(node) => Some(node.clone()),
            None => None,
        }
    }

    fn named_or_default(&self, origin: Option<WireNode>) -> (res: Option<WireNode>)
        ensures
            res == or_default(origin, self.default_origin),
    {
        match origin {
            Some(node) => Some(node),
            None => self.default_node(),
        }
    }

    /// Asks to publish a message without headers.
    pub fn publish(&self, topic: &str, payload: Vec<u8>) -> (res: PublishRequest)
        ensures
            res.topic@ == topic@,
            res.origin == self.default_origin,
            res.payload == payload,
            res.headers@ == Map::<String, String>::empty(),
    {
        self.publish_with_headers(topic, payload, BTreeMap::new())
    }

    /// Asks to publish a message.
    pub fn publish_with_headers(
        &self,
        topic: &str,
        payload: Vec<u8>,
        headers: BTreeMap<String, String>,
    ) -> (res: PublishRequest)
        ensures
            res.topic@ == topic@,
            res.origin == self.default_origin,
            res.payload == payload,
            res.headers == headers,
    {
        PublishRequest { topic: topic.to_owned(), origin: self.default_node(), payload, headers }
    }

    /// Asks for the messages of a log from a position on.
    pub fn fetch(
        &self,
        topic: &str,
        origin: Option<WireNode>,
        from_head_id: u64,
        limit: u32,
    ) -> (res: FetchRequest)
        ensures
            res.topic@ == topic@,
            res.origin == or_default(origin, self.default_origin),
            res.from_head_id == from_head_id,
            res.limit == limit,
    {
        FetchRequest {
            topic: topic.to_owned(),
            origin: self.named_or_default(origin),
            from_head_id,
            limit,
        }
    }

    /// Asks for a subscription that replays as many messages as is usual.
    pub fn subscribe(&self, topic: &str, origin: Option<WireNode>, from_head_id: u64) -> (res:
        SubscribeRequest)
        ensures
            res.topic@ == topic@,
            res.origin == or_default(origin, self.default_origin),
            res.from_head_id == from_head_id,
            res.replay_limit == 100,
    {
        let usual = SubscribeOptions::default();
        self.subscribe_with_options(
            topic,
            SubscribeOptions {
                origin,
                from_head_id,
                replay_limit: usual.replay_limit,
                reconnect_delay: usual.reconnect_delay,
            },
        )
    }

    /// Asks for a subscription.
    pub fn subscribe_with_options(&self, topic: &str, options: SubscribeOptions) -> (res:
        SubscribeRequest)
        ensures
            res.topic@ == topic@,
            res.origin == or_default(options.origin, self.default_origin),
            res.from_head_id == options.from_head_id,
            res.replay_limit == options.replay_limit,
    {
        SubscribeRequest {
            topic: topic.to_owned(),
            origin: self.named_or_default(options.origin),
            from_head_id: options.from_head_id,
            replay_limit: options.replay_limit,
        }
    }

    /// A subscription that is opened again when it breaks, with the usual options.
    pub fn subscribe_reconnecting(
        &self,
        topic: &str,
        origin: Option<WireNode>,
        from_head_id: u64,
    ) -> (res: ResilientSubscription)
        ensures
            res.topic@ == topic@,
            res.origin == or_default(origin, self.default_origin),
            res.next_head_id == crate::service::first_position(from_head_id),
            from_head_id >= 1 ==> res.next_head_id == from_head_id,
            from_head_id == 0 ==> res.next_head_id == 1,
            res.replay_limit == 100,
            res.reconnect_delay == crate::clock::duration_of_millis(250),
            !res.open,
    {
        let usual = SubscribeOptions::default();
        self.subscribe_reconnecting_with_options(
            topic,
            SubscribeOptions {
                origin,
                from_head_id,
                replay_limit: usual.replay_limit,
                reconnect_delay: usual.reconnect_delay,
            },
        )
    }

    /// A subscription that is opened again when it breaks.
    pub fn subscribe_reconnecting_with_options(
        &self,
        topic: &str,
        options: SubscribeOptions,
    ) -> (res: ResilientSubscription)
        ensures
            res.topic@ == topic@,
            res.origin == or_default(options.origin, self.default_origin),
            res.next_head_id == crate::service::first_position(options.from_head_id),
            options.from_head_id >= 1 ==> res.next_head_id == options.from_head_id,
            options.from_head_id == 0 ==> res.next_head_id == 1,
            res.replay_limit == options.replay_limit,
            res.reconnect_delay == options.reconnect_delay,
            !res.open,
    {
        ResilientSubscription {
            topic: topic.to_owned(),
            origin: self.named_or_default(options.origin),
            next_head_id: if options.from_head_id == 0 {
                1
            } else {
                options.from_head_id
            },
            replay_limit: options.replay_limit,
            reconnect_delay: options.reconnect_delay,
            open: false,
        }
    }

    /// Asks for the last position of a log.
    pub fn get_head(&self, topic: &str, origin: Option<WireNode>) -> (res: GetHeadRequest)
        ensures
            res.topic@ == topic@,
            res.origin == or_default(origin, self.default_origin),
    {
        GetHeadRequest { topic: topic.to_owned(), origin: self.named_or_default(origin) }
    }

    /// Asks to mark a range of a log as deleted.
    pub fn delete_range(
        &self,
        topic: &str,
        origin: Option<WireNode>,
        from_head_id: u64,
        to_head_id: u64,
    ) -> (res: DeleteRangeRequest)
        ensures
            res.topic@ == topic@,
            res.origin == or_default(origin, self.default_origin),
            res.from_head_id == from_head_id,
            res.to_head_id == to_head_id,
    {
        DeleteRangeRequest {
            topic: topic.to_owned(),
            origin: self.named_or_default(origin),
            from_head_id,
            to_head_id,
        }
    }

    /// Asks to put a message without headers at the back of a queue.
    pub fn enqueue_fifo(&self, queue: &str, topic: &str, target: WireNode, payload: Vec<u8>) -> (res:
        EnqueueFifoRequest)
        ensures
            res.queue@ == queue@,
            res.topic@ == topic@,
            res.source == self.default_origin,
            res.target == Some(target),
            res.payload == payload,
            res.headers@ == Map::<String, String>::empty(),
    {
        self.enqueue_fifo_with_headers(queue, topic, target, payload, BTreeMap::new())
    }

    /// Asks to put a message at the back of a queue.
    pub fn enqueue_fifo_with_headers(
        &self,
        queue: &str,
        topic: &str,
        target: WireNode,
        payload: Vec<u8>,
        headers: BTreeMap<String, String>,
    ) -> (res: EnqueueFifoRequest)
        ensures
            res.queue@ == queue@,
            res.topic@ == topic@,
            res.source == self.default_origin,
            res.target == Some(target),
            res.payload == payload,
            res.headers == headers,
    {
        EnqueueFifoRequest {
            queue: queue.to_owned(),
            topic: topic.to_owned(),
            source: self.default_node(),
            target: Some(target),
            payload,
            headers,
        }
    }

    /// Asks for the front message of a queue.
    pub fn peek_fifo(&self, queue: &str) -> (res: PeekFifoRequest)
        ensures
            res.queue@ == queue@,
    {
        PeekFifoRequest { queue: queue.to_owned() }
    }

    /// Acknowledges the front message of a queue.
    pub fn ack_fifo(&self, queue: &str, message_id: &str) -> (res: AckFifoRequest)
        ensures
            res.queue@ == queue@,
            res.message_id@ == message_id@,
    {
        AckFifoRequest { queue: queue.to_owned(), message_id: message_id.to_owned() }
    }

    /// Rejects the front message of a queue.
    pub fn reject_fifo(&self, queue: &str, message_id: &str) -> (res: RejectFifoRequest)
        ensures
            res.queue@ == queue@,
            res.message_id@ == message_id@,
    {
        RejectFifoRequest { queue: queue.to_owned(), message_id: message_id.to_owned() }
    }
}

/// A subscription that is opened again when it breaks. It keeps the position of the first message
/// that it has not given out, and goes on from there.
#[derive(Debug)]
pub struct ResilientSubscription {
    pub topic: String,
    pub origin: Option<WireNode>,
    pub next_head_id: u64,
    pub replay_limit: u32,
    pub reconnect_delay: Duration,
    pub open: bool,
}

/// What became of the last step of a subscription.
pub enum StreamEvent {
    /// The stream is open.
    Opened,
    /// The stream could not be opened.
    OpenFailed(SdkError),
    /// An answer came.
    Answer(SubscribeResponse),
    /// The stream ended.
    Ended,
    /// The stream broke.
    Broken(Status),
}

/// The next step of a subscription.
pub enum StreamAction {
    /// Open the stream with this request.
    Open(SubscribeRequest),
    /// Wait for the next answer.
    Receive,
    /// Drop the stream, wait this long, and begin again.
    Pause(Duration),
    /// Give this message to the application.
    Deliver(MessageEnvelope),
    /// Give this error to the application.
    Fail(SdkError),
}

impl ResilientSubscription {
    /// The subscription differs from `other` at most in whether a stream is open.
    pub open spec fn same_but_open(self, other: ResilientSubscription) -> bool {
        self == (ResilientSubscription { open: self.open, ..other })
    }

    /// The request that goes on with the first message that was not given out.
    pub open spec fn resumes_with(self, request: SubscribeRequest) -> bool {
        &&& request.topic@ == self.topic@
        &&& request.origin == self.origin
        &&& request.from_head_id == self.next_head_id
        &&& request.replay_limit == self.replay_limit
    }

    /// The first step towards the next message: to wait for it, once a stream is open.
    pub fn next_message(&self) -> (res: StreamAction)
        ensures
            if self.open {
                res is Receive
            } else {
                res matches StreamAction::Open(request) && self.resumes_with(request)
                    && request.topic@ == self.topic@ && request.origin == self.origin
                    && request.from_head_id == self.next_head_id && request.replay_limit
                    == self.replay_limit
            },
    {
        if self.open {
            StreamAction::Receive
        } else {
            StreamAction::Open(self.open_stream())
        }
    }

    /// The request that goes on with the first message that was not given out.
    pub fn open_stream(&self) -> (res: SubscribeRequest)
        ensures
            self.resumes_with(res),
            res.topic@ == self.topic@,
            res.origin == self.origin,
            res.from_head_id == self.next_head_id,
            res.replay_limit == self.replay_limit,
    {
        SubscribeRequest {
            topic: self.topic.clone(),
            origin: match &self.origin {
                Some(node) => Some(node.clone()),
                None => None,
            },
            from_head_id: self.next_head_id,
            replay_limit: self.replay_limit,
        }
    }

    /// Takes what became of the last step, and says what is next. Failures that may pass are
    /// waited out; the position moves on only with a message that is given out.
    pub fn on_event(&mut self, event: StreamEvent) -> (res: StreamAction)
        ensures
            final(self).topic == old(self).topic,
            final(self).origin == old(self).origin,
            final(self).replay_limit == old(self).replay_limit,
            final(self).reconnect_delay == old(self).reconnect_delay,
            match event {
                StreamEvent::Answer(response) => match response.message {
                    Some(message) => {
                        &&& res == StreamAction::Deliver(message)
                        &&& message.head_id < u64::MAX ==> final(self).next_head_id
                            == message.head_id + 1
                        &&& message.head_id == u64::MAX ==> final(self).next_head_id == u64::MAX
                    },
                    None => final(self).next_head_id == old(self).next_head_id && res is Fail,
                },
                _ => final(self).next_head_id == old(self).next_head_id && !(res is Deliver),
            },
            event matches StreamEvent::Broken(status) ==> {
                let passes = status.code == Code::Unavailable || status.code
                    == Code::DeadlineExceeded || status.code == Code::Aborted || status.code
                    == Code::Cancelled;
                &&& passes ==> res == StreamAction::Pause(old(self).reconnect_delay)
                    && !final(self).open
                &&& !passes ==> res == StreamAction::Fail(SdkError::Status(status))
                    && final(self).open == old(self).open
            },
            event matches StreamEvent::OpenFailed(SdkError::Status(status)) ==> {
                let passes = status.code == Code::Unavailable || status.code
                    == Code::DeadlineExceeded || status.code == Code::Aborted || status.code
                    == Code::Cancelled;
                &&& passes ==> res == StreamAction::Pause(old(self).reconnect_delay)
                &&& !passes ==> res == StreamAction::Fail(SdkError::Status(status))
            },
            event is Opened ==> final(self).open && res is Receive,
            event is Ended ==> !final(self).open && res == StreamAction::Pause(
                old(self).reconnect_delay,
            ),
            match event {
                StreamEvent::Opened => {
                    &&& res is Receive
                    &&& final(self).open
                    &&& final(self).same_but_open(*old(self))
                },
                StreamEvent::OpenFailed(SdkError::Status(status)) => {
                    &&& *final(self) == *old(self)
                    &&& res == if crate::status::is_retryable(status.code) {
                        StreamAction::Pause(old(self).reconnect_delay)
                    } else {
                        StreamAction::Fail(SdkError::Status(status))
                    }
                },
                StreamEvent::OpenFailed(error) => {
                    &&& *final(self) == *old(self)
                    &&& res == StreamAction::Fail(error)
                },
                StreamEvent::Answer(response) => match response.message {
                    Some(message) => {
                        &&& res == StreamAction::Deliver(message)
                        &&& *final(self) == (ResilientSubscription {
                            next_head_id: crate::ids::after(message.head_id),
                            ..*old(self)
                        })
                    },
                    None => {
                        &&& *final(self) == *old(self)
                        &&& res matches StreamAction::Fail(SdkError::Protocol(text))
                        &&& text@ == "server returned empty subscribe response"@
                    },
                },
                StreamEvent::Ended => {
                    &&& res == StreamAction::Pause(old(self).reconnect_delay)
                    &&& !final(self).open
                    &&& final(self).same_but_open(*old(self))
                },
                StreamEvent::Broken(status) => if crate::status::is_retryable(status.code) {
                    &&& res == StreamAction::Pause(old(self).reconnect_delay)
                    &&& !final(self).open
                    &&& final(self).same_but_open(*old(self))
                } else {
                    &&& res == StreamAction::Fail(SdkError::Status(status))
                    &&& *final(self) == *old(self)
                },
            },
    {
        match event {
            StreamEvent::Opened => {
                self.open = true;
                StreamAction::Receive
            },
            StreamEvent::OpenFailed(error) => match error {
                SdkError::Status(status) => if retryable_status(status.code) {
                    StreamAction::Pause(self.reconnect_delay)
                } else {
                    StreamAction::Fail(SdkError::Status(status))
                },
                other => StreamAction::Fail(other),
            },
            StreamEvent::Answer(response) => {
                match required(response.message, "server returned empty subscribe response") {
                    Ok(message) => {
                        self.next_head_id = message.head_id.saturating_add(1);
                        StreamAction::Deliver(message)
                    },
                    Err(error) => StreamAction::Fail(error),
                }
            },
            StreamEvent::Ended => {
                self.open = false;
                StreamAction::Pause(self.reconnect_delay)
            },
            StreamEvent::Broken(status) => {
                if retryable_status(status.code) {
                    self.open = false;
                    StreamAction::Pause(self.reconnect_delay)
                } else {
                    StreamAction::Fail(SdkError::Status(status))
                }
            },
        }
    }
}

/// The node that a call names is the one that it is made for, and the default one where it names
/// none.
pub proof fn law_default_node(
    client: &MsgbusClient,
    topic: &str,
    origin: Option<WireNode>,
    from: u64,
    limit: u32,
    request: FetchRequest,
)
    ensures
        origin is Some ==> or_default(origin, client.default_origin) == origin,
        origin is None ==> or_default(origin, client.default_origin) == client.default_origin,
        call_ensures(MsgbusClient::fetch, (client, topic, origin, from, limit), request) ==> {
            &&& request.topic@ == topic@
            &&& request.from_head_id == from
            &&& request.limit == limit
            &&& origin is Some ==> request.origin == origin
            &&& origin is None ==> request.origin == client.default_origin
        },
{
}

/// The messages of a fetch are those of its answers, in their order: answers that hold one give it,
/// answers that hold none give nothing.
pub proof fn law_messages_of_answers(
    a: Seq<Option<MessageEnvelope>>,
    b: Seq<Option<MessageEnvelope>>,
    m: MessageEnvelope,
)
    ensures
        messages_in(Seq::empty()) == Seq::<MessageEnvelope>::empty(),
        messages_in(seq![Some(m)]) == seq![m],
        messages_in(seq![None::<MessageEnvelope>]) == Seq::<MessageEnvelope>::empty(),
        messages_in(a + b) == messages_in(a) + messages_in(b),
    decreases b.len(),
{
    let one = seq![Some(m)];
    assert(one.drop_last() =~= Seq::<Option<MessageEnvelope>>::empty());
    assert(messages_in(one.drop_last()) =~= Seq::<MessageEnvelope>::empty());
    assert(messages_in(one) =~= seq![m]);
    let none = seq![None::<MessageEnvelope>];
    assert(none.drop_last() =~= Seq::<Option<MessageEnvelope>>::empty());
    if b.len() == 0 {
        assert(a + b =~= a);
        assert(messages_in(a) + messages_in(b) =~= messages_in(a));
    } else {
        law_messages_of_answers(a, b.drop_last(), m);
        assert((a + b).drop_last() =~= a + b.drop_last());
        assert((a + b).last() == b.last());
        assert(messages_in(a + b) =~= messages_in(a) + messages_in(b));
    }
}

/// An error of a call reads as its kind and what went wrong.
pub proof fn law_sdk_errors(text: String, status: Status)
    ensures
        sdk_error_line(SdkError::Transport(text)) == "transport error: "@ + text@,
        sdk_error_line(SdkError::Protocol(text)) == "protocol error: "@ + text@,
        sdk_error_line(SdkError::Status(status)) == "rpc error: "@ + crate::status::status_text(
            crate::status::code_number(status.code),
            status.message@,
        ),
{
}

/// A subscription that is opened again asks for its own log from the first message that was not
/// given out, and differs from before in nothing but whether a stream is open.
pub proof fn law_reopening(a: ResilientSubscription, b: ResilientSubscription, r: SubscribeRequest)
    ensures
        a.resumes_with(r) <==> r.topic@ == a.topic@ && r.origin == a.origin && r.from_head_id
            == a.next_head_id && r.replay_limit == a.replay_limit,
        a.same_but_open(b) <==> a.topic == b.topic && a.origin == b.origin && a.next_head_id
            == b.next_head_id && a.replay_limit == b.replay_limit && a.reconnect_delay
            == b.reconnect_delay,
{
}

/// Positions that rise.
pub open spec fn rising(s: Seq<u64>) -> bool {
    forall|i: int, j: int| 0 <= i < j < s.len() ==> #[trigger] s[i] < #[trigger] s[j]
}

/// Where a subscription that began at `start` goes on, after streams that gave out messages at
/// these positions.
pub open spec fn resume_at(start: u64, streams: Seq<Seq<u64>>) -> u64
    decreases streams.len(),
{
    if streams.len() == 0 {
        start
    } else if streams.last().len() == 0 {
        resume_at(start, streams.drop_last())
    } else {
        crate::ids::after(streams.last().last())
    }
}

/// All that was given out, stream after stream.
pub open spec fn given_out(streams: Seq<Seq<u64>>) -> Seq<u64>
    decreases streams.len(),
{
    if streams.len() == 0 {
        Seq::empty()
    } else {
        given_out(streams.drop_last()) + streams.last()
    }
}

/// A subscription that breaks and is opened again gives out no position twice and never goes back,
/// where each stream gives rising positions from the one that it was opened with.
pub proof fn law_reconnecting_repeats_nothing(start: u64, streams: Seq<Seq<u64>>)
    requires
        forall|i: int| 0 <= i < streams.len() ==> rising(#[trigger] streams[i]),
        forall|i: int, j: int|
            0 <= i < streams.len() && 0 <= j < streams[i].len() ==> resume_at(
                start,
                streams.take(i),
            ) <= #[trigger] streams[i][j] < u64::MAX,
    ensures
        rising(given_out(streams)),
        start <= resume_at(start, streams),
        forall|k: int|
            0 <= k < given_out(streams).len() ==> start <= #[trigger] given_out(streams)[k]
                < resume_at(start, streams),
    decreases streams.len(),
{
    if streams.len() > 0 {
        let n = streams.len() - 1;
        let before = streams.drop_last();
        let last = streams.last();
        let out = given_out(streams);
        let earlier = given_out(before);
        assert forall|i: int| 0 <= i < before.len() implies rising(#[trigger] before[i]) by {
            assert(before[i] == streams[i]);
        }
        assert forall|i: int, j: int| 0 <= i < before.len() && 0 <= j < before[i].len() implies
            resume_at(start, before.take(i)) <= #[trigger] before[i][j] < u64::MAX by {
            assert(before[i] == streams[i]);
            assert(before.take(i) =~= streams.take(i));
            assert(streams[i][j] < u64::MAX);
        }
        law_reconnecting_repeats_nothing(start, before);
        assert(streams.take(n) =~= before);
        assert(rising(streams[n]));
        assert forall|j: int| 0 <= j < last.len() implies resume_at(start, before)
            <= #[trigger] last[j] < u64::MAX by {
            assert(last[j] == streams[n][j]);
        }
        assert(out =~= earlier + last);
        assert forall|i: int, j: int| 0 <= i < j < out.len() implies #[trigger] out[i]
            < #[trigger] out[j] by {
            if j >= earlier.len() {
                assert(out[j] == last[j - earlier.len()]);
            }
            if i < earlier.len() {
                assert(out[i] == earlier[i]);
            } else {
                assert(out[i] == last[i - earlier.len()]);
            }
        }
        if last.len() > 0 {
            let e = last.len() - 1;
            assert(last.last() == last[e]);
            assert forall|k: int| 0 <= k < out.len() implies start <= #[trigger] out[k]
                < resume_at(start, streams) by {
                if k < earlier.len() {
                    assert(out[k] == earlier[k]);
                    assert(resume_at(start, before) <= last[e]);
                } else {
                    assert(out[k] == last[k - earlier.len()]);
                    if k - earlier.len() < e {
                        assert(last[k - earlier.len()] < last[e]);
                    }
                }
            }
            assert(start <= resume_at(start, before) <= last[e]);
        }
    }
}

} // verus!

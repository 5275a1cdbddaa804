//! How a daemon copies from a peer what it does not have.
//!
//! A daemon asks a peer for the last positions of its logs, compares them with its own, and
//! fetches what is missing, log by log and batch by batch. The calls to the peer are made
//! elsewhere; what is asked of the peer, and what is done with what it gives, is decided here.

use std::time::Duration;

use vstd::prelude::*;
use vstd::string::*;

use crate::clock::duration_from_millis;
use crate::error::ErrorView;
use crate::error::MsgbusError;
use crate::ids::validate_part;
use crate::ids::NodeId;
use crate::ids::NodeView;
use crate::ids::Topic;
use crate::keys::LogView;
use crate::message::MessageView;
use crate::message::PeerSyncState;
use crate::message::ReplicateResult;
use crate::message::StoredMessage;
use crate::message::SyncStateView;
use crate::message::TombstoneRange;
use crate::message::TopicHead;
use crate::message::TopicHeadView;
use crate::service::apply_control_message;
use crate::status::Status;
use crate::status::StatusView;
use crate::store::MsgbusStore;
use crate::store::StoreView;
use crate::text::chars_of;
use crate::text::same_text;
use crate::wire::core_message;
use crate::wire::core_topic_head;
use crate::wire::FetchRequest;
use crate::wire::MessageEnvelope;
use crate::wire::WireNode;
use crate::wire::WireTopicHead;

verus! {

/// A peer to copy from, and the node that it must be, where that is pinned.
#[derive(Debug)]
pub struct PeerSpec {
    pub endpoint: String,
    pub expected_node: Option<NodeId>,
}

/// A [`PeerSpec`] as a value.
pub struct PeerView {
    pub endpoint: Seq<char>,
    pub expected_node: Option<NodeView>,
}

impl View for PeerSpec {
    type V = PeerView;

    open spec fn view(&self) -> PeerView {
        PeerView {
            endpoint: self.endpoint@,
            expected_node: match self.expected_node {
                Some(node) => Some(node@),
                None => None,
            },
        }
    }
}

impl Clone for PeerSpec {
    fn clone(&self) -> (res: PeerSpec)
        ensures
            res == *self,
    {
        PeerSpec {
            endpoint: self.endpoint.clone(),
            expected_node: match &self.expected_node {
                Some(node) => Some(node.clone()),
                None => None,
            },
        }
    }
}

/// The refusal of an identity that does not have three parts.
pub open spec fn identity_form_error() -> ErrorView {
    crate::error::invalid_argument("peer identity must be tenant/bl/device"@)
}

/// The node that `tenant/bl/device` names, with exactly two slashes in it.
pub open spec fn identity_of(text: Seq<char>) -> Result<NodeView, ErrorView> {
    match (text.index_of_first('/'), text.index_of_last('/')) {
        (Some(p), Some(q)) => {
            if p < q && !text.subrange(p + 1, q).contains('/') {
                let node = NodeView {
                    tenant_id: text.subrange(0, p),
                    bl_name: text.subrange(p + 1, q),
                    device_id: text.subrange(q + 1, text.len() as int),
                };
                match node.error() {
                    Some(e) => Err(e),
                    None => Ok(node),
                }
            } else {
                Err(identity_form_error())
            }
        },
        _ => Err(identity_form_error()),
    }
}

/// The peer that a text names: an endpoint, and behind the last equals sign, where there is one,
/// the identity that is pinned.
pub open spec fn peer_of(text: Seq<char>) -> Result<PeerView, ErrorView> {
    match text.index_of_last('=') {
        None => match crate::ids::part_error("peer"@, text) {
            Some(e) => Err(e),
            None => Ok(PeerView { endpoint: text, expected_node: None }),
        },
        Some(i) => match crate::ids::part_error("peer"@, text.subrange(0, i)) {
            Some(e) => Err(e),
            None => match identity_of(text.subrange(i + 1, text.len() as int)) {
                Err(e) => Err(e),
                Ok(node) => Ok(
                    PeerView { endpoint: text.subrange(0, i), expected_node: Some(node) },
                ),
            },
        },
    }
}

fn first_of(chars: &Vec<char>, c: char) -> (res: Option<usize>)
    ensures
        match res {
            Some(i) => chars@.index_of_first(c) == Some(i as int) && i < chars@.len(),
            None => chars@.index_of_first(c) is None,
        },
{
    proof {
        chars@.index_of_first_ensures(c);
    }
    for i in 0..chars.len()
        invariant
            forall|j: int| 0 <= j < i ==> chars@[j] != c,
            match chars@.index_of_first(c) {
                Some(index) => {
                    &&& chars@.contains(c)
                    &&& 0 <= index < chars@.len()
                    &&& chars@[index] == c
                    &&& forall|j: int| 0 <= j < index < chars@.len() ==> chars@[j] != c
                },
                None => !chars@.contains(c),
            },
    {
        if chars[i] == c {
            assert(chars@.contains(c));
            return Some(i);
        }
    }
    None
}

fn last_of(chars: &Vec<char>, c: char) -> (res: Option<usize>)
    ensures
        match res {
            Some(i) => chars@.index_of_last(c) == Some(i as int) && i < chars@.len(),
            None => chars@.index_of_last(c) is None,
        },
{
    proof {
        chars@.index_of_last_ensures(c);
    }
    let mut i: usize = chars.len();
    while i > 0
        invariant
            i <= chars@.len(),
            forall|j: int| i <= j < chars@.len() ==> chars@[j] != c,
            match chars@.index_of_last(c) {
                Some(index) => {
                    &&& chars@.contains(c)
                    &&& 0 <= index < chars@.len()
                    &&& chars@[index] == c
                    &&& forall|j: int| 0 <= index < j < chars@.len() ==> chars@[j] != c
                },
                None => !chars@.contains(c),
            },
        decreases i,
    {
        i = i - 1;
        if chars[i] == c {
            assert(chars@.contains(c));
            return Some(i);
        }
    }
    None
}

fn parse_identity(text: &str) -> (res: Result<NodeId, MsgbusError>)
    ensures
        crate::error::is_outcome_of(res, identity_of(text@)),
{
    let chars = chars_of(text);
    let form = MsgbusError::InvalidArgument("peer identity must be tenant/bl/device".to_owned());
    let len: usize = chars.len();
    let p: usize = match first_of(&chars, '/') {
        Some(p) => p,
        None => return Err(form),
    };
    let q: usize = match last_of(&chars, '/') {
        Some(q) => q,
        None => return Err(form),
    };
    if p >= q {
        return Err(form);
    }
    let bl_name = text.substring_char(p + 1, q);
    if crate::text::has_char(bl_name, '/') {
        return Err(form);
    }
    NodeId::new(text.substring_char(0, p), bl_name, text.substring_char(q + 1, len))
}

impl PeerSpec {
    /// The peer that `text` names: `endpoint`, or `endpoint=tenant/bl/device` to pin its identity.
    pub fn parse(text: &str) -> (res: Result<PeerSpec, MsgbusError>)
        ensures
            crate::error::is_outcome_of(res, peer_of(text@)),
    {
        let chars = chars_of(text);
        match last_of(&chars, '=') {
            None => {
                validate_part("peer", text)?;
                Ok(PeerSpec { endpoint: text.to_owned(), expected_node: None })
            },
            Some(i) => {
                let endpoint = text.substring_char(0, i);
                validate_part("peer", endpoint)?;
                let node = parse_identity(text.substring_char(i + 1, chars.len()))?;
                Ok(PeerSpec { endpoint: endpoint.to_owned(), expected_node: Some(node) })
            },
        }
    }
}

/// An endpoint and an identity that are written down together are read back as they were, where
/// no part of the identity holds a slash or an equals sign.
pub proof fn law_pinned_peer_reads_back(endpoint: Seq<char>, node: NodeView)
    requires
        crate::ids::valid_part(endpoint),
        node.error() is None,
        !node.key().contains('='),
        !node.tenant_id.contains('/'),
        !node.bl_name.contains('/'),
        !node.device_id.contains('/'),
    ensures
        peer_of(endpoint + seq!['='] + node.key()) == Ok::<PeerView, ErrorView>(
            PeerView { endpoint, expected_node: Some(node) },
        ),
{
    let key = node.key();
    let text = endpoint + seq!['='] + key;
    let i = endpoint.len() as int;
    assert(text[i] == '=');
    assert(text.contains('='));
    text.index_of_last_ensures('=');
    assert forall|j: int| i < j < text.len() implies text[j] != '=' by {
        assert(text[j] == key[j - i - 1]);
    }
    assert(text.index_of_last('=') == Some(i));
    assert(text.subrange(0, i) =~= endpoint);
    assert(text.subrange(i + 1, text.len() as int) =~= key);
    let p = node.tenant_id.len() as int;
    let q = p + 1 + node.bl_name.len();
    assert(key[p] == '/' && key[q] == '/');
    assert(key.contains('/'));
    key.index_of_first_ensures('/');
    key.index_of_last_ensures('/');
    assert forall|j: int| 0 <= j < p implies key[j] != '/' by {
        assert(key[j] == node.tenant_id[j]);
    }
    assert forall|j: int| q < j < key.len() implies key[j] != '/' by {
        assert(key[j] == node.device_id[j - q - 1]);
    }
    assert(key.index_of_first('/') == Some(p));
    assert(key.index_of_last('/') == Some(q));
    assert(key.subrange(0, p) =~= node.tenant_id);
    assert(key.subrange(p + 1, q) =~= node.bl_name);
    assert(key.subrange(q + 1, key.len() as int) =~= node.device_id);
}

/// How a daemon reaches its peers over TLS. The texts are in PEM form.
#[derive(Debug)]
pub struct PeerTls {
    /// The authority that the certificates of the peers come from.
    pub ca: Option<String>,
    /// The certificate that the daemon shows to its peers.
    pub cert: Option<String>,
    /// The private key of that certificate.
    pub key: Option<String>,
    /// The name that the certificates of the peers are for, where it is not that of the endpoint.
    pub domain: Option<String>,
}

fn copy_text(text: &Option<String>) -> (res: Option<String>)
    ensures
        res == *text,
{
    match text {
        Some(text) => Some(text.clone()),
        None => None,
    }
}

impl Clone for PeerTls {
    fn clone(&self) -> (res: PeerTls)
        ensures
            res == *self,
    {
        PeerTls {
            ca: copy_text(&self.ca),
            cert: copy_text(&self.cert),
            key: copy_text(&self.key),
            domain: copy_text(&self.domain),
        }
    }
}

/// What node a daemon is, what peers it copies from, how often, how much at a time, and how it
/// reaches them.
#[derive(Debug)]
pub struct PeerSyncConfig {
    pub local_node: NodeId,
    pub peers: Vec<PeerSpec>,
    pub interval: Duration,
    pub batch_limit: u32,
    pub tls: Option<PeerTls>,
}

impl Clone for PeerSyncConfig {
    fn clone(&self) -> (res: PeerSyncConfig)
        ensures
            res.local_node == self.local_node,
            res.peers@ == self.peers@,
            res.interval == self.interval,
            res.batch_limit == self.batch_limit,
            res.tls == self.tls,
    {
        let mut peers: Vec<PeerSpec> = Vec::new();
        for i in 0..self.peers.len()
            invariant
                peers@ == self.peers@.take(i as int),
        {
            peers.push(self.peers[i].clone());
            assert(peers@ =~= self.peers@.take(i + 1));
        }
        assert(self.peers@.take(self.peers@.len() as int) =~= self.peers@);
        PeerSyncConfig {
            local_node: self.local_node.clone(),
            peers,
            interval: self.interval,
            batch_limit: self.batch_limit,
            tls: match &self.tls {
                Some(tls) => Some(tls.clone()),
                None => None,
            },
        }
    }
}

impl PeerSyncConfig {
    /// No peers: a second between rounds, a hundred messages at a time, no TLS, and the daemon not
    /// named.
    pub fn disabled() -> (res: PeerSyncConfig)
        ensures
            res.local_node@.is_empty(),
            res.peers@ == Seq::<PeerSpec>::empty(),
            res.interval == crate::clock::duration_of_millis(1000),
            res.batch_limit == 100,
            res.tls is None,
    {
        PeerSyncConfig {
            local_node: NodeId {
                tenant_id: String::new(),
                bl_name: String::new(),
                device_id: String::new(),
            },
            peers: Vec::new(),
            interval: duration_from_millis(1000),
            batch_limit: 100,
            tls: None,
        }
    }

    /// Whether there is a peer to copy from.
    pub fn is_enabled(&self) -> (res: bool)
        ensures
            res == (self.peers@.len() > 0),
    {
        self.peers.len() > 0
    }
}

/// Why copying from a peer stopped.
#[derive(Debug)]
pub enum SyncError {
    /// The store failed or refused a message.
    Store(MsgbusError),
    /// A call failed, or what it gave could not be read.
    Call(Status),
    /// The peer is not the one that was expected, or gave what it was not asked for.
    Peer(String),
}

/// How an error of the copying reads.
pub open spec fn sync_error_line(e: SyncError) -> Seq<char> {
    match e {
        SyncError::Store(e) => crate::error::error_line(e@),
        SyncError::Call(status) => crate::status::status_text(
            crate::status::code_number(status.code),
            status.message@,
        ),
        SyncError::Peer(text) => text@,
    }
}

impl SyncError {
    /// The error as a line of text.
    pub fn describe(&self) -> (line: String)
        ensures
            line@ == sync_error_line(*self),
    {
        match self {
            SyncError::Store(e) => e.describe(),
            SyncError::Call(status) => status.describe(),
            SyncError::Peer(text) => text.clone(),
        }
    }
}

/// What is said of a peer that is not the node that was pinned.
pub open spec fn identity_error(endpoint: Seq<char>, expected: NodeView) -> Seq<char> {
    "peer "@ + endpoint + " is not the expected node "@ + expected.key()
}

/// Accepts a peer by the node that it says it is: where an identity is pinned, only that node.
pub fn check_identity(peer: &PeerSpec, reported: Option<WireNode>) -> (res: Result<(), SyncError>)
    ensures
        match peer@.expected_node {
            None => res is Ok,
            Some(expected) => if crate::wire::optional_node(reported) == Some(expected) {
                res is Ok
            } else {
                res matches Err(SyncError::Peer(text)) && text@ == identity_error(
                    peer.endpoint@,
                    expected,
                )
            },
        },
{
    let expected = match &peer.expected_node {
        None => return Ok(()),
        Some(expected) => expected,
    };
    match reported {
        Some(node) => {
            if node.tenant_id == expected.tenant_id && node.bl_name == expected.bl_name
                && node.device_id == expected.device_id {
                return Ok(());
            }
        },
        None => {},
    }
    let mut line = "peer ".to_owned();
    line.append(peer.endpoint.as_str());
    line.append(" is not the expected node ");
    line.append(expected.key().as_str());
    assert(line@ =~= identity_error(peer.endpoint@, expected@));
    Err(SyncError::Peer(line))
}

/// How far the log of a peer has been copied.
#[derive(Debug)]
pub struct LogSync {
    /// The log, and its last position at the peer.
    pub head: TopicHead,
    /// The last position that was copied, or was there before.
    pub local_head: u64,
    /// Where the batch under way began.
    pub batch_start: u64,
    /// How many messages the batch under way has brought.
    pub fetched: u32,
    /// The peer had nothing more to give.
    pub stalled: bool,
}

/// A [`LogSync`] as a value.
pub struct LogSyncView {
    pub head: TopicHeadView,
    pub local_head: u64,
    pub batch_start: u64,
    pub fetched: u32,
    pub stalled: bool,
}

impl View for LogSync {
    type V = LogSyncView;

    open spec fn view(&self) -> LogSyncView {
        LogSyncView {
            head: self.head@,
            local_head: self.local_head,
            batch_start: self.batch_start,
            fetched: self.fetched,
            stalled: self.stalled,
        }
    }
}

/// Nothing of a log has been copied yet, of which the local store has `local_head`.
pub open spec fn opened(head: TopicHeadView, local_head: u64) -> LogSyncView {
    LogSyncView { head, local_head, batch_start: local_head, fetched: 0, stalled: false }
}

impl LogSyncView {
    /// The peer has more of the log, as far as is known.
    pub open spec fn behind(self) -> bool {
        !self.stalled && self.local_head < self.head.head_id
    }

    /// With a batch under way.
    pub open spec fn batch_begun(self) -> LogSyncView {
        LogSyncView { batch_start: self.local_head, fetched: 0, ..self }
    }

    /// After the message at position `at` was copied.
    pub open spec fn counted(self, at: u64) -> LogSyncView {
        LogSyncView {
            local_head: if self.local_head < at {
                at
            } else {
                self.local_head
            },
            fetched: if self.fetched == u32::MAX {
                self.fetched
            } else {
                (self.fetched + 1) as u32
            },
            ..self
        }
    }

    /// After the batch under way: one that brought nothing new is the last.
    pub open spec fn batch_ended(self) -> LogSyncView {
        LogSyncView {
            stalled: self.stalled || self.fetched == 0 || self.local_head == self.batch_start,
            ..self
        }
    }
}

/// The store with a message of a peer in it, unless one is at its place already.
pub open spec fn copied(s: StoreView, m: MessageView) -> StoreView {
    if s.messages.contains_key((crate::store::message_log(m), m.head_id)) {
        s
    } else {
        s.replicated(m)
    }
}

/// What is said of a message that was not asked for.
pub open spec fn mismatch_error(peer: Seq<char>, head: TopicHeadView) -> Seq<char> {
    "peer "@ + peer + " returned mismatched message for topic="@ + head.topic + " origin="@
        + head.origin.key()
}

/// What comes of a message of the log at hand.
pub open spec fn message_outcome<
    S: MsgbusStore,
    F: Fn(&Vec<u8>) -> Result<TombstoneRange, String>,
>(
    before: StoreView,
    after: StoreView,
    decode: F,
    m: MessageView,
    res: Result<Option<StoredMessage>, SyncError>,
) -> bool {
    let place = (crate::store::message_log(m), m.head_id);
    let there = before.messages.contains_key(place);
    match res {
        Ok(inserted) => {
            &&& there ==> before.messages[place].id == m.id && inserted is None
            &&& !there ==> (inserted matches Some(message) && message@ == m)
            &&& if crate::service::is_control(m) {
                exists|payload: &Vec<u8>, range: TombstoneRange| #[trigger]
                    call_ensures(decode, (payload,), Ok::<TombstoneRange, String>(range))
                        && payload@ == m.payload && was_marked(copied(before, m), after, range)
            } else {
                after == copied(before, m)
            }
        },
        Err(SyncError::Store(e)) => {
            &&& after == before
            &&& {
                ||| there && before.messages[place].id != m.id && e@
                    == crate::engine::taken_error()
                ||| !S::reliable() && S::replicate_fails(before, m, e@)
            }
        },
        Err(SyncError::Call(status)) => {
            &&& crate::service::is_control(m)
            &&& after == copied(before, m)
            &&& there ==> before.messages[place].id == m.id
            &&& control_refused::<S, F>(copied(before, m), decode, m, status@)
        },
        Err(SyncError::Peer(_)) => false,
    }
}

/// The range was marked as deleted.
pub open spec fn was_marked(before: StoreView, after: StoreView, range: TombstoneRange) -> bool {
    let from = range.from_head_id.0;
    let to = range.to_head_id.0;
    from <= to && exists|at: u64|
        crate::clock::is_reading(at) && after == before.tombstoned(
            crate::keys::log_of(range.topic@, range.origin@),
            #[trigger] crate::store::tombstone_record(range.topic@, range.origin@, from, to, at),
        )
}

/// The payload of a message that should tell of a deleted range could not be read, or its range
/// ends before it starts, or the store, which held `before`, could not mark the range.
pub open spec fn control_refused<
    S: MsgbusStore,
    F: Fn(&Vec<u8>) -> Result<TombstoneRange, String>,
>(
    before: StoreView,
    decode: F,
    m: MessageView,
    status: StatusView,
) -> bool {
    exists|payload: &Vec<u8>, range: Result<TombstoneRange, String>| #[trigger]
        call_ensures(decode, (payload,), range) && payload@ == m.payload && match range {
            Err(text) => status == crate::service::payload_error(text@),
            Ok(range) => if range.from_head_id.0 > range.to_head_id.0 {
                status == crate::status::status_of(crate::engine::range_error())
            } else {
                !S::reliable() && crate::service::mark_failed::<S>(before, range, status)
            },
        }
}

impl LogSync {
    /// Compares a log of the peer with the local one.
    pub fn open<S: MsgbusStore>(store: &S, head: WireTopicHead) -> (res: Result<
        LogSync,
        SyncError,
    >)
        requires
            store.valid(),
        ensures
            match crate::wire::topic_head_of(head@) {
                Err(e) => res matches Err(SyncError::Call(status)) && status@ == e,
                Ok(remote) => match res {
                    Ok(sync) => sync@ == opened(
                        remote,
                        store.state().head_of(crate::store::head_log(remote)),
                    ),
                    Err(e) => !S::reliable() && (e matches SyncError::Store(error)
                        && crate::store::head_unread(
                        store,
                        crate::store::head_log(remote),
                        error@,
                    )),
                },
            },
    {
        let head = match core_topic_head(head) {
            Ok(head) => head,
            Err(status) => return Err(SyncError::Call(status)),
        };
        let local_head: u64 = match store.get_head(&head.topic, &head.origin) {
            Ok(Some(local)) => local.0,
            Ok(None) => 0,
            Err(e) => {
                assert(crate::store::head_unread(store, crate::store::head_log(head@), e@));
                return Err(SyncError::Store(e));
            },
        };
        Ok(LogSync { head, local_head, batch_start: local_head, fetched: 0, stalled: false })
    }

    /// Begins the next batch, and says what to ask the peer for; nothing where the log is copied
    /// as far as the peer had it.
    pub fn next_request(&mut self, batch_limit: u32) -> (res: Option<FetchRequest>)
        ensures
            match res {
                Some(request) => {
                    &&& old(self)@.behind()
                    &&& final(self)@ == old(self)@.batch_begun()
                    &&& request.topic@ == old(self)@.head.topic
                    &&& crate::wire::optional_node(request.origin) == Some(
                        old(self)@.head.origin,
                    )
                    &&& request.from_head_id == old(self).local_head + 1
                    &&& request.limit == if batch_limit == 0 {
                        1
                    } else {
                        batch_limit
                    }
                },
                None => !old(self)@.behind() && *final(self) == *old(self),
            },
    {
        if self.stalled || self.local_head >= self.head.head_id.0 {
            return None;
        }
        self.batch_start = self.local_head;
        self.fetched = 0;
        Some(
            FetchRequest {
                topic: self.head.topic.as_str().to_owned(),
                origin: Some(
                    WireNode {
                        tenant_id: self.head.origin.tenant_id.clone(),
                        bl_name: self.head.origin.bl_name.clone(),
                        device_id: self.head.origin.device_id.clone(),
                    },
                ),
                from_head_id: self.local_head + 1,
                limit: if batch_limit == 0 {
                    1
                } else {
                    batch_limit
                },
            },
        )
    }

    /// Takes one answer of the peer: copies the message that it holds into the store, and does
    /// what the message tells of. Gives the message where the store did not have it.
    pub fn receive<S: MsgbusStore, F: Fn(&Vec<u8>) -> Result<TombstoneRange, String>>(
        &mut self,
        store: &mut S,
        peer: &str,
        envelope: Option<MessageEnvelope>,
        decode: F,
    ) -> (res: Result<Option<StoredMessage>, SyncError>)
        requires
            old(store).valid(),
            forall|payload: &Vec<u8>| call_requires(decode, (payload,)),
        ensures
            final(store).valid(),
            match envelope {
                None => {
                    &&& res == Ok::<Option<StoredMessage>, SyncError>(None)
                    &&& *final(self) == *old(self)
                    &&& final(store).state() == old(store).state()
                },
                Some(envelope) => match crate::wire::message_of(envelope@) {
                    Err(e) => {
                        &&& res matches Err(SyncError::Call(status))
                        &&& status@ == e
                        &&& *final(self) == *old(self)
                        &&& final(store).state() == old(store).state()
                    },
                    Ok(m) => if m.topic != old(self)@.head.topic || m.origin
                        != old(self)@.head.origin {
                        &&& res matches Err(SyncError::Peer(text))
                        &&& text@ == mismatch_error(peer@, old(self)@.head)
                        &&& *final(self) == *old(self)
                        &&& final(store).state() == old(store).state()
                    } else {
                        &&& message_outcome::<S, F>(
                            old(store).state(),
                            final(store).state(),
                            decode,
                            m,
                            res,
                        )
                        &&& res is Ok ==> final(self)@ == old(self)@.counted(m.head_id)
                        &&& res is Err ==> *final(self) == *old(self)
                    },
                },
            },
    {
        let message = match envelope {
            None => return Ok(None),
            Some(envelope) => match core_message(envelope) {
                Ok(message) => message,
                Err(status) => return Err(SyncError::Call(status)),
            },
        };
        if message.topic != self.head.topic || message.origin != self.head.origin {
            let mut line = "peer ".to_owned();
            line.append(peer);
            line.append(" returned mismatched message for topic=");
            line.append(self.head.topic.as_str());
            line.append(" origin=");
            line.append(self.head.origin.key().as_str());
            assert(line@ =~= mismatch_error(peer@, self.head@));
            return Err(SyncError::Peer(line));
        }
        let inserted = match store.put_replicated_message(message.clone()) {
            Ok(ReplicateResult::Inserted) => true,
            Ok(ReplicateResult::AlreadyPresent) => false,
            Err(e) => return Err(SyncError::Store(e)),
        };
        match apply_control_message(store, &message, decode) {
            Ok(_) => {},
            Err(status) => return Err(SyncError::Call(status)),
        }
        if self.local_head < message.head_id.0 {
            self.local_head = message.head_id.0;
        }
        self.fetched = self.fetched.saturating_add(1);
        if inserted {
            Ok(Some(message))
        } else {
            Ok(None)
        }
    }

    /// Ends the batch under way: one that brought nothing new is the last.
    pub fn end_batch(&mut self)
        ensures
            final(self)@ == old(self)@.batch_ended(),
    {
        if self.fetched == 0 || self.local_head == self.batch_start {
            self.stalled = true;
        }
    }
}

/// What is kept of a log that was copied as far as the peer had it.
pub open spec fn synced_state(v: LogSyncView, peer: Seq<char>) -> SyncStateView {
    SyncStateView {
        peer,
        topic: v.head.topic,
        origin: v.head.origin,
        local_head: v.local_head,
        remote_head: v.head.head_id,
        last_synced_head: v.local_head,
        consecutive_failures: 0,
        last_error: Seq::empty(),
    }
}

/// What is kept of the log `head` of a peer that could not be copied to its end, where the store
/// has it up to `local_head`, and `known` was kept before.
pub open spec fn failed_state(
    head: TopicHeadView,
    local_head: u64,
    peer: Seq<char>,
    known: Option<SyncStateView>,
    error: Seq<char>,
) -> SyncStateView {
    SyncStateView {
        peer,
        topic: head.topic,
        origin: head.origin,
        local_head,
        remote_head: head.head_id,
        last_synced_head: match known {
            Some(state) => state.last_synced_head,
            None => 0,
        },
        consecutive_failures: match known {
            Some(state) => if state.consecutive_failures == u32::MAX {
                state.consecutive_failures
            } else {
                (state.consecutive_failures + 1) as u32
            },
            None => 1,
        },
        last_error: error,
    }
}

/// What the store `s` keeps of the log `head` of a peer when it could not be copied to its end.
pub open spec fn failure_of(
    s: StoreView,
    peer: Seq<char>,
    head: TopicHeadView,
    error: Seq<char>,
) -> SyncStateView {
    let log = crate::store::head_log(head);
    let known = if s.sync.contains_key((peer, log)) {
        Some(s.sync[(peer, log)])
    } else {
        None
    };
    failed_state(head, s.head_of(log), peer, known, error)
}

/// The store could not keep that the log `head` was not copied to its end, and `e` tells why.
pub open spec fn failure_unkept<S: MsgbusStore>(
    store: &S,
    peer: Seq<char>,
    head: TopicHeadView,
    error: Seq<char>,
    e: SyncError,
) -> bool {
    e matches SyncError::Store(error_of_store) && {
        ||| crate::store::sync_unread(
            store,
            peer,
            crate::store::head_log(head),
            error_of_store@,
        )
        ||| crate::store::head_unread(store, crate::store::head_log(head), error_of_store@)
        ||| S::sync_fails(
            store.state(),
            failure_of(store.state(), peer, head, error),
            error_of_store@,
        )
    }
}

/// Keeps in the store that the log `head` of a peer could not be copied to its end, and why.
fn keep_failure<S: MsgbusStore>(store: &mut S, peer: &str, head: &TopicHead, error: &str) -> (res:
    Result<(), SyncError>)
    requires
        old(store).valid(),
    ensures
        final(store).valid(),
        match res {
            Ok(_) => final(store).state() == old(store).state().with_sync(
                failure_of(old(store).state(), peer@, head@, error@),
            ),
            Err(e) => {
                &&& !S::reliable()
                &&& failure_unkept(&*old(store), peer@, head@, error@, e)
                &&& final(store).state() == old(store).state()
            },
        },
{
    let ghost log = crate::store::head_log(head@);
    let known = match store.get_peer_sync_state(peer, &head.topic, &head.origin) {
        Ok(known) => known,
        Err(e) => {
            assert(crate::store::sync_unread(&*store, peer@, log, e@));
            return Err(SyncError::Store(e));
        },
    };
    let local_head: u64 = match store.get_head(&head.topic, &head.origin) {
        Ok(Some(local)) => local.0,
        Ok(None) => 0,
        Err(e) => {
            assert(crate::store::head_unread(&*store, log, e@));
            return Err(SyncError::Store(e));
        },
    };
    let (last_synced_head, consecutive_failures): (u64, u32) = match known {
        Some(state) => (state.last_synced_head, state.consecutive_failures.saturating_add(1)),
        None => (0, 1),
    };
    let state = PeerSyncState {
        peer: peer.to_owned(),
        topic: head.topic.clone(),
        origin: head.origin.clone(),
        local_head,
        remote_head: head.head_id.0,
        last_synced_head,
        consecutive_failures,
        last_error: error.to_owned(),
    };
    assert(state@ == failure_of(store.state(), peer@, head@, error@));
    match store.put_peer_sync_state(state) {
        Ok(_) => Ok(()),
        Err(e) => Err(SyncError::Store(e)),
    }
}

impl LogSync {
    /// Keeps in the store that the log was copied as far as the peer had it.
    pub fn record_success<S: MsgbusStore>(&self, store: &mut S, peer: &str) -> (res: Result<
        (),
        SyncError,
    >)
        requires
            old(store).valid(),
        ensures
            final(store).valid(),
            match res {
                Ok(_) => final(store).state() == old(store).state().with_sync(
                    synced_state(self@, peer@),
                ),
                Err(e) => {
                    &&& !S::reliable()
                    &&& e matches SyncError::Store(error) && S::sync_fails(
                        old(store).state(),
                        synced_state(self@, peer@),
                        error@,
                    )
                    &&& final(store).state() == old(store).state()
                },
            },
    {
        let state = PeerSyncState {
            peer: peer.to_owned(),
            topic: self.head.topic.clone(),
            origin: self.head.origin.clone(),
            local_head: self.local_head,
            remote_head: self.head.head_id.0,
            last_synced_head: self.local_head,
            consecutive_failures: 0,
            last_error: String::new(),
        };
        assert(state@ == synced_state(self@, peer@));
        match store.put_peer_sync_state(state) {
            Ok(_) => Ok(()),
            Err(e) => Err(SyncError::Store(e)),
        }
    }

    /// Keeps in the store that the log could not be copied to its end, and why.
    pub fn record_failure<S: MsgbusStore>(&self, store: &mut S, peer: &str, error: &SyncError) -> (res:
        Result<(), SyncError>)
        requires
            old(store).valid(),
        ensures
            final(store).valid(),
            match res {
                Ok(_) => final(store).state() == old(store).state().with_sync(
                    failure_of(old(store).state(), peer@, self@.head, sync_error_line(*error)),
                ),
                Err(e) => {
                    &&& !S::reliable()
                    &&& failure_unkept(
                        &*old(store),
                        peer@,
                        self@.head,
                        sync_error_line(*error),
                        e,
                    )
                    &&& final(store).state() == old(store).state()
                },
            },
    {
        let line = error.describe();
        keep_failure(store, peer, &self.head, line.as_str())
    }
}

/// What to do next to copy from a peer.
pub enum SyncAction {
    /// Ask the peer which node it is.
    AskHealth,
    /// Ask the peer for the last positions of its logs.
    ListHeads,
    /// Ask the peer for messages.
    Fetch(FetchRequest),
    /// Take the next answer of the peer.
    Continue,
    /// Send a message that is new here to the live subscriptions, and take the next answer.
    Publish(StoredMessage),
    /// Nothing: all that the peer had is here.
    Done,
    /// Stop.
    Fail(SyncError),
}

/// One round of copying from a peer.
pub struct PeerSync {
    /// The peer.
    pub peer: PeerSpec,
    /// How many messages to ask for at a time.
    pub batch_limit: u32,
    /// The logs of the peer that have not been looked at.
    pub waiting: Vec<WireTopicHead>,
    /// The log under way.
    pub current: Option<LogSync>,
}

/// A round of copying as a value: what the store holds, the logs that have not been looked at, and
/// the log under way.
#[verifier::ext_equal]
pub struct RoundView {
    pub state: StoreView,
    pub waiting: Seq<crate::wire::WireHeadView>,
    pub current: Option<LogSyncView>,
}

impl PeerSync {
    /// The round, over a store that holds `state`.
    pub open spec fn round(&self, state: StoreView) -> RoundView {
        RoundView {
            state,
            waiting: crate::engine::values_of(self.waiting@),
            current: match self.current {
                Some(log) => Some(log@),
                None => None,
            },
        }
    }
}

/// The logs `heads` of a peer are named well, and the store `s` has all of them.
pub open spec fn caught_up(s: StoreView, heads: Seq<crate::wire::WireHeadView>) -> bool {
    forall|i: int|
        0 <= i < heads.len() ==> (crate::wire::topic_head_of(#[trigger] heads[i]) matches Ok(h)
            && h.head_id <= s.head_of(crate::store::head_log(h)))
}

/// The store after it was kept of each of the logs `heads` that nothing of it was missing.
pub open spec fn recorded(
    s: StoreView,
    peer: Seq<char>,
    heads: Seq<crate::wire::WireHeadView>,
) -> StoreView
    decreases heads.len(),
{
    if heads.len() == 0 {
        s
    } else {
        let before = recorded(s, peer, heads.drop_last());
        match crate::wire::topic_head_of(heads.last()) {
            Ok(h) => before.with_sync(
                synced_state(opened(h, s.head_of(crate::store::head_log(h))), peer),
            ),
            Err(_) => before,
        }
    }
}

/// To keep what is known of logs changes no log.
proof fn lemma_recorded_keeps_logs(
    s: StoreView,
    peer: Seq<char>,
    heads: Seq<crate::wire::WireHeadView>,
)
    ensures
        recorded(s, peer, heads).heads == s.heads,
        recorded(s, peer, heads).messages == s.messages,
    decreases heads.len(),
{
    if heads.len() > 0 {
        lemma_recorded_keeps_logs(s, peer, heads.drop_last());
    }
}

/// `request` asks for the log of `v` from behind what the store has.
pub open spec fn asks_for(request: FetchRequest, v: LogSyncView, batch_limit: u32) -> bool {
    &&& request.topic@ == v.head.topic
    &&& crate::wire::optional_node(request.origin) == Some(v.head.origin)
    &&& request.from_head_id == v.local_head + 1
    &&& request.limit == if batch_limit == 0 {
        1
    } else {
        batch_limit
    }
}

/// `k` is the place among `heads` of the first log that the store `s` lacks something of, and
/// `v` is the log with a batch begun.
pub open spec fn first_behind(
    s: StoreView,
    heads: Seq<crate::wire::WireHeadView>,
    k: int,
    v: LogSyncView,
) -> bool {
    &&& 0 <= k < heads.len()
    &&& caught_up(s, heads.take(k))
    &&& crate::wire::topic_head_of(heads[k]) matches Ok(h) && {
        let local = s.head_of(crate::store::head_log(h));
        local < h.head_id && v == opened(h, local).batch_begun()
    }
}

/// `k` is the place among `heads` of the first log that is not named well, and `e` says why.
pub open spec fn first_bad(
    s: StoreView,
    heads: Seq<crate::wire::WireHeadView>,
    k: int,
    e: StatusView,
) -> bool {
    &&& 0 <= k < heads.len()
    &&& caught_up(s, heads.take(k))
    &&& crate::wire::topic_head_of(heads[k]) == Err::<TopicHeadView, StatusView>(e)
}

/// `k` is the place among `heads` of a log that is named well, and nothing was missing of those
/// before it.
pub open spec fn looked_at(s: StoreView, heads: Seq<crate::wire::WireHeadView>, k: int) -> bool {
    &&& 0 <= k < heads.len()
    &&& caught_up(s, heads.take(k))
    &&& crate::wire::topic_head_of(heads[k]) is Ok
}

/// The round where `k` of the logs `heads` were kept as copied, and the next one is under way.
pub open spec fn advanced_to(
    before: StoreView,
    peer: Seq<char>,
    heads: Seq<crate::wire::WireHeadView>,
    k: int,
    current: LogSyncView,
) -> RoundView {
    RoundView {
        state: recorded(before, peer, heads.take(k)),
        waiting: heads.skip(k + 1),
        current: Some(current),
    }
}

/// The round that stopped where `k` of the logs `heads` were kept as copied.
pub open spec fn stopped_at(
    before: StoreView,
    peer: Seq<char>,
    heads: Seq<crate::wire::WireHeadView>,
    k: int,
) -> RoundView {
    RoundView {
        state: recorded(before, peer, heads.take(k)),
        waiting: heads.skip(k),
        current: None,
    }
}

/// A store of this kind that holds `state` could not read the last position of the log `head`, or
/// could not keep that the log is copied, and `e` tells why.
pub open spec fn look_failed<S: MsgbusStore>(
    state: StoreView,
    peer: Seq<char>,
    head: TopicHeadView,
    e: ErrorView,
) -> bool {
    let log = crate::store::head_log(head);
    ||| exists|store: &S| #[trigger]
        crate::store::head_unread(store, log, e) && store.state() == state
    ||| head.head_id <= state.head_of(log) && S::sync_fails(
        state,
        synced_state(opened(head, state.head_of(log)), peer),
        e,
    )
}

/// What comes of looking at the logs `heads`, one after the other, for one to copy from.
pub open spec fn advanced<S: MsgbusStore>(
    before: StoreView,
    peer: Seq<char>,
    batch_limit: u32,
    heads: Seq<crate::wire::WireHeadView>,
    after: RoundView,
    res: SyncAction,
) -> bool {
    match res {
        SyncAction::Fetch(request) => exists|k: int, v: LogSyncView| #[trigger]
            first_behind(before, heads, k, v) && after == advanced_to(
                before,
                peer,
                heads,
                k,
                v,
            ) && asks_for(request, v, batch_limit),
        SyncAction::Done => {
            &&& caught_up(before, heads)
            &&& after == (RoundView {
                state: recorded(before, peer, heads),
                waiting: Seq::empty(),
                current: None,
            })
        },
        SyncAction::Fail(SyncError::Call(status)) => exists|k: int| #[trigger]
            first_bad(before, heads, k, status@) && after == stopped_at(before, peer, heads, k),
        SyncAction::Fail(SyncError::Store(e)) => !S::reliable() && exists|k: int| #[trigger]
            looked_at(before, heads, k) && after == stopped_at(before, peer, heads, k)
                && look_failed::<S>(
                after.state,
                peer,
                crate::wire::topic_head_of(heads[k])->Ok_0,
                e@,
            ),
        _ => false,
    }
}

/// What comes of the end of a batch of the log `log`: the next batch of it, or, where it is copied
/// as far as the peer had it, the next log.
pub open spec fn batch_left<S: MsgbusStore>(
    before: RoundView,
    log: LogSyncView,
    peer: Seq<char>,
    batch_limit: u32,
    after: RoundView,
    res: SyncAction,
) -> bool {
    let ended = log.batch_ended();
    if ended.behind() {
        &&& res matches SyncAction::Fetch(request)
        &&& asks_for(request, ended, batch_limit)
        &&& after == (RoundView { current: Some(ended.batch_begun()), ..before })
    } else {
        ||| advanced::<S>(
            before.state.with_sync(synced_state(ended, peer)),
            peer,
            batch_limit,
            before.waiting,
            after,
            res,
        )
        ||| !S::reliable() && (res matches SyncAction::Fail(SyncError::Store(e)) && S::sync_fails(
            before.state,
            synced_state(ended, peer),
            e@,
        )) && after == (RoundView { current: Some(ended), ..before })
    }
}

impl PeerSync {
    /// A round of copying from `peer`, with nothing done yet.
    pub fn new(peer: PeerSpec, batch_limit: u32) -> (res: PeerSync)
        ensures
            res.peer == peer,
            res.batch_limit == batch_limit,
            res.waiting@.len() == 0,
            res.current is None,
    {
        PeerSync { peer, batch_limit, waiting: Vec::new(), current: None }
    }

    /// The first thing to do: a peer that is pinned must first say which node it is.
    pub fn start(&self) -> (res: SyncAction)
        ensures
            res == if self.peer@.expected_node is Some {
                SyncAction::AskHealth
            } else {
                SyncAction::ListHeads
            },
    {
        match &self.peer.expected_node {
            Some(_) => SyncAction::AskHealth,
            None => SyncAction::ListHeads,
        }
    }

    /// What to do with a peer that says it is `reported`.
    pub fn on_health(&self, reported: Option<WireNode>) -> (res: SyncAction)
        ensures
            match self.peer@.expected_node {
                None => res is ListHeads,
                Some(expected) => if crate::wire::optional_node(reported) == Some(expected) {
                    res is ListHeads
                } else {
                    res matches SyncAction::Fail(SyncError::Peer(text)) && text@
                        == identity_error(self.peer.endpoint@, expected)
                },
            },
    {
        match check_identity(&self.peer, reported) {
            Ok(_) => SyncAction::ListHeads,
            Err(e) => SyncAction::Fail(e),
        }
    }

    /// Looks for the next log that the store lacks something of, and keeps of each log before it
    /// that nothing was missing.
    fn advance<S: MsgbusStore>(&mut self, store: &mut S) -> (res: SyncAction)
        requires
            old(store).valid(),
            old(self).current is None,
        ensures
            final(store).valid(),
            final(self).peer == old(self).peer,
            final(self).batch_limit == old(self).batch_limit,
            advanced::<S>(
                old(store).state(),
                old(self).peer.endpoint@,
                old(self).batch_limit,
                crate::engine::values_of(old(self).waiting@),
                final(self).round(final(store).state()),
                res,
            ),
    {
        let ghost before = store.state();
        let ghost heads = crate::engine::values_of(self.waiting@);
        let ghost peer = self.peer.endpoint@;
        let ghost mut k: int = 0;
        proof {
            assert(heads.take(0) =~= Seq::<crate::wire::WireHeadView>::empty());
            assert(heads.skip(0) =~= heads);
        }
        while self.waiting.len() > 0
            invariant
                store.valid(),
                self.current is None,
                self.peer == old(self).peer,
                self.batch_limit == old(self).batch_limit,
                peer == self.peer.endpoint@,
                before == old(store).state(),
                heads == crate::engine::values_of(old(self).waiting@),
                0 <= k <= heads.len(),
                crate::engine::values_of(self.waiting@) == heads.skip(k),
                caught_up(before, heads.take(k)),
                store.state() == recorded(before, peer, heads.take(k)),
            decreases self.waiting.len(),
        {
            proof {
                lemma_recorded_keeps_logs(before, peer, heads.take(k));
                assert(heads.skip(k).len() == self.waiting@.len());
                assert(crate::engine::values_of(self.waiting@)[0] == self.waiting@[0]@);
                assert(heads.skip(k)[0] == heads[k]);
            }
            let ghost at = store.state();
            let head = self.waiting[0].clone();
            let mut log = match LogSync::open(&*store, head) {
                Ok(log) => log,
                Err(e) => {
                    proof {
                        assert(self.round(at) =~= stopped_at(before, peer, heads, k));
                        if e is Call {
                            assert(first_bad(before, heads, k, (e->Call_0)@));
                        } else {
                            assert(looked_at(before, heads, k));
                            let h = crate::wire::topic_head_of(heads[k])->Ok_0;
                            let why = (e->Store_0)@;
                            assert(crate::store::head_unread(
                                &*store,
                                crate::store::head_log(h),
                                why,
                            ));
                            assert(look_failed::<S>(at, peer, h, why));
                        }
                    }
                    return SyncAction::Fail(e);
                },
            };
            let ghost rest = self.waiting@;
            proof {
                assert forall|later: Seq<WireTopicHead>| later == rest.remove(
                    0,
                ) implies #[trigger] crate::engine::values_of(later) == heads.skip(k + 1) by {
                    assert forall|i: int| 0 <= i < later.len() implies #[trigger]
                        crate::engine::values_of(later)[i] == heads.skip(k + 1)[i] by {
                        assert(later[i] == rest[i + 1]);
                        assert(crate::engine::values_of(rest)[i + 1] == heads.skip(k)[i + 1]);
                    }
                    assert(crate::engine::values_of(later) =~= heads.skip(k + 1));
                }
            }
            match log.next_request(self.batch_limit) {
                Some(request) => {
                    let ghost v = log@;
                    self.waiting.remove(0);
                    self.current = Some(log);
                    proof {
                        assert(first_behind(before, heads, k, v));
                        assert(self.round(store.state()) =~= advanced_to(
                            before,
                            peer,
                            heads,
                            k,
                            v,
                        ));
                    }
                    return SyncAction::Fetch(request);
                },
                None => {},
            }
            match log.record_success(store, self.peer.endpoint.as_str()) {
                Ok(_) => {},
                Err(e) => {
                    proof {
                        assert(looked_at(before, heads, k));
                        assert(self.round(store.state()) =~= stopped_at(before, peer, heads, k));
                    }
                    return SyncAction::Fail(e);
                },
            }
            self.waiting.remove(0);
            proof {
                assert(heads.take(k + 1).drop_last() =~= heads.take(k));
                assert(heads.take(k + 1).last() == heads[k]);
                assert forall|i: int| 0 <= i < heads.take(k + 1).len() implies (
                crate::wire::topic_head_of(#[trigger] heads.take(k + 1)[i]) matches Ok(h)
                    && h.head_id <= before.head_of(crate::store::head_log(h))) by {
                    if i < k {
                        assert(heads.take(k + 1)[i] == heads.take(k)[i]);
                    }
                }
                k = k + 1;
            }
        }
        proof {
            assert(heads.skip(k).len() == 0);
            assert(heads.take(k) =~= heads);
            assert(self.round(store.state()) =~= (RoundView {
                state: recorded(before, peer, heads),
                waiting: Seq::empty(),
                current: None,
            }));
        }
        SyncAction::Done
    }

    /// Takes the last positions of the logs of the peer, and looks for the first log to copy from.
    pub fn on_heads<S: MsgbusStore>(&mut self, store: &mut S, heads: Vec<WireTopicHead>) -> (res:
        SyncAction)
        requires
            old(store).valid(),
        ensures
            final(store).valid(),
            final(self).peer == old(self).peer,
            final(self).batch_limit == old(self).batch_limit,
            advanced::<S>(
                old(store).state(),
                old(self).peer.endpoint@,
                old(self).batch_limit,
                crate::engine::values_of(heads@),
                final(self).round(final(store).state()),
                res,
            ),
    {
        self.waiting = heads;
        self.current = None;
        self.advance(store)
    }

    /// Takes one answer to a fetch; where no log is under way, there is nothing to do with it.
    pub fn on_answer<S: MsgbusStore, F: Fn(&Vec<u8>) -> Result<TombstoneRange, String>>(
        &mut self,
        store: &mut S,
        envelope: Option<MessageEnvelope>,
        decode: F,
    ) -> (res: SyncAction)
        requires
            old(store).valid(),
            forall|payload: &Vec<u8>| call_requires(decode, (payload,)),
        ensures
            final(store).valid(),
            final(self).peer == old(self).peer,
            final(self).batch_limit == old(self).batch_limit,
            final(self).waiting == old(self).waiting,
            match old(self).current {
                None => res is Continue && final(self).current is None && final(store).state()
                    == old(store).state(),
                Some(log) => final(self).current is Some && answered::<S, F>(
                    old(store).state(),
                    final(store).state(),
                    old(self).peer.endpoint@,
                    log@,
                    (final(self).current->0)@,
                    envelope,
                    decode,
                    res,
                ),
            },
    {
        let mut log = match self.current.take() {
            Some(log) => log,
            None => return SyncAction::Continue,
        };
        let got = log.receive(store, self.peer.endpoint.as_str(), envelope, decode);
        self.current = Some(log);
        match got {
            Ok(Some(message)) => SyncAction::Publish(message),
            Ok(None) => SyncAction::Continue,
            Err(e) => SyncAction::Fail(e),
        }
    }

    /// Ends the batch under way: asks for the next one, or goes on to the next log. Where no log
    /// is under way, there is nothing left to do.
    pub fn on_batch_end<S: MsgbusStore>(&mut self, store: &mut S) -> (res: SyncAction)
        requires
            old(store).valid(),
        ensures
            final(store).valid(),
            final(self).peer == old(self).peer,
            final(self).batch_limit == old(self).batch_limit,
            match old(self).current {
                None => res is Done && final(self).current is None && final(self).waiting
                    == old(self).waiting && final(store).state() == old(store).state(),
                Some(log) => batch_left::<S>(
                    old(self).round(old(store).state()),
                    log@,
                    old(self).peer.endpoint@,
                    old(self).batch_limit,
                    final(self).round(final(store).state()),
                    res,
                ),
            },
    {
        let mut log = match self.current.take() {
            Some(log) => log,
            None => return SyncAction::Done,
        };
        log.end_batch();
        match log.next_request(self.batch_limit) {
            Some(request) => {
                self.current = Some(log);
                return SyncAction::Fetch(request);
            },
            None => {},
        }
        match log.record_success(store, self.peer.endpoint.as_str()) {
            Ok(_) => {},
            Err(e) => {
                self.current = Some(log);
                return SyncAction::Fail(e);
            },
        }
        self.advance(store)
    }

    /// Keeps in the store that copying stopped, and why. This is kept of the log that was under way,
    /// or, where none was, of all else that is known of the peer; and of each log that the peer
    /// named and that was not looked at.
    pub fn on_failure<S: MsgbusStore>(&mut self, store: &mut S, error: &SyncError) -> (res: Result<
        (),
        SyncError,
    >)
        requires
            old(store).valid(),
        ensures
            final(store).valid(),
            final(self).peer == old(self).peer,
            final(self).batch_limit == old(self).batch_limit,
            final(self).waiting == old(self).waiting,
            final(self).current is None,
            match res {
                Ok(_) => final(store).state() == failed_round(
                    old(self).round(old(store).state()),
                    old(self).peer.endpoint@,
                    sync_error_line(*error),
                ),
                Err(e) => {
                    &&& !S::reliable()
                    &&& same_but_sync(
                        old(store).state(),
                        final(store).state(),
                        old(self).peer.endpoint@,
                    )
                    &&& keeping_failed::<S>(final(store).state(), old(self).peer.endpoint@, e)
                },
            },
    {
        let ghost held = *store;
        let ghost peer = self.peer.endpoint@;
        let line = error.describe();
        match self.current.take() {
            None => {
                match blame(
                    store,
                    self.peer.endpoint.as_str(),
                    &self.waiting,
                    line.as_str(),
                ) {
                    Ok(_) => {},
                    Err(e) => return Err(e),
                }
            },
            Some(log) => {
                match log.record_failure(store, self.peer.endpoint.as_str(), error) {
                    Ok(_) => {
                        proof {
                            let kept = failure_of(held.state(), peer, log@.head, line@);
                            lemma_same_but_sync(held.state(), held.state(), peer, kept);
                        }
                    },
                    Err(e) => {
                        proof {
                            lemma_unkept(&held, peer, log@.head, line@, e);
                        }
                        return Err(e);
                    },
                }
            },
        }
        keep_failures(store, self.peer.endpoint.as_str(), &self.waiting, line.as_str())
    }
}

/// One of `heads` is the log `log`.
pub open spec fn names_log(heads: Seq<crate::wire::WireHeadView>, log: LogView) -> bool {
    exists|i: int|
        0 <= i < heads.len() && (crate::wire::topic_head_of(#[trigger] heads[i]) matches Ok(h)
            && crate::store::head_log(h) == log)
}

/// Whether one of `heads` is the log of `topic` and `origin`.
fn has_head_of(heads: &Vec<WireTopicHead>, topic: &Topic, origin: &NodeId) -> (res: bool)
    ensures
        res == names_log(
            crate::engine::values_of(heads@),
            crate::keys::log_of(topic@, origin@),
        ),
{
    let ghost views = crate::engine::values_of(heads@);
    let ghost log = crate::keys::log_of(topic@, origin@);
    for i in 0..heads.len()
        invariant
            views == crate::engine::values_of(heads@),
            log == crate::keys::log_of(topic@, origin@),
            forall|j: int|
                0 <= j < i ==> !(crate::wire::topic_head_of(#[trigger] views[j]) matches Ok(h)
                    && crate::store::head_log(h) == log),
    {
        assert(views[i as int] == heads@[i as int]@);
        match core_topic_head(heads[i].clone()) {
            Ok(head) => {
                if head.topic == *topic && head.origin == *origin {
                    return true;
                }
            },
            Err(_) => {},
        }
    }
    false
}

/// What is kept of a log where copying failed once more.
pub open spec fn failed_again(state: SyncStateView, error: Seq<char>) -> SyncStateView {
    SyncStateView {
        consecutive_failures: if state.consecutive_failures == u32::MAX {
            state.consecutive_failures
        } else {
            (state.consecutive_failures + 1) as u32
        },
        last_error: error,
        ..state
    }
}

/// What is known at `place` is of a log of `peer` that is not one of `heads`.
pub open spec fn is_other_log(
    peer: Seq<char>,
    heads: Seq<crate::wire::WireHeadView>,
    place: (Seq<char>, LogView),
) -> bool {
    place.0 == peer && !names_log(heads, place.1)
}

/// The store after a failure of `peer` was kept of what is known of its logs, but for `heads`.
pub open spec fn blamed(
    s: StoreView,
    peer: Seq<char>,
    heads: Seq<crate::wire::WireHeadView>,
    error: Seq<char>,
) -> StoreView {
    StoreView {
        sync: Map::new(
            |p: (Seq<char>, LogView)| s.sync.contains_key(p),
            |p: (Seq<char>, LogView)|
                if is_other_log(peer, heads, p) {
                    failed_again(s.sync[p], error)
                } else {
                    s.sync[p]
                },
        ),
        ..s
    }
}

/// The store after it was kept of each of the logs `heads` of `peer` that it could not be copied.
pub open spec fn failures_kept(
    s: StoreView,
    peer: Seq<char>,
    heads: Seq<crate::wire::WireHeadView>,
    error: Seq<char>,
) -> StoreView
    decreases heads.len(),
{
    if heads.len() == 0 {
        s
    } else {
        let before = failures_kept(s, peer, heads.drop_last(), error);
        match crate::wire::topic_head_of(heads.last()) {
            Ok(h) => before.with_sync(failure_of(before, peer, h, error)),
            Err(_) => before,
        }
    }
}

/// The store after a round of copying failed.
pub open spec fn failed_round(round: RoundView, peer: Seq<char>, error: Seq<char>) -> StoreView {
    let before = match round.current {
        None => blamed(round.state, peer, round.waiting, error),
        Some(log) => round.state.with_sync(failure_of(round.state, peer, log.head, error)),
    };
    failures_kept(before, peer, round.waiting, error)
}

/// The store holds what it held, but for what is known of the logs of `peer`.
pub open spec fn same_but_sync(before: StoreView, after: StoreView, peer: Seq<char>) -> bool {
    &&& after == (StoreView { sync: after.sync, ..before })
    &&& forall|p: (Seq<char>, LogView)|
        #![trigger after.sync.contains_key(p)]
        #![trigger after.sync[p]]
        p.0 != peer ==> after.sync.contains_key(p) == before.sync.contains_key(p)
            && after.sync[p] == before.sync[p]
}

/// To keep a state of a log of `peer` changes nothing but what is known of its logs.
proof fn lemma_same_but_sync(
    before: StoreView,
    s: StoreView,
    peer: Seq<char>,
    state: SyncStateView,
)
    requires
        same_but_sync(before, s, peer),
        state.peer == peer,
    ensures
        same_but_sync(before, s.with_sync(state), peer),
{
    let after = s.with_sync(state);
    assert forall|p: (Seq<char>, LogView)| p.0 != peer implies after.sync.contains_key(p)
        == before.sync.contains_key(p) && #[trigger] after.sync[p] == before.sync[p] by {
        assert(s.sync.contains_key(p) == before.sync.contains_key(p));
        assert(s.sync[p] == before.sync[p]);
    }
}

/// A store of this kind that holds `state` could not read or keep what is known of the logs of
/// `peer`, and `e` tells why.
pub open spec fn keeping_failed<S: MsgbusStore>(
    state: StoreView,
    peer: Seq<char>,
    e: SyncError,
) -> bool {
    e matches SyncError::Store(error) && {
        ||| exists|store: &S| #[trigger]
            crate::store::states_unread(store, error@) && store.state() == state
        ||| exists|store: &S, log: LogView| #[trigger]
            crate::store::head_unread(store, log, error@) && store.state() == state
        ||| exists|store: &S, log: LogView| #[trigger]
            crate::store::sync_unread(store, peer, log, error@) && store.state() == state
        ||| exists|kept: SyncStateView| #[trigger]
            S::sync_fails(state, kept, error@) && kept.peer == peer
    }
}

/// To keep a failure of one log failed.
proof fn lemma_unkept<S: MsgbusStore>(
    store: &S,
    peer: Seq<char>,
    head: TopicHeadView,
    error: Seq<char>,
    e: SyncError,
)
    requires
        failure_unkept(store, peer, head, error, e),
    ensures
        keeping_failed::<S>(store.state(), peer, e),
{
    let why = (e->Store_0)@;
    let log = crate::store::head_log(head);
    if crate::store::sync_unread(store, peer, log, why) {
    } else if crate::store::head_unread(store, log, why) {
    } else {
        assert(S::sync_fails(store.state(), failure_of(store.state(), peer, head, error), why));
    }
}

/// Keeps of each of the logs `heads` of `peer` that it could not be copied, and why.
fn keep_failures<S: MsgbusStore>(
    store: &mut S,
    peer: &str,
    heads: &Vec<WireTopicHead>,
    error: &str,
) -> (res: Result<(), SyncError>)
    requires
        old(store).valid(),
    ensures
        final(store).valid(),
        match res {
            Ok(_) => final(store).state() == failures_kept(
                old(store).state(),
                peer@,
                crate::engine::values_of(heads@),
                error@,
            ),
            Err(e) => {
                &&& !S::reliable()
                &&& same_but_sync(old(store).state(), final(store).state(), peer@)
                &&& keeping_failed::<S>(final(store).state(), peer@, e)
            },
        },
{
    let ghost before = store.state();
    let ghost views = crate::engine::values_of(heads@);
    proof {
        assert(views.take(0) =~= Seq::<crate::wire::WireHeadView>::empty());
    }
    for i in 0..heads.len()
        invariant
            store.valid(),
            before == old(store).state(),
            views == crate::engine::values_of(heads@),
            store.state() == failures_kept(before, peer@, views.take(i as int), error@),
            same_but_sync(before, store.state(), peer@),
    {
        let ghost held = *store;
        proof {
            assert(views[i as int] == heads@[i as int]@);
            assert(views.take(i + 1).drop_last() =~= views.take(i as int));
            assert(views.take(i + 1).last() == views[i as int]);
        }
        match core_topic_head(heads[i].clone()) {
            Ok(head) => match keep_failure(store, peer, &head, error) {
                Ok(_) => {
                    proof {
                        let kept = failure_of(held.state(), peer@, head@, error@);
                        lemma_same_but_sync(before, held.state(), peer@, kept);
                    }
                },
                Err(e) => {
                    proof {
                        lemma_unkept(&held, peer@, head@, error@, e);
                    }
                    return Err(e);
                },
            },
            Err(_) => {},
        }
    }
    assert(views.take(views.len() as int) =~= views);
    Ok(())
}

/// Keeps a failure of `peer` in what is known of its logs, but for `heads`.
fn blame<S: MsgbusStore>(
    store: &mut S,
    peer: &str,
    heads: &Vec<WireTopicHead>,
    error: &str,
) -> (res: Result<(), SyncError>)
    requires
        old(store).valid(),
    ensures
        final(store).valid(),
        match res {
            Ok(_) => {
                &&& final(store).state() == blamed(
                    old(store).state(),
                    peer@,
                    crate::engine::values_of(heads@),
                    error@,
                )
                &&& same_but_sync(old(store).state(), final(store).state(), peer@)
            },
            Err(e) => {
                &&& !S::reliable()
                &&& same_but_sync(old(store).state(), final(store).state(), peer@)
                &&& keeping_failed::<S>(final(store).state(), peer@, e)
            },
        },
{
    let ghost before = store.state();
    let ghost views = crate::engine::values_of(heads@);
    let states = match store.list_peer_sync_states() {
        Ok(states) => states,
        Err(e) => {
            assert(crate::store::states_unread(&*store, e@));
            return Err(SyncError::Store(e));
        },
    };
    let ghost known = crate::engine::values_of(states@);
    for i in 0..states.len()
        invariant
            store.valid(),
            before == old(store).state(),
            views == crate::engine::values_of(heads@),
            known == crate::engine::values_of(states@),
            before.lists_sync(known),
            store.state().sync.dom() == before.sync.dom(),
            forall|j: int|
                0 <= j < known.len() ==> store.state().sync[crate::store::sync_place(
                    #[trigger] known[j],
                )] == if j < i && is_other_log(
                    peer@,
                    views,
                    crate::store::sync_place(known[j]),
                ) {
                    failed_again(known[j], error@)
                } else {
                    known[j]
                },
            same_but_sync(before, store.state(), peer@),
    {
        let ghost so_far = store.state();
        let ghost place = crate::store::sync_place(known[i as int]);
        assert(known[i as int] == states@[i as int]@);
        let concerned = same_text(states[i].peer.as_str(), peer) && !has_head_of(
            heads,
            &states[i].topic,
            &states[i].origin,
        );
        assert(concerned == is_other_log(peer@, views, place));
        if concerned {
            let mut state = states[i].clone();
            state.consecutive_failures = state.consecutive_failures.saturating_add(1);
            state.last_error = error.to_owned();
            let ghost kept = state@;
            assert(kept == failed_again(known[i as int], error@));
            match store.put_peer_sync_state(state) {
                Ok(_) => {},
                Err(e) => {
                    assert(S::sync_fails(so_far, kept, e@));
                    return Err(SyncError::Store(e));
                },
            }
            proof {
                lemma_same_but_sync(before, so_far, peer@, kept);
                assert(store.state().sync =~= so_far.sync.insert(
                    place,
                    failed_again(known[i as int], error@),
                ));
                assert(store.state().sync.dom() =~= before.sync.dom());
            }
        }
    }
    proof {
        let done = blamed(before, peer@, views, error@);
        assert forall|p: (Seq<char>, LogView)| #[trigger]
            before.sync.contains_key(p) implies store.state().sync[p] == done.sync[p] by {
            let j = choose|j: int|
                0 <= j < known.len() && crate::store::sync_place(#[trigger] known[j]) == p;
            assert(before.sync[p] == known[j]);
        }
        assert(store.state().sync =~= done.sync);
    }
    Ok(())
}

/// What comes of one answer to a fetch for the log `log`.
pub open spec fn answered<
    S: MsgbusStore,
    F: Fn(&Vec<u8>) -> Result<TombstoneRange, String>,
>(
    before: StoreView,
    after: StoreView,
    peer: Seq<char>,
    log: LogSyncView,
    next: LogSyncView,
    envelope: Option<MessageEnvelope>,
    decode: F,
    res: SyncAction,
) -> bool {
    match envelope {
        None => res is Continue && next == log && after == before,
        Some(envelope) => match crate::wire::message_of(envelope@) {
            Err(e) => {
                &&& res matches SyncAction::Fail(SyncError::Call(status))
                &&& status@ == e
                &&& next == log
                &&& after == before
            },
            Ok(m) => if m.topic != log.head.topic || m.origin != log.head.origin {
                &&& res matches SyncAction::Fail(SyncError::Peer(text))
                &&& text@ == mismatch_error(peer, log.head)
                &&& next == log
                &&& after == before
            } else {
                match res {
                    SyncAction::Publish(message) => {
                        &&& next == log.counted(m.head_id)
                        &&& message_outcome::<S, F>(before, after, decode, m, Ok(Some(message)))
                    },
                    SyncAction::Continue => {
                        &&& next == log.counted(m.head_id)
                        &&& message_outcome::<S, F>(before, after, decode, m, Ok(None))
                    },
                    SyncAction::Fail(e) => {
                        &&& next == log
                        &&& message_outcome::<S, F>(before, after, decode, m, Err(e))
                    },
                    _ => false,
                }
            },
        },
    }
}

/// Copying ends: after each batch either the peer has nothing more to give, or the log has grown.
pub proof fn law_batches_make_progress(before: LogSyncView, after: LogSyncView)
    requires
        after.head == before.head,
        after.batch_start == before.local_head,
        after.local_head >= before.local_head,
        after.batch_ended().behind(),
    ensures
        after.local_head > before.local_head,
        after.head.head_id - after.local_head < before.head.head_id - before.local_head,
{
}

/// Two messages are the same, but for the mark of deletion.
pub open spec fn same_message(a: MessageView, b: MessageView) -> bool {
    a.with_deleted(true) == b.with_deleted(true)
}

/// Two stores hold the same messages of a log up to a position.
pub open spec fn agree(a: StoreView, b: StoreView, log: LogView, upto: u64) -> bool {
    forall|h: u64|
        h <= upto ==> {
            &&& #[trigger] a.messages.contains_key((log, h)) == b.messages.contains_key((log, h))
            &&& a.messages.contains_key((log, h)) ==> same_message(
                a.messages[(log, h)],
                b.messages[(log, h)],
            )
        }
}

/// A store took a message of a peer: it copied the message, and marked a range as deleted where
/// the message told of one.
pub open spec fn took(before: StoreView, m: MessageView, after: StoreView) -> bool {
    ||| after == copied(before, m)
    ||| exists|log: LogView, record: crate::message::TombstoneView|
        after == #[trigger] copied(before, m).tombstoned(log, record)
}

/// A message that was received well was taken.
pub proof fn law_received_is_taken<
    S: MsgbusStore,
    F: Fn(&Vec<u8>) -> Result<TombstoneRange, String>,
>(
    before: StoreView,
    after: StoreView,
    decode: F,
    m: MessageView,
    inserted: Option<StoredMessage>,
)
    requires
        message_outcome::<S, F>(before, after, decode, m, Ok(inserted)),
    ensures
        took(before, m, after),
{
}

/// The position that a round counts for a log is the last position of the log in the store.
pub proof fn law_count_follows_the_store(
    before: StoreView,
    after: StoreView,
    v: LogSyncView,
    m: MessageView,
)
    requires
        before.wf(),
        took(before, m, after),
        v.head.topic == m.topic,
        v.head.origin == m.origin,
        v.local_head == before.head_of(crate::store::head_log(v.head)),
    ensures
        v.counted(m.head_id).local_head == after.head_of(crate::store::head_log(v.head)),
{
    let log = crate::store::message_log(m);
    assert(crate::store::head_log(v.head) == log);
    assert(copied(before, m).head_of(log) == v.counted(m.head_id).local_head) by {
        if before.messages.contains_key((log, m.head_id)) {
            assert(m.head_id <= before.heads[log]);
        }
    }
    if after != copied(before, m) {
        let (l, r) = choose|l: LogView, r: crate::message::TombstoneView|
            after == #[trigger] copied(before, m).tombstoned(l, r);
        assert(after.heads == copied(before, m).heads);
    }
}

/// `trace` is what a store holds before and after each message of a batch.
pub open spec fn is_batch(
    local: StoreView,
    page: Seq<MessageView>,
    trace: Seq<StoreView>,
) -> bool {
    &&& trace.len() == page.len() + 1
    &&& trace[0] == local
    &&& forall|i: int| 0 <= i < page.len() ==> took(trace[i], #[trigger] page[i], trace[i + 1])
}

/// Where the messages of a batch up to the `n`th lead.
pub open spec fn reached(start: u64, page: Seq<MessageView>, n: int) -> u64 {
    if n == 0 {
        start
    } else {
        page[n - 1].head_id
    }
}

/// A batch carries the agreement of two stores on: where the local store had the log of the peer
/// up to the local last position, it has it up to the last message of the batch afterwards. A
/// batch of a log that is behind brings something. No last position of another log changes.
pub proof fn law_batch_keeps_agreement(
    local: StoreView,
    remote: StoreView,
    log: LogView,
    limit: nat,
    page: Seq<MessageView>,
    trace: Seq<StoreView>,
)
    requires
        local.wf(),
        remote.wf(),
        local.head_of(log) < u64::MAX,
        agree(local, remote, log, local.head_of(log)),
        remote.is_page(log, (local.head_of(log) + 1) as u64, limit, page),
        is_batch(local, page, trace),
    ensures
        trace.last().wf(),
        trace.last().head_of(log) == reached(local.head_of(log), page, page.len() as int),
        agree(trace.last(), remote, log, trace.last().head_of(log)),
        limit > 0 && local.head_of(log) < remote.head_of(log) ==> page.len() > 0
            && local.head_of(log) < trace.last().head_of(log),
        forall|other: LogView|
            other != log ==> #[trigger] trace.last().head_of(other) == local.head_of(other),
{
    lemma_batch_prefix(local, remote, log, limit, page, trace, page.len() as int);
    assert(trace.last() == trace[page.len() as int]);
    let start = local.head_of(log);
    if limit > 0 && start < remote.head_of(log) {
        let head = remote.heads[log];
        assert(remote.messages.contains_key((log, head)));
        assert(page.len() > 0);
        assert(page[page.len() - 1].head_id >= start + 1);
    }
}

proof fn lemma_batch_prefix(
    local: StoreView,
    remote: StoreView,
    log: LogView,
    limit: nat,
    page: Seq<MessageView>,
    trace: Seq<StoreView>,
    n: int,
)
    requires
        local.wf(),
        remote.wf(),
        local.head_of(log) < u64::MAX,
        agree(local, remote, log, local.head_of(log)),
        remote.is_page(log, (local.head_of(log) + 1) as u64, limit, page),
        is_batch(local, page, trace),
        0 <= n <= page.len(),
    ensures
        trace[n].wf(),
        trace[n].head_of(log) == reached(local.head_of(log), page, n),
        agree(trace[n], remote, log, trace[n].head_of(log)),
        forall|other: LogView|
            other != log ==> #[trigger] trace[n].head_of(other) == local.head_of(other),
    decreases n,
{
    if n > 0 {
        lemma_batch_prefix(local, remote, log, limit, page, trace, n - 1);
        let start = local.head_of(log);
        let before = trace[n - 1];
        let m = page[n - 1];
        let mid = copied(before, m);
        let after = trace[n];
        assert(took(before, page[n - 1], trace[n - 1 + 1]));
        assert(remote.messages.contains_key((log, m.head_id)));
        assert(crate::store::message_log(m) == log);
        let was = reached(start, page, n - 1);
        assert(was < m.head_id) by {
            if n > 1 {
                assert(page[n - 2].head_id < page[n - 1].head_id);
            }
        }
        assert(!before.messages.contains_key((log, m.head_id)));
        crate::laws::law_replicate_keeps_wf(before, m);
        assert(mid.head_of(log) == m.head_id);
        assert(agree(mid, remote, log, m.head_id)) by {
            assert forall|h: u64| h <= m.head_id implies {
                &&& #[trigger] mid.messages.contains_key((log, h)) == remote.messages.contains_key(
                    (log, h),
                )
                &&& mid.messages.contains_key((log, h)) ==> same_message(
                    mid.messages[(log, h)],
                    remote.messages[(log, h)],
                )
            } by {
                if h <= was {
                    assert(before.messages.contains_key((log, h)) == remote.messages.contains_key(
                        (log, h),
                    ));
                } else if h < m.head_id {
                    assert(!before.messages.contains_key((log, h)));
                    if remote.messages.contains_key((log, h)) {
                        assert(start + 1 <= h) by {
                            if n > 1 {
                                assert(page[n - 2].head_id >= start + 1);
                            }
                        }
                        if exists|i: int| 0 <= i < page.len() && (#[trigger] page[i]).head_id
                            == h {
                            let i = choose|i: int|
                                0 <= i < page.len() && (#[trigger] page[i]).head_id == h;
                            if i < n - 2 {
                                assert(page[i].head_id < page[n - 2].head_id);
                            }
                            if i > n - 1 {
                                assert(page[n - 1].head_id < page[i].head_id);
                            }
                        } else {
                            let last = page.len() - 1;
                            assert(page.last() == page[last]);
                            if n - 1 < last {
                                assert(page[n - 1].head_id < page[last].head_id);
                            }
                        }
                    }
                }
            }
        }
        assert forall|other: LogView| other != log implies #[trigger] after.head_of(other)
            == local.head_of(other) by {
            assert(before.head_of(other) == local.head_of(other));
            assert(mid.head_of(other) == before.head_of(other));
        }
        if after != mid {
            let (l, r) = choose|l: LogView, r: crate::message::TombstoneView|
                after == #[trigger] mid.tombstoned(l, r);
            crate::laws::law_tombstone_keeps_wf(mid, l, r);
            assert(after.heads == mid.heads);
            assert(after.head_of(log) == m.head_id);
            assert(agree(after, remote, log, m.head_id)) by {
                assert forall|h: u64| h <= m.head_id implies {
                    &&& #[trigger] after.messages.contains_key((log, h))
                        == remote.messages.contains_key((log, h))
                    &&& after.messages.contains_key((log, h)) ==> same_message(
                        after.messages[(log, h)],
                        remote.messages[(log, h)],
                    )
                } by {
                    assert(mid.messages.contains_key((log, h)) == remote.messages.contains_key(
                        (log, h),
                    ));
                }
            }
        }
    }
}

/// Peers converge: where two stores agree on a log up to the last position of both, they hold the
/// same messages of it.
pub proof fn law_caught_up_logs_are_equal(
    local: StoreView,
    remote: StoreView,
    log: LogView,
    h: u64,
)
    requires
        local.wf(),
        remote.wf(),
        local.head_of(log) == remote.head_of(log),
        agree(local, remote, log, local.head_of(log)),
    ensures
        local.messages.contains_key((log, h)) == remote.messages.contains_key((log, h)),
        local.messages.contains_key((log, h)) ==> same_message(
            local.messages[(log, h)],
            remote.messages[(log, h)],
        ),
{
    if h > local.head_of(log) {
        assert(!local.messages.contains_key((log, h)));
        assert(!remote.messages.contains_key((log, h)));
    }
}

/// `stores` is what a store holds before and after each batch of a log that is fetched from a peer
/// with the store `remote`.
pub open spec fn are_batches(
    remote: StoreView,
    log: LogView,
    limit: nat,
    stores: Seq<StoreView>,
    pages: Seq<Seq<MessageView>>,
    traces: Seq<Seq<StoreView>>,
) -> bool {
    &&& stores.len() == pages.len() + 1
    &&& traces.len() == pages.len()
    &&& forall|i: int|
        0 <= i < pages.len() ==> {
            &&& remote.is_page(
                log,
                (stores[i].head_of(log) + 1) as u64,
                limit,
                #[trigger] pages[i],
            )
            &&& is_batch(stores[i], pages[i], traces[i])
            &&& stores[i + 1] == traces[i].last()
        }
}

/// Peers converge: a store that fetches batch after batch of a log has, after as many batches as
/// messages can have been missing, the last position of the peer, and the same messages of the log
/// as the peer.
pub proof fn law_fetching_converges(
    remote: StoreView,
    log: LogView,
    limit: nat,
    stores: Seq<StoreView>,
    pages: Seq<Seq<MessageView>>,
    traces: Seq<Seq<StoreView>>,
)
    requires
        are_batches(remote, log, limit, stores, pages, traces),
        remote.wf(),
        limit > 0,
        stores[0].wf(),
        stores[0].head_of(log) <= remote.head_of(log) < u64::MAX,
        agree(stores[0], remote, log, stores[0].head_of(log)),
        pages.len() >= remote.head_of(log) - stores[0].head_of(log),
    ensures
        stores.last().head_of(log) == remote.head_of(log),
        forall|h: u64|
            #![trigger stores.last().messages.contains_key((log, h))]
            stores.last().messages.contains_key((log, h)) == remote.messages.contains_key((log, h))
                && (remote.messages.contains_key((log, h)) ==> same_message(
                stores.last().messages[(log, h)],
                remote.messages[(log, h)],
            )),
{
    let n = pages.len() as int;
    lemma_batches_so_far(remote, log, limit, stores, pages, traces, n);
    assert(stores.last() == stores[n]);
    assert forall|h: u64|
        #![trigger stores.last().messages.contains_key((log, h))]
        stores.last().messages.contains_key((log, h)) == remote.messages.contains_key((log, h))
            && (remote.messages.contains_key((log, h)) ==> same_message(
            stores.last().messages[(log, h)],
            remote.messages[(log, h)],
        )) by {
        law_caught_up_logs_are_equal(stores[n], remote, log, h);
    }
}

proof fn lemma_batches_so_far(
    remote: StoreView,
    log: LogView,
    limit: nat,
    stores: Seq<StoreView>,
    pages: Seq<Seq<MessageView>>,
    traces: Seq<Seq<StoreView>>,
    n: int,
)
    requires
        are_batches(remote, log, limit, stores, pages, traces),
        remote.wf(),
        limit > 0,
        stores[0].wf(),
        stores[0].head_of(log) <= remote.head_of(log) < u64::MAX,
        agree(stores[0], remote, log, stores[0].head_of(log)),
        0 <= n <= pages.len(),
    ensures
        stores[n].wf(),
        agree(stores[n], remote, log, stores[n].head_of(log)),
        stores[n].head_of(log) <= remote.head_of(log),
        stores[n].head_of(log) == remote.head_of(log) || stores[n].head_of(log)
            >= stores[0].head_of(log) + n,
    decreases n,
{
    if n > 0 {
        let i = n - 1;
        lemma_batches_so_far(remote, log, limit, stores, pages, traces, i);
        let page = pages[i];
        assert(stores[i + 1] == traces[i].last());
        law_batch_keeps_agreement(stores[i], remote, log, limit, page, traces[i]);
        if page.len() > 0 {
            let last = page[page.len() - 1];
            assert(remote.messages.contains_key((log, last.head_id)));
        }
    }
}

/// Deletions reach the peers: a store that took the message telling of a range has every message
/// of the range that it holds marked as deleted.
pub proof fn law_deletion_reaches_the_peer(
    before: StoreView,
    after: StoreView,
    range: TombstoneRange,
    h: u64,
)
    requires
        was_marked(before, after, range),
        range.from_head_id.0 <= h <= range.to_head_id.0,
        before.messages.contains_key((crate::keys::log_of(range.topic@, range.origin@), h)),
    ensures
        after.messages.contains_key((crate::keys::log_of(range.topic@, range.origin@), h)),
        after.messages[(crate::keys::log_of(range.topic@, range.origin@), h)].deleted,
{
}

} // verus!

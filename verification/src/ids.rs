//! Names of nodes, topics, queues and messages, and positions in a log.

use vstd::prelude::*;
use vstd::string::*;

use crate::error::ErrorView;
use crate::error::MsgbusError;
use crate::text::blank;
use crate::text::chars_of;
use crate::text::has_char;

verus! {

/// What is wrong with `value` as the part called `name`, if anything: it is blank or it holds
/// a NUL character.
pub open spec fn part_error(name: Seq<char>, value: Seq<char>) -> Option<ErrorView> {
    if crate::text::is_blank(value) {
        Some(crate::error::invalid_argument(name + " is empty"@))
    } else if value.contains('\0') {
        Some(crate::error::invalid_argument(name + " contains NUL byte"@))
    } else {
        None
    }
}

/// A name that the bus accepts.
pub open spec fn valid_part(value: Seq<char>) -> bool {
    !crate::text::is_blank(value) && !value.contains('\0')
}

/// Accepts `value` as the part called `name`, or says what is wrong with it.
pub fn validate_part(name: &str, value: &str) -> (res: Result<(), MsgbusError>)
    ensures
        match res {
            Ok(_) => part_error(name@, value@) is None,
            Err(e) => part_error(name@, value@) == Some(e@),
        },
        res is Ok == valid_part(value@),
{
    if blank(value) {
        let mut text = name.to_owned();
        text.append(" is empty");
        return Err(MsgbusError::InvalidArgument(text));
    }
    if has_char(value, '\0') {
        let mut text = name.to_owned();
        text.append(" contains NUL byte");
        return Err(MsgbusError::InvalidArgument(text));
    }
    Ok(())
}

/// A node of the bus: a device in a business line of a tenant.
#[derive(Debug, Eq, PartialOrd, Ord, Hash)]
pub struct NodeId {
    pub tenant_id: String,
    pub bl_name: String,
    pub device_id: String,
}

/// How a character of a part is written where the parts of a node are joined by slashes: a tilde as
/// `~0`, a slash as `~1`, and any other character as it is.
pub open spec fn escaped_char(c: char) -> Seq<char> {
    if c == '~' {
        seq!['~', '0']
    } else if c == '/' {
        seq!['~', '1']
    } else {
        seq![c]
    }
}

/// How a part is written where the parts of a node are joined by slashes.
pub open spec fn escaped(part: Seq<char>) -> Seq<char>
    decreases part.len(),
{
    if part.len() == 0 {
        Seq::empty()
    } else {
        escaped(part.drop_last()) + escaped_char(part.last())
    }
}

/// An escaped part holds no slash, and no tilde at its end.
proof fn lemma_escaped(part: Seq<char>)
    ensures
        !escaped(part).contains('/'),
        escaped(part).len() > 0 ==> escaped(part).last() != '~',
        escaped(part).len() == 0 <==> part.len() == 0,
    decreases part.len(),
{
    if part.len() > 0 {
        let before = escaped(part.drop_last());
        let text = escaped(part);
        lemma_escaped(part.drop_last());
        assert(text.last() == escaped_char(part.last()).last());
        assert forall|i: int| 0 <= i < text.len() implies text[i] != '/' by {
            if i < before.len() {
                assert(text[i] == before[i]);
            } else {
                assert(text[i] == escaped_char(part.last())[i - before.len()]);
            }
        }
    }
}

/// Different parts are written differently.
pub proof fn lemma_escaped_injective(a: Seq<char>, b: Seq<char>)
    requires
        escaped(a) == escaped(b),
    ensures
        a == b,
    decreases a.len(),
{
    lemma_escaped(a);
    lemma_escaped(b);
    if a.len() > 0 {
        let x = escaped(a.drop_last());
        let y = escaped(b.drop_last());
        let s = escaped(a);
        let t = escaped(b);
        let ca = escaped_char(a.last());
        let cb = escaped_char(b.last());
        lemma_escaped(a.drop_last());
        lemma_escaped(b.drop_last());
        assert(s.last() == ca.last() && t.last() == cb.last());
        if ca.len() < cb.len() {
            // The shorter text before would have to end with the tilde of an escape.
            assert(x.len() == y.len() + 1);
            assert(s[y.len() as int] == '~') by {
                assert(t[y.len() as int] == cb[0]);
            }
            assert(x.last() == s[y.len() as int]);
        } else if cb.len() < ca.len() {
            assert(y.len() == x.len() + 1);
            assert(t[x.len() as int] == '~') by {
                assert(s[x.len() as int] == ca[0]);
            }
            assert(y.last() == t[x.len() as int]);
        }
        assert(x.len() == y.len());
        assert(x =~= s.take(x.len() as int));
        assert(y =~= t.take(x.len() as int));
        assert(ca =~= s.skip(x.len() as int));
        assert(cb =~= t.skip(x.len() as int));
        assert(a.last() == b.last()) by {
            assert(ca[0] == cb[0]);
            assert(ca.last() == cb.last());
        }
        lemma_escaped_injective(a.drop_last(), b.drop_last());
        assert(a =~= a.drop_last().push(a.last()));
        assert(b =~= b.drop_last().push(b.last()));
    } else {
        assert(a =~= b);
    }
}

/// What stands before the first slash, and what stands behind it, is determined.
pub proof fn lemma_split_at_slash(a: Seq<char>, x: Seq<char>, b: Seq<char>, y: Seq<char>)
    requires
        !a.contains('/'),
        !b.contains('/'),
        a + seq!['/'] + x == b + seq!['/'] + y,
    ensures
        a == b,
        x == y,
{
    let s = a + seq!['/'] + x;
    let t = b + seq!['/'] + y;
    assert(s[a.len() as int] == '/');
    assert(t[b.len() as int] == '/');
    if a.len() < b.len() {
        assert(t[a.len() as int] == b[a.len() as int]);
        assert(b.contains('/'));
    } else if b.len() < a.len() {
        assert(s[b.len() as int] == a[b.len() as int]);
        assert(a.contains('/'));
    }
    assert(a =~= s.take(a.len() as int));
    assert(b =~= t.take(a.len() as int));
    assert(x =~= s.skip(a.len() as int + 1));
    assert(y =~= t.skip(a.len() as int + 1));
}

/// Different nodes have different texts for their logs; that of a node without slashes in its parts
/// is the parts joined by slashes.
pub proof fn law_nodes_have_their_own_log_keys(a: NodeView, b: NodeView)
    ensures
        a.log_key() == b.log_key() ==> a == b,
        !a.has_slash() ==> a.log_key() == a.key(),
{
    if a.log_key() == b.log_key() {
        if a.has_slash() && b.has_slash() {
            lemma_escaped_keys(a, b);
        } else if a.has_slash() {
            lemma_kinds_of_keys(a, b);
        } else if b.has_slash() {
            lemma_kinds_of_keys(b, a);
        } else {
            let x = a.bl_name + seq!['/'] + a.device_id;
            let y = b.bl_name + seq!['/'] + b.device_id;
            assert(a.key() =~= a.tenant_id + seq!['/'] + x);
            assert(b.key() =~= b.tenant_id + seq!['/'] + y);
            lemma_split_at_slash(a.tenant_id, x, b.tenant_id, y);
            lemma_split_at_slash(a.bl_name, a.device_id, b.bl_name, b.device_id);
        }
    }
}

/// Different nodes with slashes in their parts have different texts.
proof fn lemma_escaped_keys(a: NodeView, b: NodeView)
    requires
        a.has_slash(),
        b.has_slash(),
        a.log_key() == b.log_key(),
    ensures
        a == b,
{
    let none = Seq::<char>::empty();
    let x = escaped(a.bl_name) + seq!['/'] + escaped(a.device_id);
    let y = escaped(b.bl_name) + seq!['/'] + escaped(b.device_id);
    let s = escaped(a.tenant_id) + seq!['/'] + x;
    let t = escaped(b.tenant_id) + seq!['/'] + y;
    lemma_escaped(a.tenant_id);
    lemma_escaped(b.tenant_id);
    lemma_escaped(a.bl_name);
    lemma_escaped(b.bl_name);
    assert(a.log_key() =~= none + seq!['/'] + s);
    assert(b.log_key() =~= none + seq!['/'] + t);
    lemma_split_at_slash(none, s, none, t);
    lemma_split_at_slash(escaped(a.tenant_id), x, escaped(b.tenant_id), y);
    lemma_split_at_slash(
        escaped(a.bl_name),
        escaped(a.device_id),
        escaped(b.bl_name),
        escaped(b.device_id),
    );
    lemma_escaped_injective(a.tenant_id, b.tenant_id);
    lemma_escaped_injective(a.bl_name, b.bl_name);
    lemma_escaped_injective(a.device_id, b.device_id);
}

/// The text of a node with slashes in its parts has one slash more than that of any node without.
proof fn lemma_kinds_of_keys(a: NodeView, b: NodeView)
    requires
        a.has_slash(),
        !b.has_slash(),
    ensures
        a.log_key() != b.log_key(),
{
    if a.log_key() == b.log_key() {
        let none = Seq::<char>::empty();
        let z = escaped(a.bl_name) + seq!['/'] + escaped(a.device_id);
        let s = escaped(a.tenant_id) + seq!['/'] + z;
        let t = b.bl_name + seq!['/'] + b.device_id;
        lemma_escaped(a.tenant_id);
        assert(a.log_key() =~= none + seq!['/'] + s);
        assert(b.key() =~= b.tenant_id + seq!['/'] + t);
        lemma_split_at_slash(none, s, b.tenant_id, t);
        lemma_split_at_slash(escaped(a.tenant_id), z, b.bl_name, b.device_id);
        assert(z[escaped(a.bl_name).len() as int] == '/');
        assert(b.device_id.contains('/'));
    }
}

/// Writes a part behind `out`, escaped.
fn push_escaped(out: &mut String, part: &str)
    ensures
        final(out)@ == old(out)@ + escaped(part@),
{
    let chars = chars_of(part);
    let ghost before = out@;
    proof {
        reveal_strlit("~0");
        reveal_strlit("~1");
        assert("~0"@ =~= seq!['~', '0']);
        assert("~1"@ =~= seq!['~', '1']);
        assert(part@.take(0) =~= Seq::<char>::empty());
        assert(before + escaped(part@.take(0)) =~= before);
    }
    for i in 0..chars.len()
        invariant
            chars@ == part@,
            "~0"@ == seq!['~', '0'],
            "~1"@ == seq!['~', '1'],
            out@ == before + escaped(part@.take(i as int)),
    {
        let c = chars[i];
        let ghost so_far = out@;
        if c == '~' {
            out.append("~0");
        } else if c == '/' {
            out.append("~1");
        } else {
            out.append(part.substring_char(i, i + 1));
        }
        proof {
            let next = part@.take(i + 1);
            assert(next.drop_last() =~= part@.take(i as int));
            assert(next.last() == c);
            assert(out@ =~= so_far + escaped_char(c));
            assert(out@ =~= before + escaped(next));
        }
    }
    assert(part@.take(part@.len() as int) =~= part@);
}

/// A node as three texts.
pub struct NodeView {
    pub tenant_id: Seq<char>,
    pub bl_name: Seq<char>,
    pub device_id: Seq<char>,
}

impl NodeView {
    /// The parts, joined by slashes, as they are shown to people.
    pub open spec fn key(self) -> Seq<char> {
        self.tenant_id + seq!['/'] + self.bl_name + seq!['/'] + self.device_id
    }

    /// A slash stands in one of the parts, so that the joined parts do not show where each ends.
    pub open spec fn has_slash(self) -> bool {
        self.tenant_id.contains('/') || self.bl_name.contains('/') || self.device_id.contains('/')
    }

    /// A text that no other node has: the parts, joined by slashes, where no slash stands in them;
    /// otherwise a slash, and the parts escaped and joined by slashes.
    pub open spec fn log_key(self) -> Seq<char> {
        if self.has_slash() {
            seq!['/'] + escaped(self.tenant_id) + seq!['/'] + escaped(self.bl_name) + seq!['/']
                + escaped(self.device_id)
        } else {
            self.key()
        }
    }

    /// All three parts are empty.
    pub open spec fn is_empty(self) -> bool {
        self.tenant_id.len() == 0 && self.bl_name.len() == 0 && self.device_id.len() == 0
    }

    /// What is wrong with the first bad part, if one is bad.
    pub open spec fn error(self) -> Option<ErrorView> {
        match part_error("tenant_id"@, self.tenant_id) {
            Some(e) => Some(e),
            None => match part_error("bl_name"@, self.bl_name) {
                Some(e) => Some(e),
                None => part_error("device_id"@, self.device_id),
            },
        }
    }
}

impl View for NodeId {
    type V = NodeView;

    open spec fn view(&self) -> NodeView {
        NodeView {
            tenant_id: self.tenant_id@,
            bl_name: self.bl_name@,
            device_id: self.device_id@,
        }
    }
}

impl Clone for NodeId {
    fn clone(&self) -> (res: NodeId)
        ensures
            res == *self,
    {
        NodeId {
            tenant_id: self.tenant_id.clone(),
            bl_name: self.bl_name.clone(),
            device_id: self.device_id.clone(),
        }
    }
}

impl PartialEq for NodeId {
    fn eq(&self, other: &NodeId) -> (res: bool) {
        self.tenant_id == other.tenant_id && self.bl_name == other.bl_name && self.device_id
            == other.device_id
    }
}

impl vstd::std_specs::cmp::PartialEqSpecImpl for NodeId {
    open spec fn obeys_eq_spec() -> bool {
        true
    }

    open spec fn eq_spec(&self, other: &NodeId) -> bool {
        self@ == other@
    }
}

impl NodeId {
    /// The node with these three parts, each of which must be an acceptable name.
    pub fn new(tenant_id: &str, bl_name: &str, device_id: &str) -> (res: Result<
        NodeId,
        MsgbusError,
    >)
        ensures
            ({
                let node = NodeView {
                    tenant_id: tenant_id@,
                    bl_name: bl_name@,
                    device_id: device_id@,
                };
                match res {
                    Ok(n) => node.error() is None && n@ == node,
                    Err(e) => node.error() == Some(e@),
                }
            }),
    {
        let node = NodeId {
            tenant_id: tenant_id.to_owned(),
            bl_name: bl_name.to_owned(),
            device_id: device_id.to_owned(),
        };
        match node.validate() {
            Ok(_) => Ok(node),
            Err(e) => Err(e),
        }
    }

    /// Whether all three parts are empty.
    pub fn is_empty(&self) -> (res: bool)
        ensures
            res == self@.is_empty(),
    {
        self.tenant_id.as_str().is_empty() && self.bl_name.as_str().is_empty()
            && self.device_id.as_str().is_empty()
    }

    /// The parts, joined by slashes, as they are shown to people.
    pub fn key(&self) -> (res: String)
        ensures
            res@ == self@.key(),
    {
        proof {
            reveal_strlit("/");
            assert("/"@ =~= seq!['/']);
        }
        let mut key = self.tenant_id.clone();
        key.append("/");
        key.append(self.bl_name.as_str());
        key.append("/");
        key.append(self.device_id.as_str());
        key
    }

    /// A text that no other node has: the parts, joined by slashes, where no slash stands in them;
    /// otherwise a slash, and the parts escaped and joined by slashes.
    pub fn log_key(&self) -> (res: String)
        ensures
            res@ == self@.log_key(),
    {
        if !has_char(self.tenant_id.as_str(), '/') && !has_char(self.bl_name.as_str(), '/')
            && !has_char(self.device_id.as_str(), '/') {
            return self.key();
        }
        proof {
            reveal_strlit("/");
            assert("/"@ =~= seq!['/']);
        }
        let mut key = "/".to_owned();
        push_escaped(&mut key, self.tenant_id.as_str());
        key.append("/");
        push_escaped(&mut key, self.bl_name.as_str());
        key.append("/");
        push_escaped(&mut key, self.device_id.as_str());
        assert(key@ =~= self@.log_key());
        key
    }

    /// Accepts the node if each part is an acceptable name.
    pub fn validate(&self) -> (res: Result<(), MsgbusError>)
        ensures
            match res {
                Ok(_) => self@.error() is None,
                Err(e) => self@.error() == Some(e@),
            },
    {
        match validate_part("tenant_id", self.tenant_id.as_str()) {
            Ok(_) => {},
            Err(e) => return Err(e),
        }
        match validate_part("bl_name", self.bl_name.as_str()) {
            Ok(_) => {},
            Err(e) => return Err(e),
        }
        validate_part("device_id", self.device_id.as_str())
    }
}

/// The texts that a random identifier can have: groups of lower-case hexadecimal digits,
/// joined by hyphens, with the version digit four and the variant digit eight to eleven.
pub open spec fn is_random_id(s: Seq<char>) -> bool {
    &&& s.len() == 36
    &&& forall|i: int|
        0 <= i < 36 ==> if i == 8 || i == 13 || i == 18 || i == 23 {
            #[trigger] s[i] == '-'
        } else {
            is_hex_digit(s[i])
        }
    &&& s[14] == '4'
    &&& s[19] == '8' || s[19] == '9' || s[19] == 'a' || s[19] == 'b'
}

/// A lower-case hexadecimal digit.
pub open spec fn is_hex_digit(c: char) -> bool {
    '0' <= c <= '9' || 'a' <= c <= 'f'
}

/// Calls `uuid::Uuid::new_v4` and writes the identifier out with its `Display`, which gives the
/// hyphenated lower-case form. The identifier is random: the contract says only which texts it
/// can be.
#[verifier::external_body]
fn random_id() -> (res: String)
    ensures
        is_random_id(res@),
{
    uuid::Uuid::new_v4().to_string()
}

/// The identifier was drawn at random.
pub closed spec fn was_drawn(id: Seq<char>) -> bool {
    exists|s: String| #[trigger] call_ensures(random_id, (), s) && s@ == id
}

/// An identifier that was drawn comes from a call that drew one.
proof fn law_identifiers_are_drawn(id: Seq<char>)
    requires
        was_drawn(id),
    ensures
        exists|s: String| #[trigger] call_ensures(random_id, (), s) && s@ == id,
        is_random_id(id),
{
}

/// A random identifier is an acceptable name.
pub proof fn lemma_random_id_is_valid(s: Seq<char>)
    requires
        is_random_id(s),
    ensures
        valid_part(s),
{
    assert(!crate::text::is_white(s[14]));
    assert forall|i: int| 0 <= i < s.len() implies s[i] != '\0' by {
        assert(s[i] == '-' || is_hex_digit(s[i]));
    }
}

/// The name of a topic.
#[derive(Debug, Eq, PartialOrd, Ord, Hash)]
pub struct Topic(String);

impl View for Topic {
    type V = Seq<char>;

    closed spec fn view(&self) -> Seq<char> {
        self.0@
    }
}

impl Clone for Topic {
    fn clone(&self) -> (res: Topic)
        ensures
            res == *self,
    {
        Topic(self.0.clone())
    }
}

impl PartialEq for Topic {
    fn eq(&self, other: &Topic) -> (res: bool) {
        self.0 == other.0
    }
}

impl vstd::std_specs::cmp::PartialEqSpecImpl for Topic {
    open spec fn obeys_eq_spec() -> bool {
        true
    }

    open spec fn eq_spec(&self, other: &Topic) -> bool {
        self@ == other@
    }
}

impl Topic {
    /// The topic called `value`, which must be an acceptable name.
    pub fn new(value: &str) -> (res: Result<Topic, MsgbusError>)
        ensures
            match res {
                Ok(topic) => valid_part(value@) && topic@ == value@,
                Err(e) => part_error("topic"@, value@) == Some(e@),
            },
    {
        match validate_part("topic", value) {
            Ok(_) => Ok(Topic(value.to_owned())),
            Err(e) => Err(e),
        }
    }

    /// The topic called `value`, as it was read back from storage: taken as it is.
    pub fn restored(value: String) -> (res: Topic)
        ensures
            res@ == value@,
    {
        Topic(value)
    }

    /// The name of the topic.
    pub fn as_str(&self) -> (res: &str)
        ensures
            res@ == self@,
    {
        self.0.as_str()
    }

    /// The name of the topic, taken out of it.
    pub fn into_string(self) -> (res: String)
        ensures
            res@ == self@,
    {
        self.0
    }
}

/// A position in a log. The first message of a log stands at one.
#[derive(Copy, Clone, Debug, PartialEq, Eq, PartialOrd, Ord, Hash, Structural)]
pub struct HeadId(pub u64);

/// The number behind `v`; the greatest number is its own successor.
pub open spec fn after(v: u64) -> u64 {
    if v == u64::MAX {
        v
    } else {
        (v + 1) as u64
    }
}

impl Default for HeadId {
    fn default() -> (res: HeadId)
        ensures
            res == HeadId(0),
    {
        HeadId(0)
    }
}

impl HeadId {
    /// The next position. The greatest one is its own successor.
    pub fn next(self) -> (res: HeadId)
        ensures
            res.0 == after(self.0),
    {
        HeadId(self.0.saturating_add(1))
    }
}

/// The identifier of a message.
#[derive(Debug, Eq, PartialOrd, Ord, Hash)]
pub struct MessageId(String);

impl View for MessageId {
    type V = Seq<char>;

    closed spec fn view(&self) -> Seq<char> {
        self.0@
    }
}

impl Clone for MessageId {
    fn clone(&self) -> (res: MessageId)
        ensures
            res == *self,
    {
        MessageId(self.0.clone())
    }
}

impl PartialEq for MessageId {
    fn eq(&self, other: &MessageId) -> (res: bool) {
        self.0 == other.0
    }
}

impl vstd::std_specs::cmp::PartialEqSpecImpl for MessageId {
    open spec fn obeys_eq_spec() -> bool {
        true
    }

    open spec fn eq_spec(&self, other: &MessageId) -> bool {
        self@ == other@
    }
}

impl Default for MessageId {
    fn default() -> (res: MessageId)
        ensures
            is_random_id(res@),
            was_drawn(res@),
            valid_part(res@),
    {
        MessageId::new()
    }
}

impl MessageId {
    /// A random identifier.
    pub fn new() -> (res: MessageId)
        ensures
            is_random_id(res@),
            was_drawn(res@),
            valid_part(res@),
    {
        let id = random_id();
        proof {
            lemma_random_id_is_valid(id@);
        }
        MessageId(id)
    }

    /// The identifier that reads `value`, which must be an acceptable name.
    pub fn from_string(value: &str) -> (res: Result<MessageId, MsgbusError>)
        ensures
            match res {
                Ok(id) => valid_part(value@) && id@ == value@,
                Err(e) => part_error("message_id"@, value@) == Some(e@),
            },
    {
        match validate_part("message_id", value) {
            Ok(_) => Ok(MessageId(value.to_owned())),
            Err(e) => Err(e),
        }
    }

    /// The identifier that reads `value`, as it was read back from storage: taken as it is.
    pub fn restored(value: String) -> (res: MessageId)
        ensures
            res@ == value@,
    {
        MessageId(value)
    }

    /// The identifier as text.
    pub fn as_str(&self) -> (res: &str)
        ensures
            res@ == self@,
    {
        self.0.as_str()
    }
}

/// The name of a queue.
#[derive(Debug, Eq, PartialOrd, Ord, Hash)]
pub struct QueueName(String);

impl View for QueueName {
    type V = Seq<char>;

    closed spec fn view(&self) -> Seq<char> {
        self.0@
    }
}

impl Clone for QueueName {
    fn clone(&self) -> (res: QueueName)
        ensures
            res == *self,
    {
        QueueName(self.0.clone())
    }
}

impl PartialEq for QueueName {
    fn eq(&self, other: &QueueName) -> (res: bool) {
        self.0 == other.0
    }
}

impl vstd::std_specs::cmp::PartialEqSpecImpl for QueueName {
    open spec fn obeys_eq_spec() -> bool {
        true
    }

    open spec fn eq_spec(&self, other: &QueueName) -> bool {
        self@ == other@
    }
}

impl QueueName {
    /// The queue called `value`, which must be an acceptable name.
    pub fn new(value: &str) -> (res: Result<QueueName, MsgbusError>)
        ensures
            match res {
                Ok(queue) => valid_part(value@) && queue@ == value@,
                Err(e) => part_error("queue"@, value@) == Some(e@),
            },
    {
        match validate_part("queue", value) {
            Ok(_) => Ok(QueueName(value.to_owned())),
            Err(e) => Err(e),
        }
    }

    /// The queue called `value`, as it was read back from storage: taken as it is.
    pub fn restored(value: String) -> (res: QueueName)
        ensures
            res@ == value@,
    {
        QueueName(value)
    }

    /// The name of the queue.
    pub fn as_str(&self) -> (res: &str)
        ensures
            res@ == self@,
    {
        self.0.as_str()
    }
}

} // verus!

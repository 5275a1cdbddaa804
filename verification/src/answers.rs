//! What the daemon answers, said of the requests, of what the store holds, and of the answers.

use vstd::prelude::*;

use crate::error::MsgbusError;
use crate::ids::HeadId;
use crate::ids::NodeId;
use crate::ids::NodeView;
use crate::keys::LogView;
use crate::message::FetchQuery;
use crate::message::MessageView;
use crate::message::StoredMessage;
use crate::message::TombstoneRange;
use crate::service::MsgbusGrpcService;
use crate::status::Code;
use crate::status::Status;
use crate::status::StatusView;
use crate::store::MsgbusStore;
use crate::store::StoreView;
use crate::subscribe::Subscription;
use crate::subscribe::SubscriptionView;
use crate::wire::FetchRequest;
use crate::wire::FifoResponse;
use crate::wire::GetHeadRequest;
use crate::wire::GetHeadResponse;
use crate::wire::MessageEnvelope;
use crate::wire::PeekFifoRequest;
use crate::wire::SubscribeRequest;
use crate::wire::WireNode;
use crate::wire::WireSyncState;
use crate::wire::WireTopicHead;

verus! {

/// `origin` is the node that a call speaks of: the one that it names, or else the daemon's own.
pub open spec fn speaks_of(local: NodeView, named: Option<WireNode>, origin: NodeView) -> bool {
    match named {
        Some(node) => if node.tenant_id@.len() == 0 && node.bl_name@.len() == 0
            && node.device_id@.len() == 0 {
            origin == local
        } else {
            origin == (NodeView {
                tenant_id: node.tenant_id@,
                bl_name: node.bl_name@,
                device_id: node.device_id@,
            })
        },
        None => origin == local,
    }
}

/// The node that a call names is accepted: none, the empty one, or one whose parts are accepted.
pub open spec fn names_well(named: Option<WireNode>) -> bool {
    match named {
        Some(node) => node.tenant_id@.len() == 0 && node.bl_name@.len() == 0
            && node.device_id@.len() == 0 || crate::ids::valid_part(node.tenant_id@)
            && crate::ids::valid_part(node.bl_name@) && crate::ids::valid_part(node.device_id@),
        None => true,
    }
}

proof fn lemma_views(named: Option<WireNode>)
    ensures
        named is Some ==> (named->0)@.tenant_id == (named->0).tenant_id@ && (named->0)@.bl_name
            == (named->0).bl_name@ && (named->0)@.device_id == (named->0).device_id@,
{
}

/// A call that names no node, or the empty one, speaks of the daemon's own node; a call that names
/// a node speaks of that node; and only the daemon's own node is written for.
pub proof fn law_calls_speak_of_the_named_node<S: MsgbusStore>(
    service: &MsgbusGrpcService<S>,
    named: Option<WireNode>,
    res: Result<NodeId, Status>,
)
    ensures
        call_ensures(MsgbusGrpcService::<S>::request_origin, (service, named), res) ==> {
            &&& res is Ok <==> names_well(named)
            &&& res matches Ok(node) ==> speaks_of(service.node@, named, node@)
            &&& res matches Err(status) ==> status.code == Code::InvalidArgument
            &&& named is None ==> (res matches Ok(node) && node@ == service.node@)
            &&& named matches Some(n) ==> {
                &&& n.tenant_id@.len() + n.bl_name@.len() + n.device_id@.len() == 0 ==> (
                res matches Ok(node) && node@ == service.node@)
                &&& crate::ids::valid_part(n.tenant_id@) && crate::ids::valid_part(n.bl_name@)
                    && crate::ids::valid_part(n.device_id@) ==> (res matches Ok(node)
                    && node.tenant_id@ == n.tenant_id@ && node.bl_name@ == n.bl_name@
                    && node.device_id@ == n.device_id@)
                &&& n.tenant_id@.len() + n.bl_name@.len() + n.device_id@.len() > 0 && !(
                crate::ids::valid_part(n.tenant_id@) && crate::ids::valid_part(n.bl_name@)
                    && crate::ids::valid_part(n.device_id@)) ==> res is Err
            }
        },
        call_ensures(MsgbusGrpcService::<S>::write_origin, (service, named), res) ==> {
            &&& res is Ok <==> names_well(named) && speaks_of(service.node@, named, service.node@)
            &&& res matches Ok(node) ==> node@ == service.node@
            &&& res matches Err(status) ==> status.code == Code::InvalidArgument
            &&& names_well(named) && !speaks_of(service.node@, named, service.node@) ==> (
            res matches Err(status) && status.message@
                == "writes are accepted for the local node only"@)
        },
{
    lemma_views(named);
    if named is Some {
        crate::terms::law_names_off_the_wire(
            (named->0)@,
            named->0,
            res,
            Seq::empty(),
            Seq::empty(),
        );
    }
    if res is Err {
        assert((res->Err_0)@.code == (res->Err_0).code);
        assert((res->Err_0)@.message == (res->Err_0).message@);
    }
}

/// What [`crate::service::log_for`], [`crate::service::writer_for`] and
/// [`crate::service::enqueue_parts`] stand for.
pub proof fn law_what_calls_name(
    local: NodeView,
    queue: Seq<char>,
    topic: Seq<char>,
    named: Option<WireNode>,
    target: Option<WireNode>,
    origin: NodeView,
)
    ensures
        ({
            let log = crate::service::log_for(local, topic, crate::wire::optional_node(named));
            &&& log is Ok <==> crate::ids::valid_part(topic) && names_well(named)
            &&& log is Ok && speaks_of(local, named, origin) ==> log->Ok_0 == (LogView {
                topic,
                origin,
            })
            &&& log matches Err(e) ==> e.code == Code::InvalidArgument
            &&& !crate::ids::valid_part(topic) ==> log is Err && Some(log->Err_0)
                == crate::wire::name_error("topic"@, topic)
            &&& crate::ids::valid_part(topic) && !names_well(named) ==> log is Err && Some(
                log->Err_0,
            ) == crate::wire::node_error((named->0)@)
        }),
        ({
            let writer = crate::service::writer_for(
                local,
                topic,
                crate::wire::optional_node(named),
            );
            &&& writer is Ok <==> crate::ids::valid_part(topic) && names_well(named) && speaks_of(
                local,
                named,
                local,
            )
            &&& writer matches Ok(node) ==> node == local
            &&& writer matches Err(e) ==> e.code == Code::InvalidArgument
            &&& !crate::ids::valid_part(topic) ==> writer is Err && Some(writer->Err_0)
                == crate::wire::name_error("topic"@, topic)
            &&& crate::ids::valid_part(topic) && !names_well(named) ==> writer is Err && Some(
                writer->Err_0,
            ) == crate::wire::node_error((named->0)@)
            &&& crate::ids::valid_part(topic) && names_well(named) && !speaks_of(
                local,
                named,
                local,
            ) ==> writer is Err && (writer->Err_0).message
                == "writes are accepted for the local node only"@
        }),
        ({
            let parts = crate::service::enqueue_parts(
                local,
                queue,
                topic,
                crate::wire::optional_node(named),
                crate::wire::optional_node(target),
            );
            &&& parts is Ok <==> crate::ids::valid_part(queue) && crate::ids::valid_part(topic)
                && names_well(named) && speaks_of(local, named, local) && target is Some
                && names_well(target)
            &&& parts matches Ok((source, to)) ==> source == local && to == (target->0)@
            &&& parts matches Err(e) ==> e.code == Code::InvalidArgument
            &&& !crate::ids::valid_part(queue) ==> parts is Err && Some(parts->Err_0)
                == crate::wire::name_error("queue"@, queue)
            &&& crate::ids::valid_part(queue) && crate::ids::valid_part(topic) && names_well(named)
                && speaks_of(local, named, local) && target is None ==> parts is Err && (
            parts->Err_0).message == "target is required"@
            &&& crate::ids::valid_part(queue) && crate::ids::valid_part(topic) && names_well(named)
                && speaks_of(local, named, local) && target is Some && !names_well(target)
                ==> parts is Err && Some(parts->Err_0) == crate::wire::node_error((target->0)@)
        }),
{
    lemma_views(named);
    lemma_views(target);
    if named is Some {
        let n = (named->0)@;
        assert(n == (NodeView {
            tenant_id: n.tenant_id,
            bl_name: n.bl_name,
            device_id: n.device_id,
        }));
    }
}

/// A page of a log on the wire shows the messages of the log as they are stored.
pub proof fn law_wire_pages(
    state: StoreView,
    log: LogView,
    from: u64,
    limit: nat,
    out: Seq<MessageEnvelope>,
    h: u64,
)
    requires
        crate::service::is_wire_page(state, log, from, limit, crate::engine::values_of(out)),
    ensures
        out.len() <= limit,
        forall|i: int|
            0 <= i < out.len() ==> {
                let e = #[trigger] out[i];
                let m = state.messages[(log, e.head_id)];
                &&& from <= e.head_id
                &&& state.messages.contains_key((log, e.head_id))
                &&& e.id@ == m.id
                &&& e.topic@ == m.topic
                &&& e.origin matches Some(node) && node@ == m.origin
                &&& e.payload@ == m.payload
                &&& e.headers@ == m.headers
                &&& e.created_at_ms == m.created_at_ms
                &&& e.deleted == m.deleted
            },
        forall|i: int, j: int|
            0 <= i < j < out.len() ==> (#[trigger] out[i]).head_id < (#[trigger] out[j]).head_id,
        state.messages.contains_key((log, h)) && state.messages[(log, h)].head_id == h && from <= h
            && (out.len() < limit || out.len() > 0 && h <= out[out.len() - 1].head_id)
            ==> exists|i: int| 0 <= i < out.len() && (#[trigger] out[i]).head_id == h,
{
    let values = crate::engine::values_of(out);
    let page = choose|page: Seq<MessageView>| #[trigger]
        state.is_page(log, from, limit, page) && values == crate::service::envelopes_of(page);
    assert(values.len() == out.len());
    assert(page.len() == out.len());
    assert forall|i: int| 0 <= i < out.len() implies (#[trigger] out[i])@
        == crate::wire::envelope_of(page[i]) by {
        assert(values[i] == out[i]@);
        assert(crate::service::envelopes_of(page)[i] == crate::wire::envelope_of(page[i]));
    }
    crate::effects::law_pages(state, log, from, limit, page, h);
    assert forall|i: int| 0 <= i < out.len() implies {
        let e = #[trigger] out[i];
        let m = state.messages[(log, e.head_id)];
        &&& from <= e.head_id
        &&& state.messages.contains_key((log, e.head_id))
        &&& e.id@ == m.id
        &&& e.topic@ == m.topic
        &&& e.origin matches Some(node) && node@ == m.origin
        &&& e.payload@ == m.payload
        &&& e.headers@ == m.headers
        &&& e.created_at_ms == m.created_at_ms
        &&& e.deleted == m.deleted
    } by {
        let e = out[i];
        assert(e@ == crate::wire::envelope_of(page[i]));
        assert(e@.head_id == e.head_id);
        assert(e@.payload == e.payload@);
        assert(e@.headers == e.headers@);
        assert(e@.origin == crate::wire::optional_node(e.origin));
        assert(page[i].head_id == e.head_id);
    }
    assert forall|i: int, j: int| 0 <= i < j < out.len() implies (#[trigger] out[i]).head_id < (
    #[trigger] out[j]).head_id by {
        assert(out[i]@.head_id == page[i].head_id);
        assert(out[j]@.head_id == page[j].head_id);
        assert(page[i].head_id < page[j].head_id);
    }
    if state.messages.contains_key((log, h)) && state.messages[(log, h)].head_id == h && from <= h
        && (out.len() < limit || out.len() > 0 && h <= out[out.len() - 1].head_id) {
        if out.len() > 0 {
            assert(out[out.len() - 1]@.head_id == page[page.len() - 1].head_id);
        }
        let i = choose|i: int|
            0 <= i < page.len() && #[trigger] page[i] == state.messages[(log, h)];
        assert(out[i]@.head_id == page[i].head_id);
    }
}

/// A fetch reads the log of the topic and the node that it names from exactly the position that it
/// names on, or from one on where it names zero: every message from there on comes, as it is
/// stored and in order, until the page is full. It is refused if and only if a name is bad, or the
/// store fails.
pub proof fn law_fetch<S: MsgbusStore>(
    service: &MsgbusGrpcService<S>,
    request: FetchRequest,
    res: Result<Vec<MessageEnvelope>, Status>,
    origin: NodeView,
    h: u64,
)
    requires
        call_ensures(MsgbusGrpcService::<S>::fetch, (service, request), res),
        speaks_of(service.node@, request.origin, origin),
    ensures
        ({
            let state = service.store.state();
            let log = LogView { topic: request.topic@, origin };
            let limit = if request.limit == 0 {
                100
            } else if request.limit > 10_000 {
                10_000
            } else {
                request.limit as int
            };
            &&& res matches Ok(out) ==> {
                &&& crate::ids::valid_part(request.topic@)
                &&& names_well(request.origin)
                &&& out@.len() <= limit
                &&& forall|i: int|
                    0 <= i < out@.len() ==> {
                        let e = #[trigger] out@[i];
                        let m = state.messages[(log, e.head_id)];
                        &&& 1 <= e.head_id && request.from_head_id <= e.head_id
                        &&& state.messages.contains_key((log, e.head_id))
                        &&& e.id@ == m.id
                        &&& e.topic@ == m.topic
                        &&& e.origin matches Some(node) && node@ == m.origin
                        &&& e.payload@ == m.payload
                        &&& e.headers@ == m.headers
                        &&& e.created_at_ms == m.created_at_ms
                        &&& e.deleted == m.deleted
                    }
                &&& forall|i: int, j: int|
                    0 <= i < j < out@.len() ==> (#[trigger] out@[i]).head_id < (
                    #[trigger] out@[j]).head_id
                &&& state.messages.contains_key((log, h)) && state.messages[(log, h)].head_id == h
                    && 1 <= h && request.from_head_id <= h && (out@.len() < limit || h
                    <= out@[out@.len() - 1].head_id) ==> exists|i: int|
                    0 <= i < out@.len() && (#[trigger] out@[i]).head_id == h
                &&& request.from_head_id >= 1 && state.messages.contains_key(
                    (log, request.from_head_id),
                ) && state.messages[(log, request.from_head_id)].head_id == request.from_head_id
                    ==> out@.len() > 0 && out@[0].head_id == request.from_head_id
            }
            &&& res matches Err(status) ==> {
                ||| (!crate::ids::valid_part(request.topic@) || !names_well(request.origin))
                    && status.code == Code::InvalidArgument
                ||| !S::reliable() && crate::ids::valid_part(request.topic@) && names_well(
                    request.origin,
                )
            }
        }),
{
    let state = service.store.state();
    let log = LogView { topic: request.topic@, origin };
    law_what_calls_name(
        service.node@,
        Seq::empty(),
        request.topic@,
        request.origin,
        None,
        origin,
    );
    if res is Ok {
        let out = (res->Ok_0)@;
        let from = crate::service::first_position(request.from_head_id);
        let limit = crate::engine::page_size(request.limit);
        assert(from == if request.from_head_id == 0 {
            1
        } else {
            request.from_head_id
        });
        law_wire_pages(state, log, from, limit, out, h);
        law_wire_pages(state, log, from, limit, out, request.from_head_id);
        if request.from_head_id >= 1 && state.messages.contains_key((log, request.from_head_id))
            && state.messages[(log, request.from_head_id)].head_id == request.from_head_id {
            if out.len() > 0 {
                assert(from <= out[out.len() - 1].head_id);
            }
            let i = choose|i: int|
                0 <= i < out.len() && (#[trigger] out[i]).head_id == request.from_head_id;
            if i > 0 {
                assert(out[0].head_id < out[i].head_id);
                assert(from <= out[0].head_id);
            }
        }
    } else {
        assert((res->Err_0)@.code == (res->Err_0).code);
    }
}

/// Paging misses nothing and repeats nothing: of a fetch and the fetch from behind its last
/// message on, of the same log, no message comes twice, and every message from the first position
/// on up to the last of the second page comes once.
pub proof fn law_paging<S: MsgbusStore>(
    service: &MsgbusGrpcService<S>,
    first: FetchRequest,
    second: FetchRequest,
    a: Vec<MessageEnvelope>,
    b: Vec<MessageEnvelope>,
    origin: NodeView,
    h: u64,
)
    requires
        call_ensures(
            MsgbusGrpcService::<S>::fetch,
            (service, first),
            Ok::<Vec<MessageEnvelope>, Status>(a),
        ),
        call_ensures(
            MsgbusGrpcService::<S>::fetch,
            (service, second),
            Ok::<Vec<MessageEnvelope>, Status>(b),
        ),
        first.topic@ == second.topic@,
        speaks_of(service.node@, first.origin, origin),
        speaks_of(service.node@, second.origin, origin),
        a@.len() > 0,
        a@[a@.len() - 1].head_id < u64::MAX,
        second.from_head_id == a@[a@.len() - 1].head_id + 1,
        service.store.state().messages.contains_key(
            (LogView { topic: first.topic@, origin }, h),
        ),
        service.store.state().messages[(LogView { topic: first.topic@, origin }, h)].head_id == h,
        1 <= h && first.from_head_id <= h,
        b@.len() > 0 ==> h <= b@[b@.len() - 1].head_id,
        b@.len() == 0 ==> h <= a@[a@.len() - 1].head_id,
    ensures
        exists|i: int| 0 <= i < (a@ + b@).len() && (#[trigger] (a@ + b@)[i]).head_id == h,
        forall|i: int, j: int|
            0 <= i < j < (a@ + b@).len() ==> (#[trigger] (a@ + b@)[i]).head_id < (
            #[trigger] (a@ + b@)[j]).head_id,
{
    let c = a@ + b@;
    let n = a@.len() as int;
    law_fetch(service, first, Ok(a), origin, h);
    law_fetch(service, second, Ok(b), origin, h);
    if h <= a@[n - 1].head_id {
        let i = choose|i: int| 0 <= i < a@.len() && (#[trigger] a@[i]).head_id == h;
        assert(c[i].head_id == h);
    } else {
        let i = choose|i: int| 0 <= i < b@.len() && (#[trigger] b@[i]).head_id == h;
        assert(c[n + i].head_id == h);
    }
    assert forall|i: int, j: int| 0 <= i < j < c.len() implies (#[trigger] c[i]).head_id < (
    #[trigger] c[j]).head_id by {
        if j < n {
            assert(c[i] == a@[i] && c[j] == a@[j]);
        } else {
            assert(c[j] == b@[j - n]);
            assert(second.from_head_id <= b@[j - n].head_id);
            if i < n {
                assert(c[i] == a@[i]);
                if i < n - 1 {
                    assert(a@[i].head_id < a@[n - 1].head_id);
                }
            } else {
                assert(c[i] == b@[i - n]);
            }
        }
    }
}

/// Publish and fetch belong together: what a publish was asked to store, a fetch from the position
/// that it answered shows first, with the payload and the headers that were sent. `after` is what
/// the store holds behind the publish, of which the contract of
/// [`crate::service::MsgbusGrpcService::publish`] says what stands at that position.
pub proof fn law_published_then_fetched<S: MsgbusStore>(
    service: &MsgbusGrpcService<S>,
    topic: Seq<char>,
    payload: Seq<u8>,
    headers: Map<String, String>,
    at: u64,
    request: FetchRequest,
    out: Vec<MessageEnvelope>,
)
    requires
        at >= 1,
        ({
            let place = (LogView { topic, origin: service.node@ }, at);
            let messages = service.store.state().messages;
            messages.contains_key(place) && messages[place].payload == payload
                && messages[place].headers == headers && messages[place].head_id == at
        }),
        call_ensures(
            MsgbusGrpcService::<S>::fetch,
            (service, request),
            Ok::<Vec<MessageEnvelope>, Status>(out),
        ),
        request.topic@ == topic,
        speaks_of(service.node@, request.origin, service.node@),
        request.from_head_id == at,
    ensures
        out@.len() > 0,
        out@[0].head_id == at,
        out@[0].payload@ == payload,
        out@[0].headers@ == headers,
{
    law_fetch(service, request, Ok(out), service.node@, at);
}

/// The last position of a log is the one that the store keeps, and none is found where it keeps
/// none.
pub proof fn law_get_head<S: MsgbusStore>(
    service: &MsgbusGrpcService<S>,
    request: GetHeadRequest,
    res: Result<GetHeadResponse, Status>,
    origin: NodeView,
)
    requires
        call_ensures(MsgbusGrpcService::<S>::get_head, (service, request), res),
        speaks_of(service.node@, request.origin, origin),
    ensures
        ({
            let heads = service.store.state().heads;
            let log = LogView { topic: request.topic@, origin };
            &&& res matches Ok(response) ==> {
                &&& response.found == heads.contains_key(log)
                &&& response.found ==> response.head_id == heads[log]
                &&& !response.found ==> response.head_id == 0
            }
            &&& !crate::ids::valid_part(request.topic@) || !names_well(request.origin) ==> (
            res matches Err(status) && status.code == Code::InvalidArgument)
            &&& S::reliable() && crate::ids::valid_part(request.topic@) && names_well(
                request.origin,
            ) ==> res is Ok
        }),
{
    law_what_calls_name(
        service.node@,
        Seq::empty(),
        request.topic@,
        request.origin,
        None,
        origin,
    );
    if res is Err {
        assert((res->Err_0)@.code == (res->Err_0).code);
    }
}

/// All logs with messages are listed, each once, with their last positions.
pub proof fn law_list_heads<S: MsgbusStore>(
    service: &MsgbusGrpcService<S>,
    res: Result<Vec<WireTopicHead>, Status>,
    log: LogView,
)
    requires
        call_ensures(MsgbusGrpcService::<S>::list_heads, (service,), res),
    ensures
        S::reliable() ==> res is Ok,
        res matches Ok(out) ==> {
            let heads = service.store.state().heads;
            &&& forall|i: int|
                0 <= i < out@.len() ==> {
                    let w = #[trigger] out@[i];
                    &&& w.origin is Some
                    &&& {
                        let l = LogView { topic: w.topic@, origin: (w.origin->0)@ };
                        heads.contains_key(l) && heads[l] == w.head_id
                    }
                }
            &&& forall|i: int, j: int|
                0 <= i < j < out@.len() ==> (#[trigger] out@[i]).topic@ != (
                #[trigger] out@[j]).topic@ || (out@[i].origin->0)@ != (out@[j].origin->0)@
            &&& heads.contains_key(log) ==> exists|i: int|
                0 <= i < out@.len() && (#[trigger] out@[i]).topic@ == log.topic && out@[i].origin
                    is Some && (out@[i].origin->0)@ == log.origin && out@[i].head_id == heads[log]
        },
{
    if res is Ok {
        let out = (res->Ok_0)@;
        let state = service.store.state();
        let values = crate::engine::values_of(out);
        let listed = choose|heads: Seq<crate::message::TopicHeadView>| #[trigger]
            state.lists_heads(heads) && values == crate::service::wire_heads_of(heads);
        assert(values.len() == out.len() && listed.len() == out.len());
        crate::effects::law_lists(
            state,
            listed,
            Seq::empty(),
            log,
            (Seq::empty(), log),
        );
        assert forall|i: int| 0 <= i < out.len() implies {
            let w = #[trigger] out[i];
            let h = listed[i];
            w.topic@ == h.topic && w.head_id == h.head_id && w.origin is Some && (w.origin->0)@
                == h.origin
        } by {
            assert(values[i] == out[i]@);
            assert(crate::service::wire_heads_of(listed)[i] == crate::wire::wire_head_of(
                listed[i],
            ));
            assert(out[i]@.origin == crate::wire::optional_node(out[i].origin));
        }
        assert forall|i: int, j: int| 0 <= i < j < out.len() implies (#[trigger] out[i]).topic@ != (
        #[trigger] out[j]).topic@ || (out[i].origin->0)@ != (out[j].origin->0)@ by {
            assert(listed[i].topic != listed[j].topic || listed[i].origin != listed[j].origin);
        }
        if state.heads.contains_key(log) {
            let i = choose|i: int|
                0 <= i < listed.len() && (#[trigger] listed[i]).topic == log.topic
                    && listed[i].origin == log.origin;
            assert(out[i].topic@ == log.topic);
            assert(log == (LogView { topic: listed[i].topic, origin: listed[i].origin }));
        }
    }
}

/// A peek shows the message with the smallest number of the queue, as it is stored, and says of an
/// empty queue that it is empty.
pub proof fn law_peek<S: MsgbusStore>(
    service: &MsgbusGrpcService<S>,
    request: PeekFifoRequest,
    res: Result<FifoResponse, Status>,
)
    requires
        call_ensures(MsgbusGrpcService::<S>::peek_fifo, (service, request), res),
    ensures
        ({
            let fifo = service.store.state().fifo;
            let queue = request.queue@;
            &&& res matches Ok(response) ==> {
                &&& response.message is Some
                &&& exists|n: u64|
                    #![trigger fifo.contains_key((queue, n))]
                    {
                        let message = response.message->0;
                        let front = fifo[(queue, n)];
                        &&& fifo.contains_key((queue, n))
                        &&& forall|other: u64| #[trigger]
                            fifo.contains_key((queue, other)) ==> n <= other
                        &&& message.id@ == front.id
                        &&& message.queue@ == front.queue
                        &&& message.topic@ == front.topic
                        &&& message.source matches Some(node) && node@ == front.source
                        &&& message.target matches Some(node) && node@ == front.target
                        &&& message.payload@ == front.payload
                        &&& message.headers@ == front.headers
                        &&& message.created_at_ms == front.created_at_ms
                        &&& message.sequence == front.sequence
                        &&& message.attempts == front.attempts
                    }
            }
            &&& !crate::ids::valid_part(queue) ==> (res matches Err(status) && status.code
                == Code::InvalidArgument)
            &&& crate::ids::valid_part(queue) && S::reliable() && (forall|n: u64|
                !#[trigger] fifo.contains_key((queue, n))) ==> (res matches Err(status)
                && status.code == Code::NotFound && status.message@ == "fifo queue is empty"@)
            &&& crate::ids::valid_part(queue) && S::reliable() && (exists|n: u64| #[trigger]
                fifo.contains_key((queue, n))) ==> res is Ok
        }),
{
    let state = service.store.state();
    let queue = request.queue@;
    crate::terms::law_accepted_names("queue"@, queue);
    if res is Ok {
        let message = ((res->Ok_0).message)->0;
        let n = choose|s: u64| #[trigger]
            state.is_front(queue, s) && ((res->Ok_0).message matches Some(message) && message@
                == crate::wire::fifo_message_of(state.fifo[(queue, s)]));
        assert(state.fifo.contains_key((queue, n)));
        assert(message@.payload == message.payload@);
        assert(message@.headers == message.headers@);
        assert(message@.source == crate::wire::optional_node(message.source));
        assert(message@.target == crate::wire::optional_node(message.target));
    } else {
        assert((res->Err_0)@.code == (res->Err_0).code);
        assert((res->Err_0)@.message == (res->Err_0).message@);
    }
}

/// Enqueue and peek belong together: a peek shows the message at the front with everything that it
/// was enqueued with, of which the contract of
/// [`crate::service::MsgbusGrpcService::enqueue_fifo`] says what stands at its number; and two
/// peeks show the same.
pub proof fn law_enqueued_then_peeked<S: MsgbusStore>(
    service: &MsgbusGrpcService<S>,
    request: PeekFifoRequest,
    n: u64,
    first: FifoResponse,
    second: FifoResponse,
)
    requires
        service.store.state().fifo.contains_key((request.queue@, n)),
        forall|other: u64| #[trigger]
            service.store.state().fifo.contains_key((request.queue@, other)) ==> n <= other,
        call_ensures(
            MsgbusGrpcService::<S>::peek_fifo,
            (service, request),
            Ok::<FifoResponse, Status>(first),
        ),
        call_ensures(
            MsgbusGrpcService::<S>::peek_fifo,
            (service, request),
            Ok::<FifoResponse, Status>(second),
        ),
    ensures
        ({
            let front = service.store.state().fifo[(request.queue@, n)];
            &&& first.message is Some && second.message is Some
            &&& (first.message->0).id@ == front.id
            &&& (first.message->0).topic@ == front.topic
            &&& (first.message->0).payload@ == front.payload
            &&& (first.message->0).headers@ == front.headers
            &&& (first.message->0).sequence == front.sequence
            &&& (first.message->0).attempts == front.attempts
            &&& ((first.message->0).source matches Some(node) && node@ == front.source)
            &&& ((first.message->0).target matches Some(node) && node@ == front.target)
            &&& (first.message->0).id@ == (second.message->0).id@
            &&& (first.message->0).payload@ == (second.message->0).payload@
        }),
{
    law_peek(service, request, Ok(first));
    law_peek(service, request, Ok(second));
}

/// All that is known of logs at peers is shown as it is kept, each once.
pub proof fn law_list_states<S: MsgbusStore>(
    service: &MsgbusGrpcService<S>,
    res: Result<Vec<WireSyncState>, Status>,
    place: (Seq<char>, LogView),
)
    requires
        call_ensures(MsgbusGrpcService::<S>::list_peer_sync_states, (service,), res),
    ensures
        S::reliable() ==> res is Ok,
        res matches Ok(out) ==> {
            let sync = service.store.state().sync;
            &&& forall|i: int|
                0 <= i < out@.len() ==> {
                    let w = #[trigger] out@[i];
                    &&& w.origin is Some
                    &&& {
                        let p = (w.peer@, LogView { topic: w.topic@, origin: (w.origin->0)@ });
                        let s = sync[p];
                        &&& sync.contains_key(p)
                        &&& w.local_head == s.local_head && w.remote_head == s.remote_head
                        &&& w.last_synced_head == s.last_synced_head
                        &&& w.consecutive_failures == s.consecutive_failures
                        &&& w.last_error@ == s.last_error
                    }
                }
            &&& sync.contains_key(place) && sync[place].peer == place.0 && sync[place].topic
                == place.1.topic && sync[place].origin == place.1.origin ==> exists|i: int|
                0 <= i < out@.len() && (#[trigger] out@[i]).peer@ == place.0 && out@[i].topic@
                    == place.1.topic && out@[i].origin is Some && (out@[i].origin->0)@
                    == place.1.origin
        },
{
    if res is Ok {
        let out = (res->Ok_0)@;
        let state = service.store.state();
        let values = crate::engine::values_of(out);
        let listed = choose|states: Seq<crate::message::SyncStateView>| #[trigger]
            state.lists_sync(states) && values == crate::service::wire_states_of(states);
        assert(values.len() == out.len() && listed.len() == out.len());
        crate::effects::law_lists(state, Seq::empty(), listed, place.1, place);
        assert forall|i: int| 0 <= i < out.len() implies {
            let w = #[trigger] out[i];
            w@ == crate::wire::wire_sync_of(listed[i]) && w.origin is Some && (w.origin->0)@
                == listed[i].origin
        } by {
            assert(values[i] == out[i]@);
            assert(crate::service::wire_states_of(listed)[i] == crate::wire::wire_sync_of(
                listed[i],
            ));
            assert(out[i]@.origin == crate::wire::optional_node(out[i].origin));
        }
        assert forall|i: int| 0 <= i < out.len() implies {
            let w = #[trigger] out[i];
            let p = (w.peer@, LogView { topic: w.topic@, origin: (w.origin->0)@ });
            let s = state.sync[p];
            &&& state.sync.contains_key(p)
            &&& w.local_head == s.local_head && w.remote_head == s.remote_head
            &&& w.last_synced_head == s.last_synced_head
            &&& w.consecutive_failures == s.consecutive_failures
            &&& w.last_error@ == s.last_error
        } by {
            let k = listed[i];
            assert(out[i]@.peer == k.peer && out[i]@.topic == k.topic);
            assert(state.sync.contains_key(
                (k.peer, LogView { topic: k.topic, origin: k.origin }),
            ));
        }
        if state.sync.contains_key(place) && state.sync[place].peer == place.0
            && state.sync[place].topic == place.1.topic && state.sync[place].origin
            == place.1.origin {
            let i = choose|i: int|
                0 <= i < listed.len() && #[trigger] listed[i] == state.sync[place];
            assert(out[i]@.peer == listed[i].peer);
        }
    }
}

/// A subscription is to the topic and the node that it names, replays the log from the position
/// that it names, and stands behind what it replayed: at the last position of it, or, where
/// nothing was replayed, just before the first position that was asked for.
pub proof fn law_subscribe<S: MsgbusStore>(
    service: &MsgbusGrpcService<S>,
    request: SubscribeRequest,
    sub: Subscription,
    replay: Vec<MessageEnvelope>,
    origin: NodeView,
    h: u64,
)
    requires
        call_ensures(
            MsgbusGrpcService::<S>::subscribe,
            (service, request),
            Ok::<(Subscription, Vec<MessageEnvelope>), Status>((sub, replay)),
        ),
        speaks_of(service.node@, request.origin, origin),
    ensures
        ({
            let state = service.store.state();
            let log = LogView { topic: request.topic@, origin };
            let limit = if request.replay_limit == 0 {
                100
            } else if request.replay_limit > 10_000 {
                10_000
            } else {
                request.replay_limit as int
            };
            &&& sub.topic@ == request.topic@
            &&& sub.origin@ == origin
            &&& replay@.len() <= limit
            &&& replay@.len() == 0 && request.from_head_id >= 1 ==> sub.last_sent
                == request.from_head_id - 1
            &&& replay@.len() == 0 && request.from_head_id == 0 ==> sub.last_sent == 0
            &&& replay@.len() > 0 ==> sub.last_sent == replay@[replay@.len() - 1].head_id
            &&& forall|i: int|
                0 <= i < replay@.len() ==> {
                    let e = #[trigger] replay@[i];
                    let m = state.messages[(log, e.head_id)];
                    &&& 1 <= e.head_id && request.from_head_id <= e.head_id <= sub.last_sent
                    &&& state.messages.contains_key((log, e.head_id))
                    &&& e.id@ == m.id
                    &&& e.topic@ == m.topic
                    &&& e.origin matches Some(node) && node@ == m.origin
                    &&& e.payload@ == m.payload
                    &&& e.headers@ == m.headers
                    &&& e.created_at_ms == m.created_at_ms
                    &&& e.deleted == m.deleted
                }
            &&& forall|i: int, j: int|
                0 <= i < j < replay@.len() ==> (#[trigger] replay@[i]).head_id < (
                #[trigger] replay@[j]).head_id
            &&& state.messages.contains_key((log, h)) && state.messages[(log, h)].head_id == h && 1
                <= h && request.from_head_id <= h && (replay@.len() < limit || h <= sub.last_sent)
                ==> exists|i: int| 0 <= i < replay@.len() && (#[trigger] replay@[i]).head_id == h
        }),
{
    let state = service.store.state();
    let log = LogView { topic: request.topic@, origin };
    law_what_calls_name(
        service.node@,
        Seq::empty(),
        request.topic@,
        request.origin,
        None,
        origin,
    );
    let from = crate::service::first_position(request.from_head_id);
    let limit = crate::subscribe::replay_size(request.replay_limit);
    let values = crate::engine::values_of(replay@);
    let page = choose|page: Seq<MessageView>| #[trigger]
        state.is_page(log, from, limit, page) && values == crate::service::envelopes_of(page)
            && sub.last_sent == crate::subscribe::replayed_to(from, page);
    assert(from >= 1);
    assert(crate::service::is_wire_page(state, log, from, limit, values));
    law_wire_pages(state, log, from, limit, replay@, h);
    assert(values.len() == replay@.len());
    assert(crate::service::envelopes_of(page).len() == page.len());
    if page.len() > 0 {
        let k = page.len() - 1;
        assert(page.last() == page[k]);
        assert(values[k] == replay@[k]@);
        assert(crate::service::envelopes_of(page)[k] == crate::wire::envelope_of(page[k]));
        assert(replay@[k].head_id == page[k].head_id);
        assert forall|i: int| 0 <= i < replay@.len() implies (#[trigger] replay@[i]).head_id
            <= sub.last_sent by {
            if i < k {
                assert(replay@[i].head_id < replay@[k].head_id);
            }
        }
    }
}

/// A subscription is refused if and only if a name is bad, or the store fails.
pub proof fn law_subscribe_refusals<S: MsgbusStore>(
    service: &MsgbusGrpcService<S>,
    request: SubscribeRequest,
    res: Result<(Subscription, Vec<MessageEnvelope>), Status>,
)
    requires
        call_ensures(MsgbusGrpcService::<S>::subscribe, (service, request), res),
    ensures
        !crate::ids::valid_part(request.topic@) || !names_well(request.origin) ==> (
        res matches Err(status) && status.code == Code::InvalidArgument),
        crate::ids::valid_part(request.topic@) && names_well(request.origin) && S::reliable()
            ==> res is Ok,
{
    law_what_calls_name(
        service.node@,
        Seq::empty(),
        request.topic@,
        request.origin,
        None,
        service.node@,
    );
    if res is Err {
        assert((res->Err_0)@.code == (res->Err_0).code);
    }
}

/// Replay and live together miss nothing and repeat nothing: of a subscription that was opened, a
/// message of its log that is published is admitted if and only if it stands at or behind the
/// first position that was asked for and behind everything that was replayed.
pub proof fn law_replay_and_live_miss_nothing<S: MsgbusStore>(
    service: &MsgbusGrpcService<S>,
    request: SubscribeRequest,
    sub: Subscription,
    replay: Vec<MessageEnvelope>,
    origin: NodeView,
    m: MessageView,
)
    requires
        call_ensures(
            MsgbusGrpcService::<S>::subscribe,
            (service, request),
            Ok::<(Subscription, Vec<MessageEnvelope>), Status>((sub, replay)),
        ),
        speaks_of(service.node@, request.origin, origin),
        m.topic == request.topic@,
        m.origin == origin,
        m.head_id >= 1,
    ensures
        sub@.admits(m) <==> m.head_id >= request.from_head_id && forall|i: int|
            0 <= i < replay@.len() ==> (#[trigger] replay@[i]).head_id < m.head_id,
        sub@.delivers(seq![m]) == if m.head_id >= request.from_head_id && (forall|i: int|
            0 <= i < replay@.len() ==> (#[trigger] replay@[i]).head_id < m.head_id) {
            seq![m]
        } else {
            Seq::empty()
        },
{
    law_subscribe(service, request, sub, replay, origin, m.head_id);
    law_admission(sub, m);
    if replay@.len() > 0 {
        let k = replay@.len() - 1;
        assert(replay@[k].head_id == sub.last_sent);
    }
    assert(seq![m].skip(1) =~= Seq::<MessageView>::empty());
    let rest = sub@.after(m).delivers(seq![m].skip(1));
    assert(rest =~= Seq::<MessageView>::empty());
    assert(seq![m] + rest =~= seq![m]);
}

/// A subscription admits a message if it is of its topic and its origin and stands behind what was
/// delivered, and stands at it afterwards; another message leaves it as it is.
pub proof fn law_admission(sub: Subscription, m: MessageView)
    ensures
        sub@.topic == sub.topic@,
        sub@.origin == sub.origin@,
        sub@.last_sent == sub.last_sent,
        sub@.admits(m) <==> m.topic == sub.topic@ && m.origin == sub.origin@ && m.head_id
            > sub.last_sent,
        sub@.admits(m) ==> sub@.after(m) == (SubscriptionView {
            topic: sub.topic@,
            origin: sub.origin@,
            last_sent: m.head_id,
        }),
        !sub@.admits(m) ==> sub@.after(m) == sub@,
{
}

/// A message tells of a deletion if and only if its topic is that of deletions and it is not
/// deleted itself, wherever in its log it stands.
pub proof fn law_deletion_markers(m: MessageView, message: &StoredMessage, res: bool)
    ensures
        crate::service::is_control(m) <==> m.topic == "$msgbus.delete"@ && !m.deleted,
        call_ensures(crate::service::is_control_message, (message,), res) ==> (res
            <==> message.topic@ == "$msgbus.delete"@ && !message.deleted),
{
}

/// What comes of a message that tells of a deletion: where its payload was read as a range that is
/// in order, success marks every message of the range as deleted and changes no other message;
/// failure changes nothing, and comes only from a payload that could not be read, a range that
/// ends before it starts, or a failing store.
pub proof fn law_control_messages<S: MsgbusStore>(
    before: StoreView,
    after: StoreView,
    range: Result<TombstoneRange, String>,
    res: Result<(), Status>,
)
    requires
        crate::service::control_outcome::<S>(before, after, range, res),
    ensures
        res is Err ==> after == before,
        range matches Err(text) ==> (res matches Err(status) && status.code
            == Code::InvalidArgument && status.message@ == "invalid tombstone payload: "@ + text@),
        range matches Ok(r) ==> {
            &&& r.from_head_id.0 > r.to_head_id.0 ==> (res matches Err(status) && status.code
                == Code::InvalidArgument && status.message@
                == "from_head_id must be <= to_head_id"@)
            &&& r.from_head_id.0 <= r.to_head_id.0 && S::reliable() ==> res is Ok
            &&& res is Ok ==> {
                &&& r.from_head_id.0 <= r.to_head_id.0
                &&& after.heads == before.heads && after.sequences == before.sequences
                    && after.fifo == before.fifo && after.sync == before.sync
                &&& forall|l: LogView, h: u64|
                    #![trigger after.messages.contains_key((l, h))]
                    #![trigger after.messages[(l, h)]]
                    after.messages.contains_key((l, h)) == before.messages.contains_key((l, h)) && (
                    before.messages.contains_key((l, h)) ==> after.messages[(l, h)].deleted == (
                    before.messages[(l, h)].deleted || l.topic == r.topic@ && l.origin == r.origin@
                        && r.from_head_id.0 <= h <= r.to_head_id.0) && after.messages[(
                        l,
                        h,
                    )].payload == before.messages[(l, h)].payload && after.messages[(l, h)].id
                        == before.messages[(l, h)].id)
            }
        },
{
    if res is Err {
        assert((res->Err_0)@.code == (res->Err_0).code);
        assert((res->Err_0)@.message == (res->Err_0).message@);
    }
    if range is Ok && res is Ok {
        let r = range->Ok_0;
        let log = crate::keys::log_of(r.topic@, r.origin@);
        let at = choose|at: u64|
            after == before.tombstoned(
                log,
                #[trigger] crate::store::tombstone_record(
                    r.topic@,
                    r.origin@,
                    r.from_head_id.0,
                    r.to_head_id.0,
                    at,
                ),
            );
        let record = crate::store::tombstone_record(
            r.topic@,
            r.origin@,
            r.from_head_id.0,
            r.to_head_id.0,
            at,
        );
        crate::effects::law_tombstone_effect(before, log, record);
    }
}

/// A failing store's own error is what a caller is told of.
pub proof fn law_store_failures<S: MsgbusStore>(
    store: &S,
    before: StoreView,
    log: LogView,
    from: u64,
    limit: u32,
    queue: Seq<char>,
    id: Seq<char>,
    range: TombstoneRange,
    status: StatusView,
)
    ensures
        crate::service::fetch_failed(store, log, from, limit, status) ==> exists|
            query: FetchQuery,
            e: MsgbusError,
        | #[trigger]
            call_ensures(
                S::fetch_messages,
                (store, query),
                Err::<Vec<StoredMessage>, MsgbusError>(e),
            ) && query.topic@ == log.topic && query.origin@ == log.origin && query.from_head_id.0
                == from && query.limit == limit && status == crate::status::status_of(e@),
        crate::service::head_failed(store, log, status) ==> exists|
            topic: &crate::ids::Topic,
            origin: &NodeId,
            e: MsgbusError,
        | #[trigger]
            call_ensures(
                S::get_head,
                (store, topic, origin),
                Err::<Option<HeadId>, MsgbusError>(e),
            ) && topic@ == log.topic && origin@ == log.origin && status
                == crate::status::status_of(e@),
        crate::service::heads_failed(store, status) ==> exists|e: MsgbusError| #[trigger]
            call_ensures(
                S::list_heads,
                (store,),
                Err::<Vec<crate::message::TopicHead>, MsgbusError>(e),
            ) && status == crate::status::status_of(e@),
        crate::service::peek_failed(store, queue, status) ==> exists|
            name: &crate::ids::QueueName,
            e: MsgbusError,
        | #[trigger]
            call_ensures(
                S::peek_fifo,
                (store, name),
                Err::<Option<crate::message::StoredFifoMessage>, MsgbusError>(e),
            ) && name@ == queue && status == crate::status::status_of(e@),
        crate::service::states_failed(store, status) ==> exists|e: MsgbusError| #[trigger]
            call_ensures(
                S::list_peer_sync_states,
                (store,),
                Err::<Vec<crate::message::PeerSyncState>, MsgbusError>(e),
            ) && status == crate::status::status_of(e@),
        crate::service::ack_failed::<S>(before, queue, id, status) ==> exists|
            e: crate::error::ErrorView,
        | #[trigger] S::ack_fails(before, queue, id, e) && status == crate::status::status_of(e),
        crate::service::reject_failed::<S>(before, queue, id, status) ==> exists|
            e: crate::error::ErrorView,
        | #[trigger] S::reject_fails(before, queue, id, e) && status == crate::status::status_of(e),
        crate::service::mark_failed::<S>(before, range, status) ==> exists|
            e: crate::error::ErrorView,
        | #[trigger]
            S::tombstone_fails(
                before,
                LogView { topic: range.topic@, origin: range.origin@ },
                range.from_head_id.0,
                range.to_head_id.0,
                e,
            ) && status == crate::status::status_of(e),
{
    if crate::service::head_failed(store, log, status) {
        let e = choose|e: crate::error::ErrorView| #[trigger]
            crate::store::head_unread(store, log, e) && status == crate::status::status_of(e);
        assert(crate::store::head_unread(store, log, e));
    }
    if crate::service::states_failed(store, status) {
        let e = choose|e: crate::error::ErrorView| #[trigger]
            crate::store::states_unread(store, e) && status == crate::status::status_of(e);
        assert(crate::store::states_unread(store, e));
    }
}

/// A failing store's own error is what a writer is told of, and the store was handed what the
/// writer sent.
pub proof fn law_write_failures<S: MsgbusStore, F: Fn(&TombstoneRange) -> Result<Vec<u8>, String>>(
    before: StoreView,
    encode: F,
    topic: Seq<char>,
    origin: NodeView,
    payload: Seq<u8>,
    headers: Map<String, String>,
    asked: crate::message::NewFifoView,
    from: u64,
    to: u64,
    status: StatusView,
)
    ensures
        crate::service::publish_failed::<S>(before, topic, origin, payload, headers, status)
            ==> exists|m: crate::message::NewMessageView, e: crate::error::ErrorView| #[trigger]
            S::append_fails(before, m, e) && m.topic == topic && m.origin == origin && m.payload
                == payload && m.headers == headers && status == crate::status::status_of(e),
        crate::service::enqueue_failed::<S>(before, asked, status) ==> exists|
            m: crate::message::NewFifoView,
            e: crate::error::ErrorView,
        | #[trigger]
            S::enqueue_fails(before, m, e) && m.queue == asked.queue && m.topic == asked.topic
                && m.source == asked.source && m.target == asked.target && m.payload
                == asked.payload && m.headers == asked.headers && status
                == crate::status::status_of(e),
        crate::service::delete_failed::<S, F>(
            before,
            origin,
            encode,
            topic,
            origin,
            from,
            to,
            status,
        ) ==> exists|m: crate::message::NewMessageView, e: crate::error::ErrorView| #[trigger]
            S::marker_fails(before, LogView { topic, origin }, from, to, m, e) && m.topic
                == "$msgbus.delete"@ && m.origin == origin && status == crate::status::status_of(e),
        crate::service::was_encoded(encode, topic, origin, from, to, payload) ==> exists|
            range: &TombstoneRange,
            bytes: Vec<u8>,
        | #[trigger]
            call_ensures(encode, (range,), Ok::<Vec<u8>, String>(bytes)) && bytes@ == payload
                && range.topic@ == topic && range.origin@ == origin && range.from_head_id.0 == from
                && range.to_head_id.0 == to,
        crate::service::not_encoded(encode, topic, origin, from, to, status) ==> exists|
            range: &TombstoneRange,
            text: String,
        | #[trigger]
            call_ensures(encode, (range,), Err::<Vec<u8>, String>(text)) && status.code
                == Code::Internal && status.message == "failed to encode tombstone: "@ + text@
                && range.topic@ == topic && range.origin@ == origin && range.from_head_id.0 == from
                && range.to_head_id.0 == to,
{
    if crate::service::was_encoded(encode, topic, origin, from, to, payload) {
        let (range, bytes) = choose|range: &TombstoneRange, bytes: Vec<u8>| #[trigger]
            call_ensures(encode, (range,), Ok::<Vec<u8>, String>(bytes)) && bytes@ == payload
                && range@ == crate::store::tombstone_record(
                topic,
                origin,
                from,
                to,
                range.created_at_ms,
            );
        assert(range@.topic == topic && range@.origin == origin);
        assert(range@.from_head_id == from && range@.to_head_id == to);
    }
    if crate::service::not_encoded(encode, topic, origin, from, to, status) {
        let (range, text) = choose|range: &TombstoneRange, text: String| #[trigger]
            call_ensures(encode, (range,), Err::<Vec<u8>, String>(text)) && status == (StatusView {
                code: Code::Internal,
                message: "failed to encode tombstone: "@ + text@,
            }) && range@ == crate::store::tombstone_record(
                topic,
                origin,
                from,
                to,
                range.created_at_ms,
            );
        assert(range@.topic == topic && range@.origin == origin);
        assert(range@.from_head_id == from && range@.to_head_id == to);
    }
}

} // verus!

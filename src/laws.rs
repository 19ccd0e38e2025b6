//! Properties of the dispatcher and of gossip that hold over every input.
use crate::gossip::{forward, gossip_round, ids_view, valid_targets};
use crate::message::{answer, init_accepted, Fields, HandleError, Message, Type};
use crate::node::{dispatched, emitted, handled, NodeView, Outcome};
use crate::store::lists_exactly;
use vstd::prelude::*;

verus! {

/// Whether `msg` is a broadcast of `v`.
pub open spec fn is_broadcast_of(msg: Message, v: u64) -> bool {
    msg.body.msg_type == Type::Broadcast && msg.body.fields == Fields::Message(v)
}

/// Whether `r` is a read reply listing each member of `s` exactly once.
pub open spec fn read_reply_lists(r: Result<Outcome, HandleError>, s: Set<u64>) -> bool {
    match r {
        Ok(Outcome { reply: Some(m), gossip: None }) => match m.body.fields {
            Fields::Messages(vs) => m.body.msg_type == Type::ReadOk && lists_exactly(vs@, s),
            _ => false,
        },
        _ => false,
    }
}

/// A run of broadcasts of `vals` to a node that had seen nothing: `states`
/// are the node's states, `msgs` the broadcasts and `results` the decisions.
pub open spec fn broadcast_run(
    states: Seq<NodeView>,
    msgs: Seq<Message>,
    results: Seq<Result<Outcome, HandleError>>,
    vals: Seq<u64>,
) -> bool {
    &&& states.len() == vals.len() + 1
    &&& msgs.len() == vals.len()
    &&& results.len() == vals.len()
    &&& states[0].values == Set::<u64>::empty()
    &&& forall|j: int|
        0 <= j < vals.len() ==> is_broadcast_of(msgs[j], vals[j]) && dispatched(
            states[j],
            msgs[j],
            states[j + 1],
            #[trigger] results[j],
        )
}

/// Broadcasting a value twice stores it once: the second delivery changes
/// nothing, is still acknowledged, and gossips nothing.
pub proof fn lemma_broadcast_idempotent(
    n0: NodeView,
    msg: Message,
    n1: NodeView,
    r1: Result<Outcome, HandleError>,
    n2: NodeView,
    r2: Result<Outcome, HandleError>,
    v: u64,
)
    requires
        is_broadcast_of(msg, v),
        dispatched(n0, msg, n1, r1),
        dispatched(n1, msg, n2, r2),
    ensures
        n1.values == n0.values.insert(v),
        n2 == n1,
        r2 == Ok::<Outcome, HandleError>(
            Outcome { reply: Some(answer(n0.id, msg, Type::BroadcastOk, Fields::Empty)), gossip: None },
        ),
{
    assert(n1.values.insert(v) =~= n1.values);
}

/// The values of a node after broadcasts of `vals`, one per step from an
/// empty store, are exactly the distinct members of `vals`.
proof fn lemma_values_after_broadcasts(
    states: Seq<NodeView>,
    msgs: Seq<Message>,
    results: Seq<Result<Outcome, HandleError>>,
    vals: Seq<u64>,
    i: int,
)
    requires
        broadcast_run(states, msgs, results, vals),
        0 <= i <= vals.len(),
    ensures
        states[i].values == vals.take(i).to_set(),
    decreases i,
{
    if i == 0 {
        assert(vals.take(0) =~= Seq::<u64>::empty());
        assert(vals.take(0).to_set() =~= Set::<u64>::empty());
    } else {
        lemma_values_after_broadcasts(states, msgs, results, vals, i - 1);
        let r = results[i - 1];
        assert(dispatched(states[i - 1], msgs[i - 1], states[i], r));
        assert(vals.take(i) =~= vals.take(i - 1).push(vals[i - 1]));
        vals.take(i - 1).lemma_push_to_set_commute(vals[i - 1]);
    }
}

/// After any sequence of broadcasts to a node that had seen nothing, a read
/// lists exactly the distinct values broadcast, each once.
pub proof fn lemma_read_reflects_broadcasts(
    states: Seq<NodeView>,
    msgs: Seq<Message>,
    results: Seq<Result<Outcome, HandleError>>,
    vals: Seq<u64>,
    read: Message,
    post: NodeView,
    r: Result<Outcome, HandleError>,
)
    requires
        broadcast_run(states, msgs, results, vals),
        read.body.msg_type == Type::Read,
        dispatched(states.last(), read, post, r),
    ensures
        read_reply_lists(r, vals.to_set()),
{
    lemma_values_after_broadcasts(states, msgs, results, vals, vals.len() as int);
    assert(vals.take(vals.len() as int) =~= vals);
}

/// Every reply goes back to the request's sender, from this node, and names
/// the request's identifier.
pub proof fn lemma_reply_correlation(
    pre: NodeView,
    msg: Message,
    post: NodeView,
    o: Outcome,
)
    requires
        dispatched(pre, msg, post, Ok(o)),
        o.reply is Some,
    ensures
        o.reply->Some_0.src == pre.id,
        o.reply->Some_0.dest == msg.src,
        o.reply->Some_0.body.in_reply_to == msg.body.id,
{
}

/// The handshake reply also goes back to the sender, from the identifier it
/// assigns, and names the request's identifier.
pub proof fn lemma_init_reply_correlation(
    msg: Message,
    r: Result<(String, Vec<String>, Message), HandleError>,
)
    requires
        init_accepted(msg, r),
        r is Ok,
    ensures
        r->Ok_0.2.src == r->Ok_0.0,
        r->Ok_0.2.dest == msg.src,
        r->Ok_0.2.body.in_reply_to == msg.body.id,
{
}

/// A value seen for the first time is acknowledged and then forwarded to at
/// most `fanout` distinct peers, never to the node itself; a value already
/// seen is only acknowledged.
pub proof fn lemma_gossip_on_first_insertion(
    pre: NodeView,
    msg: Message,
    post: NodeView,
    out: Vec<Message>,
    v: u64,
)
    requires
        is_broadcast_of(msg, v),
        handled(pre, msg, post, Ok(out)),
    ensures
        out@.len() >= 1,
        out@[0] == answer(pre.id, msg, Type::BroadcastOk, Fields::Empty),
        pre.values.contains(v) ==> out@.len() == 1,
        !pre.values.contains(v) ==> {
            &&& out@.len() <= 1 + pre.fanout
            &&& forall|i: int| 1 <= i < out@.len() ==> #[trigger] out@[i] == forward(pre.id, out@[i].dest, v)
            &&& forall|i: int| 1 <= i < out@.len() ==> (#[trigger] out@[i]).dest@ != pre.id@
                && ids_view(pre.roster).contains(out@[i].dest@)
            &&& forall|i: int, j: int| 1 <= i < j < out@.len() ==> (#[trigger] out@[i]).dest@ != (
            #[trigger] out@[j]).dest@
        },
{
    let o = choose|o: Outcome| #[trigger] dispatched(pre, msg, post, Ok(o)) && emitted(pre, o, out@);
    assert(out@.take(1)[0] == out@[0]);
    if !pre.values.contains(v) {
        let g = out@.skip(1);
        let d = g.map_values(|m: Message| m.dest);
        assert(gossip_round(pre.id, pre.roster, pre.fanout as nat, v, g));
        assert(valid_targets(ids_view(pre.roster), pre.id@, ids_view(d), pre.fanout as nat));
        assert forall|i: int| 1 <= i < out@.len() implies #[trigger] out@[i] == forward(
            pre.id,
            out@[i].dest,
            v,
        ) by {
            assert(g[i - 1] == out@[i]);
        }
        assert forall|i: int| 1 <= i < out@.len() implies (#[trigger] out@[i]).dest@ != pre.id@
            && ids_view(pre.roster).contains(out@[i].dest@) by {
            assert(g[i - 1] == out@[i]);
            assert(ids_view(d)[i - 1] == out@[i].dest@);
        }
        assert forall|i: int, j: int| 1 <= i < j < out@.len() implies (#[trigger] out@[i]).dest@ != (
        #[trigger] out@[j]).dest@ by {
            assert(g[i - 1] == out@[i]);
            assert(g[j - 1] == out@[j]);
            assert(ids_view(d)[i - 1] == out@[i].dest@);
            assert(ids_view(d)[j - 1] == out@[j].dest@);
        }
    }
}

/// Any neighbour mapping is accepted and answered with a bare `topology_ok`.
pub proof fn lemma_topology_accepted(
    pre: NodeView,
    msg: Message,
    post: NodeView,
    r: Result<Outcome, HandleError>,
)
    requires
        msg.body.msg_type == Type::Topology,
        msg.body.fields is Topology,
        dispatched(pre, msg, post, r),
    ensures
        r == Ok::<Outcome, HandleError>(
            Outcome { reply: Some(answer(pre.id, msg, Type::TopologyOk, Fields::Empty)), gossip: None },
        ),
{
}

/// A node alone in its roster forwards nothing.
pub proof fn lemma_lone_node_gossips_nothing(
    me: String,
    roster: Seq<String>,
    k: nat,
    v: u64,
    out: Seq<Message>,
)
    requires
        roster.len() == 1,
        roster[0]@ == me@,
        gossip_round(me, roster, k, v, out),
    ensures
        out.len() == 0,
{
    if out.len() > 0 {
        let d = ids_view(out.map_values(|m: Message| m.dest));
        assert(d[0] != me@);
        assert(ids_view(roster) =~= seq![me@]);
        assert(ids_view(roster).contains(d[0]));
    }
}

/// A read before any broadcast lists no value.
pub proof fn lemma_read_before_broadcast(
    pre: NodeView,
    msg: Message,
    post: NodeView,
    r: Result<Outcome, HandleError>,
)
    requires
        pre.values == Set::<u64>::empty(),
        msg.body.msg_type == Type::Read,
        dispatched(pre, msg, post, r),
    ensures
        read_reply_lists(r, Set::empty()),
        r->Ok_0.reply->Some_0.body.fields == Fields::Messages(
            r->Ok_0.reply->Some_0.body.fields->Messages_0,
        ),
        r->Ok_0.reply->Some_0.body.fields->Messages_0@.len() == 0,
{
    let vs = r->Ok_0.reply->Some_0.body.fields->Messages_0@;
    if vs.len() > 0 {
        assert(vs.to_set().contains(vs[0]));
    }
}

} // verus!

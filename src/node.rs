//! A node's state and the dispatcher that handles one inbound message.
use crate::gossip::{forward, forward_all, gossip_round, ids_view, pick_targets, selected};
use crate::message::{answer, reply, Body, Fields, HandleError, Message, Topology, Type};
use crate::store::{lists_exactly, Store};
use vstd::prelude::*;

verus! {

/// A node: its identifier, the roster (itself included), the values it has
/// seen, the last neighbour mapping it was given, and its gossip fanout.
pub struct Node {
    id: String,
    node_ids: Vec<String>,
    store: Store,
    topology: Option<Topology>,
    k: u8,
}

/// The abstract state of a node.
pub struct NodeView {
    pub id: String,
    pub roster: Seq<String>,
    pub values: Set<u64>,
    pub topology: Option<Topology>,
    pub fanout: u8,
}

impl View for Node {
    type V = NodeView;

    closed spec fn view(&self) -> NodeView {
        NodeView {
            id: self.id,
            roster: self.node_ids@,
            values: self.store@,
            topology: self.topology,
            fanout: self.k,
        }
    }
}

/// What handling one message decides: the reply to send, if any, and the
/// value to gossip, if one was newly learned.
pub struct Outcome {
    pub reply: Option<Message>,
    pub gossip: Option<u64>,
}

/// How a node in state `pre` handles `msg`: its next state `post` and the
/// decision `r`.
pub open spec fn dispatched(
    pre: NodeView,
    msg: Message,
    post: NodeView,
    r: Result<Outcome, HandleError>,
) -> bool {
    match msg.body.msg_type {
        Type::Broadcast => match msg.body.fields {
            Fields::Message(v) => {
                &&& post == NodeView { values: pre.values.insert(v), ..pre }
                &&& r == Ok::<Outcome, HandleError>(
                    Outcome {
                        reply: Some(answer(pre.id, msg, Type::BroadcastOk, Fields::Empty)),
                        gossip: if pre.values.contains(v) {
                            None
                        } else {
                            Some(v)
                        },
                    },
                )
            },
            _ => post == pre && r == Err::<Outcome, HandleError>(HandleError::MalformedBody),
        },
        Type::Read => {
            &&& post == pre
            &&& match r {
                Ok(Outcome { reply: Some(m), gossip: None }) => match m.body.fields {
                    Fields::Messages(vs) => {
                        &&& m == answer(pre.id, msg, Type::ReadOk, Fields::Messages(vs))
                        &&& lists_exactly(vs@, pre.values)
                    },
                    _ => false,
                },
                _ => false,
            }
        },
        Type::Topology => match msg.body.fields {
            Fields::Topology(t) => {
                &&& post == NodeView { topology: Some(t), ..pre }
                &&& r == Ok::<Outcome, HandleError>(
                    Outcome {
                        reply: Some(answer(pre.id, msg, Type::TopologyOk, Fields::Empty)),
                        gossip: None,
                    },
                )
            },
            _ => post == pre && r == Err::<Outcome, HandleError>(HandleError::MalformedBody),
        },
        Type::BroadcastOk => post == pre && r == Ok::<Outcome, HandleError>(
            Outcome { reply: None, gossip: None },
        ),
        _ => post == pre && r == Err::<Outcome, HandleError>(HandleError::UnexpectedType),
    }
}

/// The messages `out` that carry decision `o` of a node in state `pre`: the
/// reply first, if any, then one gossip round for a newly learned value.
pub open spec fn emitted(pre: NodeView, o: Outcome, out: Seq<Message>) -> bool {
    let head: Seq<Message> = match o.reply {
        Some(m) => seq![m],
        None => Seq::empty(),
    };
    &&& head.len() <= out.len()
    &&& out.take(head.len() as int) == head
    &&& match o.gossip {
        Some(v) => gossip_round(pre.id, pre.roster, pre.fanout as nat, v, out.skip(head.len() as int)),
        None => out.len() == head.len(),
    }
}

/// How a node in state `pre` handles `msg` end to end: the next state
/// `post` and the messages to send, or the error.
pub open spec fn handled(
    pre: NodeView,
    msg: Message,
    post: NodeView,
    r: Result<Vec<Message>, HandleError>,
) -> bool {
    match r {
        Err(e) => dispatched(pre, msg, post, Err(e)),
        Ok(out) => exists|o: Outcome|
            #[trigger] dispatched(pre, msg, post, Ok(o)) && emitted(pre, o, out@),
    }
}

impl Node {
    /// A node with identifier `id`, roster `node_ids` and fanout `k`, which
    /// has seen no value and has no neighbour mapping.
    pub fn new(id: String, node_ids: Vec<String>, k: u8) -> (r: Node)
        ensures
            r@ == (NodeView {
                id,
                roster: node_ids@,
                values: Set::empty(),
                topology: None,
                fanout: k,
            }),
    {
        Node { id, node_ids, store: Store::new(), topology: None, k }
    }

    /// Applies `msg` to the state and decides the reply and what to gossip.
    pub fn dispatch(&mut self, msg: Message) -> (r: Result<Outcome, HandleError>)
        ensures
            dispatched(old(self)@, msg, final(self)@, r),
    {
        let Message { src, dest, body } = msg;
        let Body { msg_type, id, in_reply_to, fields } = body;
        match msg_type {
            Type::Broadcast => match fields {
                Fields::Message(v) => {
                    let added = self.store.insert(v);
                    let ok = Message {
                        src,
                        dest,
                        body: Body { msg_type: Type::BroadcastOk, id, in_reply_to, fields: Fields::Empty },
                    };
                    let rep = reply(self.id.clone(), ok);
                    Ok(Outcome { reply: Some(rep), gossip: if added { Some(v) } else { None } })
                },
                _ => Err(HandleError::MalformedBody),
            },
            Type::Read => {
                let vs = self.store.snapshot();
                let ok = Message {
                    src,
                    dest,
                    body: Body { msg_type: Type::ReadOk, id, in_reply_to, fields: Fields::Messages(vs) },
                };
                let rep = reply(self.id.clone(), ok);
                Ok(Outcome { reply: Some(rep), gossip: None })
            },
            Type::Topology => match fields {
                Fields::Topology(t) => {
                    self.topology = Some(t);
                    let ok = Message {
                        src,
                        dest,
                        body: Body { msg_type: Type::TopologyOk, id, in_reply_to, fields: Fields::Empty },
                    };
                    let rep = reply(self.id.clone(), ok);
                    Ok(Outcome { reply: Some(rep), gossip: None })
                },
                _ => Err(HandleError::MalformedBody),
            },
            Type::BroadcastOk => Ok(Outcome { reply: None, gossip: None }),
            _ => Err(HandleError::UnexpectedType),
        }
    }

    /// One gossip round for `value`: forwards to randomly chosen peers.
    pub fn gossip(&self, value: u64) -> (r: Vec<Message>)
        ensures
            gossip_round(self@.id, self@.roster, self@.fanout as nat, value, r@),
    {
        let targets = pick_targets(&self.node_ids, &self.id, self.k);
        let ghost t = targets@;
        let r = forward_all(&self.id, targets, value);
        proof {
            assert(ids_view(r@.map_values(|m: Message| m.dest)) =~= ids_view(t));
            let draws = choose|draws: Seq<usize>|
                draws.len() == self.k && ids_view(t) == #[trigger] selected(
                    ids_view(self.node_ids@),
                    self.id@,
                    draws,
                );
            assert(selected(ids_view(self@.roster), self@.id@, draws) == ids_view(
                r@.map_values(|m: Message| m.dest),
            ));
            assert forall|i: int| 0 <= i < r@.len() implies #[trigger] r@[i] == forward(
                self.id,
                r@[i].dest,
                value,
            ) by {
                assert(r@[i] == forward(self.id, t[i], value));
            }
        }
        r
    }

    /// Handles `msg`: updates the state and returns the messages to send,
    /// the reply first and then any gossip.
    pub fn handle_msg(&mut self, msg: Message) -> (r: Result<Vec<Message>, HandleError>)
        ensures
            handled(old(self)@, msg, final(self)@, r),
    {
        let ghost pre = self@;
        let o = self.dispatch(msg)?;
        let mut out: Vec<Message> = Vec::new();
        let ghost og = o;
        let ghost head: Seq<Message> = if og.reply is Some {
            seq![og.reply->Some_0]
        } else {
            Seq::empty()
        };
        let Outcome { reply: rep, gossip } = o;
        match rep {
            Some(m) => out.push(m),
            None => {},
        }
        assert(out@ =~= head);
        match gossip {
            Some(v) => {
                let g = self.gossip(v);
                let ghost gs = g@;
                let mut g = g;
                out.append(&mut g);
                assert(out@.take(head.len() as int) =~= head);
                assert(out@.skip(head.len() as int) =~= gs);
            },
            None => {
                assert(out@.take(head.len() as int) =~= head);
            },
        }
        assert(dispatched(pre, msg, self@, Ok(og)) && emitted(pre, og, out@));
        Ok(out)
    }
}

} // verus!

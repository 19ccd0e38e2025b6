//! The message envelope, with the body's extra fields as one shape per kind.
use vstd::prelude::*;

verus! {

/// The kind of a message body.
#[derive(Clone, Copy, Debug, PartialEq, Eq, Structural)]
pub enum Type {
    Init,
    InitOk,
    Broadcast,
    BroadcastOk,
    Read,
    ReadOk,
    Topology,
    TopologyOk,
}

/// A node's configured neighbours: node identifier and its neighbour list.
pub type Topology = Vec<(String, Vec<String>)>;

/// The body's type-specific fields.
#[derive(Clone, Debug, PartialEq, Eq)]
pub enum Fields {
    /// No extra fields.
    Empty,
    /// `node_id` and `node_ids` of the handshake.
    Init { node_id: String, node_ids: Vec<String> },
    /// `message`: the value of a broadcast.
    Message(u64),
    /// `messages`: the values listed by a read reply.
    Messages(Vec<u64>),
    /// `topology`: the neighbour mapping.
    Topology(Topology),
}

/// A message body: kind, correlation identifiers and extra fields.
#[derive(Clone, Debug, PartialEq, Eq)]
pub struct Body {
    pub msg_type: Type,
    pub id: Option<u32>,
    pub in_reply_to: Option<u32>,
    pub fields: Fields,
}

/// A routed message.
#[derive(Clone, Debug, PartialEq, Eq)]
pub struct Message {
    pub src: String,
    pub dest: String,
    pub body: Body,
}

/// Why an inbound message could not be handled.
#[derive(Clone, Copy, Debug, PartialEq, Eq, Structural)]
pub enum HandleError {
    /// A field the message kind requires is missing or has the wrong shape.
    MalformedBody,
    /// A kind that a running node never receives.
    UnexpectedType,
}

/// The reply that `me` sends to `req`: routed back to the sender, correlated
/// with the request's identifier, and carrying no identifier of its own.
pub open spec fn answer(me: String, req: Message, t: Type, fields: Fields) -> Message {
    Message {
        src: me,
        dest: req.src,
        body: Body { msg_type: t, id: None, in_reply_to: req.body.id, fields },
    }
}

/// Turns `msg`, whose kind and fields already are those of the reply, into
/// the reply that node `src` sends back to its sender.
pub fn reply(src: String, msg: Message) -> (r: Message)
    ensures
        r == answer(src, msg, msg.body.msg_type, msg.body.fields),
{
    let Message { src: from, dest: _, body } = msg;
    Message {
        src,
        dest: from,
        body: Body { msg_type: body.msg_type, id: None, in_reply_to: body.id, fields: body.fields },
    }
}

/// The handshake's result: this node's identifier, the roster, and the
/// `init_ok` reply to send.
pub open spec fn init_accepted(msg: Message, r: Result<(String, Vec<String>, Message), HandleError>) -> bool {
    match msg.body.msg_type {
        Type::Init => match msg.body.fields {
            Fields::Init { node_id, node_ids } => r == Ok::<_, HandleError>(
                (node_id, node_ids, answer(node_id, msg, Type::InitOk, Fields::Empty)),
            ),
            _ => r == Err::<(String, Vec<String>, Message), _>(HandleError::MalformedBody),
        },
        _ => r == Err::<(String, Vec<String>, Message), _>(HandleError::UnexpectedType),
    }
}

/// Reads the handshake message that assigns this node its identifier and
/// roster, and builds its `init_ok` reply.
pub fn accept_init(msg: Message) -> (r: Result<(String, Vec<String>, Message), HandleError>)
    ensures
        init_accepted(msg, r),
{
    if msg.body.msg_type != Type::Init {
        return Err(HandleError::UnexpectedType);
    }
    match msg.body.fields {
        Fields::Init { node_id, node_ids } => {
            let me = node_id.clone();
            let ok = Message {
                src: node_id.clone(),
                dest: msg.src,
                body: Body {
                    msg_type: Type::InitOk,
                    id: None,
                    in_reply_to: msg.body.id,
                    fields: Fields::Empty,
                },
            };
            Ok((me, node_ids, ok))
        },
        _ => Err(HandleError::MalformedBody),
    }
}

} // verus!

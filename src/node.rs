use vstd::prelude::*;

use crate::message::{Message, MessageView, Payload, PayloadView, reply_view, copy_strings, strings_view};

verus! {

/// The fatal failures of a node.
#[derive(Debug, PartialEq, Eq, Structural)]
pub enum NodeError {
    /// A line is not valid JSON, or the envelope or body has the wrong shape.
    MalformedMessage,
    /// The first message is not `init`, or no message came at all.
    ProtocolViolation,
}

/// A node's identity, established once from the handshake.
#[derive(Debug)]
pub struct Node {
    pub node_id: String,
    pub node_ids: Vec<String>,
}

pub struct NodeView {
    pub node_id: Seq<char>,
    pub node_ids: Seq<Seq<char>>,
}

impl View for Node {
    type V = NodeView;

    open spec fn view(&self) -> NodeView {
        NodeView { node_id: self.node_id@, node_ids: strings_view(self.node_ids@) }
    }
}

/// The identity that an `init` message establishes; `None` for any other payload.
pub open spec fn identity_of(m: MessageView) -> Option<NodeView> {
    match m.body.payload {
        PayloadView::Init { node_id, node_ids } => Some(NodeView { node_id, node_ids }),
        _ => None,
    }
}

/// The placeholder identifier that this node puts on every reply.
pub open spec fn reply_id() -> Option<usize> {
    Some(0usize)
}

/// The handshake acknowledgment for `m`.
pub open spec fn init_ok_of(m: MessageView) -> MessageView {
    reply_view(m, reply_id(), PayloadView::InitOk)
}

/// What the dispatcher answers to `m`: an `echo_ok` carrying the same text for
/// an `echo`, nothing for any other payload (a second `init` included).
pub open spec fn response(m: MessageView) -> Option<MessageView> {
    match m.body.payload {
        PayloadView::Echo { echo } => Some(reply_view(m, reply_id(), PayloadView::EchoOk { echo })),
        _ => None,
    }
}

impl Node {
    /// Builds the identity from the handshake message; any other payload is a
    /// protocol violation.
    pub fn new(msg: &Message<Payload>) -> (r: Result<Node, NodeError>)
        ensures
            identity_of(msg@) is None ==> r == Err::<Node, NodeError>(NodeError::ProtocolViolation),
            identity_of(msg@) is Some ==> r is Ok && r->Ok_0@ == identity_of(msg@)->Some_0,
    {
        match &msg.body.payload {
            Payload::Init { node_id, node_ids } => Ok(
                Node { node_id: node_id.clone(), node_ids: copy_strings(node_ids) },
            ),
            _ => Err(NodeError::ProtocolViolation),
        }
    }

    /// Maps one inbound message to at most one reply.
    pub fn dispatch(&self, msg: &Message<Payload>) -> (r: Option<Message<Payload>>)
        ensures
            r is None <==> response(msg@) is None,
            r is Some ==> r->Some_0@ == response(msg@)->Some_0,
    {
        match &msg.body.payload {
            Payload::Echo { echo } => Some(
                msg.reply_with(Some(0), Payload::EchoOk { echo: echo.clone() }),
            ),
            _ => None,
        }
    }
}

} // verus!

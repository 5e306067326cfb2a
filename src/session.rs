use vstd::prelude::*;

use crate::codec::{decode, encode, envelope_of};
use crate::json::{Json, json_text, parsed_json};
use crate::message::{Message, MessageView, Payload, PayloadView, messages_view};
use crate::node::{Node, NodeError, NodeView, identity_of, init_ok_of, response};

verus! {

/// The node's protocol state: waiting for the handshake, then ready for good.
#[derive(Debug)]
pub enum Session {
    AwaitingInit,
    Ready(Node),
}

impl View for Session {
    type V = Option<NodeView>;

    open spec fn view(&self) -> Option<NodeView> {
        match self {
            Session::AwaitingInit => None,
            Session::Ready(n) => Some(n@),
        }
    }
}

/// One transition: the next state and the reply to emit, or a fatal error.
/// Before the handshake only `init` is accepted, and it is answered with
/// `init_ok`; afterwards every message goes to the dispatcher.
pub open spec fn step_spec(s: Option<NodeView>, m: MessageView) -> Result<
    (Option<NodeView>, Option<MessageView>),
    NodeError,
> {
    match s {
        None => match identity_of(m) {
            Some(n) => Ok((Some(n), Some(init_ok_of(m)))),
            None => Err(NodeError::ProtocolViolation),
        },
        Some(n) => Ok((Some(n), response(m))),
    }
}

pub open spec fn reply_view_of(r: Option<Message<Payload>>) -> Option<MessageView> {
    match r {
        Some(m) => Some(m@),
        None => None,
    }
}

/// The replies that the dispatcher gives to `s`, in the order of the requests.
pub open spec fn replies(s: Seq<MessageView>) -> Seq<MessageView>
    decreases s.len(),
{
    if s.len() == 0 {
        Seq::empty()
    } else {
        replies(s.drop_last()) + match response(s.last()) {
            Some(r) => seq![r],
            None => Seq::empty(),
        }
    }
}

/// Everything a node writes for the input stream `s`: the handshake
/// acknowledgment, then the replies to the rest; `None` when the stream does
/// not open with `init`.
pub open spec fn transcript(s: Seq<MessageView>) -> Option<Seq<MessageView>> {
    if s.len() == 0 || identity_of(s[0]) is None {
        None
    } else {
        Some(seq![init_ok_of(s[0])] + replies(s.drop_first()))
    }
}

impl Session {
    pub fn new() -> (r: Session)
        ensures
            r@ is None,
    {
        Session::AwaitingInit
    }

    /// Handles one inbound message.
    pub fn step(&mut self, msg: &Message<Payload>) -> (r: Result<Option<Message<Payload>>, NodeError>)
        ensures
            match step_spec(old(self)@, msg@) {
                Err(e) => r == Err::<Option<Message<Payload>>, NodeError>(e) && final(self)@ == old(self)@,
                Ok((s, o)) => r is Ok && final(self)@ == s && reply_view_of(r->Ok_0) == o,
            },
    {
        match self {
            Session::AwaitingInit => {
                match Node::new(msg) {
                    Ok(n) => {
                        *self = Session::Ready(n);
                        Ok(Some(msg.reply_with(Some(0), Payload::InitOk)))
                    },
                    Err(e) => Err(e),
                }
            },
            Session::Ready(n) => Ok(n.dispatch(msg)),
        }
    }
}

/// The envelope that an input line holds, or `None` when the line is malformed.
pub open spec fn decoded(line: Seq<char>) -> Option<MessageView> {
    match parsed_json(line) {
        Some(j) => envelope_of(j),
        None => None,
    }
}

/// `text` is one JSON line that serde_json writes for a document of `m`.
pub open spec fn is_encoding_of(text: Seq<char>, m: MessageView) -> bool {
    &&& exists|j: Json| envelope_of(j) == Some(m) && text == json_text(j)
    &&& !text.contains('\n')
}

impl Session {
    /// Handles one input line: decodes it, takes the transition, and encodes
    /// the reply, if any. A malformed line or a refused handshake is an error
    /// and leaves the state as it was.
    pub fn handle_line(&mut self, line: &str) -> (r: Result<Option<String>, NodeError>)
        ensures
            decoded(line@) is None ==> r == Err::<Option<String>, NodeError>(NodeError::MalformedMessage)
                && final(self)@ == old(self)@,
            decoded(line@) is Some ==> match step_spec(old(self)@, decoded(line@)->Some_0) {
                Err(e) => r == Err::<Option<String>, NodeError>(e) && final(self)@ == old(self)@,
                Ok((s, o)) => final(self)@ == s && r is Ok && (r->Ok_0 is None <==> o is None) && (
                o is Some ==> is_encoding_of(r->Ok_0->Some_0@, o->Some_0)),
            },
    {
        let msg = match decode(line) {
            Ok(m) => m,
            Err(e) => return Err(e),
        };
        match self.step(&msg) {
            Ok(Some(reply)) => Ok(Some(encode(&reply))),
            Ok(None) => Ok(None),
            Err(e) => Err(e),
        }
    }
}

/// Runs a whole input stream through a fresh session and collects the output.
pub fn run(msgs: &Vec<Message<Payload>>) -> (r: Result<Vec<Message<Payload>>, NodeError>)
    ensures
        transcript(messages_view(msgs@)) is None ==> r == Err::<Vec<Message<Payload>>, NodeError>(
            NodeError::ProtocolViolation,
        ),
        transcript(messages_view(msgs@)) is Some ==> r is Ok && messages_view(r->Ok_0@)
            == transcript(messages_view(msgs@))->Some_0,
{
    let ghost ms = messages_view(msgs@);
    if msgs.len() == 0 {
        return Err(NodeError::ProtocolViolation);
    }
    let mut session = Session::new();
    let mut out: Vec<Message<Payload>> = Vec::new();
    match session.step(&msgs[0]) {
        Ok(Some(m)) => out.push(m),
        Ok(None) => {},
        Err(e) => return Err(e),
    }
    assert(messages_view(out@) =~= seq![init_ok_of(ms[0])]);
    let mut i: usize = 1;
    while i < msgs.len()
        invariant
            1 <= i <= msgs@.len(),
            ms == messages_view(msgs@),
            identity_of(ms[0]) is Some,
            session@ is Some,
            messages_view(out@) == seq![init_ok_of(ms[0])] + replies(ms.subrange(1, i as int)),
        decreases msgs@.len() - i,
    {
        let ghost before = messages_view(out@);
        assert(ms.subrange(1, i + 1).drop_last() =~= ms.subrange(1, i as int));
        assert(ms.subrange(1, i + 1).last() == ms[i as int]);
        match session.step(&msgs[i]) {
            Ok(Some(m)) => {
                out.push(m);
                assert(messages_view(out@) =~= before + seq![response(ms[i as int])->Some_0]);
            },
            Ok(None) => {},
            Err(e) => return Err(e),
        }
        i = i + 1;
        assert(messages_view(out@) =~= seq![init_ok_of(ms[0])] + replies(ms.subrange(1, i as int)));
    }
    assert(ms.subrange(1, ms.len() as int) =~= ms.drop_first());
    Ok(out)
}

/// Every reply of the dispatcher is an `echo_ok`.
proof fn lemma_replies_are_echo_ok(s: Seq<MessageView>)
    ensures
        forall|i: int| 0 <= i < replies(s).len() ==> (#[trigger] replies(s)[i]).body.payload is EchoOk,
    decreases s.len(),
{
    if s.len() > 0 {
        lemma_replies_are_echo_ok(s.drop_last());
    }
}

/// An `echo` is answered with an `echo_ok` that carries the same text, goes
/// back to the sender and names the request's `msg_id` in `in_reply_to`.
pub proof fn lemma_echo_is_echoed(m: MessageView)
    requires
        m.body.payload is Echo,
    ensures
        response(m) is Some,
        response(m)->Some_0.body.payload == (PayloadView::EchoOk { echo: m.body.payload->Echo_echo }),
        response(m)->Some_0.body.in_reply_to == m.body.msg_id,
        response(m)->Some_0.src == m.dest,
        response(m)->Some_0.dest == m.src,
{
}

/// The first line written is `init_ok`, and no later line is.
pub proof fn lemma_init_ok_exactly_once(s: Seq<MessageView>)
    requires
        transcript(s) is Some,
    ensures
        transcript(s)->Some_0.len() >= 1,
        transcript(s)->Some_0[0] == init_ok_of(s[0]),
        transcript(s)->Some_0[0].body.payload is InitOk,
        forall|i: int|
            1 <= i < transcript(s)->Some_0.len() ==> !((#[trigger] transcript(s)->Some_0[i]).body.payload is InitOk),
{
    let t = transcript(s)->Some_0;
    let rs = replies(s.drop_first());
    lemma_replies_are_echo_ok(s.drop_first());
    assert forall|i: int| 1 <= i < t.len() implies !((#[trigger] t[i]).body.payload is InitOk) by {
        assert(t[i] == rs[i - 1]);
    }
}

/// Replies keep the order of their requests: the replies to a stream read in
/// two parts are the replies to the first part followed by those to the second.
pub proof fn lemma_replies_in_order(a: Seq<MessageView>, b: Seq<MessageView>)
    ensures
        replies(a + b) == replies(a) + replies(b),
    decreases b.len(),
{
    if b.len() == 0 {
        assert(a + b =~= a);
        assert(replies(a) + replies(b) =~= replies(a));
    } else {
        lemma_replies_in_order(a, b.drop_last());
        assert((a + b).drop_last() =~= a + b.drop_last());
        assert((a + b).last() == b.last());
        assert(replies(a + b) =~= replies(a) + replies(b));
    }
}

/// A message that the dispatcher does not recognise adds no reply and takes
/// none away from the messages around it.
pub proof fn lemma_unrecognized_is_skipped(a: Seq<MessageView>, m: MessageView, b: Seq<MessageView>)
    requires
        response(m) is None,
    ensures
        replies(a + seq![m] + b) == replies(a + b),
{
    lemma_replies_in_order(a + seq![m], b);
    lemma_replies_in_order(a, b);
    assert((a + seq![m]).drop_last() =~= a);
    assert(replies(a + seq![m]) =~= replies(a));
}

} // verus!

use vstd::prelude::*;

verus! {

/// The closed set of payload kinds; the wire tag is the snake-case variant name.
#[derive(Debug)]
pub enum Payload {
    Init { node_id: String, node_ids: Vec<String> },
    InitOk,
    Echo { echo: String },
    EchoOk { echo: String },
}

/// Mathematical model of a payload.
pub enum PayloadView {
    Init { node_id: Seq<char>, node_ids: Seq<Seq<char>> },
    InitOk,
    Echo { echo: Seq<char> },
    EchoOk { echo: Seq<char> },
}

pub open spec fn strings_view(v: Seq<String>) -> Seq<Seq<char>> {
    v.map_values(|s: String| s@)
}

impl View for Payload {
    type V = PayloadView;

    open spec fn view(&self) -> PayloadView {
        match self {
            Payload::Init { node_id, node_ids } => PayloadView::Init {
                node_id: node_id@,
                node_ids: strings_view(node_ids@),
            },
            Payload::InitOk => PayloadView::InitOk,
            Payload::Echo { echo } => PayloadView::Echo { echo: echo@ },
            Payload::EchoOk { echo } => PayloadView::EchoOk { echo: echo@ },
        }
    }
}

/// Copies a list of identifiers, keeping every one of them in order.
pub fn copy_strings(v: &Vec<String>) -> (r: Vec<String>)
    ensures
        strings_view(r@) == strings_view(v@),
{
    let mut r: Vec<String> = Vec::new();
    let mut i: usize = 0;
    while i < v.len()
        invariant
            i <= v@.len(),
            r@.len() == i,
            forall|j: int| 0 <= j < i ==> #[trigger] r@[j]@ == v@[j]@,
        decreases v@.len() - i,
    {
        r.push(v[i].clone());
        i = i + 1;
    }
    assert(strings_view(r@) =~= strings_view(v@));
    r
}

impl Payload {
    /// A copy of this payload with the same model.
    pub fn copy(&self) -> (r: Payload)
        ensures
            r@ == self@,
    {
        match self {
            Payload::Init { node_id, node_ids } => Payload::Init {
                node_id: node_id.clone(),
                node_ids: copy_strings(node_ids),
            },
            Payload::InitOk => Payload::InitOk,
            Payload::Echo { echo } => Payload::Echo { echo: echo.clone() },
            Payload::EchoOk { echo } => Payload::EchoOk { echo: echo.clone() },
        }
    }
}

/// Correlation identifiers and the payload of a message.
#[derive(Debug)]
pub struct Body<P> {
    /// A unique integer identifier within the sender's stream.
    pub msg_id: Option<usize>,
    /// For a reply, the `msg_id` of the request it answers.
    pub in_reply_to: Option<usize>,
    pub payload: P,
}

/// One directed message: source, destination and body.
#[derive(Debug)]
pub struct Message<P> {
    pub src: String,
    pub dest: String,
    pub body: Body<P>,
}

pub struct BodyView {
    pub msg_id: Option<usize>,
    pub in_reply_to: Option<usize>,
    pub payload: PayloadView,
}

pub struct MessageView {
    pub src: Seq<char>,
    pub dest: Seq<char>,
    pub body: BodyView,
}

impl View for Message<Payload> {
    type V = MessageView;

    open spec fn view(&self) -> MessageView {
        MessageView {
            src: self.src@,
            dest: self.dest@,
            body: BodyView {
                msg_id: self.body.msg_id,
                in_reply_to: self.body.in_reply_to,
                payload: self.body.payload@,
            },
        }
    }
}

/// The models of a sequence of messages, in order.
pub open spec fn messages_view(v: Seq<Message<Payload>>) -> Seq<MessageView> {
    v.map_values(|m: Message<Payload>| m@)
}

/// The reply to `m` with identifier `id` and payload `p`: source and
/// destination swapped, `in_reply_to` taken from the message's own `msg_id`.
pub open spec fn reply_view(m: MessageView, id: Option<usize>, p: PayloadView) -> MessageView {
    MessageView {
        src: m.dest,
        dest: m.src,
        body: BodyView { msg_id: id, in_reply_to: m.body.msg_id, payload: p },
    }
}

impl Message<Payload> {
    /// A new message addressed back to this one's sender, carrying a copy of
    /// this message's payload.
    pub fn reply(&self, id: Option<usize>) -> (r: Self)
        ensures
            r@ == reply_view(self@, id, self@.body.payload),
    {
        self.reply_with(id, self.body.payload.copy())
    }

    /// A new message addressed back to this one's sender, carrying `payload`.
    pub fn reply_with(&self, id: Option<usize>, payload: Payload) -> (r: Self)
        ensures
            r@ == reply_view(self@, id, payload@),
    {
        Message {
            src: self.dest.clone(),
            dest: self.src.clone(),
            body: Body { msg_id: id, in_reply_to: self.body.msg_id, payload },
        }
    }
}

} // verus!

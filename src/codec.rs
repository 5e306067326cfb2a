use vstd::prelude::*;
use vstd::string::*;

use crate::json::{Json, json_text, parse_json, parsed_json, write_json};
use crate::message::{Body, BodyView, Message, MessageView, Payload, PayloadView};
use crate::node::NodeError;

verus! {

pub open spec fn key_src() -> Seq<char> {
    seq!['s', 'r', 'c']
}

pub open spec fn key_dest() -> Seq<char> {
    seq!['d', 'e', 's', 't']
}

pub open spec fn key_body() -> Seq<char> {
    seq!['b', 'o', 'd', 'y']
}

pub open spec fn key_type() -> Seq<char> {
    seq!['t', 'y', 'p', 'e']
}

pub open spec fn key_msg_id() -> Seq<char> {
    seq!['m', 's', 'g', '_', 'i', 'd']
}

pub open spec fn key_in_reply_to() -> Seq<char> {
    seq!['i', 'n', '_', 'r', 'e', 'p', 'l', 'y', '_', 't', 'o']
}

pub open spec fn key_node_id() -> Seq<char> {
    seq!['n', 'o', 'd', 'e', '_', 'i', 'd']
}

pub open spec fn key_node_ids() -> Seq<char> {
    seq!['n', 'o', 'd', 'e', '_', 'i', 'd', 's']
}

pub open spec fn key_echo() -> Seq<char> {
    seq!['e', 'c', 'h', 'o']
}

pub open spec fn tag_init() -> Seq<char> {
    seq!['i', 'n', 'i', 't']
}

pub open spec fn tag_init_ok() -> Seq<char> {
    seq!['i', 'n', 'i', 't', '_', 'o', 'k']
}

pub open spec fn tag_echo() -> Seq<char> {
    key_echo()
}

pub open spec fn tag_echo_ok() -> Seq<char> {
    seq!['e', 'c', 'h', 'o', '_', 'o', 'k']
}

/// The value stored under `key` in an object's members (the first one, should
/// the key repeat).
pub open spec fn field(fs: Seq<(String, Json)>, key: Seq<char>) -> Option<Json>
    decreases fs.len(),
{
    if fs.len() == 0 {
        None
    } else if fs[0].0@ == key {
        Some(fs[0].1)
    } else {
        field(fs.drop_first(), key)
    }
}

/// A member that must be a string.
pub open spec fn str_field(fs: Seq<(String, Json)>, key: Seq<char>) -> Option<Seq<char>> {
    match field(fs, key) {
        Some(Json::Str(s)) => Some(s@),
        _ => None,
    }
}

/// An optional identifier: absent or `null` is `None`; otherwise it must be a
/// non-negative integer that fits in `usize`. The outer `None` is a shape error.
pub open spec fn id_field(fs: Seq<(String, Json)>, key: Seq<char>) -> Option<Option<usize>> {
    match field(fs, key) {
        None => Some(None),
        Some(Json::Null) => Some(None),
        Some(Json::UInt(n)) => if n <= usize::MAX {
            Some(Some(n as usize))
        } else {
            None
        },
        _ => None,
    }
}

/// An array whose elements must all be strings.
pub open spec fn strings_of(a: Seq<Json>) -> Option<Seq<Seq<char>>> {
    if forall|i: int| 0 <= i < a.len() ==> (#[trigger] a[i]) is Str {
        Some(Seq::new(a.len(), |i: int| a[i]->Str_0@))
    } else {
        None
    }
}

pub open spec fn strings_field(fs: Seq<(String, Json)>, key: Seq<char>) -> Option<Seq<Seq<char>>> {
    match field(fs, key) {
        Some(Json::Array(a)) => strings_of(a@),
        _ => None,
    }
}

/// The payload that a body's members describe: the `type` member picks the
/// variant, whose own members must then be present with the right shape.
pub open spec fn payload_of(fs: Seq<(String, Json)>) -> Option<PayloadView> {
    match str_field(fs, key_type()) {
        Some(t) => if t == tag_init() {
            match (str_field(fs, key_node_id()), strings_field(fs, key_node_ids())) {
                (Some(node_id), Some(node_ids)) => Some(PayloadView::Init { node_id, node_ids }),
                _ => None,
            }
        } else if t == tag_init_ok() {
            Some(PayloadView::InitOk)
        } else if t == tag_echo() {
            match str_field(fs, key_echo()) {
                Some(echo) => Some(PayloadView::Echo { echo }),
                None => None,
            }
        } else if t == tag_echo_ok() {
            match str_field(fs, key_echo()) {
                Some(echo) => Some(PayloadView::EchoOk { echo }),
                None => None,
            }
        } else {
            None
        },
        None => None,
    }
}

pub open spec fn body_of(j: Json) -> Option<BodyView> {
    match j {
        Json::Object(fs) => match (id_field(fs@, key_msg_id()), id_field(fs@, key_in_reply_to()), payload_of(fs@)) {
            (Some(msg_id), Some(in_reply_to), Some(payload)) => Some(BodyView { msg_id, in_reply_to, payload }),
            _ => None,
        },
        _ => None,
    }
}

/// The envelope that a JSON document describes, or `None` when its shape is wrong.
/// Members that the envelope does not know are ignored.
pub open spec fn envelope_of(j: Json) -> Option<MessageView> {
    match j {
        Json::Object(fs) => match (str_field(fs@, key_src()), str_field(fs@, key_dest()), field(fs@, key_body())) {
            (Some(src), Some(dest), Some(b)) => match body_of(b) {
                Some(body) => Some(MessageView { src, dest, body }),
                None => None,
            },
            _ => None,
        },
        _ => None,
    }
}

fn find_field<'a>(fs: &'a Vec<(String, Json)>, key: &String) -> (r: Option<&'a Json>)
    ensures
        r is None <==> field(fs@, key@) is None,
        r is Some ==> field(fs@, key@) == Some(*r->Some_0),
{
    let mut i: usize = 0;
    assert(fs@.subrange(0, fs@.len() as int) =~= fs@);
    while i < fs.len()
        invariant
            i <= fs@.len(),
            field(fs@.subrange(i as int, fs@.len() as int), key@) == field(fs@, key@),
        decreases fs@.len() - i,
    {
        assert(fs@.subrange(i as int, fs@.len() as int).drop_first() =~= fs@.subrange(i + 1, fs@.len() as int));
        if fs[i].0 == *key {
            return Some(&fs[i].1);
        }
        i = i + 1;
    }
    None
}

fn get_str(fs: &Vec<(String, Json)>, key: &String) -> (r: Option<String>)
    ensures
        r is None <==> str_field(fs@, key@) is None,
        r is Some ==> str_field(fs@, key@) == Some(r->Some_0@),
{
    match find_field(fs, key) {
        Some(Json::Str(s)) => Some(s.clone()),
        _ => None,
    }
}

fn get_id(fs: &Vec<(String, Json)>, key: &String) -> (r: Option<Option<usize>>)
    ensures
        r == id_field(fs@, key@),
{
    match find_field(fs, key) {
        None => Some(None),
        Some(Json::Null) => Some(None),
        Some(Json::UInt(n)) => if (*n as u128) <= (usize::MAX as u128) {
            Some(Some(*n as usize))
        } else {
            None
        },
        _ => None,
    }
}

fn get_strings(fs: &Vec<(String, Json)>, key: &String) -> (r: Option<Vec<String>>)
    ensures
        r is None <==> strings_field(fs@, key@) is None,
        r is Some ==> strings_field(fs@, key@) == Some(r->Some_0@.map_values(|s: String| s@)),
{
    match find_field(fs, key) {
        Some(Json::Array(a)) => {
            let mut out: Vec<String> = Vec::new();
            let mut i: usize = 0;
            while i < a.len()
                invariant
                    field(fs@, key@) == Some(Json::Array(*a)),
                    i <= a@.len(),
                    out@.len() == i,
                    forall|k: int| 0 <= k < i ==> (#[trigger] a@[k]) is Str && out@[k]@ == a@[k]->Str_0@,
                decreases a@.len() - i,
            {
                match &a[i] {
                    Json::Str(s) => out.push(s.clone()),
                    _ => {
                        assert(!(a@[i as int] is Str));
                        assert(strings_of(a@) is None);
                        return None;
                    },
                }
                i = i + 1;
            }
            assert(out@.map_values(|s: String| s@) =~= Seq::new(a@.len(), |k: int| a@[k]->Str_0@));
            Some(out)
        },
        _ => None,
    }
}

fn payload_from(fs: &Vec<(String, Json)>) -> (r: Option<Payload>)
    ensures
        r is None <==> payload_of(fs@) is None,
        r is Some ==> r->Some_0@ == payload_of(fs@)->Some_0,
{
    proof {
        reveal_strlit("type");
        reveal_strlit("init");
        reveal_strlit("init_ok");
        reveal_strlit("echo");
        reveal_strlit("echo_ok");
        reveal_strlit("node_id");
        reveal_strlit("node_ids");
    }
    let k_type = String::from_str("type");
    assert(k_type@ =~= key_type());
    let k_init = String::from_str("init");
    assert(k_init@ =~= tag_init());
    let k_init_ok = String::from_str("init_ok");
    assert(k_init_ok@ =~= tag_init_ok());
    let k_echo = String::from_str("echo");
    assert(k_echo@ =~= key_echo());
    let k_echo_ok = String::from_str("echo_ok");
    assert(k_echo_ok@ =~= tag_echo_ok());
    let k_node_id = String::from_str("node_id");
    assert(k_node_id@ =~= key_node_id());
    let k_node_ids = String::from_str("node_ids");
    assert(k_node_ids@ =~= key_node_ids());
    let tag = match get_str(fs, &k_type) {
        Some(t) => t,
        None => return None,
    };
    if tag == k_init {
        match (get_str(fs, &k_node_id), get_strings(fs, &k_node_ids)) {
            (Some(node_id), Some(node_ids)) => Some(Payload::Init { node_id, node_ids }),
            _ => None,
        }
    } else if tag == k_init_ok {
        Some(Payload::InitOk)
    } else if tag == k_echo {
        match get_str(fs, &k_echo) {
            Some(echo) => Some(Payload::Echo { echo }),
            None => None,
        }
    } else if tag == k_echo_ok {
        match get_str(fs, &k_echo) {
            Some(echo) => Some(Payload::EchoOk { echo }),
            None => None,
        }
    } else {
        None
    }
}

/// Reads an envelope out of a parsed JSON document.
pub fn from_json(j: &Json) -> (r: Result<Message<Payload>, NodeError>)
    ensures
        envelope_of(*j) is None ==> r == Err::<Message<Payload>, NodeError>(NodeError::MalformedMessage),
        envelope_of(*j) is Some ==> r is Ok && r->Ok_0@ == envelope_of(*j)->Some_0,
{
    proof {
        reveal_strlit("src");
        reveal_strlit("dest");
        reveal_strlit("body");
        reveal_strlit("msg_id");
        reveal_strlit("in_reply_to");
    }
    let k_src = String::from_str("src");
    assert(k_src@ =~= key_src());
    let k_dest = String::from_str("dest");
    assert(k_dest@ =~= key_dest());
    let k_body = String::from_str("body");
    assert(k_body@ =~= key_body());
    let k_msg_id = String::from_str("msg_id");
    assert(k_msg_id@ =~= key_msg_id());
    let k_in_reply_to = String::from_str("in_reply_to");
    assert(k_in_reply_to@ =~= key_in_reply_to());
    let fs = match j {
        Json::Object(fs) => fs,
        _ => return Err(NodeError::MalformedMessage),
    };
    let src = match get_str(fs, &k_src) {
        Some(s) => s,
        None => return Err(NodeError::MalformedMessage),
    };
    let dest = match get_str(fs, &k_dest) {
        Some(s) => s,
        None => return Err(NodeError::MalformedMessage),
    };
    let bfs = match find_field(fs, &k_body) {
        Some(Json::Object(bfs)) => bfs,
        _ => return Err(NodeError::MalformedMessage),
    };
    let msg_id = match get_id(bfs, &k_msg_id) {
        Some(id) => id,
        None => return Err(NodeError::MalformedMessage),
    };
    let in_reply_to = match get_id(bfs, &k_in_reply_to) {
        Some(id) => id,
        None => return Err(NodeError::MalformedMessage),
    };
    let payload = match payload_from(bfs) {
        Some(p) => p,
        None => return Err(NodeError::MalformedMessage),
    };
    Ok(Message { src, dest, body: Body { msg_id, in_reply_to, payload } })
}

/// Decodes one input line into an envelope.
pub fn decode(line: &str) -> (r: Result<Message<Payload>, NodeError>)
    ensures
        parsed_json(line@) is None ==> r == Err::<Message<Payload>, NodeError>(NodeError::MalformedMessage),
        parsed_json(line@) is Some ==> match envelope_of(parsed_json(line@)->Some_0) {
            None => r == Err::<Message<Payload>, NodeError>(NodeError::MalformedMessage),
            Some(m) => r is Ok && r->Ok_0@ == m,
        },
{
    match parse_json(line) {
        Some(j) => from_json(&j),
        None => Err(NodeError::MalformedMessage),
    }
}

/// The wire tag of a payload variant.
pub open spec fn tag_of(p: PayloadView) -> Seq<char> {
    match p {
        PayloadView::Init { .. } => tag_init(),
        PayloadView::InitOk => tag_init_ok(),
        PayloadView::Echo { .. } => tag_echo(),
        PayloadView::EchoOk { .. } => tag_echo_ok(),
    }
}

fn id_json(id: Option<usize>) -> (r: Json)
    ensures
        r == (match id {
            None => Json::Null,
            Some(n) => Json::UInt(n as u64),
        }),
{
    match id {
        None => Json::Null,
        Some(n) => Json::UInt(n as u64),
    }
}

fn strings_json(v: &Vec<String>) -> (r: Json)
    ensures
        r is Array,
        strings_of(r->Array_0@) == Some(v@.map_values(|s: String| s@)),
{
    let mut a: Vec<Json> = Vec::new();
    let mut i: usize = 0;
    while i < v.len()
        invariant
            i <= v@.len(),
            a@.len() == i,
            forall|k: int| 0 <= k < i ==> (#[trigger] a@[k]) is Str && a@[k]->Str_0@ == v@[k]@,
        decreases v@.len() - i,
    {
        a.push(Json::Str(v[i].clone()));
        i = i + 1;
    }
    assert(Seq::new(a@.len(), |k: int| a@[k]->Str_0@) =~= v@.map_values(|s: String| s@));
    Json::Array(a)
}

proof fn lemma_keys_differ()
    ensures
        key_src() != key_dest(),
        key_src() != key_body(),
        key_dest() != key_body(),
        key_type() != key_msg_id(),
        key_type() != key_in_reply_to(),
        key_msg_id() != key_in_reply_to(),
        key_type() != key_echo(),
        key_msg_id() != key_echo(),
        key_in_reply_to() != key_echo(),
        key_type() != key_node_id(),
        key_msg_id() != key_node_id(),
        key_in_reply_to() != key_node_id(),
        key_type() != key_node_ids(),
        key_msg_id() != key_node_ids(),
        key_in_reply_to() != key_node_ids(),
        key_node_id() != key_node_ids(),
        tag_init() != tag_init_ok(),
        tag_init() != tag_echo(),
        tag_init() != tag_echo_ok(),
        tag_init_ok() != tag_echo(),
        tag_init_ok() != tag_echo_ok(),
        tag_echo() != tag_echo_ok(),
{
    assert(key_dest().len() != key_src().len());
    assert(key_body()[0] != key_dest()[0]);
    assert(key_type()[0] != key_echo()[0]);
    assert(key_msg_id()[0] != key_node_id()[0]);
    assert(tag_init_ok()[0] != tag_echo_ok()[0]);
    assert(key_node_id().len() != key_node_ids().len());
    assert(tag_init().len() != tag_init_ok().len());
    assert(tag_init().len() != tag_echo_ok().len());
    assert(tag_init()[0] != tag_echo()[0]);
    assert(tag_echo().len() != tag_echo_ok().len());
    assert(tag_init_ok().len() != tag_echo().len());
    assert(key_type().len() != key_msg_id().len());
    assert(key_type().len() != key_in_reply_to().len());
    assert(key_msg_id().len() != key_in_reply_to().len());
    assert(key_msg_id().len() != key_echo().len());
    assert(key_in_reply_to().len() != key_echo().len());
    assert(key_type().len() != key_node_id().len());
    assert(key_in_reply_to().len() != key_node_id().len());
    assert(key_type().len() != key_node_ids().len());
    assert(key_msg_id().len() != key_node_ids().len());
    assert(key_in_reply_to().len() != key_node_ids().len());
    assert(key_src().len() != key_body().len());
}

/// The JSON document of an envelope: `src`, `dest` and `body`, the body
/// holding `type`, `msg_id`, `in_reply_to` and then the variant's own members.
/// Reading it back gives the same envelope.
pub fn to_json(m: &Message<Payload>) -> (r: Json)
    ensures
        envelope_of(r) == Some(m@),
        r is Object,
        r->Object_0@.len() == 3,
        r->Object_0@[0].0@ == key_src(),
        r->Object_0@[1].0@ == key_dest(),
        r->Object_0@[2].0@ == key_body(),
{
    proof {
        lemma_keys_differ();
        reveal_with_fuel(field, 6);
        reveal_strlit("src");
        reveal_strlit("dest");
        reveal_strlit("body");
        reveal_strlit("type");
        reveal_strlit("msg_id");
        reveal_strlit("in_reply_to");
        reveal_strlit("init");
        reveal_strlit("init_ok");
        reveal_strlit("echo");
        reveal_strlit("echo_ok");
        reveal_strlit("node_id");
        reveal_strlit("node_ids");
    }
    let k_type = String::from_str("type");
    assert(k_type@ =~= key_type());
    let k_msg_id = String::from_str("msg_id");
    assert(k_msg_id@ =~= key_msg_id());
    let k_in_reply_to = String::from_str("in_reply_to");
    assert(k_in_reply_to@ =~= key_in_reply_to());
    let mut bfs: Vec<(String, Json)> = Vec::new();
    let tag = match &m.body.payload {
        Payload::Init { .. } => String::from_str("init"),
        Payload::InitOk => String::from_str("init_ok"),
        Payload::Echo { .. } => String::from_str("echo"),
        Payload::EchoOk { .. } => String::from_str("echo_ok"),
    };
    assert(tag@ =~= tag_of(m@.body.payload));
    bfs.push((k_type, Json::Str(tag)));
    bfs.push((k_msg_id, id_json(m.body.msg_id)));
    bfs.push((k_in_reply_to, id_json(m.body.in_reply_to)));
    let ghost head = bfs@;
    assert(field(head, key_type()) == Some(head[0].1));
    assert(field(head, key_msg_id()) == Some(head[1].1));
    assert(field(head, key_in_reply_to()) == Some(head[2].1));
    match &m.body.payload {
        Payload::Init { node_id, node_ids } => {
            let k_node_id = String::from_str("node_id");
            assert(k_node_id@ =~= key_node_id());
            let k_node_ids = String::from_str("node_ids");
            assert(k_node_ids@ =~= key_node_ids());
            bfs.push((k_node_id, Json::Str(node_id.clone())));
            bfs.push((k_node_ids, strings_json(node_ids)));
            assert(bfs@.drop_first().drop_first().drop_first() =~= bfs@.subrange(3, 5));
            assert(field(bfs@, key_node_id()) == Some(bfs@[3].1));
            assert(field(bfs@, key_node_ids()) == Some(bfs@[4].1));
        },
        Payload::InitOk => {},
        Payload::Echo { echo } | Payload::EchoOk { echo } => {
            let k_echo = String::from_str("echo");
            assert(k_echo@ =~= key_echo());
            bfs.push((k_echo, Json::Str(echo.clone())));
            assert(bfs@.drop_first().drop_first().drop_first() =~= bfs@.subrange(3, 4));
            assert(field(bfs@, key_echo()) == Some(bfs@[3].1));
        },
    }
    assert(field(bfs@, key_type()) == Some(head[0].1));
    assert(field(bfs@, key_msg_id()) == Some(head[1].1));
    assert(field(bfs@, key_in_reply_to()) == Some(head[2].1));
    assert(payload_of(bfs@) == Some(m@.body.payload));
    let k_src = String::from_str("src");
    assert(k_src@ =~= key_src());
    let k_dest = String::from_str("dest");
    assert(k_dest@ =~= key_dest());
    let k_body = String::from_str("body");
    assert(k_body@ =~= key_body());
    let mut fs: Vec<(String, Json)> = Vec::new();
    fs.push((k_src, Json::Str(m.src.clone())));
    fs.push((k_dest, Json::Str(m.dest.clone())));
    fs.push((k_body, Json::Object(bfs)));
    assert(field(fs@, key_src()) == Some(fs@[0].1));
    assert(field(fs@, key_dest()) == Some(fs@[1].1));
    assert(field(fs@, key_body()) == Some(fs@[2].1));
    Json::Object(fs)
}

/// Encodes an envelope as one line of JSON text, without the newline that
/// ends it on the output stream.
pub fn encode(m: &Message<Payload>) -> (r: String)
    ensures
        exists|j: Json| envelope_of(j) == Some(m@) && r@ == json_text(j),
        !r@.contains('\n'),
{
    let j = to_json(m);
    write_json(&j)
}

} // verus!

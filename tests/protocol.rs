use icebreaker::codec::{decode, encode, from_json, to_json};
use icebreaker::json::Json;
use icebreaker::message::{Body, Message, Payload};
use icebreaker::node::{Node, NodeError};
use icebreaker::session::{run, Session};

const INIT: &str = r#"{"src":"c1","dest":"n1","body":{"type":"init","msg_id":1,"node_id":"n1","node_ids":["n1"]}}"#;
const ECHO: &str = r#"{"src":"c1","dest":"n1","body":{"type":"echo","msg_id":2,"echo":"hello"}}"#;

fn as_value(text: &str) -> serde_json::Value {
    serde_json::from_str(text).expect("valid JSON")
}

fn message(src: &str, dest: &str, msg_id: Option<usize>, payload: Payload) -> Message<Payload> {
    Message {
        src: src.to_string(),
        dest: dest.to_string(),
        body: Body { msg_id, in_reply_to: None, payload },
    }
}

fn echo(msg_id: usize, text: &str) -> Message<Payload> {
    message("c1", "n1", Some(msg_id), Payload::Echo { echo: text.to_string() })
}

fn init() -> Message<Payload> {
    message(
        "c1",
        "n1",
        Some(1),
        Payload::Init { node_id: "n1".to_string(), node_ids: vec!["n1".to_string(), "n2".to_string()] },
    )
}

fn echo_line(msg_id: usize, text: &str) -> String {
    encode(&echo(msg_id, text))
}

fn ready_session() -> Session {
    let mut s = Session::new();
    s.handle_line(INIT).expect("handshake").expect("init_ok");
    s
}

#[test]
fn handshake_then_echo_scenario() {
    let mut s = Session::new();
    let first = s.handle_line(INIT).unwrap().unwrap();
    assert_eq!(
        as_value(&first),
        as_value(r#"{"src":"n1","dest":"c1","body":{"type":"init_ok","in_reply_to":1,"msg_id":0}}"#)
    );
    let second = s.handle_line(ECHO).unwrap().unwrap();
    assert_eq!(
        as_value(&second),
        as_value(r#"{"src":"n1","dest":"c1","body":{"type":"echo_ok","in_reply_to":2,"msg_id":0,"echo":"hello"}}"#)
    );
}

#[test]
fn echo_text_is_passed_through_unchanged() {
    let node = Node::new(&init()).unwrap();
    for text in ["", "hello", "line\nbreak", "quote \" and \\ slash", "ünïcödé ✓", "{\"type\":\"x\"}"] {
        let reply = node.dispatch(&echo(7, text)).expect("echo is answered");
        assert_eq!(reply.src, "n1");
        assert_eq!(reply.dest, "c1");
        assert_eq!(reply.body.in_reply_to, Some(7));
        assert_eq!(reply.body.msg_id, Some(0));
        match reply.body.payload {
            Payload::EchoOk { echo } => assert_eq!(echo, text),
            other => panic!("unexpected payload {:?}", other),
        }
    }
}

#[test]
fn echo_over_the_wire_keeps_text() {
    let mut s = ready_session();
    let text = "tab\tnew\nline \u{1F600}";
    let out = s.handle_line(&echo_line(42, text)).unwrap().unwrap();
    let v = as_value(&out);
    assert_eq!(v["body"]["echo"], serde_json::Value::String(text.to_string()));
    assert_eq!(v["body"]["in_reply_to"], serde_json::Value::from(42u64));
    assert!(!out.contains('\n'));
}

#[test]
fn init_ok_comes_first_and_once() {
    let mut s = Session::new();
    let first = s.handle_line(INIT).unwrap().unwrap();
    assert_eq!(as_value(&first)["body"]["type"], "init_ok");
    for i in 0..5 {
        let out = s.handle_line(&echo_line(10 + i, "x")).unwrap().unwrap();
        assert_eq!(as_value(&out)["body"]["type"], "echo_ok");
    }
    // a second handshake is not recognised by the dispatcher: no reply
    assert!(s.handle_line(INIT).unwrap().is_none());
}

#[test]
fn first_message_must_be_init() {
    let mut s = Session::new();
    assert_eq!(s.handle_line(ECHO).unwrap_err(), NodeError::ProtocolViolation);
    // the state is unchanged: a handshake is still accepted
    assert!(s.handle_line(INIT).unwrap().is_some());
}

#[test]
fn unrecognized_payload_is_skipped() {
    let mut s = ready_session();
    let inbound_echo_ok = r#"{"src":"c1","dest":"n1","body":{"type":"echo_ok","msg_id":3,"echo":"x"}}"#;
    let inbound_init_ok = r#"{"src":"c1","dest":"n1","body":{"type":"init_ok"}}"#;
    assert!(s.handle_line(inbound_echo_ok).unwrap().is_none());
    assert!(s.handle_line(inbound_init_ok).unwrap().is_none());
    let out = s.handle_line(ECHO).unwrap().unwrap();
    assert_eq!(as_value(&out)["body"]["echo"], "hello");
}

#[test]
fn malformed_lines_are_errors() {
    let mut s = ready_session();
    let bad = [
        r#"{"src":"c1","dest":"n1","body":{"type":"echo","msg_id":2,"#,
        "",
        "not json",
        r#"{"src":"c1","dest":"n1","body":{"type":"ping","msg_id":2}}"#,
        r#"{"src":"c1","dest":"n1","body":{"type":"echo","msg_id":2}}"#,
        r#"{"src":"c1","body":{"type":"echo","msg_id":2,"echo":"x"}}"#,
        r#"{"src":"c1","dest":"n1"}"#,
        r#"{"src":1,"dest":"n1","body":{"type":"echo","echo":"x"}}"#,
        r#"{"src":"c1","dest":"n1","body":{"type":"echo","msg_id":-1,"echo":"x"}}"#,
        r#"{"src":"c1","dest":"n1","body":{"type":"echo","msg_id":1.5,"echo":"x"}}"#,
        r#"{"src":"c1","dest":"n1","body":{"type":"init","node_id":"n1","node_ids":["n1",2]}}"#,
        r#"["src","dest"]"#,
    ];
    for line in bad {
        assert_eq!(s.handle_line(line).unwrap_err(), NodeError::MalformedMessage, "{}", line);
    }
}

#[test]
fn malformed_first_line_is_malformed() {
    let mut s = Session::new();
    assert_eq!(s.handle_line("{\"src\":").unwrap_err(), NodeError::MalformedMessage);
}

#[test]
fn identifiers_may_be_absent_or_null() {
    let m = decode(r#"{"src":"a","dest":"b","body":{"type":"echo","msg_id":null,"echo":"x"}}"#).unwrap();
    assert_eq!(m.body.msg_id, None);
    assert_eq!(m.body.in_reply_to, None);
    let m = decode(r#"{"src":"a","dest":"b","extra":true,"body":{"type":"echo","in_reply_to":9,"echo":"x","more":[1]}}"#)
        .unwrap();
    assert_eq!(m.body.msg_id, None);
    assert_eq!(m.body.in_reply_to, Some(9));
    assert_eq!(m.src, "a");
    assert_eq!(m.dest, "b");
}

#[test]
fn decode_reads_init() {
    let m = decode(INIT).unwrap();
    assert_eq!(m.src, "c1");
    assert_eq!(m.dest, "n1");
    assert_eq!(m.body.msg_id, Some(1));
    match m.body.payload {
        Payload::Init { node_id, node_ids } => {
            assert_eq!(node_id, "n1");
            assert_eq!(node_ids, vec!["n1".to_string()]);
        },
        other => panic!("unexpected payload {:?}", other),
    }
}

#[test]
fn encode_then_decode_round_trips() {
    let mut samples = vec![init(), echo(3, "a\"b\nc")];
    samples.push(message("n1", "c1", None, Payload::InitOk));
    let mut with_reply = message("n1", "c1", Some(0), Payload::EchoOk { echo: "z".to_string() });
    with_reply.body.in_reply_to = Some(usize::MAX);
    samples.push(with_reply);
    for m in samples {
        let line = encode(&m);
        assert!(!line.contains('\n'));
        let back = decode(&line).unwrap();
        assert_eq!(back.src, m.src);
        assert_eq!(back.dest, m.dest);
        assert_eq!(back.body.msg_id, m.body.msg_id);
        assert_eq!(back.body.in_reply_to, m.body.in_reply_to);
        assert_eq!(format!("{:?}", back.body.payload), format!("{:?}", m.body.payload));
    }
}

#[test]
fn to_json_then_from_json_round_trips() {
    let m = init();
    let j = to_json(&m);
    let back = from_json(&j).unwrap();
    assert_eq!(format!("{:?}", back), format!("{:?}", m));
    assert!(matches!(from_json(&Json::Null), Err(NodeError::MalformedMessage)));
}

#[test]
fn encode_writes_json_not_the_raw_text() {
    let line = encode(&echo(5, "hi"));
    assert!(line.starts_with('{'));
    assert_eq!(as_value(&line)["body"]["type"], "echo");
    assert_eq!(as_value(&line)["body"]["msg_id"], serde_json::Value::from(5u64));
    assert_eq!(as_value(&line)["body"]["in_reply_to"], serde_json::Value::Null);
}

#[test]
fn reply_swaps_route_and_correlates() {
    let m = echo(11, "q");
    let r = m.reply(Some(4));
    assert_eq!(r.src, "n1");
    assert_eq!(r.dest, "c1");
    assert_eq!(r.body.msg_id, Some(4));
    assert_eq!(r.body.in_reply_to, Some(11));
    assert!(matches!(r.body.payload, Payload::Echo { ref echo } if echo == "q"));
    let r = m.reply_with(None, Payload::InitOk);
    assert_eq!(r.body.msg_id, None);
    assert!(matches!(r.body.payload, Payload::InitOk));
}

#[test]
fn node_new_takes_identity_from_init() {
    let node = Node::new(&init()).unwrap();
    assert_eq!(node.node_id, "n1");
    assert_eq!(node.node_ids, vec!["n1".to_string(), "n2".to_string()]);
    assert_eq!(Node::new(&echo(1, "x")).unwrap_err(), NodeError::ProtocolViolation);
}

#[test]
fn dispatch_ignores_everything_but_echo() {
    let node = Node::new(&init()).unwrap();
    assert!(node.dispatch(&init()).is_none());
    assert!(node.dispatch(&message("c1", "n1", Some(1), Payload::InitOk)).is_none());
    assert!(node.dispatch(&message("c1", "n1", Some(1), Payload::EchoOk { echo: "e".to_string() })).is_none());
}

#[test]
fn run_keeps_request_order() {
    let msgs = vec![
        init(),
        echo(2, "a"),
        message("c1", "n1", Some(3), Payload::EchoOk { echo: "skip".to_string() }),
        echo(4, "b"),
        echo(5, "c"),
    ];
    let out = run(&msgs).unwrap();
    assert_eq!(out.len(), 4);
    assert!(matches!(out[0].body.payload, Payload::InitOk));
    assert_eq!(out[0].body.in_reply_to, Some(1));
    let expected = [(2, "a"), (4, "b"), (5, "c")];
    for (r, (id, text)) in out[1..].iter().zip(expected) {
        assert_eq!(r.body.in_reply_to, Some(id));
        assert!(matches!(r.body.payload, Payload::EchoOk { ref echo } if echo == text));
    }
}

#[test]
fn run_needs_a_handshake() {
    assert_eq!(run(&Vec::new()).unwrap_err(), NodeError::ProtocolViolation);
    assert_eq!(run(&vec![echo(1, "x"), init()]).unwrap_err(), NodeError::ProtocolViolation);
    let only_init = run(&vec![init()]).unwrap();
    assert_eq!(only_init.len(), 1);
}

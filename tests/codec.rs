use echo_node::codec::{decode, encode, DecodeError};
use echo_node::json::{Json, Member};
use echo_node::message::{Body, Message, Payload};
use echo_node::node::Node;

fn to_json(v: &serde_json::Value) -> Json {
    match v {
        serde_json::Value::Null => Json::Null,
        serde_json::Value::Bool(b) => Json::Bool(*b),
        serde_json::Value::Number(n) => match n.as_u64() {
            Some(u) => Json::Int(u),
            None => Json::OtherNumber,
        },
        serde_json::Value::String(s) => Json::Str(s.clone()),
        serde_json::Value::Array(items) => Json::Array(items.iter().map(to_json).collect()),
        serde_json::Value::Object(map) => Json::Object(
            map.iter().map(|(k, v)| Member { name: k.clone(), value: to_json(v) }).collect(),
        ),
    }
}

fn from_json(j: &Json) -> serde_json::Value {
    match j {
        Json::Null | Json::OtherNumber => serde_json::Value::Null,
        Json::Bool(b) => serde_json::Value::Bool(*b),
        Json::Int(u) => serde_json::Value::from(*u),
        Json::Str(s) => serde_json::Value::String(s.clone()),
        Json::Array(items) => serde_json::Value::Array(items.iter().map(from_json).collect()),
        Json::Object(fs) => serde_json::Value::Object(
            fs.iter().map(|m| (m.name.clone(), from_json(&m.value))).collect(),
        ),
    }
}

fn parse(text: &str) -> Json {
    to_json(&serde_json::from_str::<serde_json::Value>(text).unwrap())
}

fn message(id: Option<u32>, in_reply_to: Option<u32>, payload: Payload) -> Message {
    Message {
        src: "c1".to_string(),
        dst: "n1".to_string(),
        body: Body { id, in_reply_to, payload },
    }
}

fn all_payloads() -> Vec<Payload> {
    vec![
        Payload::Init { node_id: "n1".to_string(), node_ids: vec!["n1".to_string(), "n2".to_string()] },
        Payload::Init { node_id: "n3".to_string(), node_ids: vec![] },
        Payload::InitOk,
        Payload::Echo { echo: "hello".to_string() },
        Payload::EchoOk { echo: "".to_string() },
        Payload::Generate,
        Payload::GenerateOk { id: u32::MAX },
    ]
}

#[test]
fn end_to_end_echo() {
    let mut node = Node::new();
    let init = parse(r#"{"src":"c0","dest":"n1","body":{"type":"init","msg_id":0,"node_id":"n1","node_ids":["n1"]}}"#);
    let init_reply = node.handle(decode(&init).unwrap()).unwrap();
    assert_eq!(
        from_json(&encode(&init_reply)),
        serde_json::from_str::<serde_json::Value>(
            r#"{"src":"n1","dest":"c0","body":{"type":"init_ok","msg_id":0,"in_reply_to":0}}"#
        )
        .unwrap()
    );
    // The init_ok reply took id 0, so the echo reply carries the next one.
    let input = parse(r#"{"src":"c1","dest":"n1","body":{"type":"echo","msg_id":1,"echo":"hi"}}"#);
    let reply = node.handle(decode(&input).unwrap()).unwrap();
    let expected: serde_json::Value = serde_json::from_str(
        r#"{"src":"n1","dest":"c1","body":{"type":"echo_ok","msg_id":1,"in_reply_to":1,"echo":"hi"}}"#,
    )
    .unwrap();
    assert_eq!(from_json(&encode(&reply)), expected);
}

#[test]
fn encode_lays_out_the_wire_form() {
    let m = message(Some(0), Some(1), Payload::EchoOk { echo: "hi".to_string() });
    let names = |j: &Json| match j {
        Json::Object(fs) => fs.iter().map(|m| m.name.clone()).collect::<Vec<_>>(),
        _ => panic!("not an object"),
    };
    let j = encode(&m);
    assert_eq!(names(&j), vec!["src", "dest", "body"]);
    match &j {
        Json::Object(fs) => {
            assert_eq!(fs[0].value, Json::Str("c1".to_string()));
            assert_eq!(fs[1].value, Json::Str("n1".to_string()));
            assert_eq!(names(&fs[2].value), vec!["type", "msg_id", "in_reply_to", "echo"]);
        }
        _ => unreachable!(),
    }
}

#[test]
fn encode_omits_absent_ids() {
    let m = message(None, None, Payload::Generate);
    let v = from_json(&encode(&m));
    assert_eq!(
        v,
        serde_json::from_str::<serde_json::Value>(r#"{"src":"c1","dest":"n1","body":{"type":"generate"}}"#).unwrap()
    );
    let m = message(None, Some(3), Payload::GenerateOk { id: 77 });
    let v = from_json(&encode(&m));
    assert_eq!(
        v,
        serde_json::from_str::<serde_json::Value>(
            r#"{"src":"c1","dest":"n1","body":{"type":"generate_ok","in_reply_to":3,"id":77}}"#
        )
        .unwrap()
    );
}

#[test]
fn decode_encode_round_trip() {
    for payload in all_payloads() {
        for (id, in_reply_to) in [(None, None), (Some(0), None), (None, Some(5)), (Some(u32::MAX), Some(1))] {
            let m = message(id, in_reply_to, payload.clone());
            assert_eq!(decode(&encode(&m)), Ok(m.clone()));
            let text = serde_json::to_string(&from_json(&encode(&m))).unwrap();
            assert_eq!(decode(&parse(&text)), Ok(m));
        }
    }
}

#[test]
fn decode_reads_init() {
    let j = parse(r#"{"src":"c0","dest":"n1","extra":true,"body":{"type":"init","msg_id":null,"node_id":"n1","node_ids":["n1","n2"]}}"#);
    let m = decode(&j).unwrap();
    assert_eq!(m.src, "c0");
    assert_eq!(m.dst, "n1");
    assert_eq!(m.body.id, None);
    assert_eq!(m.body.in_reply_to, None);
    assert_eq!(
        m.body.payload,
        Payload::Init { node_id: "n1".to_string(), node_ids: vec!["n1".to_string(), "n2".to_string()] }
    );
}

#[test]
fn decode_rejects_non_objects() {
    assert_eq!(decode(&parse("[1,2]")), Err(DecodeError::NotAnObject));
    assert_eq!(decode(&parse(r#""text""#)), Err(DecodeError::NotAnObject));
    assert_eq!(decode(&parse(r#"{"src":"a","dest":"b","body":7}"#)), Err(DecodeError::NotAnObject));
}

#[test]
fn decode_rejects_missing_members() {
    assert_eq!(decode(&parse(r#"{"dest":"b","body":{"type":"generate"}}"#)), Err(DecodeError::MissingField));
    assert_eq!(decode(&parse(r#"{"src":"a","body":{"type":"generate"}}"#)), Err(DecodeError::MissingField));
    assert_eq!(decode(&parse(r#"{"src":"a","dest":"b"}"#)), Err(DecodeError::MissingField));
    assert_eq!(decode(&parse(r#"{"src":"a","dest":"b","body":{"msg_id":1}}"#)), Err(DecodeError::MissingField));
    assert_eq!(decode(&parse(r#"{"src":"a","dest":"b","body":{"type":"echo"}}"#)), Err(DecodeError::MissingField));
    assert_eq!(
        decode(&parse(r#"{"src":"a","dest":"b","body":{"type":"init","node_id":"n1"}}"#)),
        Err(DecodeError::MissingField)
    );
    assert_eq!(decode(&parse(r#"{"src":"a","dest":"b","body":{"type":"generate_ok"}}"#)), Err(DecodeError::MissingField));
}

#[test]
fn decode_rejects_wrong_kinds() {
    assert_eq!(decode(&parse(r#"{"src":1,"dest":"b","body":{"type":"generate"}}"#)), Err(DecodeError::WrongType));
    assert_eq!(decode(&parse(r#"{"src":"a","dest":"b","body":{"type":3}}"#)), Err(DecodeError::WrongType));
    assert_eq!(
        decode(&parse(r#"{"src":"a","dest":"b","body":{"type":"generate","msg_id":4294967296}}"#)),
        Err(DecodeError::WrongType)
    );
    assert_eq!(
        decode(&parse(r#"{"src":"a","dest":"b","body":{"type":"generate","msg_id":-1}}"#)),
        Err(DecodeError::WrongType)
    );
    assert_eq!(
        decode(&parse(r#"{"src":"a","dest":"b","body":{"type":"generate","in_reply_to":"1"}}"#)),
        Err(DecodeError::WrongType)
    );
    assert_eq!(
        decode(&parse(r#"{"src":"a","dest":"b","body":{"type":"init","node_id":"n1","node_ids":["n1",2]}}"#)),
        Err(DecodeError::WrongType)
    );
    assert_eq!(
        decode(&parse(r#"{"src":"a","dest":"b","body":{"type":"echo","echo":null}}"#)),
        Err(DecodeError::WrongType)
    );
}

#[test]
fn decode_accepts_the_largest_id() {
    let m = decode(&parse(r#"{"src":"a","dest":"b","body":{"type":"generate","msg_id":4294967295}}"#)).unwrap();
    assert_eq!(m.body.id, Some(u32::MAX));
}

#[test]
fn decode_rejects_unknown_type() {
    assert_eq!(decode(&parse(r#"{"src":"a","dest":"b","body":{"type":"ping"}}"#)), Err(DecodeError::UnknownType));
    assert_eq!(decode(&parse(r#"{"src":"a","dest":"b","body":{"type":"Echo","echo":"x"}}"#)), Err(DecodeError::UnknownType));
}

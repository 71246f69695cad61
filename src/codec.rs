//! The envelope codec: a `Message` to and from its JSON form. On the wire the
//! destination is `dest`, the body's id is `msg_id`, and the payload's `type`
//! tag and fields sit in the body object itself; an absent id is left out.

use vstd::prelude::*;
use crate::json::{find_member, is_str, is_str_list, lemma_member_at, lemma_member_found, member, Json, Member};
use crate::message::{strings_view, Body, BodyV, Message, MessageV, Payload, PayloadV};

verus! {

/// Why a JSON document is not a message.
#[derive(Debug, Clone, Copy, PartialEq, Eq, Structural)]
pub enum DecodeError {
    /// The document, or its `body`, is not an object.
    NotAnObject,
    /// A required member is absent.
    MissingField,
    /// A member holds a value of the wrong kind, or an id out of range.
    WrongType,
    /// The `type` tag names no payload kind.
    UnknownType,
}

/// The `type` tag of each payload kind.
pub open spec fn tag_of(p: PayloadV) -> Seq<char> {
    match p {
        PayloadV::Init { .. } => "init"@,
        PayloadV::InitOk => "init_ok"@,
        PayloadV::Echo { .. } => "echo"@,
        PayloadV::EchoOk { .. } => "echo_ok"@,
        PayloadV::Generate => "generate"@,
        PayloadV::GenerateOk { .. } => "generate_ok"@,
    }
}

/// The member names of an object, in order.
pub open spec fn member_names(fs: Seq<Member>) -> Seq<Seq<char>> {
    fs.map_values(|m: Member| m.name@)
}

/// The names of the payload's own members.
pub open spec fn payload_names(p: PayloadV) -> Seq<Seq<char>> {
    match p {
        PayloadV::Init { .. } => seq!["node_id"@, "node_ids"@],
        PayloadV::Echo { .. } => seq!["echo"@],
        PayloadV::EchoOk { .. } => seq!["echo"@],
        PayloadV::GenerateOk { .. } => seq!["id"@],
        _ => Seq::empty(),
    }
}

/// The member names of an encoded body: the tag, the ids that are present,
/// then the payload's members.
pub open spec fn body_names(b: BodyV) -> Seq<Seq<char>> {
    seq!["type"@]
        + (if b.id is Some { seq!["msg_id"@] } else { Seq::empty() })
        + (if b.in_reply_to is Some { seq!["in_reply_to"@] } else { Seq::empty() })
        + payload_names(b.payload)
}

/// Whether `v` is what an encoded payload `p` holds under `name`.
pub open spec fn payload_value_ok(p: PayloadV, name: Seq<char>, v: Json) -> bool {
    match p {
        PayloadV::Init { node_id, node_ids } => if name == "node_id"@ {
            is_str(v, node_id)
        } else {
            is_str_list(v, node_ids)
        },
        PayloadV::Echo { echo } => is_str(v, echo),
        PayloadV::EchoOk { echo } => is_str(v, echo),
        PayloadV::GenerateOk { id } => v == Json::Int(id as u64),
        _ => false,
    }
}

/// Whether `v` is what an encoded body `b` holds under `name`.
pub open spec fn body_value_ok(b: BodyV, name: Seq<char>, v: Json) -> bool {
    if name == "type"@ {
        is_str(v, tag_of(b.payload))
    } else if name == "msg_id"@ {
        b.id matches Some(n) && v == Json::Int(n as u64)
    } else if name == "in_reply_to"@ {
        b.in_reply_to matches Some(n) && v == Json::Int(n as u64)
    } else {
        payload_value_ok(b.payload, name, v)
    }
}

/// Whether `j` is the body object that encodes `b`.
pub open spec fn encodes_body(j: Json, b: BodyV) -> bool {
    j matches Json::Object(fs) && member_names(fs@) == body_names(b) && forall|i: int|
        0 <= i < fs@.len() ==> #[trigger] body_value_ok(b, fs@[i].name@, fs@[i].value)
}

/// Whether `j` is the JSON form of `m`: an object with members `src`, `dest`
/// and `body`, in that order.
pub open spec fn encodes(j: Json, m: MessageV) -> bool {
    j matches Json::Object(fs) && fs@.len() == 3
        && fs@[0].name@ == "src"@ && is_str(fs@[0].value, m.src)
        && fs@[1].name@ == "dest"@ && is_str(fs@[1].value, m.dst)
        && fs@[2].name@ == "body"@ && encodes_body(fs@[2].value, m.body)
}

/// The id a JSON value holds, if it is an integer that fits in 32 bits.
pub open spec fn u32_of(v: Json) -> Option<u32> {
    match v {
        Json::Int(n) => if n <= u32::MAX { Some(n as u32) } else { None },
        _ => None,
    }
}

/// A required string member.
pub open spec fn str_member(fs: Seq<Member>, key: Seq<char>) -> Result<Seq<char>, DecodeError> {
    match member(fs, key) {
        None => Err(DecodeError::MissingField),
        Some(Json::Str(s)) => Ok(s@),
        Some(_) => Err(DecodeError::WrongType),
    }
}

/// A required 32-bit id member.
pub open spec fn u32_member(fs: Seq<Member>, key: Seq<char>) -> Result<u32, DecodeError> {
    match member(fs, key) {
        None => Err(DecodeError::MissingField),
        Some(v) => match u32_of(v) {
            Some(n) => Ok(n),
            None => Err(DecodeError::WrongType),
        },
    }
}

/// An optional 32-bit id member; `null` counts as absent.
pub open spec fn opt_u32_member(fs: Seq<Member>, key: Seq<char>) -> Result<Option<u32>, DecodeError> {
    match member(fs, key) {
        None => Ok(None),
        Some(Json::Null) => Ok(None),
        Some(v) => match u32_of(v) {
            Some(n) => Ok(Some(n)),
            None => Err(DecodeError::WrongType),
        },
    }
}

/// The characters of a JSON string; empty for any other value.
pub open spec fn str_chars(v: Json) -> Seq<char> {
    match v {
        Json::Str(s) => s@,
        _ => Seq::empty(),
    }
}

/// A required member that is an array of strings.
pub open spec fn str_list_member(fs: Seq<Member>, key: Seq<char>) -> Result<Seq<Seq<char>>, DecodeError> {
    match member(fs, key) {
        None => Err(DecodeError::MissingField),
        Some(Json::Array(v)) => if forall|k: int| 0 <= k < v@.len() ==> #[trigger] v@[k] is Str {
            Ok(v@.map_values(|x: Json| str_chars(x)))
        } else {
            Err(DecodeError::WrongType)
        },
        Some(_) => Err(DecodeError::WrongType),
    }
}

/// The payload that the members of a body object describe.
pub open spec fn payload_spec(fs: Seq<Member>) -> Result<PayloadV, DecodeError> {
    match str_member(fs, "type"@) {
        Err(e) => Err(e),
        Ok(tag) => if tag == "init"@ {
            match str_member(fs, "node_id"@) {
                Err(e) => Err(e),
                Ok(node_id) => match str_list_member(fs, "node_ids"@) {
                    Err(e) => Err(e),
                    Ok(node_ids) => Ok(PayloadV::Init { node_id, node_ids }),
                },
            }
        } else if tag == "init_ok"@ {
            Ok(PayloadV::InitOk)
        } else if tag == "echo"@ {
            match str_member(fs, "echo"@) {
                Err(e) => Err(e),
                Ok(echo) => Ok(PayloadV::Echo { echo }),
            }
        } else if tag == "echo_ok"@ {
            match str_member(fs, "echo"@) {
                Err(e) => Err(e),
                Ok(echo) => Ok(PayloadV::EchoOk { echo }),
            }
        } else if tag == "generate"@ {
            Ok(PayloadV::Generate)
        } else if tag == "generate_ok"@ {
            match u32_member(fs, "id"@) {
                Err(e) => Err(e),
                Ok(id) => Ok(PayloadV::GenerateOk { id }),
            }
        } else {
            Err(DecodeError::UnknownType)
        },
    }
}

/// The body that a JSON value describes.
pub open spec fn body_spec(j: Json) -> Result<BodyV, DecodeError> {
    match j {
        Json::Object(fs) => match opt_u32_member(fs@, "msg_id"@) {
            Err(e) => Err(e),
            Ok(id) => match opt_u32_member(fs@, "in_reply_to"@) {
                Err(e) => Err(e),
                Ok(in_reply_to) => match payload_spec(fs@) {
                    Err(e) => Err(e),
                    Ok(payload) => Ok(BodyV { id, in_reply_to, payload }),
                },
            },
        },
        _ => Err(DecodeError::NotAnObject),
    }
}

/// The message that a JSON document describes. Members other than those
/// read are ignored.
pub open spec fn decode_spec(j: Json) -> Result<MessageV, DecodeError> {
    match j {
        Json::Object(fs) => match str_member(fs@, "src"@) {
            Err(e) => Err(e),
            Ok(src) => match str_member(fs@, "dest"@) {
                Err(e) => Err(e),
                Ok(dst) => match member(fs@, "body"@) {
                    None => Err(DecodeError::MissingField),
                    Some(b) => match body_spec(b) {
                        Err(e) => Err(e),
                        Ok(body) => Ok(MessageV { src, dst, body }),
                    },
                },
            },
        },
        _ => Err(DecodeError::NotAnObject),
    }
}

/// Model of a decoding result.
pub open spec fn decoded_view(r: Result<Message, DecodeError>) -> Result<MessageV, DecodeError> {
    match r {
        Ok(m) => Ok(m@),
        Err(e) => Err(e),
    }
}

/// Whether `s` holds exactly the characters of `name`.
fn is_named(s: &String, name: &str) -> (r: bool)
    ensures
        r == (s@ == name@),
{
    let owned = name.to_owned();
    *s == owned
}

/// Reads a required string member.
fn read_str(fs: &Vec<Member>, key: &str) -> (r: Result<String, DecodeError>)
    ensures
        match r {
            Ok(s) => str_member(fs@, key@) == Ok::<Seq<char>, DecodeError>(s@),
            Err(e) => str_member(fs@, key@) == Err::<Seq<char>, DecodeError>(e),
        },
{
    match find_member(fs, key) {
        None => Err(DecodeError::MissingField),
        Some(Json::Str(s)) => Ok(s.clone()),
        Some(_) => Err(DecodeError::WrongType),
    }
}

/// Reads a JSON value as a 32-bit id.
fn read_u32(v: &Json) -> (r: Option<u32>)
    ensures
        r == u32_of(*v),
{
    match v {
        Json::Int(n) => if *n <= 4294967295u64 {
            Some(*n as u32)
        } else {
            None
        },
        _ => None,
    }
}

/// Reads a required 32-bit id member.
fn read_id(fs: &Vec<Member>, key: &str) -> (r: Result<u32, DecodeError>)
    ensures
        r == u32_member(fs@, key@),
{
    match find_member(fs, key) {
        None => Err(DecodeError::MissingField),
        Some(v) => match read_u32(v) {
            Some(n) => Ok(n),
            None => Err(DecodeError::WrongType),
        },
    }
}

/// Reads an optional 32-bit id member.
fn read_opt_id(fs: &Vec<Member>, key: &str) -> (r: Result<Option<u32>, DecodeError>)
    ensures
        r == opt_u32_member(fs@, key@),
{
    match find_member(fs, key) {
        None => Ok(None),
        Some(Json::Null) => Ok(None),
        Some(v) => match read_u32(v) {
            Some(n) => Ok(Some(n)),
            None => Err(DecodeError::WrongType),
        },
    }
}

/// Reads a required member that is an array of strings.
fn read_str_list(fs: &Vec<Member>, key: &str) -> (r: Result<Vec<String>, DecodeError>)
    ensures
        match r {
            Ok(v) => str_list_member(fs@, key@) == Ok::<Seq<Seq<char>>, DecodeError>(strings_view(v@)),
            Err(e) => str_list_member(fs@, key@) == Err::<Seq<Seq<char>>, DecodeError>(e),
        },
{
    match find_member(fs, key) {
        None => Err(DecodeError::MissingField),
        Some(Json::Array(items)) => {
            let mut out: Vec<String> = Vec::new();
            let mut i: usize = 0;
            while i < items.len()
                invariant
                    member(fs@, key@) == Some(Json::Array(*items)),
                    i <= items@.len(),
                    out@.len() == i,
                    forall|k: int| 0 <= k < i ==> #[trigger] items@[k] is Str && out@[k]@ == str_chars(items@[k]),
                decreases items@.len() - i,
            {
                match &items[i] {
                    Json::Str(s) => out.push(s.clone()),
                    _ => {
                        assert(!(items@[i as int] is Str));
                        return Err(DecodeError::WrongType);
                    },
                }
                i = i + 1;
            }
            assert(strings_view(out@) =~= items@.map_values(|x: Json| str_chars(x)));
            Ok(out)
        },
        Some(_) => Err(DecodeError::WrongType),
    }
}

/// Reads the payload from the members of a body object.
fn read_payload(fs: &Vec<Member>) -> (r: Result<Payload, DecodeError>)
    ensures
        match r {
            Ok(p) => payload_spec(fs@) == Ok::<PayloadV, DecodeError>(p@),
            Err(e) => payload_spec(fs@) == Err::<PayloadV, DecodeError>(e),
        },
{
    let tag = read_str(fs, "type")?;
    if is_named(&tag, "init") {
        let node_id = read_str(fs, "node_id")?;
        let node_ids = read_str_list(fs, "node_ids")?;
        Ok(Payload::Init { node_id, node_ids })
    } else if is_named(&tag, "init_ok") {
        Ok(Payload::InitOk)
    } else if is_named(&tag, "echo") {
        let echo = read_str(fs, "echo")?;
        Ok(Payload::Echo { echo })
    } else if is_named(&tag, "echo_ok") {
        let echo = read_str(fs, "echo")?;
        Ok(Payload::EchoOk { echo })
    } else if is_named(&tag, "generate") {
        Ok(Payload::Generate)
    } else if is_named(&tag, "generate_ok") {
        let id = read_id(fs, "id")?;
        Ok(Payload::GenerateOk { id })
    } else {
        Err(DecodeError::UnknownType)
    }
}

/// Reads the body object.
fn read_body(j: &Json) -> (r: Result<Body, DecodeError>)
    ensures
        match r {
            Ok(b) => body_spec(*j) == Ok::<BodyV, DecodeError>(b@),
            Err(e) => body_spec(*j) == Err::<BodyV, DecodeError>(e),
        },
{
    match j {
        Json::Object(fs) => {
            let id = read_opt_id(fs, "msg_id")?;
            let in_reply_to = read_opt_id(fs, "in_reply_to")?;
            let payload = read_payload(fs)?;
            Ok(Body { id, in_reply_to, payload })
        },
        _ => Err(DecodeError::NotAnObject),
    }
}

/// Reads a message from its JSON form.
pub fn decode(j: &Json) -> (r: Result<Message, DecodeError>)
    ensures
        decoded_view(r) == decode_spec(*j),
{
    match j {
        Json::Object(fs) => {
            let src = read_str(fs, "src")?;
            let dst = read_str(fs, "dest")?;
            match find_member(fs, "body") {
                None => Err(DecodeError::MissingField),
                Some(b) => {
                    let body = read_body(b)?;
                    Ok(Message { src, dst, body })
                },
            }
        },
        _ => Err(DecodeError::NotAnObject),
    }
}

/// Appends a member that holds what the body says under its name.
fn push_member(fs: &mut Vec<Member>, name: &str, value: Json, Ghost(b): Ghost<BodyV>)
    requires
        forall|i: int| 0 <= i < old(fs)@.len() ==> #[trigger] body_value_ok(b, old(fs)@[i].name@, old(fs)@[i].value),
        body_value_ok(b, name@, value),
    ensures
        forall|i: int| 0 <= i < final(fs)@.len() ==> #[trigger] body_value_ok(b, final(fs)@[i].name@, final(fs)@[i].value),
        final(fs)@ == old(fs)@.push(final(fs)@.last()),
        final(fs)@.last().name@ == name@,
        final(fs)@.last().value == value,
{
    let m = Member { name: name.to_owned(), value };
    proof {
        lemma_values_push(b, fs@, m);
    }
    fs.push(m);
}

/// A JSON string with the characters of `s`.
fn str_json(s: &String) -> (r: Json)
    ensures
        is_str(r, s@),
{
    Json::Str(s.clone())
}

/// A JSON array of the strings of `ss`.
fn str_list_json(ss: &Vec<String>) -> (r: Json)
    ensures
        is_str_list(r, strings_view(ss@)),
{
    let mut items: Vec<Json> = Vec::new();
    let mut i: usize = 0;
    while i < ss.len()
        invariant
            i <= ss@.len(),
            items@.len() == i,
            forall|k: int| 0 <= k < i ==> #[trigger] is_str(items@[k], ss@[k]@),
        decreases ss@.len() - i,
    {
        items.push(str_json(&ss[i]));
        i = i + 1;
    }
    Json::Array(items)
}

/// The member names and tags of the wire format are told apart by their
/// lengths, or else by their first character.
proof fn lemma_wire_names()
    ensures
        "src"@.len() == 3,
        "dest"@.len() == 4,
        "body"@.len() == 4,
        "type"@.len() == 4,
        "msg_id"@.len() == 6,
        "in_reply_to"@.len() == 11,
        "node_id"@.len() == 7,
        "node_ids"@.len() == 8,
        "echo"@.len() == 4,
        "id"@.len() == 2,
        "init"@.len() == 4,
        "init_ok"@.len() == 7,
        "echo_ok"@.len() == 7,
        "generate"@.len() == 8,
        "generate_ok"@.len() == 11,
        "type"@ != "echo"@,
        "init"@ != "echo"@,
        "init_ok"@ != "echo_ok"@,
        "dest"@ != "body"@,
{
    reveal_strlit("src");
    reveal_strlit("dest");
    reveal_strlit("body");
    reveal_strlit("type");
    reveal_strlit("msg_id");
    reveal_strlit("in_reply_to");
    reveal_strlit("node_id");
    reveal_strlit("node_ids");
    reveal_strlit("echo");
    reveal_strlit("id");
    reveal_strlit("init");
    reveal_strlit("init_ok");
    reveal_strlit("echo_ok");
    reveal_strlit("generate");
    reveal_strlit("generate_ok");
    assert("type"@[0] != "echo"@[0]);
    assert("init"@[0] != "echo"@[0]);
    assert("init_ok"@[0] != "echo_ok"@[0]);
    assert("dest"@[0] != "body"@[0]);
}

/// Appending a member that holds what the body says keeps every member so.
proof fn lemma_values_push(b: BodyV, fs: Seq<Member>, m: Member)
    requires
        forall|i: int| 0 <= i < fs.len() ==> #[trigger] body_value_ok(b, fs[i].name@, fs[i].value),
        body_value_ok(b, m.name@, m.value),
    ensures
        forall|i: int| 0 <= i < fs.push(m).len() ==> #[trigger] body_value_ok(b, fs.push(m)[i].name@, fs.push(m)[i].value),
{
    assert forall|i: int| 0 <= i < fs.push(m).len() implies #[trigger] body_value_ok(b, fs.push(m)[i].name@, fs.push(m)[i].value) by {
        if i < fs.len() {
            assert(fs.push(m)[i] == fs[i]);
        }
    }
}

/// Writes a body: its tag, the ids that are present, and the payload's
/// members, all in one object.
fn encode_body(b: &Body) -> (r: Json)
    ensures
        encodes_body(r, b@),
{
    let ghost bv = b@;
    let mut fs: Vec<Member> = Vec::new();
    proof {
        lemma_wire_names();
    }
    let tag: &str = match &b.payload {
        Payload::Init { .. } => "init",
        Payload::InitOk => "init_ok",
        Payload::Echo { .. } => "echo",
        Payload::EchoOk { .. } => "echo_ok",
        Payload::Generate => "generate",
        Payload::GenerateOk { .. } => "generate_ok",
    };
    push_member(&mut fs, "type", Json::Str(tag.to_owned()), Ghost(bv));
    assert(member_names(fs@) =~= seq!["type"@]);
    let ghost head = member_names(fs@);
    if let Some(n) = b.id {
        push_member(&mut fs, "msg_id", Json::Int(n as u64), Ghost(bv));
    }
    assert(member_names(fs@) =~= head + (if bv.id is Some { seq!["msg_id"@] } else { Seq::empty() }));
    let ghost head = member_names(fs@);
    if let Some(n) = b.in_reply_to {
        push_member(&mut fs, "in_reply_to", Json::Int(n as u64), Ghost(bv));
    }
    assert(member_names(fs@) =~= head + (if bv.in_reply_to is Some { seq!["in_reply_to"@] } else { Seq::empty() }));
    let ghost head = member_names(fs@);
    match &b.payload {
        Payload::Init { node_id, node_ids } => {
            push_member(&mut fs, "node_id", str_json(node_id), Ghost(bv));
            push_member(&mut fs, "node_ids", str_list_json(node_ids), Ghost(bv));
        },
        Payload::Echo { echo } => {
            push_member(&mut fs, "echo", str_json(echo), Ghost(bv));
        },
        Payload::EchoOk { echo } => {
            push_member(&mut fs, "echo", str_json(echo), Ghost(bv));
        },
        Payload::GenerateOk { id } => {
            push_member(&mut fs, "id", Json::Int(*id as u64), Ghost(bv));
        },
        _ => {},
    }
    assert(member_names(fs@) =~= head + payload_names(bv.payload));
    assert(member_names(fs@) =~= body_names(bv));
    Json::Object(fs)
}

/// Writes a message in its JSON form.
pub fn encode(m: &Message) -> (r: Json)
    ensures
        encodes(r, m@),
{
    let mut fs: Vec<Member> = Vec::new();
    fs.push(Member { name: "src".to_owned(), value: str_json(&m.src) });
    fs.push(Member { name: "dest".to_owned(), value: str_json(&m.dst) });
    fs.push(Member { name: "body".to_owned(), value: encode_body(&m.body) });
    Json::Object(fs)
}

/// A member of an encoded body holds what the body says under its name; a
/// name that is not among the body's member names is not found.
proof fn lemma_body_member(fs: Seq<Member>, b: BodyV, key: Seq<char>)
    requires
        member_names(fs) == body_names(b),
        forall|i: int| 0 <= i < fs.len() ==> #[trigger] body_value_ok(b, fs[i].name@, fs[i].value),
    ensures
        match member(fs, key) {
            Some(v) => body_value_ok(b, key, v),
            None => forall|k: int| 0 <= k < body_names(b).len() ==> body_names(b)[k] != key,
        },
{
    lemma_member_found(fs, key, 0);
    match member(fs, key) {
        Some(v) => {
            let k = choose|k: int| 0 <= k < fs.len() && #[trigger] fs[k].name@ == key && fs[k].value == v;
            assert(body_value_ok(b, fs[k].name@, fs[k].value));
        },
        None => {
            assert forall|k: int| 0 <= k < body_names(b).len() implies body_names(b)[k] != key by {
                assert(member_names(fs)[k] == fs[k].name@);
            }
        },
    }
}

/// Decoding the JSON form of a message gives the message back, field for
/// field.
pub proof fn lemma_decode_encode(j: Json, m: MessageV)
    requires
        encodes(j, m),
    ensures
        decode_spec(j) == Ok::<MessageV, DecodeError>(m),
{
    lemma_wire_names();
    let fs = j->Object_0@;
    lemma_member_at(fs, "src"@, 0);
    lemma_member_at(fs, "dest"@, 1);
    lemma_member_at(fs, "body"@, 2);
    let bj = fs[2].value;
    let bfs = bj->Object_0@;
    let b = m.body;
    let names = body_names(b);
    let n_head: int = 1 + (if b.id is Some { 1int } else { 0 }) + (if b.in_reply_to is Some { 1int } else { 0 });
    assert(names[0] == "type"@);
    if b.id is Some {
        assert(names[1] == "msg_id"@);
    }
    if b.in_reply_to is Some {
        assert(names[n_head - 1] == "in_reply_to"@);
    }
    lemma_body_member(bfs, b, "type"@);
    lemma_body_member(bfs, b, "msg_id"@);
    lemma_body_member(bfs, b, "in_reply_to"@);
    assert(opt_u32_member(bfs, "msg_id"@) == Ok::<Option<u32>, DecodeError>(b.id));
    assert(opt_u32_member(bfs, "in_reply_to"@) == Ok::<Option<u32>, DecodeError>(b.in_reply_to));
    assert(str_member(bfs, "type"@) == Ok::<Seq<char>, DecodeError>(tag_of(b.payload)));
    match b.payload {
        PayloadV::Init { node_id, node_ids } => {
            assert(names[n_head] == "node_id"@);
            assert(names[n_head + 1] == "node_ids"@);
            lemma_body_member(bfs, b, "node_id"@);
            lemma_body_member(bfs, b, "node_ids"@);
            let vj = member(bfs, "node_ids"@)->Some_0;
            assert(body_value_ok(b, "node_ids"@, vj));
            assert(is_str_list(vj, node_ids));
            let v = vj->Array_0@;
            assert forall|k: int| 0 <= k < v.len() implies #[trigger] v[k] is Str && str_chars(v[k]) == node_ids[k] by {
                assert(is_str(v[k], node_ids[k]));
            }
            assert(v.map_values(|x: Json| str_chars(x)) =~= node_ids);
            assert(str_list_member(bfs, "node_ids"@) == Ok::<Seq<Seq<char>>, DecodeError>(node_ids));
        },
        PayloadV::Echo { echo } => {
            assert(names[n_head] == "echo"@);
            lemma_body_member(bfs, b, "echo"@);
        },
        PayloadV::EchoOk { echo } => {
            assert(names[n_head] == "echo"@);
            lemma_body_member(bfs, b, "echo"@);
        },
        PayloadV::GenerateOk { id } => {
            assert(names[n_head] == "id"@);
            lemma_body_member(bfs, b, "id"@);
        },
        _ => {},
    }
    assert(payload_spec(bfs) == Ok::<PayloadV, DecodeError>(b.payload));
}

} // verus!

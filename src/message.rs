//! The envelope exchanged in both directions, and its mathematical model.

use vstd::prelude::*;

verus! {

/// A protocol message: who sent it, who it is for, and what it carries.
#[derive(Debug, Clone, PartialEq, Eq)]
pub struct Message {
    pub src: String,
    pub dst: String,
    pub body: Body,
}

/// The body of a message: its own id, the id it answers, and the payload.
#[derive(Debug, Clone, PartialEq, Eq)]
pub struct Body {
    pub id: Option<u32>,
    pub in_reply_to: Option<u32>,
    pub payload: Payload,
}

/// The payload kinds; `Init`, `Echo` and `Generate` are requests, the
/// `...Ok` kinds are their replies.
#[derive(Debug, Clone, PartialEq, Eq)]
pub enum Payload {
    Init { node_id: String, node_ids: Vec<String> },
    InitOk,
    Echo { echo: String },
    EchoOk { echo: String },
    Generate,
    GenerateOk { id: u32 },
}

/// Model of a `Message`.
pub struct MessageV {
    pub src: Seq<char>,
    pub dst: Seq<char>,
    pub body: BodyV,
}

/// Model of a `Body`.
pub struct BodyV {
    pub id: Option<u32>,
    pub in_reply_to: Option<u32>,
    pub payload: PayloadV,
}

/// Model of a `Payload`.
pub enum PayloadV {
    Init { node_id: Seq<char>, node_ids: Seq<Seq<char>> },
    InitOk,
    Echo { echo: Seq<char> },
    EchoOk { echo: Seq<char> },
    Generate,
    GenerateOk { id: u32 },
}

/// The characters of each string of a list.
pub open spec fn strings_view(v: Seq<String>) -> Seq<Seq<char>> {
    v.map_values(|s: String| s@)
}

impl View for Payload {
    type V = PayloadV;

    open spec fn view(&self) -> PayloadV {
        match self {
            Payload::Init { node_id, node_ids } => PayloadV::Init {
                node_id: node_id@,
                node_ids: strings_view(node_ids@),
            },
            Payload::InitOk => PayloadV::InitOk,
            Payload::Echo { echo } => PayloadV::Echo { echo: echo@ },
            Payload::EchoOk { echo } => PayloadV::EchoOk { echo: echo@ },
            Payload::Generate => PayloadV::Generate,
            Payload::GenerateOk { id } => PayloadV::GenerateOk { id: *id },
        }
    }
}

impl View for Body {
    type V = BodyV;

    open spec fn view(&self) -> BodyV {
        BodyV { id: self.id, in_reply_to: self.in_reply_to, payload: self.payload@ }
    }
}

impl View for Message {
    type V = MessageV;

    open spec fn view(&self) -> MessageV {
        MessageV { src: self.src@, dst: self.dst@, body: self.body@ }
    }
}

/// Copies a list of strings, string by string.
pub fn clone_strings(v: &Vec<String>) -> (r: Vec<String>)
    ensures
        strings_view(r@) == strings_view(v@),
{
    let mut r: Vec<String> = Vec::new();
    let mut i: usize = 0;
    while i < v.len()
        invariant
            i <= v@.len(),
            r@.len() == i,
            forall|k: int| 0 <= k < i ==> #[trigger] r@[k]@ == v@[k]@,
        decreases v@.len() - i,
    {
        r.push(v[i].clone());
        i = i + 1;
    }
    assert(strings_view(r@) =~= strings_view(v@));
    r
}

} // verus!

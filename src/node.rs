//! The node: its state, and the handler that answers each request with one
//! correlated reply.

use vstd::prelude::*;
use crate::message::{strings_view, clone_strings, Body, BodyV, Message, MessageV, Payload, PayloadV};

verus! {

/// Which reply-only payload arrived as a request.
#[derive(Debug, Clone, Copy, PartialEq, Eq, Structural)]
pub enum ReplyKind {
    InitOk,
    EchoOk,
    GenerateOk,
}

/// Why a request was refused; no reply is produced for it.
#[derive(Debug, Clone, Copy, PartialEq, Eq, Structural)]
pub enum HandlerError {
    /// An `Init` whose `node_id` is empty.
    InvalidArgument,
    /// A reply-only payload received as a request.
    UnexpectedMessage(ReplyKind),
}

/// The state of one node: the next message id it assigns, its own
/// identifier (empty until an `Init`), and the peers it was told of.
#[derive(Debug)]
pub struct Node {
    id: u32,
    node_id: String,
    node_ids: Vec<String>,
}

/// Model of a `Node`.
pub struct NodeV {
    pub id: u32,
    pub node_id: Seq<char>,
    pub node_ids: Seq<Seq<char>>,
}

impl View for Node {
    type V = NodeV;

    closed spec fn view(&self) -> NodeV {
        NodeV { id: self.id, node_id: self.node_id@, node_ids: strings_view(self.node_ids@) }
    }
}

/// The state of a node that has handled nothing yet.
pub open spec fn fresh_node() -> NodeV {
    NodeV { id: 0, node_id: Seq::empty(), node_ids: Seq::empty() }
}

/// The reply that a node in `state` sends to `input`, carrying `payload`.
pub open spec fn reply_spec(state: NodeV, input: MessageV, payload: PayloadV) -> MessageV {
    MessageV {
        src: state.node_id,
        dst: input.src,
        body: BodyV { id: Some(state.id), in_reply_to: input.body.id, payload },
    }
}

/// The state after one reply was sent: the counter moved on by one.
pub open spec fn advance(state: NodeV) -> NodeV {
    NodeV { id: (state.id + 1) as u32, ..state }
}

/// What handling `input` in `state` gives, with `drawn` the value drawn for a
/// `Generate`: the next state, and the reply or the error.
pub open spec fn handle_spec(state: NodeV, input: MessageV, drawn: u32) -> (NodeV, Result<MessageV, HandlerError>) {
    match input.body.payload {
        PayloadV::Init { node_id, node_ids } => {
            if node_id.len() == 0 {
                (state, Err(HandlerError::InvalidArgument))
            } else {
                let named = NodeV { id: state.id, node_id, node_ids };
                (advance(named), Ok(reply_spec(named, input, PayloadV::InitOk)))
            }
        },
        PayloadV::Echo { echo } => (advance(state), Ok(reply_spec(state, input, PayloadV::EchoOk { echo }))),
        PayloadV::Generate => (advance(state), Ok(reply_spec(state, input, PayloadV::GenerateOk { id: drawn }))),
        PayloadV::InitOk => (state, Err(HandlerError::UnexpectedMessage(ReplyKind::InitOk))),
        PayloadV::EchoOk { .. } => (state, Err(HandlerError::UnexpectedMessage(ReplyKind::EchoOk))),
        PayloadV::GenerateOk { .. } => (state, Err(HandlerError::UnexpectedMessage(ReplyKind::GenerateOk))),
    }
}

/// Model of a handler result.
pub open spec fn result_view(r: Result<Message, HandlerError>) -> Result<MessageV, HandlerError> {
    match r {
        Ok(m) => Ok(m@),
        Err(e) => Err(e),
    }
}

/// Handles `inputs` one after another from `state`, the `k`-th with
/// `draws[k]` as its drawn value: the final state and every result.
pub open spec fn run(state: NodeV, inputs: Seq<MessageV>, draws: Seq<u32>) -> (NodeV, Seq<Result<MessageV, HandlerError>>)
    recommends
        draws.len() == inputs.len(),
    decreases inputs.len(),
{
    if inputs.len() == 0 || draws.len() != inputs.len() {
        (state, Seq::empty())
    } else {
        let prev = run(state, inputs.drop_last(), draws.drop_last());
        let step = handle_spec(prev.0, inputs.last(), draws.last());
        (step.0, prev.1.push(step.1))
    }
}

/// A valid `Init` with a non-empty `node_id` is answered with `InitOk`,
/// correlated with the request, and the node then holds the given `node_id`
/// and `node_ids`.
pub proof fn lemma_init_ok(state: NodeV, input: MessageV, drawn: u32)
    requires
        input.body.payload is Init,
        input.body.payload->Init_node_id.len() > 0,
    ensures
        ({
            let (next, r) = handle_spec(state, input, drawn);
            &&& r matches Ok(reply) && reply.body.payload == PayloadV::InitOk
            &&& r->Ok_0.body.in_reply_to == input.body.id
            &&& next.node_id == input.body.payload->Init_node_id
            &&& next.node_ids == input.body.payload->Init_node_ids
        }),
{
}

/// An `Init` with an empty `node_id` fails with `InvalidArgument` and leaves
/// the state as it was.
pub proof fn lemma_init_empty(state: NodeV, input: MessageV, drawn: u32)
    requires
        input.body.payload is Init,
        input.body.payload->Init_node_id.len() == 0,
    ensures
        handle_spec(state, input, drawn) == (state, Err::<MessageV, HandlerError>(HandlerError::InvalidArgument)),
{
}

/// An `Echo` is answered with `EchoOk` carrying the very same text.
pub proof fn lemma_echo(state: NodeV, input: MessageV, drawn: u32)
    requires
        input.body.payload is Echo,
    ensures
        handle_spec(state, input, drawn).1 matches Ok(reply)
            && reply.body.payload == (PayloadV::EchoOk { echo: input.body.payload->Echo_echo }),
{
}

/// A reply-only payload received as a request fails with
/// `UnexpectedMessage` naming its kind, and leaves the state as it was.
pub proof fn lemma_reply_kind_refused(state: NodeV, input: MessageV, drawn: u32)
    requires
        input.body.payload is InitOk || input.body.payload is EchoOk || input.body.payload is GenerateOk,
    ensures
        ({
            let kind = if input.body.payload is InitOk {
                ReplyKind::InitOk
            } else if input.body.payload is EchoOk {
                ReplyKind::EchoOk
            } else {
                ReplyKind::GenerateOk
            };
            handle_spec(state, input, drawn) == (state, Err::<MessageV, HandlerError>(HandlerError::UnexpectedMessage(kind)))
        }),
{
}

/// Every reply goes back to the request's sender, answers the request's id
/// (absent when that id was absent), and carries the counter's value, which
/// then moves on by one; a failure changes nothing.
pub proof fn lemma_reply_correlated(state: NodeV, input: MessageV, drawn: u32)
    requires
        state.id < u32::MAX,
    ensures
        ({
            let (next, r) = handle_spec(state, input, drawn);
            match r {
                Ok(reply) => {
                    &&& reply.dst == input.src
                    &&& reply.body.in_reply_to == input.body.id
                    &&& reply.body.id == Some(state.id)
                    &&& next.id == state.id + 1
                },
                Err(_) => next == state,
            }
        }),
{
}

/// A run gives one result per request.
proof fn lemma_run_len(state: NodeV, inputs: Seq<MessageV>, draws: Seq<u32>)
    requires
        draws.len() == inputs.len(),
    ensures
        run(state, inputs, draws).1.len() == inputs.len(),
    decreases inputs.len(),
{
    if inputs.len() > 0 {
        lemma_run_len(state, inputs.drop_last(), draws.drop_last());
    }
}

/// Over a run that only succeeds, the replies carry consecutive ids from the
/// starting counter on.
proof fn lemma_run_ids(state: NodeV, inputs: Seq<MessageV>, draws: Seq<u32>)
    requires
        draws.len() == inputs.len(),
        state.id + inputs.len() <= u32::MAX,
        forall|k: int| 0 <= k < inputs.len() ==> #[trigger] run(state, inputs, draws).1[k] is Ok,
    ensures
        run(state, inputs, draws).1.len() == inputs.len(),
        run(state, inputs, draws).0.id == state.id + inputs.len(),
        forall|k: int| 0 <= k < inputs.len() ==> (#[trigger] run(state, inputs, draws).1[k])->Ok_0.body.id == Some((state.id + k) as u32),
    decreases inputs.len(),
{
    if inputs.len() > 0 {
        let prev = run(state, inputs.drop_last(), draws.drop_last());
        let all = run(state, inputs, draws);
        lemma_run_len(state, inputs.drop_last(), draws.drop_last());
        assert(all.1 == prev.1.push(handle_spec(prev.0, inputs.last(), draws.last()).1));
        assert forall|k: int| 0 <= k < inputs.drop_last().len() implies #[trigger] prev.1[k] is Ok by {
            assert(all.1[k] is Ok);
        }
        lemma_run_ids(state, inputs.drop_last(), draws.drop_last());
        lemma_reply_correlated(prev.0, inputs.last(), draws.last());
        assert(all.1[inputs.len() - 1] is Ok);
        assert forall|k: int| 0 <= k < inputs.len() implies (#[trigger] all.1[k])->Ok_0.body.id == Some((state.id + k) as u32) by {
            if k < inputs.len() - 1 {
                assert(all.1[k] == prev.1[k]);
            }
        }
    }
}

/// Over any run of requests that all succeed on a fresh node, the replies
/// carry the ids 0, 1, 2, ... in order, whatever the requests were.
pub proof fn lemma_reply_ids_consecutive(inputs: Seq<MessageV>, draws: Seq<u32>)
    requires
        draws.len() == inputs.len(),
        inputs.len() <= u32::MAX,
        forall|k: int| 0 <= k < inputs.len() ==> #[trigger] run(fresh_node(), inputs, draws).1[k] is Ok,
    ensures
        forall|k: int| 0 <= k < inputs.len() ==> (#[trigger] run(fresh_node(), inputs, draws).1[k])->Ok_0.body.id == Some(k as u32),
        run(fresh_node(), inputs, draws).0.id == inputs.len(),
{
    lemma_run_ids(fresh_node(), inputs, draws);
}

/// Relies on `rand::rng()` and `Rng::random::<u32>`: a value drawn from the
/// thread-local generator. Nothing is known of the value. (`rand::rng()`
/// panics only where the operating system's generator cannot be set up.)
#[verifier::external_body]
fn draw_u32() -> (r: u32) {
    rand::Rng::random::<u32>(&mut rand::rng())
}

impl Default for Node {
    fn default() -> (r: Node)
        ensures
            r@ == fresh_node(),
    {
        let r = Node { id: 0, node_id: String::new(), node_ids: Vec::new() };
        assert(strings_view(r.node_ids@) =~= Seq::<Seq<char>>::empty());
        r
    }
}

impl Node {
    /// A node that has handled nothing yet.
    pub fn new() -> (r: Node)
        ensures
            r@ == fresh_node(),
    {
        Node::default()
    }

    /// The id that the next reply will carry.
    pub fn next_id(&self) -> (r: u32)
        ensures
            r == self@.id,
    {
        self.id
    }

    /// This node's own identifier, empty until an `Init` was handled.
    pub fn node_id(&self) -> (r: &String)
        ensures
            r@ == self@.node_id,
    {
        &self.node_id
    }

    /// The peers named by the last `Init`.
    pub fn node_ids(&self) -> (r: &Vec<String>)
        ensures
            strings_view(r@) == self@.node_ids,
    {
        &self.node_ids
    }

    /// Builds the reply to `input` that carries `payload`, and takes the
    /// next message id for it.
    pub fn reply(&mut self, input: &Message, payload: Payload) -> (r: Message)
        requires
            old(self)@.id < u32::MAX,
        ensures
            r@ == reply_spec(old(self)@, input@, payload@),
            final(self)@ == advance(old(self)@),
    {
        let msg_id = self.id;
        self.id = self.id + 1;
        Message {
            src: self.node_id.clone(),
            dst: input.src.clone(),
            body: Body { id: Some(msg_id), in_reply_to: input.body.id, payload },
        }
    }

    /// Handles one request, with `drawn` as the value that a `Generate` is
    /// answered with.
    pub fn handle_drawn(&mut self, input: Message, drawn: u32) -> (r: Result<Message, HandlerError>)
        requires
            old(self)@.id < u32::MAX,
        ensures
            (final(self)@, result_view(r)) == handle_spec(old(self)@, input@, drawn),
    {
        match &input.body.payload {
            Payload::Init { node_id, node_ids } => {
                if node_id.as_str().is_empty() {
                    return Err(HandlerError::InvalidArgument);
                }
                self.node_id = node_id.clone();
                self.node_ids = clone_strings(node_ids);
                Ok(self.reply(&input, Payload::InitOk))
            },
            Payload::Echo { echo } => Ok(self.reply(&input, Payload::EchoOk { echo: echo.clone() })),
            Payload::Generate => Ok(self.reply(&input, Payload::GenerateOk { id: drawn })),
            Payload::InitOk => Err(HandlerError::UnexpectedMessage(ReplyKind::InitOk)),
            Payload::EchoOk { .. } => Err(HandlerError::UnexpectedMessage(ReplyKind::EchoOk)),
            Payload::GenerateOk { .. } => Err(HandlerError::UnexpectedMessage(ReplyKind::GenerateOk)),
        }
    }

    /// Handles one request. A `Generate` is answered with a freshly drawn
    /// value; every other request gets exactly the reply of `handle_spec`.
    pub fn handle(&mut self, input: Message) -> (r: Result<Message, HandlerError>)
        requires
            old(self)@.id < u32::MAX,
        ensures
            exists|d: u32| (final(self)@, result_view(r)) == handle_spec(old(self)@, input@, d),
            !(input@.body.payload is Generate) ==> (final(self)@, result_view(r)) == handle_spec(old(self)@, input@, 0),
    {
        let drawn: u32 = match &input.body.payload {
            Payload::Generate => self.generate(),
            _ => 0,
        };
        self.handle_drawn(input, drawn)
    }

    /// Draws a value meant to be unique across the whole cluster; the node's
    /// state is left as it was.
    pub fn generate(&mut self) -> (r: u32)
        ensures
            final(self)@ == old(self)@,
    {
        draw_u32()
    }
}

} // verus!

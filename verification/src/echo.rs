//! The echo node: it answers each `Echo` with the text it was sent.

use crate::message::{Body, Message, MessageView};
use crate::node::GenericNode;
use vstd::prelude::*;

verus! {

/// What an echo node receives and sends.
#[derive(Debug, Clone)]
pub enum EchoPayload {
    Init { node_id: String, node_ids: Vec<String> },
    InitOk,
    Echo { echo: String },
    EchoOk { echo: String },
}

/// What an [`EchoPayload`] stands for.
pub enum EchoPayloadView {
    Init { node_id: Seq<char>, node_ids: Seq<Seq<char>> },
    InitOk,
    Echo { echo: Seq<char> },
    EchoOk { echo: Seq<char> },
}

impl View for EchoPayload {
    type V = EchoPayloadView;

    open spec fn view(&self) -> EchoPayloadView {
        match self {
            EchoPayload::Init { node_id, node_ids } => EchoPayloadView::Init {
                node_id: node_id@,
                node_ids: node_ids.deep_view(),
            },
            EchoPayload::InitOk => EchoPayloadView::InitOk,
            EchoPayload::Echo { echo } => EchoPayloadView::Echo { echo: echo@ },
            EchoPayload::EchoOk { echo } => EchoPayloadView::EchoOk { echo: echo@ },
        }
    }
}

impl DeepView for EchoPayload {
    type V = EchoPayloadView;

    open spec fn deep_view(&self) -> EchoPayloadView {
        self@
    }
}

impl EchoPayloadView {
    /// Whether the payload asks something of a node, as opposed to
    /// answering a request.
    pub open spec fn is_request(self) -> bool {
        self is Init || self is Echo
    }

    /// The payload of the answer owed to this payload, if one is owed:
    /// `InitOk` to `Init`, and to `Echo` an `EchoOk` with the same text.
    pub open spec fn reply(self) -> Option<EchoPayloadView> {
        match self {
            EchoPayloadView::Init { .. } => Some(EchoPayloadView::InitOk),
            EchoPayloadView::Echo { echo } => Some(EchoPayloadView::EchoOk { echo }),
            _ => None,
        }
    }
}

impl EchoPayload {
    /// The payload of the answer owed to this payload, if one is owed.
    pub fn gen_msg_payload(&self) -> (reply: Option<Self>)
        ensures
            reply.deep_view() == self@.reply(),
    {
        match self {
            Self::Init { .. } => Some(Self::InitOk),
            Self::Echo { echo } => Some(Self::EchoOk { echo: echo.clone() }),
            _ => None,
        }
    }

    /// Whether the payload asks something of a node.
    pub fn is_request(&self) -> (request: bool)
        ensures
            request == self@.is_request(),
    {
        match self {
            Self::Init { .. } | Self::Echo { .. } => true,
            _ => false,
        }
    }
}

/// The envelopes that an echo node whose counter stands at `msg_id` sends
/// on receiving `input`: the answer, if one is owed, and nothing else.
pub open spec fn echo_outbound(msg_id: nat, input: MessageView<EchoPayloadView>) -> Seq<
    MessageView<EchoPayloadView>,
> {
    match input.body.payload.reply() {
        Some(reply) => seq![input.reply(msg_id, reply)],
        None => Seq::empty(),
    }
}

/// An echo node: its counter of envelopes sent.
pub struct EchoNode {
    msg_id: usize,
}

impl View for EchoNode {
    type V = nat;

    closed spec fn view(&self) -> nat {
        self.msg_id as nat
    }
}

impl EchoNode {
    /// A node that has sent nothing yet.
    pub fn new() -> (node: Self)
        ensures
            node@ == 0,
    {
        Self { msg_id: 0 }
    }

    /// The number that the next envelope sent will carry.
    pub fn msg_id(&self) -> (id: usize)
        ensures
            id == self@,
    {
        self.msg_id
    }

    /// Advances the counter by one.
    pub fn inc_id(&mut self)
        requires
            old(self)@ < usize::MAX,
        ensures
            final(self)@ == old(self)@ + 1,
    {
        self.msg_id += 1;
    }
}

impl GenericNode<EchoPayload> for EchoNode {
    open spec fn next_msg_id(&self) -> nat {
        self@
    }

    open spec fn accepts(&self, input: MessageView<EchoPayloadView>) -> bool {
        input.body.payload.is_request() && self@ < usize::MAX
    }

    fn can_process(&self, input: &Message<EchoPayload>) -> (ok: bool) {
        input.body.payload.is_request() && self.msg_id < usize::MAX
    }

    fn process(&mut self, src_msg: Message<EchoPayload>) -> (out: Vec<Message<EchoPayload>>)
        ensures
            out.deep_view() == echo_outbound(old(self)@, src_msg@),
    {
        let mut result: Vec<Message<EchoPayload>> = Vec::new();

        if let Some(payload) = src_msg.body.payload.gen_msg_payload() {
            result.push(
                Message {
                    src: src_msg.dest,
                    dest: src_msg.src,
                    body: Body { msg_id: Some(self.msg_id), in_reply_to: src_msg.body.msg_id, payload },
                },
            );
            self.inc_id();
        }
        result
    }
}

} // verus!

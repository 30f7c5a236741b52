//! The unique-id node: it answers each `Generate` with an identifier made
//! for that answer.

use crate::message::{Body, Message, MessageView};
use crate::node::GenericNode;
use vstd::prelude::*;

verus! {

/// What a unique-id node receives and sends.
#[derive(Debug, Clone)]
pub enum UniquePayload {
    Init { node_id: String, node_ids: Vec<String> },
    InitOk,
    Generate,
    GenerateOk { id: String },
}

/// What a [`UniquePayload`] stands for.
pub enum UniquePayloadView {
    Init { node_id: Seq<char>, node_ids: Seq<Seq<char>> },
    InitOk,
    Generate,
    GenerateOk { id: Seq<char> },
}

impl View for UniquePayload {
    type V = UniquePayloadView;

    open spec fn view(&self) -> UniquePayloadView {
        match self {
            UniquePayload::Init { node_id, node_ids } => UniquePayloadView::Init {
                node_id: node_id@,
                node_ids: node_ids.deep_view(),
            },
            UniquePayload::InitOk => UniquePayloadView::InitOk,
            UniquePayload::Generate => UniquePayloadView::Generate,
            UniquePayload::GenerateOk { id } => UniquePayloadView::GenerateOk { id: id@ },
        }
    }
}

impl DeepView for UniquePayload {
    type V = UniquePayloadView;

    open spec fn deep_view(&self) -> UniquePayloadView {
        self@
    }
}

/// The length of an identifier's text.
pub const ID_LEN: usize = 26;

/// Whether `text` has the form of an identifier's text: `ID_LEN`
/// characters, each a digit or a capital letter other than I, L, O and U.
pub open spec fn is_id_text(text: Seq<char>) -> bool {
    &&& text.len() == ID_LEN
    &&& forall|i: int| 0 <= i < text.len() ==> "0123456789ABCDEFGHJKMNPQRSTVWXYZ"@.contains(#[trigger] text[i])
}

/// Calls `ulid::Ulid::new` and, on what it returns, `ulid::Ulid::to_string`.
/// The first draws on the clock and on a random source, so nothing is
/// claimed of which identifier comes back, nor that two calls differ. The
/// second writes the identifier's 128 bits as 26 characters taken from the
/// alphabet `0123456789ABCDEFGHJKMNPQRSTVWXYZ`; that form is all the
/// contract states. The call fails only where the system's random source
/// cannot be had, which no argument decides.
#[verifier::external_body]
fn new_ulid() -> (text: String)
    ensures
        is_id_text(text@),
{
    ulid::Ulid::new().to_string()
}

/// Some text has the form of an identifier's text.
pub proof fn lemma_id_text_exists() -> (text: Seq<char>)
    ensures
        is_id_text(text),
{
    reveal_strlit("0123456789ABCDEFGHJKMNPQRSTVWXYZ");
    let text = Seq::new(ID_LEN as nat, |i: int| '0');
    assert("0123456789ABCDEFGHJKMNPQRSTVWXYZ"@[0] == '0');
    text
}

impl UniquePayloadView {
    /// Whether the payload asks something of a node, as opposed to
    /// answering a request.
    pub open spec fn is_request(self) -> bool {
        self is Init || self is Generate
    }

    /// The payload of the answer owed to this payload, if one is owed, when
    /// `id` is the identifier to hand out: `InitOk` to `Init`, and to
    /// `Generate` a `GenerateOk` with `id`.
    pub open spec fn reply(self, id: Seq<char>) -> Option<UniquePayloadView> {
        match self {
            UniquePayloadView::Init { .. } => Some(UniquePayloadView::InitOk),
            UniquePayloadView::Generate => Some(UniquePayloadView::GenerateOk { id }),
            _ => None,
        }
    }
}

impl UniquePayload {
    /// The payload of the answer owed to this payload, if one is owed, when
    /// `id` is the identifier to hand out.
    pub fn reply_with(&self, id: String) -> (reply: Option<Self>)
        ensures
            reply.deep_view() == self@.reply(id@),
    {
        match self {
            Self::Init { .. } => Some(Self::InitOk),
            Self::Generate => Some(Self::GenerateOk { id }),
            _ => None,
        }
    }

    /// The payload of the answer owed to this payload, if one is owed. The
    /// answer to `Generate` carries an identifier made for it.
    pub fn gen_msg_payload(&self) -> (reply: Option<Self>)
        ensures
            exists|id: Seq<char>| is_id_text(id) && reply.deep_view() == self@.reply(id),
    {
        let id = match self {
            Self::Generate => new_ulid(),
            _ => String::new(),
        };
        let reply = self.reply_with(id);
        proof {
            if !(self@ is Generate) {
                let any = lemma_id_text_exists();
                assert(reply.deep_view() == self@.reply(any));
            }
        }
        reply
    }

    /// Whether the payload asks something of a node.
    pub fn is_request(&self) -> (request: bool)
        ensures
            request == self@.is_request(),
    {
        match self {
            Self::Init { .. } | Self::Generate => true,
            _ => false,
        }
    }
}

/// The envelopes that a unique-id node whose counter stands at `msg_id`
/// sends on receiving `input` when `id` is the identifier to hand out: the
/// answer, if one is owed, and nothing else.
pub open spec fn unique_outbound(msg_id: nat, input: MessageView<UniquePayloadView>, id: Seq<char>) -> Seq<
    MessageView<UniquePayloadView>,
> {
    match input.body.payload.reply(id) {
        Some(reply) => seq![input.reply(msg_id, reply)],
        None => Seq::empty(),
    }
}

/// A unique-id node: its counter of envelopes sent.
pub struct UniqueNode {
    msg_id: usize,
}

impl View for UniqueNode {
    type V = nat;

    closed spec fn view(&self) -> nat {
        self.msg_id as nat
    }
}

impl UniqueNode {
    /// A node that has sent nothing yet.
    pub fn new() -> (node: Self)
        ensures
            node@ == 0,
    {
        Self { msg_id: 0 }
    }

    /// The number that the next envelope sent will carry.
    pub fn msg_id(&self) -> (id: usize)
        ensures
            id == self@,
    {
        self.msg_id
    }

    /// Advances the counter by one.
    pub fn inc_id(&mut self)
        requires
            old(self)@ < usize::MAX,
        ensures
            final(self)@ == old(self)@ + 1,
    {
        self.msg_id += 1;
    }

    /// Wraps `reply`, the answer owed to `src_msg`, into the envelope that
    /// carries it back, and counts that envelope.
    pub fn respond(&mut self, src_msg: Message<UniquePayload>, reply: Option<UniquePayload>) -> (out: Vec<
        Message<UniquePayload>,
    >)
        requires
            reply is Some ==> old(self)@ < usize::MAX,
        ensures
            out.deep_view() == match reply {
                Some(payload) => seq![src_msg@.reply(old(self)@, payload@)],
                None => Seq::empty(),
            },
            final(self)@ == old(self)@ + out@.len(),
    {
        let mut result: Vec<Message<UniquePayload>> = Vec::new();
        if let Some(payload) = reply {
            result.push(
                Message {
                    src: src_msg.dest,
                    dest: src_msg.src,
                    body: Body { msg_id: Some(self.msg_id), in_reply_to: src_msg.body.msg_id, payload },
                },
            );
            self.inc_id();
        }
        result
    }
}

impl GenericNode<UniquePayload> for UniqueNode {
    open spec fn next_msg_id(&self) -> nat {
        self@
    }

    open spec fn accepts(&self, input: MessageView<UniquePayloadView>) -> bool {
        input.body.payload.is_request() && self@ < usize::MAX
    }

    fn can_process(&self, input: &Message<UniquePayload>) -> (ok: bool) {
        input.body.payload.is_request() && self.msg_id < usize::MAX
    }

    fn process(&mut self, src_msg: Message<UniquePayload>) -> (out: Vec<Message<UniquePayload>>)
        ensures
            exists|id: Seq<char>| is_id_text(id) && out.deep_view() == unique_outbound(old(self)@, src_msg@, id),
    {
        let reply = src_msg.body.payload.gen_msg_payload();
        let ghost id = choose|id: Seq<char>| is_id_text(id) && reply.deep_view() == src_msg@.body.payload.reply(id);
        let out = self.respond(src_msg, reply);
        assert(out.deep_view() == unique_outbound(old(self)@, src_msg@, id));
        out
    }
}

} // verus!

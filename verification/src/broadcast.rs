//! The broadcast node: it records each value it is told to broadcast, once,
//! and passes a newly recorded value on to its neighbours in the topology.

use crate::message::{Body, Message, MessageView};
use crate::node::{numbered_from, GenericNode};
use crate::topology::TopologyGraph;
use vstd::prelude::*;

verus! {

/// What a broadcast node receives and sends.
#[derive(Debug, Clone)]
pub enum BroadcastPayload {
    Init { node_id: String, node_ids: Vec<String> },
    InitOk,
    Broadcast { message: isize },
    BroadcastOk,
    Read,
    ReadOk { messages: Vec<isize> },
    Topology { topology: TopologyGraph },
    TopologyOk,
}

/// What a [`BroadcastPayload`] stands for.
pub enum BroadcastPayloadView {
    Init { node_id: Seq<char>, node_ids: Seq<Seq<char>> },
    InitOk,
    Broadcast { message: isize },
    BroadcastOk,
    Read,
    ReadOk { messages: Seq<isize> },
    Topology { topology: Map<Seq<char>, Seq<Seq<char>>> },
    TopologyOk,
}

impl View for BroadcastPayload {
    type V = BroadcastPayloadView;

    open spec fn view(&self) -> BroadcastPayloadView {
        match self {
            BroadcastPayload::Init { node_id, node_ids } => BroadcastPayloadView::Init {
                node_id: node_id@,
                node_ids: node_ids.deep_view(),
            },
            BroadcastPayload::InitOk => BroadcastPayloadView::InitOk,
            BroadcastPayload::Broadcast { message } => BroadcastPayloadView::Broadcast { message: *message },
            BroadcastPayload::BroadcastOk => BroadcastPayloadView::BroadcastOk,
            BroadcastPayload::Read => BroadcastPayloadView::Read,
            BroadcastPayload::ReadOk { messages } => BroadcastPayloadView::ReadOk { messages: messages@ },
            BroadcastPayload::Topology { topology } => BroadcastPayloadView::Topology { topology: topology@ },
            BroadcastPayload::TopologyOk => BroadcastPayloadView::TopologyOk,
        }
    }
}

impl DeepView for BroadcastPayload {
    type V = BroadcastPayloadView;

    open spec fn deep_view(&self) -> BroadcastPayloadView {
        self@
    }
}

/// What a [`BroadcastState`] stands for: the node's own name, the values
/// recorded so far in the order in which they first came, and the topology
/// last received.
pub struct BroadcastStateView {
    pub node_id: Seq<char>,
    pub messages: Seq<isize>,
    pub topology: Map<Seq<char>, Seq<Seq<char>>>,
}

impl BroadcastPayloadView {
    /// Whether the payload asks something of a node, as opposed to
    /// answering a request.
    pub open spec fn is_request(self) -> bool {
        self is Init || self is Broadcast || self is Read || self is Topology
    }

    /// The payload of the answer that a node in state `state` owes to this
    /// payload, if it owes one.
    pub open spec fn reply(self, state: BroadcastStateView) -> Option<BroadcastPayloadView> {
        match self {
            BroadcastPayloadView::Init { .. } => Some(BroadcastPayloadView::InitOk),
            BroadcastPayloadView::Broadcast { .. } => Some(BroadcastPayloadView::BroadcastOk),
            BroadcastPayloadView::Read => Some(BroadcastPayloadView::ReadOk { messages: state.messages }),
            BroadcastPayloadView::Topology { .. } => Some(BroadcastPayloadView::TopologyOk),
            _ => None,
        }
    }
}

impl BroadcastStateView {
    /// The state of a node that has received nothing yet.
    pub open spec fn fresh() -> BroadcastStateView {
        BroadcastStateView { node_id: Seq::empty(), messages: Seq::empty(), topology: Map::empty() }
    }

    /// Whether no value is recorded twice.
    pub open spec fn wf(self) -> bool {
        self.messages.no_duplicates()
    }

    /// Whether `payload` broadcasts a value that is already recorded.
    pub open spec fn has_delivered(self, payload: BroadcastPayloadView) -> bool {
        payload matches BroadcastPayloadView::Broadcast { message } && self.messages.contains(message)
    }

    /// The state after `payload` has been applied: `Init` sets the node's
    /// name, `Broadcast` records a value not recorded before, `Topology`
    /// replaces the topology, and anything else changes nothing.
    pub open spec fn update(self, payload: BroadcastPayloadView) -> BroadcastStateView {
        match payload {
            BroadcastPayloadView::Init { node_id, .. } => BroadcastStateView { node_id, ..self },
            BroadcastPayloadView::Broadcast { message } => if self.messages.contains(message) {
                self
            } else {
                BroadcastStateView { messages: self.messages.push(message), ..self }
            },
            BroadcastPayloadView::Topology { topology } => BroadcastStateView { topology, ..self },
            _ => self,
        }
    }

    /// The neighbours that the topology lists for the node itself, in the
    /// listed order; none where it lists the node not at all.
    pub open spec fn neighbours(self) -> Seq<Seq<char>> {
        if self.topology.contains_key(self.node_id) {
            self.topology[self.node_id]
        } else {
            Seq::empty()
        }
    }

    /// The envelopes that pass `payload` on: where it is a `Broadcast`, one
    /// to each neighbour in order, numbered from `first_id`, each answering
    /// nothing; otherwise none.
    pub open spec fn fanout(self, payload: BroadcastPayloadView, first_id: nat) -> Seq<
        MessageView<BroadcastPayloadView>,
    > {
        if payload is Broadcast {
            Seq::new(
                self.neighbours().len(),
                |i: int|
                    MessageView::originated(self.node_id, self.neighbours()[i], (first_id + i) as nat, payload),
            )
        } else {
            Seq::empty()
        }
    }
}

/// Whether `value` stands in `list`.
fn holds(list: &Vec<isize>, value: isize) -> (found: bool)
    ensures
        found == list@.contains(value),
{
    let mut i: usize = 0;
    while i < list.len()
        invariant
            i <= list.len(),
            forall|k: int| 0 <= k < i ==> list@[k] != value,
        decreases list.len() - i,
    {
        if list[i] == value {
            return true;
        }
        i += 1;
    }
    false
}

/// What a broadcast node keeps between envelopes.
pub struct BroadcastState {
    node_id: String,
    messages: Vec<isize>,
    topology: TopologyGraph,
}

impl View for BroadcastState {
    type V = BroadcastStateView;

    closed spec fn view(&self) -> BroadcastStateView {
        BroadcastStateView { node_id: self.node_id@, messages: self.messages@, topology: self.topology@ }
    }
}

impl BroadcastState {
    #[verifier::type_invariant]
    spec fn recorded_once(self) -> bool {
        self.messages@.no_duplicates()
    }

    /// The state of a node that has received nothing yet.
    pub fn new() -> (state: Self)
        ensures
            state@ == BroadcastStateView::fresh(),
    {
        Self { node_id: String::new(), messages: Vec::new(), topology: TopologyGraph::new() }
    }

    /// The node's own name; empty until an `Init` has set it.
    pub fn node_id(&self) -> (name: &String)
        ensures
            name@ == self@.node_id,
    {
        &self.node_id
    }

    /// The values recorded so far, in the order in which they first came.
    /// None stands there twice.
    pub fn messages(&self) -> (values: &Vec<isize>)
        ensures
            values@ == self@.messages,
            self@.wf(),
    {
        proof {
            use_type_invariant(self);
        }
        &self.messages
    }

    /// The topology last received; empty until one has come.
    pub fn topology(&self) -> (graph: &TopologyGraph)
        ensures
            graph@ == self@.topology,
    {
        &self.topology
    }

    /// Applies `payload` to the state.
    pub fn update(&mut self, payload: &BroadcastPayload)
        ensures
            final(self)@ == old(self)@.update(payload@),
            final(self)@.wf(),
    {
        proof {
            use_type_invariant(&*self);
        }
        match payload {
            BroadcastPayload::Init { node_id, .. } => {
                self.node_id = node_id.clone();
            },
            BroadcastPayload::Broadcast { message } => {
                if !holds(&self.messages, *message) {
                    let mut messages: Vec<isize> = Vec::new();
                    std::mem::swap(&mut messages, &mut self.messages);
                    messages.push(*message);
                    self.messages = messages;
                }
            },
            BroadcastPayload::Topology { topology } => {
                self.topology = topology.clone();
            },
            _ => {},
        }
    }
}

impl BroadcastPayload {
    /// The payload of the answer that a node in state `state` owes to this
    /// payload, if it owes one.
    pub fn gen_msg_payload(&self, state: &BroadcastState) -> (reply: Option<Self>)
        ensures
            reply.deep_view() == self@.reply(state@),
    {
        match self {
            Self::Init { .. } => Some(Self::InitOk),
            Self::Broadcast { .. } => Some(Self::BroadcastOk),
            Self::Read => Some(Self::ReadOk { messages: state.messages.clone() }),
            Self::Topology { .. } => Some(Self::TopologyOk),
            _ => None,
        }
    }

    /// Whether the payload asks something of a node.
    pub fn is_request(&self) -> (request: bool)
        ensures
            request == self@.is_request(),
    {
        match self {
            Self::Init { .. } | Self::Broadcast { .. } | Self::Read | Self::Topology { .. } => true,
            _ => false,
        }
    }
}

/// What a [`BroadcastNode`] stands for: the number that the next envelope
/// sent will carry, and the state.
pub struct BroadcastNodeView {
    pub msg_id: nat,
    pub state: BroadcastStateView,
}

impl BroadcastNodeView {
    /// A node that has received nothing and sent nothing yet.
    pub open spec fn fresh() -> BroadcastNodeView {
        BroadcastNodeView { msg_id: 0, state: BroadcastStateView::fresh() }
    }

    /// The direct answer to `input`, as a sequence of at most one envelope.
    /// A `Broadcast` of a value already recorded gets none, and neither
    /// does a payload that is itself an answer.
    pub open spec fn answer(self, input: MessageView<BroadcastPayloadView>) -> Seq<
        MessageView<BroadcastPayloadView>,
    > {
        let payload = input.body.payload;
        if self.state.has_delivered(payload) {
            Seq::empty()
        } else {
            match payload.reply(self.state.update(payload)) {
                Some(reply) => seq![input.reply(self.msg_id, reply)],
                None => Seq::empty(),
            }
        }
    }

    /// The envelopes that the node sends on receiving `input`, in sending
    /// order: the direct answer, then, for a `Broadcast` of a value not
    /// recorded before, one envelope to each neighbour.
    pub open spec fn outbound(self, input: MessageView<BroadcastPayloadView>) -> Seq<
        MessageView<BroadcastPayloadView>,
    > {
        let payload = input.body.payload;
        let answer = self.answer(input);
        if self.state.has_delivered(payload) {
            answer
        } else {
            answer + self.state.update(payload).fanout(payload, self.msg_id + answer.len())
        }
    }

    /// The node after it has received `input`.
    pub open spec fn step(self, input: MessageView<BroadcastPayloadView>) -> BroadcastNodeView {
        BroadcastNodeView {
            msg_id: self.msg_id + self.outbound(input).len(),
            state: self.state.update(input.body.payload),
        }
    }
}

/// A broadcast node: its counter of envelopes sent, and its state.
pub struct BroadcastNode {
    msg_id: usize,
    state: BroadcastState,
}

impl View for BroadcastNode {
    type V = BroadcastNodeView;

    closed spec fn view(&self) -> BroadcastNodeView {
        BroadcastNodeView { msg_id: self.msg_id as nat, state: self.state@ }
    }
}

impl BroadcastNode {
    /// A node that has received nothing and sent nothing yet.
    pub fn new() -> (node: Self)
        ensures
            node@ == BroadcastNodeView::fresh(),
    {
        Self { msg_id: 0, state: BroadcastState::new() }
    }

    /// The number that the next envelope sent will carry.
    pub fn msg_id(&self) -> (id: usize)
        ensures
            id == self@.msg_id,
    {
        self.msg_id
    }

    /// What the node keeps between envelopes.
    pub fn state(&self) -> (state: &BroadcastState)
        ensures
            state@ == self@.state,
    {
        &self.state
    }

    /// Advances the counter by one.
    pub fn inc_id(&mut self)
        requires
            old(self)@.msg_id < usize::MAX,
        ensures
            final(self)@ == (BroadcastNodeView { msg_id: old(self)@.msg_id + 1, ..old(self)@ }),
    {
        self.msg_id += 1;
    }
}

impl GenericNode<BroadcastPayload> for BroadcastNode {
    open spec fn next_msg_id(&self) -> nat {
        self@.msg_id
    }

    open spec fn accepts(&self, input: MessageView<BroadcastPayloadView>) -> bool {
        input.body.payload.is_request() && self@.msg_id + self@.outbound(input).len() <= usize::MAX
    }

    fn can_process(&self, input: &Message<BroadcastPayload>) -> (ok: bool) {
        if !input.body.payload.is_request() {
            return false;
        }
        let room: usize = usize::MAX - self.msg_id;
        match &input.body.payload {
            BroadcastPayload::Broadcast { message } => {
                if holds(&self.state.messages, *message) {
                    true
                } else {
                    let fan: usize = match self.state.topology.get(&self.state.node_id) {
                        Some(neighbours) => neighbours.len(),
                        None => 0,
                    };
                    room >= 1 && room - 1 >= fan
                }
            },
            _ => room >= 1,
        }
    }

    fn process(&mut self, src_msg: Message<BroadcastPayload>) -> (out: Vec<Message<BroadcastPayload>>)
        ensures
            out.deep_view() == old(self)@.outbound(src_msg@),
            final(self)@ == old(self)@.step(src_msg@),
            final(self)@.state.wf(),
    {
        proof {
            use_type_invariant(&self.state);
        }
        let mut result: Vec<Message<BroadcastPayload>> = Vec::new();
        let ghost input = src_msg@;
        let ghost before = self@;
        let Message { src, dest, body } = src_msg;
        let Body { msg_id: inbound_id, in_reply_to: _, payload } = body;

        // A value already recorded is neither answered nor passed on.
        let is_acknowledged = match &payload {
            BroadcastPayload::Broadcast { message } => holds(&self.state.messages, *message),
            _ => false,
        };
        if is_acknowledged {
            return result;
        }
        self.state.update(&payload);

        if let Some(reply) = payload.gen_msg_payload(&self.state) {
            result.push(
                Message {
                    src: dest,
                    dest: src,
                    body: Body { msg_id: Some(self.msg_id), in_reply_to: inbound_id, payload: reply },
                },
            );
            self.inc_id();
        }

        // A value recorded just now goes to each neighbour, under a number of its own.
        if let BroadcastPayload::Broadcast { message } = payload {
            let ghost state = self.state@;
            let ghost first = self.msg_id as nat;
            let ghost fanout = state.fanout(input.body.payload, first);
            if let Some(neighbours) = self.state.topology.get(&self.state.node_id) {
                let mut i: usize = 0;
                while i < neighbours.len()
                    invariant
                        i <= neighbours.len(),
                        neighbours.deep_view() == state.neighbours(),
                        self.state@ == state,
                        self.msg_id == first + i,
                        first + neighbours.len() <= usize::MAX,
                        input.body.payload == (BroadcastPayloadView::Broadcast { message }),
                        fanout == state.fanout(input.body.payload, first),
                        result.deep_view() == before.answer(input) + fanout.take(i as int),
                    decreases neighbours.len() - i,
                {
                    let ghost sent = result.deep_view();
                    result.push(
                        Message {
                            src: self.state.node_id.clone(),
                            dest: neighbours[i].clone(),
                            body: Body {
                                msg_id: Some(self.msg_id),
                                in_reply_to: None,
                                payload: BroadcastPayload::Broadcast { message },
                            },
                        },
                    );
                    assert(result.deep_view() =~= sent.push(fanout[i as int]));
                    self.msg_id += 1;
                    i += 1;
                }
            }
        }
        proof {
            lemma_outbound_numbered(before, input);
        }
        result
    }
}

/// The envelopes sent on one input carry the numbers that follow the
/// counter, in order.
pub proof fn lemma_outbound_numbered(node: BroadcastNodeView, input: MessageView<BroadcastPayloadView>)
    ensures
        numbered_from(node.outbound(input), node.msg_id),
{
}

} // verus!

//! What holds of a broadcast node over the envelopes it receives, one
//! after another.

use crate::broadcast::{BroadcastNodeView, BroadcastPayloadView, BroadcastStateView, lemma_outbound_numbered};
use crate::message::MessageView;
use crate::node::{lemma_numbered_concat, numbered_from};
use vstd::prelude::*;

verus! {

/// Whether `value` stands in `list` at one place and no other.
pub open spec fn occurs_once(list: Seq<isize>, value: isize) -> bool {
    exists|i: int|
        0 <= i < list.len() && list[i] == value && forall|j: int|
            0 <= j < list.len() && list[j] == value ==> j == i
}

/// Whether `input` asks to broadcast `value`.
pub open spec fn broadcasts(input: MessageView<BroadcastPayloadView>, value: isize) -> bool {
    input.body.payload == (BroadcastPayloadView::Broadcast { message: value })
}

impl BroadcastNodeView {
    /// The node after it has received `inputs`, first to last.
    pub open spec fn run(self, inputs: Seq<MessageView<BroadcastPayloadView>>) -> BroadcastNodeView
        decreases inputs.len(),
    {
        if inputs.len() == 0 {
            self
        } else {
            self.run(inputs.drop_last()).step(inputs.last())
        }
    }

    /// All that the node sends while it receives `inputs`, in sending order.
    pub open spec fn sent(self, inputs: Seq<MessageView<BroadcastPayloadView>>) -> Seq<
        MessageView<BroadcastPayloadView>,
    >
        decreases inputs.len(),
    {
        if inputs.len() == 0 {
            Seq::empty()
        } else {
            self.sent(inputs.drop_last()) + self.run(inputs.drop_last()).outbound(inputs.last())
        }
    }
}

/// One step keeps what a state must satisfy and takes nothing back: no
/// value is recorded twice afterwards, and what was recorded before still
/// stands where it stood. Only `Init` changes the node's name, and only
/// `Topology` changes the topology, which it replaces whole.
pub proof fn lemma_step_preserves_state(node: BroadcastNodeView, input: MessageView<BroadcastPayloadView>)
    requires
        node.state.wf(),
    ensures
        node.step(input).state.wf(),
        node.state.messages.is_prefix_of(node.step(input).state.messages),
        !(input.body.payload is Init) ==> node.step(input).state.node_id == node.state.node_id,
        input.body.payload matches BroadcastPayloadView::Init { node_id, .. } ==> node.step(input).state.node_id
            == node_id,
        !(input.body.payload is Topology) ==> node.step(input).state.topology == node.state.topology,
        input.body.payload matches BroadcastPayloadView::Topology { topology } ==> node.step(
            input,
        ).state.topology == topology,
{
}

/// A `Broadcast` of a value never recorded is answered with `BroadcastOk`
/// to the sender and passed on, unchanged, to each neighbour that the
/// topology lists for the node, in the listed order. The answer carries the
/// counter's number, the envelope to neighbour `i` the number `i + 1` later,
/// and the value is recorded last.
pub proof fn lemma_new_value_is_flooded(
    node: BroadcastNodeView,
    input: MessageView<BroadcastPayloadView>,
    value: isize,
)
    requires
        broadcasts(input, value),
        !node.state.messages.contains(value),
    ensures
        node.outbound(input).len() == 1 + node.state.neighbours().len(),
        node.outbound(input)[0] == input.reply(node.msg_id, BroadcastPayloadView::BroadcastOk),
        forall|i: int|
            0 <= i < node.state.neighbours().len() ==> #[trigger] node.outbound(input)[1 + i]
                == MessageView::originated(
                node.state.node_id,
                node.state.neighbours()[i],
                (node.msg_id + 1 + i) as nat,
                input.body.payload,
            ),
        node.step(input).state.messages == node.state.messages.push(value),
        node.step(input).msg_id == node.msg_id + 1 + node.state.neighbours().len(),
{
}

/// A `Broadcast` of a value already recorded changes nothing and sends
/// nothing.
pub proof fn lemma_known_value_is_dropped(
    node: BroadcastNodeView,
    input: MessageView<BroadcastPayloadView>,
    value: isize,
)
    requires
        broadcasts(input, value),
        node.state.messages.contains(value),
    ensures
        node.outbound(input) == Seq::<MessageView<BroadcastPayloadView>>::empty(),
        node.step(input) == node,
{
}

/// A value asked for twice is recorded exactly once, whatever the node
/// receives in between, and the second request sends nothing and changes
/// nothing.
pub proof fn lemma_broadcast_idempotent(
    node: BroadcastNodeView,
    first: MessageView<BroadcastPayloadView>,
    between: Seq<MessageView<BroadcastPayloadView>>,
    second: MessageView<BroadcastPayloadView>,
    value: isize,
)
    requires
        node.state.wf(),
        broadcasts(first, value),
        broadcasts(second, value),
    ensures
        node.step(first).run(between).outbound(second) == Seq::<MessageView<BroadcastPayloadView>>::empty(),
        node.step(first).run(between).step(second) == node.step(first).run(between),
        occurs_once(node.step(first).run(between).step(second).state.messages, value),
{
    let once = node.step(first);
    let later = once.run(between);
    lemma_step_preserves_state(node, first);
    lemma_run_numbers_envelopes(once, between);
    assert(once.state.messages.contains(value)) by {
        if !node.state.messages.contains(value) {
            assert(once.state.messages.last() == value);
        }
    }
    let list = later.state.messages;
    assert(list.contains(value)) by {
        let at = choose|at: int| 0 <= at < once.state.messages.len() && once.state.messages[at] == value;
        assert(list[at] == value);
    }
    lemma_known_value_is_dropped(later, second, value);
    let i = choose|i: int| 0 <= i < list.len() && list[i] == value;
    assert(0 <= i < list.len() && list[i] == value && forall|j: int|
        0 <= j < list.len() && list[j] == value ==> j == i);
}

/// Of two `Topology` envelopes in a row the second alone decides where a
/// later `Broadcast` goes: a value not recorded before is passed on to the
/// neighbours that the second graph lists for the node, in its order, and to
/// nobody where it lists the node not at all. What the first graph listed
/// plays no part.
pub proof fn lemma_topology_is_replaced(
    node: BroadcastNodeView,
    first: MessageView<BroadcastPayloadView>,
    second: MessageView<BroadcastPayloadView>,
    earlier: Map<Seq<char>, Seq<Seq<char>>>,
    later: Map<Seq<char>, Seq<Seq<char>>>,
    third: MessageView<BroadcastPayloadView>,
    value: isize,
)
    requires
        first.body.payload == (BroadcastPayloadView::Topology { topology: earlier }),
        second.body.payload == (BroadcastPayloadView::Topology { topology: later }),
        broadcasts(third, value),
        !node.state.messages.contains(value),
    ensures
        ({
            let after = node.step(first).step(second);
            let name = node.state.node_id;
            let targets = if later.contains_key(name) {
                later[name]
            } else {
                Seq::<Seq<char>>::empty()
            };
            &&& after.state.topology == later
            &&& after.state.node_id == name
            &&& after.outbound(third).len() == 1 + targets.len()
            &&& after.outbound(third)[0] == third.reply(after.msg_id, BroadcastPayloadView::BroadcastOk)
            &&& forall|i: int|
                0 <= i < targets.len() ==> #[trigger] after.outbound(third)[1 + i] == MessageView::originated(
                    name,
                    targets[i],
                    (after.msg_id + 1 + i) as nat,
                    third.body.payload,
                )
        }),
{
    lemma_new_value_is_flooded(node.step(first).step(second), third, value);
}

/// A node that has received nothing takes `Init` by storing the name it is
/// given and answering `InitOk` once, under the number 0.
pub proof fn lemma_init_on_fresh_node(
    input: MessageView<BroadcastPayloadView>,
    node_id: Seq<char>,
    node_ids: Seq<Seq<char>>,
)
    requires
        input.body.payload == (BroadcastPayloadView::Init { node_id, node_ids }),
    ensures
        BroadcastNodeView::fresh().outbound(input) == seq![input.reply(0, BroadcastPayloadView::InitOk)],
        BroadcastNodeView::fresh().step(input) == (BroadcastNodeView {
            msg_id: 1,
            state: BroadcastStateView { node_id, ..BroadcastStateView::fresh() },
        }),
{
    let node = BroadcastNodeView::fresh();
    assert(node.outbound(input) =~= seq![input.reply(0, BroadcastPayloadView::InitOk)]);
}

/// Over any run the envelopes sent carry the numbers from the counter's
/// first value on, one after another with none left out and none twice, and
/// the counter ends that many higher. No value is recorded twice on the way,
/// and what was recorded at the start still stands where it stood.
pub proof fn lemma_run_numbers_envelopes(node: BroadcastNodeView, inputs: Seq<MessageView<BroadcastPayloadView>>)
    requires
        node.state.wf(),
    ensures
        numbered_from(node.sent(inputs), node.msg_id),
        node.run(inputs).msg_id == node.msg_id + node.sent(inputs).len(),
        node.run(inputs).state.wf(),
        node.state.messages.is_prefix_of(node.run(inputs).state.messages),
    decreases inputs.len(),
{
    if inputs.len() > 0 {
        let earlier = inputs.drop_last();
        let midway = node.run(earlier);
        lemma_run_numbers_envelopes(node, earlier);
        lemma_outbound_numbered(midway, inputs.last());
        lemma_numbered_concat(node.sent(earlier), midway.outbound(inputs.last()), node.msg_id);
        lemma_step_preserves_state(midway, inputs.last());
    }
}

/// Whether, among `inputs`, `first` was asked for at a time when `second`
/// had not been asked for yet.
pub open spec fn came_before(inputs: Seq<MessageView<BroadcastPayloadView>>, first: isize, second: isize) -> bool {
    exists|k: int|
        0 <= k < inputs.len() && broadcasts(#[trigger] inputs[k], first) && forall|e: int|
            0 <= e <= k ==> !broadcasts(#[trigger] inputs[e], second)
}

/// After a run from a node that has received nothing, the values recorded
/// are those that some input asked to broadcast, each once, in the order in
/// which each first came: of two recorded values, the one that stands first
/// was asked for at a time when the other had not been asked for yet. A
/// `Read` that follows is answered with exactly these values in this order.
pub proof fn lemma_ledger_is_first_delivery_order(inputs: Seq<MessageView<BroadcastPayloadView>>)
    ensures
        ({
            let ledger = BroadcastNodeView::fresh().run(inputs).state.messages;
            &&& ledger.no_duplicates()
            &&& forall|value: isize|
                ledger.contains(value) <==> exists|k: int|
                    0 <= k < inputs.len() && broadcasts(#[trigger] inputs[k], value)
            &&& forall|i: int, j: int|
                0 <= i < j < ledger.len() ==> #[trigger] came_before(inputs, ledger[i], ledger[j])
            &&& forall|read: MessageView<BroadcastPayloadView>|
                read.body.payload == BroadcastPayloadView::Read ==> #[trigger] BroadcastNodeView::fresh().run(
                    inputs,
                ).outbound(read) == seq![
                    read.reply(
                        BroadcastNodeView::fresh().run(inputs).msg_id,
                        BroadcastPayloadView::ReadOk { messages: ledger },
                    ),
                ]
        }),
    decreases inputs.len(),
{
    let node = BroadcastNodeView::fresh();
    let ledger = node.run(inputs).state.messages;
    if inputs.len() > 0 {
        let earlier = inputs.drop_last();
        let before = node.run(earlier).state.messages;
        let last = inputs.len() - 1;
        lemma_ledger_is_first_delivery_order(earlier);
        lemma_run_numbers_envelopes(node, inputs);
        assert forall|value: isize| ledger.contains(value) implies exists|k: int|
            0 <= k < inputs.len() && broadcasts(#[trigger] inputs[k], value) by {
            if before.contains(value) {
                let k = choose|k: int| 0 <= k < earlier.len() && broadcasts(#[trigger] earlier[k], value);
                assert(broadcasts(inputs[k], value));
            } else {
                assert(broadcasts(inputs[last], value));
            }
        }
        assert forall|value: isize|
            (exists|k: int| 0 <= k < inputs.len() && broadcasts(#[trigger] inputs[k], value)) implies ledger.contains(
            value,
        ) by {
            let k = choose|k: int| 0 <= k < inputs.len() && broadcasts(#[trigger] inputs[k], value);
            if k < last {
                assert(broadcasts(earlier[k], value));
                assert(before.contains(value));
                let at = choose|at: int| 0 <= at < before.len() && before[at] == value;
                lemma_step_preserves_state(node.run(earlier), inputs.last());
                assert(ledger[at] == value);
            } else if !before.contains(value) {
                assert(ledger.last() == value);
            }
        }
        assert forall|i: int, j: int| 0 <= i < j < ledger.len() implies #[trigger] came_before(
            inputs,
            ledger[i],
            ledger[j],
        ) by {
            lemma_step_preserves_state(node.run(earlier), inputs.last());
            if j < before.len() {
                assert(ledger[i] == before[i] && ledger[j] == before[j]);
                assert(came_before(earlier, before[i], before[j]));
                let k = choose|k: int|
                    0 <= k < earlier.len() && broadcasts(#[trigger] earlier[k], before[i]) && forall|e: int|
                        0 <= e <= k ==> !broadcasts(#[trigger] earlier[e], before[j]);
                assert(broadcasts(inputs[k], ledger[i]));
                assert forall|e: int| 0 <= e <= k implies !broadcasts(#[trigger] inputs[e], ledger[j]) by {
                    assert(!broadcasts(earlier[e], before[j]));
                }
            } else {
                assert(ledger[i] == before[i]);
                assert(before.contains(ledger[i]));
                let k = choose|k: int| 0 <= k < earlier.len() && broadcasts(#[trigger] earlier[k], ledger[i]);
                assert(broadcasts(inputs[k], ledger[i]));
                assert(!before.contains(ledger[j])) by {
                    if before.contains(ledger[j]) {
                        let at = choose|at: int| 0 <= at < before.len() && before[at] == ledger[j];
                        assert(ledger[at] == ledger[j]);
                    }
                }
                assert forall|e: int| 0 <= e <= k implies !broadcasts(#[trigger] inputs[e], ledger[j]) by {
                    if broadcasts(inputs[e], ledger[j]) {
                        assert(broadcasts(earlier[e], ledger[j]));
                    }
                }
            }
        }
    }
    assert forall|read: MessageView<BroadcastPayloadView>|
        read.body.payload == BroadcastPayloadView::Read implies #[trigger] node.run(inputs).outbound(read) == seq![
        read.reply(node.run(inputs).msg_id, BroadcastPayloadView::ReadOk { messages: ledger }),
    ] by {
        assert(node.run(inputs).outbound(read) =~= seq![
            read.reply(node.run(inputs).msg_id, BroadcastPayloadView::ReadOk { messages: ledger }),
        ]);
    }
}

/// From a node that has received nothing, envelope `i` of all that is sent
/// carries the number `i`.
pub proof fn lemma_ids_count_from_zero(inputs: Seq<MessageView<BroadcastPayloadView>>, i: int)
    requires
        0 <= i < BroadcastNodeView::fresh().sent(inputs).len(),
    ensures
        BroadcastNodeView::fresh().sent(inputs)[i].body.msg_id == Some(i as nat),
{
    lemma_run_numbers_envelopes(BroadcastNodeView::fresh(), inputs);
}

} // verus!

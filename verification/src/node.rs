//! The interface every node kind offers, and what holds of the numbers on
//! the envelopes a node sends.

use crate::message::{Message, MessageView};
use vstd::prelude::*;

verus! {

/// Whether the envelopes of `out` carry the numbers `start`, `start + 1`,
/// and so on, in the order in which they stand.
pub open spec fn numbered_from<V>(out: Seq<MessageView<V>>, start: nat) -> bool {
    forall|i: int| 0 <= i < out.len() ==> (#[trigger] out[i]).body.msg_id == Some((start + i) as nat)
}

/// Envelopes numbered from `start`, followed by envelopes numbered from
/// where the first ones end, are together numbered from `start`.
pub proof fn lemma_numbered_concat<V>(first: Seq<MessageView<V>>, second: Seq<MessageView<V>>, start: nat)
    requires
        numbered_from(first, start),
        numbered_from(second, start + first.len()),
    ensures
        numbered_from(first + second, start),
{
    assert forall|i: int| 0 <= i < (first + second).len() implies (#[trigger] (first + second)[i]).body.msg_id
        == Some((start + i) as nat) by {
        if i < first.len() {
            assert((first + second)[i] == first[i]);
        } else {
            assert((first + second)[i] == second[i - first.len()]);
        }
    }
}

/// The sequences of `batches` laid end to end.
pub open spec fn joined<V>(batches: Seq<Seq<MessageView<V>>>) -> Seq<MessageView<V>>
    decreases batches.len(),
{
    if batches.len() == 0 {
        Seq::empty()
    } else {
        joined(batches.drop_last()) + batches.last()
    }
}

/// Where a node's counter stands at `start` and the node then returns
/// `batches`, one batch per envelope received, each numbered from where the
/// batches before it end, all that it has sent is numbered from `start`: the
/// numbers run on across the batches, none left out and none twice. From a
/// counter at 0, envelope `i` of all that is sent carries the number `i`.
pub proof fn lemma_batches_numbered<V>(batches: Seq<Seq<MessageView<V>>>, start: nat)
    requires
        forall|k: int|
            0 <= k < batches.len() ==> numbered_from(
                #[trigger] batches[k],
                start + joined(batches.take(k)).len(),
            ),
    ensures
        numbered_from(joined(batches), start),
    decreases batches.len(),
{
    if batches.len() > 0 {
        let earlier = batches.drop_last();
        assert forall|k: int| 0 <= k < earlier.len() implies numbered_from(
            #[trigger] earlier[k],
            start + joined(earlier.take(k)).len(),
        ) by {
            assert(earlier.take(k) =~= batches.take(k));
        }
        lemma_batches_numbered(earlier, start);
        assert(batches.take(batches.len() - 1) =~= earlier);
        lemma_numbered_concat(joined(earlier), batches.last(), start);
    }
}

/// In envelopes numbered from `start` no number occurs twice, and the
/// numbers grow along the sequence.
pub proof fn lemma_numbered_strictly_increasing<V>(out: Seq<MessageView<V>>, start: nat, i: int, j: int)
    requires
        numbered_from(out, start),
        0 <= i < j < out.len(),
    ensures
        out[i].body.msg_id is Some,
        out[j].body.msg_id is Some,
        out[i].body.msg_id->0 < out[j].body.msg_id->0,
{
}

/// A node: something that takes one inbound envelope at a time and answers
/// with the envelopes to send.
pub trait GenericNode<P: View> {
    /// The number that the next envelope sent will carry.
    spec fn next_msg_id(&self) -> nat;

    /// Whether the node takes `input`: it carries a request of the node's
    /// protocol, and the numbers for what must be sent fit the counter.
    spec fn accepts(&self, input: MessageView<P::V>) -> bool;

    /// Tests whether `process` may be called with `input`.
    fn can_process(&self, input: &Message<P>) -> (ok: bool)
        ensures
            ok == self.accepts(input@),
    ;

    /// Takes `input` and returns the envelopes to send, in sending order.
    /// Each carries the next number of the node's counter, which advances
    /// by one per envelope returned.
    fn process(&mut self, input: Message<P>) -> (out: Vec<Message<P>>)
        requires
            old(self).accepts(input@),
        ensures
            numbered_from(out.deep_view(), old(self).next_msg_id()),
            final(self).next_msg_id() == old(self).next_msg_id() + out@.len(),
    ;
}

} // verus!

//! Message envelopes and their mathematical views.

use vstd::prelude::*;

verus! {

/// An envelope: who sent it, who it is for, and what it carries.
#[derive(Debug, Clone)]
pub struct Message<P> {
    pub src: String,
    pub dest: String,
    pub body: Body<P>,
}

/// The part of an envelope below the addresses: the sender's sequence
/// number, the sequence number of the envelope this one answers (absent on
/// an envelope that answers none), and the payload.
#[derive(Debug, Clone)]
pub struct Body<P> {
    pub msg_id: Option<usize>,
    pub in_reply_to: Option<usize>,
    pub payload: P,
}

/// What a [`Body`] stands for.
pub struct BodyView<V> {
    pub msg_id: Option<nat>,
    pub in_reply_to: Option<nat>,
    pub payload: V,
}

/// What a [`Message`] stands for.
pub struct MessageView<V> {
    pub src: Seq<char>,
    pub dest: Seq<char>,
    pub body: BodyView<V>,
}

/// An optional sequence number as an optional natural number.
pub open spec fn id_view(id: Option<usize>) -> Option<nat> {
    match id {
        Some(n) => Some(n as nat),
        None => None,
    }
}

impl<P: View> View for Body<P> {
    type V = BodyView<P::V>;

    open spec fn view(&self) -> BodyView<P::V> {
        BodyView {
            msg_id: id_view(self.msg_id),
            in_reply_to: id_view(self.in_reply_to),
            payload: self.payload@,
        }
    }
}

impl<P: View> View for Message<P> {
    type V = MessageView<P::V>;

    open spec fn view(&self) -> MessageView<P::V> {
        MessageView { src: self.src@, dest: self.dest@, body: self.body@ }
    }
}

impl<P: View> DeepView for Message<P> {
    type V = MessageView<P::V>;

    open spec fn deep_view(&self) -> MessageView<P::V> {
        self@
    }
}

impl<V> MessageView<V> {
    /// The direct reply to `self`: the addresses swapped, numbered `id`,
    /// answering `self`'s own number, carrying `payload`.
    pub open spec fn reply(self, id: nat, payload: V) -> MessageView<V> {
        MessageView {
            src: self.dest,
            dest: self.src,
            body: BodyView { msg_id: Some(id), in_reply_to: self.body.msg_id, payload },
        }
    }

    /// An envelope that answers nothing: from `src` to `dest`, numbered
    /// `id`, carrying `payload`.
    pub open spec fn originated(src: Seq<char>, dest: Seq<char>, id: nat, payload: V) -> MessageView<V> {
        MessageView {
            src,
            dest,
            body: BodyView { msg_id: Some(id), in_reply_to: None, payload },
        }
    }
}

} // verus!

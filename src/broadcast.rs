use vstd::prelude::*;

use crate::capability::{MessageId, MessageRegistry};
use crate::error::{is_malformed, malformed, Error};
use crate::msg::{Address, MessageIndex};

verus! {

/// Bodies of the broadcast workload.
#[derive(Clone, Debug, PartialEq, Eq, Hash)]
pub enum BroadcastBody<I, T> {
    /// Hands the node a value to keep.
    PushRequest { message_id: I, message: T },
    PushResponse { in_reply_to: I, message_id: I },
    /// Asks for every value kept so far.
    ReadRequest { message_id: I },
    ReadResponse { message_id: I, in_reply_to: I, messages: Vec<T> },
}

/// `copy` holds a clone of each value of `values`, in the same order.
pub open spec fn clones_of<T: Clone>(values: Seq<T>, copy: Seq<T>) -> bool {
    &&& copy.len() == values.len()
    &&& forall|i: int| 0 <= i < values.len() ==> cloned(values[i], #[trigger] copy[i])
}

fn clone_all<T: Clone>(values: &[T]) -> (r: Vec<T>)
    ensures
        clones_of(values@, r@),
{
    let mut r: Vec<T> = Vec::new();
    let mut i: usize = 0;
    while i < values.len()
        invariant
            i <= values@.len(),
            r@.len() == i,
            forall|j: int| 0 <= j < i ==> cloned(values@[j], #[trigger] r@[j]),
        decreases values@.len() - i,
    {
        r.push(values[i].clone());
        i = i + 1;
    }
    r
}

/// Answers broadcast requests; implemented by every node that serves the
/// workload.
pub trait BroadcastHandler<A: Address, I: MessageIndex, T: Clone>: MessageId<I> + MessageRegistry<
    T,
> + Sized {
    /// Minting an index leaves the kept values alone.
    proof fn lemma_counter_keeps_messages(a: &Self, b: &Self)
        requires
            a.same_but_counter(b),
        ensures
            a.stored() == b.stored(),
    ;

    /// Keeping a value leaves the counter alone.
    proof fn lemma_messages_keep_counter(a: &Self, b: &Self)
        requires
            a.same_but_messages(b),
        ensures
            a.last_minted() == b.last_minted(),
    ;

    /// Keeps a pushed value, duplicates included, or reports every value
    /// kept so far in order of arrival.
    fn respond_broadcast(&mut self, request: BroadcastBody<I, T>) -> (r: Result<
        BroadcastBody<I, T>,
        Error<I>,
    >)
        requires
            request is PushRequest || request is ReadRequest ==> old(self).can_mint(),
        ensures
            match request {
                BroadcastBody::PushRequest { message_id, message } => {
                    &&& r matches Ok(BroadcastBody::PushResponse { in_reply_to, message_id: m })
                    &&& in_reply_to == message_id
                    &&& m == old(self).next_index()
                    &&& old(self).last_minted() < m.rank()
                    &&& final(self).stored() == old(self).stored().push(message)
                    &&& final(self).last_minted() == m.rank()
                },
                BroadcastBody::ReadRequest { message_id } => {
                    &&& r matches Ok(
                        BroadcastBody::ReadResponse { message_id: m, in_reply_to, messages },
                    )
                    &&& in_reply_to == message_id
                    &&& clones_of(old(self).stored(), messages@)
                    &&& final(self).stored() == old(self).stored()
                    &&& old(self).same_but_counter(final(self))
                    &&& m == old(self).next_index()
                    &&& old(self).last_minted() < m.rank()
                    &&& final(self).last_minted() == m.rank()
                },
                BroadcastBody::PushResponse { message_id, .. } => {
                    &&& r matches Err(e)
                    &&& is_malformed(e, message_id)
                    &&& *final(self) == *old(self)
                },
                BroadcastBody::ReadResponse { message_id, .. } => {
                    &&& r matches Err(e)
                    &&& is_malformed(e, message_id)
                    &&& *final(self) == *old(self)
                },
            },
    {
        match request {
            BroadcastBody::PushRequest { message, message_id } => {
                let ghost before = *self;
                let msg_id = self.gen_msg_id();
                let ghost minted = *self;
                self.push_msg(message);
                proof {
                    Self::lemma_counter_keeps_messages(&before, &minted);
                    Self::lemma_messages_keep_counter(&minted, self);
                }
                Ok(BroadcastBody::PushResponse { in_reply_to: message_id, message_id: msg_id })
            },
            BroadcastBody::ReadRequest { message_id } => {
                let messages = clone_all(self.messages());
                let ghost before = *self;
                let msg_id = self.gen_msg_id();
                proof {
                    Self::lemma_counter_keeps_messages(&before, self);
                }
                Ok(BroadcastBody::ReadResponse { in_reply_to: message_id, message_id: msg_id, messages })
            },
            BroadcastBody::PushResponse { message_id, .. } => Err(malformed(message_id)),
            BroadcastBody::ReadResponse { message_id, .. } => Err(malformed(message_id)),
        }
    }
}

} // verus!

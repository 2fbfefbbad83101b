use vstd::prelude::*;

use crate::capability::NodeId;
use crate::error::{is_malformed, malformed, Error};
use crate::msg::{Address, MessageIndex};

verus! {

/// Bodies of the initialisation workload.
#[derive(Clone, Debug, PartialEq, Eq, Hash)]
pub enum InitBody<I, A> {
    /// Tells a node its own address and those of the whole cluster.
    Request { message_id: I, node_id: A, node_ids: Vec<A> },
    /// Acknowledges an initialisation.
    Response { in_reply_to: I },
}

/// Answers initialisation requests; implemented by every node.
pub trait InitHandler<A: Address, I: MessageIndex>: NodeId<A, I> + Sized {
    /// Installs the node's address through the setter, and nothing else.
    /// The setter's error is handed back as it came, and then the address
    /// stays as it was.
    fn respond_init(&mut self, request: InitBody<I, A>) -> (r: Result<InitBody<I, A>, Error<I>>)
        ensures
            match request {
                InitBody::Request { message_id, node_id, .. } => {
                    &&& *final(self) == old(self).after_set(node_id)
                    &&& old(self).same_but_identity(final(self))
                    &&& match old(self).set_outcome(node_id) {
                        Ok(_) => {
                            &&& r == Ok::<InitBody<I, A>, Error<I>>(
                                InitBody::Response { in_reply_to: message_id },
                            )
                            &&& final(self).identity() == Some(node_id)
                        },
                        Err(e) => {
                            &&& r == Err::<InitBody<I, A>, Error<I>>(e)
                            &&& final(self).identity() == old(self).identity()
                        },
                    }
                },
                InitBody::Response { in_reply_to } => {
                    &&& r matches Err(e)
                    &&& is_malformed(e, in_reply_to)
                    &&& *final(self) == *old(self)
                },
            },
    {
        match request {
            InitBody::Request { message_id, node_id, .. } => {
                match self.set_node_id(node_id) {
                    Ok(()) => Ok(InitBody::Response { in_reply_to: message_id }),
                    Err(e) => Err(e),
                }
            },
            InitBody::Response { in_reply_to } => Err(malformed(in_reply_to)),
        }
    }
}

} // verus!

use vstd::prelude::*;

use crate::capability::MessageId;
use crate::error::{is_malformed, malformed, Error};
use crate::msg::{Address, MessageIndex};

verus! {

/// Bodies of the echo workload.
#[derive(Clone, Debug, PartialEq, Eq, Hash)]
pub enum EchoBody<I> {
    Request { message_id: I, echo: String },
    Response { in_reply_to: I, message_id: I, echo: String },
}

/// Answers echo requests; implemented by every node that serves the workload.
pub trait EchoHandler<A: Address, I: MessageIndex>: MessageId<I> + Sized {
    /// Echoes the payload back under a freshly minted message id.
    fn respond_echo(&mut self, request: EchoBody<I>) -> (r: Result<EchoBody<I>, Error<I>>)
        requires
            request is Request ==> old(self).can_mint(),
        ensures
            match request {
                EchoBody::Request { message_id, echo } => {
                    &&& r matches Ok(EchoBody::Response { in_reply_to, message_id: m, echo: e })
                    &&& in_reply_to == message_id
                    &&& e == echo
                    &&& m == old(self).next_index()
                    &&& old(self).last_minted() < m.rank()
                    &&& final(self).last_minted() == m.rank()
                    &&& old(self).same_but_counter(final(self))
                },
                EchoBody::Response { message_id, .. } => {
                    &&& r matches Err(e)
                    &&& is_malformed(e, message_id)
                    &&& *final(self) == *old(self)
                },
            },
    {
        match request {
            EchoBody::Request { message_id, echo } => Ok(
                EchoBody::Response { in_reply_to: message_id, message_id: self.gen_msg_id(), echo },
            ),
            EchoBody::Response { message_id, .. } => Err(malformed(message_id)),
        }
    }
}

} // verus!

use vstd::prelude::*;

use crate::broadcast::BroadcastHandler;
use crate::capability::{MessageId, MessageRegistry, NodeId, TopologyRegistry};
use crate::echo::EchoHandler;
use crate::error::Error;
use crate::generate::GenerateHandler;
use crate::init::InitHandler;
use crate::msg::{Address, MessageIndex, ResponseBuilder};
use crate::topology::TopologyHandler;

verus! {

/// The state of one node: its address (unset until initialisation), the
/// counter that mints its message indices, the broadcast values it has kept
/// and its neighbour list.
///
/// Indices are minted as 1, 2, 3, ... in call order.
pub struct Node<A, T> {
    id: Option<A>,
    counter: u32,
    messages: Vec<T>,
    topology: Vec<A>,
}

impl<A: Address, T> Node<A, T> {
    /// A node that knows no address yet and has minted nothing.
    pub fn new() -> (r: Node<A, T>)
        ensures
            r.identity() is None,
            r.last_minted() == 0,
            r.next_index() == 1,
            r.can_mint(),
            r.stored() == Seq::<T>::empty(),
            r.neighbors() == Seq::<A>::empty(),
    {
        Node { id: None, counter: 0, messages: Vec::new(), topology: Vec::new() }
    }

    /// A node that answers to `id` and has minted nothing.
    pub fn with_id(id: A) -> (r: Node<A, T>)
        ensures
            r.identity() == Some(id),
            r.last_minted() == 0,
            r.next_index() == 1,
            r.can_mint(),
            r.stored() == Seq::<T>::empty(),
            r.neighbors() == Seq::<A>::empty(),
    {
        Node { id: Some(id), counter: 0, messages: Vec::new(), topology: Vec::new() }
    }

    /// How the counter decides what is minted next: indices run 1, 2, 3, ...
    /// up to `u32::MAX`.
    pub proof fn lemma_counter(&self)
        ensures
            0 <= self.last_minted() <= u32::MAX,
            self.can_mint() <==> self.last_minted() < u32::MAX,
            self.can_mint() ==> self.next_index() == self.last_minted() + 1,
    {
    }

    /// The neighbour list installed last.
    pub fn topology(&self) -> (r: &[A])
        ensures
            r@ == self.neighbors(),
    {
        self.topology.as_slice()
    }
}

impl<A: Address, T> NodeId<A, u32> for Node<A, T> {
    closed spec fn identity(&self) -> Option<A> {
        self.id
    }

    closed spec fn same_but_identity(&self, other: &Self) -> bool {
        &&& self.counter == other.counter
        &&& self.messages == other.messages
        &&& self.topology == other.topology
    }

    open spec fn set_outcome(&self, id: A) -> Result<(), Error<u32>> {
        Ok(())
    }

    closed spec fn after_set(&self, id: A) -> Self {
        Node { id: Some(id), ..*self }
    }

    fn set_node_id(&mut self, id: A) -> (r: Result<(), Error<u32>>) {
        self.id = Some(id);
        Ok(())
    }

    fn node_id(&self) -> (r: Option<&A>) {
        self.id.as_ref()
    }
}

impl<A: Address, T> MessageId<u32> for Node<A, T> {
    closed spec fn last_minted(&self) -> int {
        self.counter as int
    }

    closed spec fn can_mint(&self) -> bool {
        self.counter < u32::MAX
    }

    closed spec fn next_index(&self) -> u32 {
        (self.counter + 1) as u32
    }

    closed spec fn same_but_counter(&self, other: &Self) -> bool {
        &&& self.id == other.id
        &&& self.messages == other.messages
        &&& self.topology == other.topology
    }

    fn gen_msg_id(&mut self) -> (r: u32)
        ensures
            r == old(self).last_minted() + 1,
    {
        self.counter = self.counter + 1;
        self.counter
    }
}

impl<A: Address, T> MessageRegistry<T> for Node<A, T> {
    closed spec fn stored(&self) -> Seq<T> {
        self.messages@
    }

    closed spec fn same_but_messages(&self, other: &Self) -> bool {
        &&& self.id == other.id
        &&& self.counter == other.counter
        &&& self.topology == other.topology
    }

    fn push_msg(&mut self, msg: T) {
        self.messages.push(msg);
    }

    fn messages(&self) -> (r: &[T]) {
        self.messages.as_slice()
    }
}

impl<A: Address, T> TopologyRegistry<A> for Node<A, T> {
    closed spec fn neighbors(&self) -> Seq<A> {
        self.topology@
    }

    closed spec fn same_but_topology(&self, other: &Self) -> bool {
        &&& self.id == other.id
        &&& self.counter == other.counter
        &&& self.messages == other.messages
    }

    fn set_topology(&mut self, topology: Vec<A>) {
        self.topology = topology;
    }
}

impl<A: Address, T, B> ResponseBuilder<A, u32, B> for Node<A, T> {

}

impl<A: Address, T> InitHandler<A, u32> for Node<A, T> {

}

impl<A: Address, T> EchoHandler<A, u32> for Node<A, T> {

}

impl<A: Address, T> GenerateHandler<A, u32> for Node<A, T> {
    proof fn lemma_counter_keeps_identity(a: &Self, b: &Self) {
    }
}

impl<A: Address, T: Clone> BroadcastHandler<A, u32, T> for Node<A, T> {
    proof fn lemma_counter_keeps_messages(a: &Self, b: &Self) {
    }

    proof fn lemma_messages_keep_counter(a: &Self, b: &Self) {
    }
}

impl<A: Address, T> TopologyHandler<A, u32> for Node<A, T> {
    proof fn lemma_topology_keeps_counter(a: &Self, b: &Self) {
    }

    proof fn lemma_counter_keeps_identity(a: &Self, b: &Self) {
    }

    proof fn lemma_topology_keeps_identity(a: &Self, b: &Self) {
    }
}

} // verus!

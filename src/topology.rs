use vstd::prelude::*;

use crate::capability::{MessageId, NodeId, TopologyRegistry};
use crate::error::{is_malformed, malformed, Code, Error};
use crate::generate::{is_not_initialized, not_initialized};
use crate::msg::{Address, MessageIndex};

verus! {

/// The neighbour list that `entries` gives the address with text `key`: that
/// of the latest entry for it, as when each entry is inserted into a map in
/// turn.
pub open spec fn lookup<A: Address>(entries: Seq<(A, Vec<A>)>, key: Seq<char>) -> Option<Vec<A>>
    decreases entries.len(),
{
    if entries.len() == 0 {
        None
    } else if entries.last().0.text() == key {
        Some(entries.last().1)
    } else {
        lookup(entries.drop_last(), key)
    }
}

/// The texts of a list of addresses.
pub open spec fn texts<A: Address>(s: Seq<A>) -> Seq<Seq<char>> {
    s.map_values(|a: A| a.text())
}

/// The texts of a neighbour list, if there is one.
pub open spec fn neighbor_texts<A: Address>(v: Option<Vec<A>>) -> Option<Seq<Seq<char>>> {
    match v {
        Some(v) => Some(texts(v@)),
        None => None,
    }
}

/// An entry for an address gives that address a neighbour list.
proof fn lemma_lookup_finds_entry<A: Address>(entries: Seq<(A, Vec<A>)>, i: int)
    requires
        0 <= i < entries.len(),
    ensures
        lookup(entries, entries[i].0.text()) is Some,
    decreases entries.len(),
{
    if entries.last().0.text() != entries[i].0.text() {
        assert(i < entries.len() - 1);
        assert(entries.drop_last()[i] == entries[i]);
        lemma_lookup_finds_entry(entries.drop_last(), i);
    }
}

/// An address with a neighbour list has an entry.
proof fn lemma_lookup_has_entry<A: Address>(entries: Seq<(A, Vec<A>)>, key: Seq<char>)
    requires
        lookup(entries, key) is Some,
    ensures
        exists|j: int| 0 <= j < entries.len() && #[trigger] entries[j].0.text() == key,
    decreases entries.len(),
{
    if entries.last().0.text() != key {
        lemma_lookup_has_entry(entries.drop_last(), key);
        let j = choose|j: int|
            0 <= j < entries.drop_last().len() && #[trigger] entries.drop_last()[j].0.text() == key;
        assert(entries[j] == entries.drop_last()[j]);
    } else {
        assert(entries[entries.len() - 1].0.text() == key);
    }
}

fn same_texts<A: Address>(a: &Vec<A>, b: &Vec<A>) -> (r: bool)
    ensures
        r == (texts(a@) == texts(b@)),
{
    if a.len() != b.len() {
        assert(texts(a@).len() != texts(b@).len());
        return false;
    }
    let mut i: usize = 0;
    while i < a.len()
        invariant
            a@.len() == b@.len(),
            i <= a@.len(),
            forall|j: int| 0 <= j < i ==> a@[j].text() == b@[j].text(),
        decreases a@.len() - i,
    {
        if !a[i].same_as(&b[i]) {
            assert(texts(a@)[i as int] != texts(b@)[i as int]);
            return false;
        }
        i = i + 1;
    }
    assert(texts(a@) =~= texts(b@));
    true
}

/// A mapping from each node's address to the addresses of its neighbours.
///
/// Two topologies are equal when they give every address the same
/// neighbours, whatever order their entries were inserted in.
#[derive(Clone, Debug)]
pub struct Topology<A: Address> {
    entries: Vec<(A, Vec<A>)>,
}

impl<A: Address> View for Topology<A> {
    type V = Seq<(A, Vec<A>)>;

    closed spec fn view(&self) -> Seq<(A, Vec<A>)> {
        self.entries@
    }
}

impl<A: Address> Topology<A> {
    /// The neighbours of the node with address text `key`, if it has an entry.
    pub open spec fn neighbors_of(&self, key: Seq<char>) -> Option<Vec<A>> {
        lookup(self@, key)
    }

    pub fn new() -> (r: Topology<A>)
        ensures
            r@ == Seq::<(A, Vec<A>)>::empty(),
    {
        Topology { entries: Vec::new() }
    }

    /// Gives `node` the neighbours `neighbors`, replacing any it had.
    pub fn insert(&mut self, node: A, neighbors: Vec<A>)
        ensures
            final(self)@ == old(self)@.push((node, neighbors)),
            forall|key: Seq<char>|
                #[trigger] final(self).neighbors_of(key) == if key == node.text() {
                    Some(neighbors)
                } else {
                    old(self).neighbors_of(key)
                },
    {
        self.entries.push((node, neighbors));
        assert(final(self)@.drop_last() == old(self)@);
    }

    /// The neighbours of `node`, if it has an entry.
    pub fn get(&self, node: &A) -> (r: Option<&Vec<A>>)
        ensures
            match r {
                Some(v) => self.neighbors_of(node.text()) == Some(*v),
                None => self.neighbors_of(node.text()) is None,
            },
    {
        let mut i: usize = self.entries.len();
        assert(self@.subrange(0, i as int) == self@);
        while i > 0
            invariant
                i <= self@.len(),
                lookup(self@, node.text()) == lookup(self@.subrange(0, i as int), node.text()),
            decreases i,
        {
            let ghost prefix = self@.subrange(0, i as int);
            assert(prefix.drop_last() == self@.subrange(0, i - 1));
            assert(prefix.last() == self@[i - 1]);
            i = i - 1;
            if self.entries[i].0.same_as(node) {
                return Some(&self.entries[i].1);
            }
        }
        None
    }

    /// Every address with an entry here has the same neighbours in `other`.
    pub open spec fn agrees_on_own_keys(&self, other: &Self) -> bool {
        forall|key: Seq<char>|
            #[trigger] self.neighbors_of(key) is Some ==> neighbor_texts(self.neighbors_of(key))
                == neighbor_texts(other.neighbors_of(key))
    }

    /// Both topologies give every address the same neighbours.
    pub open spec fn same_map(&self, other: &Self) -> bool {
        forall|key: Seq<char>|
            #[trigger] neighbor_texts(self.neighbors_of(key)) == neighbor_texts(
                other.neighbors_of(key),
            )
    }

    fn agrees_with(&self, other: &Self) -> (r: bool)
        ensures
            r == self.agrees_on_own_keys(other),
    {
        let mut i: usize = 0;
        while i < self.entries.len()
            invariant
                i <= self@.len(),
                forall|j: int|
                    0 <= j < i ==> neighbor_texts(#[trigger] self.neighbors_of(self@[j].0.text()))
                        == neighbor_texts(other.neighbors_of(self@[j].0.text())),
            decreases self@.len() - i,
        {
            let key = &self.entries[i].0;
            proof {
                lemma_lookup_finds_entry(self@, i as int);
            }
            let mine = self.get(key);
            let theirs = other.get(key);
            let agree = match (mine, theirs) {
                (Some(a), Some(b)) => same_texts(a, b),
                _ => false,
            };
            if !agree {
                assert(self.neighbors_of(key.text()) is Some);
                return false;
            }
            i = i + 1;
        }
        assert forall|key: Seq<char>| #[trigger]
            self.neighbors_of(key) is Some implies neighbor_texts(self.neighbors_of(key))
            == neighbor_texts(other.neighbors_of(key)) by {
            lemma_lookup_has_entry(self@, key);
            let j = choose|j: int| 0 <= j < self@.len() && #[trigger] self@[j].0.text() == key;
            assert(neighbor_texts(self.neighbors_of(self@[j].0.text())) == neighbor_texts(
                other.neighbors_of(self@[j].0.text()),
            ));
        }
        true
    }

    /// Every entry, in order of insertion.
    pub fn entries(&self) -> (r: &[(A, Vec<A>)])
        ensures
            r@ == self@,
    {
        self.entries.as_slice()
    }
}

impl<A: Address> PartialEq for Topology<A> {
    fn eq(&self, other: &Self) -> (r: bool) {
        let r = self.agrees_with(other) && other.agrees_with(self);
        proof {
            if r {
                assert forall|key: Seq<char>| #[trigger]
                    neighbor_texts(self.neighbors_of(key)) == neighbor_texts(
                        other.neighbors_of(key),
                    ) by {
                    if self.neighbors_of(key) is None && other.neighbors_of(key) is Some {
                        assert(other.agrees_on_own_keys(self));
                    }
                }
            }
        }
        r
    }
}

impl<A: Address> vstd::std_specs::cmp::PartialEqSpecImpl for Topology<A> {
    open spec fn obeys_eq_spec() -> bool {
        true
    }

    open spec fn eq_spec(&self, other: &Self) -> bool {
        self.same_map(other)
    }
}

impl<A: Address> Eq for Topology<A> {

}

fn copy_addresses<A: Address>(v: &Vec<A>) -> (r: Vec<A>)
    ensures
        r@ == v@,
{
    let mut r: Vec<A> = Vec::new();
    let mut i: usize = 0;
    while i < v.len()
        invariant
            i <= v@.len(),
            r@ == v@.subrange(0, i as int),
        decreases v@.len() - i,
    {
        r.push(v[i].duplicate());
        i = i + 1;
    }
    assert(v@.subrange(0, v@.len() as int) == v@);
    r
}

/// Bodies of the topology workload.
#[derive(Clone, Debug, PartialEq, Eq)]
pub enum TopologyBody<I, A: Address> {
    Request { message_id: I, topology: Topology<A> },
    Response { in_reply_to: I, message_id: I },
}

/// The text of the error that answers a topology that leaves this node out.
pub const NOT_IN_TOPOLOGY: &'static str = "Topology does not describe this node";

/// `e` answers a request with id `in_reply_to` whose topology leaves this node
/// out.
pub open spec fn is_not_in_topology<I>(e: Error<I>, in_reply_to: I) -> bool {
    &&& e.in_reply_to == in_reply_to
    &&& e.code == Code::MalformedRequest
    &&& e.msg@ == NOT_IN_TOPOLOGY@
}

/// Answers topology requests; implemented by every node that serves the
/// workload.
pub trait TopologyHandler<A: Address, I: MessageIndex>: MessageId<I> + NodeId<A, I> + TopologyRegistry<
    A,
> + Sized {
    /// Installing a neighbour list leaves the counter alone.
    proof fn lemma_topology_keeps_counter(a: &Self, b: &Self)
        requires
            a.same_but_topology(b),
        ensures
            a.last_minted() == b.last_minted(),
    ;

    /// Minting an index leaves the node's address alone.
    proof fn lemma_counter_keeps_identity(a: &Self, b: &Self)
        requires
            a.same_but_counter(b),
        ensures
            a.identity() == b.identity(),
    ;

    /// Installing a neighbour list leaves the node's address alone.
    proof fn lemma_topology_keeps_identity(a: &Self, b: &Self)
        requires
            a.same_but_topology(b),
        ensures
            a.identity() == b.identity(),
    ;

    /// Installs the neighbour list that the topology gives this node; the
    /// node's address stays as it was.
    fn respond(&mut self, request: TopologyBody<I, A>) -> (r: Result<TopologyBody<I, A>, Error<I>>)
        requires
            request is Request ==> old(self).can_mint(),
        ensures
            match request {
                TopologyBody::Request { message_id, topology } => match old(self).identity() {
                    Some(a) => match topology.neighbors_of(a.text()) {
                        Some(neighbors) => {
                            &&& r matches Ok(TopologyBody::Response { in_reply_to, message_id: m })
                            &&& in_reply_to == message_id
                            &&& final(self).neighbors() == neighbors@
                            &&& m == old(self).next_index()
                    &&& old(self).last_minted() < m.rank()
                            &&& final(self).last_minted() == m.rank()
                            &&& final(self).identity() == old(self).identity()
                        },
                        None => {
                            &&& r matches Err(e)
                            &&& is_not_in_topology(e, message_id)
                            &&& *final(self) == *old(self)
                        },
                    },
                    None => {
                        &&& r matches Err(e)
                        &&& is_not_initialized(e, message_id)
                        &&& *final(self) == *old(self)
                    },
                },
                TopologyBody::Response { message_id, .. } => {
                    &&& r matches Err(e)
                    &&& is_malformed(e, message_id)
                    &&& *final(self) == *old(self)
                },
            },
    {
        match request {
            TopologyBody::Request { message_id, topology } => {
                let neighbors = match self.node_id() {
                    Some(a) => match topology.get(a) {
                        Some(v) => copy_addresses(v),
                        None => {
                            return Err(
                                Error::new(
                                    message_id,
                                    Code::MalformedRequest,
                                    String::from_str(NOT_IN_TOPOLOGY),
                                ),
                            );
                        },
                    },
                    None => {
                        return Err(not_initialized(message_id));
                    },
                };
                let ghost before = *self;
                let new_message_id = self.gen_msg_id();
                let ghost minted = *self;
                self.set_topology(neighbors);
                proof {
                    Self::lemma_counter_keeps_identity(&before, &minted);
                    Self::lemma_topology_keeps_identity(&minted, self);
                    Self::lemma_topology_keeps_counter(&minted, self);
                }
                Ok(TopologyBody::Response { in_reply_to: message_id, message_id: new_message_id })
            },
            TopologyBody::Response { message_id, .. } => Err(malformed(message_id)),
        }
    }
}

} // verus!

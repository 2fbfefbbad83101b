use vstd::prelude::*;

use crate::error::Error;
use crate::msg::{Address, MessageIndex};

verus! {

// Each capability owns one part of a node's state. Beside the spec function
// that reads its part, each trait names the relation "equal but for my part",
// and its mutating method promises that it changes nothing else. A handler
// that combines capabilities asks its implementor to prove that one part is
// blind to changes of another.

/// Holds the address that this node answers to.
pub trait NodeId<A: Address, I: MessageIndex>: Sized {
    /// The node's address, once one has been set.
    spec fn identity(&self) -> Option<A>;

    /// `other` equals this node but for, at most, its address.
    spec fn same_but_identity(&self, other: &Self) -> bool;

    /// What setting the address to `id` returns when called on this node.
    spec fn set_outcome(&self, id: A) -> Result<(), Error<I>>;

    /// This node once its address has been set to `id`.
    spec fn after_set(&self, id: A) -> Self;

    fn set_node_id(&mut self, id: A) -> (r: Result<(), Error<I>>)
        ensures
            r == old(self).set_outcome(id),
            *final(self) == old(self).after_set(id),
            old(self).same_but_identity(final(self)),
            r is Ok ==> final(self).identity() == Some(id),
            r is Err ==> final(self).identity() == old(self).identity(),
    ;

    fn node_id(&self) -> (r: Option<&A>)
        ensures
            match r {
                Some(a) => self.identity() == Some(*a),
                None => self.identity() is None,
            },
    ;
}

/// Mints message indices, each ranked above every index minted before it.
pub trait MessageId<I: MessageIndex>: Sized {
    /// The rank of the latest index minted; every later one ranks above it.
    spec fn last_minted(&self) -> int;

    /// Whether one more index can be minted.
    spec fn can_mint(&self) -> bool;

    /// The index that the next call of `gen_msg_id` mints.
    spec fn next_index(&self) -> I;

    /// `other` equals this node but for, at most, its counter.
    spec fn same_but_counter(&self, other: &Self) -> bool;

    fn gen_msg_id(&mut self) -> (r: I)
        requires
            old(self).can_mint(),
        ensures
            old(self).same_but_counter(final(self)),
            r == old(self).next_index(),
            old(self).last_minted() < r.rank(),
            final(self).last_minted() == r.rank(),
    ;
}

/// Keeps every broadcast value received, in order of arrival, duplicates
/// included.
pub trait MessageRegistry<T>: Sized {
    spec fn stored(&self) -> Seq<T>;

    /// `other` equals this node but for, at most, its kept values.
    spec fn same_but_messages(&self, other: &Self) -> bool;

    fn push_msg(&mut self, msg: T)
        ensures
            old(self).same_but_messages(final(self)),
            final(self).stored() == old(self).stored().push(msg),
    ;

    fn messages(&self) -> (r: &[T])
        ensures
            r@ == self.stored(),
    ;
}

/// Keeps this node's neighbour list.
pub trait TopologyRegistry<A: Address>: Sized {
    spec fn neighbors(&self) -> Seq<A>;

    /// `other` equals this node but for, at most, its neighbour list.
    spec fn same_but_topology(&self, other: &Self) -> bool;

    fn set_topology(&mut self, topology: Vec<A>)
        ensures
            old(self).same_but_topology(final(self)),
            final(self).neighbors() == topology@,
    ;
}

} // verus!

verus! {

/// Indices that one node mints in succession strictly increase, so none is
/// ever minted twice.
///
/// `before[i]` is the node's `last_minted()` just before its `i`-th call of
/// `gen_msg_id`, and `minted[i]` the rank of the index that call returned.
/// Each call ranks its index above `before[i]` and leaves `last_minted()` at
/// that rank; what runs between two calls may keep it or raise it. Then any
/// earlier index ranks below any later one.
pub proof fn lemma_minted_ranks_increase(before: Seq<int>, minted: Seq<int>, i: int, j: int)
    requires
        before.len() == minted.len(),
        forall|k: int| 0 <= k < minted.len() ==> before[k] < #[trigger] minted[k],
        forall|k: int| 0 < k < minted.len() ==> minted[k - 1] <= #[trigger] before[k],
        0 <= i < j < minted.len(),
    ensures
        minted[i] < minted[j],
    decreases j - i,
{
    assert(before[j] < minted[j]);
    if i < j - 1 {
        lemma_minted_ranks_increase(before, minted, i, j - 1);
    }
}

} // verus!

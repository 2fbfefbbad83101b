use vstd::prelude::*;

use crate::capability::{MessageId, NodeId};
use crate::error::{is_malformed, malformed, Code, Error};
use crate::msg::{decimal, digit_char, Address, MessageIndex};

verus! {

/// Bodies of the unique-id workload.
#[derive(Clone, Debug, PartialEq, Eq, Hash)]
pub enum GenerateBody<I> {
    Request { message_id: I },
    Response { in_reply_to: I, message_id: I, id: String },
}

/// The text of the error that answers a request before the node knows its
/// address.
pub const NOT_INITIALIZED: &'static str = "Node has not been initialised yet";

/// The id generated by the node with address text `node` when it mints the
/// index with text `index`.
pub open spec fn generated_id(node: Seq<char>, index: Seq<char>) -> Seq<char> {
    node + seq!['-'] + index
}

/// `e` answers a request with id `in_reply_to` that came before the node
/// knew its address.
pub open spec fn is_not_initialized<I>(e: Error<I>, in_reply_to: I) -> bool {
    &&& e.in_reply_to == in_reply_to
    &&& e.code == Code::TemporarilyUnavailable
    &&& e.msg@ == NOT_INITIALIZED@
}

/// The error that answers a request with id `in_reply_to` before the node
/// knows its address.
pub fn not_initialized<I>(in_reply_to: I) -> (e: Error<I>)
    ensures
        is_not_initialized(e, in_reply_to),
{
    Error::new(in_reply_to, Code::TemporarilyUnavailable, String::from_str(NOT_INITIALIZED))
}

/// Answers unique-id requests; implemented by every node that serves the
/// workload.
pub trait GenerateHandler<A: Address, I: MessageIndex>: NodeId<A, I> + MessageId<I> + Sized {
    /// Minting an index leaves the node's address alone.
    proof fn lemma_counter_keeps_identity(a: &Self, b: &Self)
        requires
            a.same_but_counter(b),
        ensures
            a.identity() == b.identity(),
    ;

    /// Mints a fresh index `n` and answers with the id `<address>-<n>`.
    fn respond_generate(&mut self, request: GenerateBody<I>) -> (r: Result<GenerateBody<I>, Error<I>>)
        requires
            request is Request ==> old(self).can_mint(),
        ensures
            match request {
                GenerateBody::Request { message_id } => match old(self).identity() {
                    Some(a) => {
                        &&& r matches Ok(GenerateBody::Response { in_reply_to, message_id: m, id })
                        &&& in_reply_to == message_id
                        &&& id@ == generated_id(a.text(), m.text())
                        &&& m == old(self).next_index()
                    &&& old(self).last_minted() < m.rank()
                        &&& final(self).last_minted() == m.rank()
                        &&& final(self).identity() == old(self).identity()
                        &&& old(self).same_but_counter(final(self))
                    },
                    None => {
                        &&& r matches Err(e)
                        &&& is_not_initialized(e, message_id)
                        &&& *final(self) == *old(self)
                    },
                },
                GenerateBody::Response { message_id, .. } => {
                    &&& r matches Err(e)
                    &&& is_malformed(e, message_id)
                    &&& *final(self) == *old(self)
                },
            },
    {
        match request {
            GenerateBody::Request { message_id } => {
                let mut id = match self.node_id() {
                    Some(a) => a.render(),
                    None => {
                        return Err(not_initialized(message_id));
                    },
                };
                let ghost before = *self;
                let new_message_id = self.gen_msg_id();
                proof {
                    Self::lemma_counter_keeps_identity(&before, self);
                }
                let index = new_message_id.render();
                proof {
                    reveal_strlit("-");
                }
                id.append("-");
                id.append(index.as_str());
                Ok(GenerateBody::Response { in_reply_to: message_id, message_id: new_message_id, id })
            },
            GenerateBody::Response { message_id, .. } => Err(malformed(message_id)),
        }
    }
}

/// No decimal rendering holds a hyphen.
pub proof fn lemma_decimal_has_no_hyphen(n: nat)
    ensures
        decimal(n).len() >= 1,
        forall|i: int| 0 <= i < decimal(n).len() ==> decimal(n)[i] != '-',
    decreases n,
{
    if n >= 10 {
        lemma_decimal_has_no_hyphen(n / 10);
    }
}

/// Distinct numbers have distinct decimal renderings.
pub proof fn lemma_decimal_injective(n: nat, m: nat)
    requires
        decimal(n) == decimal(m),
    ensures
        n == m,
    decreases n,
{
    lemma_decimal_has_no_hyphen(n);
    lemma_decimal_has_no_hyphen(m);
    if n < 10 && m < 10 {
        assert(decimal(n)[0] == digit_char(n));
        assert(decimal(m)[0] == digit_char(m));
    } else if n < 10 {
        lemma_decimal_has_no_hyphen(m / 10);
        assert(decimal(m).len() >= 2);
    } else if m < 10 {
        lemma_decimal_has_no_hyphen(n / 10);
        assert(decimal(n).len() >= 2);
    } else {
        let dn = decimal(n);
        let dm = decimal(m);
        assert(dn.last() == digit_char(n % 10));
        assert(dm.last() == digit_char(m % 10));
        assert(dn.drop_last() == decimal(n / 10));
        assert(dm.drop_last() == decimal(m / 10));
        lemma_decimal_injective(n / 10, m / 10);
    }
}

/// Ids generated by two nodes with distinct addresses never collide,
/// whatever indices their counters reach; and one node never generates the
/// same id from two distinct indices.
pub proof fn lemma_generated_ids_unique(a: Seq<char>, b: Seq<char>, n: u32, m: u32)
    requires
        a != b || n != m,
    ensures
        generated_id(a, decimal(n as nat)) != generated_id(b, decimal(m as nat)),
{
    let dn = decimal(n as nat);
    let dm = decimal(m as nat);
    let s = generated_id(a, dn);
    let t = generated_id(b, dm);
    lemma_decimal_has_no_hyphen(n as nat);
    lemma_decimal_has_no_hyphen(m as nat);
    let p = a + seq!['-'];
    let q = b + seq!['-'];
    assert(p.len() == a.len() + 1 && p[a.len() as int] == '-');
    assert(q.len() == b.len() + 1 && q[b.len() as int] == '-');
    assert(s.len() == p.len() + dn.len());
    assert(t.len() == q.len() + dm.len());
    if s == t {
        assert(s[a.len() as int] == '-');
        assert(t[b.len() as int] == '-');
        if a.len() < b.len() {
            assert(s[b.len() as int] == dn[b.len() - a.len() - 1]);
        } else if b.len() < a.len() {
            assert(t[a.len() as int] == dm[a.len() - b.len() - 1]);
        } else {
            assert(a == s.subrange(0, a.len() as int));
            assert(b == t.subrange(0, b.len() as int));
            assert(dn == s.subrange(a.len() as int + 1, s.len() as int));
            assert(dm == t.subrange(b.len() as int + 1, t.len() as int));
            lemma_decimal_injective(n as nat, m as nat);
        }
    }
}

} // verus!

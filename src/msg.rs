use vstd::prelude::*;

use crate::error::Error;

verus! {

/// Unique identifier of a node.
///
/// Two addresses name the same node exactly when their texts agree.
pub trait Address: Sized {
    /// The stable text rendering of this address.
    spec fn text(&self) -> Seq<char>;

    fn render(&self) -> (r: String)
        ensures
            r@ == self.text(),
    ;

    fn duplicate(&self) -> (r: Self)
        ensures
            r == *self,
    ;

    fn same_as(&self, other: &Self) -> (r: bool)
        ensures
            r == (self.text() == other.text()),
    ;
}

impl Address for String {
    open spec fn text(&self) -> Seq<char> {
        self@
    }

    fn render(&self) -> (r: String) {
        self.clone()
    }

    fn duplicate(&self) -> (r: String) {
        self.clone()
    }

    fn same_as(&self, other: &String) -> (r: bool) {
        *self == *other
    }
}

impl<'a> Address for &'a str {
    open spec fn text(&self) -> Seq<char> {
        (*self)@
    }

    fn render(&self) -> (r: String) {
        String::from_str(*self)
    }

    fn duplicate(&self) -> (r: &'a str) {
        *self
    }

    fn same_as(&self, other: &&'a str) -> (r: bool) {
        String::from_str(*self) == String::from_str(*other)
    }
}

/// Identifier of a processed message, unique within the node that minted it.
///
/// Indices are totally ordered by `rank`.
pub trait MessageIndex: Sized {
    /// The stable text rendering of this index.
    spec fn text(&self) -> Seq<char>;

    /// The position of this index in the order in which a node mints them.
    spec fn rank(&self) -> int;

    fn render(&self) -> (r: String)
        ensures
            r@ == self.text(),
    ;
}

impl MessageIndex for u32 {
    open spec fn text(&self) -> Seq<char> {
        decimal(*self as nat)
    }

    open spec fn rank(&self) -> int {
        *self as int
    }

    fn render(&self) -> (r: String) {
        render_decimal(*self)
    }
}

/// The character of a decimal digit.
pub open spec fn digit_char(d: nat) -> char {
    if d == 0 {
        '0'
    } else if d == 1 {
        '1'
    } else if d == 2 {
        '2'
    } else if d == 3 {
        '3'
    } else if d == 4 {
        '4'
    } else if d == 5 {
        '5'
    } else if d == 6 {
        '6'
    } else if d == 7 {
        '7'
    } else if d == 8 {
        '8'
    } else {
        '9'
    }
}

/// The decimal rendering of `n`, most significant digit first, without
/// leading zeros.
pub open spec fn decimal(n: nat) -> Seq<char>
    decreases n,
{
    if n < 10 {
        seq![digit_char(n)]
    } else {
        decimal(n / 10).push(digit_char(n % 10))
    }
}

fn digit_str(d: u32) -> (r: &'static str)
    requires
        d < 10,
    ensures
        r@ == seq![digit_char(d as nat)],
{
    if d == 0 {
        proof { reveal_strlit("0"); }
        "0"
    } else if d == 1 {
        proof { reveal_strlit("1"); }
        "1"
    } else if d == 2 {
        proof { reveal_strlit("2"); }
        "2"
    } else if d == 3 {
        proof { reveal_strlit("3"); }
        "3"
    } else if d == 4 {
        proof { reveal_strlit("4"); }
        "4"
    } else if d == 5 {
        proof { reveal_strlit("5"); }
        "5"
    } else if d == 6 {
        proof { reveal_strlit("6"); }
        "6"
    } else if d == 7 {
        proof { reveal_strlit("7"); }
        "7"
    } else if d == 8 {
        proof { reveal_strlit("8"); }
        "8"
    } else {
        proof { reveal_strlit("9"); }
        "9"
    }
}

/// Renders `n` in decimal.
pub fn render_decimal(n: u32) -> (r: String)
    ensures
        r@ == decimal(n as nat),
    decreases n,
{
    if n < 10 {
        String::from_str(digit_str(n))
    } else {
        let mut s = render_decimal(n / 10);
        s.append(digit_str(n % 10));
        s
    }
}

/// Main communication medium of the network: a body travelling from
/// `source` to `destination`. The body is the error where the handler that
/// produced it failed.
#[derive(Debug, PartialEq, Eq, Hash)]
pub struct Message<A, B, I> {
    pub source: A,
    pub destination: A,
    pub body: Result<B, Error<I>>,
}

impl<A: Clone, B: Clone, I: Clone> Clone for Message<A, B, I> {
    fn clone(&self) -> Self {
        let body = match &self.body {
            Ok(b) => Ok(b.clone()),
            Err(e) => Err(e.clone()),
        };
        Message { source: self.source.clone(), destination: self.destination.clone(), body }
    }
}

/// Determines the addresses of outgoing replies: a reply travels back along
/// the edge that the request came by.
pub trait ResponseBuilder<A: Address, I: MessageIndex, B> {
    fn build_response(request: &Message<A, B, I>, new_body: Result<B, Error<I>>) -> (r: Message<
        A,
        B,
        I,
    >)
        ensures
            r.source == request.destination,
            r.destination == request.source,
            r.body == new_body,
    {
        Message {
            source: request.destination.duplicate(),
            destination: request.source.duplicate(),
            body: new_body,
        }
    }
}

} // verus!

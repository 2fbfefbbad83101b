use vstd::prelude::*;

verus! {

/// The closed vocabulary of externally visible failures.
///
/// Each code travels on the wire as a fixed integer (see [`code_value`]);
/// the gaps between the values group the codes into classes.
#[derive(Debug, Clone, Copy, Hash, PartialEq, Eq, PartialOrd, Ord, Structural)]
pub enum Code {
    Timeout,
    NodeNotFound,
    NotSupported,
    TemporarilyUnavailable,
    MalformedRequest,
    Crash,
    Abort,
    KeyDoesNotExist,
    KeyAlreadyExists,
    PreconditionFailed,
    TxnConflict,
}

/// The integer under which a code travels on the wire.
pub open spec fn code_value(c: Code) -> u32 {
    match c {
        Code::Timeout => 0,
        Code::NodeNotFound => 1,
        Code::NotSupported => 10,
        Code::TemporarilyUnavailable => 11,
        Code::MalformedRequest => 12,
        Code::Crash => 13,
        Code::Abort => 14,
        Code::KeyDoesNotExist => 20,
        Code::KeyAlreadyExists => 21,
        Code::PreconditionFailed => 22,
        Code::TxnConflict => 30,
    }
}

/// The code that a wire integer stands for, if any: the inverse of
/// `code_value`.
pub open spec fn code_of(x: u32) -> Option<Code> {
    if exists|c: Code| code_value(c) == x {
        Some(choose|c: Code| code_value(c) == x)
    } else {
        None
    }
}

/// The text carried by the error that rejects an unknown wire integer.
pub const INVALID_CODE: &'static str = "invalid value for code field";

impl Code {
    /// The wire integer of this code.
    pub fn as_u32(&self) -> (r: u32)
        ensures
            r == code_value(*self),
    {
        match self {
            Code::Timeout => 0,
            Code::NodeNotFound => 1,
            Code::NotSupported => 10,
            Code::TemporarilyUnavailable => 11,
            Code::MalformedRequest => 12,
            Code::Crash => 13,
            Code::Abort => 14,
            Code::KeyDoesNotExist => 20,
            Code::KeyAlreadyExists => 21,
            Code::PreconditionFailed => 22,
            Code::TxnConflict => 30,
        }
    }

    /// The code that travels as `x`, or `None` where no code has that value.
    pub fn from_u32(x: u32) -> (r: Option<Code>)
        ensures
            r == code_of(x),
            match r {
                Some(c) => code_value(c) == x,
                None => forall|c: Code| code_value(c) != x,
            },
    {
        let r = if x == 0 {
            Some(Code::Timeout)
        } else if x == 1 {
            Some(Code::NodeNotFound)
        } else if x == 10 {
            Some(Code::NotSupported)
        } else if x == 11 {
            Some(Code::TemporarilyUnavailable)
        } else if x == 12 {
            Some(Code::MalformedRequest)
        } else if x == 13 {
            Some(Code::Crash)
        } else if x == 14 {
            Some(Code::Abort)
        } else if x == 20 {
            Some(Code::KeyDoesNotExist)
        } else if x == 21 {
            Some(Code::KeyAlreadyExists)
        } else if x == 22 {
            Some(Code::PreconditionFailed)
        } else if x == 30 {
            Some(Code::TxnConflict)
        } else {
            None
        };
        proof {
            match r {
                Some(c) => {
                    assert(code_value(c) == x);
                    lemma_code_value_determines(c, choose|d: Code| code_value(d) == x);
                },
                None => {
                    assert forall|c: Code| code_value(c) != x by {}
                    assert(!exists|c: Code| code_value(c) == x);
                },
            }
        }
        r
    }
}

/// Distinct codes travel as distinct integers.
proof fn lemma_code_value_determines(c: Code, d: Code)
    requires
        code_value(c) == code_value(d),
    ensures
        c == d,
{
}

impl TryFrom<u32> for Code {
    type Error = &'static str;

    fn try_from(x: u32) -> (r: Result<Code, &'static str>) {
        match Code::from_u32(x) {
            Some(c) => Ok(c),
            None => Err(INVALID_CODE),
        }
    }
}

impl vstd::std_specs::convert::TryFromSpecImpl<u32> for Code {
    open spec fn obeys_try_from_spec() -> bool {
        true
    }

    open spec fn try_from_spec(x: u32) -> Result<Code, &'static str> {
        match code_of(x) {
            Some(c) => Ok(c),
            None => Err(INVALID_CODE),
        }
    }
}

/// Every code reads back from its own wire integer, and a wire integer that
/// reads as a code is that code's value: the two directions are inverse.
pub proof fn lemma_code_round_trip(c: Code, x: u32)
    ensures
        code_of(code_value(c)) == Some(c),
        code_of(x) == Some(c) ==> code_value(c) == x,
{
    let d = choose|d: Code| code_value(d) == code_value(c);
    lemma_code_value_determines(c, d);
}

/// A failure, correlated with the request that caused it.
///
/// `in_reply_to` is always the failing request's own message id.
#[derive(Debug, Clone, PartialEq, Eq, Hash)]
pub struct Error<I> {
    pub in_reply_to: I,
    pub code: Code,
    pub msg: String,
}

/// The text of the error that rejects a response presented as a request.
pub const RESPONSE_AS_REQUEST: &'static str = "Request is a response";

/// `e` rejects a response-shaped body whose own message id is `in_reply_to`.
pub open spec fn is_malformed<I>(e: Error<I>, in_reply_to: I) -> bool {
    &&& e.in_reply_to == in_reply_to
    &&& e.code == Code::MalformedRequest
    &&& e.msg@ == RESPONSE_AS_REQUEST@
}

/// The error that rejects a response-shaped body whose own message id is
/// `in_reply_to`.
pub fn malformed<I>(in_reply_to: I) -> (e: Error<I>)
    ensures
        is_malformed(e, in_reply_to),
{
    Error::new(in_reply_to, Code::MalformedRequest, String::from_str(RESPONSE_AS_REQUEST))
}

impl<I> Error<I> {
    pub fn new(in_reply_to: I, code: Code, msg: String) -> (r: Error<I>)
        ensures
            r.in_reply_to == in_reply_to,
            r.code == code,
            r.msg@ == msg@,
    {
        Error { in_reply_to, code, msg }
    }
}

} // verus!

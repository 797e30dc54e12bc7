//! The HTTP method of a route and the status of a response, as plain
//! values.

use vstd::prelude::*;

verus! {

/// The HTTP method that a route answers.
#[derive(Clone, Copy, Debug, PartialEq, Eq, Structural)]
pub enum Method {
    Get,
    Post,
    Put,
    Delete,
    Head,
    Options,
    Connect,
    Patch,
    Trace,
}

impl Method {
    /// Whether a router takes a handler for this method. `Connect` is the
    /// one method for which it does not.
    pub open spec fn routable(self) -> bool {
        !(self is Connect)
    }

    /// Whether a router takes a handler for this method.
    pub fn is_routable(self) -> (yes: bool)
        ensures
            yes == self.routable(),
    {
        match self {
            Method::Connect => false,
            _ => true,
        }
    }
}

/// The status of an HTTP response: a number from 100 to 999.
#[derive(Clone, Copy, Debug, PartialEq, Eq)]
pub struct StatusCode {
    code: u16,
}

/// The failure to make a status of a number below 100 or above 999.
#[derive(Clone, Copy, Debug, PartialEq, Eq)]
pub struct InvalidStatusCode {}

/// Whether `n` is the number of a status.
pub open spec fn valid_status(n: int) -> bool {
    100 <= n <= 999
}

impl View for StatusCode {
    type V = int;

    /// The number of the status.
    closed spec fn view(&self) -> int {
        self.code as int
    }
}

impl StatusCode {
    #[verifier::type_invariant]
    closed spec fn in_range(&self) -> bool {
        valid_status(self.code as int)
    }

    /// The status with the number `n`, where there is one.
    pub fn from_u16(n: u16) -> (made: Result<StatusCode, InvalidStatusCode>)
        ensures
            made is Ok <==> valid_status(n as int),
            made is Ok ==> made->Ok_0@ == n,
    {
        if 100 <= n && n <= 999 {
            Ok(StatusCode { code: n })
        } else {
            Err(InvalidStatusCode {  })
        }
    }

    /// The number of the status.
    pub fn as_u16(&self) -> (n: u16)
        ensures
            n == self@,
            valid_status(n as int),
    {
        proof {
            use_type_invariant(self);
        }
        self.code
    }
}

} // verus!

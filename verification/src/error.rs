//! What can go wrong while a request is served, and the HTTP status that each
//! failure is answered with.

use vstd::prelude::*;

verus! {

/// The status of a request that the client got wrong.
pub const BAD_REQUEST: u16 = 400;

/// The status of a request that the service could not carry out.
pub const INTERNAL_SERVER_ERROR: u16 = 500;

/// The kinds of failure. Each is a tag and nothing else: no detail of the
/// pool, the store or the renderer travels with it, so none can reach a
/// client.
#[derive(Clone, Copy, Debug, PartialEq, Eq, Structural)]
pub enum MyError {
    /// A form field is missing or malformed.
    ClientInput,
    /// The pool could not hand out a connection.
    PoolUnavailable,
    /// The store could not carry out a statement.
    StorageFailure,
    /// The view could not be rendered.
    RenderFailure,
}

impl MyError {
    /// The status for a failure: 400 where the client's input is at fault,
    /// 500 for every fault on the service's side.
    pub open spec fn status_code(self) -> u16 {
        if self == MyError::ClientInput {
            BAD_REQUEST
        } else {
            INTERNAL_SERVER_ERROR
        }
    }

    /// The status that this failure is answered with.
    pub fn status(&self) -> (code: u16)
        ensures
            code == self.status_code(),
            code == 400 || code == 500,
            code == 400 <==> *self == MyError::ClientInput,
    {
        match self {
            MyError::ClientInput => BAD_REQUEST,
            MyError::PoolUnavailable => INTERNAL_SERVER_ERROR,
            MyError::StorageFailure => INTERNAL_SERVER_ERROR,
            MyError::RenderFailure => INTERNAL_SERVER_ERROR,
        }
    }

    /// A line for the service's own log. It is never sent to a client.
    pub fn message(&self) -> (line: &'static str)
        ensures
            *self == MyError::ClientInput ==> line@ == "Failed to read the form"@,
            *self == MyError::PoolUnavailable ==> line@ == "Failed to get connection"@,
            *self == MyError::StorageFailure ==> line@ == "Failed to execute SQL statement"@,
            *self == MyError::RenderFailure ==> line@ == "Failed to render HTML"@,
    {
        match self {
            MyError::ClientInput => "Failed to read the form",
            MyError::PoolUnavailable => "Failed to get connection",
            MyError::StorageFailure => "Failed to execute SQL statement",
            MyError::RenderFailure => "Failed to render HTML",
        }
    }
}

} // verus!

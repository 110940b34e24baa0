//! The uniform result that every command returns to its caller.

use vstd::prelude::*;

verus! {

/// What a command came to: whether it succeeded, an HTTP-like status, a
/// message for the user, and a body of JSON text where there is one.
#[derive(Debug, Clone)]
pub struct Response {
    pub result: Option<bool>,
    pub status: Option<u32>,
    pub message: Option<String>,
    pub body: Option<String>,
}

/// What the creation of a site came to.
#[derive(Debug, Clone)]
pub struct CreateSiteResponse {
    pub name: Option<String>,
    pub title: Option<String>,
}

/// A request of the client: the command, and its arguments as JSON text.
#[derive(Debug, Clone)]
pub struct Request {
    pub action: String,
    pub args: String,
}

impl Response {
    /// Whether this is the response of a success with the message `message`:
    /// result `true`, status 200, no body.
    pub open spec fn is_success_with(&self, message: Seq<char>) -> bool {
        &&& self.result == Some(true)
        &&& self.status == Some(200u32)
        &&& self.message is Some
        &&& self.message->0@ == message
        &&& self.body is None
    }

    /// Whether this is the response of a failure with the message `message`:
    /// result `false`, status 500, no body.
    pub open spec fn is_failure_with(&self, message: Seq<char>) -> bool {
        &&& self.result == Some(false)
        &&& self.status == Some(500u32)
        &&& self.message is Some
        &&& self.message->0@ == message
        &&& self.body is None
    }

    /// The response of a command that succeeded.
    pub fn success(message: String) -> (r: Response)
        ensures
            r.is_success_with(message@),
    {
        Response { result: Some(true), status: Some(200), message: Some(message), body: None }
    }

    /// The response of a command that failed.
    pub fn fail(message: String) -> (r: Response)
        ensures
            r.is_failure_with(message@),
    {
        Response { result: Some(false), status: Some(500), message: Some(message), body: None }
    }
}

} // verus!

//! The liveness answer.

use vstd::prelude::*;
use vstd::string::StringExecFns;

verus! {

/// What the service answers to a ping.
#[derive(Clone, Debug, PartialEq, Eq)]
pub struct PongResponse {
    pub message: String,
}

/// The answer to a ping: the message "pong".
pub fn ping() -> (response: PongResponse)
    ensures
        response.message@ == "pong"@,
{
    PongResponse { message: String::from_str("pong") }
}

} // verus!

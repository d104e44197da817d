//! The reply to a request for a free TCP port.
//!
//! The caller binds a listener to `LOOPBACK_ANY_PORT`, which leaves the
//! choice of the port to the operating system, reads back the port it was
//! given and drops the listener. The port is therefore advisory: it was free
//! when the listener was bound, and nothing reserves it afterwards.

use vstd::prelude::*;

verus! {

/// The address to bind: the loopback interface, with port 0 standing for
/// "any free port".
pub const LOOPBACK_ANY_PORT: &'static str = "127.0.0.1:0";

/// A port number that a listener can be bound to: 1 to 65535.
pub open spec fn valid_port(port: u16) -> bool {
    1 <= port <= 65535
}

/// Turns the outcome of binding the listener into the reply. The reply is the
/// outcome as it came: the port that was read back from the listener, or the
/// cause of the failure as text. Only a failed bind makes the reply a failure.
pub fn find_free_port(bound: Result<u16, String>) -> (reply: Result<u16, String>)
    ensures
        reply == bound,
        bound matches Ok(assigned) && assigned != 0 ==> (reply matches Ok(port) && valid_port(
            port,
        )),
{
    bound
}

} // verus!

use vstd::prelude::*;

verus! {

/// The congestion controller of a socket.
#[derive(Debug, Clone, Copy, PartialEq, Eq, Structural)]
pub enum AnyController {
    /// Sends as much as the remote window allows.
    NoControl,
}

impl AnyController {
    pub fn new() -> (r: AnyController)
        ensures
            r == AnyController::NoControl,
    {
        AnyController::NoControl
    }
}

} // verus!

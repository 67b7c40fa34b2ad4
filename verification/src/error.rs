//! What can go wrong in a session, and how far it reaches.

use vstd::prelude::*;
use vstd::string::StringExecFns;

verus! {

/// Why a session could not be opened.
#[derive(Clone, Copy, Debug, PartialEq, Eq, Structural)]
pub enum SessionError {
    /// The key already has a live session. Keys are generated so that this
    /// cannot happen; where it does, the generator is at fault, and the open
    /// is given up rather than tried again.
    DuplicateSession,
}

/// Why an inbound message gave no price. The message is skipped and the
/// session goes on.
#[derive(Clone, Copy, Debug, PartialEq, Eq, Structural)]
pub enum DecodeError {
    /// The message is not of the form that carries a price.
    Malformed,
}

impl SessionError {
    /// A sentence for a log or a user.
    pub fn message(&self) -> (text: String)
        ensures
            text@ == "session key is already open"@,
    {
        match self {
            SessionError::DuplicateSession => String::from_str("session key is already open"),
        }
    }
}

impl DecodeError {
    /// A sentence for a log or a user.
    pub fn message(&self) -> (text: String)
        ensures
            text@ == "message carries no price"@,
    {
        match self {
            DecodeError::Malformed => String::from_str("message carries no price"),
        }
    }
}

} // verus!

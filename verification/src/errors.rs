use vstd::prelude::*;
use crate::types::Participant;

verus! {

/// Relies on std's String::push_str: it appends the given string slice onto
/// the end of this String.
pub assume_specification[ String::push_str ](s: &mut String, other: &str)
    ensures
        final(s)@ == old(s)@ + other@,
;

/// Bad parameters handed to a protocol at initialization; recoverable.
#[derive(Clone, Debug, PartialEq, Eq)]
pub enum InitializationError {
    BadParameters(String),
}

/// A failure inside a running subprotocol.
#[derive(Clone, Debug, PartialEq, Eq)]
pub enum ProtocolError {
    AssertionFailed(String),
    Other(String),
}

/// Everything that can go wrong while driving cryptographic protocols.
#[derive(Clone, Debug, PartialEq, Eq)]
pub enum CryptographicError {
    SendError(String),
    UnknownParticipant(Participant),
    CaitSithInitializationError(InitializationError),
    CaitSithProtocolError(ProtocolError),
}

impl InitializationError {
    /// The text this error describes itself with.
    pub open spec fn spec_describe(self) -> Seq<char> {
        match self {
            InitializationError::BadParameters(s) => "bad parameters: "@ + s@,
        }
    }

    /// A short description, for logs and HTTP error bodies.
    pub fn describe(&self) -> (r: String)
        ensures
            r@ == self.spec_describe(),
    {
        match self {
            InitializationError::BadParameters(s) => {
                let mut out = String::new();
                out.push_str("bad parameters: ");
                out.push_str(s.as_str());
                proof {
                    assert(out@ =~= self.spec_describe());
                }
                out
            },
        }
    }
}

impl ProtocolError {
    /// The text this error describes itself with.
    pub open spec fn spec_describe(self) -> Seq<char> {
        match self {
            ProtocolError::AssertionFailed(s) => "assertion failed: "@ + s@,
            ProtocolError::Other(s) => "protocol error: "@ + s@,
        }
    }

    /// A short description, for logs and HTTP error bodies.
    pub fn describe(&self) -> (r: String)
        ensures
            r@ == self.spec_describe(),
    {
        match self {
            ProtocolError::AssertionFailed(s) => {
                let mut out = String::new();
                out.push_str("assertion failed: ");
                out.push_str(s.as_str());
                proof {
                    assert(out@ =~= self.spec_describe());
                }
                out
            },
            ProtocolError::Other(s) => {
                let mut out = String::new();
                out.push_str("protocol error: ");
                out.push_str(s.as_str());
                proof {
                    assert(out@ =~= self.spec_describe());
                }
                out
            },
        }
    }
}

impl CryptographicError {
    /// The text this error describes itself with.
    pub open spec fn spec_describe(self) -> Seq<char> {
        match self {
            CryptographicError::SendError(s) => "failed to send a message: "@ + s@,
            CryptographicError::UnknownParticipant(_) => "unknown participant"@,
            CryptographicError::CaitSithInitializationError(e) => e.spec_describe(),
            CryptographicError::CaitSithProtocolError(e) => e.spec_describe(),
        }
    }

    /// A short description, for logs and HTTP error bodies.
    pub fn describe(&self) -> (r: String)
        ensures
            r@ == self.spec_describe(),
    {
        match self {
            CryptographicError::SendError(s) => {
                let mut out = String::new();
                out.push_str("failed to send a message: ");
                out.push_str(s.as_str());
                proof {
                    assert(out@ =~= self.spec_describe());
                }
                out
            },
            CryptographicError::UnknownParticipant(_) => {
                let mut out = String::new();
                out.push_str("unknown participant");
                proof {
                    assert(out@ =~= self.spec_describe());
                }
                out
            },
            CryptographicError::CaitSithInitializationError(e) => e.describe(),
            CryptographicError::CaitSithProtocolError(e) => e.describe(),
        }
    }
}

} // verus!

use vstd::prelude::*;
use crate::consensus::ConsensusError;
use crate::errors::CryptographicError;

verus! {

/// One source for everything that can go wrong at the node's web surface.
pub enum Error {
    /// The request body could not be parsed; carries the rejection's own
    /// status and text.
    JsonExtractorRejection { status: u16, body: String },
    Protocol(ConsensusError),
    Cryptography(CryptographicError),
    Message(String),
    Rpc(String),
    /// The node is still starting and cannot accept protocol messages.
    NotRunning,
}

impl Error {
    /// The HTTP status and body this error answers with: malformed bodies
    /// keep their own rejection status, protocol, cryptography and channel
    /// failures are the server's fault, and a bad RPC or a node that is not
    /// yet running are the caller's.
    pub fn into_response(self) -> (r: (u16, String))
        ensures
            match self {
                Error::JsonExtractorRejection { status, body } => r.0 == status && r.1 == body,
                Error::Protocol(e) => r.0 == 500 && r.1@ == e.spec_describe(),
                Error::Cryptography(e) => r.0 == 500 && r.1@ == e.spec_describe(),
                Error::Message(s) => r.0 == 500 && r.1 == s,
                Error::Rpc(s) => r.0 == 400 && r.1 == s,
                Error::NotRunning => r.0 == 400 && r.1@ == "node is not running"@,
            },
    {
        match self {
            Error::JsonExtractorRejection { status, body } => (status, body),
            Error::Protocol(err) => (500, err.describe()),
            Error::Cryptography(err) => (500, err.describe()),
            Error::Message(err) => (500, err),
            Error::Rpc(err) => (400, err),
            Error::NotRunning => {
                let mut out = String::new();
                out.push_str("node is not running");
                proof {
                    reveal_strlit("node is not running");
                    reveal_strlit("");
                }
                (400, out)
            },
        }
    }
}

} // verus!

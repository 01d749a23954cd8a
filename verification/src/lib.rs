//! A node of a threshold ECDSA signing quorum over secp256k1: the state
//! machine that takes a node from key generation through steady-state triple
//! stockpiling and membership resharing, the manager of its Beaver triples,
//! the driver that turns protocol actions into messages, the inbound message
//! router, and the tick that composes them.  Everything around it — network,
//! storage, the coordination contract — is the caller's, reached through
//! plain values.

pub mod codec;
pub mod consensus;
pub mod cryptography;
pub mod digest;
pub mod errors;
pub mod message;
pub mod msg;
pub mod protocol;
pub mod recovery;
pub mod state;
pub mod triple;
pub mod types;
pub mod web;

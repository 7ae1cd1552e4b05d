//! A minimal runtime for participants in a message-passing distributed
//! system: newline-delimited JSON envelopes in, dispatch to per-challenge
//! node logic, envelopes out, with an at-least-once retry protocol for
//! sends that must survive message loss.

pub mod codec;
pub mod counter;
pub mod echo;
pub mod gossip;
pub mod json;
pub mod jval;
pub mod lit;
pub mod message;
pub mod node;
pub mod registry;
pub mod roundtrip;
pub mod runtime;
pub mod unique_ids;

//! A Tendermint consensus state machine over weighted validators.
//!
//! The library holds the decisions of the protocol: quorum arithmetic and the
//! weighted round-robin proposer, the round timing model, the canonical message
//! encoding, the signed message log with its equivocation detection, and the
//! per-height state machine that turns messages and timeouts into votes,
//! slashes and commits. Whatever waits, sleeps or talks to peers drives the
//! machine from outside through the `Network` capability bundle.
pub mod bytes;
pub mod ext;
pub mod fee;
pub mod laws;
pub mod machine;
pub mod message;
pub mod message_log;
pub mod time;
pub mod weights;

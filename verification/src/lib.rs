//! Trust-mesh protocol engine for a passworded, serverless clipboard cluster.
//!
//! Every module holds executable code together with the contract that the
//! verifier proves of it. Network, disk and clock stay outside: callers hand
//! in plain values and carry out the effects that the engine returns.

pub mod churn;
pub mod clipboard;
pub mod crypto;
pub mod discovery;
pub mod effect;
pub mod engine;
pub mod fanout;
pub mod files;
pub mod identity;
pub mod manual;
pub mod membership;
pub mod monitor;
pub mod pairing;
pub mod peer;
pub mod protocol;
pub mod signature;
pub mod state;
pub mod storage;
pub mod table;
pub mod text;
pub mod transport;
pub mod trust;

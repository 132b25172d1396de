//! A distributed proof-of-work mining client library.
//!
//! The library receives block-header job templates, partitions the 64-bit
//! nonce space across a pool of workers, runs each worker's hashing loop as a
//! state machine with job preemption and idle timeout, and serializes found
//! nonces for submission.

pub mod b64;
pub mod block;
pub mod config;
pub mod hexstr;
pub mod responder;
pub mod worker;

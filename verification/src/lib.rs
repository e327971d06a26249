//! The request-execution core of a client that reads blockchain data from
//! a remote node over JSON-RPC. Every call passes an admission gate, which
//! bounds how many calls are under way at once and how many are admitted
//! over time, and is repeated after a failure under a bounded exponential
//! backoff.
//!
//! The library takes every decision and does none of the waiting: a
//! [`call::Call`] says what is to be done next (wait for a permit, wait for
//! the rate limiter, hand the request to the transport, sleep), and takes
//! back what happened.

pub mod call;
pub mod error;
pub mod executor;
pub mod fetcher;
pub mod gate;
pub mod rate;
pub mod request;
pub mod retry;

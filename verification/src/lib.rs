//! RapidGate: the verified core of a unified LLM API gateway.
//!
//! The `gateway_core` module holds the gateway's data model and its algorithms
//! (path normalisation, hashing, consistent hashing, rate limiting, circuit
//! breaking, canary routing, credential checks, trace-context handling),
//! each with a contract that Verus proves.

pub mod gateway_core;

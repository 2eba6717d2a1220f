//! Audit and billing: audit events and token counting.

pub mod counter;

use chrono::Utc;
use vstd::prelude::*;

verus! {

/// The current UTC time in microseconds since the Unix epoch
/// (`chrono::Utc::now` read with `timestamp_micros`).
///
/// Trusted: nothing is claimed of the value, which is the machine's clock.
#[verifier::external_body]
fn utc_now_micros() -> i64 {
    Utc::now().timestamp_micros()
}

/// One audited request.
#[derive(Debug, Clone)]
pub struct AuditEvent {
    /// When the event was recorded, in microseconds since the Unix epoch (UTC).
    pub timestamp_micros: i64,
    pub route_id: String,
    pub api_key_hash: String,
    pub tokens_in: u64,
    pub tokens_out: u64,
    pub latency_ms: u64,
    pub status: u16,
    /// The request's trace id.
    pub trace_id: String,
    /// The user, if known.
    pub user_id: Option<String>,
    /// The upstream provider.
    pub provider: String,
    /// The model used.
    pub model: String,
    /// Prompt tokens, as a `u32` (the low 32 bits of `tokens_in`).
    pub prompt_tokens: u32,
    /// Completion tokens, as a `u32` (the low 32 bits of `tokens_out`).
    pub completion_tokens: u32,
}

impl AuditEvent {
    /// An event stamped with the current time; trace id, provider and model
    /// are empty, and the `u32` token counts keep the low 32 bits of the
    /// `u64` ones.
    pub fn new(
        route_id: String,
        api_key_hash: String,
        tokens_in: u64,
        tokens_out: u64,
        latency_ms: u64,
        status: u16,
    ) -> (e: Self)
        ensures
            e.route_id@ == route_id@,
            e.api_key_hash@ == api_key_hash@,
            e.tokens_in == tokens_in,
            e.tokens_out == tokens_out,
            e.latency_ms == latency_ms,
            e.status == status,
            e.trace_id@ == Seq::<char>::empty(),
            e.user_id is None,
            e.provider@ == Seq::<char>::empty(),
            e.model@ == Seq::<char>::empty(),
            e.prompt_tokens == tokens_in as u32,
            e.completion_tokens == tokens_out as u32,
    {
        AuditEvent {
            timestamp_micros: utc_now_micros(),
            route_id,
            api_key_hash,
            tokens_in,
            tokens_out,
            latency_ms,
            status,
            trace_id: String::new(),
            user_id: None,
            provider: String::new(),
            model: String::new(),
            prompt_tokens: tokens_in as u32,
            completion_tokens: tokens_out as u32,
        }
    }
}

} // verus!

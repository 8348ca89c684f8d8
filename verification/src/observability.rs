//! Observability: request ids, request contexts, the observability
//! configuration and plugin, and the metrics-recorder interface.

use vstd::prelude::*;
use vstd::string::*;
use crate::text::{hex_digits, u64_to_hex, lemma_hex16_injective};
use crate::resilience::now_ms;

verus! {

/// Identifier attached to each request.
#[derive(Debug, Clone)]
pub struct RequestId(pub String);

/// Per-request context.
#[derive(Debug, Clone)]
pub struct RequestContext {
    pub request_id: RequestId,
    /// When the request started, in milliseconds since the epoch.
    pub started_at: u64,
}

/// Observability settings.
#[derive(Debug, Clone)]
pub struct ObservabilityConfig {
    pub service_name: &'static str,
    pub emit_request_logs: bool,
    pub request_id_header: &'static str,
}

impl Default for ObservabilityConfig {
    fn default() -> (r: Self)
        ensures
            r.service_name@ == "nova"@,
            r.emit_request_logs,
            r.request_id_header@ == "x-request-id"@,
    {
        ObservabilityConfig {
            service_name: "nova",
            emit_request_logs: true,
            request_id_header: "x-request-id",
        }
    }
}

/// The request id text for the raw counter value `raw`: `req-` and sixteen
/// lowercase hexadecimal digits.
pub open spec fn request_id_text(raw: u64) -> Seq<char> {
    "req-"@ + hex_digits(raw as nat, 16)
}

/// Issues the next request id from `counter` and advances it (wrapping, as an
/// atomic `fetch_add` does).
pub fn next_request_id(counter: &mut u64) -> (r: RequestId)
    ensures
        r.0@ == request_id_text(*old(counter)),
        *final(counter) == (if *old(counter) == u64::MAX { 0 } else { (*old(counter) + 1) as u64 }),
{
    let raw = *counter;
    *counter = raw.wrapping_add(1);
    let digits = u64_to_hex(raw, 16);
    RequestId(String::from_str("req-").concat(digits.as_str()))
}

/// A fresh request context: the next request id and the current time.
pub fn request_context_from_request(counter: &mut u64) -> (r: RequestContext)
    ensures
        r.request_id.0@ == request_id_text(*old(counter)),
        *final(counter) == (if *old(counter) == u64::MAX { 0 } else { (*old(counter) + 1) as u64 }),
{
    let request_id = next_request_id(counter);
    RequestContext { request_id, started_at: now_ms() }
}

/// Different counter values give different request ids.
pub proof fn law_request_ids_are_distinct(a: u64, b: u64)
    requires
        a != b,
    ensures
        request_id_text(a) != request_id_text(b),
{
    if request_id_text(a) == request_id_text(b) {
        let p = "req-"@;
        assert(hex_digits(a as nat, 16) =~= request_id_text(a).subrange(p.len() as int, request_id_text(a).len() as int));
        assert(hex_digits(b as nat, 16) =~= request_id_text(b).subrange(p.len() as int, request_id_text(b).len() as int));
        lemma_hex16_injective(a, b);
    }
}

/// Every request id begins with `req-`.
pub proof fn law_request_ids_start_with_prefix(raw: u64)
    ensures
        request_id_text(raw).subrange(0, 4) == "req-"@,
{
    reveal_strlit("req-");
    assert(request_id_text(raw).subrange(0, 4) =~= "req-"@);
}

/// Two ids issued one after the other from the same counter differ.
pub proof fn law_successive_request_ids_differ(counter: u64)
    ensures
        request_id_text(counter) != request_id_text(
            (if counter == u64::MAX { 0 } else { (counter + 1) as u64 }),
        ),
{
    law_request_ids_are_distinct(counter, (if counter == u64::MAX { 0 } else { (counter + 1) as u64 }));
}

/// Receives request metrics; every method does nothing unless overridden.
pub trait NovaMetricsRecorder {
    fn record_request_duration(&self, route: &str, status: u16, duration_ms: u64) {
    }

    fn record_error(&self, route: &str, kind: &str) {
    }

    fn record_db_query_duration(&self, name: &str, duration_ms: u64) {
    }
}

/// A recorder that records nothing.
#[derive(Debug, Clone)]
pub struct NoopMetricsRecorder;

impl NovaMetricsRecorder for NoopMetricsRecorder {
}

/// Wires observability into an application for one service.
#[derive(Debug)]
pub struct ObservabilityPlugin {
    pub service_name: &'static str,
}

impl ObservabilityPlugin {
    /// A plugin for `service_name`.
    pub fn new(service_name: &'static str) -> (r: Self)
        ensures
            r.service_name == service_name,
    {
        ObservabilityPlugin { service_name }
    }

    /// The plugin's name in logs.
    pub fn name(&self) -> (r: &'static str)
        ensures
            r@ == "observability"@,
    {
        "observability"
    }
}

} // verus!

//! The decisions of the resilience middleware: whether a request passes the
//! circuit breaker or the rate limiter, what a refused request is answered,
//! which responses count as failures, and which client a request belongs to.

use vstd::prelude::*;
use vstd::string::*;

verus! {

/// The answer to a refused request: status code and JSON body fields.
#[derive(Debug)]
pub struct Rejection {
    pub status: u16,
    pub error: &'static str,
    pub message: &'static str,
}

/// Whether the response with `status` counts as a failure of the service
/// (a 5xx server error).
pub open spec fn is_server_error(status: u16) -> bool {
    500 <= status <= 599
}

/// The responses the breaker counts as failures are exactly those of the
/// server-error class: a status counts when its hundreds digit is 5 (500
/// through 599, such as 502 Bad Gateway and 504 Gateway Timeout) and in no
/// other case.
pub proof fn law_server_error_class(status: u16)
    ensures
        is_server_error(status) <==> status / 100 == 5,
{
}

/// The rejection for an open circuit: 503 `circuit_open`.
pub open spec fn circuit_open_rejection(r: Rejection) -> bool {
    r.status == 503 && r.error@ == "circuit_open"@ && r.message@ == "service temporarily unavailable"@
}

/// The rejection for an exhausted rate limit: 429 `too_many_requests`.
pub open spec fn rate_limited_rejection(r: Rejection) -> bool {
    r.status == 429 && r.error@ == "too_many_requests"@ && r.message@ == "rate limit exceeded"@
}

/// The rejection when the resilience backend itself fails: 500
/// `internal_error`.
pub open spec fn backend_error_rejection(r: Rejection) -> bool {
    r.status == 500 && r.error@ == "internal_error"@ && r.message@ == "resilience backend error"@
}

fn circuit_open() -> (r: Rejection)
    ensures
        circuit_open_rejection(r),
{
    Rejection { status: 503, error: "circuit_open", message: "service temporarily unavailable" }
}

fn rate_limited() -> (r: Rejection)
    ensures
        rate_limited_rejection(r),
{
    Rejection { status: 429, error: "too_many_requests", message: "rate limit exceeded" }
}

fn backend_error() -> (r: Rejection)
    ensures
        backend_error_rejection(r),
{
    Rejection { status: 500, error: "internal_error", message: "resilience backend error" }
}

/// The circuit breaker's gate: `allowed` is the breaker's answer, `None`
/// when its backend failed. A request passes (`None`) only when allowed.
pub fn breaker_gate(allowed: Option<bool>) -> (r: Option<Rejection>)
    ensures
        allowed == Some(true) ==> r is None,
        allowed == Some(false) ==> (r matches Some(x) && circuit_open_rejection(x)),
        allowed is None ==> (r matches Some(x) && backend_error_rejection(x)),
{
    match allowed {
        Some(true) => None,
        Some(false) => Some(circuit_open()),
        None => Some(backend_error()),
    }
}

/// The rate limiter's gate: `allowed` is the limiter's answer, `None` when
/// its backend failed. A request passes (`None`) only when allowed.
pub fn limiter_gate(allowed: Option<bool>) -> (r: Option<Rejection>)
    ensures
        allowed == Some(true) ==> r is None,
        allowed == Some(false) ==> (r matches Some(x) && rate_limited_rejection(x)),
        allowed is None ==> (r matches Some(x) && backend_error_rejection(x)),
{
    match allowed {
        Some(true) => None,
        Some(false) => Some(rate_limited()),
        None => Some(backend_error()),
    }
}

/// Whether the breaker records the response with `status` as a failure
/// (otherwise it records a success).
pub fn counts_as_failure(status: u16) -> (r: bool)
    ensures
        r == is_server_error(status),
{
    500 <= status && status <= 599
}

/// The client a request is limited as: its `x-client-id` header when it is
/// present and readable text, else `anonymous`.
pub fn client_key(header: Option<&str>) -> (r: String)
    ensures
        r@ == (match header {
            Some(h) => h@,
            None => "anonymous"@,
        }),
{
    match header {
        Some(h) => String::from_str(h),
        None => String::from_str("anonymous"),
    }
}

} // verus!

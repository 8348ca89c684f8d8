//! Resilience primitives: circuit breakers, retry policies and the
//! store-backed (distributed) circuit breaker and rate limiter.
//!
//! The in-memory circuit breaker measures time in nanoseconds on the
//! caller's clock; its methods without an explicit time read the monotonic
//! clock. Retry delays are in milliseconds.

use vstd::prelude::*;
use vstd::string::*;
use crate::config::{CircuitBreakerConfig, RateLimiterConfig, ResilienceBackend};
use crate::error::NovaError;
use crate::resilience_store::LuaValue;
use crate::text::{decimal, signed_decimal, u64_to_decimal, i64_to_decimal};

verus! {

/// The standard library's wall-clock reading.
#[verifier::external_type_specification]
#[verifier::external_body]
pub struct ExSystemTime(std::time::SystemTime);

/// The standard library's monotonic clock reading.
#[verifier::external_type_specification]
#[verifier::external_body]
pub struct ExInstant(std::time::Instant);

/// The current reading of the wall clock.
///
/// Calls `std::time::SystemTime::now`; nothing is promised of the value.
#[verifier::external_body]
fn system_time_now() -> std::time::SystemTime {
    std::time::SystemTime::now()
}

/// How long after the Unix epoch `t` lies, `None` when it lies before it.
///
/// Calls `std::time::SystemTime::duration_since` with the epoch; nothing is
/// promised of the value, which depends on the clock reading.
#[verifier::external_body]
fn since_unix_epoch(t: &std::time::SystemTime) -> Option<std::time::Duration> {
    t.duration_since(std::time::UNIX_EPOCH).ok()
}

/// The whole milliseconds in `d`.
///
/// Calls `std::time::Duration::as_millis`; the duration is opaque here, so
/// nothing is stated of the number.
#[verifier::external_body]
fn duration_millis(d: &std::time::Duration) -> u128 {
    d.as_millis()
}

/// The whole nanoseconds in `d`.
///
/// Calls `std::time::Duration::as_nanos`; the duration is opaque here, so
/// nothing is stated of the number.
#[verifier::external_body]
fn duration_nanos(d: &std::time::Duration) -> u128 {
    d.as_nanos()
}

/// The current reading of the monotonic clock.
///
/// Calls `std::time::Instant::now`; nothing is promised of the value.
#[verifier::external_body]
pub(crate) fn instant_now() -> std::time::Instant {
    std::time::Instant::now()
}

/// The time elapsed on the monotonic clock since `origin`.
///
/// Calls `std::time::Instant::elapsed` (zero when the clock reads before
/// `origin`); nothing is promised of the value, which depends on the clock.
#[verifier::external_body]
fn instant_elapsed(origin: &std::time::Instant) -> std::time::Duration {
    origin.elapsed()
}

/// `n` as a 64-bit number, saturating at the largest one.
fn saturate_u64(n: u128) -> (r: u64)
    ensures
        r == (if n <= u64::MAX { n } else { u64::MAX as u128 }),
{
    if n <= u64::MAX as u128 {
        n as u64
    } else {
        u64::MAX
    }
}

/// Milliseconds since the Unix epoch on the wall clock (saturating), 0 when
/// the clock is set before the epoch.
pub(crate) fn now_ms() -> u64 {
    match since_unix_epoch(&system_time_now()) {
        Some(d) => saturate_u64(duration_millis(&d)),
        None => 0,
    }
}

/// Nanoseconds elapsed on the monotonic clock since `origin` (saturating).
pub(crate) fn elapsed_ns(origin: &std::time::Instant) -> u64 {
    saturate_u64(duration_nanos(&instant_elapsed(origin)))
}

// ---------------------------------------------------------------------------
// In-memory circuit breaker
// ---------------------------------------------------------------------------

/// Abstract state of a circuit breaker.
pub struct CircuitBreakerView {
    pub failures: u32,
    pub threshold: u32,
    pub open_until: Option<u64>,
    pub open_duration_ns: u64,
}

/// `allow` at time `now`: an open breaker refuses calls until `open_until`;
/// once that time is reached it closes again (failures reset) and allows.
pub open spec fn spec_allow(v: CircuitBreakerView, now: u64) -> (CircuitBreakerView, bool) {
    match v.open_until {
        Some(until) => if now < until {
            (v, false)
        } else {
            (CircuitBreakerView { failures: 0, open_until: None, ..v }, true)
        },
        None => (v, true),
    }
}

/// `record_failure` at time `now`: one more failure; reaching the threshold
/// opens the breaker for `open_duration_ns` from now.
pub open spec fn spec_record_failure(v: CircuitBreakerView, now: u64) -> CircuitBreakerView {
    let failures = (v.failures + 1) as u32;
    if failures >= v.threshold {
        CircuitBreakerView {
            failures,
            open_until: Some(
                if now + v.open_duration_ns <= u64::MAX {
                    (now + v.open_duration_ns) as u64
                } else {
                    u64::MAX
                },
            ),
            ..v
        }
    } else {
        CircuitBreakerView { failures, ..v }
    }
}

/// `record_success`: the failure counter restarts from zero.
pub open spec fn spec_record_success(v: CircuitBreakerView) -> CircuitBreakerView {
    CircuitBreakerView { failures: 0, ..v }
}

/// Simple in-memory circuit breaker with manual record API.
///
/// Its times are nanoseconds on the monotonic clock, counted from the
/// moment the breaker was made.
pub struct CircuitBreaker {
    failures: u32,
    threshold: u32,
    open_until: Option<u64>,
    open_duration_ns: u64,
    origin: std::time::Instant,
}

impl CircuitBreaker {
    /// The abstract value.
    pub closed spec fn view(&self) -> CircuitBreakerView {
        CircuitBreakerView {
            failures: self.failures,
            threshold: self.threshold,
            open_until: self.open_until,
            open_duration_ns: self.open_duration_ns,
        }
    }

    /// A closed breaker with no failures that opens after `threshold`
    /// failures for `open_duration_ns` nanoseconds.
    pub fn new(threshold: u32, open_duration_ns: u64) -> (r: Self)
        ensures
            r@ == (CircuitBreakerView {
                failures: 0,
                threshold,
                open_until: None,
                open_duration_ns,
            }),
    {
        CircuitBreaker { failures: 0, threshold, open_until: None, open_duration_ns, origin: instant_now() }
    }

    /// Number of failures recorded since the last reset.
    pub fn failures(&self) -> (r: u32)
        ensures
            r == self@.failures,
    {
        self.failures
    }

    /// Check whether calls are allowed at time `now` (nanoseconds).
    pub fn allow_at(&mut self, now: u64) -> (r: bool)
        ensures
            (final(self)@, r) == spec_allow(old(self)@, now),
    {
        match self.open_until {
            Some(until) => {
                if now < until {
                    false
                } else {
                    self.failures = 0;
                    self.open_until = None;
                    true
                }
            },
            None => true,
        }
    }

    /// Check whether calls are currently allowed, by the monotonic clock.
    pub fn allow(&mut self) -> (r: bool)
        ensures
            exists|now: u64| (final(self)@, r) == spec_allow(old(self)@, now),
    {
        let now = elapsed_ns(&self.origin);
        self.allow_at(now)
    }

    /// Record a successful call (resets the failure counter).
    pub fn record_success(&mut self)
        ensures
            final(self)@ == spec_record_success(old(self)@),
    {
        self.failures = 0;
    }

    /// Record a failed call at time `now`; the breaker opens when the
    /// threshold is reached.
    pub fn record_failure_at(&mut self, now: u64)
        requires
            old(self)@.failures < u32::MAX,
        ensures
            final(self)@ == spec_record_failure(old(self)@, now),
    {
        self.failures = self.failures + 1;
        if self.failures >= self.threshold {
            self.open_until = Some(now.saturating_add(self.open_duration_ns));
        }
    }

    /// Record a failed call now, by the monotonic clock.
    pub fn record_failure(&mut self)
        requires
            old(self)@.failures < u32::MAX,
        ensures
            exists|now: u64| final(self)@ == spec_record_failure(old(self)@, now),
    {
        let now = elapsed_ns(&self.origin);
        self.record_failure_at(now);
    }
}

/// The breaker after failures recorded at the times `times`, in order.
pub open spec fn failures_over(v: CircuitBreakerView, times: Seq<u64>) -> CircuitBreakerView
    decreases times.len(),
{
    if times.len() == 0 {
        v
    } else {
        spec_record_failure(failures_over(v, times.drop_last()), times.last())
    }
}

/// Until when a breaker opened at time `t` for `d` stays open: `t + d`,
/// saturating at the largest time.
pub open spec fn open_deadline(t: u64, d: u64) -> u64 {
    if t + d <= u64::MAX { (t + d) as u64 } else { u64::MAX }
}

/// A breaker opens exactly when the threshold is reached: starting closed
/// with no failures, fewer than `threshold` failures (at any times) leave
/// calls allowed at any time, and checking does not change the breaker;
/// the `threshold`-th failure, at time `t`, makes it refuse calls until
/// `open_duration_ns` has passed from `t`.
pub proof fn law_breaker_opens_at_threshold(v: CircuitBreakerView, times: Seq<u64>, now: u64)
    requires
        v.failures == 0,
        v.open_until is None,
        times.len() <= v.threshold,
    ensures
        times.len() < v.threshold ==> spec_allow(failures_over(v, times), now) == (failures_over(v, times), true),
        times.len() == v.threshold && times.len() > 0 ==> failures_over(v, times).open_until == Some(
            open_deadline(times.last(), v.open_duration_ns),
        ),
        times.len() == v.threshold && times.len() > 0 && now < open_deadline(times.last(), v.open_duration_ns)
            ==> !spec_allow(failures_over(v, times), now).1,
{
    if times.len() > 0 {
        lemma_failures_count(v, times.drop_last());
    }
    if times.len() < v.threshold {
        lemma_failures_count(v, times);
    }
}

proof fn lemma_failures_count(v: CircuitBreakerView, times: Seq<u64>)
    requires
        v.failures == 0,
        v.open_until is None,
        times.len() < v.threshold,
    ensures
        failures_over(v, times).failures == times.len(),
        failures_over(v, times).open_until is None,
        failures_over(v, times).threshold == v.threshold,
        failures_over(v, times).open_duration_ns == v.open_duration_ns,
    decreases times.len(),
{
    if times.len() > 0 {
        lemma_failures_count(v, times.drop_last());
    }
}

/// A success restarts the failure count: on a closed breaker with no
/// failures, failures at the times `before` (fewer than the threshold), then
/// a success, then failures at the times `after` (fewer than the threshold)
/// leave exactly `after.len()` failures recorded and calls allowed at any
/// time; only `threshold` failures with no success between them open the
/// breaker.
pub proof fn law_success_restarts_count(v: CircuitBreakerView, before: Seq<u64>, after: Seq<u64>, now: u64)
    requires
        v.failures == 0,
        v.open_until is None,
        before.len() < v.threshold,
        after.len() < v.threshold,
    ensures
        spec_record_success(failures_over(v, before)) == v,
        failures_over(spec_record_success(failures_over(v, before)), after).failures == after.len(),
        spec_allow(failures_over(spec_record_success(failures_over(v, before)), after), now) == (
            failures_over(spec_record_success(failures_over(v, before)), after),
            true,
        ),
{
    lemma_failures_count(v, before);
    lemma_failures_count(v, after);
}

/// An open breaker closes again once its open period has passed: the next
/// check allows the call and starts again from zero failures.
pub proof fn law_breaker_closes_after_open_period(v: CircuitBreakerView, now: u64)
    requires
        v.open_until matches Some(until) && until <= now,
    ensures
        spec_allow(v, now) == (CircuitBreakerView { failures: 0, open_until: None, ..v }, true),
{
}

// ---------------------------------------------------------------------------
// Retry policy
// ---------------------------------------------------------------------------

/// 2 to the power `n`.
pub open spec fn two_pow(n: nat) -> nat
    decreases n,
{
    if n == 0 { 1 } else { 2 * two_pow((n - 1) as nat) }
}

proof fn lemma_two_pow_monotonic(m: nat, n: nat)
    requires
        m <= n,
    ensures
        two_pow(m) <= two_pow(n),
    decreases n,
{
    if m < n {
        lemma_two_pow_monotonic(m, (n - 1) as nat);
    }
}

proof fn lemma_two_pow_positive(n: nat)
    ensures
        two_pow(n) > 0,
    decreases n,
{
    if n > 0 {
        lemma_two_pow_positive((n - 1) as nat);
    }
}

proof fn lemma_two_pow_bound(n: nat)
    requires
        n <= 62,
    ensures
        two_pow(n) <= 0x4000_0000_0000_0000,
{
    lemma_two_pow_monotonic(n, 62);
    reveal_with_fuel(two_pow, 63);
}

/// Delay before retry number `attempt + 1`: `base * 2^attempt` milliseconds.
pub open spec fn backoff_ms(base_delay_ms: u64, attempt: nat) -> nat {
    (base_delay_ms as nat) * two_pow(attempt)
}

/// The delay can be computed without overflow (the policy's arithmetic
/// panics past that point).
pub open spec fn backoff_fits(base_delay_ms: u64, attempt: nat) -> bool {
    attempt < 64 && backoff_ms(base_delay_ms, attempt) <= u64::MAX
}

/// Simple retry policy with exponential backoff.
#[derive(Debug, Clone)]
pub struct RetryPolicy {
    pub max_retries: usize,
    /// Base delay in milliseconds.
    pub base_delay_ms: u64,
}

impl RetryPolicy {
    /// A policy that retries up to `max_retries` times, starting with
    /// `base_delay_ms` milliseconds and doubling each time.
    pub fn new(max_retries: usize, base_delay_ms: u64) -> (r: Self)
        ensures
            r.max_retries == max_retries,
            r.base_delay_ms == base_delay_ms,
    {
        RetryPolicy { max_retries, base_delay_ms }
    }

    /// Delay in milliseconds before the retry that follows failed attempt
    /// number `attempt` (counting from 0): `base_delay_ms * 2^attempt`.
    pub fn next_delay(&self, attempt: usize) -> (r: u64)
        requires
            backoff_fits(self.base_delay_ms, attempt as nat),
        ensures
            r == backoff_ms(self.base_delay_ms, attempt as nat),
    {
        let mut factor: u64 = 1;
        let mut i: usize = 0;
        while i < attempt
            invariant
                i <= attempt < 64,
                factor == two_pow(i as nat),
            decreases attempt - i,
        {
            proof {
                lemma_two_pow_bound(i as nat);
            }
            factor = factor * 2;
            i = i + 1;
        }
        self.base_delay_ms * factor
    }

    /// Whether `after_failure(attempt)` is defined: the retries are used up,
    /// or the delay of the next retry fits in 64 bits.
    pub fn delay_fits(&self, attempt: usize) -> (r: bool)
        ensures
            r == (attempt < self.max_retries ==> backoff_fits(self.base_delay_ms, attempt as nat)),
    {
        if attempt >= self.max_retries {
            return true;
        }
        if attempt >= 64 {
            return false;
        }
        let mut factor: u64 = 1;
        let mut i: usize = 0;
        while i < attempt
            invariant
                i <= attempt < 64,
                factor == two_pow(i as nat),
            decreases attempt - i,
        {
            proof {
                lemma_two_pow_bound(i as nat);
            }
            factor = factor * 2;
            i = i + 1;
        }
        proof {
            lemma_two_pow_positive(attempt as nat);
        }
        let base = self.base_delay_ms;
        let limit = u64::MAX / factor;
        proof {
            let b = base as int;
            let f = factor as int;
            let m = u64::MAX as int;
            assert(b * f <= m <==> b <= m / f) by (nonlinear_arith)
                requires
                    f > 0,
                    m >= 0,
                    b >= 0,
            {
                vstd::arithmetic::div_mod::lemma_fundamental_div_mod(m, f);
                if b <= m / f {
                    vstd::arithmetic::mul::lemma_mul_inequality(b, m / f, f);
                } else {
                    vstd::arithmetic::mul::lemma_mul_inequality(m / f + 1, b, f);
                }
            }
        }
        base <= limit
    }

    /// What follows the failure of attempt number `attempt` (counting from
    /// 0): `Some(delay)` to wait `delay` milliseconds and try again, or
    /// `None` when the retries are used up and the error is returned.
    pub fn after_failure(&self, attempt: usize) -> (r: Option<u64>)
        requires
            attempt < self.max_retries ==> backoff_fits(self.base_delay_ms, attempt as nat),
        ensures
            attempt >= self.max_retries ==> r is None,
            attempt < self.max_retries ==> r == Some(backoff_ms(self.base_delay_ms, attempt as nat) as u64),
    {
        if attempt >= self.max_retries {
            None
        } else {
            Some(self.next_delay(attempt))
        }
    }
}

// ---------------------------------------------------------------------------
// Store-backed (distributed) circuit breaker and rate limiter
// ---------------------------------------------------------------------------

/// One operation on a resilience store, as its driver performs it.
#[derive(Debug)]
pub enum StoreCommand {
    /// Increment the counter at `key` (an absent key counts as 0).
    Incr { key: String },
    /// Read the integer at `key`.
    GetI64 { key: String },
    /// Set `key` to `value` for `ttl_seconds` seconds.
    SetEx { key: String, value: i64, ttl_seconds: usize },
    /// Remove `key`.
    Del { key: String },
}

/// Abstract form of a store operation.
pub enum StoreCommandView {
    Incr { key: Seq<char> },
    GetI64 { key: Seq<char> },
    SetEx { key: Seq<char>, value: i64, ttl_seconds: usize },
    Del { key: Seq<char> },
}

impl StoreCommand {
    /// The abstract value.
    pub open spec fn view(&self) -> StoreCommandView {
        match *self {
            StoreCommand::Incr { key } => StoreCommandView::Incr { key: key@ },
            StoreCommand::GetI64 { key } => StoreCommandView::GetI64 { key: key@ },
            StoreCommand::SetEx { key, value, ttl_seconds } => StoreCommandView::SetEx {
                key: key@,
                value,
                ttl_seconds,
            },
            StoreCommand::Del { key } => StoreCommandView::Del { key: key@ },
        }
    }
}

/// The abstract form of each command.
pub open spec fn command_views(v: Seq<StoreCommand>) -> Seq<StoreCommandView> {
    v.map_values(|c: StoreCommand| c@)
}

/// Key of the failure counter of breaker `name`.
pub open spec fn failures_key_of(name: Seq<char>) -> Seq<char> {
    "cb:fail:"@ + name
}

/// Key of the open flag of breaker `name`.
pub open spec fn open_key_of(name: Seq<char>) -> Seq<char> {
    "cb:open:"@ + name
}

/// Whether a breaker whose open flag reads `flag` allows calls: it refuses
/// them while the flag is set to a positive value.
pub open spec fn allows_with_flag(flag: Option<i64>) -> bool {
    !(flag matches Some(v) && v > 0)
}

/// Store operations that follow a failure that brought the counter to
/// `count`: at the threshold the breaker opens for its TTL and the counter
/// is reset; below it nothing more happens. The counter is compared after
/// truncation to 32 bits, as the breaker reads it.
pub open spec fn failure_followups_of(
    name: Seq<char>,
    threshold: u32,
    ttl_seconds: usize,
    count: i64,
) -> Seq<StoreCommandView> {
    if (count as u32) >= threshold {
        seq![
            StoreCommandView::SetEx { key: open_key_of(name), value: 1, ttl_seconds },
            StoreCommandView::Del { key: failures_key_of(name) },
        ]
    } else {
        Seq::empty()
    }
}

/// Store operations of a success: the counter and the open flag are cleared.
pub open spec fn success_commands_of(name: Seq<char>) -> Seq<StoreCommandView> {
    seq![StoreCommandView::Del { key: failures_key_of(name) }, StoreCommandView::Del { key: open_key_of(name) }]
}

/// Circuit breaker whose counters live in a shared store `S`.
///
/// `allow` reads the open flag (`GetI64 { open_key }`) and decides with
/// `allows_with_flag`; `record_failure` increments the failure counter
/// (`Incr { failures_key }`) and then performs `failure_followups`;
/// `record_success` performs `success_commands`.
pub struct DistributedCircuitBreaker<S> {
    store: S,
    name: String,
    threshold: u32,
    open_ttl_seconds: usize,
}

impl<S> DistributedCircuitBreaker<S> {
    /// The breaker's name.
    pub closed spec fn spec_name(&self) -> Seq<char> {
        self.name@
    }

    /// Failures that open the breaker.
    pub closed spec fn spec_threshold(&self) -> u32 {
        self.threshold
    }

    /// How long the breaker stays open, in seconds.
    pub closed spec fn spec_open_ttl_seconds(&self) -> usize {
        self.open_ttl_seconds
    }

    /// The store that holds the shared state.
    pub closed spec fn spec_store(&self) -> S {
        self.store
    }

    /// A breaker named `name` over `store`.
    pub fn new(store: S, name: String, threshold: u32, open_ttl_seconds: usize) -> (r: Self)
        ensures
            r.spec_store() == store,
            r.spec_name() == name@,
            r.spec_threshold() == threshold,
            r.spec_open_ttl_seconds() == open_ttl_seconds,
    {
        DistributedCircuitBreaker { store, name, threshold, open_ttl_seconds }
    }

    /// The store the breaker's state lives in.
    pub fn store(&self) -> (r: &S)
        ensures
            *r == self.spec_store(),
    {
        &self.store
    }

    /// Key of the failure counter: `cb:fail:{name}`.
    pub fn failures_key(&self) -> (r: String)
        ensures
            r@ == failures_key_of(self.spec_name()),
    {
        String::from_str("cb:fail:").concat(self.name.as_str())
    }

    /// Key of the open flag: `cb:open:{name}`.
    pub fn open_key(&self) -> (r: String)
        ensures
            r@ == open_key_of(self.spec_name()),
    {
        String::from_str("cb:open:").concat(self.name.as_str())
    }

    /// The read that `allow` makes.
    pub fn allow_command(&self) -> (r: StoreCommand)
        ensures
            r@ == (StoreCommandView::GetI64 { key: open_key_of(self.spec_name()) }),
    {
        StoreCommand::GetI64 { key: self.open_key() }
    }

    /// Whether calls are allowed, given the open flag read from the store.
    pub fn allow_from_flag(flag: Option<i64>) -> (r: bool)
        ensures
            r == allows_with_flag(flag),
    {
        match flag {
            Some(v) => !(v > 0),
            None => true,
        }
    }

    /// The increment that `record_failure` starts with.
    pub fn failure_command(&self) -> (r: StoreCommand)
        ensures
            r@ == (StoreCommandView::Incr { key: failures_key_of(self.spec_name()) }),
    {
        StoreCommand::Incr { key: self.failures_key() }
    }

    /// The operations that follow the increment, given the counter's new value.
    pub fn failure_followups(&self, count: i64) -> (r: Vec<StoreCommand>)
        ensures
            command_views(r@) == failure_followups_of(
                self.spec_name(),
                self.spec_threshold(),
                self.spec_open_ttl_seconds(),
                count,
            ),
    {
        let mut r: Vec<StoreCommand> = Vec::new();
        if (count as u32) >= self.threshold {
            r.push(StoreCommand::SetEx { key: self.open_key(), value: 1, ttl_seconds: self.open_ttl_seconds });
            r.push(StoreCommand::Del { key: self.failures_key() });
        }
        assert(command_views(r@) =~= failure_followups_of(
            self.spec_name(),
            self.spec_threshold(),
            self.spec_open_ttl_seconds(),
            count,
        ));
        r
    }

    /// The operations of `record_success`.
    pub fn success_commands(&self) -> (r: Vec<StoreCommand>)
        ensures
            command_views(r@) == success_commands_of(self.spec_name()),
    {
        let mut r: Vec<StoreCommand> = Vec::new();
        r.push(StoreCommand::Del { key: self.failures_key() });
        r.push(StoreCommand::Del { key: self.open_key() });
        assert(command_views(r@) =~= success_commands_of(self.spec_name()));
        r
    }
}

/// The key-value semantics of the store operations: `Incr` adds one to the
/// counter (absent counts as 0), `SetEx` sets the value (expiry is not
/// modelled), `Del` removes the key, `GetI64` changes nothing.
pub open spec fn apply_command(m: Map<Seq<char>, int>, c: StoreCommandView) -> Map<Seq<char>, int> {
    match c {
        StoreCommandView::Incr { key } => m.insert(key, if m.contains_key(key) { m[key] + 1 } else { 1 }),
        StoreCommandView::GetI64 { .. } => m,
        StoreCommandView::SetEx { key, value, .. } => m.insert(key, value as int),
        StoreCommandView::Del { key } => m.remove(key),
    }
}

/// The store after the operations `cs`, in order.
pub open spec fn apply_commands(m: Map<Seq<char>, int>, cs: Seq<StoreCommandView>) -> Map<
    Seq<char>,
    int,
>
    decreases cs.len(),
{
    if cs.len() == 0 {
        m
    } else {
        apply_commands(apply_command(m, cs[0]), cs.drop_first())
    }
}

/// The store after one `record_failure` of breaker `name`.
pub open spec fn store_after_failure(
    m: Map<Seq<char>, int>,
    name: Seq<char>,
    threshold: u32,
    ttl_seconds: usize,
) -> Map<Seq<char>, int> {
    let m1 = apply_command(m, StoreCommandView::Incr { key: failures_key_of(name) });
    apply_commands(m1, failure_followups_of(name, threshold, ttl_seconds, m1[failures_key_of(name)] as i64))
}

/// The store after `k` failures of breaker `name`.
pub open spec fn store_after_failures(
    m: Map<Seq<char>, int>,
    name: Seq<char>,
    threshold: u32,
    ttl_seconds: usize,
    k: nat,
) -> Map<Seq<char>, int>
    decreases k,
{
    if k == 0 {
        m
    } else {
        store_after_failure(
            store_after_failures(m, name, threshold, ttl_seconds, (k - 1) as nat),
            name,
            threshold,
            ttl_seconds,
        )
    }
}

/// The flag that `allow` reads from the store.
pub open spec fn open_flag(m: Map<Seq<char>, int>, name: Seq<char>) -> Option<i64> {
    if m.contains_key(open_key_of(name)) { Some(m[open_key_of(name)] as i64) } else { None }
}

proof fn lemma_keys_differ(name: Seq<char>)
    ensures
        failures_key_of(name) != open_key_of(name),
{
    reveal_strlit("cb:fail:");
    reveal_strlit("cb:open:");
    assert(failures_key_of(name)[3] != open_key_of(name)[3]);
}

proof fn lemma_counting_failures(
    m: Map<Seq<char>, int>,
    name: Seq<char>,
    threshold: u32,
    ttl_seconds: usize,
    k: nat,
)
    requires
        !m.contains_key(failures_key_of(name)),
        !m.contains_key(open_key_of(name)),
        k < threshold,
    ensures
        store_after_failures(m, name, threshold, ttl_seconds, k).contains_key(failures_key_of(name))
            <==> k > 0,
        k > 0 ==> store_after_failures(m, name, threshold, ttl_seconds, k)[failures_key_of(name)] == k,
        !store_after_failures(m, name, threshold, ttl_seconds, k).contains_key(open_key_of(name)),
    decreases k,
{
    lemma_keys_differ(name);
    if k > 0 {
        lemma_counting_failures(m, name, threshold, ttl_seconds, (k - 1) as nat);
        let prev = store_after_failures(m, name, threshold, ttl_seconds, (k - 1) as nat);
        let m1 = apply_command(prev, StoreCommandView::Incr { key: failures_key_of(name) });
        assert(m1[failures_key_of(name)] == k);
        assert(((k as i64) as u32) == k);
        assert(apply_commands(m1, Seq::<StoreCommandView>::empty()) == m1);
    }
}

/// A store-backed breaker opens exactly at the threshold: from a store
/// holding neither its counter nor its flag, fewer than `threshold` failures
/// leave calls allowed, and the `threshold`-th failure sets the open flag
/// (and clears the counter), so calls are refused while the flag lives.
pub proof fn law_distributed_breaker_opens_at_threshold(
    m: Map<Seq<char>, int>,
    name: Seq<char>,
    threshold: u32,
    ttl_seconds: usize,
    k: nat,
)
    requires
        !m.contains_key(failures_key_of(name)),
        !m.contains_key(open_key_of(name)),
        k <= threshold,
    ensures
        k < threshold ==> allows_with_flag(
            open_flag(store_after_failures(m, name, threshold, ttl_seconds, k), name),
        ),
        k == threshold && k > 0 ==> !allows_with_flag(
            open_flag(store_after_failures(m, name, threshold, ttl_seconds, k), name),
        ),
        k == threshold && k > 0 ==> !store_after_failures(m, name, threshold, ttl_seconds, k).contains_key(
            failures_key_of(name),
        ),
{
    lemma_keys_differ(name);
    if k < threshold {
        lemma_counting_failures(m, name, threshold, ttl_seconds, k);
    } else if k > 0 {
        lemma_counting_failures(m, name, threshold, ttl_seconds, (k - 1) as nat);
        let prev = store_after_failures(m, name, threshold, ttl_seconds, (k - 1) as nat);
        let m1 = apply_command(prev, StoreCommandView::Incr { key: failures_key_of(name) });
        assert(m1[failures_key_of(name)] == k);
        assert(((k as i64) as u32) == k);
        let cs = failure_followups_of(name, threshold, ttl_seconds, k as i64);
        let m2 = apply_command(m1, cs[0]);
        let m3 = apply_command(m2, cs[1]);
        assert(cs.drop_first().drop_first() =~= Seq::<StoreCommandView>::empty());
        assert(apply_commands(m1, cs) == apply_commands(m2, cs.drop_first()));
        assert(apply_commands(m2, cs.drop_first()) == apply_commands(m3, cs.drop_first().drop_first()));
        assert(m3.contains_key(open_key_of(name)));
        assert(m3[open_key_of(name)] == 1);
    }
}

/// Key of the request counter of `client` under `prefix`.
pub open spec fn rate_key_of(prefix: Seq<char>, client: Seq<char>) -> Seq<char> {
    "rl:"@ + prefix + ":"@ + client
}

/// The Lua script a store-backed rate limiter runs: a fixed-window counter
/// that starts its window on the first request and answers 1 (allowed) or
/// 0 (over capacity).
pub open spec fn allow_script_text() -> Seq<char> {
    "
        local key = KEYS[1]
        local window_seconds = tonumber(ARGV[1])
        local capacity = tonumber(ARGV[2])

        local current = redis.call('INCR', key)
        if current == 1 then
            redis.call('EXPIRE', key, window_seconds)
        end

        if current > capacity then
            return 0
        end

        return 1
        "@
}

/// A script invocation for the store: script text, keys and arguments.
#[derive(Debug)]
pub struct ScriptCall {
    pub script: &'static str,
    pub keys: Vec<String>,
    pub args: Vec<String>,
}

/// Message of the error returned when the script answers something other
/// than an integer.
pub open spec fn unexpected_script_reply() -> Seq<char> {
    "rate limiter lua script returned unexpected value"@
}

/// Distributed rate limiter using fixed window counters in the store `S`.
///
/// `allow` runs `allow_call(client)` on the store and decides with
/// `allow_from_reply`.
pub struct DistributedRateLimiter<S> {
    store: S,
    prefix: String,
    capacity: i64,
    window_seconds: usize,
}

impl<S> DistributedRateLimiter<S> {
    /// The prefix of the limiter's keys.
    pub closed spec fn spec_prefix(&self) -> Seq<char> {
        self.prefix@
    }

    /// Requests allowed per window.
    pub closed spec fn spec_capacity(&self) -> i64 {
        self.capacity
    }

    /// Length of a window, in seconds.
    pub closed spec fn spec_window_seconds(&self) -> usize {
        self.window_seconds
    }

    /// The store that holds the shared state.
    pub closed spec fn spec_store(&self) -> S {
        self.store
    }

    /// A limiter allowing `capacity` requests per `window_seconds` window
    /// for each client, with keys under `prefix`.
    pub fn new(store: S, prefix: String, capacity: i64, window_seconds: usize) -> (r: Self)
        ensures
            r.spec_store() == store,
            r.spec_prefix() == prefix@,
            r.spec_capacity() == capacity,
            r.spec_window_seconds() == window_seconds,
    {
        DistributedRateLimiter { store, prefix, capacity, window_seconds }
    }

    /// The store the counters live in.
    pub fn store(&self) -> (r: &S)
        ensures
            *r == self.spec_store(),
    {
        &self.store
    }

    /// Key of the counter of `client`: `rl:{prefix}:{client}`.
    pub fn key_for(&self, client: &str) -> (r: String)
        ensures
            r@ == rate_key_of(self.spec_prefix(), client@),
    {
        String::from_str("rl:").concat(self.prefix.as_str()).concat(":").concat(client)
    }

    /// The Lua script run for each request.
    pub fn allow_script() -> (r: &'static str)
        ensures
            r@ == allow_script_text(),
    {
        "
        local key = KEYS[1]
        local window_seconds = tonumber(ARGV[1])
        local capacity = tonumber(ARGV[2])

        local current = redis.call('INCR', key)
        if current == 1 then
            redis.call('EXPIRE', key, window_seconds)
        end

        if current > capacity then
            return 0
        end

        return 1
        "
    }

    /// The script call that consumes one request of `client`: key
    /// `rl:{prefix}:{client}`, arguments the window in seconds and the
    /// capacity, in decimal.
    pub fn allow_call(&self, client: &str) -> (r: ScriptCall)
        ensures
            r.script@ == allow_script_text(),
            r.keys@.len() == 1,
            r.keys@[0]@ == rate_key_of(self.spec_prefix(), client@),
            r.args@.len() == 2,
            r.args@[0]@ == decimal(self.spec_window_seconds() as nat),
            r.args@[1]@ == signed_decimal(self.spec_capacity() as int),
    {
        let mut keys: Vec<String> = Vec::new();
        keys.push(self.key_for(client));
        let mut args: Vec<String> = Vec::new();
        args.push(u64_to_decimal(self.window_seconds as u64));
        args.push(i64_to_decimal(self.capacity));
        ScriptCall { script: Self::allow_script(), keys, args }
    }

    /// The decision, given the script's reply: allowed when it answers a
    /// positive integer, refused on zero or less, an internal error when the
    /// reply is not an integer.
    pub fn allow_from_reply(reply: &LuaValue) -> (r: Result<bool, NovaError>)
        ensures
            reply is Integer ==> r == Ok::<bool, NovaError>(reply->Integer_0 > 0),
            !(reply is Integer) ==> (r matches Err(NovaError::InternalError(m))
                && m@ == unexpected_script_reply()),
    {
        match reply.as_i64() {
            Some(result) => Ok(result > 0),
            None => Err(NovaError::InternalError(
                String::from_str("rate limiter lua script returned unexpected value"),
            )),
        }
    }
}

/// The circuit breaker a configuration asks for.
pub enum CircuitBreakerBackend<S> {
    Local(CircuitBreaker),
    Distributed(DistributedCircuitBreaker<S>),
}

/// Open period in nanoseconds for a TTL given in seconds (saturating).
pub open spec fn ttl_ns(ttl_seconds: usize) -> u64 {
    if ttl_seconds * 1_000_000_000 <= u64::MAX { (ttl_seconds * 1_000_000_000) as u64 } else { u64::MAX }
}

/// Build the circuit breaker that `cfg` asks for: local for a local
/// backend, and for a Redis backend the store-backed breaker named `name`
/// when a store is given, local otherwise.
pub fn build_circuit_breaker_backend<S>(name: &str, cfg: &CircuitBreakerConfig, store_opt: Option<S>) -> (r:
    CircuitBreakerBackend<S>)
    ensures
        (cfg.backend is Local || store_opt is None) ==> (r matches CircuitBreakerBackend::Local(cb)
            && cb@ == (CircuitBreakerView {
            failures: 0,
            threshold: cfg.threshold,
            open_until: None,
            open_duration_ns: ttl_ns(cfg.open_ttl_seconds),
        })),
        (cfg.backend is Redis && store_opt is Some) ==> (r matches CircuitBreakerBackend::Distributed(d)
            && d.spec_store() == store_opt->0 && d.spec_name() == name@ && d.spec_threshold()
            == cfg.threshold && d.spec_open_ttl_seconds() == cfg.open_ttl_seconds),
{
    let ttl = cfg.open_ttl_seconds as u64;
    let open_ns = if ttl <= u64::MAX / 1_000_000_000 { ttl * 1_000_000_000 } else { u64::MAX };
    match &cfg.backend {
        ResilienceBackend::Local => CircuitBreakerBackend::Local(CircuitBreaker::new(cfg.threshold, open_ns)),
        ResilienceBackend::Redis { .. } => {
            match store_opt {
                Some(store) => CircuitBreakerBackend::Distributed(
                    DistributedCircuitBreaker::new(store, String::from_str(name), cfg.threshold, cfg.open_ttl_seconds),
                ),
                None => CircuitBreakerBackend::Local(CircuitBreaker::new(cfg.threshold, open_ns)),
            }
        },
    }
}

/// The rate limiter a configuration asks for: an in-process token bucket
/// refilling `capacity` tokens per `window_seconds`, or a store-backed one.
pub enum RateLimiterBackend<S> {
    Local { capacity: i64, window_seconds: usize },
    Distributed(DistributedRateLimiter<S>),
}

/// The key prefix of a store-backed limiter: the backend's own prefix when
/// it has one, else the caller's.
pub open spec fn chosen_prefix(backend_prefix: Option<String>, prefix: Seq<char>) -> Seq<char> {
    match backend_prefix {
        Some(p) => p@,
        None => prefix,
    }
}

/// Build the rate limiter that `cfg` asks for: local for a local backend,
/// and for a Redis backend the store-backed limiter (keys under the
/// backend's prefix, else `prefix`) when a store is given, local otherwise.
pub fn build_rate_limiter_backend<S>(prefix: &str, cfg: &RateLimiterConfig, store_opt: Option<S>) -> (r:
    RateLimiterBackend<S>)
    ensures
        (cfg.backend is Local || store_opt is None) ==> (r == (RateLimiterBackend::<S>::Local {
            capacity: cfg.capacity,
            window_seconds: cfg.window_seconds,
        })),
        (cfg.backend is Redis && store_opt is Some) ==> (r matches RateLimiterBackend::Distributed(d)
            && d.spec_store() == store_opt->0 && d.spec_prefix() == chosen_prefix(
            cfg.backend->Redis_prefix,
            prefix@,
        ) && d.spec_capacity() == cfg.capacity && d.spec_window_seconds() == cfg.window_seconds),
{
    match &cfg.backend {
        ResilienceBackend::Local => RateLimiterBackend::Local {
            capacity: cfg.capacity,
            window_seconds: cfg.window_seconds,
        },
        ResilienceBackend::Redis { prefix: cfg_prefix, .. } => {
            match store_opt {
                Some(store) => {
                    let pfx = match cfg_prefix {
                        Some(p) => p.clone(),
                        None => String::from_str(prefix),
                    };
                    RateLimiterBackend::Distributed(
                        DistributedRateLimiter::new(store, pfx, cfg.capacity, cfg.window_seconds),
                    )
                },
                None => RateLimiterBackend::Local {
                    capacity: cfg.capacity,
                    window_seconds: cfg.window_seconds,
                },
            }
        },
    }
}


/// The first retry waits the base delay, and each retry waits twice as
/// long as the one before.
pub proof fn law_retry_delay_doubles(base_delay_ms: u64, attempt: nat)
    ensures
        backoff_ms(base_delay_ms, 0) == base_delay_ms,
        backoff_ms(base_delay_ms, attempt + 1) == 2 * backoff_ms(base_delay_ms, attempt),
{
    assert(two_pow(0) == 1);
    assert((base_delay_ms as nat) * 1 == base_delay_ms as nat);
    assert(two_pow(attempt + 1) == 2 * two_pow(attempt));
    assert((base_delay_ms as nat) * (2 * two_pow(attempt)) == 2 * ((base_delay_ms as nat) * two_pow(attempt)))
        by (nonlinear_arith);
}

} // verus!

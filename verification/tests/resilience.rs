use nova::config::{CircuitBreakerConfig, RateLimiterConfig, ResilienceBackend, ResilienceConfig};
use nova::resilience::{
    build_circuit_breaker_backend, build_rate_limiter_backend, CircuitBreaker, CircuitBreakerBackend,
    DistributedCircuitBreaker, DistributedRateLimiter, RateLimiterBackend, RetryPolicy, StoreCommand,
};
use nova::resilience_store::{LuaValue, ResilienceError};

#[test]
fn resilience_circuit_breaker_opens_at_threshold() {
    let mut cb = CircuitBreaker::new(3, 1_000_000_000);

    assert!(cb.allow());

    cb.record_failure();
    assert!(cb.allow());

    cb.record_failure();
    assert!(cb.allow());

    cb.record_failure();
    assert!(!cb.allow());
}

#[test]
fn breaker_closes_after_open_period_and_success_resets() {
    let mut cb = CircuitBreaker::new(2, 100);
    cb.record_failure_at(10);
    cb.record_failure_at(20);
    assert!(!cb.allow_at(50));
    assert!(!cb.allow_at(119));
    assert!(cb.allow_at(120));
    assert_eq!(cb.failures(), 0);
    cb.record_failure_at(200);
    cb.record_success();
    assert_eq!(cb.failures(), 0);
    assert!(cb.allow_at(201));
}

#[test]
fn resilience_retry_policy_retries() {
    let policy = RetryPolicy::new(2, 1);
    let mut calls = 0usize;
    let mut attempt = 0usize;
    let result: Result<usize, ()> = loop {
        calls += 1;
        let outcome: Result<usize, ()> = if calls >= 2 { Ok(42) } else { Err(()) };
        match outcome {
            Ok(v) => break Ok(v),
            Err(e) => match policy.after_failure(attempt) {
                Some(_delay) => attempt += 1,
                None => break Err(e),
            },
        }
    };
    assert_eq!(result.unwrap(), 42);
}

#[test]
fn retry_delays_double_and_run_out() {
    let policy = RetryPolicy::new(3, 10);
    assert_eq!(policy.next_delay(0), 10);
    assert_eq!(policy.next_delay(1), 20);
    assert_eq!(policy.next_delay(2), 40);
    assert_eq!(policy.after_failure(2), Some(40));
    assert_eq!(policy.after_failure(3), None);
}

#[test]
fn distributed_rate_limiter_uses_atomic_lua_script() {
    let limiter = DistributedRateLimiter::new((), "api".to_string(), 10, 60);
    let call = limiter.allow_call("client1");
    assert!(call.script.contains("redis.call('INCR', key)"));
    assert!(call.script.contains("redis.call('EXPIRE', key, window_seconds)"));
    assert_eq!(call.keys, vec!["rl:api:client1".to_string()]);
    assert_eq!(call.args, vec!["60".to_string(), "10".to_string()]);
    assert!(DistributedRateLimiter::<()>::allow_from_reply(&LuaValue::Integer(1)).unwrap());
    assert!(!DistributedRateLimiter::<()>::allow_from_reply(&LuaValue::Integer(0)).unwrap());
    assert!(DistributedRateLimiter::<()>::allow_from_reply(&LuaValue::Nil).is_err());
}

#[test]
fn distributed_breaker_commands() {
    let cb = DistributedCircuitBreaker::new((), "payments".to_string(), 3, 30);
    assert_eq!(cb.failures_key(), "cb:fail:payments");
    assert_eq!(cb.open_key(), "cb:open:payments");
    assert!(DistributedCircuitBreaker::<()>::allow_from_flag(None));
    assert!(DistributedCircuitBreaker::<()>::allow_from_flag(Some(0)));
    assert!(!DistributedCircuitBreaker::<()>::allow_from_flag(Some(1)));
    assert!(cb.failure_followups(2).is_empty());
    let follow = cb.failure_followups(3);
    assert_eq!(follow.len(), 2);
    match &follow[0] {
        StoreCommand::SetEx { key, value, ttl_seconds } => {
            assert_eq!(key, "cb:open:payments");
            assert_eq!(*value, 1);
            assert_eq!(*ttl_seconds, 30);
        }
        other => panic!("unexpected {:?}", other),
    }
    match &follow[1] {
        StoreCommand::Del { key } => assert_eq!(key, "cb:fail:payments"),
        other => panic!("unexpected {:?}", other),
    }
    assert_eq!(cb.success_commands().len(), 2);
    match cb.allow_command() {
        StoreCommand::GetI64 { key } => assert_eq!(key, "cb:open:payments"),
        other => panic!("unexpected {:?}", other),
    }
}

#[test]
fn backends_follow_configuration() {
    let cfg = CircuitBreakerConfig::default();
    assert_eq!(cfg.threshold, 5);
    match build_circuit_breaker_backend("svc", &cfg, Some(())) {
        CircuitBreakerBackend::Local(cb) => assert_eq!(cb.failures(), 0),
        _ => panic!("expected local breaker"),
    }
    let redis = CircuitBreakerConfig {
        backend: ResilienceBackend::Redis { url: "redis://x".to_string(), prefix: None },
        threshold: 2,
        open_ttl_seconds: 9,
    };
    assert!(matches!(build_circuit_breaker_backend("svc", &redis, Some(())), CircuitBreakerBackend::Distributed(_)));
    assert!(matches!(build_circuit_breaker_backend::<()>("svc", &redis, None), CircuitBreakerBackend::Local(_)));

    let rl = RateLimiterConfig {
        backend: ResilienceBackend::Redis { url: "redis://x".to_string(), prefix: Some("edge".to_string()) },
        capacity: 5,
        window_seconds: 1,
        prefix: None,
    };
    match build_rate_limiter_backend("api", &rl, Some(())) {
        RateLimiterBackend::Distributed(d) => assert_eq!(d.key_for("c"), "rl:edge:c"),
        _ => panic!("expected distributed limiter"),
    }
    match build_rate_limiter_backend::<()>("api", &RateLimiterConfig::default(), None) {
        RateLimiterBackend::Local { capacity, .. } => assert_eq!(capacity, 100),
        _ => panic!("expected local limiter"),
    }
    let all = ResilienceConfig::default();
    let _ = all;
}

#[test]
fn lua_values_convert() {
    assert_eq!(LuaValue::Integer(7).as_i64(), Some(7));
    assert_eq!(LuaValue::Nil.as_i64(), None);
    assert_eq!(LuaValue::Bytes(b"hi".to_vec()).as_bytes(), Some(&b"hi"[..]));
    assert_eq!(LuaValue::Bytes(b"hi".to_vec()).as_str(), Some("hi"));
    assert_eq!(LuaValue::Bytes(vec![0xff, 0xfe]).as_str(), None);
    assert_eq!(LuaValue::Status("PONG".to_string()).as_str(), None);
    assert_eq!(LuaValue::Okay.as_i64(), None);
    assert_eq!(ResilienceError::new("boom".to_string()).to_display_string(), "boom");
}

#[test]
fn success_restarts_the_failure_count() {
    let mut cb = CircuitBreaker::new(3, 60_000_000_000);
    cb.record_failure();
    cb.record_failure();
    assert!(cb.allow());
    cb.record_success();
    assert_eq!(cb.failures(), 0);
    cb.record_failure();
    cb.record_failure();
    assert!(cb.allow());
    assert_eq!(cb.failures(), 2);
    cb.record_failure();
    assert!(!cb.allow());
}

use nova::observability::{
    next_request_id, request_context_from_request, NoopMetricsRecorder, NovaMetricsRecorder, ObservabilityConfig,
    ObservabilityPlugin,
};

#[test]
fn generates_monotonic_request_ids() {
    let mut counter: u64 = 1;
    let first = next_request_id(&mut counter);
    let second = next_request_id(&mut counter);

    assert!(first.0.starts_with("req-"));
    assert!(second.0.starts_with("req-"));
    assert_ne!(first.0, second.0);
}

#[test]
fn request_id_is_sixteen_hex_digits_of_the_counter() {
    let mut counter: u64 = 0x2a;
    let id = next_request_id(&mut counter);
    assert_eq!(id.0, "req-000000000000002a");
    assert_eq!(counter, 0x2b);
}

#[test]
fn request_id_counter_wraps_like_fetch_add() {
    let mut counter: u64 = u64::MAX;
    let id = next_request_id(&mut counter);
    assert_eq!(id.0, "req-ffffffffffffffff");
    assert_eq!(counter, 0);
    let next = next_request_id(&mut counter);
    assert_eq!(next.0, "req-0000000000000000");
    assert_ne!(id.0, next.0);
}

#[test]
fn request_context_takes_the_next_id() {
    let mut counter: u64 = 7;
    let ctx = request_context_from_request(&mut counter);
    assert_eq!(ctx.request_id.0, "req-0000000000000007");
    assert_eq!(counter, 8);
}

#[test]
fn observability_defaults() {
    let cfg = ObservabilityConfig::default();
    assert_eq!(cfg.service_name, "nova");
    assert!(cfg.emit_request_logs);
    assert_eq!(cfg.request_id_header, "x-request-id");
    let plugin = ObservabilityPlugin::new("orders");
    assert_eq!(plugin.service_name, "orders");
    assert_eq!(plugin.name(), "observability");
    let recorder = NoopMetricsRecorder;
    recorder.record_request_duration("/x", 200, 5);
    recorder.record_error("/x", "boom");
    recorder.record_db_query_duration("q", 1);
}

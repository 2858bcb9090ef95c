use commerce::logging::{LoggingLayer, Severity};
use commerce::ratelimit::{client_key, decide, ClientState, RateLimitLayer};

#[test]
fn eleventh_request_in_window_is_denied() {
    let layer = RateLimitLayer::new(10, 60_000);
    let svc = layer.layer(());
    for i in 0..10u64 {
        assert!(svc.check("1.2.3.4".to_string(), 1_000 + i).allowed);
    }
    let denied = svc.check("1.2.3.4".to_string(), 2_000);
    assert!(!denied.allowed);
    assert_eq!(denied.current.count, 10);
    // Another client has its own count.
    assert!(svc.check("5.6.7.8".to_string(), 2_000).allowed);
    // 61 s after the window opened, the count starts again.
    let later = svc.check("1.2.3.4".to_string(), 62_000);
    assert!(later.allowed);
    assert_eq!(later.current, ClientState { count: 1, window_start: 62_000 });
}

#[test]
fn services_of_one_layer_share_counts() {
    let layer = RateLimitLayer::new(1, 1_000);
    let a = layer.layer(1u8);
    let b = layer.layer(2u8);
    assert_eq!(a.inner, 1);
    assert!(a.check("k".to_string(), 0).allowed);
    assert!(!b.check("k".to_string(), 500).allowed);
    assert!(b.check("k".to_string(), 1_001).allowed);
}

#[test]
fn window_rule_edges() {
    let s = ClientState { count: 3, window_start: 100 };
    assert_eq!(decide(None, 5, 3, 10), (ClientState { count: 1, window_start: 5 }, true));
    assert_eq!(decide(Some(s), 110, 3, 10), (s, false));
    assert_eq!(decide(Some(s), 111, 3, 10), (ClientState { count: 1, window_start: 111 }, true));
    assert_eq!(decide(Some(ClientState { count: 2, window_start: 100 }), 50, 3, 10), (ClientState { count: 3, window_start: 100 }, true));
}

#[test]
fn headerless_clients_share_a_key() {
    assert_eq!(client_key(None), "unknown");
    assert_eq!(client_key(Some("10.0.0.1".to_string())), "10.0.0.1");
}

#[test]
fn logging_passes_results_through() {
    let svc = LoggingLayer.layer("inner");
    assert_eq!(svc.inner, "inner");
    let (fut, start) = svc.begin(7u8, "POST".to_string(), "/order.OrderService/CreateOrder".to_string(), 1_000);
    assert_eq!(start.severity, Severity::Info);
    assert_eq!(fut.future, 7);
    let (ok, rec) = fut.settle::<u32, String>(Ok(5), 200, 1_250);
    assert_eq!(ok, Ok(5));
    assert_eq!(rec.severity, Severity::Info);
    assert_eq!(rec.status, Some(200));
    assert_eq!(rec.duration_ms, 250);
    assert_eq!(rec.path, "/order.OrderService/CreateOrder");
    let (err, rec) = fut.settle::<u32, String>(Err("down".to_string()), 200, 900);
    assert_eq!(err, Err("down".to_string()));
    assert_eq!(rec.severity, Severity::Error);
    assert_eq!(rec.status, None);
    assert_eq!(rec.duration_ms, 0);
}

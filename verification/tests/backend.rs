use animus_trigger_webhook::backend::{
    acknowledge, bind_failure, manifest_requested, trigger_schema, BackendFailure, HealthState,
    WatchLifecycle, WatchStart, ALREADY_WATCHING, KIND_DEFAULT,
};

#[test]
fn backend_schema_advertises_webhook_kind() {
    let schema = trigger_schema();
    assert_eq!(schema.kinds, vec!["webhook".to_string()]);
    assert_eq!(KIND_DEFAULT, "webhook");
    assert!(!schema.supports_resume);
    assert!(!schema.supports_dedup);
    assert!(!schema.supports_ack);
}

#[test]
fn ack_is_noop() {
    acknowledge("anything").expect("ack is a no-op");
}

#[test]
fn health_is_healthy_before_watch() {
    let lifecycle = WatchLifecycle::new();
    assert_eq!(lifecycle.health(true), HealthState::Healthy);
    assert_eq!(lifecycle.health(false), HealthState::Healthy);
}

#[test]
fn failed_bind_still_consumes_the_single_watch() {
    let mut lifecycle = WatchLifecycle::new();
    assert!(lifecycle.receiver_available());
    assert_eq!(lifecycle.begin_watch().ok(), Some(WatchStart::BindServer));
    // the bind failed: the server was never recorded as started
    assert!(!lifecycle.receiver_available());
    assert!(!lifecycle.server_started());
    match lifecycle.begin_watch() {
        Err(BackendFailure::Unavailable(m)) => assert_eq!(m, ALREADY_WATCHING),
        other => panic!("unexpected {other:?}"),
    }
    assert_eq!(lifecycle.health(false), HealthState::Healthy);
}

#[test]
fn bind_failure_message() {
    match bind_failure("127.0.0.1:7878", "address in use") {
        BackendFailure::Unavailable(m) => assert_eq!(m, "failed to bind 127.0.0.1:7878: address in use"),
    }
}

#[test]
fn manifest_flag_detection() {
    let args = |v: &[&str]| v.iter().map(|s| s.to_string()).collect::<Vec<_>>();
    assert!(manifest_requested(&args(&["plugin", "--manifest"])));
    assert!(manifest_requested(&args(&["plugin", "x", "-m"])));
    assert!(!manifest_requested(&args(&["--manifest"])));
    assert!(!manifest_requested(&args(&["plugin", "--manifests"])));
    assert!(!manifest_requested(&args(&[])));
}

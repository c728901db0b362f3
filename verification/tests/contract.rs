//! Request-level scenarios: what the endpoint answers and which event it
//! queues, driven through the library's request handling.

use animus_trigger_webhook::backend::{trigger_schema, WatchLifecycle, WatchStart, HealthState, BackendFailure};
use animus_trigger_webhook::config::{ListenAddr, WebhookConfig};
use animus_trigger_webhook::event::{Payload, WebhookEvent};
use animus_trigger_webhook::server::{
    delivery_status, handle_request, respond, route_kind, InboundRequest, Status, MAX_BODY_BYTES,
};
use serde_json::Value;

fn addr() -> ListenAddr {
    ListenAddr::V4 { octets: [127, 0, 0, 1], port: 0 }
}

fn json_post(body: &str) -> InboundRequest {
    InboundRequest {
        authorization: None,
        subject_id: None,
        action_hint: None,
        body: Some(body.as_bytes().to_vec()),
    }
}

fn payload_json(p: &Payload) -> Value {
    match p {
        Payload::EmptyObject => Value::Object(serde_json::Map::new()),
        Payload::Json(v) => v.clone(),
        Payload::Raw(s) => {
            let mut m = serde_json::Map::new();
            m.insert("raw".to_string(), Value::String(s.clone()));
            Value::Object(m)
        }
    }
}

fn accept(config: &WebhookConfig, kind: String, request: InboundRequest) -> WebhookEvent {
    let mut queued: Vec<WebhookEvent> = Vec::new();
    let status = respond(&config.auth_token, kind, request, |e| {
        queued.push(e);
        true
    });
    assert_eq!(status, Status::Accepted);
    assert_eq!(queued.len(), 1);
    queued.pop().expect("one event queued")
}

fn is_uuid_v4(id: &str) -> bool {
    id.len() == 36
        && id.chars().enumerate().all(|(i, c)| {
            if [8, 13, 18, 23].contains(&i) {
                c == '-'
            } else {
                c.is_ascii_digit() || ('a'..='f').contains(&c)
            }
        })
        && id.as_bytes()[14] == b'4'
        && b"89ab".contains(&id.as_bytes()[19])
}

#[test]
fn contract_schema_advertises_webhook_kind() {
    let schema = trigger_schema();
    assert_eq!(schema.kinds, vec!["webhook".to_string()]);
    assert!(!schema.supports_resume);
    assert!(!schema.supports_dedup);
    assert!(!schema.supports_ack);
}

#[test]
fn accepts_json_post_and_emits_event() {
    let config = WebhookConfig::for_testing(addr());
    let event = accept(&config, route_kind(None), json_post(r#"{"hello": "world"}"#));
    assert_eq!(event.kind, "webhook");
    let mut expected = serde_json::Map::new();
    expected.insert("hello".to_string(), Value::from("world"));
    assert_eq!(payload_json(&event.payload), Value::Object(expected));
    assert!(event.subject_id.is_none());
    assert!(event.action_hint.is_none());
    assert!(!event.id.is_empty());
    assert!(is_uuid_v4(&event.id));
}

#[test]
fn typed_route_emits_namespaced_kind() {
    let config = WebhookConfig::for_testing(addr());
    let event = accept(&config, route_kind(Some("github.push")), json_post(r#"{"ref": "refs/heads/main"}"#));
    assert_eq!(event.kind, "webhook.github.push");
    assert_eq!(payload_json(&event.payload)["ref"], "refs/heads/main");
}

#[test]
fn rejects_post_without_bearer_when_auth_configured() {
    let config = WebhookConfig::for_testing_with_auth(addr(), "s3cret".to_string());
    let res = handle_request(&config.auth_token, route_kind(None), json_post(r#"{"a": 1}"#));
    assert_eq!(res.err(), Some(Status::Unauthorized));
    assert_eq!(Status::Unauthorized.code(), 401);
}

#[test]
fn accepts_post_with_correct_bearer() {
    let config = WebhookConfig::for_testing_with_auth(addr(), "s3cret".to_string());
    let mut request = json_post(r#"{"a": 1}"#);
    request.authorization = Some(b"Bearer s3cret".to_vec());
    let event = accept(&config, route_kind(None), request);
    assert_eq!(payload_json(&event.payload)["a"], 1);
}

#[test]
fn rejects_post_with_wrong_bearer() {
    let config = WebhookConfig::for_testing_with_auth(addr(), "s3cret".to_string());
    let mut request = json_post(r#"{"a": 1}"#);
    request.authorization = Some(b"Bearer wrong".to_vec());
    let res = handle_request(&config.auth_token, route_kind(None), request);
    assert_eq!(res.err(), Some(Status::Unauthorized));
}

#[test]
fn extracts_subject_id_and_action_hint_from_headers() {
    let config = WebhookConfig::for_testing(addr());
    let mut request = json_post(r#"{"payload": "thing"}"#);
    request.subject_id = Some(b"linear:ENG-1".to_vec());
    request.action_hint = Some(b"run-workflow:review".to_vec());
    let event = accept(&config, route_kind(None), request);
    assert_eq!(event.subject_id.as_deref(), Some("linear:ENG-1"));
    assert_eq!(event.action_hint.as_deref(), Some("run-workflow:review"));
}

#[test]
fn non_json_body_wrapped_as_raw() {
    let config = WebhookConfig::for_testing(addr());
    let event = accept(&config, route_kind(None), json_post("not-a-json-body"));
    let mut expected = serde_json::Map::new();
    expected.insert("raw".to_string(), Value::from("not-a-json-body"));
    assert_eq!(payload_json(&event.payload), Value::Object(expected));
}

#[test]
fn unreadable_or_oversized_body_is_rejected() {
    let config = WebhookConfig::for_testing(addr());
    let mut request = json_post("");
    request.body = None;
    let res = handle_request(&config.auth_token, route_kind(None), request);
    assert_eq!(res.err(), Some(Status::PayloadTooLarge));
    let mut request = json_post("");
    request.body = Some(vec![b' '; MAX_BODY_BYTES + 1]);
    let res = handle_request(&config.auth_token, route_kind(None), request);
    assert_eq!(res.err(), Some(Status::PayloadTooLarge));
    assert_eq!(Status::PayloadTooLarge.code(), 413);
}

#[test]
fn unauthorized_wins_over_oversized_body() {
    let config = WebhookConfig::for_testing_with_auth(addr(), "s3cret".to_string());
    let mut request = json_post("");
    request.body = None;
    let res = handle_request(&config.auth_token, route_kind(None), request);
    assert_eq!(res.err(), Some(Status::Unauthorized));
}

#[test]
fn full_channel_answers_service_unavailable() {
    assert_eq!(delivery_status(false), Status::ServiceUnavailable);
    assert_eq!(Status::ServiceUnavailable.code(), 503);
}

#[test]
fn empty_body_gives_empty_object_and_empty_headers_are_dropped() {
    let config = WebhookConfig::for_testing(addr());
    let mut request = json_post("");
    request.subject_id = Some(Vec::new());
    let event = accept(&config, route_kind(None), request);
    assert_eq!(payload_json(&event.payload), Value::Object(serde_json::Map::new()));
    assert!(event.subject_id.is_none());
}

#[test]
fn health_healthy_when_server_running() {
    let mut lifecycle = WatchLifecycle::new();
    assert_eq!(lifecycle.begin_watch().ok(), Some(WatchStart::BindServer));
    lifecycle.server_bound();
    assert_eq!(lifecycle.health(true), HealthState::Healthy);
    assert_eq!(lifecycle.health(false), HealthState::Unhealthy);
}

#[test]
fn watch_twice_returns_unavailable() {
    let mut lifecycle = WatchLifecycle::new();
    let _first = lifecycle.begin_watch().expect("first watch ok");
    lifecycle.server_bound();
    let second = lifecycle.begin_watch();
    assert!(matches!(second, Err(BackendFailure::Unavailable(_))));
}

#[test]
fn respond_queues_accepted_events_only() {
    let config = WebhookConfig::for_testing_with_auth(addr(), "s3cret".to_string());
    let mut queued: Vec<WebhookEvent> = Vec::new();

    let mut request = json_post(r#"{"n": 1}"#);
    request.authorization = Some(b"Bearer s3cret".to_vec());
    let status = respond(&config.auth_token, route_kind(Some("ci")), request, |e| {
        queued.push(e);
        true
    });
    assert_eq!(status, Status::Accepted);
    assert_eq!(queued.len(), 1);
    assert_eq!(queued[0].kind, "webhook.ci");

    let status = respond(&config.auth_token, route_kind(None), json_post("{}"), |e| {
        queued.push(e);
        true
    });
    assert_eq!(status, Status::Unauthorized);
    assert_eq!(queued.len(), 1);

    let mut request = json_post("{}");
    request.authorization = Some(b"Bearer s3cret".to_vec());
    let status = respond(&config.auth_token, route_kind(None), request, |_| false);
    assert_eq!(status, Status::ServiceUnavailable);

    let mut request = json_post("{}");
    request.authorization = Some(b"Bearer wrong".to_vec());
    let status = respond(&config.auth_token, route_kind(None), request, |e| {
        queued.push(e);
        true
    });
    assert_eq!(status, Status::Unauthorized);
    assert_eq!(queued.len(), 1);

    let mut request = json_post("");
    request.authorization = Some(b"Bearer s3cret".to_vec());
    request.body = Some(vec![b'x'; MAX_BODY_BYTES + 1]);
    let status = respond(&config.auth_token, route_kind(None), request, |e| {
        queued.push(e);
        true
    });
    assert_eq!(status, Status::PayloadTooLarge);
    assert_eq!(queued.len(), 1);
}

#[test]
fn events_carry_a_clock_reading() {
    let config = WebhookConfig::for_testing(addr());
    let event = accept(&config, route_kind(None), json_post("{}"));
    // after 2020-01-01 and a valid sub-second part
    assert!(event.occurred_at.secs > 1_577_836_800);
    assert!(event.occurred_at.nanos < 1_000_000_000);
    let other = accept(&config, route_kind(None), json_post("{}"));
    assert_ne!(event.id, other.id);
}

use llamacppdesk::failure::{failure_kind_from_flags, FailureKind, HealthFailureKind};
use llamacppdesk::health::{
    health_error_message, health_status_from_error, health_status_from_response, is_success_code,
    log_limit, normalize_health_url, status_display, ReadinessWait, ReadyAction, ReadyEvent,
};

const DEFAULT_HEALTH_URL: &str = "http://127.0.0.1:8080/health";

#[test]
fn normalize_health_url_defaults_when_missing_or_blank() {
    assert_eq!(normalize_health_url(None), DEFAULT_HEALTH_URL);
    assert_eq!(normalize_health_url(Some("   ".to_string())), DEFAULT_HEALTH_URL);
    assert_eq!(normalize_health_url(Some("\n\t  ".to_string())), DEFAULT_HEALTH_URL);
}

#[test]
fn normalize_health_url_trims_non_empty_input() {
    assert_eq!(
        normalize_health_url(Some("\n\t  http://127.0.0.1:9000/health?foo=bar  \t".to_string())),
        "http://127.0.0.1:9000/health?foo=bar"
    );
}

#[test]
fn health_status_from_response_maps_success_and_failure() {
    let healthy = health_status_from_response("http://127.0.0.1:9000/health".to_string(), 200);
    assert!(healthy.healthy);
    assert_eq!(healthy.status_code, Some(200));
    assert_eq!(healthy.message.as_deref(), Some("llama-server is healthy"));
    assert_eq!(healthy.url, "http://127.0.0.1:9000/health");

    let unhealthy = health_status_from_response("http://127.0.0.1:9000/health".to_string(), 503);
    assert!(!unhealthy.healthy);
    assert_eq!(unhealthy.status_code, Some(503));
    assert_eq!(
        unhealthy.message.as_deref(),
        Some("health check failed with HTTP status 503 Service Unavailable")
    );
    assert_eq!(unhealthy.url, "http://127.0.0.1:9000/health");
}

#[test]
fn health_status_from_error_marks_unreachable_server_unhealthy() {
    let status = health_status_from_error(
        "http://127.0.0.1:8080/health".to_string(),
        HealthFailureKind::Unavailable,
        "connection refused",
    );
    assert!(!status.healthy);
    assert_eq!(status.status_code, None);
    assert_eq!(
        status.message.as_deref(),
        Some("llama-server at http://127.0.0.1:8080/health is unavailable: connection refused")
    );
    assert_eq!(status.url, "http://127.0.0.1:8080/health");
}

#[test]
fn health_error_message_distinguishes_timeout_and_unavailable_states() {
    let url = "http://127.0.0.1:8080/health";
    assert_eq!(
        health_error_message(url, HealthFailureKind::Timeout, "deadline exceeded"),
        "timed out waiting for llama-server at http://127.0.0.1:8080/health: deadline exceeded"
    );
    assert_eq!(
        health_error_message(url, HealthFailureKind::Unavailable, "connection refused"),
        "llama-server at http://127.0.0.1:8080/health is unavailable: connection refused"
    );
    assert_eq!(
        health_error_message(url, HealthFailureKind::Other, "tls handshake failed"),
        "failed to reach llama-server at http://127.0.0.1:8080/health: tls handshake failed"
    );
}

#[test]
fn status_display_writes_code_and_reason() {
    assert_eq!(status_display(200), "200 OK");
    assert_eq!(status_display(404), "404 Not Found");
    assert_eq!(status_display(599), "599 <unknown status code>");
    assert!(is_success_code(204));
    assert!(!is_success_code(300));
    assert!(!is_success_code(199));
}

#[test]
fn failure_kinds_prefer_timeouts() {
    assert_eq!(failure_kind_from_flags(true, true), FailureKind::Timeout);
    assert_eq!(failure_kind_from_flags(false, true), FailureKind::Unavailable);
    assert_eq!(failure_kind_from_flags(false, false), FailureKind::Other);
}

#[test]
fn log_limit_defaults_and_clamps() {
    assert_eq!(log_limit(None), 200);
    assert_eq!(log_limit(Some(0)), 1);
    assert_eq!(log_limit(Some(50)), 50);
    assert_eq!(log_limit(Some(999_999)), 2000);
}

fn probe_url(a: &ReadyAction) -> String {
    match a {
        ReadyAction::Probe(u) => u.clone(),
        _ => panic!("expected a probe"),
    }
}

#[test]
fn readiness_wait_probes_health_then_models() {
    let (mut w, a) = ReadinessWait::start("http://127.0.0.1:8080//", None);
    assert!(matches!(a, ReadyAction::CheckElapsed));
    assert_eq!(w.timeout_secs, 45);
    let a = w.step(ReadyEvent::Elapsed { within_timeout: true });
    assert_eq!(probe_url(&a), "http://127.0.0.1:8080/health");
    let a = w.step(ReadyEvent::Probed { status: Some(503) });
    assert_eq!(probe_url(&a), "http://127.0.0.1:8080/v1/models");
    let a = w.step(ReadyEvent::Probed { status: None });
    assert!(matches!(a, ReadyAction::Sleep));
    let a = w.step(ReadyEvent::Slept);
    assert!(matches!(a, ReadyAction::CheckElapsed));
    let a = w.step(ReadyEvent::Elapsed { within_timeout: true });
    assert_eq!(probe_url(&a), "http://127.0.0.1:8080/health");
    let a = w.step(ReadyEvent::Probed { status: None });
    let a2 = w.step(ReadyEvent::Probed { status: Some(200) });
    assert_eq!(probe_url(&a), "http://127.0.0.1:8080/v1/models");
    match a2 {
        ReadyAction::Finish(Ok(s)) => {
            assert!(s.healthy);
            assert_eq!(s.status_code, Some(200));
            assert_eq!(s.message.as_deref(), Some("Server is ready"));
            assert_eq!(s.url, "http://127.0.0.1:8080/v1/models");
        }
        _ => panic!("expected the wait to end"),
    }
}

#[test]
fn readiness_wait_times_out() {
    let (mut w, _) = ReadinessWait::start("http://h:1", Some(3));
    match w.step(ReadyEvent::Elapsed { within_timeout: false }) {
        ReadyAction::Finish(Err(e)) => assert_eq!(e, "Timed out waiting for server to be ready (3s)"),
        _ => panic!("expected a timeout"),
    }
}

#[test]
fn classify_health_failure_marks_connection_refused_unavailable() {
    let client = reqwest::blocking::Client::builder().build().expect("client should build");
    let error = client
        .get("http://127.0.0.1:1/health")
        .send()
        .expect_err("request should fail against closed port");
    assert!(error.is_connect());
    assert_eq!(llamacppdesk::health::classify_health_failure(&error), HealthFailureKind::Unavailable);
}

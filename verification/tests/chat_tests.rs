use std::io::{Error, ErrorKind};

use llamacppdesk::chat::{
    chat_failure_message, validate_messages, ChatNext, ChatService, ChatStage, ChatStreamWorker,
    ConnectOutcome, LineOutcome,
};
use llamacppdesk::failure::{classify_stream_read_failure, ChatFailureKind, FailureKind};
use llamacppdesk::models::{ChatMessage, ChatStreamRequest, ChatStreamState};

fn message(role: &str, content: &str) -> ChatMessage {
    ChatMessage { role: role.to_string(), content: content.to_string() }
}

fn request(model: &str) -> ChatStreamRequest {
    ChatStreamRequest {
        server_url: Some("http://127.0.0.1:8080".to_string()),
        model: model.to_string(),
        messages: vec![message("user", "Hello")],
        max_tokens: Some(128),
        temperature_bits: Some(0.4f32.to_bits()),
    }
}

/// A service holding `stream-1` (model `llama-3`), streaming, with 12 bytes.
fn service_with_one_stream() -> ChatService {
    let mut service = ChatService::new();
    let status = service.start_stream(&request("llama-3")).unwrap();
    assert_eq!(status.stream_id, "stream-1");
    service.set_state("stream-1", ChatStreamState::Streaming, None, 12);
    service
}

#[test]
fn validate_messages_accepts_allowed_roles_and_non_empty_content() {
    let messages = vec![
        message("system", "You are a helpful assistant."),
        message("user", "Hello"),
        message("assistant", "Hi there"),
    ];
    assert_eq!(validate_messages(&messages), Ok(()));
}

#[test]
fn validate_messages_rejects_invalid_role() {
    let messages = vec![message("moderator", "Hello")];
    assert_eq!(
        validate_messages(&messages),
        Err("message.role must be one of: system, user, assistant".to_string())
    );
}

#[test]
fn validate_messages_rejects_mixed_valid_and_invalid_messages() {
    let messages = vec![
        message("system", "You are a helpful assistant."),
        message("user", "Hello"),
        message("assistant", "Hi there"),
        message("moderator", "This role is not allowed"),
    ];
    assert_eq!(
        validate_messages(&messages),
        Err("message.role must be one of: system, user, assistant".to_string())
    );
}

#[test]
fn validate_messages_rejects_role_casing_variants() {
    let messages = vec![
        message("System", "Caps are not accepted"),
        message("USER", "Neither are uppercase roles"),
        message("assistant", "This one is valid"),
    ];
    assert_eq!(
        validate_messages(&messages),
        Err("message.role must be one of: system, user, assistant".to_string())
    );
}

#[test]
fn validate_messages_rejects_empty_content_after_trimming() {
    let messages = vec![message("user", "   ")];
    assert_eq!(validate_messages(&messages), Err("message.content cannot be empty".to_string()));
}

#[test]
fn set_state_updates_existing_stream_status_fields() {
    let mut service = service_with_one_stream();
    service.set_state("stream-1", ChatStreamState::Failed, Some("boom".to_string()), 42);
    let status = service.get_stream_status("stream-1").unwrap();
    assert_eq!(status.state, ChatStreamState::Failed);
    assert_eq!(status.error.as_deref(), Some("boom"));
    assert_eq!(status.bytes_received, 42);
    assert_eq!(status.stream_id, "stream-1");
    assert_eq!(status.model, "llama-3");
}

#[test]
fn set_state_ignores_unknown_stream_id_without_mutating_existing_streams() {
    let mut service = service_with_one_stream();
    service.set_state("stream-unknown", ChatStreamState::Failed, Some("boom".to_string()), 42);
    let status = service.get_stream_status("stream-1").unwrap();
    assert_eq!(status.state, ChatStreamState::Streaming);
    assert_eq!(status.error, None);
    assert_eq!(status.bytes_received, 12);
    assert_eq!(status.stream_id, "stream-1");
    assert_eq!(status.model, "llama-3");
}

#[test]
fn chat_failure_message_distinguishes_categories() {
    let endpoint = "http://127.0.0.1:8080/v1/chat/completions";
    assert_eq!(
        chat_failure_message(endpoint, ChatFailureKind::Timeout, "deadline exceeded"),
        "chat stream at http://127.0.0.1:8080/v1/chat/completions timed out: deadline exceeded"
    );
    assert_eq!(
        chat_failure_message(endpoint, ChatFailureKind::Unavailable, "connection refused"),
        "chat stream at http://127.0.0.1:8080/v1/chat/completions is unavailable: connection refused"
    );
    assert_eq!(
        chat_failure_message(endpoint, ChatFailureKind::Other, "unexpected EOF"),
        "chat stream at http://127.0.0.1:8080/v1/chat/completions failed: unexpected EOF"
    );
}

#[test]
fn classify_stream_read_failure_maps_io_error_kinds() {
    assert_eq!(
        classify_stream_read_failure(&Error::new(ErrorKind::TimedOut, "timed out")),
        ChatFailureKind::Timeout
    );
    assert_eq!(
        classify_stream_read_failure(&Error::new(ErrorKind::ConnectionReset, "connection reset by peer")),
        ChatFailureKind::Unavailable
    );
    assert_eq!(
        classify_stream_read_failure(&Error::new(ErrorKind::UnexpectedEof, "unexpected eof")),
        ChatFailureKind::Unavailable
    );
    assert_eq!(
        classify_stream_read_failure(&Error::new(ErrorKind::InvalidData, "bad response")),
        ChatFailureKind::Other
    );
}

#[test]
fn start_stream_numbers_streams_and_refuses_bad_requests() {
    let mut service = ChatService::new();
    assert_eq!(service.start_stream(&request("  ")).unwrap_err(), "model cannot be empty");
    let mut empty = request("m");
    empty.messages.clear();
    assert_eq!(service.start_stream(&empty).unwrap_err(), "messages cannot be empty");
    let mut bad_role = request("m");
    bad_role.messages.push(message("bot", "x"));
    assert_eq!(
        service.start_stream(&bad_role).unwrap_err(),
        "message.role must be one of: system, user, assistant"
    );
    assert!(service.get_stream_statuses().is_empty());

    let first = service.start_stream(&request(" llama ")).unwrap();
    assert_eq!(first.stream_id, "stream-1");
    assert_eq!(first.model, "llama");
    assert_eq!(first.state, ChatStreamState::Streaming);
    assert_eq!(first.bytes_received, 0);
    assert!(first.error.is_none());
    for _ in 0..10 {
        service.start_stream(&request("m")).unwrap();
    }
    let ids: Vec<String> = service.get_stream_statuses().into_iter().map(|s| s.stream_id).collect();
    assert_eq!(ids.len(), 11);
    let mut sorted = ids.clone();
    sorted.sort();
    assert_eq!(ids, sorted);
    assert!(ids.contains(&"stream-11".to_string()));
}

#[test]
fn cancel_stream_marks_the_request_once() {
    let mut service = service_with_one_stream();
    assert!(!service.is_cancel_requested("stream-1"));
    let status = service.cancel_stream("stream-1").unwrap();
    assert_eq!(status.stream_id, "stream-1");
    assert!(service.is_cancel_requested("stream-1"));
    assert_eq!(service.cancel_stream("stream-9").unwrap_err(), "unknown stream_id: stream-9");
    assert_eq!(service.get_stream_status("stream-9").unwrap_err(), "unknown stream_id: stream-9");
    service.set_state("stream-1", ChatStreamState::Completed, None, 12);
    assert_eq!(
        service.cancel_stream("stream-1").unwrap_err(),
        "stream stream-1 is already in state Completed"
    );
}

#[test]
fn worker_streams_chunks_until_done() {
    let mut service = service_with_one_stream();
    let (mut worker, step) = ChatStreamWorker::begin(&mut service, "stream-1".to_string(), Some("http://h:1/".to_string()));
    assert_eq!(step.event.unwrap().event_type, "started");
    match step.next {
        ChatNext::Connect(endpoint) => assert_eq!(endpoint, "http://h:1/v1/chat/completions"),
        _ => panic!("expected a connection"),
    }
    let step = worker.on_connect(&mut service, ConnectOutcome::Responded { status: 200 });
    assert!(step.event.is_none());
    assert!(matches!(step.next, ChatNext::ReadLine));
    assert_eq!(worker.stage, ChatStage::Reading);

    let step = worker.on_line(&mut service, LineOutcome::Line("   ".to_string()));
    assert!(step.event.is_none());
    let step = worker.on_line(&mut service, LineOutcome::Line("data: héllo".to_string()));
    let event = step.event.unwrap();
    assert_eq!(event.event_type, "chunk");
    assert_eq!(event.data.as_deref(), Some("héllo"));
    assert_eq!(worker.bytes_received, 6);
    assert_eq!(service.get_stream_status("stream-1").unwrap().bytes_received, 6);

    let step = worker.on_line(&mut service, LineOutcome::Line("data: [DONE]".to_string()));
    assert_eq!(step.event.unwrap().event_type, "completed");
    assert!(matches!(step.next, ChatNext::Stop));
    let status = service.get_stream_status("stream-1").unwrap();
    assert_eq!(status.state, ChatStreamState::Completed);
    assert_eq!(status.bytes_received, 6);
}

#[test]
fn worker_fails_on_bad_url_status_and_read_errors() {
    let mut service = service_with_one_stream();
    let (_, step) = ChatStreamWorker::begin(&mut service, "stream-1".to_string(), Some("ftp://x".to_string()));
    let event = step.event.unwrap();
    assert_eq!(event.event_type, "error");
    assert_eq!(event.error.as_deref(), Some("chat stream at ftp://x failed: server_url must start with http:// or https://"));
    assert_eq!(service.get_stream_status("stream-1").unwrap().state, ChatStreamState::Failed);

    let mut service = service_with_one_stream();
    let (mut worker, _) = ChatStreamWorker::begin(&mut service, "stream-1".to_string(), None);
    let step = worker.on_connect(&mut service, ConnectOutcome::Responded { status: 500 });
    assert_eq!(
        step.event.unwrap().error.as_deref(),
        Some("chat stream at http://127.0.0.1:8080/v1/chat/completions failed: chat stream request failed with HTTP status 500 Internal Server Error")
    );

    let mut service = service_with_one_stream();
    let (mut worker, _) = ChatStreamWorker::begin(&mut service, "stream-1".to_string(), None);
    worker.on_connect(&mut service, ConnectOutcome::Responded { status: 204 });
    let step = worker.on_line(&mut service, LineOutcome::ReadFailed { kind: FailureKind::Timeout, error: "slow".to_string() });
    assert_eq!(
        step.event.unwrap().error.as_deref(),
        Some("chat stream at http://127.0.0.1:8080/v1/chat/completions timed out: slow")
    );
    let status = service.get_stream_status("stream-1").unwrap();
    assert_eq!(status.state, ChatStreamState::Failed);
    assert_eq!(status.bytes_received, 0);
}

#[test]
fn worker_honours_cancellation_before_reading_on() {
    let mut service = service_with_one_stream();
    let (mut worker, _) = ChatStreamWorker::begin(&mut service, "stream-1".to_string(), None);
    worker.on_connect(&mut service, ConnectOutcome::Responded { status: 200 });
    worker.on_line(&mut service, LineOutcome::Line("abc".to_string()));
    service.cancel_stream("stream-1").unwrap();
    let step = worker.on_line(&mut service, LineOutcome::Line("data: more".to_string()));
    assert_eq!(step.event.unwrap().event_type, "cancelled");
    let status = service.get_stream_status("stream-1").unwrap();
    assert_eq!(status.state, ChatStreamState::Cancelled);
    assert_eq!(status.bytes_received, 3);
}

#[test]
fn chat_classify_reqwest_failure_marks_connection_refused_unavailable() {
    let client = reqwest::blocking::Client::builder().build().expect("client should build");
    let error = client
        .post("http://127.0.0.1:1/v1/chat/completions")
        .send()
        .expect_err("request should fail against closed port");
    assert!(error.is_connect());
    assert_eq!(llamacppdesk::failure::classify_reqwest_failure(&error), ChatFailureKind::Unavailable);
}

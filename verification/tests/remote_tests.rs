use llamacppdesk::remote::{
    authorize, internal_error, invalid_bind_message, remote_bind_value, remote_token_value,
    remote_config_outcome, required_id, startup_access_message, ApiError, AuthHeader, EnvValue, RemoteEventKind,
};

#[test]
fn startup_access_message_marks_loopback_bind_as_local() {
    let message = startup_access_message(true, "127.0.0.1:8080");
    assert!(message.contains("local address"));
    assert!(!message.contains("warning:"));
    assert_eq!(message, "remote API listening on local address 127.0.0.1:8080");
}

#[test]
fn startup_access_message_warns_for_lan_bind() {
    let message = startup_access_message(false, "0.0.0.0:8080");
    assert!(message.contains("warning:"));
    assert!(message.contains("trusted LAN clients"));
}

#[test]
fn event_kinds_have_distinct_names() {
    let kinds = [
        RemoteEventKind::Settings,
        RemoteEventKind::Presets,
        RemoteEventKind::History,
        RemoteEventKind::Process,
        RemoteEventKind::Logs,
        RemoteEventKind::Downloads,
        RemoteEventKind::Chat,
    ];
    let names: Vec<&str> = kinds.iter().map(|k| k.as_str()).collect();
    assert_eq!(names, vec!["settings", "presets", "history", "process", "logs", "downloads", "chat"]);
}

#[test]
fn authorization_needs_the_exact_bearer_token() {
    assert!(authorize(&AuthHeader::Text("  Bearer s3cret ".to_string()), "s3cret").is_ok());
    let wrong = authorize(&AuthHeader::Text("Bearer other".to_string()), "s3cret").unwrap_err();
    assert_eq!(wrong.status, 401);
    assert_eq!(wrong.message, "invalid bearer token");
    let lower = authorize(&AuthHeader::Text("bearer s3cret".to_string()), "s3cret").unwrap_err();
    assert_eq!(lower.message, "invalid bearer token");
    let missing = authorize(&AuthHeader::Missing, "s3cret").unwrap_err();
    assert_eq!(missing.message, "missing Authorization header");
    let bad = authorize(&AuthHeader::NotText, "s3cret").unwrap_err();
    assert_eq!(bad.message, "invalid Authorization header");
}

#[test]
fn ids_are_trimmed_and_required() {
    assert_eq!(required_id("  preset-1 ", "preset_id").ok().unwrap(), "preset-1");
    let err = required_id("   ", "download_id").err().unwrap();
    assert_eq!(err.status, 400);
    assert_eq!(err.message, "download_id cannot be empty");
    let e: ApiError = internal_error("failed to load settings", "disk");
    assert_eq!(e.status, 500);
    assert_eq!(e.message, "failed to load settings: disk");
    assert_eq!(ApiError::bad_request("x".to_string()).status, 400);
}

#[test]
fn remote_configuration_from_the_environment() {
    assert_eq!(remote_bind_value(EnvValue::NotPresent), Ok(None));
    assert_eq!(remote_bind_value(EnvValue::Present("   ".to_string())), Ok(None));
    assert_eq!(remote_bind_value(EnvValue::Present(" 0.0.0.0:9 ".to_string())), Ok(Some("0.0.0.0:9".to_string())));
    assert_eq!(
        remote_bind_value(EnvValue::Unreadable("not unicode".to_string())),
        Err("failed to read LLAMACPPDESK_REMOTE_BIND: not unicode".to_string())
    );
    assert_eq!(
        invalid_bind_message("nope", "invalid socket address syntax"),
        "invalid LLAMACPPDESK_REMOTE_BIND value 'nope': invalid socket address syntax"
    );
    assert_eq!(
        remote_token_value(None),
        Err("LLAMACPPDESK_REMOTE_TOKEN must be set when LLAMACPPDESK_REMOTE_BIND is configured".to_string())
    );
    assert_eq!(remote_token_value(Some(" ".to_string())), Err("LLAMACPPDESK_REMOTE_TOKEN cannot be empty".to_string()));
    assert_eq!(remote_token_value(Some(" tok ".to_string())), Ok("tok".to_string()));
}

#[test]
fn remote_config_outcome_checks_bind_then_address_then_token() {
    let present = |s: &str| EnvValue::Present(s.to_string());
    assert_eq!(remote_config_outcome(EnvValue::NotPresent, None, None), Ok(None));
    assert_eq!(remote_config_outcome(present("   "), None, None), Ok(None));
    assert_eq!(
        remote_config_outcome(EnvValue::Unreadable("bad unicode".to_string()), None, Some("t".to_string())),
        Err("failed to read LLAMACPPDESK_REMOTE_BIND: bad unicode".to_string())
    );
    assert_eq!(
        remote_config_outcome(present(" nonsense "), Some("invalid socket address syntax".to_string()), None),
        Err("invalid LLAMACPPDESK_REMOTE_BIND value 'nonsense': invalid socket address syntax".to_string())
    );
    assert_eq!(
        remote_config_outcome(present("0.0.0.0:8080"), None, None),
        Err("LLAMACPPDESK_REMOTE_TOKEN must be set when LLAMACPPDESK_REMOTE_BIND is configured".to_string())
    );
    assert_eq!(
        remote_config_outcome(present("0.0.0.0:8080"), None, Some("  ".to_string())),
        Err("LLAMACPPDESK_REMOTE_TOKEN cannot be empty".to_string())
    );
    assert_eq!(
        remote_config_outcome(present(" 127.0.0.1:9000 "), None, Some(" secret ".to_string())),
        Ok(Some("secret".to_string()))
    );
}

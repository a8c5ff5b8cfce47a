use llamacppdesk::models::{HistoryEntry, Preset, Settings};
use llamacppdesk::records::{
    append_history_entry, normalize_preset_id, remove_preset, upsert_preset, validate_history_entry,
    validate_preset, validate_settings, MAX_TEMPERATURE_BITS, MAX_TOKENS_LIMIT,
};

const MAX_TEMPERATURE: f32 = 2.0;

fn valid_settings() -> Settings {
    let mut s = Settings::with_defaults(4, "LLMModels".to_string());
    s.port = 8080;
    s.context_size = 4096;
    s.threads = 4;
    s.max_tokens = 1024;
    s.temperature_bits = 0.8f32.to_bits();
    s
}

fn valid_preset() -> Preset {
    Preset {
        id: "p1".to_string(),
        name: "Test".to_string(),
        model_path: String::new(),
        host: "127.0.0.1".to_string(),
        port: 8080,
        context_size: 4096,
        threads: 4,
        gpu_layers: 0,
        temperature_bits: 0.7f32.to_bits(),
        max_tokens: 512,
    }
}

fn preset(id: &str, name: &str) -> Preset {
    Preset { id: id.to_string(), name: name.to_string(), ..valid_preset() }
}

fn entry(id: &str, role: &str, content: &str) -> HistoryEntry {
    HistoryEntry {
        id: id.to_string(),
        role: role.to_string(),
        content: content.to_string(),
        timestamp: "2026-03-26T12:00:00Z".to_string(),
    }
}

#[test]
fn accepts_valid_settings() {
    assert!(validate_settings(&valid_settings()).is_ok());
}

#[test]
fn rejects_invalid_settings() {
    let bad_tokens = Settings { max_tokens: MAX_TOKENS_LIMIT + 1, ..valid_settings() };
    assert!(validate_settings(&bad_tokens).is_err());

    let bad_temp = Settings { temperature_bits: (MAX_TEMPERATURE + 0.1).to_bits(), ..valid_settings() };
    assert!(validate_settings(&bad_temp).is_err());

    let bad_port = Settings { port: 0, ..valid_settings() };
    assert!(validate_settings(&bad_port).is_err());

    let bad_context = Settings { context_size: 100, ..valid_settings() };
    assert!(validate_settings(&bad_context).is_err());

    let bad_threads = Settings { threads: 0, ..valid_settings() };
    assert!(validate_settings(&bad_threads).is_err());
}

#[test]
fn accepts_settings_boundary_values() {
    let min_values = Settings {
        max_tokens: 1,
        temperature_bits: 0.0f32.to_bits(),
        port: 1,
        context_size: 256,
        threads: 1,
        ..valid_settings()
    };
    assert!(validate_settings(&min_values).is_ok());

    let max_values = Settings {
        max_tokens: MAX_TOKENS_LIMIT,
        temperature_bits: MAX_TEMPERATURE.to_bits(),
        ..valid_settings()
    };
    assert!(validate_settings(&max_values).is_ok());
}

#[test]
fn rejects_settings_outside_boundary_values() {
    let zero_tokens = Settings { max_tokens: 0, ..valid_settings() };
    assert!(validate_settings(&zero_tokens).is_err());

    let below_zero_temp = Settings { temperature_bits: (-0.1f32).to_bits(), ..valid_settings() };
    assert!(validate_settings(&below_zero_temp).is_err());

    let above_max_temp = Settings { temperature_bits: (MAX_TEMPERATURE + 0.01).to_bits(), ..valid_settings() };
    assert!(validate_settings(&above_max_temp).is_err());
}

#[test]
fn rejects_invalid_preset() {
    let empty_id = Preset { id: "".to_string(), ..valid_preset() };
    assert!(validate_preset(&empty_id).is_err());

    let empty_name = Preset { name: "".to_string(), ..valid_preset() };
    assert!(validate_preset(&empty_name).is_err());

    let bad_tokens = Preset { max_tokens: 0, ..valid_preset() };
    assert!(validate_preset(&bad_tokens).is_err());

    let bad_temp = Preset { temperature_bits: (MAX_TEMPERATURE + 0.1).to_bits(), ..valid_preset() };
    assert!(validate_preset(&bad_temp).is_err());
}

#[test]
fn trims_delete_preset_id_and_rejects_blank_values() {
    assert_eq!(normalize_preset_id("  preset-1  ".to_string()).unwrap(), "preset-1");
    assert!(normalize_preset_id("   ".to_string()).is_err());
}

#[test]
fn accepts_trimmed_history_role_and_rejects_blank_content() {
    let trimmed_role = HistoryEntry {
        id: "h1".to_string(),
        role: "  user  ".to_string(),
        content: "  Hello there  ".to_string(),
        timestamp: "2026-03-26T12:00:00Z".to_string(),
    };
    assert!(validate_history_entry(&trimmed_role).is_ok());

    let blank_content = HistoryEntry { content: "   ".to_string(), ..trimmed_role.clone() };
    assert!(validate_history_entry(&blank_content).is_err());
}

#[test]
fn rejects_blank_history_role_and_content() {
    let blank_role = HistoryEntry {
        id: "h2".to_string(),
        role: "   ".to_string(),
        content: "Hello".to_string(),
        timestamp: "2026-03-26T12:00:00Z".to_string(),
    };
    assert!(validate_history_entry(&blank_role).is_err());

    let blank_content = HistoryEntry { content: "\t".to_string(), ..blank_role };
    assert!(validate_history_entry(&blank_content).is_err());
}

#[test]
fn accepts_and_rejects_history_roles() {
    let valid = HistoryEntry {
        id: "h1".to_string(),
        role: "assistant".to_string(),
        content: "Hi".to_string(),
        timestamp: "2026-03-26T12:00:00Z".to_string(),
    };
    assert!(validate_history_entry(&valid).is_ok());

    let invalid = HistoryEntry { role: "bot".to_string(), ..valid };
    assert!(validate_history_entry(&invalid).is_err());
}

#[test]
fn settings_errors_name_the_failing_field() {
    let host = Settings { host: "127.0.0.1; rm".to_string(), ..valid_settings() };
    assert_eq!(validate_settings(&host), Err("invalid host".to_string()));
    let empty_host = Settings { host: String::new(), ..valid_settings() };
    assert_eq!(validate_settings(&empty_host), Err("invalid host".to_string()));
    let server = Settings { llama_server_path: "a\0b".to_string(), ..valid_settings() };
    assert_eq!(validate_settings(&server), Err("llama_server_path must not contain null bytes".to_string()));
    let model = Settings { model_path: "a\0b".to_string(), ..valid_settings() };
    assert_eq!(validate_settings(&model), Err("model_path must not contain null bytes".to_string()));
    let port = Settings { port: 0, ..valid_settings() };
    assert_eq!(validate_settings(&port), Err("port must be between 1 and 65535".to_string()));
    let small = Settings { context_size: 255, ..valid_settings() };
    assert_eq!(validate_settings(&small), Err("context_size must be at least 256".to_string()));
    let large = Settings { context_size: 131073, ..valid_settings() };
    assert_eq!(validate_settings(&large), Err("context_size must not exceed 131072".to_string()));
    let threads = Settings { threads: 0, ..valid_settings() };
    assert_eq!(validate_settings(&threads), Err("threads must be at least 1".to_string()));
    let tokens = Settings { max_tokens: 0, ..valid_settings() };
    assert_eq!(validate_settings(&tokens), Err("max_tokens must be in range 1..=32768".to_string()));
    let nan = Settings { temperature_bits: f32::NAN.to_bits(), ..valid_settings() };
    assert_eq!(validate_settings(&nan), Err("temperature must be in range 0.0..=2".to_string()));
}

#[test]
fn temperature_bounds_follow_float_order() {
    assert_eq!(MAX_TEMPERATURE_BITS, 2.0f32.to_bits());
    let negative_zero = Settings { temperature_bits: (-0.0f32).to_bits(), ..valid_settings() };
    assert!(validate_settings(&negative_zero).is_ok());
    let tiny = Settings { temperature_bits: f32::MIN_POSITIVE.to_bits(), ..valid_settings() };
    assert!(validate_settings(&tiny).is_ok());
    let infinite = Settings { temperature_bits: f32::INFINITY.to_bits(), ..valid_settings() };
    assert!(validate_settings(&infinite).is_err());
}

#[test]
fn preset_errors_name_the_failing_field() {
    assert_eq!(validate_preset(&Preset { id: "  ".to_string(), ..valid_preset() }), Err("preset.id cannot be empty".to_string()));
    assert_eq!(validate_preset(&Preset { name: " ".to_string(), ..valid_preset() }), Err("preset.name cannot be empty".to_string()));
    assert_eq!(
        validate_preset(&Preset { max_tokens: 40000, ..valid_preset() }),
        Err("preset.max_tokens must be in range 1..=32768".to_string())
    );
    assert_eq!(
        validate_preset(&Preset { temperature_bits: (-1.0f32).to_bits(), ..valid_preset() }),
        Err("preset.temperature must be in range 0.0..=2".to_string())
    );
    assert!(validate_preset(&valid_preset()).is_ok());
}

#[test]
fn history_errors_name_the_failing_field() {
    assert_eq!(validate_history_entry(&entry(" ", "user", "x")), Err("history.id cannot be empty".to_string()));
    assert_eq!(validate_history_entry(&entry("h", "user", " ")), Err("history.content cannot be empty".to_string()));
    let mut no_time = entry("h", "user", "x");
    no_time.timestamp = " ".to_string();
    assert_eq!(validate_history_entry(&no_time), Err("history.timestamp cannot be empty".to_string()));
    assert_eq!(
        validate_history_entry(&entry("h", "User", "x")),
        Err("history.role must be one of: system, user, assistant".to_string())
    );
    assert!(validate_history_entry(&entry("h", " system ", "x")).is_ok());
}

#[test]
fn upsert_replaces_in_place_or_appends() {
    let list = vec![preset("a", "A"), preset("b", "B")];
    let replaced = upsert_preset(list, preset("a", "A2"));
    assert_eq!(replaced.len(), 2);
    assert_eq!(replaced[0].id, "a");
    assert_eq!(replaced[0].name, "A2");
    assert_eq!(replaced[1].name, "B");

    let appended = upsert_preset(replaced, preset("c", "C"));
    assert_eq!(appended.len(), 3);
    assert_eq!(appended[2].id, "c");

    let again = upsert_preset(appended.clone(), preset("c", "C"));
    assert_eq!(again.len(), appended.len());
    assert_eq!(again[2].name, "C");
}

#[test]
fn remove_preset_drops_every_match_and_keeps_order() {
    let list = vec![preset("a", "A"), preset("b", "B"), preset("a", "A again"), preset("c", "C")];
    let left = remove_preset(list, "a");
    assert_eq!(left.len(), 2);
    assert_eq!(left[0].id, "b");
    assert_eq!(left[1].id, "c");
    let same = remove_preset(left, "missing");
    assert_eq!(same.len(), 2);
}

#[test]
fn append_history_keeps_earlier_entries() {
    let history = vec![entry("h1", "user", "Hello")];
    let history = append_history_entry(history, entry("h2", "assistant", "Hi"));
    assert_eq!(history.len(), 2);
    assert_eq!(history[0].id, "h1");
    assert_eq!(history[1].id, "h2");
}

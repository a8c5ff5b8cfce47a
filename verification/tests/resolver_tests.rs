use llamacppdesk::resolver::{
    build_hf_auth_headers, extract_filename_from_url, extract_ollama_tags_from_body, gguf_files,
    parse_hugging_face_input, parse_hugging_face_repo_id, parse_ollama_input, parse_ollama_repo_path,
    pick_best_gguf_file, sanitize_error, score_gguf_file, score_upper,
};

fn header<'a>(headers: &'a [(String, String)], name: &str) -> Option<&'a str> {
    headers.iter().find(|(k, _)| k == name).map(|(_, v)| v.as_str())
}

#[test]
fn extract_filename_from_simple_url() {
    assert_eq!(
        extract_filename_from_url("https://example.com/path/to/model.gguf"),
        Some("model.gguf".to_string())
    );
}

#[test]
fn extract_filename_from_url_with_query_string() {
    assert_eq!(
        extract_filename_from_url("https://huggingface.co/repo/resolve/main/model.gguf?download=true"),
        Some("model.gguf".to_string())
    );
}

#[test]
fn extract_filename_returns_none_for_no_extension() {
    assert_eq!(extract_filename_from_url("https://example.com/path/"), None);
}

#[test]
fn extract_filename_returns_none_for_empty_segment() {
    assert_eq!(extract_filename_from_url("https://example.com/"), None);
}

#[test]
fn extract_filename_trims_and_needs_a_dot() {
    assert_eq!(extract_filename_from_url("https://example.com/a/ model.bin "), Some("model.bin".to_string()));
    assert_eq!(extract_filename_from_url("https://example.com/a/README"), None);
    assert_eq!(extract_filename_from_url("model.gguf"), Some("model.gguf".to_string()));
}

#[test]
fn parse_hugging_face_input_owner_repo() {
    let (repo, file) = parse_hugging_face_input("TheBloke/Llama-2-7B-GGUF").unwrap();
    assert_eq!(repo, "TheBloke/Llama-2-7B-GGUF");
    assert!(file.is_none());
}

#[test]
fn parse_hugging_face_input_owner_repo_with_file() {
    let (repo, file) = parse_hugging_face_input("TheBloke/Llama-2-7B-GGUF::llama-2-7b.Q4_K_M.gguf").unwrap();
    assert_eq!(repo, "TheBloke/Llama-2-7B-GGUF");
    assert_eq!(file, Some("llama-2-7b.Q4_K_M.gguf".to_string()));
}

#[test]
fn parse_hugging_face_input_rejects_missing_slash() {
    let err = parse_hugging_face_input("invalid-repo").unwrap_err();
    assert!(err.contains("owner/repo"));
}

#[test]
fn parse_hugging_face_repo_id_extracts_repo() {
    assert_eq!(
        parse_hugging_face_repo_id("TheBloke/Llama-2-7B-GGUF::file.gguf").unwrap(),
        "TheBloke/Llama-2-7B-GGUF"
    );
}

#[test]
fn hugging_face_parsers_trim_and_quote_the_repository() {
    let (repo, file) = parse_hugging_face_input("  owner/repo ::  ").unwrap();
    assert_eq!(repo, "owner/repo");
    assert!(file.is_none());
    assert_eq!(
        parse_hugging_face_input(" norepo :: x.gguf").unwrap_err(),
        "invalid Hugging Face input: expected 'owner/repo' format, got 'norepo'"
    );
    assert_eq!(
        parse_hugging_face_repo_id("  plain  ").unwrap_err(),
        "invalid Hugging Face input: expected 'owner/repo' format, got 'plain'"
    );
    assert_eq!(parse_hugging_face_repo_id(" a/b ").unwrap(), "a/b");
}

#[test]
fn parse_ollama_input_simple_model() {
    let (repo, tag) = parse_ollama_input("llama2");
    assert_eq!(repo, "library/llama2");
    assert_eq!(tag, "latest");
}

#[test]
fn parse_ollama_input_model_with_tag() {
    let (repo, tag) = parse_ollama_input("llama2:13b");
    assert_eq!(repo, "library/llama2");
    assert_eq!(tag, "13b");
}

#[test]
fn parse_ollama_input_strips_url_prefix() {
    let (repo, tag) = parse_ollama_input("https://ollama.com/library/llama2:7b");
    assert_eq!(repo, "library/llama2");
    assert_eq!(tag, "7b");
}

#[test]
fn parse_ollama_input_strips_short_url_prefix() {
    let (repo, tag) = parse_ollama_input("ollama.com/library/llama2");
    assert_eq!(repo, "library/llama2");
    assert_eq!(tag, "latest");
}

#[test]
fn parse_ollama_input_preserves_namespaced_repo() {
    let (repo, tag) = parse_ollama_input("myuser/mymodel:v2");
    assert_eq!(repo, "myuser/mymodel");
    assert_eq!(tag, "v2");
}

#[test]
fn parse_ollama_repo_path_simple() {
    assert_eq!(parse_ollama_repo_path("llama2"), "library/llama2");
}

#[test]
fn parse_ollama_repo_path_bare_library_model() {
    assert_eq!(parse_ollama_repo_path("llama3"), "library/llama3");
}

#[test]
fn parse_ollama_repo_path_library_url() {
    assert_eq!(parse_ollama_repo_path("https://ollama.com/library/llama3"), "library/llama3");
}

#[test]
fn parse_ollama_repo_path_with_tag_stripped() {
    assert_eq!(parse_ollama_repo_path("llama2:13b"), "library/llama2");
}

#[test]
fn parse_ollama_repo_path_namespaced() {
    assert_eq!(parse_ollama_repo_path("myuser/mymodel"), "myuser/mymodel");
}

#[test]
fn ollama_parsers_agree_on_the_repository() {
    for input in ["llama2", " llama2:13b ", "ollama.com/library/x:y:z", "a/b:c", "https://ollama.com/library/q"] {
        assert_eq!(parse_ollama_input(input).0, parse_ollama_repo_path(input));
    }
    let (repo, tag) = parse_ollama_input("x:y:z");
    assert_eq!(repo, "library/x");
    assert_eq!(tag, "y:z");
}

#[test]
fn score_gguf_file_q4_k_m_highest() {
    assert_eq!(score_gguf_file("model-Q4_K_M.gguf"), 100);
}

#[test]
fn score_gguf_file_q5_k_m() {
    assert_eq!(score_gguf_file("model-Q5_K_M.gguf"), 90);
}

#[test]
fn score_gguf_file_q4_0() {
    assert_eq!(score_gguf_file("model-Q4_0.gguf"), 80);
}

#[test]
fn score_gguf_file_q8_0() {
    assert_eq!(score_gguf_file("model-Q8_0.gguf"), 70);
}

#[test]
fn score_gguf_file_instruct_bonus() {
    assert_eq!(score_gguf_file("model-instruct-Q4_K_M.gguf"), 105);
}

#[test]
fn score_gguf_file_no_known_quant() {
    assert_eq!(score_gguf_file("model-unknown.gguf"), 0);
}

#[test]
fn score_gguf_file_case_insensitive() {
    assert_eq!(score_gguf_file("model-q4_k_m.gguf"), 100);
}

#[test]
fn score_takes_only_the_best_quantization() {
    assert_eq!(score_gguf_file("Q8_0-and-Q4_K_M.gguf"), 100);
    assert_eq!(score_gguf_file("q5_k_m-q8_0-Instruct.gguf"), 95);
    assert_eq!(score_gguf_file("instruct.gguf"), 5);
}

#[test]
fn pick_best_gguf_file_selects_q4_k_m_instruct() {
    let files = vec![
        "model-Q8_0.gguf".to_string(),
        "model-instruct-Q4_K_M.gguf".to_string(),
        "model-Q5_K_M.gguf".to_string(),
    ];
    assert_eq!(pick_best_gguf_file(&files), "model-instruct-Q4_K_M.gguf");
}

#[test]
fn pick_best_gguf_file_selects_q4_k_m_over_q5_k_m() {
    let files = vec!["model-Q5_K_M.gguf".to_string(), "model-Q4_K_M.gguf".to_string()];
    assert_eq!(pick_best_gguf_file(&files), "model-Q4_K_M.gguf");
}

#[test]
fn pick_best_gguf_file_falls_back_to_first_when_tied() {
    let files = vec!["alpha.gguf".to_string(), "beta.gguf".to_string()];
    let result = pick_best_gguf_file(&files);
    assert!(result == "alpha.gguf" || result == "beta.gguf");
}

#[test]
fn pick_best_takes_the_last_of_equal_scores() {
    let files = vec!["alpha.gguf".to_string(), "beta.gguf".to_string()];
    assert_eq!(pick_best_gguf_file(&files), "beta.gguf");
    let single = vec!["only.gguf".to_string()];
    assert_eq!(pick_best_gguf_file(&single), "only.gguf");
}

#[test]
fn gguf_files_keeps_gguf_names_in_order() {
    let names = vec![
        "README.md".to_string(),
        "b.gguf".to_string(),
        "config.json".to_string(),
        "a.gguf".to_string(),
        "a.GGUF".to_string(),
    ];
    assert_eq!(gguf_files(&names), vec!["b.gguf".to_string(), "a.gguf".to_string()]);
}

#[test]
fn extract_ollama_tags_from_body_finds_tags() {
    let body = r#"
            <a href="/library/llama3:latest">latest</a>
            <a href="/library/llama3:8b">8b</a>
            <a href="/library/llama3:70b">70b</a>
        "#;
    let tags = extract_ollama_tags_from_body(body, "library/llama3");
    assert_eq!(tags, vec!["latest", "8b", "70b"]);
}

#[test]
fn extract_ollama_tags_skips_repeats_and_other_models() {
    let body = r#"<a href="/library/llama3:8b">x</a><a href="/library/llama3:8b">y</a>
        <a href="/library/llama3.1:8b">z</a><a href="/library/llama3:">empty</a>
        <a href="/library/llama3:q4_K-M.1x">w</a>"#;
    let tags = extract_ollama_tags_from_body(body, "library/llama3");
    assert_eq!(tags, vec!["8b", "q4_K-M.1x"]);
    assert!(extract_ollama_tags_from_body("nothing here", "library/llama3").is_empty());
}

#[test]
fn build_hf_auth_headers_with_token() {
    let headers = build_hf_auth_headers(Some("hf_abc123"));
    assert!(headers.is_some());
    let map = headers.unwrap();
    assert_eq!(header(&map, "Authorization").unwrap(), "Bearer hf_abc123");
}

#[test]
fn build_hf_auth_headers_without_token() {
    let headers = build_hf_auth_headers(None);
    assert!(headers.is_none());
}

#[test]
fn sanitize_error_masks_bearer_token() {
    let msg = "request failed: Bearer hf_abc123XYZ in header";
    let sanitized = sanitize_error(msg);
    assert_eq!(sanitized, "request failed: Bearer *** in header");
    assert!(!sanitized.contains("hf_abc123XYZ"));
}

#[test]
fn sanitize_error_no_bearer_passthrough() {
    let msg = "some normal error message";
    assert_eq!(sanitize_error(msg), msg);
}

#[test]
fn sanitize_error_bearer_at_end() {
    let msg = "error: Bearer hf_secret";
    let sanitized = sanitize_error(msg);
    assert_eq!(sanitized, "error: Bearer ***");
    assert!(!sanitized.contains("hf_secret"));
}

#[test]
fn sanitize_error_stops_at_quote_and_is_idempotent() {
    let msg = "header \"Bearer abc\" rejected; Bearer def";
    let once = sanitize_error(msg);
    assert_eq!(once, "header \"Bearer ***\" rejected; Bearer ***");
    assert_eq!(sanitize_error(&once), once);
}

#[test]
fn hugging_face_parsers_agree_on_repository_and_errors() {
    for input in ["a/b", " a/b::f.gguf ", "a/b::", "plain", " x :: y", "a::b/c", ""] {
        let by_id = parse_hugging_face_repo_id(input);
        let by_input = parse_hugging_face_input(input).map(|(repo, _)| repo);
        assert_eq!(by_id, by_input, "input {input:?}");
    }
}

#[test]
fn sanitize_error_masks_every_bearer_token() {
    let sanitized = sanitize_error("a Bearer t1 b Bearer t2");
    assert_eq!(sanitized, "a Bearer *** b Bearer ***");
    assert!(!sanitized.contains("t1"));
    assert!(!sanitized.contains("t2"));
    assert_eq!(sanitize_error("Bearer \tBearer x\"y"), "Bearer ***\tBearer ***\"y");
}

#[test]
fn score_upper_scores_upper_case_names() {
    assert_eq!(score_upper("MODEL-Q4_K_M.GGUF"), 100);
    assert_eq!(score_upper("MODEL-Q5_K_M.GGUF"), 90);
    assert_eq!(score_upper("MODEL-Q4_0.GGUF"), 80);
    assert_eq!(score_upper("MODEL-Q8_0.GGUF"), 70);
    assert_eq!(score_upper("MODEL-INSTRUCT-Q8_0.GGUF"), 75);
    assert_eq!(score_upper("MODEL.GGUF"), 0);
    // Lower-case text is not upper-cased here: that is `score_gguf_file`'s step.
    assert_eq!(score_upper("model-q4_k_m.gguf"), 0);
    assert_eq!(score_gguf_file("model-q4_k_m.gguf"), 100);
}

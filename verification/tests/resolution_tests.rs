use llamacppdesk::cache::{ListCache, CACHE_TTL_MS};
use llamacppdesk::models::ResolvedModelDownload;
use llamacppdesk::resolution::{
    finish_hugging_face, finish_ollama, gguf_listing, Fetched, ListNext, ModelResolverService,
    OllamaLayer, ResolveNext, TagsNext,
};

fn done(next: ResolveNext) -> Result<ResolvedModelDownload, String> {
    match next {
        ResolveNext::Done(r) => r,
        _ => panic!("expected a finished resolution"),
    }
}

fn header<'a>(headers: &'a [(String, String)], name: &str) -> Option<&'a str> {
    headers.iter().find(|(k, _)| k == name).map(|(_, v)| v.as_str())
}

fn strings(items: &[&str]) -> Vec<String> {
    items.iter().map(|s| s.to_string()).collect()
}

fn layer(media_type: &str, digest: &str) -> OllamaLayer {
    OllamaLayer { media_type: media_type.to_string(), digest: digest.to_string() }
}

#[test]
fn resolve_direct_url_valid() {
    let service = ModelResolverService::new();
    let result = done(service.resolve("Direct URL", "https://example.com/path/model.gguf", None, 0)).unwrap();
    assert_eq!(result.download_url, "https://example.com/path/model.gguf");
    assert_eq!(result.suggested_file_name, "model.gguf");
    assert!(result.request_headers.is_none());
}

#[test]
fn resolve_direct_url_fallback_filename() {
    let service = ModelResolverService::new();
    let result = done(service.resolve("Direct URL", "https://example.com/", None, 0)).unwrap();
    assert_eq!(result.suggested_file_name, "model.gguf");
}

#[test]
fn resolve_direct_url_rejects_non_http() {
    let service = ModelResolverService::new();
    let err = done(service.resolve("Direct URL", "ftp://example.com/model.gguf", None, 0)).unwrap_err();
    assert!(err.contains("http://"));
}

#[test]
fn resolve_unknown_source_returns_error() {
    let service = ModelResolverService::new();
    let err = done(service.resolve("Unknown Source", "something", None, 0)).unwrap_err();
    assert!(err.contains("unknown source"));
    assert_eq!(err, "unknown source: Unknown Source");
}

#[test]
fn resolve_hugging_face_absolute_url() {
    let service = ModelResolverService::new();
    let result = done(service.resolve(
        "Hugging Face",
        "https://huggingface.co/TheBloke/Llama-2-7B-GGUF/resolve/main/llama-2-7b.Q4_K_M.gguf",
        Some("hf_token123"),
        0,
    ))
    .unwrap();
    assert_eq!(
        result.download_url,
        "https://huggingface.co/TheBloke/Llama-2-7B-GGUF/resolve/main/llama-2-7b.Q4_K_M.gguf"
    );
    assert_eq!(result.suggested_file_name, "llama-2-7b.Q4_K_M.gguf");
    assert!(result.request_headers.is_some());
    assert_eq!(header(&result.request_headers.unwrap(), "Authorization").unwrap(), "Bearer hf_token123");
}

#[test]
fn resolve_hugging_face_with_explicit_file_needs_no_request() {
    let service = ModelResolverService::new();
    let result = done(service.resolve("Hugging Face", " owner/repo::model.Q8_0.gguf ", None, 0)).unwrap();
    assert_eq!(result.download_url, "https://huggingface.co/owner/repo/resolve/main/model.Q8_0.gguf?download=true");
    assert_eq!(result.suggested_file_name, "model.Q8_0.gguf");
    assert!(result.request_headers.is_none());
    let err = done(service.resolve("Hugging Face", "noslash", None, 0)).unwrap_err();
    assert_eq!(err, "invalid Hugging Face input: expected 'owner/repo' format, got 'noslash'");
}

#[test]
fn resolve_hugging_face_repository_fetches_then_reuses_the_file_list() {
    let mut service = ModelResolverService::new();
    match service.resolve("Hugging Face", "owner/repo", Some("tok"), 1_000) {
        ResolveNext::FetchSiblings { repo_id, url, authorization } => {
            assert_eq!(repo_id, "owner/repo");
            assert_eq!(url, "https://huggingface.co/api/models/owner/repo");
            assert_eq!(authorization.as_deref(), Some("Bearer tok"));
        }
        _ => panic!("expected a file-list request"),
    }
    let listed = service.receive_siblings(
        "owner/repo",
        Fetched::Body(Some(strings(&["README.md", "m-Q8_0.gguf", "m-Q4_K_M.gguf"]))),
        1_000,
    );
    let resolved = finish_hugging_face("owner/repo", listed, Some("tok")).unwrap();
    assert_eq!(resolved.suggested_file_name, "m-Q4_K_M.gguf");
    assert_eq!(resolved.download_url, "https://huggingface.co/owner/repo/resolve/main/m-Q4_K_M.gguf?download=true");

    let cached = done(service.resolve("Hugging Face", "owner/repo", None, 1_000 + CACHE_TTL_MS - 1)).unwrap();
    assert_eq!(cached.suggested_file_name, "m-Q4_K_M.gguf");
    assert!(cached.request_headers.is_none());

    match service.resolve("Hugging Face", "owner/repo", None, 1_000 + CACHE_TTL_MS) {
        ResolveNext::FetchSiblings { authorization, .. } => assert!(authorization.is_none()),
        _ => panic!("an expired list is fetched again"),
    }
}

#[test]
fn hugging_face_file_list_errors() {
    let mut service = ModelResolverService::new();
    let sent = service.receive_siblings("o/r", Fetched::SendFailed("header Bearer secret123 refused".to_string()), 0);
    assert_eq!(sent.unwrap_err(), "failed to fetch Hugging Face model info: header Bearer *** refused");
    let status = service.receive_siblings("o/r", Fetched::Status(404), 0);
    assert_eq!(status.unwrap_err(), "Hugging Face API request failed with HTTP status 404 Not Found");
    let parse = service.receive_siblings("o/r", Fetched::ReadFailed("expected value".to_string()), 0);
    assert_eq!(parse.unwrap_err(), "failed to parse Hugging Face model response: expected value");
    let none = service.receive_siblings("o/r", Fetched::Body(None), 0);
    assert!(none.unwrap().is_empty());
    let err = finish_hugging_face("o/r", Ok(strings(&["a.bin"])), None).unwrap_err();
    assert_eq!(err, "no .gguf files found in repository o/r");
    let passed = finish_hugging_face("o/r", Err("boom".to_string()), None).unwrap_err();
    assert_eq!(passed, "boom");
}

#[test]
fn listing_hugging_face_files_filters_gguf() {
    let mut service = ModelResolverService::new();
    match service.list_hugging_face_gguf_files("a/b::x.gguf", None, 5) {
        ListNext::FetchSiblings { repo_id, url, .. } => {
            assert_eq!(repo_id, "a/b");
            assert_eq!(url, "https://huggingface.co/api/models/a/b");
        }
        _ => panic!("expected a file-list request"),
    }
    let listed = service.receive_siblings("a/b", Fetched::Body(Some(strings(&["x.gguf", "y.txt", "z.gguf"]))), 5);
    assert_eq!(gguf_listing(listed).unwrap(), strings(&["x.gguf", "z.gguf"]));
    match service.list_hugging_face_gguf_files("a/b", None, 6) {
        ListNext::Done(Ok(files)) => assert_eq!(files, strings(&["x.gguf", "z.gguf"])),
        _ => panic!("the kept list is used"),
    }
    match service.list_hugging_face_gguf_files("bad", None, 6) {
        ListNext::Done(Err(e)) => assert_eq!(e, "invalid Hugging Face input: expected 'owner/repo' format, got 'bad'"),
        _ => panic!("bad input is refused"),
    }
}

#[test]
fn resolve_ollama_requests_the_manifest() {
    let service = ModelResolverService::new();
    match service.resolve("Ollama Library", "llama3:8b", None, 0) {
        ResolveNext::FetchManifest { repo_path, tag, url, accept } => {
            assert_eq!(repo_path, "library/llama3");
            assert_eq!(tag, "8b");
            assert_eq!(url, "https://registry.ollama.ai/v2/library/llama3/manifests/8b");
            assert_eq!(
                accept,
                strings(&[
                    "application/vnd.docker.distribution.manifest.v2+json",
                    "application/vnd.oci.image.manifest.v1+json"
                ])
            );
        }
        _ => panic!("expected a manifest request"),
    }
}

#[test]
fn finish_ollama_picks_the_model_layer() {
    let layers = vec![
        layer("application/vnd.ollama.image.license", "sha256:1111"),
        layer("application/vnd.ollama.image.model", "sha256:0123456789abcdef0123"),
        layer("application/vnd.ollama.image.gguf", "sha256:ffff"),
    ];
    let r = finish_ollama("library/llama3", "8b", Fetched::Body(Some(layers))).unwrap();
    assert_eq!(r.download_url, "https://registry.ollama.ai/v2/library/llama3/blobs/sha256:0123456789abcdef0123");
    assert_eq!(r.suggested_file_name, "library-llama3-8b-0123456789ab.gguf");
    assert!(r.request_headers.is_none());

    let first = finish_ollama("me/m", "v2", Fetched::Body(Some(vec![layer("text/plain", "abc"), layer("x", "def")]))).unwrap();
    assert_eq!(first.suggested_file_name, "me-m-v2-abc.gguf");
}

#[test]
fn finish_ollama_errors() {
    assert_eq!(
        finish_ollama("r", "t", Fetched::SendFailed("dns".to_string())).unwrap_err(),
        "failed to fetch Ollama manifest: dns"
    );
    assert_eq!(
        finish_ollama("r", "t", Fetched::Status(500)).unwrap_err(),
        "Ollama manifest request failed with HTTP status 500 Internal Server Error"
    );
    assert_eq!(
        finish_ollama("r", "t", Fetched::ReadFailed("eof".to_string())).unwrap_err(),
        "failed to parse Ollama manifest: eof"
    );
    assert_eq!(finish_ollama("r", "t", Fetched::Body(None)).unwrap_err(), "Ollama manifest contains no layers");
    assert_eq!(finish_ollama("r", "t", Fetched::Body(Some(vec![]))).unwrap_err(), "Ollama manifest contains no layers");
}

#[test]
fn ollama_tags_from_registry_are_kept() {
    let mut service = ModelResolverService::new();
    match service.list_ollama_tags("llama3:8b", 10) {
        TagsNext::FetchRegistry { repo_path, url } => {
            assert_eq!(repo_path, "library/llama3");
            assert_eq!(url, "https://registry.ollama.ai/v2/library/llama3/tags/list");
        }
        _ => panic!("expected a registry request"),
    }
    match service.receive_registry_tags("library/llama3", Fetched::Body(Some(strings(&["latest", "8b"]))), 10) {
        TagsNext::Done(Ok(tags)) => assert_eq!(tags, strings(&["latest", "8b"])),
        _ => panic!("expected tags"),
    }
    match service.list_ollama_tags(" llama3 ", 20) {
        TagsNext::Done(Ok(tags)) => assert_eq!(tags, strings(&["latest", "8b"])),
        _ => panic!("the kept tags are used"),
    }
}

#[test]
fn ollama_tags_fall_back_to_the_library_page() {
    let mut service = ModelResolverService::new();
    let (path, url, status) = match service.receive_registry_tags("library/llama3", Fetched::Status(404), 0) {
        TagsNext::FetchLibrary { repo_path, url, registry_status } => (repo_path, url, registry_status),
        _ => panic!("expected the library page"),
    };
    assert_eq!(url, "https://ollama.com/library/llama3/tags");
    assert_eq!(status, 404);
    let page = "<a href=\"/library/llama3:latest\">l</a><a href=\"/library/llama3:70b\">b</a>".to_string();
    let tags = service.receive_library_tags(&path, status, Fetched::Body(page), 0).unwrap();
    assert_eq!(tags, strings(&["latest", "70b"]));

    let err = service.receive_library_tags(&path, 404, Fetched::Status(503), 0).unwrap_err();
    assert_eq!(
        err,
        "Ollama tags request failed with HTTP status 404 Not Found (registry) and 503 Service Unavailable (library)"
    );
    let empty = service.receive_library_tags(&path, 404, Fetched::Body("nothing".to_string()), 0).unwrap_err();
    assert_eq!(empty, "Ollama tags page did not contain any tags");
    assert_eq!(
        service.receive_library_tags(&path, 404, Fetched::SendFailed("x".to_string()), 0).unwrap_err(),
        "failed to fetch Ollama tags page: x"
    );
    assert_eq!(
        service.receive_library_tags(&path, 404, Fetched::ReadFailed("y".to_string()), 0).unwrap_err(),
        "failed to read Ollama tags page: y"
    );
    match service.receive_registry_tags("library/llama3", Fetched::SendFailed("z".to_string()), 0) {
        TagsNext::Done(Err(e)) => assert_eq!(e, "failed to fetch Ollama tags: z"),
        _ => panic!("expected an error"),
    }
    match service.receive_registry_tags("library/llama3", Fetched::ReadFailed("w".to_string()), 0) {
        TagsNext::Done(Err(e)) => assert_eq!(e, "failed to parse Ollama tags response: w"),
        _ => panic!("expected an error"),
    }
}

#[test]
fn cache_reads_back_what_it_stored_until_it_expires() {
    let mut cache = ListCache::new();
    let key = "k".to_string();
    assert!(cache.lookup(&key, 0).is_none());
    cache.store(key.clone(), strings(&["a", "b"]), 100);
    assert_eq!(cache.lookup(&key, 100).unwrap(), strings(&["a", "b"]));
    assert_eq!(cache.lookup(&key, 100 + CACHE_TTL_MS - 1).unwrap(), strings(&["a", "b"]));
    assert!(cache.lookup(&key, 100 + CACHE_TTL_MS).is_none());
    assert!(cache.lookup(&"other".to_string(), 100).is_none());
    cache.store(key.clone(), strings(&["c"]), 200);
    assert_eq!(cache.lookup(&key, 250).unwrap(), strings(&["c"]));
}

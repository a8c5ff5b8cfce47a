use llamacppdesk::models::{
    default_context_size, default_download_folder, default_host, default_max_tokens, default_port,
    default_threads, ChatStreamState, DownloadState, PercentComplete, Settings, DEFAULT_TEMPERATURE_BITS,
};

#[test]
fn terminal_state_helpers_distinguish_active_and_finished_states() {
    assert!(!DownloadState::Downloading.is_terminal());
    assert!(DownloadState::Completed.is_terminal());
    assert!(DownloadState::Cancelled.is_terminal());
    assert!(DownloadState::Failed.is_terminal());

    assert!(!ChatStreamState::Streaming.is_terminal());
    assert!(ChatStreamState::Completed.is_terminal());
    assert!(ChatStreamState::Cancelled.is_terminal());
    assert!(ChatStreamState::Failed.is_terminal());
}

#[test]
fn defaults_of_a_fresh_configuration() {
    assert_eq!(default_host(), "127.0.0.1");
    assert_eq!(default_port(), 8080);
    assert_eq!(default_context_size(), 4096);
    assert_eq!(default_max_tokens(), 512);
    assert_eq!(f32::from_bits(DEFAULT_TEMPERATURE_BITS), 0.7f32);
    assert_eq!(default_threads(Some(16)), 8);
    assert_eq!(default_threads(Some(3)), 2);
    assert_eq!(default_threads(None), 2);
    let s = Settings::with_defaults(6, "dl".to_string());
    assert_eq!(s.threads, 6);
    assert_eq!(s.download_folder, "dl");
    assert_eq!(s.gpu_layers, 0);
    assert!(s.recent_model_paths.is_empty());
}

#[test]
fn default_download_folder_without_a_home() {
    assert_eq!(default_download_folder(None, None), "LLMModels");
    let under_home = default_download_folder(None, Some("/home/u".to_string()));
    assert_eq!(under_home, "/home/u/Downloads/LLMModels");
    let profile_first = default_download_folder(Some("/p".to_string()), Some("/home/u".to_string()));
    assert_eq!(profile_first, "/p/Downloads/LLMModels");
}

#[test]
fn percent_bounds() {
    let z = PercentComplete::zero();
    let f = PercentComplete::full();
    assert_eq!((z.numerator, z.denominator), (0, 1));
    assert_eq!((f.numerator, f.denominator), (1, 1));
}

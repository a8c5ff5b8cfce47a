use std::io::{Error, ErrorKind};

use llamacppdesk::downloader::{
    build_temp_path, create_dir_failure_message, destination_error, destination_exists_message,
    download_failure_message, prepare_download, temp_file_name, DownloadConnectOutcome,
    DownloadNext, DownloadUpdate, DownloadWorker, DownloaderService, ReadOutcome, MAX_CONCURRENT_DOWNLOADS,
};
use llamacppdesk::failure::{classify_read_failure, DownloadFailureKind, FailureKind};
use llamacppdesk::models::DownloadState;

/// The checks and the registration that starting a download makes before
/// the worker runs.
fn start(service: &mut DownloaderService, source_url: &str, destination_path: &str) -> Result<String, String> {
    let (source, destination) = prepare_download(source_url, destination_path)?;
    if let Some(e) = destination_error(&destination) {
        return Err(e);
    }
    service.register_download(source, destination).map(|s| s.download_id)
}

#[test]
fn start_download_rejects_empty_source_url() {
    let mut service = DownloaderService::new();
    let err = start(&mut service, "   ", "/tmp/downloader-empty-source/model.bin").expect_err("expected empty source_url to fail");
    assert_eq!(err, "source_url cannot be empty");
}

#[test]
fn start_download_rejects_non_http_source_url() {
    let mut service = DownloaderService::new();
    let err = start(&mut service, "ftp://example.com/model.bin", "/tmp/downloader-bad-url/model.bin")
        .expect_err("expected non-http source_url to fail");
    assert_eq!(err, "source_url must start with http:// or https://");
}

#[test]
fn start_download_rejects_empty_destination_path() {
    let mut service = DownloaderService::new();
    let err = start(&mut service, "https://example.com/model.bin", "   ").expect_err("expected empty destination_path to fail");
    assert_eq!(err, "destination_path cannot be empty");
}

#[test]
fn start_download_rejects_duplicate_active_destination() {
    let mut service = DownloaderService::new();
    let destination = "/tmp/downloader-duplicate/model.bin";
    start(&mut service, "https://example.com/model.bin", destination).unwrap();
    let err = start(&mut service, "https://example.com/model.bin", destination).expect_err("expected duplicate destination to fail");
    assert_eq!(err, format!("an active download already targets destination_path {}", destination));
}

#[test]
fn get_download_status_returns_error_for_unknown_id() {
    let service = DownloaderService::new();
    let err = service.get_download_status("download-missing").expect_err("expected unknown download_id to fail");
    assert_eq!(err, "unknown download_id: download-missing");
}

#[test]
fn cancel_download_returns_error_for_unknown_id() {
    let mut service = DownloaderService::new();
    let err = service.cancel_download("download-missing").expect_err("expected unknown download_id to fail");
    assert_eq!(err, "unknown download_id: download-missing");
}

#[test]
fn build_temp_path_uses_destination_file_name_and_download_id() {
    let temp_path = build_temp_path(r"C:\tmp\models\model.bin", "download-42");
    assert_eq!(temp_path, r"C:\tmp\models\model.bin.download-42.part");
}

#[test]
fn temp_path_sits_beside_the_destination() {
    assert_eq!(build_temp_path("/data/models/m.gguf", "download-7"), "/data/models/m.gguf.download-7.part");
    assert_eq!(temp_file_name(Some("m.gguf"), "download-7"), "m.gguf.download-7.part");
    assert_eq!(temp_file_name(None, "download-7"), "download-7.part");
}

#[test]
fn download_failure_message_distinguishes_categories() {
    let source_url = "https://example.com/model.bin";
    assert_eq!(
        download_failure_message(source_url, DownloadFailureKind::Timeout, "deadline exceeded"),
        "download from https://example.com/model.bin timed out: deadline exceeded"
    );
    assert_eq!(
        download_failure_message(source_url, DownloadFailureKind::Unavailable, "connection refused"),
        "download from https://example.com/model.bin is unavailable: connection refused"
    );
    assert_eq!(
        download_failure_message(source_url, DownloadFailureKind::Other, "bad response"),
        "download from https://example.com/model.bin failed: bad response"
    );
}

#[test]
fn classify_read_failure_maps_io_error_kinds() {
    assert_eq!(classify_read_failure(&Error::new(ErrorKind::TimedOut, "timed out")), DownloadFailureKind::Timeout);
    assert_eq!(
        classify_read_failure(&Error::new(ErrorKind::ConnectionReset, "connection reset by peer")),
        DownloadFailureKind::Unavailable
    );
    assert_eq!(
        classify_read_failure(&Error::new(ErrorKind::UnexpectedEof, "unexpected eof")),
        DownloadFailureKind::Unavailable
    );
    assert_eq!(classify_read_failure(&Error::new(ErrorKind::InvalidData, "bad response")), DownloadFailureKind::Other);
    assert_eq!(classify_read_failure(&Error::new(ErrorKind::BrokenPipe, "pipe")), DownloadFailureKind::Unavailable);
}

#[test]
fn destination_checks() {
    assert_eq!(
        destination_error("/tmp/../etc/model.bin").as_deref(),
        Some("destination_path must not contain '..' path traversal components")
    );
    assert!(destination_error("/tmp/a..b/model.bin").is_none());
    assert!(destination_error("/tmp/models/model.bin").is_none());
    assert_eq!(destination_exists_message("/tmp/m.bin"), "destination_path already exists: /tmp/m.bin");
    assert_eq!(
        create_dir_failure_message("/tmp/x", "denied"),
        "failed to create destination directory /tmp/x: denied"
    );
}

#[test]
fn registration_numbers_downloads_and_caps_active_ones() {
    let mut service = DownloaderService::new();
    for i in 0..MAX_CONCURRENT_DOWNLOADS {
        let id = start(&mut service, " https://e.com/m ", &format!(" /tmp/d{i}.bin ")).unwrap();
        assert_eq!(id, format!("download-{}", i + 1));
    }
    let err = start(&mut service, "https://e.com/m", "/tmp/other.bin").unwrap_err();
    assert_eq!(err, "maximum concurrent downloads reached (5)");
    let statuses = service.get_download_statuses();
    assert_eq!(statuses.len(), 5);
    assert_eq!(statuses[0].source_url, "https://e.com/m");
    assert_eq!(statuses[0].destination_path, "/tmp/d0.bin");
    assert_eq!(statuses[0].state, DownloadState::Downloading);

    let cancelled = service.cancel_download("download-1").unwrap();
    assert_eq!(cancelled.download_id, "download-1");
    assert!(service.is_cancel_requested("download-1"));
}

#[test]
fn worker_downloads_then_moves_the_file() {
    let mut service = DownloaderService::new();
    let id = start(&mut service, "https://e.com/m.gguf", "/tmp/w/m.gguf").unwrap();
    let (mut w, next) = DownloadWorker::begin(id.clone(), "https://e.com/m.gguf".to_string(), "/tmp/w/m.gguf".to_string(), build_temp_path("/tmp/w/m.gguf", &id));
    assert_eq!(next, DownloadNext::Connect);
    let next = w.on_connect(&mut service, DownloadConnectOutcome::Responded { status: 200, content_length: Some(5) });
    assert_eq!(next, DownloadNext::CreateTemp);
    assert_eq!(service.get_download_status(&id).unwrap().total_bytes, Some(5));
    assert_eq!(w.on_created(&mut service, Ok(())), DownloadNext::Read);
    assert_eq!(w.on_read(&mut service, ReadOutcome::Read(3)), DownloadNext::Write(3));
    assert_eq!(w.on_written(&mut service, Ok(())), DownloadNext::Read);
    let status = service.get_download_status(&id).unwrap();
    assert_eq!(status.bytes_downloaded, 3);
    let pc = status.percent_complete.unwrap();
    assert_eq!((pc.numerator, pc.denominator), (3, 5));
    assert_eq!(w.on_read(&mut service, ReadOutcome::Read(2)), DownloadNext::Write(2));
    assert_eq!(w.on_written(&mut service, Ok(())), DownloadNext::Read);
    assert_eq!(w.on_read(&mut service, ReadOutcome::Read(0)), DownloadNext::Flush);
    assert_eq!(w.on_flushed(&mut service, Ok(())), DownloadNext::Rename);
    assert_eq!(w.on_renamed(&mut service, Ok(())), DownloadNext::Stop);
    let status = service.get_download_status(&id).unwrap();
    assert_eq!(status.state, DownloadState::Completed);
    assert_eq!(status.bytes_downloaded, 5);
    assert_eq!(status.total_bytes, Some(5));
    assert!(status.error.is_none());
    assert_eq!(service.cancel_download(&id).unwrap_err(), format!("download {id} is already in state Completed"));
}

#[test]
fn worker_failures_and_cancellation() {
    let mut service = DownloaderService::new();
    let id = start(&mut service, "https://e.com/a", "/tmp/f/a").unwrap();
    let (mut w, _) = DownloadWorker::begin(id.clone(), "https://e.com/a".to_string(), "/tmp/f/a".to_string(), "/tmp/f/a.part".to_string());
    let next = w.on_connect(&mut service, DownloadConnectOutcome::Responded { status: 404, content_length: None });
    assert_eq!(next, DownloadNext::RemoveTempThenStop);
    let status = service.get_download_status(&id).unwrap();
    assert_eq!(status.state, DownloadState::Failed);
    assert_eq!(
        status.error.as_deref(),
        Some("download from https://e.com/a failed: download request failed with HTTP status 404 Not Found")
    );

    let id = start(&mut service, "https://e.com/b", "/tmp/f/b").unwrap();
    let (mut w, _) = DownloadWorker::begin(id.clone(), "https://e.com/b".to_string(), "/tmp/f/b".to_string(), "/tmp/f/b.part".to_string());
    let next = w.on_connect(&mut service, DownloadConnectOutcome::SendFailed { kind: FailureKind::Unavailable, error: "refused".to_string() });
    assert_eq!(next, DownloadNext::Stop);
    assert_eq!(
        service.get_download_status(&id).unwrap().error.as_deref(),
        Some("download from https://e.com/b is unavailable: refused")
    );

    let id = start(&mut service, "https://e.com/c", "/tmp/f/c").unwrap();
    let (mut w, _) = DownloadWorker::begin(id.clone(), "https://e.com/c".to_string(), "/tmp/f/c".to_string(), "/tmp/f/c.part".to_string());
    w.on_connect(&mut service, DownloadConnectOutcome::Responded { status: 200, content_length: Some(10) });
    w.on_created(&mut service, Ok(()));
    assert_eq!(w.on_read(&mut service, ReadOutcome::Read(0)), DownloadNext::Flush);
    assert_eq!(w.on_flushed(&mut service, Ok(())), DownloadNext::RemoveTempThenStop);
    assert_eq!(
        service.get_download_status(&id).unwrap().error.as_deref(),
        Some("download ended early: expected 10 bytes, received 0")
    );

    let id = start(&mut service, "https://e.com/d", "/tmp/f/d").unwrap();
    let (mut w, _) = DownloadWorker::begin(id.clone(), "https://e.com/d".to_string(), "/tmp/f/d".to_string(), "/tmp/f/d.part".to_string());
    w.on_connect(&mut service, DownloadConnectOutcome::Responded { status: 200, content_length: None });
    service.cancel_download(&id).unwrap();
    assert_eq!(w.on_created(&mut service, Ok(())), DownloadNext::RemoveTempThenStop);
    let status = service.get_download_status(&id).unwrap();
    assert_eq!(status.state, DownloadState::Cancelled);
    assert_eq!(status.error.as_deref(), Some("download cancelled by user"));
}

#[test]
fn downloader_classify_reqwest_failure_marks_connection_refused_unavailable() {
    let client = reqwest::blocking::Client::builder().build().expect("client should build");
    let error = client
        .get("http://127.0.0.1:1/model.bin")
        .send()
        .expect_err("request should fail against closed port");
    assert!(error.is_connect());
    assert_eq!(llamacppdesk::failure::classify_reqwest_failure(&error), DownloadFailureKind::Unavailable);
}

#[test]
fn finished_downloads_stay_finished() {
    let mut service = DownloaderService::new();
    let id = start(&mut service, "https://e.com/z", "/tmp/z").unwrap();
    service.apply_update(&id, DownloadUpdate::Completed { downloaded: 4, total: None });
    service.apply_update(&id, DownloadUpdate::Progress { downloaded: 9 });
    service.apply_update(&id, DownloadUpdate::Headers { total: Some(1) });
    let status = service.get_download_status(&id).unwrap();
    assert_eq!(status.state, DownloadState::Completed);
    assert_eq!(status.total_bytes, Some(1));
    service.apply_update(&id, DownloadUpdate::Failed("late".to_string()));
    assert!(service.get_download_status(&id).unwrap().state.is_terminal());
    service.apply_update("download-404", DownloadUpdate::Cancelled);
    assert!(service.get_download_status("download-404").is_err());
}

#[test]
fn temp_path_of_a_bare_file_name() {
    assert_eq!(build_temp_path("m.gguf", "download-7"), "m.gguf.download-7.part");
    assert_eq!(build_temp_path("", "download-7"), "download-7.part");
    assert!(destination_error("../m.gguf").is_some());
    assert!(destination_error("a/b/..").is_some());
}

/// The record's count and percentage at each step of a run: the count never
/// goes down and the percentage always matches the count and the total.
fn progress_snapshot(service: &DownloaderService, id: &str) -> (u64, Option<u64>, Option<(u64, u64)>, DownloadState) {
    let s = service.get_download_status(id).unwrap();
    (s.bytes_downloaded, s.total_bytes, s.percent_complete.map(|p| (p.numerator, p.denominator)), s.state)
}

#[test]
fn progress_follows_count_and_total_over_a_run() {
    let mut service = DownloaderService::new();
    let id = start(&mut service, "https://e.com/p.gguf", "/tmp/p/p.gguf").unwrap();
    let (mut w, _) = DownloadWorker::begin(id.clone(), "https://e.com/p.gguf".to_string(), "/tmp/p/p.gguf".to_string(), build_temp_path("/tmp/p/p.gguf", &id));
    let mut seen = vec![progress_snapshot(&service, &id)];
    assert_eq!(seen[0], (0, None, None, DownloadState::Downloading));
    w.on_connect(&mut service, DownloadConnectOutcome::Responded { status: 200, content_length: Some(10) });
    seen.push(progress_snapshot(&service, &id));
    w.on_created(&mut service, Ok(()));
    for n in [4usize, 6] {
        w.on_read(&mut service, ReadOutcome::Read(n));
        w.on_written(&mut service, Ok(()));
        seen.push(progress_snapshot(&service, &id));
    }
    w.on_read(&mut service, ReadOutcome::Read(0));
    w.on_flushed(&mut service, Ok(()));
    w.on_renamed(&mut service, Ok(()));
    seen.push(progress_snapshot(&service, &id));
    assert_eq!(seen[1], (0, Some(10), Some((0, 1)), DownloadState::Downloading));
    assert_eq!(seen[2], (4, Some(10), Some((4, 10)), DownloadState::Downloading));
    assert_eq!(seen[3], (10, Some(10), Some((10, 10)), DownloadState::Downloading));
    assert_eq!(seen[4], (10, Some(10), Some((1, 1)), DownloadState::Completed));
    for pair in seen.windows(2) {
        assert!(pair[0].0 <= pair[1].0);
    }
    for (bytes, total, percent, _) in &seen {
        match (total, percent) {
            (None, p) => assert!(p.is_none()),
            (Some(t), Some((num, den))) => assert_eq!(num * t, bytes * den),
            (Some(_), None) => panic!("a known total without a percentage"),
        }
    }
}

#[test]
fn temp_path_of_backslash_paths_appends_to_the_path() {
    assert_eq!(build_temp_path(r"\model.bin", "download-3"), r"\model.bin.download-3.part");
    assert_eq!(build_temp_path(r"D:\m.gguf", "download-4"), r"D:\m.gguf.download-4.part");
    assert_eq!(build_temp_path(r"models\sub\m.gguf", "download-5"), r"models\sub\m.gguf.download-5.part");
}

use llamacppdesk::process::{
    exit_code_string, output_error_line, output_line, signed_decimal_string, start_failure_message,
    stop_failure_message, stop_wait_failure_message, ProcessManager,
};

#[test]
fn output_keeps_only_the_newest_lines() {
    let mut m = ProcessManager::new(3);
    for i in 0..5 {
        m.push_log(format!("line {i}"));
    }
    assert_eq!(m.logs(10), vec!["line 2", "line 3", "line 4"]);
    assert_eq!(m.logs(2), vec!["line 3", "line 4"]);
    assert_eq!(m.logs(0), vec!["line 4"]);
    m.clear_logs();
    assert!(m.logs(3).is_empty());
}

#[test]
fn start_is_refused_while_running_or_without_a_path() {
    let mut m = ProcessManager::new(10);
    assert_eq!(m.prepare_start("   ").unwrap_err(), "executable_path cannot be empty");
    assert_eq!(m.prepare_start("  /usr/bin/llama-server ").unwrap(), "/usr/bin/llama-server");
    let status = m.started(4242, "/usr/bin/llama-server");
    assert!(status.running);
    assert_eq!(status.pid, Some(4242));
    assert_eq!(status.last_exit_code, None);
    assert_eq!(m.prepare_start("/usr/bin/llama-server").unwrap_err(), "llama-server is already running");
    assert_eq!(m.logs(10), vec!["started llama-server pid=4242 path=/usr/bin/llama-server"]);
}

#[test]
fn exits_and_stops_are_recorded() {
    let mut m = ProcessManager::new(10);
    m.started(7, "srv");
    m.exited(Some(-9));
    let status = m.status();
    assert!(!status.running);
    assert_eq!(status.pid, None);
    assert_eq!(status.last_exit_code, Some(-9));
    m.started(8, "srv");
    m.status_unreadable("interrupted");
    let stopped = m.stopped(None);
    assert!(!stopped.running);
    assert_eq!(stopped.last_exit_code, None);
    assert_eq!(
        m.logs(10),
        vec![
            "started llama-server pid=7 path=srv",
            "llama-server exited exit_code=Some(-9)",
            "started llama-server pid=8 path=srv",
            "failed to read llama-server status: interrupted",
            "stopped llama-server exit_code=None",
        ]
    );
}

#[test]
fn messages_and_lines() {
    assert_eq!(output_line("stdout", "hello"), "[stdout] hello");
    assert_eq!(output_error_line("stderr", "bad utf-8"), "[stderr] log read error: bad utf-8");
    assert_eq!(start_failure_message("not found"), "failed to start llama-server: not found");
    assert_eq!(stop_failure_message("denied"), "failed to stop llama-server: denied");
    assert_eq!(stop_wait_failure_message("gone"), "failed waiting for llama-server stop: gone");
    assert_eq!(exit_code_string(Some(0)), "Some(0)");
    assert_eq!(exit_code_string(Some(i32::MIN)), format!("{:?}", Some(i32::MIN)));
    assert_eq!(signed_decimal_string(-15), "-15");
    assert_eq!(signed_decimal_string(i32::MAX), i32::MAX.to_string());
}

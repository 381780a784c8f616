//! Behaviour of the executor's decision core, the execution logger, the
//! CLI layer and the session cache.

use m2k_core::ClaudeExecutor;
use m2k_core::ClaudeLogger;
use m2k_core::ClaudeSession;
use m2k_core::CliControl;
use m2k_core::LogLevel;
use m2k_core::ProcessWait;
use m2k_core::TaskRequest;
use m2k_core::TaskStatus;
use m2k_core::cli_result_from_exit;
use m2k_core::extract_email;
use m2k_core::extract_json_block;
use m2k_core::parse_auth_output;

fn request(timeout: Option<u64>) -> TaskRequest {
    TaskRequest { prompt: "do things".to_string(), workspace_path: None, timeout_secs: timeout }
}

#[test]
fn effective_timeout_defaults_to_300_units() {
    let exec = ClaudeExecutor::new("/work".to_string());
    assert_eq!(exec.effective_timeout(&request(None)), 300);
    assert_eq!(exec.effective_timeout(&request(Some(5))), 5);
    assert_eq!(m2k_core::DEFAULT_TIMEOUT_UNITS, 300);
}

#[test]
fn executor_paths() {
    let exec = ClaudeExecutor::new("/base".to_string());
    assert_eq!(exec.workspace_base, "/base");
    assert_eq!(exec.logger.log_dir, "/base/logs");
    assert_eq!(exec.workspace_dir("abc"), "/base/abc");
}

#[test]
fn auth_gate_blocks_unauthenticated_sessions() {
    let exec = ClaudeExecutor::new("/base".to_string());
    let mut session = ClaudeSession::new().get_cached_state();
    assert_eq!(
        exec.check_auth(&session).unwrap_err(),
        "Agent CLI not authenticated. Log in to it first."
    );
    session.authenticated = true;
    assert!(exec.check_auth(&session).is_ok());
}

#[test]
fn needs_copy_follows_the_request() {
    let exec = ClaudeExecutor::new("/base".to_string());
    assert!(!exec.needs_copy(&request(None)));
    let with_source = TaskRequest {
        prompt: "p".to_string(),
        workspace_path: Some("/src".to_string()),
        timeout_secs: None,
    };
    assert!(exec.needs_copy(&with_source));
}

#[test]
fn clean_exit_concludes_completed() {
    let exec = ClaudeExecutor::new("/base".to_string());
    let files = vec!["/w/a.txt".to_string()];
    let r = exec.conclude_execution("t1", ProcessWait::Exited(0), "hello".to_string(), files, 12);
    assert_eq!(r.task_id, "t1");
    assert_eq!(r.status, TaskStatus::Completed);
    assert_eq!(r.output.as_deref(), Some("hello"));
    assert!(r.error.is_none());
    assert_eq!(r.files_modified, vec!["/w/a.txt".to_string()]);
    assert_eq!(r.duration_ms, Some(12));
}

#[test]
fn nonzero_exit_concludes_failed_with_the_code() {
    let exec = ClaudeExecutor::new("/base".to_string());
    let r = exec.conclude_execution("t1", ProcessWait::Exited(2), String::new(), Vec::new(), 3);
    assert_eq!(r.status, TaskStatus::Failed);
    assert!(r.output.is_none());
    assert_eq!(r.error.as_deref(), Some("Agent exited with status: 2"));
    let r = exec.conclude_execution("t1", ProcessWait::Exited(-9), String::new(), Vec::new(), 3);
    assert_eq!(r.error.as_deref(), Some("Agent exited with status: -9"));
}

#[test]
fn timeout_concludes_timeout_with_error_and_scanned_files() {
    let exec = ClaudeExecutor::new("/base".to_string());
    // The workspace is still scanned on a timeout; its files are carried.
    let files = vec!["/w/partial.txt".to_string()];
    let r = exec.conclude_execution("t1", ProcessWait::TimedOut, String::new(), files, 300_000);
    assert_eq!(r.status, TaskStatus::Timeout);
    let error = r.error.expect("timeout carries an error");
    assert!(!error.is_empty());
    assert_eq!(error, "Task timeout");
    assert_eq!(r.files_modified.len(), 1);
    assert_eq!(r.duration_ms, Some(300_000));
}

#[test]
fn failed_wait_concludes_failed() {
    let exec = ClaudeExecutor::new("/base".to_string());
    let r = exec.conclude_execution("t1", ProcessWait::WaitFailed, String::new(), Vec::new(), 1);
    assert_eq!(r.status, TaskStatus::Failed);
    assert_eq!(r.error.as_deref(), Some("Failed to wait for process"));
}

#[test]
fn log_lines_are_formatted_atomically() {
    let logger = ClaudeLogger::new("/logs".to_string());
    assert_eq!(logger.get_log_path("t1"), "/logs/t1.log");
    assert_eq!(logger.create_task_log("t1"), "/logs/t1.log");
    let line = logger.format_log_line("2024-01-01T00:00:00Z", LogLevel::Info, "started");
    assert_eq!(line, "[2024-01-01T00:00:00Z] Info: started\n");
    let line = logger.format_log_line("now", LogLevel::Warning, "careful");
    assert_eq!(line, "[now] Warning: careful\n");
    let line = logger.format_log_line("now", LogLevel::Error, "boom");
    assert_eq!(line, "[now] Error: boom\n");
    let line = logger.format_log_line("now", LogLevel::Debug, "detail");
    assert_eq!(line, "[now] Debug: detail\n");
}

#[test]
fn cleanup_counts_expired_logs() {
    let logger = ClaudeLogger::new("/logs".to_string());
    assert!(logger.should_remove(5, 10));
    assert!(!logger.should_remove(10, 10));
    let times = vec![1u64, 9, 10, 11, 3];
    assert_eq!(logger.count_expired(&times, 10), 3);
    assert_eq!(logger.count_expired(&times, 0), 0);
    assert_eq!(logger.count_expired(&Vec::new(), 10), 0);
}

#[test]
fn cli_result_reports_exit_codes() {
    let ok = cli_result_from_exit(true, Some(0));
    assert!(ok.success);
    assert_eq!(ok.exit_code, Some(0));
    assert!(ok.error.is_none());
    let failed = cli_result_from_exit(false, Some(3));
    assert_eq!(failed.error.as_deref(), Some("Agent CLI exited with code 3"));
    let signalled = cli_result_from_exit(false, None);
    assert_eq!(signalled.error.as_deref(), Some("Agent CLI exited with code unknown"));
}

#[test]
fn cli_control_admits_one_run_at_a_time() {
    let mut control = CliControl::new();
    assert!(!control.is_running());
    assert!(!control.get_stop_flag());
    assert!(control.begin_run());
    assert!(control.is_running());
    assert!(!control.begin_run());
    control.request_stop();
    assert!(control.get_stop_flag());
    assert!(control.is_running());
    control.finish_run();
    assert!(!control.is_running());
    assert!(control.begin_run());
    // Beginning a run clears a stale stop flag.
    assert!(!control.get_stop_flag());
}

#[test]
fn json_block_extraction_unwraps_fences() {
    let fenced = "Here you go:\n```json\n{\"a\": 1}\n```\nthanks";
    assert_eq!(extract_json_block(fenced), "{\"a\": 1}");
    let plain_fence = "```\n{\"b\": 2}\n```";
    assert_eq!(extract_json_block(plain_fence), "{\"b\": 2}");
    let bare = "  {\"c\": 3}\n";
    assert_eq!(extract_json_block(bare), "{\"c\": 3}");
    let unclosed = "```json\n{\"d\": 4}";
    assert_eq!(extract_json_block(unclosed), "{\"d\": 4}");
}

#[test]
fn auth_output_parsing() {
    let state = parse_auth_output(
        true,
        "Logged in as: user@example.com\n",
        "2024-01-01T00:00:00Z".to_string(),
    );
    assert!(state.authenticated);
    assert_eq!(state.user_email.as_deref(), Some("user@example.com"));
    assert_eq!(state.last_check.as_deref(), Some("2024-01-01T00:00:00Z"));

    let state = parse_auth_output(true, "Not logged in\n", "t".to_string());
    assert!(!state.authenticated);
    assert!(state.user_email.is_none());

    // A successful exit without the login marker is not authenticated.
    let state = parse_auth_output(false, "Logged in as: user@example.com", "t".to_string());
    assert!(!state.authenticated);
}

#[test]
fn email_extraction() {
    assert_eq!(
        extract_email("status\nLogged in as: someone@host.org\nmore").as_deref(),
        Some("someone@host.org")
    );
    assert!(extract_email("nothing to see").is_none());
    assert!(extract_email("Logged in as nobody, no colon here").is_none());
}

#[test]
fn session_cache_round_trip() {
    let mut session = ClaudeSession::new();
    assert!(!session.get_cached_state().authenticated);
    let state = parse_auth_output(true, "Logged in as: a@b.c", "t1".to_string());
    session.set_state(state);
    assert!(session.get_cached_state().authenticated);
    assert_eq!(session.get_cached_state().user_email.as_deref(), Some("a@b.c"));
    session.clear();
    assert!(!session.get_cached_state().authenticated);
    assert!(session.get_cached_state().user_email.is_none());
    assert!(session.get_cached_state().last_check.is_none());
}

use codex_launcher::app_storage::{plan_bounded_log_write, replace_retry_delay_ms, AppPaths, LogWrite};
use codex_launcher::config::AppConfig;
use codex_launcher::launch::{
    headless_outcome, manual_keep_alive_options, run_options_from_config, HeadlessOutcome,
    LaunchMode, UninstallCleanupOutcome,
};
use codex_launcher::retry::{RunMode, RunStatus};
use codex_launcher::run_manager::{
    clears_stop_request, is_lock_contention, is_stop_requested, keep_alive_reply, run_lock_failure,
    stop_reply, RunRegistry, StopRequest, StopTarget,
    STOP_REQUEST_VERSION,
};
use codex_launcher::snapshot::{
    align_to_next_record, chunk_from_bytes, missing_log_chunk, plan_read, read_limit,
    SnapshotRequest, MAX_SNAPSHOT_BYTES,
};
use codex_launcher::status_store::html_escape;
use codex_launcher::windows_text::{decode_output_text, decode_output_text_with};

#[test]
fn valid_utf8_is_preserved_exactly() {
    assert_eq!(decode_output_text("中文 output".as_bytes()), "中文 output");
}

#[test]
fn invalid_utf8_uses_the_code_page_text_or_is_read_lossily() {
    assert_eq!(decode_output_text(&[0x61, 0xff]), "a\u{fffd}");
    assert_eq!(decode_output_text_with(&[0xD6, 0xD0], Some("中".to_string())), "中");
    assert_eq!(decode_output_text_with(b"ok", Some("ignored".to_string())), "ok");
}

#[test]
fn launch_mode_prefers_uninstall_cleanup() {
    let args = |v: &[&str]| v.iter().map(|s| s.to_string()).collect::<Vec<_>>();
    assert_eq!(LaunchMode::detect(args(&[])), LaunchMode::Gui);
    assert_eq!(LaunchMode::detect(args(&["--headless"])), LaunchMode::Headless);
    assert_eq!(
        LaunchMode::detect(args(&["--headless", "--uninstall-cleanup"])),
        LaunchMode::UninstallCleanup
    );
}

#[test]
fn headless_outcome_maps_failures_and_stopped_to_nonzero_exit_codes() {
    assert_eq!(HeadlessOutcome::Success.exit_code(), 0);
    assert_eq!(HeadlessOutcome::Stopped("s".to_string()).exit_code(), 2);
    assert_eq!(HeadlessOutcome::ConfigFailure("c".to_string()).exit_code(), 1);
    assert_eq!(HeadlessOutcome::StartFailure("c".to_string()).error_message(), Some("c"));
    assert_eq!(HeadlessOutcome::Success.error_message(), None);
    assert_eq!(
        headless_outcome(Ok((RunStatus::Stopped, "m".to_string()))),
        HeadlessOutcome::Stopped("run 已停止: m".to_string())
    );
    assert_eq!(
        headless_outcome(Ok((RunStatus::Failed, "m".to_string()))),
        HeadlessOutcome::RunFailure("run 结束: Failed: m".to_string())
    );
    assert_eq!(headless_outcome(Ok((RunStatus::Success, "m".to_string()))), HeadlessOutcome::Success);
    assert_eq!(UninstallCleanupOutcome::Failed("x".to_string()).exit_code(), 1);
    assert_eq!(UninstallCleanupOutcome::Skipped.exit_code(), 0);
}

#[test]
fn run_options_follow_the_configuration() {
    let mut config = AppConfig::default();
    config.command = "echo".to_string();
    config.keep_alive_interval_minutes = 2;
    let options = run_options_from_config(config.clone());
    assert_eq!(options.keep_alive_interval_ms, 120_000);
    assert_eq!(options.run_mode, RunMode::Retry);
    let manual = manual_keep_alive_options(config);
    assert!(manual.keep_alive);
    assert_eq!(manual.run_mode, RunMode::ManualKeepAlive);
}

#[test]
fn mismatched_stop_request_does_not_cancel_current_run() {
    let request = StopRequest {
        version: STOP_REQUEST_VERSION,
        run_id: "old-run".to_string(),
        requested_at: "2026-08-01T10:00:00Z".to_string(),
    };
    assert!(!is_stop_requested(Some(&request), "current-run", "stop.json").expect("read stop request"));
    assert!(is_stop_requested(Some(&request), "old-run", "stop.json").expect("read stop request"));
    assert!(!is_stop_requested(None, "old-run", "stop.json").expect("no request"));
    let mut future = request.clone();
    future.version = 9;
    assert_eq!(
        is_stop_requested(Some(&future), "old-run", "stop.json"),
        Err("不支持的 stop request 版本 9 [stop.json]".to_string())
    );
    assert!(clears_stop_request(Some(&request), "old-run"));
    assert!(!clears_stop_request(Some(&request), "new-run"));
}

#[test]
fn two_local_reservations_cannot_overlap() {
    let mut registry = RunRegistry::new();
    registry.reserve("run-a").expect("first reservation");
    let error = registry.reserve("run-b").expect_err("second reservation must fail");
    assert!(error.contains("run-a"));
    assert_eq!(registry.request_stop("run-b").unwrap_err(), "run ID 已变化，当前本地 run 为 run-a，拒绝停止 run-b");
    assert_eq!(registry.request_stop("run-a"), Ok(StopTarget::Local));
    assert!(registry.set_child_pid("run-b", Some(3)).is_err());
    registry.set_child_pid("run-a", Some(3)).expect("pid");
    registry.release("run-b");
    assert_eq!(registry.local_owned_run_id(), Some("run-a".to_string()));
    registry.release("run-a");
    assert_eq!(registry.request_stop("run-a"), Ok(StopTarget::Remote));
    registry.reserve("run-b").expect("reservation after release");
    assert_eq!(registry.request_stop("  ").unwrap_err(), "停止请求缺少 run ID");
}

#[test]
fn snapshot_reads_complete_lines_only() {
    let request = SnapshotRequest { run_id: Some("run-a".to_string()), byte_offset: 0 };
    let current = Some("run-a".to_string());
    let plan = plan_read(&request, &current, true, 20);
    assert!(!plan.reset);
    assert_eq!(plan.start, 0);
    let bytes = b"first\r\n\nthird\npart";
    let (available, limit) = read_limit(bytes.len() as u64, 0);
    let chunk = chunk_from_bytes(bytes, 0, bytes.len() as u64, available, limit, false, false, "latest.log")
        .expect("chunk");
    assert_eq!(chunk.log_lines, vec!["first".to_string(), String::new(), "third".to_string()]);
    assert_eq!(chunk.new_byte_offset, 14);
    assert!(!chunk.has_more);
    let none = chunk_from_bytes(b"partial", 5, 12, 7, 7, true, false, "latest.log").expect("no line");
    assert!(none.log_lines.is_empty());
    assert_eq!(none.new_byte_offset, 5);
    assert!(chunk_from_bytes(b"\xff\n", 0, 2, 2, 2, false, false, "latest.log")
        .unwrap_err()
        .starts_with("normalized log 不是有效 UTF-8 [latest.log offset=0]: "));
}

#[test]
fn snapshot_resets_on_run_switch_truncation_and_reconnect() {
    let current = Some("run-b".to_string());
    let switched = plan_read(&SnapshotRequest { run_id: Some("run-a".to_string()), byte_offset: 999 }, &current, true, 10);
    assert!(switched.reset);
    assert_eq!(switched.start, 0);
    let truncated = plan_read(&SnapshotRequest { run_id: Some("run-b".to_string()), byte_offset: 2048 }, &current, true, 100);
    assert!(truncated.reset);
    let fresh = plan_read(&SnapshotRequest { run_id: None, byte_offset: 0 }, &current, true, 3 * 1024 * 1024);
    assert_eq!(fresh.align_from, Some(1024 * 1024));
    assert_eq!(align_to_next_record(100, b"tail\nnext"), Ok(105));
    assert!(align_to_next_record(100, b"no newline").is_err());
    assert_eq!(read_limit(10 * MAX_SNAPSHOT_BYTES, 0), (10 * MAX_SNAPSHOT_BYTES, MAX_SNAPSHOT_BYTES));
    let missing = missing_log_chunk(&SnapshotRequest { run_id: Some("run-b".to_string()), byte_offset: 0 }, &current);
    assert!(!missing.reset);
}

#[test]
fn html_escape_replaces_markup_characters() {
    assert_eq!(html_escape("<a href=\"x\">&</a>"), "&lt;a href=&quot;x&quot;&gt;&amp;&lt;/a&gt;");
}

#[test]
fn app_paths_live_under_the_root() {
    let paths = AppPaths::from_root("root".to_string());
    let sep = std::path::MAIN_SEPARATOR;
    assert_eq!(paths.logs_dir, format!("root{sep}logs"));
    assert_eq!(paths.latest_log, format!("root{sep}logs{sep}latest.log"));
    assert_eq!(paths.config_file, format!("root{sep}launcher-config.json"));
}

#[test]
fn bounded_log_never_exceeds_its_limit() {
    match plan_bounded_log_write("entry", 100, 0).expect("plan") {
        LogWrite::Append(text) => assert_eq!(text, "entry\n"),
        other => panic!("unexpected {other:?}"),
    }
    match plan_bounded_log_write("entry\n", 50, 45).expect("plan") {
        LogWrite::Replace(text) => {
            assert_eq!(text, "[older diagnostic entries truncated]\nentry\n");
            assert!(text.len() <= 50);
        }
        other => panic!("unexpected {other:?}"),
    }
    match plan_bounded_log_write("abcdef", 3, 0).expect("plan") {
        LogWrite::Append(text) => assert_eq!(text, "ef\n"),
        other => panic!("unexpected {other:?}"),
    }
    match plan_bounded_log_write("中文", 4, 1).expect("plan") {
        LogWrite::Replace(text) => assert!(text.len() <= 4),
        other => panic!("unexpected {other:?}"),
    }
    assert!(plan_bounded_log_write("x", 0, 0).is_err());
}

#[test]
fn lock_contention_is_told_apart_from_lock_failures() {
    assert!(is_lock_contention(true, None));
    assert!(is_lock_contention(false, Some(32)));
    assert!(is_lock_contention(false, Some(33)));
    assert!(!is_lock_contention(false, Some(5)));
    assert!(!is_lock_contention(false, None));
    assert_eq!(run_lock_failure(false, Some(33), "p", "e"), "已有另一个 Codex Launcher run 正在执行");
    assert_eq!(
        run_lock_failure(false, Some(5), "run.lock", "denied"),
        "获取 run lock 失败 [run.lock]: denied"
    );
}

#[test]
fn only_sharing_conflicts_are_retried_and_only_for_a_while() {
    assert_eq!(replace_retry_delay_ms(Some(32), 0), Some(1));
    assert_eq!(replace_retry_delay_ms(Some(5), 3), Some(4));
    assert_eq!(replace_retry_delay_ms(Some(33), 9), Some(10));
    assert_eq!(replace_retry_delay_ms(Some(33), 39), Some(10));
    assert_eq!(replace_retry_delay_ms(Some(33), 40), None);
    assert_eq!(replace_retry_delay_ms(Some(2), 0), None);
    assert_eq!(replace_retry_delay_ms(None, 0), None);
}

#[test]
fn stop_and_keep_alive_answers_name_where_the_signal_went() {
    assert_eq!(stop_reply(StopTarget::Local), "已向本地 run 发送停止信号");
    assert_eq!(stop_reply(StopTarget::Remote), "已写入带 run ID 的远程停止请求");
    assert_eq!(keep_alive_reply(true, true), "本地 run 的保活已开启");
    assert_eq!(
        keep_alive_reply(false, false),
        "远程 run 的保活已关闭；若正在保活等待，将立即正常结束"
    );
}

fn apply_bounded_write(file: &mut Vec<u8>, entry: &str, max: usize) {
    match plan_bounded_log_write(entry, max, file.len() as u64).expect("plan") {
        LogWrite::Append(text) => file.extend_from_slice(text.as_bytes()),
        LogWrite::Replace(text) => *file = text.into_bytes(),
    }
}

#[test]
fn bounded_log_in_memory_never_exceeds_its_limit() {
    let mut file: Vec<u8> = Vec::new();
    let entry = "0123456789012345678901234567890123456789ab";
    for _ in 0..20 {
        apply_bounded_write(&mut file, entry, 128);
        assert!(file.len() <= 128);
        assert!(std::str::from_utf8(&file).is_ok());
    }
    apply_bounded_write(&mut file, "中文-overflow", 8);
    assert!(file.len() <= 8);
    assert!(std::str::from_utf8(&file).is_ok());
    let mut fresh: Vec<u8> = b"old\n".to_vec();
    apply_bounded_write(&mut fresh, "new", 128);
    assert_eq!(fresh, b"old\nnew\n".to_vec());
}

use codex_launcher::capture::StreamSource;
use codex_launcher::config::MAX_CONCURRENCY;
use codex_launcher::retry::{
    after_success, attempt_message, base_url_preflight, check_interrupts, is_history_log,
    is_history_log_with, new_run_id,
    keep_alive_setting, keep_alive_wait_step, log_file_name, read_failure_message,
    retry_wait_step, start_log_lines, terminal_of, uses_success_notification_once,
    worker_outcome, AfterSuccess, AttemptVerdict, KeepAliveWake, LogNoticeThrottle, LoopOutcome,
    Progress, RaceOutcome, RaceTally, RetryWake, RunMode, RunOptions, RunStatus, StatusBuilder,
    WorkerOutcome,
};
use codex_launcher::status_store::{reconcile_stale, render_status_html};

fn options(command: &str, max_tries: u64) -> RunOptions {
    RunOptions::new(command.to_string(), ".".to_string(), 1, max_tries, String::new())
}

fn builder(max_tries: u64) -> StatusBuilder {
    StatusBuilder::new(
        "run-1".to_string(),
        &options("echo x", max_tries),
        1,
        "full.log".to_string(),
        "latest.log".to_string(),
        "2026-08-01T10:00:00Z".to_string(),
    )
}

#[test]
fn manual_keep_alive_ignores_the_configured_concurrency() {
    let run_options = options("echo manual", 0)
        .with_concurrency(8)
        .with_run_mode(RunMode::ManualKeepAlive);
    assert_eq!(run_options.effective_concurrency(), 1);
    assert_eq!(options("echo retry", 0).with_concurrency(8).effective_concurrency(), 8);
}

#[test]
fn concurrency_is_validated_against_the_supported_range() {
    for invalid in [0, MAX_CONCURRENCY + 1] {
        assert!(options("echo x", 1)
            .with_concurrency(invalid)
            .validate()
            .expect_err("out-of-range concurrency must fail")
            .contains("并发线程数"));
    }
    options("echo x", 1)
        .with_concurrency(MAX_CONCURRENCY)
        .validate()
        .expect("upper bound concurrency is accepted");
}

#[test]
fn run_options_are_checked_in_order() {
    assert_eq!(options("  ", 1).validate_with(true), Err("command 不能为空".to_string()));
    assert_eq!(options("x", 1).validate_with(false), Err("工作目录不存在或不是目录: .".to_string()));
    let zero = options("x", 1).with_keep_alive(true, 0);
    assert_eq!(zero.validate_with(true), Err("保活间隔必须大于 0".to_string()));
    assert_eq!(options("x", 100_001).validate_with(true), Err("最大尝试次数不能超过 100000".to_string()));
    assert!(RunStatus::Running.is_active());
    assert!(!RunStatus::Stopped.is_active());
}

#[test]
fn attempt_budget_is_shared_and_bounded() {
    let mut b = builder(2);
    assert_eq!(b.reserve_attempt(), Some(1));
    assert_eq!(b.reserve_attempt(), Some(2));
    assert_eq!(b.reserve_attempt(), None);
    assert_eq!(b.attempt, 2);
    assert_eq!(b.bump_attempt(), 3);
    let mut unlimited = builder(0);
    for k in 1..=5 {
        assert_eq!(unlimited.reserve_attempt(), Some(k));
    }
}

#[test]
fn failed_attempts_are_retried_until_the_budget_is_spent() {
    let mut b = builder(2);
    b.reserve_attempt();
    match b.settle_attempt(Some(3), false, "boom".to_string()) {
        AttemptVerdict::Retry(message) => assert_eq!(message, "命令异常退出 (exit=3)，1 秒后重试"),
        other => panic!("unexpected {other:?}"),
    }
    assert_eq!(b.retry_count, 1);
    assert_eq!(b.last_error_snippet, "boom");
    b.reserve_attempt();
    match b.settle_attempt(Some(-2), true, "x".to_string()) {
        AttemptVerdict::Failed(message) => {
            assert_eq!(message, "命令未成功且已达到最大尝试次数 2 (exit=-2)")
        }
        other => panic!("unexpected {other:?}"),
    }
    assert_eq!(b.high_demand_count, 1);
    assert_eq!(b.retry_count, 1);
    assert!(b.last_error_snippet.starts_with("We're currently experiencing high demand"));
}

#[test]
fn clean_exit_succeeds_and_missing_exit_code_fails() {
    let mut b = builder(0);
    assert!(matches!(b.settle_attempt(Some(0), false, "ok".to_string()), AttemptVerdict::Succeeded(0)));
    assert_eq!(b.last_exit_code, Some(0));
    match b.settle_attempt(Some(0), true, "hd".to_string()) {
        AttemptVerdict::Retry(message) => assert_eq!(message, "检测到高负载，1 秒后重试"),
        other => panic!("unexpected {other:?}"),
    }
    match b.settle_attempt(None, false, "p".to_string()) {
        AttemptVerdict::Failed(message) => assert_eq!(message, "子进程异常终止，Windows 未提供 exit code"),
        other => panic!("unexpected {other:?}"),
    }
}

#[test]
fn race_first_success_wins_over_everything_else() {
    let mut tally = RaceTally::new();
    assert!(!tally.record(WorkerOutcome::Failed("f".to_string())));
    assert!(!tally.record(WorkerOutcome::Stopped("s".to_string())));
    assert!(tally.record(WorkerOutcome::Succeeded(0)));
    assert!(!tally.record(WorkerOutcome::Succeeded(7)));
    assert!(!tally.record(WorkerOutcome::Superseded));
    assert!(matches!(tally.finish(), RaceOutcome::Succeeded(0)));

    let mut failures = RaceTally::new();
    failures.record(WorkerOutcome::Exhausted("budget".to_string()));
    failures.record(WorkerOutcome::Failed("exit".to_string()));
    match failures.finish() {
        RaceOutcome::Failed(m) => assert_eq!(m, "exit"),
        other => panic!("unexpected {other:?}"),
    }
    match RaceTally::new().finish() {
        RaceOutcome::Stopped(m) => assert_eq!(m, "用户停止了任务"),
        other => panic!("unexpected {other:?}"),
    }
}

#[test]
fn stops_count_only_when_the_run_was_cancelled() {
    assert!(matches!(
        worker_outcome(LoopOutcome::Stopped("x".to_string()), false),
        WorkerOutcome::Superseded
    ));
    assert!(matches!(
        worker_outcome(LoopOutcome::Stopped("x".to_string()), true),
        WorkerOutcome::Stopped(_)
    ));
    match worker_outcome(LoopOutcome::Success("ok".to_string()), false) {
        WorkerOutcome::Failed(m) => assert_eq!(m, "抢跑线程收到意外的成功信号: ok"),
        other => panic!("unexpected {other:?}"),
    }
    assert!(check_interrupts(false, Ok(false)).is_none());
    assert!(matches!(check_interrupts(true, Err("io".to_string())), Some(LoopOutcome::Stopped(_))));
    assert!(matches!(check_interrupts(false, Err("io".to_string())), Some(LoopOutcome::Failed(_))));
}

#[test]
fn waits_end_on_cancellation_stop_requests_or_time() {
    assert!(matches!(retry_wait_step(RetryWake::Elapsed), Some(Ok(()))));
    assert!(retry_wait_step(RetryWake::Poll(Ok(false))).is_none());
    assert!(matches!(retry_wait_step(RetryWake::Poll(Ok(true))), Some(Err(LoopOutcome::Stopped(_)))));
    assert!(matches!(keep_alive_wait_step(KeepAliveWake::SwitchChanged(false)), Some(Err(LoopOutcome::Success(_)))));
    assert!(keep_alive_wait_step(KeepAliveWake::SwitchChanged(true)).is_none());
    assert!(matches!(keep_alive_wait_step(KeepAliveWake::Elapsed(Ok(true))), Some(Ok(()))));
    assert!(matches!(keep_alive_wait_step(KeepAliveWake::Cancelled), Some(Err(LoopOutcome::Stopped(_)))));
    assert!(matches!(keep_alive_setting(Ok(Some(false)), true), Ok(false)));
    assert!(matches!(keep_alive_setting(Ok(None), true), Ok(true)));
}

#[test]
fn success_without_keep_alive_finishes_the_run() {
    match after_success(0, false, 300_000) {
        AfterSuccess::Finish(LoopOutcome::Success(m)) => assert_eq!(m, "命令成功完成 (exit=0)"),
        other => panic!("unexpected {other:?}"),
    }
    match after_success(0, true, 300_000) {
        AfterSuccess::KeepAlive { status_message, notice } => {
            assert_eq!(status_message, "命令成功完成 (exit=0)，保活已开启，300 秒后再次执行");
            assert_eq!(notice, "命令首次成功完成 (exit=0)，保活继续运行");
        }
        other => panic!("unexpected {other:?}"),
    }
    let (status, message) = terminal_of(LoopOutcome::Failed("bad".to_string()));
    assert_eq!((status, message.as_str()), (RunStatus::Failed, "bad"));
    assert!(uses_success_notification_once(RunStatus::Success, RunMode::Retry));
    assert!(!uses_success_notification_once(RunStatus::Success, RunMode::ManualKeepAlive));
}

#[test]
fn success_notification_is_taken_once() {
    let mut b = builder(0);
    assert!(!b.take_success_notification());
    assert!(b.take_success_notification());
}

#[test]
fn log_notification_throttle_has_a_minimum_interval() {
    let mut throttle = LogNoticeThrottle::default();
    assert!(throttle.should_emit(1_000));
    assert!(!throttle.should_emit(1_000));
    assert!(!throttle.should_emit(1_099));
    assert!(throttle.should_emit(1_100));
}

#[test]
fn worker_pids_are_tracked_per_worker() {
    let mut b = builder(0);
    b.set_worker_pid(2, Some(20));
    b.set_worker_pid(1, Some(10));
    assert_eq!(b.child_pids.values().copied().collect::<Vec<_>>(), vec![10, 20]);
    b.set_worker_pid(1, None);
    assert_eq!(b.child_pids.len(), 1);
    b.active_workers = 1;
    b.worker_finished();
    b.worker_finished();
    assert_eq!(b.active_workers, 0);
    b.clear_workers();
    assert!(b.child_pids.is_empty());
}

#[test]
fn start_messages_describe_the_run() {
    let o = options("echo hi", 0).with_concurrency(3);
    assert_eq!(
        start_log_lines(&o),
        vec![
            "开始执行: echo hi".to_string(),
            "工作目录: .".to_string(),
            "并发线程数: 3（任一线程成功即终止其余线程）".to_string()
        ]
    );
    assert_eq!(log_file_name("r1"), "codex-retry-r1.log");
    assert_eq!(attempt_message(3), "第 3 次尝试执行中");
    assert_eq!(read_failure_message(StreamSource::Stderr, "eof"), "读取 stderr 失败: eof");
    let mut b = builder(0);
    assert_eq!(b.record_start_failure("denied"), "启动子进程失败: denied");
    assert_eq!(b.result_preview, "启动子进程失败: denied");
}

#[test]
fn base_url_preflight_blocks_unlisted_providers() {
    assert!(base_url_preflight("  ", Err("unused".to_string())).is_ok());
    assert!(base_url_preflight("https://a.example", Ok(Some("https://a.example/".to_string()))).is_ok());
    assert!(base_url_preflight("https://a.example", Ok(Some("https://b.example".to_string())))
        .unwrap_err()
        .starts_with("当前 Codex base_url 不在允许列表中"));
    assert!(base_url_preflight("https://a.example", Ok(None)).is_err());
}

#[test]
fn history_cleanup_spares_latest_and_active_logs() {
    let active = Some("/l/codex-retry-b.log".to_string());
    assert!(is_history_log("codex-retry-a.log", "/l/codex-retry-a.log", "/l/latest.log", &active));
    assert!(!is_history_log("codex-retry-b.log", "/l/codex-retry-b.log", "/l/latest.log", &active));
    assert!(!is_history_log("latest.log", "/l/latest.log", "/l/latest.log", &None));
    assert!(!is_history_log("notes.txt", "/l/notes.txt", "/l/latest.log", &None));
}

#[test]
fn built_status_lists_child_pids_in_worker_order() {
    let mut b = builder(4);
    b.set_worker_pid(2, Some(30));
    b.set_worker_pid(0, Some(10));
    b.set_worker_pid(1, Some(20));
    b.set_worker_pid(1, None);
    let status = b.build(RunStatus::Running, "working".to_string());
    assert_eq!(status.child_pids, vec![10, 30]);
    assert_eq!(status.child_pid, Some(10));
    assert_eq!(status.run_id, "run-1");
    assert_eq!(status.message, "working");
    assert_eq!(status.status, RunStatus::Running);
    assert_eq!(status.max_tries, 4);
    assert!(chrono::DateTime::parse_from_rfc3339(&status.updated_at).is_ok());
    assert!(status.updated_at.ends_with("+00:00"));
    let empty = builder(4).build(RunStatus::Starting, String::new());
    assert!(empty.child_pids.is_empty());
    assert_eq!(empty.child_pid, None);
}

#[test]
fn progress_follows_the_state_and_the_budget() {
    let mut b = builder(4);
    b.reserve_attempt();
    assert_eq!(b.progress(RunStatus::Running), Progress::Fraction { attempt: 1, max_tries: 4 });
    assert_eq!(builder(0).progress(RunStatus::Starting), Progress::Unbounded);
    assert_eq!(b.progress(RunStatus::Stopped), Progress::Finished);
}

#[test]
fn only_the_matching_active_run_is_failed() {
    let mut b = builder(4);
    b.set_worker_pid(0, Some(10));
    let mut status = b.build(RunStatus::Running, "working".to_string());
    status.active_workers = 1;
    assert!(!status.fail_if_active("run-2", "gone"));
    assert_eq!(status.status, RunStatus::Running);
    assert_eq!(status.child_pids, vec![10]);
    assert!(status.fail_if_active("run-1", "gone\nfor good"));
    assert_eq!(status.status, RunStatus::Failed);
    assert_eq!(status.child_pid, None);
    assert!(status.child_pids.is_empty());
    assert_eq!(status.active_workers, 0);
    assert_eq!(status.message, "gone\nfor good");
    assert_eq!(status.last_error_snippet, "gone for good");
    assert!(!status.fail_if_active("run-1", "again"));
    assert_eq!(status.message, "gone\nfor good");
}

#[test]
fn stale_active_status_is_marked_failed_once() {
    let mut status = builder(4).build(RunStatus::Starting, "starting".to_string());
    assert!(!reconcile_stale(&mut status, "other-run"));
    assert!(reconcile_stale(&mut status, "run-1"));
    assert_eq!(status.status, RunStatus::Failed);
    assert!(status.message.starts_with("run owner 已退出"));
    assert!(!reconcile_stale(&mut status, "run-1"));
}

#[test]
fn status_page_escapes_run_text() {
    let mut b = StatusBuilder::new(
        "r<1>".to_string(),
        &options("echo & exit", 0).with_concurrency(3),
        1,
        "full.log".to_string(),
        "latest.log".to_string(),
        "2026-08-01T10:00:00Z".to_string(),
    );
    b.reserve_attempt();
    b.reserve_attempt();
    let mut status = b.build(RunStatus::Failed, "m".to_string());
    status.high_demand_count = 1;
    status.last_error_snippet = "err".to_string();
    let html = render_status_html(&status);
    assert!(html.contains("<div class=\"badge\">失败</div>"));
    assert!(html.contains("background: #dc2626;"));
    assert!(html.contains("<p>Run ID: r&lt;1&gt;</p>"));
    assert!(html.contains("尝试次数: 2</div>"));
    assert!(html.contains("并发线程数: 3（活跃 0）"));
    assert!(html.contains("<code>echo &amp; exit</code>"));
    assert!(html.contains("<pre>err</pre>"));
}

#[test]
fn a_panicked_run_is_recorded_as_failed_with_its_children_gone() {
    let mut b = builder(4);
    b.set_worker_pid(1, Some(10));
    let mut status = b.build(RunStatus::Running, "working".to_string());
    status.mark_panicked("run task panic: boom");
    assert_eq!(status.status, RunStatus::Failed);
    assert_eq!(status.child_pid, None);
    assert_eq!(status.child_pids, vec![10]);
    assert_eq!(status.message, "run task panic: boom");
    assert_eq!(status.last_error_snippet, "run task panic: boom");
}

#[test]
fn history_cleanup_compares_paths_as_paths() {
    assert!(!is_history_log("codex-retry-a.log", "/l//codex-retry-a.log", "/l/codex-retry-a.log", &None));
    let active = Some("/l/./codex-retry-b.log".to_string());
    assert!(!is_history_log("codex-retry-b.log", "/l/codex-retry-b.log", "/l/latest.log", &active));
    assert!(is_history_log_with("codex-retry-a.log", false, false));
    assert!(!is_history_log_with("codex-retry-a.log", true, false));
    assert!(!is_history_log_with("codex-retry-a.log", false, true));
    assert!(!is_history_log_with("codex-retry-a.txt", false, false));
    assert!(!is_history_log_with("run-a.log", false, false));
}

#[test]
fn run_ids_are_the_local_time_and_eight_hex_digits() {
    let id = new_run_id();
    let chars: Vec<char> = id.chars().collect();
    assert_eq!(chars.len(), 24);
    assert!(chars[..8].iter().all(|c| c.is_ascii_digit()));
    assert_eq!(chars[8], '-');
    assert!(chars[9..15].iter().all(|c| c.is_ascii_digit()));
    assert_eq!(chars[15], '-');
    assert!(chars[16..].iter().all(|c| c.is_ascii_digit() || ('a'..='f').contains(c)));
    assert!(chrono::NaiveDateTime::parse_from_str(&id[..15], "%Y%m%d-%H%M%S").is_ok());
    assert_ne!(new_run_id()[16..], new_run_id()[16..]);
}

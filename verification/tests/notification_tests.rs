use codex_launcher::email::{prepare_email, smtp_security, SmtpSecurity};
use codex_launcher::notifications::{
    bound_text, channel_outcome, delivery_entry, elapsed_seconds, max_tries_label,
    merge_channel_results, record_desktop_delivery, record_email_delivery,
    record_server_chan_delivery, run_mode_label, run_status_label, server_chan_outcome, should_notify,
    NotificationEvent, NotificationEventType, TerminalStatus,
};
use codex_launcher::retry::{RunMode, RunStatus};
use codex_launcher::server_chan::DeliveryReceipt;

fn terminal_status(status: RunStatus) -> TerminalStatus {
    TerminalStatus {
        run_id: "run-123".to_string(),
        status,
        run_mode: RunMode::Retry,
        attempt: 3,
        retry_count: 2,
        max_tries: 3,
        last_exit_code: Some(1),
        high_demand_count: 1,
        message: "terminal message".to_string(),
        started_at: "2026-08-01T10:00:00Z".to_string(),
        updated_at: "2026-08-01T10:01:30Z".to_string(),
    }
}

#[test]
fn terminal_event_is_stable_and_excludes_command_paths_and_output() {
    let event = NotificationEvent::from_terminal(&terminal_status(RunStatus::Failed));
    let json = format!("{event:?}");
    assert_eq!(event.event_id, "run-123:runFailed");
    assert_eq!(event.duration_seconds, 90);
    assert_eq!(event.retry_count, 2);
    assert!(!json.contains("secret command"));
    assert!(!json.contains("secret.log"));
    assert!(!json.contains("secret output"));
    let desktop_body = event.desktop_description();
    assert!(!desktop_body.contains("secret command"));
    assert!(!desktop_body.contains("secret.log"));
    assert!(!desktop_body.contains("secret output"));
}

#[test]
fn only_retry_success_is_sent() {
    let success = NotificationEvent::from_terminal(&terminal_status(RunStatus::Success));
    assert_eq!(success.event_type, NotificationEventType::RunSucceeded);
    assert!(should_notify(&success));
    assert!(!should_notify(&NotificationEvent::from_terminal(&terminal_status(RunStatus::Stopped))));
    let mut manual = terminal_status(RunStatus::Success);
    manual.run_mode = RunMode::ManualKeepAlive;
    assert!(!should_notify(&NotificationEvent::from_terminal(&manual)));
    assert!(!should_notify(&NotificationEvent::test("t")));
    let running = NotificationEvent::from_terminal(&terminal_status(RunStatus::Running));
    assert_eq!(running.event_type, NotificationEventType::RunFailed);
}

#[test]
fn bodies_show_counters_and_the_message() {
    let event = NotificationEvent::from_terminal(&terminal_status(RunStatus::Failed));
    assert_eq!(event.desktop_description(), "Attempt 3 / 3 · Retry 2 · 耗时 90 秒\nterminal message");
    let markdown = event.markdown_description();
    assert!(markdown.starts_with("**状态**：失败\n\n- Run ID：`run-123`\n- 运行模式：普通重试"));
    assert!(markdown.contains("- Exit code：1\n"));
    assert!(markdown.ends_with("**消息**\n\nterminal message"));
    let test = NotificationEvent::test("hello");
    assert_eq!(test.desktop_description(), "hello");
    assert!(test.event_id.starts_with("test:"));
    assert_eq!(test.event_id.len(), 37);
    let failed = NotificationEvent::start_failed("boom");
    assert!(failed.event_id.starts_with("start:"));
    assert_eq!(failed.run_id, "not-started");
    assert!(failed.markdown_description().contains("运行模式：尚未启动"));
    assert_eq!(failed.title(), "[Codex Launcher] 任务启动失败");
}

#[test]
fn durations_are_whole_non_negative_seconds() {
    assert_eq!(elapsed_seconds("2026-08-01T10:00:00Z", "2026-08-01T10:01:30.900Z"), 90);
    assert_eq!(elapsed_seconds("2026-08-01T10:01:00Z", "2026-08-01T10:00:00Z"), 0);
    assert_eq!(elapsed_seconds("garbage", "2026-08-01T10:00:00Z"), 0);
    assert_eq!(elapsed_seconds("2026-08-01T10:00:00+08:00", "2026-08-01T02:00:05Z"), 5);
}

#[test]
fn labels_and_bounds() {
    assert_eq!(max_tries_label(0), "无限");
    assert_eq!(max_tries_label(12), "12");
    assert_eq!(run_mode_label(RunMode::ManualKeepAlive), "手动保活");
    assert_eq!(run_status_label(RunStatus::Stopped), "已停止");
    assert_eq!(bound_text("abcdef", 4), "abcd...");
    assert_eq!(bound_text("abcd", 4), "abcd");
    let long = "x".repeat(900);
    let mut status = terminal_status(RunStatus::Failed);
    status.message = long;
    assert_eq!(NotificationEvent::from_terminal(&status).message.chars().count(), 803);
}

#[test]
fn channel_results_are_merged_in_order() {
    assert_eq!(merge_channel_results(Ok(()), Ok(()), Ok(())), Ok(()));
    assert_eq!(
        merge_channel_results(Err("a".to_string()), Ok(()), Err("c".to_string())),
        Err("Server酱: a; 邮件: c".to_string())
    );
    assert_eq!(
        merge_channel_results(Ok(()), Err("b".to_string()), Ok(())),
        Err("桌面通知: b".to_string())
    );
}

#[test]
fn delivery_log_lines() {
    let event = NotificationEvent::from_terminal(&terminal_status(RunStatus::Success));
    assert_eq!(server_chan_outcome(&Ok(DeliveryReceipt { attempts: 2 })), "success attempts=2");
    assert_eq!(channel_outcome(&Err("x".repeat(300))), format!("failed error={}...", "x".repeat(240)));
    assert_eq!(
        delivery_entry("2026-08-01 10:00:00", "desktop", &event, "success"),
        "[2026-08-01 10:00:00] channel=desktop eventId=run-123:runSucceeded type=runSucceeded success"
    );
}

#[test]
fn email_addresses_and_tls_mode_are_settled_before_sending() {
    assert_eq!(smtp_security(465), SmtpSecurity::ImplicitTls);
    assert_eq!(smtp_security(587), SmtpSecurity::StartTls);
    match prepare_email("bot@example.com", "Me <me@example.com>", 465) {
        Ok(envelope) => {
            assert_eq!(envelope.security, SmtpSecurity::ImplicitTls);
            assert_eq!(envelope.from.email.to_string(), "bot@example.com");
            assert_eq!(envelope.to.email.to_string(), "me@example.com");
        }
        Err(error) => panic!("unexpected error {error}"),
    }
    match prepare_email("not an address", "me@example.com", 587) {
        Err(error) => assert!(error.starts_with("发件人地址格式错误: "), "{error}"),
        Ok(_) => panic!("sender should be refused"),
    }
    match prepare_email("bot@example.com", "@@", 587) {
        Err(error) => assert!(error.starts_with("收件人地址格式错误: "), "{error}"),
        Ok(_) => panic!("recipient should be refused"),
    }
}

fn stamp_of(line: &str) -> &str {
    assert!(line.starts_with('['));
    &line[1..20]
}

#[test]
fn delivery_records_carry_the_local_time() {
    let event = NotificationEvent::test("hi");
    assert!(chrono::DateTime::parse_from_rfc3339(&event.occurred_at).is_ok());
    assert!(event.occurred_at.ends_with("+00:00"));
    let desktop = record_desktop_delivery(&event, &Ok(()));
    assert!(chrono::NaiveDateTime::parse_from_str(stamp_of(&desktop), "%Y-%m-%d %H:%M:%S").is_ok());
    assert!(desktop[20..].starts_with("] channel=desktop eventId=test:"));
    let email = record_email_delivery(&event, &Err("down".to_string()));
    assert!(chrono::NaiveDateTime::parse_from_str(stamp_of(&email), "%Y-%m-%d %H:%M:%S").is_ok());
    assert!(email[20..].starts_with("] channel=email "));
    let receipt = DeliveryReceipt { attempts: 1 };
    let chan = record_server_chan_delivery(&event, &Ok(receipt));
    assert!(chrono::NaiveDateTime::parse_from_str(stamp_of(&chan), "%Y-%m-%d %H:%M:%S").is_ok());
    assert!(chan[20..].starts_with("] channel=serverChan "));
}

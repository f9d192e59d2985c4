use codex_launcher::schedule::ScheduleConfig;
use codex_launcher::task_scheduler::{
    cleanup_decision, cleanup_report, cleanup_targets, command_failure, create_task_args,
    delete_outcome, format_result_hex, install_message, install_ownership, legacy_takeover_notice,
    normalize_windows_path,
    parse_task_state, probe_matches_app, probe_uses_legacy_headless, register_task,
    remove_registration, result_code_label, stale_task_names, task_health, task_not_found,
    uninstall_message, validate_executable_path, verify_created, CleanupDecision,
    ManagedCleanupOutcome, ScheduledTaskState, SchedulerOutput, SchedulerState, TaskProbe,
};

fn failed_output(stderr: &str) -> SchedulerOutput {
    SchedulerOutput {
        success: false,
        exit_code: Some(5),
        stdout: b"partial stdout".to_vec(),
        stderr: stderr.as_bytes().to_vec(),
        stdout_code_page: None,
        stderr_code_page: None,
    }
}

fn app_probe(path: &str, arguments: &str) -> TaskProbe {
    let mut probe = TaskProbe::default();
    probe.installed = true;
    probe.state = Some("Ready".to_string());
    probe.enabled = true;
    probe.action_path = Some(path.to_string());
    probe.action_arguments = Some(arguments.to_string());
    probe
}

#[test]
fn not_found_detection_preserves_permission_failures() {
    let missing = SchedulerOutput {
        success: false,
        exit_code: Some(1),
        stdout: Vec::new(),
        stderr: b"ERROR: The system cannot find the file specified.".to_vec(),
        stdout_code_page: None,
        stderr_code_page: None,
    };
    assert!(task_not_found(&missing));
    assert!(!task_not_found(&failed_output("Access is denied.")));
}

#[test]
fn ownership_path_comparison_is_case_and_separator_insensitive() {
    let probe = app_probe(r"C:/CODEX/Launcher.exe", "--scheduled");
    assert!(probe_matches_app(&probe, r"c:\codex\launcher.exe"));
}

#[test]
fn foreign_or_missing_actions_are_not_owned() {
    assert!(!probe_matches_app(&app_probe(r"C:\Other\app.exe", "--scheduled"), r"C:\Codex\launcher.exe"));
    assert!(!probe_matches_app(&app_probe(r"C:\Codex\launcher.exe", "--run"), r"C:\Codex\launcher.exe"));
    assert!(probe_matches_app(&app_probe("\"C:\\Codex\\launcher.exe\"", " --headless "), r"C:\Codex\launcher.exe\"));
    assert!(!probe_matches_app(&TaskProbe::default(), r"C:\Codex\launcher.exe"));
    assert!(probe_uses_legacy_headless(&app_probe("x", " --headless")));
    assert!(!probe_uses_legacy_headless(&app_probe("x", "--scheduled")));
    assert_eq!(normalize_windows_path(" \"C:/A/B/\" "), "c:\\a\\b");
}

#[test]
fn same_name_unowned_task_is_never_overwritten() {
    let error = install_ownership("Valid Task", r"C:\Codex\launcher.exe", None, &app_probe(r"C:\Other\app.exe", "--run"))
        .expect_err("foreign task must be preserved");
    assert!(error.contains("拒绝覆盖"));
    assert_eq!(install_ownership("T", r"C:\Codex\launcher.exe", None, &TaskProbe::default()), Ok(false));
    assert_eq!(
        install_ownership("T", r"C:\Codex\launcher.exe", None, &app_probe(r"C:\Codex\launcher.exe", "--headless")),
        Ok(true)
    );
}

#[test]
fn create_arguments_run_the_launcher_scheduled() {
    let args = create_task_args("Valid Task", r"C:\Codex\launcher.exe", &vec!["/SC".to_string(), "DAILY".to_string()]);
    assert_eq!(
        args,
        vec!["/Create", "/TN", "Valid Task", "/TR", "\"C:\\Codex\\launcher.exe\" --scheduled", "/SC", "DAILY", "/F"]
            .into_iter()
            .map(String::from)
            .collect::<Vec<_>>()
    );
    assert!(!args.iter().any(|a| a == "/Delete"));
    assert!(verify_created("T", &app_probe(r"C:\Codex\launcher.exe", "--scheduled"), r"C:\Codex\launcher.exe").is_ok());
    assert!(verify_created("T", &TaskProbe::default(), r"C:\Codex\launcher.exe").unwrap_err().contains("创建后验证失败"));
}

#[test]
fn result_codes_are_labelled_in_hex() {
    assert_eq!(format_result_hex(1), "0x1");
    assert_eq!(format_result_hex(0x41301), "0x41301");
    assert_eq!(format_result_hex(-1), "0xFFFFFFFFFFFFFFFF");
    assert_eq!(result_code_label(0x41303), "尚未运行");
    assert_eq!(result_code_label(255), "未知结果 0xFF");
    assert_eq!(parse_task_state("RUNNING"), ScheduledTaskState::Running);
    assert_eq!(parse_task_state("weird"), ScheduledTaskState::Unknown);
}

#[test]
fn failures_report_both_streams() {
    let message = command_failure("删除计划任务", &failed_output("  Access is denied.\n"));
    assert_eq!(message, "删除计划任务失败 (exit code: 5): stdout=[partial stdout] stderr=[Access is denied.]");
    let none = SchedulerOutput {
        success: false,
        exit_code: None,
        stdout: Vec::new(),
        stderr: Vec::new(),
        stdout_code_page: None,
        stderr_code_page: None,
    };
    assert!(command_failure("x", &none).contains("exit code: unknown"));
    assert_eq!(delete_outcome(&SchedulerOutput {
        success: true,
        exit_code: Some(0),
        stdout: vec![],
        stderr: vec![],
        stdout_code_page: None,
        stderr_code_page: None,
    }), Ok(ManagedCleanupOutcome::Removed));
    assert!(delete_outcome(&failed_output("denied")).is_err());
}

#[test]
fn registry_keeps_one_registration_per_name() {
    let mut state = SchedulerState::default();
    register_task(&mut state, "A", "exe", &ScheduleConfig::default(), "t1".to_string());
    register_task(&mut state, "B", "exe", &ScheduleConfig::default(), "t2".to_string());
    register_task(&mut state, "A", "exe2", &ScheduleConfig::default(), "t3".to_string());
    assert_eq!(state.registrations.len(), 2);
    assert_eq!(state.registrations[0].task_name, "B");
    assert_eq!(state.registrations[1].executable_path, "exe2");
    assert_eq!(stale_task_names(&state, "A"), vec!["B".to_string()]);
    remove_registration(&mut state, "B");
    assert_eq!(state.registrations.len(), 1);
    assert_eq!(cleanup_targets(&state, Some(" Z ")).expect("targets"), vec!["A".to_string(), "Z".to_string()]);
    assert!(cleanup_targets(&state, Some("bad:name")).is_err());
}

#[test]
fn cleanup_decisions_and_reports() {
    assert_eq!(cleanup_decision(&TaskProbe::default(), None, "exe"), CleanupDecision::NotFound);
    assert_eq!(cleanup_decision(&app_probe("other", "--scheduled"), None, "exe"), CleanupDecision::NotOwned);
    assert_eq!(cleanup_decision(&app_probe("exe", "--scheduled"), None, "exe"), CleanupDecision::Delete);
    let report = cleanup_report(vec![
        ("a".to_string(), Ok(ManagedCleanupOutcome::Removed)),
        ("b".to_string(), Ok(ManagedCleanupOutcome::NotFound)),
        ("c".to_string(), Ok(ManagedCleanupOutcome::NotOwned)),
    ])
    .expect("report");
    assert_eq!((report.removed, report.not_found), (1, 1));
    assert_eq!(report.skipped, vec!["任务 [c] ownership 不匹配，已跳过".to_string()]);
    let failed = cleanup_report(vec![
        ("a".to_string(), Err("x".to_string())),
        ("b".to_string(), Err("y".to_string())),
    ]);
    assert_eq!(failed.unwrap_err(), "清理 managed 计划任务失败: [a] x; [b] y");
    assert_eq!(uninstall_message(" T ", ManagedCleanupOutcome::Removed), Ok("计划任务 [T] 已成功删除".to_string()));
    assert!(uninstall_message("T", ManagedCleanupOutcome::NotOwned).is_err());
    assert_eq!(install_message("T", "每天", &vec![]), "计划任务 [T] 已成功创建或更新（每天）");
    assert_eq!(install_message("T", "每天", &vec!["a".to_string(), "b".to_string()]), "计划任务 [T] 已成功创建或更新（每天）；a；b");
}

#[test]
fn health_reports_drift_and_structured_result() {
    let state = SchedulerState::default();
    let mut probe = app_probe(r"C:\Codex\launcher.exe", "--scheduled");
    probe.last_result = Some(1);
    probe.missed_runs = 2;
    let desired = ScheduleConfig::default();
    let summary = desired.summary().expect("summary");
    let health = task_health("Valid Task", &desired, summary, &state, &probe, r"C:\Codex\launcher.exe")
        .expect("health");
    assert!(health.installed);
    assert!(health.config_drift);
    assert_eq!(health.last_result_hex.as_deref(), Some("0x1"));
    assert!(health.warnings.iter().any(|warning| warning.contains("错过")));
}

#[test]
fn executable_paths_are_trimmed_and_unquoted() {
    assert_eq!(validate_executable_path("  C:\\a.exe "), Ok("C:\\a.exe".to_string()));
    assert!(validate_executable_path("   ").is_err());
    assert!(validate_executable_path("C:\\\"a\".exe").is_err());
}

#[test]
fn only_an_adopted_headless_task_gets_the_takeover_notice() {
    let mut probe = TaskProbe::default();
    probe.installed = true;
    probe.action_arguments = Some(" --headless ".to_string());
    assert_eq!(
        legacy_takeover_notice(true, &probe),
        Some("已接管 legacy --headless 任务并升级为 --scheduled".to_string())
    );
    assert_eq!(legacy_takeover_notice(false, &probe), None);
    probe.action_arguments = Some("--scheduled".to_string());
    assert_eq!(legacy_takeover_notice(true, &probe), None);
}

#[test]
fn code_page_text_is_read_where_output_is_not_utf8() {
    // "找不到该任务" in code page 936, which is not valid UTF-8.
    let gbk: Vec<u8> = vec![0xD5, 0xD2, 0xB2, 0xBB, 0xB5, 0xBD, 0xB8, 0xC3, 0xC8, 0xCE, 0xCE, 0xF1];
    let missing = SchedulerOutput {
        success: false,
        exit_code: Some(1),
        stdout: Vec::new(),
        stderr: gbk.clone(),
        stdout_code_page: None,
        stderr_code_page: Some("错误: 找不到该任务。".to_string()),
    };
    assert!(task_not_found(&missing));
    let unread = SchedulerOutput { stderr_code_page: None, ..missing };
    assert!(!task_not_found(&unread));
    let failed = SchedulerOutput {
        success: false,
        exit_code: Some(5),
        stdout: b"ok".to_vec(),
        stderr: gbk,
        stdout_code_page: Some("ignored".to_string()),
        stderr_code_page: Some("拒绝访问".to_string()),
    };
    assert_eq!(command_failure("删除计划任务", &failed), "删除计划任务失败 (exit code: 5): stdout=[ok] stderr=[拒绝访问]");
}

use codex_launcher::config::{
    base_url_from_fields, codex_base_url_from, codex_config_path, config_version_from,
    is_base_url_allowed, migrate_v1_schedule, stored_version_check, CodexToml, parse_base_url, select_base_url,
    split_allowed_urls, validate_task_name, AppConfig, EmailNotificationConfig,
    MAX_CONCURRENCY, MAX_TRIES_LIMIT,
};
use codex_launcher::schedule::ScheduleConfig;

fn valid_config() -> AppConfig {
    let mut config = AppConfig::default();
    config.command = "echo valid".to_string();
    config.work_dir = ".".to_string();
    config
}

#[test]
fn base_url_host_is_case_insensitive_but_path_is_case_sensitive() {
    assert!(is_base_url_allowed("HTTPS://EXAMPLE.COM/API/", "https://example.com/API")
        .expect("compare valid URLs"));
    assert!(!is_base_url_allowed("https://example.com/API", "https://EXAMPLE.com/api")
        .expect("compare valid URLs"));
}

#[test]
fn concurrency_is_bounded_to_the_supported_range() {
    let mut config = valid_config();
    for invalid in [0, MAX_CONCURRENCY + 1] {
        config.concurrency = invalid;
        assert!(config
            .validate()
            .expect_err("out-of-range concurrency must fail")
            .contains("并发线程数"));
    }
    for valid in [1, MAX_CONCURRENCY] {
        config.concurrency = valid;
        config.validate().expect("in-range concurrency is accepted");
    }
}

#[test]
fn keep_alive_interval_is_validated_for_manual_mode_too() {
    let mut config = valid_config();
    config.keep_alive = false;
    config.keep_alive_interval_minutes = 0;
    assert!(config
        .validate()
        .expect_err("zero keep-alive interval must fail")
        .contains("保活间隔"));
}

#[test]
fn validation_rejects_invalid_ranges_and_paths() {
    let mut config = valid_config();
    config.interval = 0;
    assert!(config.validate().is_err());

    config.interval = 1;
    config.max_tries = MAX_TRIES_LIMIT + 1;
    assert!(config.validate().is_err());

    config.max_tries = 1;
    config.schedule = ScheduleConfig::Daily { time: "24:00".to_string(), every_days: 1 };
    assert!(config.validate().is_err());
}

#[test]
fn directory_and_version_errors_name_the_problem() {
    let config = valid_config();
    assert_eq!(
        config.validate_with(false).expect_err("missing dir"),
        "工作目录不存在或不是目录: ."
    );
    assert!(config.validate_with(true).is_ok());
    let mut old = valid_config();
    old.config_version = 7;
    assert_eq!(old.validate_with(true).expect_err("version"), "不支持的配置版本 7，当前支持版本为 2");
    let mut empty_dir = valid_config();
    empty_dir.work_dir = "   ".to_string();
    assert_eq!(empty_dir.validate_with(true).expect_err("empty"), "工作目录不能为空");
}

#[test]
fn fresh_defaults_are_an_incomplete_draft() {
    let config = AppConfig::default();
    assert!(config.command.is_empty());
    assert_eq!(config.task_name, "CodexDailyRetry0840");
    assert_eq!(config.email.smtp_port, EmailNotificationConfig::default_port());
    assert_eq!(EmailNotificationConfig::default_port(), 465);
    assert_eq!(config.validate_with(true).expect_err("draft"), "command 不能为空");
}

#[test]
fn task_names_reject_reserved_and_control_characters() {
    assert!(validate_task_name("  Valid Task  ").is_ok());
    assert_eq!(validate_task_name("   ").expect_err("empty"), "计划任务名称不能为空");
    assert_eq!(validate_task_name(&"a".repeat(239)).expect_err("long"), "计划任务名称不能超过 238 个字符");
    assert!(validate_task_name(&"a".repeat(238)).is_ok());
    for bad in ["a<b", "a:b", "a\\b", "a/b", "a\u{7}b", "a%b", "a;b"] {
        assert_eq!(validate_task_name(bad).expect_err(bad), "计划任务名称包含不允许的字符");
    }
}

#[test]
fn allow_list_splits_on_both_semicolons() {
    assert_eq!(
        split_allowed_urls(" https://a.example ;；https://b.example/v1 ; "),
        vec!["https://a.example".to_string(), "https://b.example/v1".to_string()]
    );
    assert!(split_allowed_urls("  ").is_empty());
    assert!(is_base_url_allowed("not a url", "").expect("empty list allows all"));
}

#[test]
fn base_urls_must_be_http_with_host_and_no_credentials() {
    assert!(parse_base_url("ftp://example.com").expect_err("scheme").contains("http/https"));
    assert!(parse_base_url("https://user:pw@example.com").expect_err("creds").contains("用户名或密码"));
    assert!(parse_base_url("not a url").expect_err("parse").starts_with("base URL 无效 [not a url]: "));
    let parsed = parse_base_url(" https://example.com/v1/// ").expect("valid");
    assert_eq!(parsed.path, "/v1");
    assert_eq!(parsed.port, Some(443));
    assert!(is_base_url_allowed("https://example.com:443/v1/", "http://x.example;https://example.com/v1")
        .expect("default port matches"));
    assert!(is_base_url_allowed("https://example.com", "bad entry").is_err());
}

#[test]
fn declared_config_version_is_checked() {
    assert_eq!(config_version_from(None), Ok(1));
    assert_eq!(config_version_from(Some(Some(2))), Ok(2));
    assert_eq!(config_version_from(Some(Some(0))), Err("configVersion 不能为 0".to_string()));
    assert_eq!(config_version_from(Some(None)), Err("configVersion 必须是非负整数".to_string()));
    assert_eq!(
        config_version_from(Some(Some(u32::MAX as u64 + 1))),
        Err("configVersion 必须是非负整数".to_string())
    );
}

#[test]
fn loading_fills_directory_allow_list_and_concurrency() {
    let mut config = AppConfig::default();
    config.concurrency = 0;
    config.fill_defaults("C:\\work".to_string(), Some("https://api.example".to_string()));
    assert_eq!(config.work_dir, "C:\\work");
    assert_eq!(config.allowed_base_urls, "https://api.example");
    assert_eq!(config.concurrency, 1);
    let mut kept = valid_config();
    kept.allowed_base_urls = "https://kept.example".to_string();
    kept.fill_defaults("other".to_string(), None);
    assert_eq!(kept.work_dir, ".");
    assert_eq!(kept.allowed_base_urls, "https://kept.example");
}

#[test]
fn active_provider_url_is_selected() {
    let providers = vec![
        ("a".to_string(), "https://a.example".to_string()),
        ("b".to_string(), "https://b.example".to_string()),
    ];
    assert_eq!(select_base_url(Some("b".to_string()), &providers), Some("https://b.example".to_string()));
    assert_eq!(select_base_url(Some("c".to_string()), &providers), None);
    assert_eq!(select_base_url(None, &providers[..1].to_vec()), Some("https://a.example".to_string()));
}

#[test]
fn version_one_daily_time_becomes_a_daily_schedule() {
    match migrate_v1_schedule(Some(" 07:15 ")) {
        ScheduleConfig::Daily { time, every_days } => {
            assert_eq!(time, "07:15");
            assert_eq!(every_days, 1);
        }
        other => panic!("unexpected {other:?}"),
    }
    match migrate_v1_schedule(None) {
        ScheduleConfig::Daily { time, every_days } => {
            assert_eq!(time, "08:40");
            assert_eq!(every_days, 1);
        }
        other => panic!("unexpected {other:?}"),
    }
}

#[test]
fn codex_base_url_follows_the_active_provider() {
    let content = "model_provider = \"b\"\n\n[model_providers.a]\nbase_url = \" https://a.example/v1 \"\n\n[model_providers.b]\nbase_url = \"https://b.example\"\n";
    assert_eq!(codex_base_url_from("cfg", content), Ok(Some("https://b.example".to_string())));
    let single = "[model_providers.only]\nbase_url = \"  https://only.example  \"\nname = \"x\"\n";
    assert_eq!(codex_base_url_from("cfg", single), Ok(Some("https://only.example".to_string())));
    let ambiguous = "[model_providers.a]\nbase_url = \"https://a\"\n[model_providers.b]\nbase_url = \"https://b\"\n";
    assert_eq!(codex_base_url_from("cfg", ambiguous), Ok(None));
    assert_eq!(codex_base_url_from("cfg", "model = \"o3\"\n"), Ok(None));
    let error = codex_base_url_from("C:/cfg.toml", "model_provider = ").unwrap_err();
    assert!(error.starts_with("解析 Codex 配置失败 [C:/cfg.toml]: "), "{error}");
}

#[test]
fn codex_base_url_from_given_fields() {
    let fields = CodexToml {
        model_provider: Some("missing".to_string()),
        providers: vec![
            ("a".to_string(), None),
            ("b".to_string(), Some(" https://b ".to_string())),
        ],
    };
    assert_eq!(base_url_from_fields(&fields), Some("https://b".to_string()));
    let fields = CodexToml {
        model_provider: Some("a".to_string()),
        providers: vec![
            ("a".to_string(), Some("https://a".to_string())),
            ("b".to_string(), Some("https://b".to_string())),
        ],
    };
    assert_eq!(base_url_from_fields(&fields), Some("https://a".to_string()));
    let fields = CodexToml { model_provider: None, providers: vec![] };
    assert_eq!(base_url_from_fields(&fields), None);
}

#[test]
fn codex_config_lives_under_codex_home_or_the_home_directory() {
    let sep = std::path::MAIN_SEPARATOR;
    assert_eq!(
        codex_config_path(Some("ch".to_string()), Some("home".to_string())),
        format!("ch{sep}config.toml")
    );
    assert_eq!(
        codex_config_path(Some("  ".to_string()), Some("home".to_string())),
        format!("home{sep}.codex{sep}config.toml")
    );
    assert_eq!(codex_config_path(None, None), "config.toml");
}

#[test]
fn stored_configuration_versions_are_checked_before_reading() {
    assert_eq!(stored_version_check(1, "cfg.json"), Ok(true));
    assert_eq!(stored_version_check(2, "cfg.json"), Ok(false));
    assert_eq!(
        stored_version_check(3, "cfg.json"),
        Err("配置校验失败 [cfg.json]: 不支持的配置版本 3，当前支持版本为 2".to_string())
    );
}

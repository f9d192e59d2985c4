use codex_launcher::credentials::{CredentialStore, MemoryCredentialStore};
use codex_launcher::server_chan::{
    accept_response_chunk, build_endpoint, business_result, delivery_step, http_error, network_error, parse_business_response,
    redact_and_bound, validate_send_key, DeliveryError, DeliveryReceipt, DeliveryStep,
    MAX_SEND_KEY_BYTES,
};

const TEST_KEY: &str = "SCT_TEST_KEY_123";

#[test]
fn memory_store_round_trips_and_deletes_without_real_credentials() {
    let mut store = MemoryCredentialStore::default();
    assert_eq!(store.get_send_key().expect("read empty store"), None);

    store.set_send_key("SCT_TEST_KEY").expect("save fake key");
    assert_eq!(store.get_send_key().expect("read fake key").as_deref(), Some("SCT_TEST_KEY"));
    assert!(store.delete_send_key().expect("delete fake key"));
    assert!(!store.delete_send_key().expect("delete missing fake key"));
}

#[test]
fn memory_store_surfaces_backend_failures() {
    let mut store = MemoryCredentialStore::default();
    store.set_failure(true);
    assert!(store.get_send_key().is_err());
    assert!(store.set_send_key("SCT_TEST_KEY").is_err());
    assert!(store.delete_send_key().is_err());
}

#[test]
fn memory_store_with_key_recovers_after_failure() {
    let mut store = MemoryCredentialStore::with_send_key("K1");
    store.set_failure(true);
    assert_eq!(store.get_send_key(), Err("fake credential backend failure".to_string()));
    store.set_failure(false);
    assert_eq!(store.get_send_key(), Ok(Some("K1".to_string())));
}

#[test]
fn send_key_validation_blocks_path_and_query_injection() {
    assert_eq!(validate_send_key(TEST_KEY).expect("valid key"), TEST_KEY);
    for invalid in ["", "SCT/key", "SCT?key", "SCT.key", "含中文"] {
        assert!(validate_send_key(invalid).is_err(), "{invalid}");
    }
    assert!(validate_send_key(&"A".repeat(MAX_SEND_KEY_BYTES + 1)).is_err());
}

#[test]
fn send_key_errors_name_the_rule() {
    assert_eq!(validate_send_key("  "), Err("Server酱 SendKey 不能为空".to_string()));
    assert_eq!(validate_send_key(" ab-C_9 "), Ok("ab-C_9".to_string()));
    assert_eq!(validate_send_key(&"A".repeat(257)), Err("Server酱 SendKey 不能超过 256 bytes".to_string()));
    assert_eq!(validate_send_key("a b"), Err("Server酱 SendKey 包含不允许的字符".to_string()));
}

#[test]
fn only_timeout_rate_limit_and_server_errors_are_retryable() {
    for status in [408u16, 429, 500, 503] {
        assert!(http_error(status).retryable, "{status}");
    }
    for status in [400u16, 401, 403, 404] {
        assert!(!http_error(status).retryable, "{status}");
    }
    assert_eq!(http_error(503).message, "Server酱返回 HTTP 503");
}

#[test]
fn business_response_requires_zero_code_and_redacts_secret() {
    assert!(parse_business_response(br#"{"code":0,"message":"ok"}"#, TEST_KEY).is_ok());
    let error = parse_business_response(
        format!(r#"{{"code":40001,"message":"bad {TEST_KEY}"}}"#).as_bytes(),
        TEST_KEY,
    )
    .expect_err("business failure");
    assert!(!error.message.contains(TEST_KEY));
    assert!(error.message.contains("[REDACTED]"));
}

#[test]
fn business_answers_without_code_or_json_fail_permanently() {
    let e = parse_business_response(b"not json", TEST_KEY).expect_err("json");
    assert_eq!(e.message, "Server酱返回了无效 JSON");
    assert!(!e.retryable);
    let e = parse_business_response(br#"{"message":"x"}"#, TEST_KEY).expect_err("code");
    assert_eq!(e.message, "Server酱响应缺少业务 code");
    let e = business_result(Some((Some(7), Some(String::new()))), TEST_KEY).expect_err("empty");
    assert_eq!(e.message, "Server酱业务错误 code=7: 未提供错误详情");
}

#[test]
fn redaction_replaces_every_occurrence_and_bounds_length() {
    assert_eq!(redact_and_bound("k-k-k", "k", 100), "[REDACTED]-[REDACTED]-[REDACTED]");
    assert_eq!(redact_and_bound("abcdef", "zz", 3), "abc...");
    assert_eq!(redact_and_bound("ab", "", 100), "[REDACTED]a[REDACTED]b[REDACTED]");
}

#[test]
fn transient_failures_are_retried_once() {
    match delivery_step(1, Err(DeliveryError::transient("t".to_string()))) {
        DeliveryStep::Retry => {}
        other => panic!("unexpected {other:?}"),
    }
    match delivery_step(2, Err(DeliveryError::transient("t".to_string()))) {
        DeliveryStep::Done(Err(m)) => assert_eq!(m, "t"),
        other => panic!("unexpected {other:?}"),
    }
    match delivery_step(1, Err(DeliveryError::permanent("p".to_string()))) {
        DeliveryStep::Done(Err(m)) => assert_eq!(m, "p"),
        other => panic!("unexpected {other:?}"),
    }
    match delivery_step(2, Ok(())) {
        DeliveryStep::Done(Ok(receipt)) => assert_eq!(receipt, DeliveryReceipt { attempts: 2 }),
        other => panic!("unexpected {other:?}"),
    }
    assert!(network_error(true, false).retryable);
    assert!(!network_error(false, true).retryable);
}

#[test]
fn endpoint_is_fixed_https_origin_with_one_safe_segment() {
    let endpoint = build_endpoint("SCT_TEST_KEY_123").expect("build endpoint");
    let endpoint = url::Url::parse(&endpoint).expect("endpoint parses");
    assert_eq!(endpoint.scheme(), "https");
    assert_eq!(endpoint.host_str(), Some("sctapi.ftqq.com"));
    assert_eq!(endpoint.path(), "/SCT_TEST_KEY_123.send");
    assert!(endpoint.query().is_none());
}

#[test]
fn answers_larger_than_eight_kib_are_refused() {
    assert!(accept_response_chunk(0, 8192).is_ok());
    assert!(accept_response_chunk(4096, 4096).is_ok());
    let error = accept_response_chunk(8000, 193).expect_err("too large");
    assert!(!error.retryable);
    assert_eq!(error.message, "Server酱响应超过 8 KiB 安全上限");
}

#[test]
fn redacted_messages_never_show_a_valid_key() {
    let message = redact_and_bound("SCTSCT key=SCT_TEST_KEY_123 again SCT_TEST_KEY_123", "SCT_TEST_KEY_123", 240);
    assert!(!message.contains("SCT_TEST_KEY_123"));
    assert_eq!(message, "SCTSCT key=[REDACTED] again [REDACTED]");
    let cut = redact_and_bound(&format!("{}{}", "x".repeat(20), TEST_KEY), TEST_KEY, 25);
    assert!(!cut.contains(TEST_KEY));
    assert!(cut.ends_with("..."));
}

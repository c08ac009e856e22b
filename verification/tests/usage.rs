use codex_mcp_spawner::codec::parse_json;
use codex_mcp_spawner::json::Json;
use codex_mcp_spawner::proxy::http::headers_json;
use codex_mcp_spawner::proxy::usage::{
    ensure_column, extract_session_id, extract_session_id_from_headers, header_value, migrations,
    request_id, session_id, usage_from_chat, usage_from_chat_usage, usage_record, zero_usage,
    UsageContext,
};

fn json(text: &str) -> Json {
    parse_json(text).unwrap()
}

fn headers(pairs: &[(&str, &str)]) -> Vec<(String, String)> {
    pairs
        .iter()
        .map(|(n, v)| (n.to_string(), v.to_string()))
        .collect()
}

#[test]
fn extracts_session_id_from_headers() {
    let headers = vec![("session-id".into(), "session-header".into())];
    assert_eq!(
        extract_session_id_from_headers(&headers),
        Some("session-header".into())
    );

    let headers = vec![(
        "x-codex-turn-metadata".into(),
        r#"{"session_id":"session-meta","thread_id":"thread-meta"}"#.into(),
    )];
    assert_eq!(
        extract_session_id_from_headers(&headers),
        Some("session-meta".into())
    );
}

#[test]
fn extracts_cache_and_reasoning_usage_details() {
    let usage = json(
        r#"{
            "prompt_tokens": 100,
            "completion_tokens": 20,
            "total_tokens": 120,
            "prompt_cache_hit_tokens": 64,
            "prompt_cache_miss_tokens": 36,
            "prompt_tokens_details": {"cached_tokens": 64},
            "completion_tokens_details": {"reasoning_tokens": 15}
        }"#,
    );

    let tokens = usage_from_chat_usage(Some(&usage));

    assert_eq!(tokens.input_tokens, 100);
    assert_eq!(tokens.output_tokens, 20);
    assert_eq!(tokens.total_tokens, 120);
    assert_eq!(tokens.cached_input_tokens, 64);
    assert_eq!(tokens.cache_miss_input_tokens, 36);
    assert_eq!(tokens.reasoning_output_tokens, 15);
    assert_eq!(parse_json(&tokens.usage_json).unwrap(), usage);
    let value: serde_json::Value = serde_json::from_str(&tokens.usage_json).unwrap();
    assert_eq!(value["completion_tokens_details"]["reasoning_tokens"], 15);
}

#[test]
fn hits_and_misses_make_up_the_input() {
    let usage = json(r#"{"prompt_tokens":10,"prompt_tokens_details":{"cached_tokens":7}}"#);
    let tokens = usage_from_chat_usage(Some(&usage));
    assert_eq!(tokens.cached_input_tokens, 7);
    assert_eq!(tokens.cache_miss_input_tokens, 3);
    let odd = json(r#"{"prompt_tokens":-9223372036854775808,"prompt_cache_hit_tokens":5,"total_tokens":18446744073709551615,"completion_tokens":1.5}"#);
    let tokens = usage_from_chat_usage(Some(&odd));
    assert_eq!(tokens.cache_miss_input_tokens, i64::MIN);
    assert_eq!(tokens.total_tokens, 0);
    assert_eq!(tokens.output_tokens, 0);
    assert_eq!(usage_from_chat_usage(None), zero_usage());
    assert_eq!(usage_from_chat(&json("{}")), zero_usage());
    // A usage that is null counts nothing, and is kept as it came.
    assert_eq!(usage_from_chat_usage(Some(&Json::Null)).usage_json, "null");
}

#[test]
fn sessions() {
    assert_eq!(extract_session_id(&json("{}")), "unknown");
    assert_eq!(
        extract_session_id(&json(r#"{"metadata":{"session_id":" ","thread_id":"t","trace_id":"z"}}"#)),
        "t"
    );
    let none = headers(&[]);
    assert_eq!(extract_session_id_from_headers(&none), None);
    let bad = headers(&[("x-codex-turn-metadata", "nope")]);
    assert_eq!(extract_session_id_from_headers(&bad), None);
    let turn = headers(&[("X-Codex-Turn-Metadata", r#"{"turn_id":"u"}"#)]);
    assert_eq!(
        extract_session_id_from_headers(&turn).as_deref(),
        Some("u")
    );
    let several = headers(&[("session-id", "  "), ("Thread-Id", "t"), ("session-id", "late")]);
    // The first header of a name counts, blank or not.
    assert_eq!(
        extract_session_id_from_headers(&several).as_deref(),
        Some("t")
    );
    let req = json(r#"{"metadata":{"conversation_id":"c"}}"#);
    assert_eq!(session_id(&req, &several), "c");
    assert_eq!(session_id(&json("{}"), &several), "t");
    assert_eq!(session_id(&json("{}"), &none), "unknown");
    assert_eq!(
        session_id(&json(r#"{"metadata":{"session_id":"unknown"}}"#), &several),
        "t"
    );
}

#[test]
fn header_values() {
    let all = headers(&[("a", "1"), ("B", "2"), ("b", "3")]);
    assert_eq!(header_value(&all, "A"), Some("1"));
    assert_eq!(header_value(&all, "b"), Some("2"));
    assert_eq!(header_value(&all, "c"), None);
}

#[test]
fn request_ids() {
    assert_eq!(request_id(255, 0), "req_ff_0");
    assert_eq!(request_id(1, 43981), "req_1_abcd");
    assert_ne!(request_id(0x12, 0x3), request_id(0x1, 0x23));
    assert_eq!(request_id(u32::MAX, u64::MAX), "req_ffffffff_ffffffffffffffff");
}

#[test]
fn secrets_stay_out() {
    let with = |key: &str| {
        headers_json(&headers(&[
            ("authorization", key),
            ("x-api-key", key),
            ("api-key", key),
            ("accept", "all"),
            ("accept", "some"),
        ]))
    };
    assert_eq!(
        with("SECRET-REDACTED"),
        r#"{"accept":"some","api-key":"[redacted]","authorization":"[redacted]","x-api-key":"[redacted]"}"#
    );
    assert_eq!(with("one"), with("another"));
}

#[test]
fn records_hold_what_is_known() {
    let ctx = UsageContext {
        request_id: "req_1".into(),
        session_id: "session_a".into(),
        provider: "deepseek".into(),
        model: "deepseek-v4-pro".into(),
        stream: true,
        request_json: "{\"input\":[]}".into(),
        headers_json: "{\"x-test\":\"1\"}".into(),
    };
    let usage = json(r#"{"prompt_tokens":10,"completion_tokens":3,"total_tokens":13,"prompt_cache_hit_tokens":4,"completion_tokens_details":{"reasoning_tokens":2}}"#);
    let record = usage_record(&ctx, "completed", usage_from_chat_usage(Some(&usage)), None);
    assert_eq!(record.request_id, "req_1");
    assert_eq!(record.session_id, "session_a");
    assert_eq!(record.provider, "deepseek");
    assert_eq!(record.model, "deepseek-v4-pro");
    assert!(record.stream);
    assert_eq!(record.status, "completed");
    assert_eq!(record.input_tokens, 10);
    assert_eq!(record.output_tokens, 3);
    assert_eq!(record.total_tokens, 13);
    assert_eq!(record.cached_input_tokens, 4);
    assert_eq!(record.cache_miss_input_tokens, 6);
    assert_eq!(record.reasoning_output_tokens, 2);
    assert_eq!(record.error, None);
    assert_eq!(record.request_json, "{\"input\":[]}");
    assert_eq!(record.headers_json, "{\"x-test\":\"1\"}");
    let failed = usage_record(&ctx, "error", zero_usage(), Some("bad".into()));
    assert_eq!(failed.error.as_deref(), Some("bad"));
    assert_eq!(failed.usage_json, "");
}

#[test]
fn missing_columns_are_added_once() {
    let mut columns: Vec<String> = vec!["request_id".into(), "usage_json".into()];
    assert_eq!(
        ensure_column(&columns, "headers_json", "TEXT NOT NULL DEFAULT ''").as_deref(),
        Some("ALTER TABLE proxy_requests ADD COLUMN headers_json TEXT NOT NULL DEFAULT ''")
    );
    assert_eq!(ensure_column(&columns, "usage_json", "TEXT"), None);
    let wanted = migrations(&columns);
    let names: Vec<&str> = wanted.iter().map(|(name, _)| name.as_str()).collect();
    assert_eq!(
        names,
        vec![
            "request_json",
            "headers_json",
            "cached_input_tokens",
            "cache_miss_input_tokens",
            "reasoning_output_tokens",
        ]
    );
    columns.extend(wanted.into_iter().map(|(name, _)| name));
    assert!(migrations(&columns).is_empty());
}

use codex_mcp_spawner::codec::parse_json;
use codex_mcp_spawner::json::Json;
use codex_mcp_spawner::proxy::http::{
    is_responses_path, is_served, write_404, write_json, RequestHead,
};
use codex_mcp_spawner::proxy::session::{
    conclude, input_counts, take_in, write_stream_head, StreamSession,
};
use codex_mcp_spawner::proxy::upstream::{authorization, completions_url, status_error};
use codex_mcp_spawner::proxy::usage::UsageContext;
use codex_mcp_spawner::proxy::ProxyConfig;

fn json(text: &str) -> Json {
    parse_json(text).unwrap()
}

fn config() -> ProxyConfig {
    ProxyConfig {
        provider_name: "test".into(),
        upstream_base: "http://127.0.0.1:1".into(),
        api_key: "test-key".into(),
        model_slug: "test-model".into(),
    }
}

fn context() -> UsageContext {
    UsageContext {
        request_id: "req_1".into(),
        session_id: "s".into(),
        provider: "test".into(),
        model: "test-model".into(),
        stream: true,
        request_json: "{}".into(),
        headers_json: "{}".into(),
    }
}

#[test]
fn request_heads() {
    assert!(RequestHead::start("GET\r\n").is_none());
    let mut head = RequestHead::start(" POST  /v1/responses HTTP/1.1\r\n").unwrap();
    assert_eq!(head.method, "POST");
    assert_eq!(head.path, "/v1/responses");
    assert!(head.push_line("Content-Length:  12 \r\n"));
    assert!(head.push_line("X-Thing: a:b\r\n"));
    assert!(head.push_line("no header\r\n"));
    assert_eq!(head.content_length, 12);
    assert!(head.push_line("content-length: many\r\n"));
    assert_eq!(head.content_length, 0);
    assert!(head.push_line("CONTENT-LENGTH: +7\r\n"));
    assert_eq!(head.content_length, 7);
    assert!(!head.push_line("\r\n"));
    assert!(!head.push_line(""));
    assert_eq!(head.headers.len(), 4);
    assert_eq!(head.headers[1], ("x-thing".to_string(), "a:b".to_string()));
    assert!(head.push_line("content-length: 99999999999999999999999\r\n"));
    assert_eq!(head.content_length, 0);
}

#[test]
fn routes() {
    assert!(is_responses_path("/v1/responses"));
    assert!(is_responses_path("/responses"));
    assert!(!is_responses_path("/v1/models"));
    assert!(is_served("POST", "/responses"));
    assert!(!is_served("GET", "/responses"));
    assert!(!is_served("POST", "/"));
}

#[test]
fn replies() {
    assert_eq!(
        write_404(),
        "HTTP/1.1 404 OK\r\nContent-Type: application/json\r\nContent-Length: 21\r\n\r\n{\"error\":\"not_found\"}"
    );
    assert!(write_json(200, "é").contains("Content-Length: 2\r\n\r\né"));
    assert_eq!(
        write_stream_head(),
        "HTTP/1.1 200 OK\r\nContent-Type: text/event-stream\r\n\r\n"
    );
}

#[test]
fn urls() {
    for (base, expected) in [
        ("http://h", "http://h/v1/chat/completions"),
        ("http://h//", "http://h/v1/chat/completions"),
        ("http://h/v1/", "http://h/v1/chat/completions"),
        ("http://h/v1/x", "http://h/v1/x/chat/completions"),
        (
            "https://open.bigmodel.cn/api/coding/paas/v4",
            "https://open.bigmodel.cn/api/coding/paas/v4/chat/completions",
        ),
        ("https://api.example.com/v2", "https://api.example.com/v2/chat/completions"),
        ("http://h/v10", "http://h/v10/chat/completions"),
        ("http://h/api/v3/openai/", "http://h/api/v3/openai/chat/completions"),
        ("http://h/v", "http://h/v/v1/chat/completions"),
        ("http://h/v1beta", "http://h/v1beta/v1/chat/completions"),
        ("http://h/dev2", "http://h/dev2/v1/chat/completions"),
        ("http://h/v/1", "http://h/v/1/v1/chat/completions"),
        ("", "/v1/chat/completions"),
    ] {
        assert_eq!(completions_url(base), expected);
    }
    assert_eq!(authorization("k"), "Bearer k");
    assert_eq!(
        status_error("404 Not Found", "gone"),
        "upstream HTTP 404 Not Found: gone"
    );
    assert_eq!(
        status_error("500", &"x".repeat(900)),
        format!("upstream HTTP 500: {}...", "x".repeat(800))
    );
}

#[test]
fn requests_are_taken_in() {
    let headers = vec![
        ("authorization".to_string(), "Bearer x".to_string()),
        ("session-id".to_string(), "s1".to_string()),
    ];
    let body = br#"{"input":[{"role":"user","content":"say hello"}],"stream":true}"#;
    let intake = match take_in("req_0".into(), &headers, body, &config()) {
        Ok(intake) => intake,
        Err(reply) => panic!("{reply}"),
    };
    assert_eq!(intake.ctx.request_id, "req_0");
    assert_eq!(intake.ctx.session_id, "s1");
    assert_eq!(intake.ctx.provider, "test");
    assert_eq!(intake.ctx.model, "test-model");
    assert!(intake.ctx.stream);
    assert_eq!(intake.ctx.request_json.as_bytes(), body);
    assert_eq!(
        intake.ctx.headers_json,
        r#"{"authorization":"[redacted]","session-id":"s1"}"#
    );
    assert_eq!(intake.chat.text("model"), Some("test-model"));
    assert_eq!((intake.input_items, intake.user_turns), (1, 1));
    let refused = match take_in("req_0".into(), &headers, b"{", &config()) {
        Ok(_) => panic!("taken in"),
        Err(reply) => reply,
    };
    assert!(refused.starts_with("HTTP/1.1 400 OK\r\n"));
    assert!(refused.ends_with("{\"error\":\"bad json\"}"));
}

#[test]
fn inputs_are_counted() {
    for (req, expected) in [
        ("{}", (0, 0)),
        (r#"{"input":"hello"}"#, (0, 0)),
        (r#"{"input":[{"role":"user"},{"role":"assistant"},7,{"role":"user"},{"role":1}]}"#, (5, 2)),
    ] {
        assert_eq!(input_counts(&json(req)), expected);
    }
}

#[test]
fn complete_answers_are_concluded() {
    let chat = json(r#"{"model":"m"}"#);
    let done = conclude(
        &context(),
        &chat,
        Ok(r#"{"choices":[{"message":{"content":"hi"}}],"usage":{"total_tokens":6}}"#.to_string()),
    );
    assert!(done.reply.starts_with("HTTP/1.1 200 OK\r\n"));
    assert!(done.reply.contains("\"text\":\"hi\""));
    assert!(done.reply.contains("\"model\":\"m\""));
    assert_eq!(done.record.status, "completed");
    assert_eq!(done.record.total_tokens, 6);
    assert_eq!(done.record.error, None);
    let bad = conclude(&context(), &chat, Ok("<html>".to_string()));
    assert!(bad.reply.ends_with("{\"error\":\"bad upstream\"}"));
    assert_eq!(bad.record.error.as_deref(), Some("bad upstream"));
    let failed = conclude(&context(), &chat, Err("no \"route\"".to_string()));
    assert!(failed.reply.starts_with("HTTP/1.1 502 OK\r\n"));
    assert!(failed.reply.ends_with("{\"error\":\"no \\\"route\\\"\"}"));
    assert_eq!(failed.record.status, "error");
    assert_eq!(failed.record.error.as_deref(), Some("no \"route\""));
}

#[test]
fn streams_are_handed_on_as_they_come() {
    let ctx = context();
    let chat = json(r#"{"model":"t"}"#);
    let mut session = StreamSession::open_stream(&ctx, &chat);
    let opening = session.initial_events().join("");
    assert!(opening.contains("response.created"));
    assert!(opening.contains("\"model\":\"t\""));
    let first = session.on_bytes(
        b"data: {\"id\":\"c1\",\"choices\":[{\"index\":0,\"delta\":{\"content\":\"hi\"},\"finish_reason\":null}]}\n\n",
    );
    let response = first.output.join("");
    assert!(response.contains("response.output_text.delta"), "{response}");
    assert!(response.contains("\"delta\":\"hi\""), "{response}");
    assert!(!response.contains("response.completed"), "{response}");
    assert!(first.record.is_none());
    let last = session.on_text(
        "data: {\"choices\":[{\"delta\":{},\"finish_reason\":\"stop\"}],\"usage\":{\"prompt_tokens\":5,\"completion_tokens\":1,\"total_tokens\":6}}\n\ndata: [DONE]\n\n",
    );
    assert!(last.output.join("").contains("\"total_tokens\":6"));
    let record = last.record.unwrap();
    assert_eq!(record.status, "completed");
    assert_eq!(record.input_tokens, 5);
    assert!(record.stream);
}

#[test]
fn streams_that_fail_say_so() {
    let ctx = context();
    let chat = json("{}");
    let mut session = StreamSession::open_stream(&ctx, &chat);
    let turn = session.on_text("data: nonsense\n\n");
    assert_eq!(turn.output.len(), 1);
    assert!(turn.output[0].starts_with("event: error\ndata: {\"error\":{\"message\":\"invalid chat SSE JSON"));
    assert_eq!(turn.record.unwrap().status, "error");
    let mut session = StreamSession::open_stream(&ctx, &chat);
    let turn = session.on_end();
    assert_eq!(
        turn.record.unwrap().error.as_deref(),
        Some("upstream stream contained no valid chat completion chunks")
    );
    let turn = session.on_failure("reset");
    assert_eq!(
        turn.output,
        vec!["event: error\ndata: {\"error\":{\"message\":\"reset\"},\"type\":\"error\"}\n\n".to_string()]
    );
    // Each chunk of bytes is decoded for itself.
    let mut session = StreamSession::open_stream(&ctx, &chat);
    session.on_bytes(b"data: {\"choices\":[{\"delta\":{\"content\":\"\xc3");
    let turn = session.on_bytes(b"\xa9\"}}]}\n\n");
    assert!(turn.output.join("").contains("\"delta\":\"\u{fffd}\u{fffd}\""));
    let turn = session.on_end();
    assert_eq!(turn.record.unwrap().status, "completed");
}

use codex_mcp_spawner::codec::parse_json;
use codex_mcp_spawner::json::Json;
use codex_mcp_spawner::proxy::reply::{
    chat_completion_to_response, chat_tool_call_to_response_item,
};
use codex_mcp_spawner::proxy::request::build_tool_call;
use codex_mcp_spawner::proxy::tools::{
    chat_tool_name, clip, parse_arguments_object, split_chat_tool_name,
};

fn json(text: &str) -> Json {
    parse_json(text).unwrap()
}

#[test]
fn chat_completion_response_includes_nonstream_tool_calls() {
    let chat = json(
        r#"{
            "id": "chatcmpl_1",
            "model": "deepseek-v4-pro",
            "choices": [{
                "message": {
                    "role": "assistant",
                    "tool_calls": [{
                        "id": "call_echo",
                        "type": "function",
                        "function": {
                            "name": "mcp__test_echo__echo",
                            "arguments": "{\"message\":\"hi\"}"
                        }
                    }]
                }
            }],
            "usage": {
                "prompt_tokens": 10,
                "completion_tokens": 3,
                "total_tokens": 13,
                "prompt_cache_hit_tokens": 4,
                "prompt_cache_miss_tokens": 6,
                "completion_tokens_details": {"reasoning_tokens": 2}
            }
        }"#,
    );

    let response = chat_completion_to_response(&chat, "deepseek-v4-pro", None);

    let output = response.get("output").unwrap().as_array().unwrap();
    assert_eq!(output[0].text("type"), Some("function_call"));
    assert_eq!(output[0].text("namespace"), Some("mcp__test_echo"));
    assert_eq!(output[0].text("name"), Some("echo"));
    assert_eq!(output[0].text("arguments"), Some("{\"message\":\"hi\"}"));
    let usage = response.get("usage").unwrap();
    assert_eq!(
        usage.get2("input_tokens_details", "cached_tokens").unwrap().as_i64(),
        Some(4)
    );
    assert_eq!(
        usage.get2("input_tokens_details", "cache_miss_tokens").unwrap().as_i64(),
        Some(6)
    );
    assert_eq!(
        usage.get2("output_tokens_details", "reasoning_tokens").unwrap().as_i64(),
        Some(2)
    );
}

#[test]
fn a_complete_answer_has_reasoning_message_and_calls_in_order() {
    let chat = json(
        r#"{"choices":[{"message":{"content":"hi","reasoning_content":"hm","tool_calls":[
            {"id":"a","function":{"name":"tool_search","arguments":"no json"}},
            {"id":"b","function":{"name":"plain"}}]}}]}"#,
    );
    let response = chat_completion_to_response(&chat, "fallback", None);
    assert_eq!(response.text("model"), Some("fallback"));
    assert!(response.get("id").unwrap().is_null());
    let output = response.get("output").unwrap().as_array().unwrap();
    assert_eq!(output.len(), 4);
    assert_eq!(output[0].text("id"), Some("rs_1"));
    assert_eq!(output[1].text("id"), Some("msg_1"));
    assert_eq!(output[2].text("type"), Some("tool_search_call"));
    assert!(output[2].get("arguments").unwrap().is_object());
    assert_eq!(output[3].text("id"), Some("fc_b"));
    assert_eq!(output[3].get("namespace"), None);
    // An empty completion is an empty answer.
    let nothing = chat_completion_to_response(&json("{}"), "m", None);
    assert!(nothing.get("output").unwrap().as_array().unwrap().is_empty());
}

#[test]
fn custom_calls_in_a_complete_answer() {
    let call = json(r#"{"id":"x","function":{"name":"patch","arguments":"{\"input\":\"go\"}"}}"#);
    let item = chat_tool_call_to_response_item(&call, &vec!["patch".to_string()]);
    assert_eq!(item.text("id"), Some("ctc_x"));
    assert_eq!(item.text("type"), Some("custom_tool_call"));
    assert_eq!(item.text("input"), Some("go"));
}

#[test]
fn calls_come_back() {
    let item = json(
        r#"{"call_id":"c","name":"_hidden","namespace":"mcp__srv","arguments":"{\"a\":[1]}"}"#,
    );
    let back = chat_tool_call_to_response_item(&build_tool_call(&item, false), &Vec::new());
    for key in ["call_id", "name", "namespace", "arguments"] {
        assert_eq!(back.text(key), item.text(key), "{key}");
    }
}

#[test]
fn names_and_namespaces() {
    let split = |full: &str| {
        let (namespace, name) = split_chat_tool_name(full);
        (namespace.unwrap_or_default(), name)
    };
    let pair = |a: &str, b: &str| (a.to_string(), b.to_string());
    assert_eq!(split("plain"), pair("", "plain"));
    assert_eq!(split("mcp__x__y"), pair("mcp__x", "y"));
    assert_eq!(split("mcp__x___y"), pair("mcp__x", "_y"));
    assert_eq!(split("__y"), pair("", "__y"));
    assert_eq!(split("x__"), pair("", "x__"));
    assert_eq!(split("x____"), pair("", "x____"));
    assert_eq!(split("a____b"), pair("a_", "_b"));
    assert_eq!(chat_tool_name("y", Some("x")), "x__y");
    assert_eq!(chat_tool_name("y", None), "y");
    for (ns, name) in [("mcp__x", "y"), ("a_b", "_c"), ("n", "with_one"), ("___", "")] {
        let whole = chat_tool_name(name, Some(ns));
        let restored = split(&whole) == pair(ns, name);
        assert_eq!(restored, !name.is_empty(), "{ns} {name}");
    }
    // What cannot be told apart does not come back.
    assert_ne!(split(&chat_tool_name("a__b", Some("x"))), pair("x", "a__b"));
}

#[test]
fn clipping() {
    assert_eq!(clip("short", 5), "short");
    assert_eq!(clip("longer", 5), "longe...");
    assert_eq!(clip("aéb", 2), "a...");
    assert_eq!(clip("é", 0), "...");
    assert_eq!(clip("", 0), "");
}

#[test]
fn arguments_that_are_no_object() {
    assert_eq!(parse_arguments_object("[1]"), Json::object());
    assert_eq!(parse_arguments_object("nope"), Json::object());
    assert_eq!(
        parse_arguments_object("{\"a\":2}").get("a").unwrap().as_i64(),
        Some(2)
    );
}

use codex_mcp_spawner::codec::{parse_json, to_json_text};
use codex_mcp_spawner::json::Json;
use codex_mcp_spawner::proxy::content::{flatten_content, output_text};
use codex_mcp_spawner::proxy::request::{
    append_reasoning, backfill_tool_call_reasoning, build_tool_call, collapse_system_messages,
    normalize_role, reasoning_requested, responses_to_chat,
};
use codex_mcp_spawner::proxy::tools::{custom_tool_input, custom_tool_names};
use codex_mcp_spawner::proxy::toolset::{convert_tool_choice, convert_tools};

fn json(text: &str) -> Json {
    parse_json(text).unwrap()
}

fn messages(chat: &Json) -> &Vec<Json> {
    chat.get("messages").unwrap().as_array().unwrap()
}

fn chat_of(items: &str) -> Json {
    responses_to_chat(&json(&format!("{{\"input\":{items}}}")), "m")
}

#[test]
fn responses_to_chat_basic() {
    let req = json(
        r#"{
            "model": "glm-5.2",
            "input": [{"role": "user", "content": "hello"}],
            "stream": true,
            "max_output_tokens": 4096
        }"#,
    );
    let chat = responses_to_chat(&req, "glm-5.2");
    assert_eq!(chat.text("model"), Some("glm-5.2"));
    assert_eq!(messages(&chat)[0].text("role"), Some("user"));
    assert_eq!(messages(&chat)[0].text("content"), Some("hello"));
    assert_eq!(chat.get("stream").unwrap().as_bool(), Some(true));
    assert_eq!(chat.get("max_tokens").unwrap().as_i64(), Some(4096));
    assert_eq!(
        chat.get2("stream_options", "include_usage").unwrap().as_bool(),
        Some(true)
    );
}

#[test]
fn reasoning_item_attached_to_next_assistant() {
    let req = json(
        r#"{
            "model": "deepseek-v4-pro",
            "input": [
                {"role": "user", "content": "solve 2+2"},
                {"type": "reasoning", "summary": [{"type": "summary_text", "text": "2+2=4"}]},
                {"type": "message", "role": "assistant", "content": "4"},
                {"role": "user", "content": "and 3+3?"}
            ]
        }"#,
    );
    let chat = responses_to_chat(&req, "deepseek-v4-pro");
    let msgs = messages(&chat);
    let assistant = &msgs[1];
    assert_eq!(assistant.text("role"), Some("assistant"));
    assert_eq!(assistant.text("reasoning_content"), Some("2+2=4"));
    let user2 = &msgs[2];
    assert_eq!(user2.text("role"), Some("user"));
    assert_eq!(user2.text("content"), Some("and 3+3?"));
}

#[test]
fn developer_role_maps_to_system() {
    let req = json(
        r#"{
            "model": "deepseek-v4-pro",
            "input": [
                {"role": "developer", "content": "be helpful"},
                {"role": "user", "content": "hi"}
            ]
        }"#,
    );
    let chat = responses_to_chat(&req, "deepseek-v4-pro");
    let msgs = messages(&chat);
    assert_eq!(msgs[0].text("role"), Some("system"));
    assert_eq!(msgs[0].text("content"), Some("be helpful"));
}

#[test]
fn null_content_becomes_empty_string() {
    let req = json(
        r#"{
            "model": "deepseek-v4-pro",
            "input": [
                {"role": "user"},
                {"role": "user", "content": "hi"}
            ]
        }"#,
    );
    let chat = responses_to_chat(&req, "deepseek-v4-pro");
    let msgs = messages(&chat);
    assert_eq!(msgs[0].text("content"), Some(""));
    assert_eq!(msgs[1].text("content"), Some("hi"));
}

#[test]
fn calls_are_gathered_and_results_follow() {
    let chat = chat_of(
        r#"[
            {"type":"reasoning","summary":"why"},
            {"type":"function_call","call_id":"a","name":"f","namespace":"mcp__x","arguments":"{}"},
            {"type":"custom_tool_call","id":"b","name":"g","input":"raw"},
            {"type":"function_call_output","call_id":"a","output":[{"text":"1"},{"no":1},{"text":"2"}]},
            {"type":"custom_tool_call_output","call_id":"b","output":{"k":1}},
            {"type":"function_call","call_id":"c","name":"h","arguments":{"n":1}}
        ]"#,
    );
    let msgs = messages(&chat);
    assert_eq!(msgs.len(), 4);
    let calls = msgs[0].get("tool_calls").unwrap().as_array().unwrap();
    assert_eq!(calls.len(), 2);
    assert_eq!(calls[0].text("id"), Some("a"));
    assert_eq!(
        calls[0].get("function").unwrap().text("name"),
        Some("mcp__x__f")
    );
    assert_eq!(calls[1].text("id"), Some("b"));
    assert_eq!(
        calls[1].get("function").unwrap().text("arguments"),
        Some("{\"input\":\"raw\"}")
    );
    assert_eq!(msgs[0].text("reasoning_content"), Some("why"));
    assert!(msgs[0].get("content").unwrap().is_null());
    assert_eq!(msgs[1].text("tool_call_id"), Some("a"));
    assert_eq!(msgs[1].text("content"), Some("1\n2"));
    assert_eq!(msgs[2].text("content"), Some("{\"k\":1}"));
    // A call without a reason gets one.
    assert_eq!(msgs[3].text("reasoning_content"), Some("tool call"));
    let last = msgs[3].get("tool_calls").unwrap().as_array().unwrap();
    assert_eq!(
        last[0].get("function").unwrap().text("arguments"),
        Some("{\"n\":1}")
    );
}

#[test]
fn late_reasoning_goes_to_the_last_answer() {
    let chat = chat_of(
        r#"[
            {"role":"assistant","content":"4","reasoning_content":"first"},
            {"type":"reasoning","text":" second "},
            {"role":"user","content":"ok"},
            {"type":"reasoning","text":"third"},
            {"role":"user","content":"again"},
            {"role":"assistant","content":"5"}
        ]"#,
    );
    let msgs = messages(&chat);
    assert_eq!(
        msgs[0].text("reasoning_content"),
        Some("first\n\nsecond")
    );
    // A word of the user drops what waits.
    assert_eq!(msgs[3].get("reasoning_content"), None);
}

#[test]
fn items_without_role_and_content_are_left_out() {
    let chat = chat_of(r#"[{"type":"web_search_call"},{"type":"x","content":"kept"}]"#);
    assert_eq!(messages(&chat).len(), 1);
    assert_eq!(messages(&chat)[0].text("role"), Some("user"));
    assert_eq!(messages(&responses_to_chat(&json("{}"), "m")).len(), 0);
}

#[test]
fn system_messages_become_one() {
    let req = json(
        r#"{"instructions":" be brief ","input":[
            {"role":"system","content":"and kind"},
            {"role":"developer","content":"  "},
            {"role":"user","content":"hi"},
            {"role":"system","content":"later"}]}"#,
    );
    let chat = responses_to_chat(&req, "m");
    let msgs = messages(&chat);
    assert_eq!(msgs.len(), 3);
    assert_eq!(msgs[0].text("content"), Some("be brief\n\nand kind"));
    assert_eq!(msgs[2].text("role"), Some("system"));
    let again = collapse_system_messages(msgs.clone());
    assert_eq!(&again, msgs);
}

#[test]
fn reasons_are_filled_in_once() {
    let mut msgs = vec![
        json(r#"{"role":"assistant","tool_calls":[{}],"reasoning_content":"  "}"#),
        json(r#"{"role":"assistant","tool_calls":[]}"#),
        json(r#"{"role":"user","tool_calls":[{}]}"#),
        json(r#"{"role":"assistant","tool_calls":[{}],"reasoning_content":"said"}"#),
    ];
    backfill_tool_call_reasoning(&mut msgs);
    assert_eq!(msgs[0].text("reasoning_content"), Some("tool call"));
    assert_eq!(msgs[1].get("reasoning_content"), None);
    assert_eq!(msgs[2].get("reasoning_content"), None);
    assert_eq!(msgs[3].text("reasoning_content"), Some("said"));
    let once = msgs.clone();
    backfill_tool_call_reasoning(&mut msgs);
    assert_eq!(msgs, once);
}

#[test]
fn roles() {
    for (role, expected) in [
        ("system", "system"),
        ("developer", "system"),
        ("assistant", "assistant"),
        ("tool", "tool"),
        ("user", "user"),
        ("latest_reminder", "user"),
        ("whoever", "user"),
    ] {
        assert_eq!(normalize_role(role), expected);
        assert_eq!(normalize_role(normalize_role(role)), expected);
    }
}

#[test]
fn reasoning_is_appended_with_a_blank_line() {
    let mut pending = None;
    append_reasoning(&mut pending, None);
    append_reasoning(&mut pending, Some("  ".to_string()));
    assert_eq!(pending, None);
    append_reasoning(&mut pending, Some(" a ".to_string()));
    append_reasoning(&mut pending, Some("b".to_string()));
    assert_eq!(pending.as_deref(), Some("a\n\nb"));
    let mut empty = Some(String::new());
    append_reasoning(&mut empty, Some("c".to_string()));
    assert_eq!(empty.as_deref(), Some("c"));
}

#[test]
fn contents() {
    let flat = |text: &str| to_json_text(&flatten_content(json(text)));
    assert_eq!(flat("null"), "\"\"");
    assert_eq!(flat("\"x\""), "\"x\"");
    assert_eq!(flat("7"), "7");
    assert_eq!(
        flat(r#"[{"type":"input_text","text":"a"},{"type":"refusal","refusal":"b"},{"type":"text","text":""},{"type":"odd","text":"z"}]"#),
        "\"a\\nb\""
    );
    assert_eq!(
        flat(r#"[{"type":"output_text","text":"a"},{"type":"input_image","image_url":"u"}]"#),
        r#"[{"text":"a","type":"text"},{"image_url":{"url":"u"},"type":"image_url"}]"#
    );
    assert_eq!(
        flat(r#"[{"type":"input_image","image_url":{"url":"u","detail":"low"}}]"#),
        r#"[{"image_url":{"detail":"low","url":"u"},"type":"image_url"}]"#
    );
    assert_eq!(
        flat(r#"[{"type":"input_file","file_id":"f","other":1},{"type":"input_audio","input_audio":{"a":1}}]"#),
        r#"[{"file":{"file_id":"f"},"type":"file"},{"input_audio":{"a":1},"type":"input_audio"}]"#
    );
    assert_eq!(flat(r#"[{"type":"input_file"}]"#), "\"\"");
    assert_eq!(output_text(&json("null")), "null");
    assert_eq!(output_text(&json("\"s\"")), "s");
}

#[test]
fn tools() {
    let tools = json(
        r#"[
            {"type":"function","name":" f ","description":"d","parameters":{"type":"object"},"strict":true},
            {"type":"function","function":{"name":"g","strict":false},"strict":true},
            {"type":"function","name":"  "},
            {"type":"function","name":"bad","function":3},
            {"type":"custom","name":"patch","format":"grammar"},
            {"type":"tool_search"},
            {"type":"namespace","name":"mcp__x","tools":[{"name":"h"},{"nothing":1}]},
            {"type":"web_search"}
        ]"#,
    );
    let converted = convert_tools(Some(&tools));
    assert_eq!(converted.len(), 5);
    assert_eq!(
        to_json_text(&converted[0]),
        r#"{"function":{"description":"d","name":"f","parameters":{"type":"object"},"strict":true},"type":"function"}"#
    );
    assert_eq!(
        to_json_text(&converted[1]),
        r#"{"function":{"name":"g","strict":false},"type":"function"}"#
    );
    assert_eq!(
        converted[2].get("function").unwrap().text("description"),
        Some(r#"Original custom tool definition: {"format":"grammar","name":"patch","type":"custom"}"#)
    );
    assert_eq!(
        converted[3].get("function").unwrap().text("name"),
        Some("tool_search")
    );
    assert_eq!(
        to_json_text(&converted[4]),
        r#"{"function":{"description":null,"name":"mcp__x__h","parameters":{}},"type":"function"}"#
    );
    // What was a custom tool is known as one.
    let names = custom_tool_names(Some(&Json::Array(converted)));
    assert_eq!(names, vec!["patch".to_string()]);
}

#[test]
fn declared_custom_tools_come_back() {
    let req = json(r#"{"tools":[{"type":"custom","name":"patch"}],"tool_choice":{"type":"custom","name":"patch"}}"#);
    let chat = responses_to_chat(&req, "m");
    assert_eq!(
        custom_tool_names(chat.get("tools")),
        vec!["patch".to_string()]
    );
    assert_eq!(
        to_json_text(chat.get("tool_choice").unwrap()),
        r#"{"function":{"name":"patch"},"type":"function"}"#
    );
    // Without tools there is no choice either.
    let req = json(r#"{"tools":[],"tool_choice":"auto"}"#);
    assert_eq!(responses_to_chat(&req, "m").get("tool_choice"), None);
}

#[test]
fn tool_choices() {
    let choice = |text: &str| convert_tool_choice(Some(&json(text))).map(|c| to_json_text(&c));
    assert_eq!(choice("\"auto\"").as_deref(), Some("\"auto\""));
    assert_eq!(
        choice(r#"{"type":"tool_search"}"#).as_deref(),
        Some(r#"{"function":{"name":"tool_search"},"type":"function"}"#)
    );
    assert_eq!(
        choice(r#"{"type":"function"}"#).as_deref(),
        Some(r#"{"function":{"name":""},"type":"function"}"#)
    );
    assert_eq!(choice(r#"{"type":"other"}"#), None);
    assert_eq!(choice("1"), None);
    assert_eq!(convert_tool_choice(None), None);
}

#[test]
fn reasoning_requests() {
    let asked = |text: &str| reasoning_requested(&json(text));
    assert_eq!(asked("{}"), None);
    assert_eq!(asked(r#"{"reasoning":null}"#), Some(false));
    assert_eq!(asked(r#"{"reasoning":{}}"#), Some(true));
    assert_eq!(asked(r#"{"reasoning":{"effort":" None "}}"#), Some(false));
    assert_eq!(asked(r#"{"reasoning":{"effort":"off"}}"#), Some(false));
    assert_eq!(asked(r#"{"reasoning":{"effort":"DISABLED"}}"#), Some(false));
    assert_eq!(asked(r#"{"reasoning":{"effort":"high"}}"#), Some(true));
    let chat = responses_to_chat(&json(r#"{"reasoning":{"effort":"off"},"top_p":0.5}"#), "m");
    assert_eq!(chat.get("thinking").unwrap().text("type"), Some("disabled"));
    assert_eq!(to_json_text(chat.get("top_p").unwrap()), "0.5");
}

#[test]
fn custom_tool_input_comes_back() {
    for input in ["", "plain", "{\"a\":1}", "quote \" and \\ and \n and é"] {
        let item = Json::object()
            .with_text("name", "patch")
            .with_text("input", input);
        let call = build_tool_call(&item, true);
        let arguments = call.get("function").unwrap().text("arguments").unwrap();
        assert_eq!(custom_tool_input(arguments), input);
    }
    for input in ["null", "-7", "[1,{\"a\":[]}]", "{\"a\":{\"b\":true},\"c\":\"\"}"] {
        let item = Json::object().with_text("name", "patch").with("input", json(input));
        let call = build_tool_call(&item, true);
        let arguments = call.get("function").unwrap().text("arguments").unwrap();
        assert_eq!(custom_tool_input(arguments), input);
    }
    assert_eq!(custom_tool_input("  "), "");
    assert_eq!(custom_tool_input("not json"), "not json");
    assert_eq!(custom_tool_input("{\"x\":1}"), "{\"x\":1}");
    assert_eq!(custom_tool_input("{\"input\":{\"x\":1}}"), "{\"x\":1}");
}

use codex_mcp_spawner::codec::{parse_json, to_json_text};
use codex_mcp_spawner::json::Json;
use codex_mcp_spawner::proxy::converter::{
    chat_sse_error_message, chat_sse_to_responses_events, chat_sse_to_responses_events_with_tools,
    meaningful_error, ChatSseConverter,
};
use codex_mcp_spawner::proxy::sse::{parse_sse_block, pop_sse_block, sse, sse_blocks, sse_error};

fn json(text: &str) -> Json {
    parse_json(text).unwrap()
}

/// The payloads of the events of this name.
fn payloads(events: &[String], name: &str) -> Vec<Json> {
    let head = format!("event: {name}\ndata: ");
    events
        .iter()
        .filter(|e| e.starts_with(&head))
        .map(|e| json(e[head.len()..].trim_end()))
        .collect()
}

fn names(events: &[String]) -> Vec<String> {
    events
        .iter()
        .map(|e| e.lines().next().unwrap()["event: ".len()..].to_string())
        .collect()
}

fn deltas(events: &[String], name: &str) -> String {
    payloads(events, name)
        .iter()
        .map(|p| p.text("delta").unwrap().to_string())
        .collect()
}

#[test]
fn chat_sse_valid_stream_completes_with_output() {
    let events = chat_sse_to_responses_events(
        "resp_1",
        "glm-5.2",
        "data: {\"id\":\"c1\",\"model\":\"glm-5.2\",\"choices\":[{\"index\":0,\"delta\":{\"content\":\"ok\"},\"finish_reason\":null}]}\n\n\
         data: {\"id\":\"c1\",\"model\":\"glm-5.2\",\"choices\":[{\"index\":0,\"delta\":{},\"finish_reason\":\"stop\"}],\"usage\":{\"prompt_tokens\":10,\"completion_tokens\":4,\"total_tokens\":14,\"prompt_tokens_details\":{\"cached_tokens\":7},\"completion_tokens_details\":{\"reasoning_tokens\":3}}}\n\n\
         data: [DONE]\n\n",
    )
    .unwrap();
    let joined = events.join("");
    assert!(joined.contains("response.output_text.delta"));
    assert!(joined.contains("\"delta\":\"ok\""));
    assert!(joined.contains("response.completed"));
    assert!(joined.contains("\"total_tokens\":14"));
    assert!(joined.contains("\"cached_tokens\":7"));
    assert!(joined.contains("\"cache_miss_tokens\":3"));
    assert!(joined.contains("\"reasoning_tokens\":3"));
}

#[test]
fn chat_sse_tool_call_arguments_before_id_and_name_are_not_dropped() {
    let chunk1 = json(
        r#"{"id": "c1", "model": "glm-5.2",
            "choices": [{"index": 0,
                "delta": {"tool_calls": [{"index": 0, "type": "function",
                    "function": {"arguments": "{\"cmd\":"}}]},
                "finish_reason": null}]}"#,
    );
    let chunk2 = json(
        r#"{"id": "c1", "model": "glm-5.2",
            "choices": [{"index": 0,
                "delta": {"tool_calls": [{"index": 0, "id": "call_1", "type": "function",
                    "function": {"name": "functions__exec_command", "arguments": "\"pwd\"}"}}]},
                "finish_reason": "tool_calls"}],
            "usage": {"prompt_tokens": 1, "completion_tokens": 1, "total_tokens": 2}}"#,
    );
    let stream = format!(
        "data: {}

data: {}

data: [DONE]

",
        to_json_text(&chunk1),
        to_json_text(&chunk2)
    );
    let events = chat_sse_to_responses_events("resp_1", "glm-5.2", &stream).unwrap();
    let joined = events.join("");
    assert!(joined.contains("response.output_item.added"));
    assert!(joined.contains("response.function_call_arguments.delta"));
    assert!(joined.contains("response.output_item.done"));
    assert!(joined.contains("response.completed"));
    assert_eq!(
        deltas(&events, "response.function_call_arguments.delta"),
        "{\"cmd\":\"pwd\"}"
    );
}

#[test]
fn chat_sse_restores_mcp_namespace_tool_call() {
    let chunk = json(
        r#"{"id": "c1", "model": "glm-5.2",
            "choices": [{"index": 0,
                "delta": {"tool_calls": [{"index": 0, "id": "call_echo", "type": "function",
                    "function": {"name": "mcp__test_echo__echo", "arguments": "{\"message\":\"hi\"}"}}]},
                "finish_reason": "tool_calls"}],
            "usage": {"prompt_tokens": 1, "completion_tokens": 1, "total_tokens": 2}}"#,
    );
    let stream = format!("data: {}\n\ndata: [DONE]\n\n", to_json_text(&chunk));

    let events = chat_sse_to_responses_events("resp_1", "glm-5.2", &stream).unwrap();
    let joined = events.join("");

    assert!(
        joined.contains("\"namespace\":\"mcp__test_echo\""),
        "{joined}"
    );
    assert!(joined.contains("\"name\":\"echo\""), "{joined}");
}

const ANSWER: &str = "data: {\"choices\":[{\"delta\":{\"reasoning_content\":\"think \"}}]}\n\n\
    data: {\"choices\":[{\"delta\":{\"reasoning_content\":\"hard\",\"content\":\"Hel\"}}]}\n\n\
    data: {\"choices\":[{\"delta\":{\"content\":\"lo\"}}]}\n\n\
    data: {\"choices\":[{\"delta\":{\"tool_calls\":[{\"index\":1,\"id\":\"b\",\"function\":{\"name\":\"two\",\"arguments\":\"{}\"}},{\"index\":0,\"id\":\"a\",\"function\":{\"name\":\"one\",\"arguments\":\"[1\"}}]}}]}\n\n\
    data: {\"choices\":[{\"delta\":{\"tool_calls\":[{\"index\":0,\"function\":{\"arguments\":\",2]\"}}]},\"finish_reason\":\"tool_calls\"}]}\n\n";

#[test]
fn events_of_a_full_answer() {
    let events = chat_sse_to_responses_events("r", "m", ANSWER).unwrap();
    assert_eq!(
        names(&events),
        vec![
            "response.created",
            "response.in_progress",
            "response.output_item.added",
            "response.reasoning_summary_part.added",
            "response.reasoning_summary_text.delta",
            "response.reasoning_summary_text.delta",
            "response.output_item.added",
            "response.content_part.added",
            "response.output_text.delta",
            "response.output_text.delta",
            "response.output_item.added",
            "response.function_call_arguments.delta",
            "response.output_item.added",
            "response.function_call_arguments.delta",
            "response.function_call_arguments.delta",
            "response.reasoning_summary_text.done",
            "response.reasoning_summary_part.done",
            "response.output_item.done",
            "response.output_text.done",
            "response.content_part.done",
            "response.output_item.done",
            "response.output_item.done",
            "response.output_item.done",
            "response.completed",
        ]
    );
    // What is streamed is what the answer ends with.
    assert_eq!(deltas(&events, "response.output_text.delta"), "Hello");
    assert_eq!(
        payloads(&events, "response.output_text.done")[0].text("text"),
        Some("Hello")
    );
    assert_eq!(
        deltas(&events, "response.reasoning_summary_text.delta"),
        "think hard"
    );
    // Every item has an output index of its own.
    let indices: Vec<i64> = payloads(&events, "response.output_item.added")
        .iter()
        .map(|p| p.get("output_index").unwrap().as_i64().unwrap())
        .collect();
    assert_eq!(indices, vec![0, 1, 2, 3]);
    // The answer lists tool calls by their index, whatever order they came in.
    let completed = &payloads(&events, "response.completed")[0];
    let output = completed.get2("response", "output").unwrap();
    let items = output.as_array().unwrap();
    assert_eq!(items.len(), 4);
    assert_eq!(items[2].text("call_id"), Some("a"));
    assert_eq!(items[2].text("arguments"), Some("[1,2]"));
    assert_eq!(items[2].text("id"), Some("fc_a"));
    assert_eq!(items[3].text("call_id"), Some("b"));
    // A tool call says what was thought before it.
    let added = payloads(&events, "response.output_item.added");
    assert_eq!(
        added[2].get("item").unwrap().text("reasoning_content"),
        Some("think hard")
    );
}

#[test]
fn exact_text_of_an_event() {
    let payload = Json::object().with("n", Json::integer(1));
    assert_eq!(
        sse("response.x", payload),
        "event: response.x\ndata: {\"n\":1,\"type\":\"response.x\"}\n\n"
    );
    assert_eq!(
        sse_error("no \"luck\""),
        "event: error\ndata: {\"error\":{\"message\":\"no \\\"luck\\\"\"},\"type\":\"error\"}\n\n"
    );
}

#[test]
fn tool_call_without_id_or_name_makes_them_up() {
    let stream = "data: {\"choices\":[{\"delta\":{\"tool_calls\":[{\"index\":3,\"function\":{\"name\":\"f\"}}]}}]}\n\n\
        data: {\"choices\":[{\"delta\":{\"tool_calls\":[{\"index\":4,\"id\":\"c4\"}]},\"finish_reason\":\"stop\"}]}\n\n";
    let events = chat_sse_to_responses_events("r", "m", stream).unwrap();
    let added = payloads(&events, "response.output_item.added");
    assert_eq!(added[0].get("item").unwrap().text("call_id"), Some("call_3"));
    assert_eq!(added[1].get("item").unwrap().text("name"), Some("unknown_tool"));
    // Nothing is handed on where there are no arguments.
    assert!(payloads(&events, "response.function_call_arguments.delta").is_empty());
}

#[test]
fn custom_tools_and_the_tool_search_have_items_of_their_own() {
    let tools = json(
        r#"[{"type":"function","function":{"name":"patch",
             "description":"Original custom tool definition: {}",
             "parameters":{"type":"object","properties":{"input":{"type":"string"}},"required":["input"]}}}]"#,
    );
    let stream = "data: {\"choices\":[{\"delta\":{\"tool_calls\":[\
        {\"index\":0,\"id\":\"a\",\"function\":{\"name\":\"patch\",\"arguments\":\"{\\\"input\\\":\\\"*** Begin\\\"}\"}},\
        {\"index\":1,\"id\":\"b\",\"function\":{\"name\":\"tool_search\",\"arguments\":\"{\\\"query\\\":\\\"x\\\"}\"}}\
        ]},\"finish_reason\":\"stop\"}]}\n\n";
    let events = chat_sse_to_responses_events_with_tools("r", "m", stream, Some(&tools)).unwrap();
    let done = payloads(&events, "response.output_item.done");
    let custom = done[0].get("item").unwrap();
    assert_eq!(custom.text("type"), Some("custom_tool_call"));
    assert_eq!(custom.text("input"), Some("*** Begin"));
    let search = done[1].get("item").unwrap();
    assert_eq!(search.text("type"), Some("tool_search_call"));
    assert_eq!(search.get("arguments").unwrap().text("query"), Some("x"));
    assert_eq!(search.get("id"), None);
}

#[test]
fn failures_in_the_stream() {
    let fail = |text: &str| chat_sse_to_responses_events("r", "m", text).unwrap_err();
    assert_eq!(
        fail("data: [DONE]\n\n"),
        "upstream stream contained no valid chat completion chunks"
    );
    assert_eq!(
        fail("data: {\"choices\":[{\"delta\":{\"content\":\"\"}}]}\n\n"),
        "upstream stream completed without assistant output"
    );
    assert_eq!(
        fail("data: {\"choices\":[{\"delta\":{},\"finish_reason\":\"stop\"}]}\n\n"),
        "upstream stream completed without assistant output"
    );
    assert_eq!(
        fail("data: {\"error\":{\"message\":\"too fast\",\"type\":\"rate\"}}\n\n"),
        "too fast (\"rate\")"
    );
    assert_eq!(
        fail("event: error\ndata: {\"detail\":\"gone\",\"code\":7}\n\n"),
        "gone (7)"
    );
    let broken = fail("data: {broken\n\n");
    assert!(broken.starts_with("invalid chat SSE JSON: "), "{broken}");
    assert!(broken.ends_with("; data={broken"), "{broken}");
}

#[test]
fn what_counts_as_an_error() {
    for (text, expected) in [
        ("{}", false),
        (r#"{"error":null}"#, false),
        (r#"{"error":{}}"#, false),
        (r#"{"error":"  "}"#, false),
        (r#"{"error":{"message":"x"}}"#, true),
        (r#"{"error":"x"}"#, true),
        (r#"{"error":1}"#, true),
        (r#"{"error":[]}"#, true),
    ] {
        assert_eq!(meaningful_error(&json(text)), expected, "{text}");
    }
    assert_eq!(chat_sse_error_message(&json(r#"{"error":"plain"}"#)), "plain");
    assert_eq!(
        chat_sse_error_message(&json(r#"{"error":{"msg":5}}"#)),
        "upstream chat SSE error"
    );
    assert_eq!(
        chat_sse_error_message(&json(r#"{"error":{"message":"a","msg":"b"}}"#)),
        "a"
    );
}

#[test]
fn blocks_of_a_stream() {
    let block = parse_sse_block("event: ping \ndata: a\ndata:  b ").unwrap();
    assert_eq!(block.event.as_deref(), Some("ping"));
    assert_eq!(block.data, "a\nb");
    assert!(parse_sse_block("event: ping\n: comment").is_none());
    let blocks = sse_blocks("data: 1\r\n\r\n: hi\n\ndata: 2");
    assert_eq!(blocks.len(), 2);
    assert_eq!(blocks[1].data, "2");

    let mut text = "data: 1\r\n\r\ndata: 2\n".to_string();
    assert_eq!(pop_sse_block(&mut text).unwrap().data, "1");
    assert_eq!(text, "data: 2\n");
    assert!(pop_sse_block(&mut text).is_none());
    assert_eq!(text, "data: 2\n");
    // An event without data is taken off all the same.
    let mut text = ": hi\n\ndata: 2\n\n".to_string();
    assert!(pop_sse_block(&mut text).is_none());
    assert_eq!(text, "data: 2\n\n");
}

#[test]
fn chunks_do_not_matter() {
    let with_returns = ANSWER.replace('\n', "\r\n");
    for whole in [ANSWER, with_returns.as_str()] {
        let mut converter = ChatSseConverter::new("r", "m", None);
        let mut expected = String::from(whole);
        let expected = converter.push_text(&mut expected).unwrap();
        for cut in 0..whole.len() {
            let mut converter = ChatSseConverter::new("r", "m", None);
            let mut pending = whole[..cut].to_string();
            let mut events = converter.push_text(&mut pending).unwrap();
            assert!(!converter.is_finished() || events.len() == expected.len());
            if !converter.is_finished() {
                pending.push_str(&whole[cut..]);
                events.extend(converter.push_text(&mut pending).unwrap());
            }
            assert_eq!(events, expected, "cut at {cut}");
        }
    }
}

#[test]
fn streaming_gives_what_the_whole_gives() {
    let mut converter = ChatSseConverter::new("r", "m", None);
    let mut events = converter.initial_events();
    let mut pending = ANSWER.to_string();
    events.extend(converter.push_text(&mut pending).unwrap());
    events.extend(converter.finish_without_done().unwrap());
    assert_eq!(
        events,
        chat_sse_to_responses_events("r", "m", ANSWER).unwrap()
    );
}

#[test]
fn an_answer_ends_once() {
    let mut converter = ChatSseConverter::new("r", "m", None);
    assert!(converter.usage().is_none());
    let mut pending = ANSWER.to_string();
    converter.push_text(&mut pending).unwrap();
    assert!(converter.is_finished());
    assert_eq!(converter.usage().unwrap().total_tokens, 0);
    assert!(converter.finish_without_done().unwrap().is_empty());
}

#[test]
fn a_stream_that_just_stops_is_finished_all_the_same() {
    let mut converter = ChatSseConverter::new("r", "m", None);
    let mut pending = "data: {\"choices\":[{\"delta\":{\"content\":\"x\"}}]}\n\n".to_string();
    converter.push_text(&mut pending).unwrap();
    assert!(!converter.is_finished());
    let events = converter.finish_without_done().unwrap();
    assert_eq!(names(&events).last().unwrap(), "response.completed");
    assert_eq!(converter.usage().unwrap().usage_json, "");
}

#[test]
fn items_are_counted_and_calls_told_in_full() {
    let mut stream = String::new();
    for delta in [
        r#"{"tool_calls":[{"index":4,"function":{"arguments":"{\"a\""}}]}"#,
        r#"{"content":"hi"}"#,
        r#"{"tool_calls":[{"index":1,"id":"one","function":{"arguments":"["}},{"index":4,"id":"","function":{"arguments":":1"}}]}"#,
        r#"{"reasoning_content":"hm","content":" there"}"#,
        r#"{"tool_calls":[{"index":4,"function":{"name":"f"}},{"index":1,"id":"uno","function":{"arguments":"]"}}]}"#,
        r#"{"tool_calls":[{"index":4,"function":{"arguments":"}"}},{"index":7,"function":{"arguments":"lost"}}]}"#,
    ] {
        stream.push_str(&format!("data: {{\"choices\":[{{\"delta\":{delta}}}]}}\n\n"));
    }
    let mut converter = ChatSseConverter::new("r", "m", None);
    let events = converter.push_text(&mut stream).unwrap();

    let added = payloads(&events, "response.output_item.added");
    let indices: Vec<Option<i64>> = added.iter().map(|p| p.get("output_index").unwrap().as_i64()).collect();
    assert_eq!(indices, [Some(0), Some(1), Some(2), Some(3)]);
    let kinds: Vec<&str> = added.iter().map(|p| p.get("item").unwrap().text("type").unwrap()).collect();
    assert_eq!(kinds, ["message", "function_call", "reasoning", "function_call"]);

    let arguments = "response.function_call_arguments.delta";
    for (index, item_id, expected) in [(1, "fc_one", "[]"), (3, "fc_call_4", "{\"a\":1}")] {
        let told: String = payloads(&events, arguments)
            .iter()
            .filter(|p| p.get("output_index").unwrap().as_i64() == Some(index))
            .map(|p| {
                assert_eq!(p.text("item_id"), Some(item_id));
                p.text("delta").unwrap().to_string()
            })
            .collect();
        assert_eq!(told, expected);
    }
    // Each item is opened before its arguments come; a call that nobody names is not opened.
    let mut open = 0;
    for event in &events {
        if event.starts_with("event: response.output_item.added\n") {
            open += 1;
        } else if let [p] = payloads(std::slice::from_ref(event), arguments).as_slice() {
            assert!(p.get("output_index").unwrap().as_i64().unwrap() < open);
        }
    }
    assert!(!events.join("").contains("lost"));
}

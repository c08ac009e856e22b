//! What holds of every Responses answer that stands for a complete chat completion.
use vstd::prelude::*;

use crate::codec::{json_parse, json_text};
use crate::json::{empty_object, JsonView};
use crate::proxy::reply::{answer, answer_item, answer_items, answer_output, completion_message};
use crate::proxy::request::chat_request;
use crate::proxy::request_laws::law_declared_custom_tools_come_back;
use crate::proxy::stream::{message_item, output_part, reasoning_item, summary_part, usage_report};
use crate::proxy::tools::{custom_input, custom_name, custom_names, has_text, items2, items_of};
use crate::proxy::tools::{split_last, split_name};
use crate::proxy::toolset::defined_name;
use crate::proxy::toolset_laws::told_name;
use crate::proxy::usage::usage_of;
use crate::text::{contains_text, is_blank, lemma_rfind, occurs_at, rfind};

verus! {

/// The words of an answer are all different.
pub proof fn lemma_answer_words()
    ensures
        "id"@ != "object"@,
        "id"@ != "model"@,
        "id"@ != "status"@,
        "id"@ != "output"@,
        "id"@ != "usage"@,
        "id"@ != "type"@,
        "id"@ != "summary"@,
        "id"@ != "role"@,
        "id"@ != "content"@,
        "id"@ != "call_id"@,
        "id"@ != "execution"@,
        "id"@ != "arguments"@,
        "id"@ != "name"@,
        "id"@ != "input"@,
        "id"@ != "namespace"@,
        "id"@ != "text"@,
        "id"@ != "annotations"@,
        "id"@ != "reasoning"@,
        "id"@ != "message"@,
        "id"@ != "tool_search_call"@,
        "id"@ != "custom_tool_call"@,
        "id"@ != "function_call"@,
        "object"@ != "model"@,
        "object"@ != "status"@,
        "object"@ != "output"@,
        "object"@ != "usage"@,
        "object"@ != "type"@,
        "object"@ != "summary"@,
        "object"@ != "role"@,
        "object"@ != "content"@,
        "object"@ != "call_id"@,
        "object"@ != "execution"@,
        "object"@ != "arguments"@,
        "object"@ != "name"@,
        "object"@ != "input"@,
        "object"@ != "namespace"@,
        "object"@ != "text"@,
        "object"@ != "annotations"@,
        "object"@ != "reasoning"@,
        "object"@ != "message"@,
        "object"@ != "tool_search_call"@,
        "object"@ != "custom_tool_call"@,
        "object"@ != "function_call"@,
        "model"@ != "status"@,
        "model"@ != "output"@,
        "model"@ != "usage"@,
        "model"@ != "type"@,
        "model"@ != "summary"@,
        "model"@ != "role"@,
        "model"@ != "content"@,
        "model"@ != "call_id"@,
        "model"@ != "execution"@,
        "model"@ != "arguments"@,
        "model"@ != "name"@,
        "model"@ != "input"@,
        "model"@ != "namespace"@,
        "model"@ != "text"@,
        "model"@ != "annotations"@,
        "model"@ != "reasoning"@,
        "model"@ != "message"@,
        "model"@ != "tool_search_call"@,
        "model"@ != "custom_tool_call"@,
        "model"@ != "function_call"@,
        "status"@ != "output"@,
        "status"@ != "usage"@,
        "status"@ != "type"@,
        "status"@ != "summary"@,
        "status"@ != "role"@,
        "status"@ != "content"@,
        "status"@ != "call_id"@,
        "status"@ != "execution"@,
        "status"@ != "arguments"@,
        "status"@ != "name"@,
        "status"@ != "input"@,
        "status"@ != "namespace"@,
        "status"@ != "text"@,
        "status"@ != "annotations"@,
        "status"@ != "reasoning"@,
        "status"@ != "message"@,
        "status"@ != "tool_search_call"@,
        "status"@ != "custom_tool_call"@,
        "status"@ != "function_call"@,
        "output"@ != "usage"@,
        "output"@ != "type"@,
        "output"@ != "summary"@,
        "output"@ != "role"@,
        "output"@ != "content"@,
        "output"@ != "call_id"@,
        "output"@ != "execution"@,
        "output"@ != "arguments"@,
        "output"@ != "name"@,
        "output"@ != "input"@,
        "output"@ != "namespace"@,
        "output"@ != "text"@,
        "output"@ != "annotations"@,
        "output"@ != "reasoning"@,
        "output"@ != "message"@,
        "output"@ != "tool_search_call"@,
        "output"@ != "custom_tool_call"@,
        "output"@ != "function_call"@,
        "usage"@ != "type"@,
        "usage"@ != "summary"@,
        "usage"@ != "role"@,
        "usage"@ != "content"@,
        "usage"@ != "call_id"@,
        "usage"@ != "execution"@,
        "usage"@ != "arguments"@,
        "usage"@ != "name"@,
        "usage"@ != "input"@,
        "usage"@ != "namespace"@,
        "usage"@ != "text"@,
        "usage"@ != "annotations"@,
        "usage"@ != "reasoning"@,
        "usage"@ != "message"@,
        "usage"@ != "tool_search_call"@,
        "usage"@ != "custom_tool_call"@,
        "usage"@ != "function_call"@,
        "type"@ != "summary"@,
        "type"@ != "role"@,
        "type"@ != "content"@,
        "type"@ != "call_id"@,
        "type"@ != "execution"@,
        "type"@ != "arguments"@,
        "type"@ != "name"@,
        "type"@ != "input"@,
        "type"@ != "namespace"@,
        "type"@ != "text"@,
        "type"@ != "annotations"@,
        "type"@ != "reasoning"@,
        "type"@ != "message"@,
        "type"@ != "tool_search_call"@,
        "type"@ != "custom_tool_call"@,
        "type"@ != "function_call"@,
        "summary"@ != "role"@,
        "summary"@ != "content"@,
        "summary"@ != "call_id"@,
        "summary"@ != "execution"@,
        "summary"@ != "arguments"@,
        "summary"@ != "name"@,
        "summary"@ != "input"@,
        "summary"@ != "namespace"@,
        "summary"@ != "text"@,
        "summary"@ != "annotations"@,
        "summary"@ != "reasoning"@,
        "summary"@ != "message"@,
        "summary"@ != "tool_search_call"@,
        "summary"@ != "custom_tool_call"@,
        "summary"@ != "function_call"@,
        "role"@ != "content"@,
        "role"@ != "call_id"@,
        "role"@ != "execution"@,
        "role"@ != "arguments"@,
        "role"@ != "name"@,
        "role"@ != "input"@,
        "role"@ != "namespace"@,
        "role"@ != "text"@,
        "role"@ != "annotations"@,
        "role"@ != "reasoning"@,
        "role"@ != "message"@,
        "role"@ != "tool_search_call"@,
        "role"@ != "custom_tool_call"@,
        "role"@ != "function_call"@,
        "content"@ != "call_id"@,
        "content"@ != "execution"@,
        "content"@ != "arguments"@,
        "content"@ != "name"@,
        "content"@ != "input"@,
        "content"@ != "namespace"@,
        "content"@ != "text"@,
        "content"@ != "annotations"@,
        "content"@ != "reasoning"@,
        "content"@ != "message"@,
        "content"@ != "tool_search_call"@,
        "content"@ != "custom_tool_call"@,
        "content"@ != "function_call"@,
        "call_id"@ != "execution"@,
        "call_id"@ != "arguments"@,
        "call_id"@ != "name"@,
        "call_id"@ != "input"@,
        "call_id"@ != "namespace"@,
        "call_id"@ != "text"@,
        "call_id"@ != "annotations"@,
        "call_id"@ != "reasoning"@,
        "call_id"@ != "message"@,
        "call_id"@ != "tool_search_call"@,
        "call_id"@ != "custom_tool_call"@,
        "call_id"@ != "function_call"@,
        "execution"@ != "arguments"@,
        "execution"@ != "name"@,
        "execution"@ != "input"@,
        "execution"@ != "namespace"@,
        "execution"@ != "text"@,
        "execution"@ != "annotations"@,
        "execution"@ != "reasoning"@,
        "execution"@ != "message"@,
        "execution"@ != "tool_search_call"@,
        "execution"@ != "custom_tool_call"@,
        "execution"@ != "function_call"@,
        "arguments"@ != "name"@,
        "arguments"@ != "input"@,
        "arguments"@ != "namespace"@,
        "arguments"@ != "text"@,
        "arguments"@ != "annotations"@,
        "arguments"@ != "reasoning"@,
        "arguments"@ != "message"@,
        "arguments"@ != "tool_search_call"@,
        "arguments"@ != "custom_tool_call"@,
        "arguments"@ != "function_call"@,
        "name"@ != "input"@,
        "name"@ != "namespace"@,
        "name"@ != "text"@,
        "name"@ != "annotations"@,
        "name"@ != "reasoning"@,
        "name"@ != "message"@,
        "name"@ != "tool_search_call"@,
        "name"@ != "custom_tool_call"@,
        "name"@ != "function_call"@,
        "input"@ != "namespace"@,
        "input"@ != "text"@,
        "input"@ != "annotations"@,
        "input"@ != "reasoning"@,
        "input"@ != "message"@,
        "input"@ != "tool_search_call"@,
        "input"@ != "custom_tool_call"@,
        "input"@ != "function_call"@,
        "namespace"@ != "text"@,
        "namespace"@ != "annotations"@,
        "namespace"@ != "reasoning"@,
        "namespace"@ != "message"@,
        "namespace"@ != "tool_search_call"@,
        "namespace"@ != "custom_tool_call"@,
        "namespace"@ != "function_call"@,
        "text"@ != "annotations"@,
        "text"@ != "reasoning"@,
        "text"@ != "message"@,
        "text"@ != "tool_search_call"@,
        "text"@ != "custom_tool_call"@,
        "text"@ != "function_call"@,
        "annotations"@ != "reasoning"@,
        "annotations"@ != "message"@,
        "annotations"@ != "tool_search_call"@,
        "annotations"@ != "custom_tool_call"@,
        "annotations"@ != "function_call"@,
        "reasoning"@ != "message"@,
        "reasoning"@ != "tool_search_call"@,
        "reasoning"@ != "custom_tool_call"@,
        "reasoning"@ != "function_call"@,
        "message"@ != "tool_search_call"@,
        "message"@ != "custom_tool_call"@,
        "message"@ != "function_call"@,
        "tool_search_call"@ != "custom_tool_call"@,
        "tool_search_call"@ != "function_call"@,
        "custom_tool_call"@ != "function_call"@,
{
    reveal_strlit("id");
    reveal_strlit("object");
    reveal_strlit("model");
    reveal_strlit("status");
    reveal_strlit("output");
    reveal_strlit("usage");
    reveal_strlit("type");
    reveal_strlit("summary");
    reveal_strlit("role");
    reveal_strlit("content");
    reveal_strlit("call_id");
    reveal_strlit("execution");
    reveal_strlit("arguments");
    reveal_strlit("name");
    reveal_strlit("input");
    reveal_strlit("namespace");
    reveal_strlit("text");
    reveal_strlit("annotations");
    reveal_strlit("reasoning");
    reveal_strlit("message");
    reveal_strlit("tool_search_call");
    reveal_strlit("custom_tool_call");
    reveal_strlit("function_call");
    assert("id"@.len() == 2);
    assert("object"@.len() == 6);
    assert("model"@.len() == 5);
    assert("status"@.len() == 6);
    assert("output"@.len() == 6);
    assert("usage"@.len() == 5);
    assert("type"@.len() == 4);
    assert("summary"@.len() == 7);
    assert("role"@.len() == 4);
    assert("content"@.len() == 7);
    assert("call_id"@.len() == 7);
    assert("execution"@.len() == 9);
    assert("arguments"@.len() == 9);
    assert("name"@.len() == 4);
    assert("input"@.len() == 5);
    assert("namespace"@.len() == 9);
    assert("text"@.len() == 4);
    assert("annotations"@.len() == 11);
    assert("reasoning"@.len() == 9);
    assert("message"@.len() == 7);
    assert("tool_search_call"@.len() == 16);
    assert("custom_tool_call"@.len() == 16);
    assert("function_call"@.len() == 13);
    assert("object"@[0] != "status"@[0]);
    assert("object"@[1] != "output"@[1]);
    assert("model"@[0] != "usage"@[0]);
    assert("model"@[0] != "input"@[0]);
    assert("status"@[0] != "output"@[0]);
    assert("usage"@[0] != "input"@[0]);
    assert("type"@[0] != "role"@[0]);
    assert("type"@[0] != "name"@[0]);
    assert("type"@[1] != "text"@[1]);
    assert("summary"@[0] != "content"@[0]);
    assert("summary"@[0] != "call_id"@[0]);
    assert("summary"@[0] != "message"@[0]);
    assert("role"@[0] != "name"@[0]);
    assert("role"@[0] != "text"@[0]);
    assert("content"@[1] != "call_id"@[1]);
    assert("content"@[0] != "message"@[0]);
    assert("call_id"@[0] != "message"@[0]);
    assert("execution"@[0] != "arguments"@[0]);
    assert("execution"@[0] != "namespace"@[0]);
    assert("execution"@[0] != "reasoning"@[0]);
    assert("arguments"@[0] != "namespace"@[0]);
    assert("arguments"@[0] != "reasoning"@[0]);
    assert("name"@[0] != "text"@[0]);
    assert("namespace"@[0] != "reasoning"@[0]);
    assert("tool_search_call"@[0] != "custom_tool_call"@[0]);
}

/// The words for counts are all different.
proof fn lemma_count_words()
    ensures
        "input_tokens"@ != "output_tokens"@,
        "input_tokens"@ != "total_tokens"@,
        "input_tokens"@ != "input_tokens_details"@,
        "input_tokens"@ != "output_tokens_details"@,
        "input_tokens"@ != "cached_tokens"@,
        "input_tokens"@ != "cache_miss_tokens"@,
        "output_tokens"@ != "total_tokens"@,
        "output_tokens"@ != "input_tokens_details"@,
        "output_tokens"@ != "output_tokens_details"@,
        "output_tokens"@ != "cached_tokens"@,
        "output_tokens"@ != "cache_miss_tokens"@,
        "total_tokens"@ != "input_tokens_details"@,
        "total_tokens"@ != "output_tokens_details"@,
        "total_tokens"@ != "cached_tokens"@,
        "total_tokens"@ != "cache_miss_tokens"@,
        "input_tokens_details"@ != "output_tokens_details"@,
        "input_tokens_details"@ != "cached_tokens"@,
        "input_tokens_details"@ != "cache_miss_tokens"@,
        "output_tokens_details"@ != "cached_tokens"@,
        "output_tokens_details"@ != "cache_miss_tokens"@,
        "cached_tokens"@ != "cache_miss_tokens"@,
{
    reveal_strlit("input_tokens");
    reveal_strlit("output_tokens");
    reveal_strlit("total_tokens");
    reveal_strlit("input_tokens_details");
    reveal_strlit("output_tokens_details");
    reveal_strlit("cached_tokens");
    reveal_strlit("cache_miss_tokens");
    assert("input_tokens"@.len() == 12);
    assert("output_tokens"@.len() == 13);
    assert("total_tokens"@.len() == 12);
    assert("input_tokens_details"@.len() == 20);
    assert("output_tokens_details"@.len() == 21);
    assert("cached_tokens"@.len() == 13);
    assert("cache_miss_tokens"@.len() == 17);
    assert("input_tokens"@[0] != "total_tokens"@[0]);
    assert("output_tokens"@[0] != "cached_tokens"@[0]);
}

// ── names ─────────────────────────────────────────────────────────────

proof fn lemma_split_last(s: Seq<char>, sep: Seq<char>)
    ensures
        split_last(s, sep) matches Some(parts) ==> s == parts.0 + sep + parts.1 && contains_text(
            s,
            sep,
        ),
{
    lemma_rfind(s, sep);
    if let Some(parts) = split_last(s, sep) {
        let i = rfind(s, sep)->Some_0;
        assert(occurs_at(s, sep, i));
        assert(s =~= s.take(i) + s.subrange(i, i + sep.len()) + s.skip(i + sep.len()));
    }
}

/// A name that is taken apart makes up the name it was, and one without a separator stays whole.
pub proof fn law_names_are_not_lost(full: Seq<char>)
    ensures
        split_name(full).0 matches Some(ns) ==> full == ns + "__"@ + split_name(full).1,
        split_name(full).0 is None ==> split_name(full).1 == full,
        !contains_text(full, "__"@) ==> split_name(full).0 is None,
{
    reveal_strlit("_");
    reveal_strlit("__");
    reveal_strlit("___");
    lemma_split_last(full, "___"@);
    lemma_split_last(full, "__"@);
    if let Some(parts) = split_last(full, "___"@) {
        assert(parts.0 + "___"@ + parts.1 =~= parts.0 + "__"@ + ("_"@ + parts.1));
        let i = choose|i: int| occurs_at(full, "___"@, i);
        assert(full.subrange(i, i + 2) =~= full.subrange(i, i + 3).subrange(0, 2));
        assert("___"@.subrange(0, 2) =~= "__"@);
        assert(occurs_at(full, "__"@, i));
    }
}

// ── calls ─────────────────────────────────────────────────────────────

/// The text under `key`; the empty one where there is none.
pub open spec fn text_or_none(value: JsonView, key: Seq<char>) -> Seq<char> {
    match value.text(key) {
        Some(s) => s,
        None => Seq::empty(),
    }
}

/// Whether `input` is what a custom tool is to get for these arguments: the text under `input` in
/// them, or anything else there as JSON; all of the arguments where there is no `input`; nothing
/// where they are blank.
pub open spec fn is_input(input: Seq<char>, arguments: Seq<char>) -> bool {
    if is_blank(arguments) {
        input.len() == 0
    } else if json_parse(arguments) is Ok && json_parse(arguments)->Ok_0.get("input"@) is Some {
        let given = json_parse(arguments)->Ok_0.member("input"@);
        (given matches JsonView::Text(s) ==> input == s) && (!(given is Text) ==> input == json_text(
            given,
        ))
    } else {
        input == arguments
    }
}

pub proof fn lemma_is_input(arguments: Seq<char>)
    ensures
        is_input(custom_input(arguments), arguments),
{
}

/// Whether `item` tells of a search for tools with these arguments.
pub open spec fn tells_of_search(item: JsonView, call_id: Seq<char>, arguments: Seq<char>) -> bool {
    &&& item.text("type"@) == Some("tool_search_call"@)
    &&& item.text("call_id"@) == Some(call_id)
    &&& item.text("execution"@) == Some("client"@)
    &&& item.get("arguments"@) == Some(
        if json_parse(arguments) is Ok && json_parse(arguments)->Ok_0 is Object {
            json_parse(arguments)->Ok_0
        } else {
            empty_object()
        },
    )
}

/// Whether `item` tells of a call of this custom tool.
pub open spec fn tells_of_custom_call(
    item: JsonView,
    call_id: Seq<char>,
    name: Seq<char>,
    arguments: Seq<char>,
) -> bool {
    &&& item.text("type"@) == Some("custom_tool_call"@)
    &&& item.text("call_id"@) == Some(call_id)
    &&& item.text("name"@) == Some(name)
    &&& item.text("input"@) is Some
    &&& is_input(item.text("input"@)->Some_0, arguments)
}

/// Whether `item` tells of a call of the function that a chat model knows under this name.
pub open spec fn tells_of_function_call(
    item: JsonView,
    call_id: Seq<char>,
    name: Seq<char>,
    arguments: Seq<char>,
) -> bool {
    &&& item.text("type"@) == Some("function_call"@)
    &&& item.text("call_id"@) == Some(call_id)
    &&& item.text("arguments"@) == Some(arguments)
    &&& item.text("name"@) is Some
    &&& match item.text("namespace"@) {
        Some(ns) => ns + "__"@ + item.text("name"@)->Some_0 == name,
        None => item.text("name"@) == Some(name),
    }
    &&& !contains_text(name, "__"@) ==> item.get("namespace"@) is None
}

/// Whether the output item `item` tells of the call that a chat model made.
pub open spec fn tells_of_call(item: JsonView, call: JsonView, custom: bool) -> bool {
    let id = text_or_none(call, "id"@);
    let name = text_or_none(call.member("function"@), "name"@);
    let arguments = text_or_none(call.member("function"@), "arguments"@);
    &&& item.text("status"@) == Some("completed"@)
    &&& if name == "tool_search"@ {
        tells_of_search(item, id, arguments)
    } else if custom {
        tells_of_custom_call(item, id, name, arguments) && item.text("id"@) == Some("ctc_"@ + id)
    } else {
        tells_of_function_call(item, id, name, arguments) && item.text("id"@) == Some("fc_"@ + id)
    }
}

proof fn lemma_answer_item(call: JsonView, custom_tools: Set<Seq<char>>)
    ensures
        tells_of_call(
            answer_item(call, custom_tools),
            call,
            custom_tools.contains(text_or_none(call.member("function"@), "name"@)),
        ),
{
    lemma_answer_words();
    let name = text_or_none(call.member("function"@), "name"@);
    law_names_are_not_lost(name);
    lemma_is_input(text_or_none(call.member("function"@), "arguments"@));
}

// ── the answer ────────────────────────────────────────────────────────

/// The message in a chat completion: the one of its first choice.
pub open spec fn completed_message(cr: JsonView) -> JsonView {
    if cr.items("choices"@).len() > 0 {
        cr.items("choices"@)[0].member("message"@)
    } else {
        JsonView::Null
    }
}

/// Whether an item is the reasoning with this text.
pub open spec fn is_reasoning(item: JsonView, text: Seq<char>) -> bool {
    &&& item.text("type"@) == Some("reasoning"@)
    &&& item.items("summary"@).len() == 1
    &&& item.items("summary"@)[0].text("type"@) == Some("summary_text"@)
    &&& item.items("summary"@)[0].text("text"@) == Some(text)
}

/// Whether an item is a message of the assistant with this text.
pub open spec fn is_message(item: JsonView, text: Seq<char>) -> bool {
    &&& item.text("type"@) == Some("message"@)
    &&& item.text("role"@) == Some("assistant"@)
    &&& item.items("content"@).len() == 1
    &&& item.items("content"@)[0].text("type"@) == Some("output_text"@)
    &&& item.items("content"@)[0].text("text"@) == Some(text)
    &&& item.items("content"@)[0].get("annotations"@) == Some(
        JsonView::Array(Seq::<JsonView>::empty()),
    )
}

pub proof fn lemma_text_items(id: Seq<char>, text: Seq<char>)
    ensures
        is_reasoning(reasoning_item(id, JsonView::Array(seq![summary_part(text)])), text),
        is_message(message_item(id, JsonView::Array(seq![output_part(text)])), text),
        reasoning_item(id, JsonView::Array(seq![summary_part(text)])).text("id"@) == Some(id),
        message_item(id, JsonView::Array(seq![output_part(text)])).text("id"@) == Some(id),
        is_reasoning(
            reasoning_item(id, JsonView::Array(seq![summary_part(text)])).with_text(
                "status"@,
                "completed"@,
            ),
            text,
        ),
        is_message(
            message_item(id, JsonView::Array(seq![output_part(text)])).with_text(
                "status"@,
                "completed"@,
            ),
            text,
        ),
{
    lemma_answer_words();
}

/// The output of an answer is what the chat model gave: its reasoning, then its message, then each
/// of its calls, in order, and nothing else.
pub proof fn law_answers_hold_what_was_said(
    cr: JsonView,
    fallback_model: Seq<char>,
    tools: Option<JsonView>,
)
    ensures
        ({
            let out = answer(cr, fallback_model, tools).items("output"@);
            let msg = completed_message(cr);
            let calls = msg.items("tool_calls"@);
            let r: int = if msg.full_text("reasoning_content"@) is Some {
                1
            } else {
                0
            };
            let m: int = if msg.full_text("content"@) is Some {
                1
            } else {
                0
            };
            &&& out.len() == r + m + calls.len()
            &&& msg.full_text("reasoning_content"@) matches Some(text) ==> is_reasoning(
                out[0],
                text,
            ) && out[0].text("id"@) == Some("rs_1"@)
            &&& msg.full_text("content"@) matches Some(text) ==> is_message(out[r], text)
                && out[r].text("id"@) == Some("msg_1"@)
            &&& forall|k: int|
                #![trigger calls[k]]
                0 <= k < calls.len() ==> tells_of_call(
                    out[r + m + k],
                    calls[k],
                    custom_names(items_of(tools)).contains(
                        text_or_none(calls[k].member("function"@), "name"@),
                    ),
                )
        }),
{
    lemma_answer_words();
    let a = answer(cr, fallback_model, tools);
    let msg = completed_message(cr);
    assert(msg == completion_message(cr));
    let custom = custom_names(items_of(tools));
    let calls = msg.items("tool_calls"@);
    assert(a.get("output"@) == Some(JsonView::Array(answer_output(msg, custom))));
    if let Some(text) = msg.full_text("reasoning_content"@) {
        lemma_text_items("rs_1"@, text);
    }
    if let Some(text) = msg.full_text("content"@) {
        lemma_text_items("msg_1"@, text);
    }
    let out = answer_output(msg, custom);
    let before = out.len() - calls.len();
    assert forall|k: int| #![trigger calls[k]] 0 <= k < calls.len() implies tells_of_call(
        out[before + k],
        calls[k],
        custom.contains(text_or_none(calls[k].member("function"@), "name"@)),
    ) by {
        lemma_answer_item(calls[k], custom);
        assert(out[before + k] == answer_items(calls, custom)[k]);
    }
}

/// A call of a tool that the request declared as a custom tool comes back as a call of that custom
/// tool, with the input that the chat model wrote into its arguments.
pub proof fn law_custom_calls_come_back_as_such(
    req: JsonView,
    model: Seq<char>,
    i: int,
    cr: JsonView,
    fallback_model: Seq<char>,
    k: int,
)
    requires
        0 <= i < req.items("tools"@).len(),
        req.items("tools"@)[i].text("type"@) == Some("custom"@),
        told_name(req.items("tools"@)[i]) is Some,
        told_name(req.items("tools"@)[i]) != Some("tool_search"@),
        0 <= k < completed_message(cr).items("tool_calls"@).len(),
        completed_message(cr).items("tool_calls"@)[k].member("function"@).text("name"@)
            == told_name(req.items("tools"@)[i]),
    ensures
        ({
            let out = answer(cr, fallback_model, chat_request(req, model).get("tools"@)).items(
                "output"@,
            );
            let calls = completed_message(cr).items("tool_calls"@);
            let item = out[out.len() - calls.len() + k];
            &&& out.len() >= calls.len()
            &&& item.text("type"@) == Some("custom_tool_call"@)
            &&& item.text("name"@) == told_name(req.items("tools"@)[i])
            &&& item.text("call_id"@) == Some(text_or_none(calls[k], "id"@))
            &&& item.text("input"@) is Some
            &&& is_input(
                item.text("input"@)->Some_0,
                text_or_none(calls[k].member("function"@), "arguments"@),
            )
        }),
{
    let tools = chat_request(req, model).get("tools"@);
    assert(defined_name(req.items("tools"@)[i]) == told_name(req.items("tools"@)[i]));
    law_declared_custom_tools_come_back(req, model, i);
    law_answers_hold_what_was_said(cr, fallback_model, tools);
    let calls = completed_message(cr).items("tool_calls"@);
    assert(tells_of_call(
        answer(cr, fallback_model, tools).items("output"@)[answer(cr, fallback_model, tools).items(
            "output"@,
        ).len() - calls.len() + k],
        calls[k],
        true,
    ));
}

/// A call of a name under which the chat model knew no tool that takes a raw input comes back as
/// the call of a function.
pub proof fn law_other_calls_come_back_as_functions(tools: Option<JsonView>, name: Seq<char>)
    requires
        forall|i: int|
            0 <= i < items_of(tools).len() && (#[trigger] items_of(tools)[i]).member(
                "function"@,
            ).text("name"@) == Some(name) ==> !contains_text(
                text_or_none(items_of(tools)[i].member("function"@), "description"@),
                "Original custom tool definition"@,
            ),
    ensures
        !custom_names(items_of(tools)).contains(name),
{
    if custom_names(items_of(tools)).contains(name) {
        let i = choose|i: int|
            0 <= i < items_of(tools).len() && #[trigger] custom_name(items_of(tools)[i]) == Some(
                name,
            );
        assert(items_of(tools)[i].member("function"@).text("name"@) == Some(name));
    }
}

// ── what stands around the output ─────────────────────────────────────

/// The count under `key`; zero where there is none.
pub open spec fn count_under(value: JsonView, key: Seq<char>) -> int {
    match value.member(key).as_i64() {
        Some(n) => n as int,
        None => 0,
    }
}

/// How many input tokens came out of a cache, as the upstream tells it in one of two places.
pub open spec fn cached_under(usage: JsonView) -> int {
    if usage.member("prompt_cache_hit_tokens"@).as_i64() is Some {
        count_under(usage, "prompt_cache_hit_tokens"@)
    } else {
        count_under(usage.member("prompt_tokens_details"@), "cached_tokens"@)
    }
}

/// Whether `report` gives the counts that an upstream's `usage` gives, and the input that missed
/// the cache where the upstream does not.
pub open spec fn reports_counts(report: JsonView, usage: JsonView) -> bool {
    let input = count_under(usage, "prompt_tokens"@);
    let details = report.member("input_tokens_details"@);
    let missed = details.member("cache_miss_tokens"@);
    &&& report.get("input_tokens"@) == Some(JsonView::Int(input))
    &&& report.get("output_tokens"@) == Some(JsonView::Int(count_under(usage, "completion_tokens"@)))
    &&& report.get("total_tokens"@) == Some(JsonView::Int(count_under(usage, "total_tokens"@)))
    &&& details.get("cached_tokens"@) == Some(JsonView::Int(cached_under(usage)))
    &&& report.member("output_tokens_details"@).get("reasoning_tokens"@) == Some(
        JsonView::Int(count_under(usage.member("completion_tokens_details"@), "reasoning_tokens"@)),
    )
    &&& missed is Int
    &&& if usage.member("prompt_cache_miss_tokens"@).as_i64() is Some {
        missed == JsonView::Int(count_under(usage, "prompt_cache_miss_tokens"@))
    } else {
        i64::MIN <= input - cached_under(usage) <= i64::MAX ==> missed == JsonView::Int(
            input - cached_under(usage),
        )
    }
}

/// The counts of the upstream are reported as they are.
pub proof fn law_counts_are_reported(usage: Option<JsonView>)
    ensures
        reports_counts(
            usage_report(usage_of(usage)),
            match usage {
                Some(u) => u,
                None => JsonView::Null,
            },
        ),
{
    lemma_count_words();
    let report = usage_report(usage_of(usage));
    assert(report.get("input_tokens_details"@) is Some);
}

/// An answer is complete, has the id, the model and the counts of the completion, and the model of
/// the request where the completion names none.
pub proof fn law_answers_tell_where_they_come_from(
    cr: JsonView,
    fallback_model: Seq<char>,
    tools: Option<JsonView>,
)
    ensures
        ({
            let a = answer(cr, fallback_model, tools);
            &&& a.get("id"@) == Some(cr.member("id"@))
            &&& a.text("object"@) == Some("response"@)
            &&& a.text("status"@) == Some("completed"@)
            &&& cr.get("model"@) is Some ==> a.get("model"@) == cr.get("model"@)
            &&& cr.get("model"@) is None ==> a.text("model"@) == Some(fallback_model)
            &&& reports_counts(a.member("usage"@), cr.member("usage"@))
            &&& forall|key: Seq<char>|
                key != "id"@ && key != "object"@ && key != "model"@ && key != "status"@ && key
                    != "output"@ && key != "usage"@ ==> (#[trigger] a.get(key)) is None
        }),
{
    lemma_answer_words();
    law_counts_are_reported(Some(cr.member("usage"@)));
    assert(answer(cr, fallback_model, tools).get("usage"@) == Some(
        usage_report(usage_of(Some(cr.member("usage"@)))),
    ));
}

/// A chat tool stands for a custom tool where it requires an `input`, describes it, and says in its
/// description that it does; it goes by its own name.
pub proof fn law_custom_tools_are_marked(tool: JsonView, name: Seq<char>)
    ensures
        ({
            let f = tool.member("function"@);
            let p = f.member("parameters"@);
            custom_name(tool) == Some(name) <==> {
                &&& f.text("name"@) == Some(name)
                &&& p.items("required"@).contains(JsonView::Text("input"@))
                &&& p.member("properties"@).get("input"@) is Some
                &&& contains_text(
                    text_or_none(f, "description"@),
                    "Original custom tool definition"@,
                )
            }
        }),
{
    reveal_strlit("Original custom tool definition");
    let f = tool.member("function"@);
    let p = f.member("parameters"@);
    let all = p.items("required"@);
    assert(all == items2(f, "parameters"@, "required"@));
    if all.contains(JsonView::Text("input"@)) {
        let i = choose|i: int| 0 <= i < all.len() && all[i] == JsonView::Text("input"@);
        assert(has_text(all, "input"@));
    }
    if has_text(all, "input"@) {
        let i = choose|i: int| 0 <= i < all.len() && #[trigger] all[i] == JsonView::Text("input"@);
        assert(all.contains(JsonView::Text("input"@)));
    }
    if f.text("description"@) is None {
        let none = Seq::<char>::empty();
        assert forall|i: int| !occurs_at(none, "Original custom tool definition"@, i) by {}
    }
}

} // verus!

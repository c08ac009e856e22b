//! From a chat completion to a Responses answer.
use vstd::prelude::*;

use crate::json::{array_view, empty_object, lemma_array_view, lemma_array_view_push, opt_view};
use crate::json::{or_empty, str_or_empty, Json, JsonView};
use crate::proxy::request::{call_id_of, chat_call};
use crate::proxy::stream::{message_item, message_item_json, output_part, output_part_json};
use crate::proxy::stream::{reasoning_item, reasoning_item_json, responses_usage, summary_part};
use crate::proxy::stream::{summary_part_json, usage_report};
use crate::proxy::tools::{arguments_object, chat_name, custom_input, custom_names};
use crate::proxy::tools::{custom_tool_input, custom_tool_names, items_of};
use crate::proxy::tools::{law_namespaced_names_come_back, parse_arguments_object, separable};
use crate::proxy::tools::{split_chat_tool_name, split_name};
use crate::proxy::usage::{usage_from_chat_usage, usage_of};
use crate::text::{contains_name, same_text, texts};

verus! {

/// The output item of a tool call in a complete answer.
pub open spec fn answer_item(call: JsonView, custom_tools: Set<Seq<char>>) -> JsonView {
    let call_id = or_empty(call.text("id"@));
    let name = or_empty(call.member("function"@).text("name"@));
    let arguments = or_empty(call.member("function"@).text("arguments"@));
    if name == "tool_search"@ {
        empty_object().with_text("type"@, "tool_search_call"@).with_text(
            "call_id"@,
            call_id,
        ).with_text("status"@, "completed"@).with_text("execution"@, "client"@).with(
            "arguments"@,
            arguments_object(arguments),
        )
    } else if custom_tools.contains(name) {
        empty_object().with_text("id"@, "ctc_"@ + call_id).with_text(
            "type"@,
            "custom_tool_call"@,
        ).with_text("status"@, "completed"@).with_text("call_id"@, call_id).with_text(
            "name"@,
            name,
        ).with_text("input"@, custom_input(arguments))
    } else {
        let item = empty_object().with_text("id"@, "fc_"@ + call_id).with_text(
            "type"@,
            "function_call"@,
        ).with_text("status"@, "completed"@).with_text("call_id"@, call_id).with_text(
            "name"@,
            split_name(name).1,
        ).with_text("arguments"@, arguments);
        match split_name(name).0 {
            Some(namespace) => item.with_text("namespace"@, namespace),
            None => item,
        }
    }
}

pub fn chat_tool_call_to_response_item(tool_call: &Json, custom_tools: &Vec<String>) -> (json: Json)
    ensures
        json@ == answer_item(tool_call@, texts(custom_tools@).to_set()),
{
    let call_id = str_or_empty(tool_call.text("id"));
    let function = tool_call.get("function");
    let name = str_or_empty(
        match function {
            Some(f) => f.text("name"),
            None => None,
        },
    );
    let arguments = str_or_empty(
        match function {
            Some(f) => f.text("arguments"),
            None => None,
        },
    );
    if same_text(name, "tool_search") {
        return Json::object().with_text("type", "tool_search_call").with_text(
            "call_id",
            call_id,
        ).with_text("status", "completed").with_text("execution", "client").with(
            "arguments",
            parse_arguments_object(arguments),
        );
    }
    if contains_name(custom_tools, name) {
        return Json::object().with_text("id", "ctc_".to_owned().concat(call_id).as_str()).with_text(
            "type",
            "custom_tool_call",
        ).with_text("status", "completed").with_text("call_id", call_id).with_text(
            "name",
            name,
        ).with_text("input", custom_tool_input(arguments).as_str());
    }
    let (namespace, short) = split_chat_tool_name(name);
    let item = Json::object().with_text("id", "fc_".to_owned().concat(call_id).as_str()).with_text(
        "type",
        "function_call",
    ).with_text("status", "completed").with_text("call_id", call_id).with_text(
        "name",
        short.as_str(),
    ).with_text("arguments", arguments);
    match namespace {
        Some(ns) => item.with_text("namespace", ns.as_str()),
        None => item,
    }
}

/// The first item of an array, or null where there is none.
pub open spec fn first_item(value: JsonView) -> JsonView {
    match value {
        JsonView::Array(items) => if items.len() > 0 {
            items[0]
        } else {
            JsonView::Null
        },
        _ => JsonView::Null,
    }
}

/// The message in a chat completion.
pub open spec fn completion_message(cr: JsonView) -> JsonView {
    first_item(cr.member("choices"@)).member("message"@)
}

/// The output items of the tool calls in a complete answer.
pub open spec fn answer_items(calls: Seq<JsonView>, custom_tools: Set<Seq<char>>) -> Seq<JsonView> {
    calls.map_values(|call: JsonView| answer_item(call, custom_tools))
}

/// The output of a complete answer: the reasoning, the message, the tool calls.
pub open spec fn answer_output(msg: JsonView, custom_tools: Set<Seq<char>>) -> Seq<JsonView> {
    (match msg.full_text("reasoning_content"@) {
        Some(text) => seq![reasoning_item("rs_1"@, JsonView::Array(seq![summary_part(text)]))],
        None => Seq::empty(),
    }) + (match msg.full_text("content"@) {
        Some(text) => seq![message_item("msg_1"@, JsonView::Array(seq![output_part(text)]))],
        None => Seq::empty(),
    }) + answer_items(msg.items("tool_calls"@), custom_tools)
}

/// The answer that stands for a chat completion.
pub open spec fn answer(cr: JsonView, fallback_model: Seq<char>, tools: Option<JsonView>) -> JsonView {
    empty_object().with("id"@, cr.member("id"@)).with_text("object"@, "response"@).with(
        "model"@,
        match cr.get("model"@) {
            Some(model) => model,
            None => JsonView::Text(fallback_model),
        },
    ).with_text("status"@, "completed"@).with(
        "output"@,
        JsonView::Array(answer_output(completion_message(cr), custom_names(items_of(tools)))),
    ).with("usage"@, usage_report(usage_of(Some(cr.member("usage"@)))))
}

fn message_of<'a>(cr: &'a Json, null: &'a Json) -> (msg: &'a Json)
    requires
        null@ is Null,
    ensures
        msg@ == completion_message(cr@),
{
    match cr.get("choices") {
        Some(Json::Array(choices)) => {
            proof {
                lemma_array_view(choices@);
            }
            if choices.is_empty() {
                return null;
            }
            assert(first_item(cr@.member("choices"@)) == choices@[0]@);
            match choices[0].get("message") {
                Some(msg) => msg,
                None => null,
            }
        },
        _ => null,
    }
}

fn member_or_null(json: &Json, key: &str) -> (member: Json)
    ensures
        member@ == json@.member(key@),
{
    match json.get(key) {
        Some(value) => value.clone(),
        None => Json::Null,
    }
}

fn output_of(msg: &Json, custom_tools: &Vec<String>) -> (output: Vec<Json>)
    ensures
        array_view(output@) == answer_output(msg@, texts(custom_tools@).to_set()),
{
    broadcast use lemma_array_view_push;

    let mut output: Vec<Json> = Vec::new();
    if let Some(text) = msg.full_text("reasoning_content") {
        output.push(reasoning_item_json("rs_1", Json::single(summary_part_json(text))));
    }
    if let Some(text) = msg.full_text("content") {
        output.push(message_item_json("msg_1", Json::single(output_part_json(text))));
    }
    let ghost head = array_view(output@);
    let ghost custom = texts(custom_tools@).to_set();
    let ghost all = answer_items(msg@.items("tool_calls"@), custom);
    match msg.get("tool_calls") {
        Some(Json::Array(calls)) => {
            proof {
                lemma_array_view(calls@);
                assert(head + all.take(0) =~= head);
            }
            let mut i: usize = 0;
            while i < calls.len()
                invariant
                    i <= calls@.len(),
                    custom == texts(custom_tools@).to_set(),
                    all == answer_items(array_view(calls@), custom),
                    array_view(calls@).len() == calls@.len(),
                    array_view(output@) == head + all.take(i as int),
                decreases calls@.len() - i,
            {
                broadcast use lemma_array_view, lemma_array_view_push;

                assert(array_view(calls@)[i as int] == calls@[i as int]@);
                let item = chat_tool_call_to_response_item(&calls[i], custom_tools);
                assert(all[i as int] == item@);
                assert((head + all.take(i as int)).push(item@) =~= head + all.take(i + 1));
                output.push(item);
                i += 1;
            }
            assert(all.take(i as int) =~= all);
        },
        _ => {
            assert(all =~= Seq::empty());
            assert(head + all =~= head);
        },
    }
    assert(head + all =~= answer_output(msg@, custom));
    output
}

pub fn chat_completion_to_response(cr: &Json, fallback_model: &str, tools: Option<&Json>) -> (json:
    Json)
    ensures
        json@ == answer(cr@, fallback_model@, opt_view(tools)),
{
    let null = Json::Null;
    let msg = message_of(cr, &null);
    let output = output_of(msg, &custom_tool_names(tools));
    let usage = member_or_null(cr, "usage");
    let report = responses_usage(&usage_from_chat_usage(Some(&usage)));
    let model = match cr.get("model") {
        Some(model) => model.clone(),
        None => Json::string(fallback_model),
    };
    Json::object().with("id", member_or_null(cr, "id")).with_text("object", "response").with(
        "model",
        model,
    ).with_text("status", "completed").with("output", Json::Array(output)).with("usage", report)
}

/// A function call that went out to the chat model and comes back from it is the call it was: its
/// id, its name, its namespace and its arguments are the same. The name has to be one that can be
/// told apart from its namespace, and none of those that mean something else.
pub proof fn law_calls_come_back(item: JsonView, custom_tools: Set<Seq<char>>)
    requires
        item.text("name"@) is Some,
        item.text("arguments"@) is Some,
        item.text("namespace"@) matches Some(ns) ==> separable(ns, item.text("name"@)->Some_0),
        item.text("namespace"@) is None ==> split_name(item.text("name"@)->Some_0).0 is None,
        chat_name(item.text("name"@)->Some_0, item.text("namespace"@)) != "tool_search"@,
        !custom_tools.contains(chat_name(item.text("name"@)->Some_0, item.text("namespace"@))),
    ensures
        ({
            let back = answer_item(chat_call(item, false), custom_tools);
            &&& back.text("type"@) == Some("function_call"@)
            &&& back.text("call_id"@) == Some(call_id_of(item))
            &&& back.text("name"@) == item.text("name"@)
            &&& back.text("namespace"@) == item.text("namespace"@)
            &&& back.text("arguments"@) == item.text("arguments"@)
        }),
{
    reveal_strlit("id");
    reveal_strlit("type");
    reveal_strlit("status");
    reveal_strlit("call_id");
    reveal_strlit("name");
    reveal_strlit("arguments");
    reveal_strlit("namespace");
    reveal_strlit("function");
    assert("id"@.len() == 2 && "type"@.len() == 4 && "status"@.len() == 6 && "call_id"@.len() == 7);
    assert("name"@.len() == 4 && "arguments"@.len() == 9 && "namespace"@.len() == 9);
    assert("function"@.len() == 8);
    assert("type"@[0] != "name"@[0]);
    assert("arguments"@[0] != "namespace"@[0]);
    let name = item.text("name"@)->Some_0;
    let full = chat_name(name, item.text("namespace"@));
    let call = chat_call(item, false);
    let function = call.member("function"@);
    assert(call.text("id"@) == Some(call_id_of(item)));
    assert(function.text("name"@) == Some(full));
    assert(function.text("arguments"@) == item.text("arguments"@));
    if let Some(ns) = item.text("namespace"@) {
        law_namespaced_names_come_back(ns, name);
    }
}

} // verus!

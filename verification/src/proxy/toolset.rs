//! Tool definitions on their way to a chat model.
use vstd::prelude::*;

use crate::codec::{json_text, to_json_text};
use crate::json::{array_view, empty_object, first_member, first_present, lemma_array_view};
use crate::json::{lemma_array_view_add, lemma_array_view_push, opt_json, opt_str, opt_string};
use crate::json::{opt_view, or_empty, str_of, str_or_empty, text_of, Json, JsonView};
use crate::proxy::tools::{chat_name, chat_tool_name, items_of};
use crate::text::{same_text, substance, trim_to_substance};

verus! {

// ── names ─────────────────────────────────────────────────────────────

/// The name in a tool definition, without the white space around it.
pub open spec fn defined_name(tool: JsonView) -> Option<Seq<char>> {
    match text_of(first_present(tool.get2("function"@, "name"@), tool.get("name"@))) {
        Some(name) => substance(name),
        None => None,
    }
}

pub fn tool_name(tool: &Json) -> (name: Option<String>)
    ensures
        opt_string(name) == defined_name(tool@),
{
    let value = match tool.get2("function", "name") {
        Some(v) => Some(v),
        None => tool.get("name"),
    };
    match str_of(value) {
        Some(name) => match trim_to_substance(name) {
            Some(t) => Some(t.to_owned()),
            None => None,
        },
        None => None,
    }
}

// ── definitions ───────────────────────────────────────────────────────

/// The chat definition around a function.
pub open spec fn chat_function(function: JsonView) -> JsonView {
    empty_object().with_text("type"@, "function"@).with("function"@, function)
}

fn chat_function_json(function: Json) -> (json: Json)
    ensures
        json@ == chat_function(function@),
{
    Json::object().with_text("type", "function").with("function", function)
}

/// The function in a tool definition, or one made of what stands around it.
pub open spec fn defined_function(tool: JsonView, name: Seq<char>) -> JsonView {
    match tool.get("function"@) {
        Some(function) => function,
        None => empty_object().with_text("name"@, name).with(
            "description"@,
            tool.member("description"@),
        ).with(
            "parameters"@,
            match tool.get("parameters"@) {
                Some(parameters) => parameters,
                None => empty_object(),
            },
        ),
    }
}

/// The chat definition of a function tool. It goes by its chat name. Whether it is strict may be
/// said inside or outside the function; inside counts first.
pub open spec fn function_tool(tool: JsonView, namespace: Option<Seq<char>>) -> Option<JsonView> {
    match defined_name(tool) {
        Some(short) => {
            let name = chat_name(short, namespace);
            let function = defined_function(tool, name);
            if function is Object {
                let named = function.with_text("name"@, name);
                Some(
                    chat_function(
                        match tool.get("strict"@) {
                            Some(strict) => if named.get("strict"@) is Some {
                                named
                            } else {
                                named.with("strict"@, strict)
                            },
                            None => named,
                        },
                    ),
                )
            } else {
                None
            }
        },
        None => None,
    }
}

pub fn convert_function_tool(tool: &Json, namespace: Option<&str>) -> (converted: Option<Json>)
    ensures
        opt_json(converted) == function_tool(tool@, opt_str(namespace)),
{
    match tool_name(tool) {
        Some(short) => {
            let name = chat_tool_name(short.as_str(), namespace);
            let function = match tool.get("function") {
                Some(function) => function.clone(),
                None => Json::object().with_text("name", name.as_str()).with(
                    "description",
                    match tool.get("description") {
                        Some(description) => description.clone(),
                        None => Json::Null,
                    },
                ).with(
                    "parameters",
                    match tool.get("parameters") {
                        Some(parameters) => parameters.clone(),
                        None => Json::object(),
                    },
                ),
            };
            if !function.is_object() {
                return None;
            }
            let named = function.with_text("name", name.as_str());
            let function = match tool.get("strict") {
                Some(strict) => if named.get("strict").is_some() {
                    named
                } else {
                    named.with("strict", strict.clone())
                },
                None => named,
            };
            Some(chat_function_json(function))
        },
        None => None,
    }
}

/// The parameters of a custom tool: one string.
pub open spec fn custom_parameters() -> JsonView {
    empty_object().with_text("type"@, "object"@).with(
        "properties"@,
        empty_object().with(
            "input"@,
            empty_object().with_text("type"@, "string"@).with_text(
                "description"@,
                "Raw string input for the original custom tool."@,
            ),
        ),
    ).with("required"@, JsonView::Array(seq![JsonView::Text("input"@)]))
}

/// The chat definition of a custom tool: a function of one string, with the definition it had in
/// its description.
pub open spec fn custom_tool(tool: JsonView) -> Option<JsonView> {
    match defined_name(tool) {
        Some(name) => Some(
            chat_function(
                empty_object().with_text("name"@, name).with_text(
                    "description"@,
                    "Original custom tool definition: "@ + json_text(tool),
                ).with("parameters"@, custom_parameters()),
            ),
        ),
        None => None,
    }
}

pub fn convert_custom_tool(tool: &Json) -> (converted: Option<Json>)
    ensures
        opt_json(converted) == custom_tool(tool@),
{
    match tool_name(tool) {
        Some(name) => {
            let parameters = Json::object().with_text("type", "object").with(
                "properties",
                Json::object().with(
                    "input",
                    Json::object().with_text("type", "string").with_text(
                        "description",
                        "Raw string input for the original custom tool.",
                    ),
                ),
            ).with("required", Json::single(Json::string("input")));
            Some(
                chat_function_json(
                    Json::object().with_text("name", name.as_str()).with_text(
                        "description",
                        "Original custom tool definition: ".to_owned().concat(
                            to_json_text(tool).as_str(),
                        ).as_str(),
                    ).with("parameters", parameters),
                ),
            )
        },
        None => None,
    }
}

/// The chat definition of the tool search.
pub open spec fn search_tool() -> JsonView {
    chat_function(
        empty_object().with_text("name"@, "tool_search"@).with_text(
            "description"@,
            "Search and load tools for the current task."@,
        ).with(
            "parameters"@,
            empty_object().with_text("type"@, "object"@).with(
                "properties"@,
                empty_object().with("query"@, empty_object().with_text("type"@, "string"@)).with(
                    "limit"@,
                    empty_object().with_text("type"@, "integer"@),
                ),
            ).with("required"@, JsonView::Array(seq![JsonView::Text("query"@)])),
        ),
    )
}

fn search_tool_json() -> (json: Json)
    ensures
        json@ == search_tool(),
{
    chat_function_json(
        Json::object().with_text("name", "tool_search").with_text(
            "description",
            "Search and load tools for the current task.",
        ).with(
            "parameters",
            Json::object().with_text("type", "object").with(
                "properties",
                Json::object().with("query", Json::object().with_text("type", "string")).with(
                    "limit",
                    Json::object().with_text("type", "integer"),
                ),
            ).with("required", Json::single(Json::string("query"))),
        ),
    )
}

/// The chat definitions of the tools of a namespace.
pub open spec fn function_tools(tools: Seq<JsonView>, namespace: Seq<char>) -> Seq<JsonView>
    decreases tools.len(),
{
    if tools.len() == 0 {
        Seq::empty()
    } else {
        match function_tool(tools.last(), Some(namespace)) {
            Some(tool) => function_tools(tools.drop_last(), namespace).push(tool),
            None => function_tools(tools.drop_last(), namespace),
        }
    }
}

pub open spec fn namespace_tools(tool: JsonView) -> Seq<JsonView> {
    match tool.text("name"@) {
        Some(namespace) => function_tools(
            items_of(first_present(tool.get("tools"@), tool.get("children"@))),
            namespace,
        ),
        None => Seq::empty(),
    }
}

pub fn convert_namespace_tool(tool: &Json) -> (converted: Vec<Json>)
    ensures
        array_view(converted@) == namespace_tools(tool@),
{
    let mut converted: Vec<Json> = Vec::new();
    let namespace = match tool.text("name") {
        Some(namespace) => namespace,
        None => {
            return converted;
        },
    };
    let children = first_member(tool, "tools", "children");
    let ghost all = items_of(opt_view(children));
    if let Some(Json::Array(items)) = children {
        proof {
            lemma_array_view(items@);
            assert(all.take(0) =~= Seq::empty());
        }
        let mut i: usize = 0;
        while i < items.len()
            invariant
                i <= items@.len(),
                all.len() == items@.len(),
                forall|k: int| 0 <= k < all.len() ==> #[trigger] all[k] == items@[k]@,
                array_view(converted@) == function_tools(all.take(i as int), namespace@),
            decreases items@.len() - i,
        {
            broadcast use lemma_array_view_push;

            assert(all.take(i + 1).drop_last() =~= all.take(i as int));
            assert(all.take(i + 1).last() == items@[i as int]@);
            if let Some(tool) = convert_function_tool(&items[i], Some(namespace)) {
                converted.push(tool);
            }
            i += 1;
        }
        assert(all.take(i as int) =~= all);
    }
    converted
}

pub open spec fn one_or_none(tool: Option<JsonView>) -> Seq<JsonView> {
    match tool {
        Some(t) => seq![t],
        None => Seq::empty(),
    }
}

fn one_or_no_item(tool: Option<Json>) -> (items: Vec<Json>)
    ensures
        array_view(items@) == one_or_none(opt_json(tool)),
{
    let mut items: Vec<Json> = Vec::new();
    if let Some(t) = tool {
        proof {
            lemma_array_view_push(items@, t);
        }
        items.push(t);
        assert(array_view(items@) =~= seq![t@]);
    }
    items
}

/// The chat definitions of one tool. A kind that chat models do not have gives none.
pub open spec fn chat_tool(tool: JsonView) -> Seq<JsonView> {
    let kind = tool.text("type"@);
    if kind == Some("function"@) {
        one_or_none(function_tool(tool, None))
    } else if kind == Some("custom"@) {
        one_or_none(custom_tool(tool))
    } else if kind == Some("tool_search"@) {
        seq![search_tool()]
    } else if kind == Some("namespace"@) {
        namespace_tools(tool)
    } else {
        Seq::empty()
    }
}

pub fn convert_tool(tool: &Json) -> (converted: Vec<Json>)
    ensures
        array_view(converted@) == chat_tool(tool@),
{
    match tool.text("type") {
        Some(kind) => if same_text(kind, "function") {
            one_or_no_item(convert_function_tool(tool, None))
        } else if same_text(kind, "custom") {
            one_or_no_item(convert_custom_tool(tool))
        } else if same_text(kind, "tool_search") {
            one_or_no_item(Some(search_tool_json()))
        } else if same_text(kind, "namespace") {
            convert_namespace_tool(tool)
        } else {
            Vec::new()
        },
        None => Vec::new(),
    }
}

/// The chat definitions of a row of tools.
pub open spec fn chat_tools(tools: Seq<JsonView>) -> Seq<JsonView>
    decreases tools.len(),
{
    if tools.len() == 0 {
        Seq::empty()
    } else {
        chat_tools(tools.drop_last()) + chat_tool(tools.last())
    }
}

pub fn convert_tools(tools: Option<&Json>) -> (converted: Vec<Json>)
    ensures
        array_view(converted@) == chat_tools(items_of(opt_view(tools))),
{
    let mut converted: Vec<Json> = Vec::new();
    let ghost all = items_of(opt_view(tools));
    if let Some(Json::Array(items)) = tools {
        proof {
            lemma_array_view(items@);
            assert(all.take(0) =~= Seq::empty());
        }
        let mut i: usize = 0;
        while i < items.len()
            invariant
                i <= items@.len(),
                all.len() == items@.len(),
                forall|k: int| 0 <= k < all.len() ==> #[trigger] all[k] == items@[k]@,
                array_view(converted@) == chat_tools(all.take(i as int)),
            decreases items@.len() - i,
        {
            broadcast use lemma_array_view_add;

            assert(all.take(i + 1).drop_last() =~= all.take(i as int));
            assert(all.take(i + 1).last() == items@[i as int]@);
            let mut more = convert_tool(&items[i]);
            converted.append(&mut more);
            i += 1;
        }
        assert(all.take(i as int) =~= all);
    }
    converted
}

/// The choice of the function with this name.
pub open spec fn function_choice(name: Seq<char>) -> JsonView {
    chat_function(empty_object().with_text("name"@, name))
}

/// What a chat model is told about the choice of a tool.
pub open spec fn chat_choice(choice: Option<JsonView>) -> Option<JsonView> {
    match choice {
        Some(JsonView::Text(s)) => Some(JsonView::Text(s)),
        Some(JsonView::Object(_)) => {
            let kind = choice->Some_0.text("type"@);
            if kind == Some("function"@) || kind == Some("custom"@) {
                Some(function_choice(or_empty(choice->Some_0.text("name"@))))
            } else if kind == Some("tool_search"@) {
                Some(function_choice("tool_search"@))
            } else {
                None
            }
        },
        _ => None,
    }
}

pub fn convert_tool_choice(tool_choice: Option<&Json>) -> (converted: Option<Json>)
    ensures
        opt_json(converted) == chat_choice(opt_view(tool_choice)),
{
    match tool_choice {
        Some(choice) => match choice {
            Json::Text(s) => Some(Json::Text(s.clone())),
            Json::Object(_) => match choice.text("type") {
                Some(kind) => if same_text(kind, "function") || same_text(kind, "custom") {
                    let name = str_or_empty(choice.text("name"));
                    Some(chat_function_json(Json::object().with_text("name", name)))
                } else if same_text(kind, "tool_search") {
                    Some(chat_function_json(Json::object().with_text("name", "tool_search")))
                } else {
                    None
                },
                None => None,
            },
            _ => {
                assert(!(choice@ is Text || choice@ is Object));
                None
            },
        },
        None => None,
    }
}

} // verus!

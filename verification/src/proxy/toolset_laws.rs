//! What holds of tool definitions and choices on their way to a chat model.
use vstd::prelude::*;

use crate::codec::json_text;
use crate::json::{empty_object, JsonView};
use crate::proxy::toolset::{chat_choice, chat_function, chat_tool, chat_tools, custom_parameters};
use crate::proxy::toolset::{custom_tool, defined_function, defined_name, function_choice};
use crate::proxy::toolset::{function_tool, function_tools, namespace_tools, search_tool};
use crate::text::trimmed;

verus! {

/// The words of tool definitions are all different.
proof fn lemma_definition_words()
    ensures
        "type"@ != "function"@,
        "type"@ != "name"@,
        "type"@ != "description"@,
        "type"@ != "parameters"@,
        "type"@ != "strict"@,
        "type"@ != "properties"@,
        "type"@ != "required"@,
        "type"@ != "input"@,
        "type"@ != "object"@,
        "type"@ != "string"@,
        "type"@ != "query"@,
        "type"@ != "limit"@,
        "type"@ != "integer"@,
        "type"@ != "tool_search"@,
        "type"@ != "custom"@,
        "type"@ != "namespace"@,
        "function"@ != "name"@,
        "function"@ != "description"@,
        "function"@ != "parameters"@,
        "function"@ != "strict"@,
        "function"@ != "properties"@,
        "function"@ != "required"@,
        "function"@ != "input"@,
        "function"@ != "object"@,
        "function"@ != "string"@,
        "function"@ != "query"@,
        "function"@ != "limit"@,
        "function"@ != "integer"@,
        "function"@ != "tool_search"@,
        "function"@ != "custom"@,
        "function"@ != "namespace"@,
        "name"@ != "description"@,
        "name"@ != "parameters"@,
        "name"@ != "strict"@,
        "name"@ != "properties"@,
        "name"@ != "required"@,
        "name"@ != "input"@,
        "name"@ != "object"@,
        "name"@ != "string"@,
        "name"@ != "query"@,
        "name"@ != "limit"@,
        "name"@ != "integer"@,
        "name"@ != "tool_search"@,
        "name"@ != "custom"@,
        "name"@ != "namespace"@,
        "description"@ != "parameters"@,
        "description"@ != "strict"@,
        "description"@ != "properties"@,
        "description"@ != "required"@,
        "description"@ != "input"@,
        "description"@ != "object"@,
        "description"@ != "string"@,
        "description"@ != "query"@,
        "description"@ != "limit"@,
        "description"@ != "integer"@,
        "description"@ != "tool_search"@,
        "description"@ != "custom"@,
        "description"@ != "namespace"@,
        "parameters"@ != "strict"@,
        "parameters"@ != "properties"@,
        "parameters"@ != "required"@,
        "parameters"@ != "input"@,
        "parameters"@ != "object"@,
        "parameters"@ != "string"@,
        "parameters"@ != "query"@,
        "parameters"@ != "limit"@,
        "parameters"@ != "integer"@,
        "parameters"@ != "tool_search"@,
        "parameters"@ != "custom"@,
        "parameters"@ != "namespace"@,
        "strict"@ != "properties"@,
        "strict"@ != "required"@,
        "strict"@ != "input"@,
        "strict"@ != "object"@,
        "strict"@ != "string"@,
        "strict"@ != "query"@,
        "strict"@ != "limit"@,
        "strict"@ != "integer"@,
        "strict"@ != "tool_search"@,
        "strict"@ != "custom"@,
        "strict"@ != "namespace"@,
        "properties"@ != "required"@,
        "properties"@ != "input"@,
        "properties"@ != "object"@,
        "properties"@ != "string"@,
        "properties"@ != "query"@,
        "properties"@ != "limit"@,
        "properties"@ != "integer"@,
        "properties"@ != "tool_search"@,
        "properties"@ != "custom"@,
        "properties"@ != "namespace"@,
        "required"@ != "input"@,
        "required"@ != "object"@,
        "required"@ != "string"@,
        "required"@ != "query"@,
        "required"@ != "limit"@,
        "required"@ != "integer"@,
        "required"@ != "tool_search"@,
        "required"@ != "custom"@,
        "required"@ != "namespace"@,
        "input"@ != "object"@,
        "input"@ != "string"@,
        "input"@ != "query"@,
        "input"@ != "limit"@,
        "input"@ != "integer"@,
        "input"@ != "tool_search"@,
        "input"@ != "custom"@,
        "input"@ != "namespace"@,
        "object"@ != "string"@,
        "object"@ != "query"@,
        "object"@ != "limit"@,
        "object"@ != "integer"@,
        "object"@ != "tool_search"@,
        "object"@ != "custom"@,
        "object"@ != "namespace"@,
        "string"@ != "query"@,
        "string"@ != "limit"@,
        "string"@ != "integer"@,
        "string"@ != "tool_search"@,
        "string"@ != "custom"@,
        "string"@ != "namespace"@,
        "query"@ != "limit"@,
        "query"@ != "integer"@,
        "query"@ != "tool_search"@,
        "query"@ != "custom"@,
        "query"@ != "namespace"@,
        "limit"@ != "integer"@,
        "limit"@ != "tool_search"@,
        "limit"@ != "custom"@,
        "limit"@ != "namespace"@,
        "integer"@ != "tool_search"@,
        "integer"@ != "custom"@,
        "integer"@ != "namespace"@,
        "tool_search"@ != "custom"@,
        "tool_search"@ != "namespace"@,
        "custom"@ != "namespace"@,
{
    reveal_strlit("type");
    reveal_strlit("function");
    reveal_strlit("name");
    reveal_strlit("description");
    reveal_strlit("parameters");
    reveal_strlit("strict");
    reveal_strlit("properties");
    reveal_strlit("required");
    reveal_strlit("input");
    reveal_strlit("object");
    reveal_strlit("string");
    reveal_strlit("query");
    reveal_strlit("limit");
    reveal_strlit("integer");
    reveal_strlit("tool_search");
    reveal_strlit("custom");
    reveal_strlit("namespace");
    assert("type"@.len() == 4);
    assert("function"@.len() == 8);
    assert("name"@.len() == 4);
    assert("description"@.len() == 11);
    assert("parameters"@.len() == 10);
    assert("strict"@.len() == 6);
    assert("properties"@.len() == 10);
    assert("required"@.len() == 8);
    assert("input"@.len() == 5);
    assert("object"@.len() == 6);
    assert("string"@.len() == 6);
    assert("query"@.len() == 5);
    assert("limit"@.len() == 5);
    assert("integer"@.len() == 7);
    assert("tool_search"@.len() == 11);
    assert("custom"@.len() == 6);
    assert("namespace"@.len() == 9);
    assert("type"@[0] != "name"@[0]);
    assert("function"@[0] != "required"@[0]);
    assert("description"@[0] != "tool_search"@[0]);
    assert("parameters"@[1] != "properties"@[1]);
    assert("strict"@[0] != "object"@[0]);
    assert("strict"@[4] != "string"@[4]);
    assert("strict"@[0] != "custom"@[0]);
    assert("input"@[0] != "query"@[0]);
    assert("input"@[0] != "limit"@[0]);
    assert("object"@[0] != "string"@[0]);
    assert("object"@[0] != "custom"@[0]);
    assert("string"@[0] != "custom"@[0]);
    assert("query"@[0] != "limit"@[0]);
}

// ── functions ─────────────────────────────────────────────────────────

/// The name that a definition tells: the string in its function, or else beside it, without white
/// space around it. None where that is blank.
pub open spec fn told_name(tool: JsonView) -> Option<Seq<char>> {
    let told = if tool.member("function"@).get("name"@) is Some {
        tool.member("function"@).member("name"@)
    } else {
        tool.member("name"@)
    };
    match told {
        JsonView::Text(s) => if trimmed(s).len() > 0 {
            Some(trimmed(s))
        } else {
            None
        },
        _ => None,
    }
}

/// Whether a definition defines a function: it has a name, and where it has a function, that is an
/// object.
pub open spec fn defines_function(tool: JsonView) -> bool {
    told_name(tool) is Some && (tool.get("function"@) matches Some(function) ==> function is Object)
}

/// Whether `chat` is what a chat model is told of a function: it goes by the name that was told,
/// after its namespace, and everything else that was said of it is still said.
pub open spec fn tells_function(
    chat: JsonView,
    tool: JsonView,
    namespace: Option<Seq<char>>,
) -> bool {
    let f = chat.member("function"@);
    &&& chat.text("type"@) == Some("function"@)
    &&& f.text("name"@) == Some(
        match namespace {
            Some(ns) => ns + "__"@ + told_name(tool)->Some_0,
            None => told_name(tool)->Some_0,
        },
    )
    &&& match tool.get("function"@) {
        Some(function) => {
            &&& forall|key: Seq<char>|
                key != "name"@ && key != "strict"@ ==> #[trigger] f.get(key) == function.get(key)
            &&& f.get("strict"@) == if function.get("strict"@) is Some {
                function.get("strict"@)
            } else {
                tool.get("strict"@)
            }
        },
        None => {
            &&& f.get("description"@) == Some(tool.member("description"@))
            &&& f.get("parameters"@) == Some(
                if tool.get("parameters"@) is Some {
                    tool.member("parameters"@)
                } else {
                    empty_object()
                },
            )
            &&& f.get("strict"@) == tool.get("strict"@)
        },
    }
}

/// A definition with a name gives a chat function that keeps what was said, and no other
/// definition gives one.
pub proof fn law_functions_keep_their_definition(tool: JsonView, namespace: Option<Seq<char>>)
    ensures
        function_tool(tool, namespace) is Some <==> defines_function(tool),
        function_tool(tool, namespace) matches Some(chat) ==> tells_function(chat, tool, namespace),
{
    lemma_definition_words();
    assert(defined_name(tool) == told_name(tool));
    if let Some(chat) = function_tool(tool, namespace) {
        let f = chat.member("function"@);
        assert(chat.get("function"@) is Some);
        if let Some(function) = tool.get("function"@) {
            assert forall|key: Seq<char>| key != "name"@ && key != "strict"@ implies #[trigger] f.get(
                key,
            ) == function.get(key) by {}
        }
    }
}

// ── namespaces ────────────────────────────────────────────────────────

/// The tools that a namespace lists: under `tools`, or else under `children`.
pub open spec fn listed(tool: JsonView) -> Seq<JsonView> {
    if tool.get("tools"@) is Some {
        tool.items("tools"@)
    } else {
        tool.items("children"@)
    }
}

/// Those of the definitions that define functions, in order.
pub open spec fn definitions(tools: Seq<JsonView>) -> Seq<JsonView> {
    tools.filter(|tool: JsonView| defines_function(tool))
}

proof fn lemma_function_tools(tools: Seq<JsonView>, namespace: Seq<char>)
    ensures
        function_tools(tools, namespace).len() == definitions(tools).len(),
        forall|k: int|
            0 <= k < definitions(tools).len() ==> tells_function(
                #[trigger] function_tools(tools, namespace)[k],
                definitions(tools)[k],
                Some(namespace),
            ),
    decreases tools.len(),
{
    reveal(Seq::filter);
    if tools.len() > 0 {
        lemma_function_tools(tools.drop_last(), namespace);
        law_functions_keep_their_definition(tools.last(), Some(namespace));
        let before = function_tools(tools.drop_last(), namespace);
        let after = function_tools(tools, namespace);
        let kept = definitions(tools);
        assert forall|k: int| 0 <= k < kept.len() implies tells_function(
            #[trigger] after[k],
            kept[k],
            Some(namespace),
        ) by {
            if k < before.len() {
                assert(after[k] == before[k]);
                assert(kept[k] == definitions(tools.drop_last())[k]);
            }
        }
    }
}

/// Every function that a namespace lists reaches the chat model, in order, under the name of the
/// namespace and its own, and nothing else does.
pub proof fn law_namespaces_keep_their_tools(tool: JsonView, namespace: Seq<char>)
    requires
        tool.text("name"@) == Some(namespace),
    ensures
        namespace_tools(tool).len() == definitions(listed(tool)).len(),
        forall|k: int|
            0 <= k < definitions(listed(tool)).len() ==> tells_function(
                #[trigger] namespace_tools(tool)[k],
                definitions(listed(tool))[k],
                Some(namespace),
            ),
{
    lemma_function_tools(listed(tool), namespace);
}

// ── every kind of tool ────────────────────────────────────────────────

/// Whether `chat` is what a chat model is told of a custom tool: a function of one string, whose
/// description holds all that was said of the tool.
pub open spec fn tells_custom(chat: JsonView, tool: JsonView) -> bool {
    let f = chat.member("function"@);
    let p = f.member("parameters"@);
    &&& chat.text("type"@) == Some("function"@)
    &&& f.text("name"@) == told_name(tool)
    &&& f.text("description"@) == Some("Original custom tool definition: "@ + json_text(tool))
    &&& p.text("type"@) == Some("object"@)
    &&& p.items("required"@) == seq![JsonView::Text("input"@)]
    &&& p.member("properties"@).member("input"@).text("type"@) == Some("string"@)
}

/// Whether `chat` is what a chat model is told of the tool search: it takes a query, and may take
/// a limit.
pub open spec fn tells_search(chat: JsonView) -> bool {
    let f = chat.member("function"@);
    let p = f.member("parameters"@);
    &&& chat.text("type"@) == Some("function"@)
    &&& f.text("name"@) == Some("tool_search"@)
    &&& f.full_text("description"@) is Some
    &&& p.text("type"@) == Some("object"@)
    &&& p.items("required"@) == seq![JsonView::Text("query"@)]
    &&& p.member("properties"@).member("query"@).text("type"@) == Some("string"@)
    &&& p.member("properties"@).member("limit"@).text("type"@) == Some("integer"@)
}

proof fn lemma_search()
    ensures
        tells_search(search_tool()),
{
    lemma_definition_words();
    reveal_strlit("Search and load tools for the current task.");
    let properties = empty_object().with("query"@, empty_object().with_text("type"@, "string"@)).with(
        "limit"@,
        empty_object().with_text("type"@, "integer"@),
    );
    assert(properties.get("query"@) == Some(empty_object().with_text("type"@, "string"@)));
    assert(properties.get("limit"@) == Some(empty_object().with_text("type"@, "integer"@)));
    let chat = search_tool();
    let p = chat.member("function"@).member("parameters"@);
    assert(p.get("properties"@) == Some(properties));
}

proof fn lemma_custom(tool: JsonView)
    ensures
        custom_tool(tool) is Some <==> told_name(tool) is Some,
        custom_tool(tool) matches Some(chat) ==> tells_custom(chat, tool),
{
    lemma_definition_words();
    assert(defined_name(tool) == told_name(tool));
    let p = custom_parameters();
    assert(p.items("required"@) =~= seq![JsonView::Text("input"@)]);
    assert(p.member("properties"@).member("input"@).text("type"@) == Some("string"@));
    if let Some(chat) = custom_tool(tool) {
        assert(chat.member("function"@).get("parameters"@) == Some(p));
    }
}

/// Every tool of a request reaches the chat model in the form of its kind, and a kind that chat
/// models do not have gives nothing.
pub proof fn law_every_kind_of_tool_is_told(tool: JsonView)
    ensures
        ({
            let kind = tool.text("type"@);
            let chat = chat_tool(tool);
            &&& kind == Some("function"@) ==> if defines_function(tool) {
                chat.len() == 1 && tells_function(chat[0], tool, None)
            } else {
                chat.len() == 0
            }
            &&& kind == Some("custom"@) ==> if told_name(tool) is Some {
                chat.len() == 1 && tells_custom(chat[0], tool)
            } else {
                chat.len() == 0
            }
            &&& kind == Some("tool_search"@) ==> chat.len() == 1 && tells_search(chat[0])
            &&& kind == Some("namespace"@) ==> (tool.text("name"@) matches Some(ns) ==> chat.len()
                == definitions(listed(tool)).len() && forall|k: int|
                0 <= k < chat.len() ==> tells_function(
                    #[trigger] chat[k],
                    definitions(listed(tool))[k],
                    Some(ns),
                ))
            &&& kind == Some("namespace"@) && tool.text("name"@) is None ==> chat.len() == 0
            &&& kind != Some("function"@) && kind != Some("custom"@) && kind != Some(
                "tool_search"@,
            ) && kind != Some("namespace"@) ==> chat.len() == 0
        }),
{
    lemma_definition_words();
    law_functions_keep_their_definition(tool, None);
    lemma_custom(tool);
    lemma_search();
    if let Some(ns) = tool.text("name"@) {
        law_namespaces_keep_their_tools(tool, ns);
    }
}

/// Tools are told one after the other: what is told of some tools and then others is what is told
/// of the former and then of the latter.
pub proof fn law_tools_are_told_in_order(a: Seq<JsonView>, b: Seq<JsonView>, tool: JsonView)
    ensures
        chat_tools(a + b) == chat_tools(a) + chat_tools(b),
        chat_tools(seq![tool]) == chat_tool(tool),
        chat_tools(Seq::empty()) == Seq::<JsonView>::empty(),
    decreases b.len(),
{
    let one = seq![tool];
    assert(one.drop_last() =~= Seq::empty());
    reveal_with_fuel(chat_tools, 2);
    assert(chat_tools(one) =~= chat_tool(tool));
    if b.len() == 0 {
        assert(a + b =~= a);
        assert(chat_tools(a) + Seq::<JsonView>::empty() =~= chat_tools(a));
    } else {
        assert((a + b).drop_last() =~= a + b.drop_last());
        law_tools_are_told_in_order(a, b.drop_last(), tool);
        assert(chat_tools(a) + (chat_tools(b.drop_last()) + chat_tool(b.last())) =~= chat_tools(a)
            + chat_tools(b.drop_last()) + chat_tool(b.last()));
    }
}

// ── choices ───────────────────────────────────────────────────────────

/// Whether `chat` chooses the function with this name.
pub open spec fn chooses(chat: Option<JsonView>, name: Seq<char>) -> bool {
    &&& chat is Some
    &&& chat->Some_0.text("type"@) == Some("function"@)
    &&& chat->Some_0.member("function"@).text("name"@) == Some(name)
}

/// A choice in a word stays as it is. A choice of a tool is one of the function with its name. Any
/// other choice is not passed on.
pub proof fn law_choices_are_passed_on(choice: JsonView)
    ensures
        chat_choice(None) is None,
        choice is Text ==> chat_choice(Some(choice)) == Some(choice),
        choice.text("type"@) == Some("function"@) || choice.text("type"@) == Some("custom"@)
            ==> chooses(
            chat_choice(Some(choice)),
            match choice.text("name"@) {
                Some(name) => name,
                None => Seq::empty(),
            },
        ),
        choice.text("type"@) == Some("tool_search"@) ==> chooses(
            chat_choice(Some(choice)),
            "tool_search"@,
        ),
        !(choice is Text) && choice.text("type"@) != Some("function"@) && choice.text("type"@)
            != Some("custom"@) && choice.text("type"@) != Some("tool_search"@) ==> chat_choice(
            Some(choice),
        ) is None,
{
    lemma_definition_words();
    let name = match choice.text("name"@) {
        Some(name) => name,
        None => Seq::empty(),
    };
    assert(chooses(Some(function_choice(name)), name));
    assert(chooses(Some(function_choice("tool_search"@)), "tool_search"@));
}

} // verus!

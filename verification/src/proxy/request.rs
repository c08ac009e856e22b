//! From a Responses request to a chat completion request.
use vstd::prelude::*;

use crate::codec::{is_plain, json_text, to_json_text};
use crate::json::{array_view, empty_object, first_member, first_of, first_present};
use crate::json::{lemma_array_view, lemma_array_view_push, opt_str, opt_string, or_empty, str_of};
use crate::json::{str_or_empty, text_of, Json, JsonView};
use crate::proxy::content::{flat, flatten_content, output_text, result_text};
use crate::proxy::tools::{chat_name, chat_tool_name, custom_input, items_of};
use crate::proxy::toolset::{chat_choice, chat_tools, convert_tool_choice, convert_tools};
use crate::text::{blank, is_blank, join, joined, lemma_not_blank, lemma_texts_push, lowered};
use crate::text::{same_text, substance, texts, to_lower, trim, trim_to_substance, trimmed};

verus! {

// ── roles ─────────────────────────────────────────────────────────────

/// The role that a chat model knows for a role.
pub open spec fn chat_role(role: Seq<char>) -> Seq<char> {
    if role == "system"@ || role == "developer"@ {
        "system"@
    } else if role == "assistant"@ {
        "assistant"@
    } else if role == "tool"@ {
        "tool"@
    } else {
        "user"@
    }
}

pub fn normalize_role(role: &str) -> (normalized: &str)
    ensures
        normalized@ == chat_role(role@),
{
    if same_text(role, "system") || same_text(role, "developer") {
        "system"
    } else if same_text(role, "assistant") {
        "assistant"
    } else if same_text(role, "tool") {
        "tool"
    } else {
        "user"
    }
}

// ── reasoning ─────────────────────────────────────────────────────────

/// The reasoning that comes with an item.
pub open spec fn item_reasoning(item: JsonView) -> Option<Seq<char>> {
    first_of(
        item.full_text("reasoning_content"@),
        first_of(
            item.full_text("reasoning"@),
            match item.get("reasoning"@) {
                Some(reasoning) => first_of(
                    reasoning.full_text("content"@),
                    first_of(reasoning.full_text("text"@), reasoning.full_text("summary"@)),
                ),
                None => None,
            },
        ),
    )
}

fn owned(s: &str) -> (t: Option<String>)
    ensures
        opt_string(t) == Some(s@),
{
    Some(s.to_owned())
}

pub fn extract_item_reasoning_text(item: &Json) -> (text: Option<String>)
    ensures
        opt_string(text) == item_reasoning(item@),
{
    if let Some(text) = item.full_text("reasoning_content") {
        return owned(text);
    }
    if let Some(text) = item.full_text("reasoning") {
        return owned(text);
    }
    if let Some(reasoning) = item.get("reasoning") {
        if let Some(text) = reasoning.full_text("content") {
            return owned(text);
        }
        if let Some(text) = reasoning.full_text("text") {
            return owned(text);
        }
        if let Some(text) = reasoning.full_text("summary") {
            return owned(text);
        }
    }
    None
}

/// The text of a part of a reasoning summary.
pub open spec fn summary_text(part: JsonView) -> Option<Seq<char>> {
    first_of(part.text("text"@), first_of(part.text("content"@), part.as_text()))
}

/// The texts of the parts of a reasoning summary that are not empty.
pub open spec fn summary_texts(parts: Seq<JsonView>) -> Seq<Seq<char>>
    decreases parts.len(),
{
    if parts.len() == 0 {
        Seq::empty()
    } else {
        match summary_text(parts.last()) {
            Some(text) => if text.len() > 0 {
                summary_texts(parts.drop_last()).push(text)
            } else {
                summary_texts(parts.drop_last())
            },
            None => summary_texts(parts.drop_last()),
        }
    }
}

pub open spec fn unless_empty(s: Seq<char>) -> Option<Seq<char>> {
    if s.len() > 0 {
        Some(s)
    } else {
        None
    }
}

/// The text of a reasoning item.
pub open spec fn reasoning_text(item: JsonView) -> Option<Seq<char>> {
    first_of(
        item.full_text("reasoning_content"@),
        first_of(
            item.full_text("content"@),
            first_of(
                item.full_text("text"@),
                match item.get("summary"@) {
                    Some(JsonView::Text(s)) => unless_empty(s),
                    Some(JsonView::Array(parts)) => unless_empty(
                        joined(summary_texts(parts), "\n\n"@),
                    ),
                    _ => None,
                },
            ),
        ),
    )
}

fn summary_str(part: &Json) -> (text: Option<&str>)
    ensures
        opt_str(text) == summary_text(part@),
{
    if let Some(text) = part.text("text") {
        return Some(text);
    }
    if let Some(text) = part.text("content") {
        return Some(text);
    }
    part.as_str()
}

fn join_summary(parts: &Vec<Json>) -> (text: String)
    ensures
        text@ == joined(summary_texts(array_view(parts@)), "\n\n"@),
{
    let ghost all = array_view(parts@);
    proof {
        lemma_array_view(parts@);
        assert(all.take(0) =~= Seq::empty());
    }
    let mut found: Vec<String> = Vec::new();
    let mut i: usize = 0;
    assert(texts(found@) =~= Seq::empty());
    while i < parts.len()
        invariant
            i <= parts@.len(),
            all.len() == parts@.len(),
            forall|k: int| 0 <= k < all.len() ==> #[trigger] all[k] == parts@[k]@,
            texts(found@) == summary_texts(all.take(i as int)),
        decreases parts@.len() - i,
    {
        broadcast use lemma_texts_push;

        assert(all.take(i + 1).drop_last() =~= all.take(i as int));
        assert(all.take(i + 1).last() == parts@[i as int]@);
        if let Some(text) = summary_str(&parts[i]) {
            if !text.is_empty() {
                found.push(text.to_owned());
            }
        }
        i += 1;
    }
    assert(all.take(i as int) =~= all);
    join(&found, "\n\n")
}

pub fn extract_reasoning_summary_text(item: &Json) -> (text: Option<String>)
    ensures
        opt_string(text) == reasoning_text(item@),
{
    if let Some(text) = item.full_text("reasoning_content") {
        return owned(text);
    }
    if let Some(text) = item.full_text("content") {
        return owned(text);
    }
    if let Some(text) = item.full_text("text") {
        return owned(text);
    }
    match item.get("summary") {
        Some(summary) => match summary {
            Json::Text(s) => if s.as_str().is_empty() {
                None
            } else {
                Some(s.clone())
            },
            Json::Array(parts) => {
                let text = join_summary(parts);
                if text.as_str().is_empty() {
                    None
                } else {
                    Some(text)
                }
            },
            _ => {
                assert(!(summary@ is Text || summary@ is Array));
                None
            },
        },
        None => None,
    }
}

/// Two pieces of reasoning as one.
pub open spec fn both(a: Seq<char>, b: Seq<char>) -> Seq<char> {
    a + "\n\n"@ + b
}

/// The reasoning that waits for its message, with some more of it.
pub open spec fn appended(pending: Option<Seq<char>>, extra: Option<Seq<char>>) -> Option<
    Seq<char>,
> {
    match extra {
        Some(text) => match substance(text) {
            Some(t) => match pending {
                Some(p) => if p.len() > 0 {
                    Some(both(p, t))
                } else {
                    Some(t)
                },
                None => Some(t),
            },
            None => pending,
        },
        None => pending,
    }
}

fn join_reasoning(a: &str, b: &str) -> (t: String)
    ensures
        t@ == both(a@, b@),
{
    a.to_owned().concat("\n\n").concat(b)
}

pub fn append_reasoning(pending: &mut Option<String>, extra: Option<String>)
    ensures
        opt_string(*final(pending)) == appended(opt_string(*old(pending)), opt_string(extra)),
{
    let extra = match &extra {
        Some(text) => trim_to_substance(text.as_str()),
        None => None,
    };
    if let Some(t) = extra {
        let next = match pending {
            Some(p) => if p.as_str().is_empty() {
                t.to_owned()
            } else {
                join_reasoning(p.as_str(), t)
            },
            None => t.to_owned(),
        };
        *pending = Some(next);
    }
}

/// A message with more reasoning after the reasoning it has.
pub open spec fn more_reasoned(msg: JsonView, reasoning: Seq<char>) -> JsonView {
    msg.with_text(
        "reasoning_content"@,
        match msg.full_text("reasoning_content"@) {
            Some(existing) => both(existing, reasoning),
            None => reasoning,
        },
    )
}

fn with_more_reasoning(msg: Json, reasoning: &str) -> (json: Json)
    ensures
        json@ == more_reasoned(msg@, reasoning@),
{
    let text = match msg.full_text("reasoning_content") {
        Some(existing) => join_reasoning(existing, reasoning),
        None => reasoning.to_owned(),
    };
    msg.with_text("reasoning_content", text.as_str())
}

/// A message with the reasoning that waited for it.
pub open spec fn attached(msg: JsonView, pending: Option<Seq<char>>) -> JsonView {
    match pending {
        Some(reasoning) => if is_blank(reasoning) {
            msg
        } else {
            more_reasoned(msg, reasoning)
        },
        None => msg,
    }
}

/// Hands the reasoning that waits over to a message.
pub fn attach_reasoning_to_message(msg: Json, pending: &mut Option<String>) -> (json: Json)
    ensures
        json@ == attached(msg@, opt_string(*old(pending))),
        *final(pending) == None::<String>,
{
    match pending.take() {
        Some(reasoning) => if blank(reasoning.as_str()) {
            msg
        } else {
            with_more_reasoning(msg, reasoning.as_str())
        },
        None => msg,
    }
}

// ── tool calls ────────────────────────────────────────────────────────

/// The id under which a call and its result find each other.
pub open spec fn call_id_of(item: JsonView) -> Seq<char> {
    or_empty(text_of(first_present(item.get("call_id"@), item.get("id"@))))
}

fn call_id_str(item: &Json) -> (id: &str)
    ensures
        id@ == call_id_of(item@),
{
    str_or_empty(str_of(first_member(item, "call_id", "id")))
}

/// The arguments of a custom tool call: an object with its input.
pub open spec fn input_object(item: JsonView) -> JsonView {
    empty_object().with(
        "input"@,
        match item.get("input"@) {
            Some(input) => input,
            None => JsonView::Text(Seq::empty()),
        },
    )
}

/// The arguments of a call as a chat model knows them.
pub open spec fn arguments_text(item: JsonView, custom: bool) -> Seq<char> {
    if custom {
        json_text(input_object(item))
    } else {
        match item.get("arguments"@) {
            Some(JsonView::Text(s)) => s,
            Some(other) => json_text(other),
            None => "{}"@,
        }
    }
}

/// A call as a chat model knows it.
pub open spec fn chat_call(item: JsonView, custom: bool) -> JsonView {
    empty_object().with_text("id"@, call_id_of(item)).with_text("type"@, "function"@).with(
        "function"@,
        empty_object().with_text(
            "name"@,
            chat_name(or_empty(item.text("name"@)), item.text("namespace"@)),
        ).with_text("arguments"@, arguments_text(item, custom)),
    )
}

/// What a custom tool gets of an input: a string as it is, anything else as JSON text.
pub open spec fn input_text(input: JsonView) -> Seq<char> {
    match input {
        JsonView::Text(s) => s,
        other => json_text(other),
    }
}

/// A call as a chat model knows it. A custom tool finds the input it was called with in the
/// arguments again.
pub fn build_tool_call(item: &Json, custom: bool) -> (json: Json)
    ensures
        json@ == chat_call(item@, custom),
        custom && is_plain(input_object(item@), 127) ==> custom_input(arguments_text(item@, true))
            == input_text(input_object(item@).member("input"@)),
        custom && input_object(item@).member("input"@) is Text ==> custom_input(
            arguments_text(item@, true),
        ) == input_object(item@).member("input"@)->Text_0,
{
    let name = chat_tool_name(str_or_empty(item.text("name")), item.text("namespace"));
    let arguments = if custom {
        let input = match item.get("input") {
            Some(input) => input.clone(),
            None => Json::Text(String::new()),
        };
        let object = Json::object().with("input", input);
        assert(object@ == input_object(item@));
        let text = to_json_text(&object);
        proof {
            lemma_not_blank(text@);
            reveal_with_fuel(is_plain, 2);
        }
        text
    } else {
        match item.get("arguments") {
            Some(arguments) => match arguments {
                Json::Text(s) => s.clone(),
                _ => {
                    assert(!(arguments@ is Text));
                    to_json_text(arguments)
                },
            },
            None => "{}".to_owned(),
        }
    };
    Json::object().with_text("id", call_id_str(item)).with_text("type", "function").with(
        "function",
        Json::object().with_text("name", name.as_str()).with_text("arguments", arguments.as_str()),
    )
}

// ── the conversation so far ───────────────────────────────────────────

/// A conversation in the making: the messages, the calls and the reasoning that wait for a
/// message of their own, and where the assistant spoke last.
pub struct Draft {
    pub messages: Vec<Json>,
    pub pending_tool_calls: Vec<Json>,
    pub pending_reasoning: Option<String>,
    pub last_assistant_index: Option<usize>,
}

pub struct DraftView {
    pub messages: Seq<JsonView>,
    pub calls: Seq<JsonView>,
    pub reasoning: Option<Seq<char>>,
    pub last: Option<usize>,
}

impl View for Draft {
    type V = DraftView;

    open spec fn view(&self) -> DraftView {
        DraftView {
            messages: array_view(self.messages@),
            calls: array_view(self.pending_tool_calls@),
            reasoning: opt_string(self.pending_reasoning),
            last: self.last_assistant_index,
        }
    }
}

/// The assistant's message that makes these calls.
pub open spec fn calling(calls: Seq<JsonView>) -> JsonView {
    empty_object().with_text("role"@, "assistant"@).with("content"@, JsonView::Null).with(
        "tool_calls"@,
        JsonView::Array(calls),
    )
}

/// The conversation once the calls that wait have got their message.
pub open spec fn flushed(d: DraftView) -> DraftView {
    if d.calls.len() == 0 {
        d
    } else {
        DraftView {
            messages: d.messages.push(attached(calling(d.calls), d.reasoning)),
            calls: Seq::empty(),
            reasoning: None,
            last: Some(d.messages.len() as usize),
        }
    }
}

/// Where reasoning that comes late finds the assistant's message it belongs to.
pub open spec fn reasoning_home(d: DraftView) -> Option<int> {
    match d.last {
        Some(i) => if i < d.messages.len() && d.messages[i as int].text("role"@) == Some(
            "assistant"@,
        ) {
            Some(i as int)
        } else {
            None
        },
        None => None,
    }
}

/// The conversation once a reasoning item has come. It goes to the message the assistant spoke
/// last, or waits for the next one.
pub open spec fn reasoned(d: DraftView, text: Option<Seq<char>>) -> DraftView {
    let home = reasoning_home(d);
    if d.calls.len() == 0 && home is Some {
        match text {
            Some(t) => match substance(t) {
                Some(reasoning) => DraftView {
                    messages: d.messages.update(
                        home->Some_0,
                        more_reasoned(d.messages[home->Some_0], reasoning),
                    ),
                    ..d
                },
                None => d,
            },
            None => d,
        }
    } else {
        DraftView { reasoning: appended(d.reasoning, text), ..d }
    }
}

/// A message as a chat model knows it. The assistant's takes the reasoning that waits.
pub open spec fn chat_message(item: JsonView, pending: Option<Seq<char>>) -> JsonView {
    let role = chat_role(
        match item.text("role"@) {
            Some(role) => role,
            None => "user"@,
        },
    );
    let msg = empty_object().with_text("role"@, role).with(
        "content"@,
        flat(item.member("content"@)),
    );
    if role == "assistant"@ {
        attached(msg, appended(pending, item_reasoning(item)))
    } else {
        msg
    }
}

/// Where the assistant spoke last once `msg` has been added.
pub open spec fn last_after(d: DraftView, msg: JsonView) -> Option<usize> {
    if msg.text("role"@) == Some("assistant"@) {
        Some(d.messages.len() as usize)
    } else if msg.text("role"@) == Some("tool"@) {
        d.last
    } else {
        None
    }
}

/// The conversation once a message has come.
pub open spec fn spoken(d: DraftView, item: JsonView) -> DraftView {
    if item.get("role"@) is Some || item.get("content"@) is Some {
        let msg = chat_message(item, d.reasoning);
        DraftView {
            messages: d.messages.push(msg),
            reasoning: None,
            last: last_after(d, msg),
            ..d
        }
    } else {
        d
    }
}

/// The message that hands back what a tool gave.
pub open spec fn tool_result(item: JsonView) -> JsonView {
    empty_object().with_text("role"@, "tool"@).with_text("tool_call_id"@, call_id_of(item)).with_text(
        "content"@,
        result_text(item.member("output"@)),
    )
}

/// Whether an item is a call, and of which kind.
pub open spec fn call_kind(item: JsonView) -> Option<bool> {
    if item.text("type"@) == Some("function_call"@) {
        Some(false)
    } else if item.text("type"@) == Some("custom_tool_call"@) {
        Some(true)
    } else {
        None
    }
}

/// Whether an item is what a tool gave back.
pub open spec fn is_result(item: JsonView) -> bool {
    item.text("type"@) == Some("function_call_output"@) || item.text("type"@) == Some(
        "custom_tool_call_output"@,
    )
}

/// The conversation once an item has come.
pub open spec fn item_step(d: DraftView, item: JsonView) -> DraftView {
    if call_kind(item) is Some {
        DraftView {
            calls: d.calls.push(chat_call(item, call_kind(item)->Some_0)),
            reasoning: appended(d.reasoning, item_reasoning(item)),
            ..d
        }
    } else if is_result(item) {
        let f = flushed(d);
        DraftView { messages: f.messages.push(tool_result(item)), ..f }
    } else if item.text("type"@) == Some("reasoning"@) {
        reasoned(d, reasoning_text(item))
    } else {
        spoken(flushed(d), item)
    }
}

/// The conversation once a row of items has come.
pub open spec fn items_step(d: DraftView, items: Seq<JsonView>) -> DraftView
    decreases items.len(),
{
    if items.len() == 0 {
        d
    } else {
        item_step(items_step(d, items.drop_last()), items.last())
    }
}

impl Draft {
    fn flush_pending_tool_calls(&mut self)
        ensures
            final(self)@ == flushed(old(self)@),
    {
        broadcast use lemma_array_view, lemma_array_view_push;

        if self.pending_tool_calls.is_empty() {
            return;
        }
        let mut calls: Vec<Json> = Vec::new();
        calls.append(&mut self.pending_tool_calls);
        assert(calls@ =~= old(self).pending_tool_calls@);
        let plain = Json::object().with_text("role", "assistant").with("content", Json::Null).with(
            "tool_calls",
            Json::Array(calls),
        );
        let msg = attach_reasoning_to_message(plain, &mut self.pending_reasoning);
        self.last_assistant_index = Some(self.messages.len());
        self.messages.push(msg);
    }

    fn attach_reasoning_to_last_assistant(&mut self, reasoning: Option<&str>) -> (attached: bool)
        ensures
            attached ==> final(self)@ == (match opt_str(reasoning) {
                Some(t) => match substance(t) {
                    Some(r) => DraftView {
                        messages: old(self)@.messages.update(
                            reasoning_home(old(self)@)->Some_0,
                            more_reasoned(
                                old(self)@.messages[reasoning_home(old(self)@)->Some_0],
                                r,
                            ),
                        ),
                        ..old(self)@
                    },
                    None => old(self)@,
                },
                None => old(self)@,
            }),
            !attached ==> *final(self) == *old(self),
            attached == (reasoning_home(old(self)@) is Some || (match opt_str(reasoning) {
                Some(t) => substance(t) is None,
                None => true,
            })),
    {
        broadcast use lemma_array_view;

        let text = match reasoning {
            Some(t) => trim_to_substance(t),
            None => None,
        };
        let text = match text {
            Some(t) => t,
            None => {
                return true;
            },
        };
        let index: usize = match self.last_assistant_index {
            Some(i) => i,
            None => {
                return false;
            },
        };
        if index >= self.messages.len() {
            return false;
        }
        assert(self@.messages[index as int] == self.messages@[index as int]@);
        match self.messages[index].text("role") {
            Some(role) => if !same_text(role, "assistant") {
                return false;
            },
            None => {
                return false;
            },
        }
        let msg = with_more_reasoning(self.messages[index].clone(), text);
        self.messages[index] = msg;
        assert(array_view(self.messages@) =~= old(self)@.messages.update(index as int, msg@));
        true
    }

    fn update_last_assistant_index(&mut self, msg: &Json)
        ensures
            final(self)@ == (DraftView { last: last_after(old(self)@, msg@), ..old(self)@ }),
    {
        broadcast use lemma_array_view;

        match msg.text("role") {
            Some(role) => if same_text(role, "assistant") {
                self.last_assistant_index = Some(self.messages.len());
            } else if !same_text(role, "tool") {
                self.last_assistant_index = None;
            },
            None => {
                self.last_assistant_index = None;
            },
        }
    }

    fn push_message(&mut self, item: &Json)
        ensures
            final(self)@ == spoken(old(self)@, item@),
    {
        broadcast use lemma_array_view_push;

        if item.get("role").is_some() || item.get("content").is_some() {
            let msg = build_chat_message(item, &mut self.pending_reasoning);
            self.update_last_assistant_index(&msg);
            self.messages.push(msg);
        }
    }

    pub fn append_item_as_chat_message(&mut self, item: &Json)
        ensures
            final(self)@ == item_step(old(self)@, item@),
    {
        broadcast use lemma_array_view, lemma_array_view_push;

        let kind: &str = str_or_empty(item.text("type"));
        proof {
            reveal_strlit("function_call");
            reveal_strlit("custom_tool_call");
            reveal_strlit("function_call_output");
            reveal_strlit("custom_tool_call_output");
            reveal_strlit("reasoning");
            assert(kind@.len() > 0 ==> item@.text("type"@) == Some(kind@));
        }
        if same_text(kind, "function_call") {
            append_reasoning(&mut self.pending_reasoning, extract_item_reasoning_text(item));
            self.pending_tool_calls.push(build_tool_call(item, false));
        } else if same_text(kind, "custom_tool_call") {
            append_reasoning(&mut self.pending_reasoning, extract_item_reasoning_text(item));
            self.pending_tool_calls.push(build_tool_call(item, true));
        } else if same_text(kind, "function_call_output") || same_text(
            kind,
            "custom_tool_call_output",
        ) {
            self.flush_pending_tool_calls();
            let null = Json::Null;
            let output = match item.get("output") {
                Some(output) => output,
                None => &null,
            };
            let content = output_text(output);
            self.messages.push(
                Json::object().with_text("role", "tool").with_text(
                    "tool_call_id",
                    call_id_str(item),
                ).with_text("content", content.as_str()),
            );
        } else if same_text(kind, "reasoning") {
            let text = extract_reasoning_summary_text(item);
            let hint: Option<&str> = match &text {
                Some(t) => Some(t.as_str()),
                None => None,
            };
            let attached = self.pending_tool_calls.is_empty()
                && self.attach_reasoning_to_last_assistant(hint);
            if !attached {
                append_reasoning(&mut self.pending_reasoning, text);
            }
        } else {
            self.flush_pending_tool_calls();
            self.push_message(item);
        }
    }
}

/// A message as a chat model knows it. No reasoning waits after it.
pub fn build_chat_message(item: &Json, pending_reasoning: &mut Option<String>) -> (json: Json)
    ensures
        json@ == chat_message(item@, opt_string(*old(pending_reasoning))),
        *final(pending_reasoning) == None::<String>,
{
    let given: &str = match item.text("role") {
        Some(role) => role,
        None => "user",
    };
    let role = normalize_role(given);
    let content = flatten_content(
        match item.get("content") {
            Some(content) => content.clone(),
            None => Json::Null,
        },
    );
    let msg = Json::object().with_text("role", role).with("content", content);
    if same_text(role, "assistant") {
        append_reasoning(pending_reasoning, extract_item_reasoning_text(item));
        attach_reasoning_to_message(msg, pending_reasoning)
    } else {
        *pending_reasoning = None;
        msg
    }
}

// ── the finished conversation ─────────────────────────────────────────

/// Whether a message is one in which the assistant calls tools.
pub open spec fn makes_calls(msg: JsonView) -> bool {
    msg.text("role"@) == Some("assistant"@) && msg.items("tool_calls"@).len() > 0
}

/// Whether a message says why.
pub open spec fn gives_reasons(msg: JsonView) -> bool {
    match msg.text("reasoning_content"@) {
        Some(s) => !is_blank(s),
        None => false,
    }
}

/// A message with a reason for the calls in it, where it gave none.
pub open spec fn with_reasons(msg: JsonView) -> JsonView {
    if makes_calls(msg) && !gives_reasons(msg) {
        msg.with_text("reasoning_content"@, "tool call"@)
    } else {
        msg
    }
}

pub open spec fn all_with_reasons(messages: Seq<JsonView>) -> Seq<JsonView> {
    messages.map_values(|msg: JsonView| with_reasons(msg))
}

fn has_tool_calls(msg: &Json) -> (b: bool)
    ensures
        b == makes_calls(msg@),
{
    match msg.text("role") {
        Some(role) => if !same_text(role, "assistant") {
            return false;
        },
        None => {
            return false;
        },
    }
    match msg.get("tool_calls") {
        Some(Json::Array(calls)) => {
            proof {
                lemma_array_view(calls@);
            }
            !calls.is_empty()
        },
        _ => false,
    }
}

fn has_reasoning(msg: &Json) -> (b: bool)
    ensures
        b == gives_reasons(msg@),
{
    match msg.text("reasoning_content") {
        Some(s) => !blank(s),
        None => false,
    }
}

pub fn backfill_tool_call_reasoning(messages: &mut Vec<Json>)
    ensures
        array_view(final(messages)@) == all_with_reasons(array_view(old(messages)@)),
{
    let ghost before = messages@;
    let mut i: usize = 0;
    while i < messages.len()
        invariant
            i <= messages@.len(),
            messages@.len() == before.len(),
            forall|k: int|
                0 <= k < i ==> (#[trigger] messages@[k])@ == with_reasons(before[k]@),
            forall|k: int| i <= k < before.len() ==> #[trigger] messages@[k] == before[k],
        decreases messages@.len() - i,
    {
        if has_tool_calls(&messages[i]) && !has_reasoning(&messages[i]) {
            let msg = messages[i].clone().with_text("reasoning_content", "tool call");
            messages[i] = msg;
        }
        i += 1;
    }
    proof {
        lemma_array_view(messages@);
        lemma_array_view(before);
        assert(array_view(messages@) =~= all_with_reasons(array_view(before)));
    }
}

pub open spec fn is_system(msg: JsonView) -> bool {
    msg.text("role"@) == Some("system"@)
}

/// How many system messages a conversation begins with.
pub open spec fn leading_systems(messages: Seq<JsonView>) -> nat
    decreases messages.len(),
{
    if messages.len() > 0 && is_system(messages[0]) {
        1 + leading_systems(messages.drop_first())
    } else {
        0
    }
}

/// What these messages say, without the white space around it.
pub open spec fn said(messages: Seq<JsonView>) -> Seq<Seq<char>>
    decreases messages.len(),
{
    if messages.len() == 0 {
        Seq::empty()
    } else {
        match text_of(messages.last().get("content"@)) {
            Some(content) => match substance(content) {
                Some(text) => said(messages.drop_last()).push(text),
                None => said(messages.drop_last()),
            },
            None => said(messages.drop_last()),
        }
    }
}

pub open spec fn system_message(content: Seq<char>) -> JsonView {
    empty_object().with_text("role"@, "system"@).with_text("content"@, content)
}

/// The conversation with the system messages it begins with made one.
pub open spec fn collapsed(messages: Seq<JsonView>) -> Seq<JsonView> {
    let n = leading_systems(messages) as int;
    let words = said(messages.take(n));
    if words.len() > 0 {
        seq![system_message(joined(words, "\n\n"@))] + messages.skip(n)
    } else {
        messages.skip(n)
    }
}

fn is_system_message(msg: &Json) -> (b: bool)
    ensures
        b == is_system(msg@),
{
    match msg.text("role") {
        Some(role) => same_text(role, "system"),
        None => false,
    }
}

proof fn lemma_leading_systems(messages: Seq<JsonView>, n: int)
    requires
        0 <= n <= messages.len(),
        forall|k: int| 0 <= k < n ==> is_system(#[trigger] messages[k]),
        n < messages.len() ==> !is_system(messages[n]),
    ensures
        leading_systems(messages) == n,
    decreases messages.len(),
{
    if n > 0 {
        let rest = messages.drop_first();
        assert forall|k: int| 0 <= k < n - 1 implies is_system(#[trigger] rest[k]) by {
            assert(rest[k] == messages[k + 1]);
        }
        lemma_leading_systems(rest, n - 1);
    }
}

pub fn collapse_system_messages(messages: Vec<Json>) -> (result: Vec<Json>)
    ensures
        array_view(result@) == collapsed(array_view(messages@)),
{
    let ghost all = array_view(messages@);
    proof {
        lemma_array_view(messages@);
        assert(all.take(0) =~= Seq::empty());
    }
    let mut rest = messages;
    let mut system_texts: Vec<String> = Vec::new();
    let mut n: usize = 0;
    assert(texts(system_texts@) =~= Seq::empty());
    while n < rest.len() && is_system_message(&rest[n])
        invariant
            n <= rest@.len(),
            rest == messages,
            all == array_view(messages@),
            all.len() == rest@.len(),
            forall|k: int| 0 <= k < all.len() ==> #[trigger] all[k] == rest@[k]@,
            forall|k: int| 0 <= k < n ==> is_system(#[trigger] all[k]),
            texts(system_texts@) == said(all.take(n as int)),
        decreases rest@.len() - n,
    {
        broadcast use lemma_texts_push;

        assert(all.take(n + 1).drop_last() =~= all.take(n as int));
        assert(all.take(n + 1).last() == rest@[n as int]@);
        assert(is_system(all[n as int]));
        if let Some(content) = str_of(rest[n].get("content")) {
            if let Some(text) = trim_to_substance(content) {
                system_texts.push(text.to_owned());
            }
        }
        n += 1;
    }
    proof {
        if n < all.len() {
            assert(all[n as int] == rest@[n as int]@);
        }
        lemma_leading_systems(all, n as int);
    }
    let mut others = rest.split_off(n);
    proof {
        lemma_array_view(others@);
        assert(array_view(others@) =~= all.skip(n as int));
    }
    if system_texts.is_empty() {
        assert(texts(system_texts@).len() == 0);
        others
    } else {
        assert(texts(system_texts@).len() > 0);
        let head = Json::object().with_text("role", "system").with_text(
            "content",
            join(&system_texts, "\n\n").as_str(),
        );
        let ghost tail = others@;
        others.insert(0, head);
        proof {
            lemma_array_view(others@);
            assert forall|k: int| 0 < k < others@.len() implies others@[k] == tail[k - 1] by {}
            assert(array_view(others@) =~= seq![head@] + all.skip(n as int)) by {
                assert forall|k: int| 0 <= k < others@.len() implies array_view(others@)[k] == (
                seq![head@] + all.skip(n as int))[k] by {
                    assert(array_view(others@)[k] == others@[k]@);
                    if k > 0 {
                        assert(array_view(tail)[k - 1] == tail[k - 1]@);
                    }
                }
            }
        }
        others
    }
}

// ── the request ───────────────────────────────────────────────────────

/// Whether a request asks the model to reason. None where it does not say.
pub open spec fn wants_reasoning(req: JsonView) -> Option<bool> {
    match text_of(req.get2("reasoning"@, "effort"@)) {
        Some(effort) => {
            let word = lowered(trimmed(effort));
            Some(!(word == "none"@ || word == "off"@ || word == "disabled"@))
        },
        None => match req.get("reasoning"@) {
            Some(reasoning) => Some(!(reasoning is Null)),
            None => None,
        },
    }
}

pub fn reasoning_requested(req: &Json) -> (wanted: Option<bool>)
    ensures
        wanted == wants_reasoning(req@),
{
    if let Some(effort) = str_of(req.get2("reasoning", "effort")) {
        let word = to_lower(trim(effort));
        let word = word.as_str();
        return Some(!(same_text(word, "none") || same_text(word, "off") || same_text(word, "disabled")));
    }
    match req.get("reasoning") {
        Some(reasoning) => Some(!reasoning.is_null()),
        None => None,
    }
}

/// The conversation before any item has come.
pub open spec fn beginning(req: JsonView) -> DraftView {
    DraftView {
        messages: match req.text("instructions"@) {
            Some(instructions) => seq![system_message(instructions)],
            None => Seq::empty(),
        },
        calls: Seq::empty(),
        reasoning: None,
        last: None,
    }
}

/// The messages of a chat request.
pub open spec fn chat_messages(req: JsonView) -> Seq<JsonView> {
    collapsed(
        all_with_reasons(flushed(items_step(beginning(req), req.items("input"@))).messages),
    )
}

/// `chat` with the member `from` of `req` as its member `to`.
pub open spec fn taken_over(chat: JsonView, req: JsonView, from: Seq<char>, to: Seq<char>) -> JsonView {
    match req.get(from) {
        Some(value) => chat.with(to, value),
        None => chat,
    }
}

/// `chat` with the tools of `req`, and with its choice among them.
pub open spec fn with_tools(chat: JsonView, req: JsonView) -> JsonView {
    let tools = chat_tools(req.items("tools"@));
    if tools.len() > 0 {
        let equipped = chat.with("tools"@, JsonView::Array(tools));
        match chat_choice(req.get("tool_choice"@)) {
            Some(choice) => equipped.with("tool_choice"@, choice),
            None => equipped,
        }
    } else {
        chat
    }
}

/// `chat` as a stream where `req` wants one. A stream tells what it cost.
pub open spec fn with_stream(chat: JsonView, req: JsonView) -> JsonView {
    match req.get("stream"@) {
        Some(stream) => {
            let streamed = chat.with("stream"@, stream);
            if stream == JsonView::Bool(true) {
                streamed.with(
                    "stream_options"@,
                    empty_object().with("include_usage"@, JsonView::Bool(true)),
                )
            } else {
                streamed
            }
        },
        None => chat,
    }
}

/// `chat` with a word on reasoning where `req` has one.
pub open spec fn with_thinking(chat: JsonView, req: JsonView) -> JsonView {
    match wants_reasoning(req) {
        Some(enabled) => chat.with(
            "thinking"@,
            empty_object().with_text(
                "type"@,
                if enabled {
                    "enabled"@
                } else {
                    "disabled"@
                },
            ),
        ),
        None => chat,
    }
}

/// The chat completion request that stands for a Responses request.
pub open spec fn chat_request(req: JsonView, model: Seq<char>) -> JsonView {
    let named = empty_object().with_text("model"@, model).with(
        "messages"@,
        JsonView::Array(chat_messages(req)),
    );
    let limited = taken_over(named, req, "max_output_tokens"@, "max_tokens"@);
    let tempered = taken_over(limited, req, "temperature"@, "temperature"@);
    let sampled = taken_over(tempered, req, "top_p"@, "top_p"@);
    with_thinking(with_stream(with_tools(sampled, req), req), req)
}

fn take_over(chat: Json, req: &Json, from: &str, to: &str) -> (json: Json)
    ensures
        json@ == taken_over(chat@, req@, from@, to@),
{
    match req.get(from) {
        Some(value) => chat.with(to, value.clone()),
        None => chat,
    }
}

fn add_tools(chat: Json, req: &Json) -> (json: Json)
    ensures
        json@ == with_tools(chat@, req@),
{
    let tools = convert_tools(req.get("tools"));
    proof {
        lemma_array_view(tools@);
        assert(items_of(req@.get("tools"@)) == req@.items("tools"@));
    }
    if tools.is_empty() {
        return chat;
    }
    let equipped = chat.with("tools", Json::Array(tools));
    match convert_tool_choice(req.get("tool_choice")) {
        Some(choice) => equipped.with("tool_choice", choice),
        None => equipped,
    }
}

fn add_stream(chat: Json, req: &Json) -> (json: Json)
    ensures
        json@ == with_stream(chat@, req@),
{
    match req.get("stream") {
        Some(stream) => {
            let streamed = chat.with("stream", stream.clone());
            match stream.as_bool() {
                Some(true) => streamed.with(
                    "stream_options",
                    Json::object().with("include_usage", Json::Bool(true)),
                ),
                _ => streamed,
            }
        },
        None => chat,
    }
}

fn add_thinking(chat: Json, req: &Json) -> (json: Json)
    ensures
        json@ == with_thinking(chat@, req@),
{
    match reasoning_requested(req) {
        Some(enabled) => chat.with(
            "thinking",
            Json::object().with_text(
                "type",
                if enabled {
                    "enabled"
                } else {
                    "disabled"
                },
            ),
        ),
        None => chat,
    }
}

fn begin(req: &Json) -> (draft: Draft)
    ensures
        draft@ == beginning(req@),
{
    let mut messages: Vec<Json> = Vec::new();
    if let Some(instructions) = req.text("instructions") {
        let msg = Json::object().with_text("role", "system").with_text("content", instructions);
        proof {
            lemma_array_view_push(messages@, msg);
        }
        messages.push(msg);
        assert(array_view(messages@) =~= seq![system_message(instructions@)]);
    }
    Draft {
        messages,
        pending_tool_calls: Vec::new(),
        pending_reasoning: None,
        last_assistant_index: None,
    }
}

fn converse(req: &Json) -> (messages: Vec<Json>)
    ensures
        array_view(messages@) == chat_messages(req@),
{
    let mut draft = begin(req);
    let ghost start = draft@;
    let ghost all = req@.items("input"@);
    assert(all.take(0) =~= Seq::empty());
    match req.get("input") {
        Some(Json::Array(items)) => {
            proof {
                lemma_array_view(items@);
            }
            let mut i: usize = 0;
            while i < items.len()
                invariant
                    i <= items@.len(),
                    all.len() == items@.len(),
                    forall|k: int| 0 <= k < all.len() ==> #[trigger] all[k] == items@[k]@,
                    draft@ == items_step(start, all.take(i as int)),
                decreases items@.len() - i,
            {
                assert(all.take(i + 1).drop_last() =~= all.take(i as int));
                assert(all.take(i + 1).last() == items@[i as int]@);
                draft.append_item_as_chat_message(&items[i]);
                i += 1;
            }
            assert(all.take(i as int) =~= all);
        },
        _ => {
            assert(all =~= Seq::empty());
        },
    }
    draft.flush_pending_tool_calls();
    let mut messages = draft.messages;
    backfill_tool_call_reasoning(&mut messages);
    collapse_system_messages(messages)
}

pub fn responses_to_chat(req: &Json, model: &str) -> (chat: Json)
    ensures
        chat@ == chat_request(req@, model@),
{
    let named = Json::object().with_text("model", model).with(
        "messages",
        Json::Array(converse(req)),
    );
    let limited = take_over(named, req, "max_output_tokens", "max_tokens");
    let tempered = take_over(limited, req, "temperature", "temperature");
    let sampled = take_over(tempered, req, "top_p", "top_p");
    add_thinking(add_stream(add_tools(sampled, req), req), req)
}

} // verus!

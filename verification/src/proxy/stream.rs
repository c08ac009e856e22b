//! From a chat completion stream to the events of a Responses stream.
use vstd::prelude::*;

use crate::json::{array_view, empty_object, lemma_array_view, lemma_array_view_push, opt_str};
use crate::json::{opt_string, Json, JsonView};
use crate::proxy::sse::{event_text, lemma_rendered_add, lemma_rendered_push, rendered, sse, Event};
use crate::proxy::stage::{lemma_put_stage, new_stage, ordered, put_stage, slot, stage_at};
use crate::proxy::stage::{tool_views, TextStage, TextStageView, ToolStage, ToolStageView};
use crate::proxy::tools::{arguments_object, custom_input, custom_tool_input};
use crate::proxy::tools::{parse_arguments_object, split_chat_tool_name, split_name};
use crate::proxy::usage::{usage_from_chat_usage, usage_of, TokenUsage, TokenUsageView};
use crate::text::{contains_name, decimal, lemma_texts_add, lemma_texts_push, same_text, substance};
use crate::text::{texts, to_decimal, trim_to_substance};

verus! {

// ── state ─────────────────────────────────────────────────────────────

/// What has come of the upstream's stream so far. The tool calls are ordered by their index.
pub struct SseState<'a> {
    pub id: &'a str,
    pub model: &'a str,
    pub custom_tools: Vec<String>,
    pub output_index: usize,
    pub reasoning: TextStage,
    pub text: TextStage,
    pub tools: Vec<(usize, ToolStage)>,
    pub finished: bool,
    pub usage: Option<TokenUsage>,
}

pub struct StreamView {
    pub id: Seq<char>,
    pub model: Seq<char>,
    pub custom_tools: Set<Seq<char>>,
    pub output_index: usize,
    pub reasoning: TextStageView,
    pub text: TextStageView,
    pub tools: Seq<(usize, ToolStageView)>,
    pub finished: bool,
    pub usage: Option<TokenUsageView>,
}

pub open spec fn opt_usage(usage: Option<TokenUsage>) -> Option<TokenUsageView> {
    match usage {
        Some(u) => Some(u@),
        None => None,
    }
}

impl<'a> View for SseState<'a> {
    type V = StreamView;

    open spec fn view(&self) -> StreamView {
        StreamView {
            id: self.id@,
            model: self.model@,
            custom_tools: texts(self.custom_tools@).to_set(),
            output_index: self.output_index,
            reasoning: self.reasoning@,
            text: self.text@,
            tools: tool_views(self.tools@),
            finished: self.finished,
            usage: opt_usage(self.usage),
        }
    }
}

// ── events ────────────────────────────────────────────────────────────

/// The answer as it stands.
pub open spec fn response(
    id: Seq<char>,
    model: Seq<char>,
    status: Seq<char>,
    output: Seq<JsonView>,
) -> JsonView {
    empty_object().with_text("id"@, id).with_text("object"@, "response"@).with_text(
        "model"@,
        model,
    ).with_text("status"@, status).with("output"@, JsonView::Array(output))
}

pub fn base_resp(id: &str, model: &str, status: &str, output: Vec<Json>) -> (json: Json)
    ensures
        json@ == response(id@, model@, status@, array_view(output@)),
{
    Json::object().with_text("id", id).with_text("object", "response").with_text(
        "model",
        model,
    ).with_text("status", status).with("output", Json::Array(output))
}

/// An event about a whole output item.
pub open spec fn item_event(name: Seq<char>, output_index: usize, item: JsonView) -> Event {
    Event {
        name,
        payload: empty_object().with("output_index"@, JsonView::Int(output_index as int)).with(
            "item"@,
            item,
        ),
    }
}

fn item_sse(name: &str, output_index: usize, item: Json) -> (text: String)
    ensures
        text@ == event_text(item_event(name@, output_index, item@)),
{
    sse(name, Json::object().with("output_index", Json::count(output_index)).with("item", item))
}

/// An event about the first part of an output item. The member `part` numbers the part.
pub open spec fn part_event(
    name: Seq<char>,
    stage: TextStageView,
    part: Seq<char>,
    key: Seq<char>,
    value: JsonView,
) -> Event {
    Event {
        name,
        payload: empty_object().with_text("item_id"@, stage.item_id).with(
            "output_index"@,
            JsonView::Int(stage.output_index as int),
        ).with(part, JsonView::Int(0)).with(key, value),
    }
}

fn part_sse(name: &str, stage: &TextStage, part: &str, key: &str, value: Json) -> (text: String)
    ensures
        text@ == event_text(part_event(name@, stage@, part@, key@, value@)),
{
    sse(
        name,
        Json::object().with_text("item_id", stage.item_id.as_str()).with(
            "output_index",
            Json::count(stage.output_index),
        ).with(part, Json::integer(0)).with(key, value),
    )
}

pub open spec fn summary_part(text: Seq<char>) -> JsonView {
    empty_object().with_text("type"@, "summary_text"@).with_text("text"@, text)
}

pub(crate) fn summary_part_json(text: &str) -> (json: Json)
    ensures
        json@ == summary_part(text@),
{
    Json::object().with_text("type", "summary_text").with_text("text", text)
}

pub open spec fn output_part(text: Seq<char>) -> JsonView {
    empty_object().with_text("type"@, "output_text"@).with_text("text"@, text).with(
        "annotations"@,
        JsonView::Array(Seq::empty()),
    )
}

pub(crate) fn output_part_json(text: &str) -> (json: Json)
    ensures
        json@ == output_part(text@),
{
    Json::object().with_text("type", "output_text").with_text("text", text).with(
        "annotations",
        Json::no_items(),
    )
}

/// A reasoning item with these summary parts.
pub open spec fn reasoning_item(id: Seq<char>, summary: JsonView) -> JsonView {
    empty_object().with_text("id"@, id).with_text("type"@, "reasoning"@).with("summary"@, summary)
}

pub(crate) fn reasoning_item_json(id: &str, summary: Json) -> (json: Json)
    ensures
        json@ == reasoning_item(id@, summary@),
{
    Json::object().with_text("id", id).with_text("type", "reasoning").with("summary", summary)
}

/// A message of the assistant with these content parts.
pub open spec fn message_item(id: Seq<char>, content: JsonView) -> JsonView {
    empty_object().with_text("id"@, id).with_text("type"@, "message"@).with_text(
        "role"@,
        "assistant"@,
    ).with("content"@, content)
}

pub(crate) fn message_item_json(id: &str, content: Json) -> (json: Json)
    ensures
        json@ == message_item(id@, content@),
{
    Json::object().with_text("id", id).with_text("type", "message").with_text(
        "role",
        "assistant",
    ).with("content", content)
}

/// An item with the reasoning that led to it, where there is any.
pub open spec fn with_reasoning(item: JsonView, reasoning: Option<Seq<char>>) -> JsonView {
    match reasoning {
        Some(text) => match substance(text) {
            Some(t) => item.with_text("reasoning_content"@, t),
            None => item,
        },
        None => item,
    }
}

pub fn attach_reasoning(item: Json, reasoning: Option<&str>) -> (json: Json)
    ensures
        json@ == with_reasoning(item@, opt_str(reasoning)),
{
    match reasoning {
        Some(text) => match trim_to_substance(text) {
            Some(t) => item.with_text("reasoning_content", t),
            None => item,
        },
        None => item,
    }
}

/// The output item of a tool call: a tool search, a custom tool call, or a function call whose
/// name may hold a namespace.
pub open spec fn call_item(
    stage: ToolStageView,
    status: Seq<char>,
    reasoning: Option<Seq<char>>,
    custom_tools: Set<Seq<char>>,
) -> JsonView {
    let item = if stage.name == "tool_search"@ {
        empty_object().with_text("type"@, "tool_search_call"@).with_text(
            "call_id"@,
            stage.call_id,
        ).with_text("status"@, status).with_text("execution"@, "client"@).with(
            "arguments"@,
            arguments_object(stage.arguments),
        )
    } else if custom_tools.contains(stage.name) {
        empty_object().with_text("id"@, stage.item_id).with_text(
            "type"@,
            "custom_tool_call"@,
        ).with_text("status"@, status).with_text("call_id"@, stage.call_id).with_text(
            "name"@,
            stage.name,
        ).with_text("input"@, custom_input(stage.arguments))
    } else {
        let base = empty_object().with_text("id"@, stage.item_id).with_text(
            "type"@,
            "function_call"@,
        ).with_text("status"@, status).with_text("call_id"@, stage.call_id).with_text(
            "name"@,
            split_name(stage.name).1,
        ).with_text("arguments"@, stage.arguments);
        match split_name(stage.name).0 {
            Some(namespace) => base.with_text("namespace"@, namespace),
            None => base,
        }
    };
    with_reasoning(item, reasoning)
}

pub fn function_call_item(
    stage: &ToolStage,
    status: &str,
    reasoning: Option<&str>,
    custom_tools: &Vec<String>,
) -> (json: Json)
    ensures
        json@ == call_item(
            stage@,
            status@,
            opt_str(reasoning),
            texts(custom_tools@).to_set(),
        ),
{
    let name = stage.name.as_str();
    if same_text(name, "tool_search") {
        let item = Json::object().with_text("type", "tool_search_call").with_text(
            "call_id",
            stage.call_id.as_str(),
        ).with_text("status", status).with_text("execution", "client").with(
            "arguments",
            parse_arguments_object(stage.arguments.as_str()),
        );
        return attach_reasoning(item, reasoning);
    }
    if contains_name(custom_tools, name) {
        let item = Json::object().with_text("id", stage.item_id.as_str()).with_text(
            "type",
            "custom_tool_call",
        ).with_text("status", status).with_text("call_id", stage.call_id.as_str()).with_text(
            "name",
            name,
        ).with_text("input", custom_tool_input(stage.arguments.as_str()).as_str());
        return attach_reasoning(item, reasoning);
    }
    let (namespace, short) = split_chat_tool_name(name);
    let base = Json::object().with_text("id", stage.item_id.as_str()).with_text(
        "type",
        "function_call",
    ).with_text("status", status).with_text("call_id", stage.call_id.as_str()).with_text(
        "name",
        short.as_str(),
    ).with_text("arguments", stage.arguments.as_str());
    let item = match namespace {
        Some(ns) => base.with_text("namespace", ns.as_str()),
        None => base,
    };
    attach_reasoning(item, reasoning)
}

// ── deltas of reasoning and text ──────────────────────────────────────

/// The output index after `i`. The greatest is followed by the first.
pub open spec fn next_index(i: usize) -> usize {
    if i == usize::MAX {
        0
    } else {
        (i + 1) as usize
    }
}

/// The state once a reasoning item has been opened.
pub open spec fn reasoning_opened(s: StreamView) -> StreamView {
    StreamView {
        output_index: next_index(s.output_index),
        reasoning: TextStageView {
            added: true,
            item_id: "rs_"@ + s.id,
            text: s.reasoning.text,
            output_index: s.output_index,
        },
        ..s
    }
}

/// The events that open a reasoning item.
pub open spec fn reasoning_opening(stage: TextStageView) -> Seq<Event> {
    seq![
        item_event(
            "response.output_item.added"@,
            stage.output_index,
            reasoning_item(stage.item_id, JsonView::Array(Seq::empty())).with_text(
                "status"@,
                "in_progress"@,
            ),
        ),
        part_event(
            "response.reasoning_summary_part.added"@,
            stage,
            "summary_index"@,
            "part"@,
            summary_part(Seq::empty()),
        ),
    ]
}

/// The state once a message has been opened.
pub open spec fn text_opened(s: StreamView) -> StreamView {
    StreamView {
        output_index: next_index(s.output_index),
        text: TextStageView {
            added: true,
            item_id: s.id + "_msg"@,
            text: s.text.text,
            output_index: s.output_index,
        },
        ..s
    }
}

/// The events that open a message.
pub open spec fn text_opening(stage: TextStageView) -> Seq<Event> {
    seq![
        item_event(
            "response.output_item.added"@,
            stage.output_index,
            message_item(stage.item_id, JsonView::Array(Seq::empty())).with_text(
                "status"@,
                "in_progress"@,
            ),
        ),
        part_event(
            "response.content_part.added"@,
            stage,
            "content_index"@,
            "part"@,
            output_part(Seq::empty()),
        ),
    ]
}

/// What a piece of reasoning does: the state after it and the events it gives.
pub open spec fn reasoning_step(s: StreamView, piece: Seq<char>) -> (StreamView, Seq<Event>) {
    let opened = if s.reasoning.added {
        s
    } else {
        reasoning_opened(s)
    };
    let stage = TextStageView { text: opened.reasoning.text + piece, ..opened.reasoning };
    (
        StreamView { reasoning: stage, ..opened },
        (if s.reasoning.added {
            Seq::empty()
        } else {
            reasoning_opening(opened.reasoning)
        }).push(
            part_event(
                "response.reasoning_summary_text.delta"@,
                stage,
                "summary_index"@,
                "delta"@,
                JsonView::Text(piece),
            ),
        ),
    )
}

/// What a piece of the message does: the state after it and the events it gives.
pub open spec fn content_step(s: StreamView, piece: Seq<char>) -> (StreamView, Seq<Event>) {
    let opened = if s.text.added {
        s
    } else {
        text_opened(s)
    };
    let stage = TextStageView { text: opened.text.text + piece, ..opened.text };
    (
        StreamView { text: stage, ..opened },
        (if s.text.added {
            Seq::empty()
        } else {
            text_opening(opened.text)
        }).push(
            part_event(
                "response.output_text.delta"@,
                stage,
                "content_index"@,
                "delta"@,
                JsonView::Text(piece),
            ),
        ),
    )
}

/// Two texts in a row.
pub(crate) fn pair(a: String, b: String) -> (v: Vec<String>)
    ensures
        texts(v@) == seq![a@, b@],
{
    let mut v: Vec<String> = Vec::new();
    v.push(a);
    v.push(b);
    assert(texts(v@) =~= seq![a@, b@]);
    v
}

impl<'a> SseState<'a> {
    /// Whether the tool calls are in order.
    pub open spec fn wf(&self) -> bool {
        ordered(self@.tools)
    }

    pub fn alloc_index(&mut self) -> (i: usize)
        ensures
            i == old(self).output_index,
            final(self)@ == (StreamView { output_index: next_index(i), ..old(self)@ }),
    {
        let i: usize = self.output_index;
        self.output_index = self.output_index.wrapping_add(1);
        i
    }

    pub fn current_reasoning_text(&self) -> (text: Option<String>)
        ensures
            opt_string(text) == substance(self@.reasoning.text),
    {
        match trim_to_substance(self.reasoning.text.as_str()) {
            Some(t) => Some(t.to_owned()),
            None => None,
        }
    }

    fn add_reasoning(&mut self) -> (events: Vec<String>)
        ensures
            final(self)@ == reasoning_opened(old(self)@),
            texts(events@) == rendered(reasoning_opening(final(self)@.reasoning)),
    {
        let output_index: usize = self.alloc_index();
        self.reasoning.output_index = output_index;
        self.reasoning.item_id = "rs_".to_owned().concat(self.id);
        self.reasoning.added = true;
        let added = item_sse(
            "response.output_item.added",
            output_index,
            reasoning_item_json(self.reasoning.item_id.as_str(), Json::no_items()).with_text(
                "status",
                "in_progress",
            ),
        );
        proof {
            reveal_strlit("");
            assert(""@ =~= Seq::<char>::empty());
        }
        let part = part_sse(
            "response.reasoning_summary_part.added",
            &self.reasoning,
            "summary_index",
            "part",
            summary_part_json(""),
        );
        let events = pair(added, part);
        assert(texts(events@) =~= rendered(reasoning_opening(self@.reasoning)));
        events
    }

    fn add_text(&mut self) -> (events: Vec<String>)
        ensures
            final(self)@ == text_opened(old(self)@),
            texts(events@) == rendered(text_opening(final(self)@.text)),
    {
        let output_index: usize = self.alloc_index();
        self.text.output_index = output_index;
        self.text.item_id = self.id.to_owned().concat("_msg");
        self.text.added = true;
        let added = item_sse(
            "response.output_item.added",
            output_index,
            message_item_json(self.text.item_id.as_str(), Json::no_items()).with_text(
                "status",
                "in_progress",
            ),
        );
        proof {
            reveal_strlit("");
            assert(""@ =~= Seq::<char>::empty());
        }
        let part = part_sse(
            "response.content_part.added",
            &self.text,
            "content_index",
            "part",
            output_part_json(""),
        );
        let events = pair(added, part);
        assert(texts(events@) =~= rendered(text_opening(self@.text)));
        events
    }

    fn push_reasoning(&mut self, piece: &str) -> (events: Vec<String>)
        ensures
            final(self)@ == reasoning_step(old(self)@, piece@).0,
            texts(events@) == rendered(reasoning_step(old(self)@, piece@).1),
    {
        let ghost before = self@;
        let mut events: Vec<String> = if self.reasoning.added {
            Vec::new()
        } else {
            self.add_reasoning()
        };
        self.reasoning.text.append(piece);
        let delta = part_sse(
            "response.reasoning_summary_text.delta",
            &self.reasoning,
            "summary_index",
            "delta",
            Json::string(piece),
        );
        proof {
            lemma_texts_push(events@, delta);
        }
        events.push(delta);
        assert(texts(events@) =~= rendered(reasoning_step(before, piece@).1));
        events
    }

    fn push_content(&mut self, piece: &str) -> (events: Vec<String>)
        ensures
            final(self)@ == content_step(old(self)@, piece@).0,
            texts(events@) == rendered(content_step(old(self)@, piece@).1),
    {
        let ghost before = self@;
        let mut events: Vec<String> = if self.text.added {
            Vec::new()
        } else {
            self.add_text()
        };
        self.text.text.append(piece);
        let delta = part_sse(
            "response.output_text.delta",
            &self.text,
            "content_index",
            "delta",
            Json::string(piece),
        );
        proof {
            lemma_texts_push(events@, delta);
        }
        events.push(delta);
        assert(texts(events@) =~= rendered(content_step(before, piece@).1));
        events
    }
}

// ── deltas of tool calls ──────────────────────────────────────────────

/// The index of the tool call that a delta is about.
pub open spec fn call_index(call: JsonView) -> usize {
    match call.get("index"@) {
        Some(value) => match value.as_u64() {
            Some(u) => u as usize,
            None => 0,
        },
        None => 0,
    }
}

/// The piece of arguments in a delta.
pub open spec fn call_arguments(call: JsonView) -> Seq<char> {
    match call.member("function"@).text("arguments"@) {
        Some(piece) => piece,
        None => Seq::empty(),
    }
}

/// A tool call once it has heard a delta: an id or a name replaces the one before, arguments are
/// added to those before.
pub open spec fn heard(stage: ToolStageView, call: JsonView) -> ToolStageView {
    ToolStageView {
        call_id: match call.text("id"@) {
            Some(id) => id,
            None => stage.call_id,
        },
        name: match call.member("function"@).text("name"@) {
            Some(name) => name,
            None => stage.name,
        },
        arguments: stage.arguments + call_arguments(call),
        ..stage
    }
}

/// Whether a tool call is known well enough to be opened, and has not been yet.
pub open spec fn to_be_opened(stage: ToolStageView) -> bool {
    !stage.added && (stage.call_id.len() > 0 || stage.name.len() > 0)
}

/// A tool call once it has been opened. What it was not told it makes up.
pub open spec fn opened_stage(stage: ToolStageView, index: usize, output_index: usize) -> ToolStageView {
    let call_id = if stage.call_id.len() > 0 {
        stage.call_id
    } else {
        "call_"@ + decimal(index as nat)
    };
    ToolStageView {
        added: true,
        item_id: "fc_"@ + call_id,
        call_id,
        name: if stage.name.len() > 0 {
            stage.name
        } else {
            "unknown_tool"@
        },
        arguments: stage.arguments,
        output_index,
    }
}

/// The event that hands on a piece of arguments.
pub open spec fn arguments_event(stage: ToolStageView, piece: Seq<char>) -> Event {
    Event {
        name: "response.function_call_arguments.delta"@,
        payload: empty_object().with_text("item_id"@, stage.item_id).with(
            "output_index"@,
            JsonView::Int(stage.output_index as int),
        ).with_text("delta"@, piece),
    }
}

fn arguments_sse(stage: &ToolStage, piece: &str) -> (text: String)
    ensures
        text@ == event_text(arguments_event(stage@, piece@)),
{
    sse(
        "response.function_call_arguments.delta",
        Json::object().with_text("item_id", stage.item_id.as_str()).with(
            "output_index",
            Json::count(stage.output_index),
        ).with_text("delta", piece),
    )
}

/// The events that open a tool call: the item, then all arguments that came before it.
pub open spec fn call_opening(
    stage: ToolStageView,
    reasoning: Option<Seq<char>>,
    custom_tools: Set<Seq<char>>,
) -> Seq<Event> {
    let item = call_item(stage, "in_progress"@, None, custom_tools);
    let added = item_event(
        "response.output_item.added"@,
        stage.output_index,
        match reasoning {
            Some(text) => item.with_text("reasoning_content"@, text),
            None => item,
        },
    );
    if stage.arguments.len() > 0 {
        seq![added, arguments_event(stage, stage.arguments)]
    } else {
        seq![added]
    }
}

/// What a delta of a tool call does: the state after it and the events it gives.
pub open spec fn call_step(s: StreamView, call: JsonView, reasoning: Option<Seq<char>>) -> (
    StreamView,
    Seq<Event>,
) {
    let index = call_index(call);
    let piece = call_arguments(call);
    let stage = heard(stage_at(s.tools, index), call);
    if to_be_opened(stage) {
        let opened = opened_stage(stage, index, s.output_index);
        (
            StreamView {
                output_index: next_index(s.output_index),
                tools: put_stage(s.tools, index, opened),
                ..s
            },
            call_opening(opened, reasoning, s.custom_tools),
        )
    } else {
        (
            StreamView { tools: put_stage(s.tools, index, stage), ..s },
            if stage.added && piece.len() > 0 {
                seq![arguments_event(stage, piece)]
            } else {
                Seq::empty()
            },
        )
    }
}

/// What a row of deltas of tool calls does.
pub open spec fn calls_step(s: StreamView, calls: Seq<JsonView>, reasoning: Option<Seq<char>>) -> (
    StreamView,
    Seq<Event>,
)
    decreases calls.len(),
{
    if calls.len() == 0 {
        (s, Seq::empty())
    } else {
        let before = calls_step(s, calls.drop_last(), reasoning);
        let last = call_step(before.0, calls.last(), reasoning);
        (last.0, before.1 + last.1)
    }
}

/// What a delta does: the state after it and the events it gives.
pub open spec fn delta_step(s: StreamView, delta: JsonView) -> (StreamView, Seq<Event>) {
    let reasoned = match delta.full_text("reasoning_content"@) {
        Some(piece) => reasoning_step(s, piece),
        None => (s, Seq::empty()),
    };
    let spoken = match delta.full_text("content"@) {
        Some(piece) => content_step(reasoned.0, piece),
        None => (reasoned.0, Seq::empty()),
    };
    let called = calls_step(
        spoken.0,
        delta.items("tool_calls"@),
        substance(spoken.0.reasoning.text),
    );
    (called.0, reasoned.1 + spoken.1 + called.1)
}

/// The slot of `index` among ordered tool calls.
fn find_slot(tools: &Vec<(usize, ToolStage)>, index: usize) -> (i: usize)
    ensures
        i == slot(tool_views(tools@), index),
        i <= tools@.len(),
{
    let ghost views = tool_views(tools@);
    let mut i: usize = tools.len();
    assert(views.take(i as int) =~= views);
    while i > 0 && tools[i - 1].0 >= index
        invariant
            i <= tools@.len(),
            views == tool_views(tools@),
            slot(views, index) == slot(views.take(i as int), index),
        decreases i,
    {
        assert(views.take(i as int).drop_last() =~= views.take(i - 1));
        i -= 1;
    }
    i
}

fn empty_stage() -> (stage: ToolStage)
    ensures
        stage@ == new_stage(),
{
    ToolStage {
        added: false,
        item_id: String::new(),
        call_id: String::new(),
        name: String::new(),
        arguments: String::new(),
        output_index: 0,
    }
}

impl<'a> SseState<'a> {
    fn stage(&self, index: usize) -> (stage: ToolStage)
        ensures
            stage@ == stage_at(self@.tools, index),
    {
        let i: usize = find_slot(&self.tools, index);
        if i < self.tools.len() && self.tools[i].0 == index {
            self.tools[i].1.clone()
        } else {
            empty_stage()
        }
    }

    fn set_stage(&mut self, index: usize, stage: ToolStage)
        requires
            old(self).wf(),
        ensures
            final(self)@ == (StreamView {
                tools: put_stage(old(self)@.tools, index, stage@),
                ..old(self)@
            }),
            final(self).wf(),
    {
        let ghost views = self@.tools;
        proof {
            lemma_put_stage(views, index, stage@, index);
        }
        let i: usize = find_slot(&self.tools, index);
        if i < self.tools.len() && self.tools[i].0 == index {
            self.tools[i] = (index, stage);
        } else {
            self.tools.insert(i, (index, stage));
        }
        assert(tool_views(self.tools@) =~= put_stage(views, index, stage@));
    }

    fn push_tool_call_delta(&mut self, tool_call: &Json, reasoning: Option<&str>) -> (events: Vec<
        String,
    >)
        requires
            old(self).wf(),
        ensures
            final(self)@ == call_step(old(self)@, tool_call@, opt_str(reasoning)).0,
            texts(events@) == rendered(
                call_step(old(self)@, tool_call@, opt_str(reasoning)).1,
            ),
            final(self).wf(),
    {
        let ghost before = self@;
        let ghost step = call_step(before, tool_call@, opt_str(reasoning));
        let index: usize = match tool_call.get("index") {
            Some(value) => match value.as_u64() {
                Some(u) => u as usize,
                None => 0,
            },
            None => 0,
        };
        let id = tool_call.text("id");
        let function = tool_call.get("function");
        let name = match function {
            Some(f) => f.text("name"),
            None => None,
        };
        let heard_arguments = match function {
            Some(f) => f.text("arguments"),
            None => None,
        };
        let piece: &str = match heard_arguments {
            Some(a) => a,
            None => {
                proof {
                    reveal_strlit("");
                    assert(""@ =~= Seq::<char>::empty());
                }
                ""
            },
        };
        assert(piece@ == call_arguments(tool_call@));

        let mut stage = self.stage(index);
        if let Some(id) = id {
            stage.call_id = id.to_owned();
        }
        if let Some(name) = name {
            stage.name = name.to_owned();
        }
        stage.arguments.append(piece);
        assert(stage@ == heard(stage_at(before.tools, index), tool_call@));

        let mut events: Vec<String> = Vec::new();
        if !stage.added && (!stage.call_id.as_str().is_empty() || !stage.name.as_str().is_empty()) {
            let output_index: usize = self.alloc_index();
            if stage.call_id.as_str().is_empty() {
                stage.call_id = "call_".to_owned().concat(to_decimal(index as u64).as_str());
            }
            if stage.name.as_str().is_empty() {
                stage.name = "unknown_tool".to_owned();
            }
            stage.output_index = output_index;
            stage.item_id = "fc_".to_owned().concat(stage.call_id.as_str());
            stage.added = true;
            let plain = function_call_item(&stage, "in_progress", None, &self.custom_tools);
            let item = match reasoning {
                Some(text) => plain.with_text("reasoning_content", text),
                None => plain,
            };
            let added = item_sse("response.output_item.added", output_index, item);
            proof {
                lemma_texts_push(events@, added);
            }
            events.push(added);
            if !stage.arguments.as_str().is_empty() {
                let delta = arguments_sse(&stage, stage.arguments.as_str());
                proof {
                    lemma_texts_push(events@, delta);
                }
                events.push(delta);
            }
        } else if !piece.is_empty() {
            if stage.added {
                let delta = arguments_sse(&stage, piece);
                proof {
                    lemma_texts_push(events@, delta);
                }
                events.push(delta);
            }
        }
        self.set_stage(index, stage);
        assert(texts(events@) =~= rendered(step.1));
        events
    }

    pub fn push_delta(&mut self, delta: &Json) -> (events: Vec<String>)
        requires
            old(self).wf(),
        ensures
            final(self)@ == delta_step(old(self)@, delta@).0,
            texts(events@) == rendered(delta_step(old(self)@, delta@).1),
            final(self).wf(),
    {
        broadcast use lemma_texts_add, lemma_rendered_add;

        let ghost before = self@;
        let mut events: Vec<String> = Vec::new();
        assert(texts(events@) =~= rendered(Seq::<Event>::empty()));
        let ghost mut given: Seq<Event> = Seq::empty();
        if let Some(piece) = delta.full_text("reasoning_content") {
            proof {
                given = reasoning_step(self@, piece@).1;
            }
            events = self.push_reasoning(piece);
        }
        let ghost reasoned = given;
        let ghost middle = self@;
        assert((middle, reasoned) == match delta@.full_text("reasoning_content"@) {
            Some(piece) => reasoning_step(before, piece),
            None => (before, Seq::empty()),
        });
        let ghost mut spoken: Seq<Event> = Seq::empty();
        if let Some(piece) = delta.full_text("content") {
            proof {
                spoken = content_step(self@, piece@).1;
            }
            let mut more = self.push_content(piece);
            events.append(&mut more);
        }
        assert((self@, spoken) == match delta@.full_text("content"@) {
            Some(piece) => content_step(middle, piece),
            None => (middle, Seq::empty()),
        });
        assert(texts(events@) =~= rendered(reasoned + spoken));
        let ghost start = self@;
        let ghost calls = delta@.items("tool_calls"@);
        let reasoning = self.current_reasoning_text();
        let hint: Option<&str> = match &reasoning {
            Some(text) => Some(text.as_str()),
            None => None,
        };
        let ghost thought = substance(start.reasoning.text);
        assert(opt_str(hint) == thought);
        match delta.get("tool_calls") {
            Some(Json::Array(items)) => {
                proof {
                    lemma_array_view(items@);
                    assert(calls.take(0) =~= Seq::empty());
                }
                let mut i: usize = 0;
                assert(reasoned + spoken + Seq::<Event>::empty() =~= reasoned + spoken);
                while i < items.len()
                    invariant
                        i <= items@.len(),
                        calls == array_view(items@),
                        calls.len() == items@.len(),
                        forall|k: int| 0 <= k < calls.len() ==> #[trigger] calls[k] == items@[k]@,
                        opt_str(hint) == thought,
                        self.wf(),
                        self@ == calls_step(start, calls.take(i as int), thought).0,
                        texts(events@) == rendered(
                            reasoned + spoken + calls_step(
                                start,
                                calls.take(i as int),
                                thought,
                            ).1,
                        ),
                    decreases items@.len() - i,
                {
                    broadcast use lemma_texts_add, lemma_rendered_add;

                    let ghost longer = calls.take(i + 1);
                    assert(longer.drop_last() =~= calls.take(i as int));
                    assert(longer.last() == items@[i as int]@);
                    let ghost done = calls_step(start, calls.take(i as int), thought);
                    let ghost step = call_step(self@, items@[i as int]@, thought);
                    let mut more = self.push_tool_call_delta(&items[i], hint);
                    events.append(&mut more);
                    assert(reasoned + spoken + (done.1 + step.1) =~= reasoned + spoken + done.1
                        + step.1);
                    i += 1;
                }
                assert(calls.take(i as int) =~= calls);
            },
            _ => {
                assert(calls =~= Seq::empty());
                assert(reasoned + spoken + Seq::<Event>::empty() =~= reasoned + spoken);
            },
        }
        events
    }
}

// ── the end of the answer ─────────────────────────────────────────────

/// The events that close the reasoning item.
pub open spec fn reasoning_closing(stage: TextStageView) -> Seq<Event> {
    if stage.added {
        seq![
            part_event(
                "response.reasoning_summary_text.done"@,
                stage,
                "summary_index"@,
                "text"@,
                JsonView::Text(stage.text),
            ),
            part_event(
                "response.reasoning_summary_part.done"@,
                stage,
                "summary_index"@,
                "part"@,
                summary_part(stage.text),
            ),
            item_event(
                "response.output_item.done"@,
                stage.output_index,
                reasoning_item(
                    stage.item_id,
                    JsonView::Array(seq![summary_part(stage.text)]),
                ).with_text("status"@, "completed"@),
            ),
        ]
    } else {
        Seq::empty()
    }
}

/// The events that close the message.
pub open spec fn text_closing(stage: TextStageView) -> Seq<Event> {
    if stage.added {
        seq![
            part_event(
                "response.output_text.done"@,
                stage,
                "content_index"@,
                "text"@,
                JsonView::Text(stage.text),
            ),
            part_event(
                "response.content_part.done"@,
                stage,
                "content_index"@,
                "part"@,
                output_part(stage.text),
            ),
            item_event(
                "response.output_item.done"@,
                stage.output_index,
                message_item(
                    stage.item_id,
                    JsonView::Array(seq![output_part(stage.text)]),
                ).with_text("status"@, "completed"@),
            ),
        ]
    } else {
        Seq::empty()
    }
}

/// The finished items of the tool calls, in order.
pub open spec fn call_items(
    tools: Seq<(usize, ToolStageView)>,
    custom_tools: Set<Seq<char>>,
) -> Seq<JsonView> {
    tools.map_values(
        |t: (usize, ToolStageView)| call_item(t.1, "completed"@, None, custom_tools),
    )
}

/// The events that close the tool calls, in order.
pub open spec fn calls_closing(
    tools: Seq<(usize, ToolStageView)>,
    custom_tools: Set<Seq<char>>,
) -> Seq<Event> {
    tools.map_values(
        |t: (usize, ToolStageView)|
            item_event(
                "response.output_item.done"@,
                t.1.output_index,
                call_item(t.1, "completed"@, None, custom_tools),
            ),
    )
}

/// The output of the finished answer: the reasoning, the message, the tool calls.
pub open spec fn output_items(s: StreamView) -> Seq<JsonView> {
    (if s.reasoning.added {
        seq![
            reasoning_item(
                s.reasoning.item_id,
                JsonView::Array(seq![summary_part(s.reasoning.text)]),
            ),
        ]
    } else {
        Seq::empty()
    }) + (if s.text.added {
        seq![message_item(s.text.item_id, JsonView::Array(seq![output_part(s.text.text)]))]
    } else {
        Seq::empty()
    }) + call_items(s.tools, s.custom_tools)
}

/// Token counts in the form of the Responses protocol.
pub open spec fn usage_report(tokens: TokenUsageView) -> JsonView {
    empty_object().with("input_tokens"@, JsonView::Int(tokens.input_tokens as int)).with(
        "output_tokens"@,
        JsonView::Int(tokens.output_tokens as int),
    ).with("total_tokens"@, JsonView::Int(tokens.total_tokens as int)).with(
        "input_tokens_details"@,
        empty_object().with(
            "cached_tokens"@,
            JsonView::Int(tokens.cached_input_tokens as int),
        ).with("cache_miss_tokens"@, JsonView::Int(tokens.cache_miss_input_tokens as int)),
    ).with(
        "output_tokens_details"@,
        empty_object().with(
            "reasoning_tokens"@,
            JsonView::Int(tokens.reasoning_output_tokens as int),
        ),
    )
}

pub fn responses_usage(tokens: &TokenUsage) -> (json: Json)
    ensures
        json@ == usage_report(tokens@),
{
    Json::object().with("input_tokens", Json::integer(tokens.input_tokens)).with(
        "output_tokens",
        Json::integer(tokens.output_tokens),
    ).with("total_tokens", Json::integer(tokens.total_tokens)).with(
        "input_tokens_details",
        Json::object().with("cached_tokens", Json::integer(tokens.cached_input_tokens)).with(
            "cache_miss_tokens",
            Json::integer(tokens.cache_miss_input_tokens),
        ),
    ).with(
        "output_tokens_details",
        Json::object().with("reasoning_tokens", Json::integer(tokens.reasoning_output_tokens)),
    )
}

/// The event that hands over the finished answer.
pub open spec fn completion(s: StreamView, tokens: TokenUsageView) -> Event {
    Event {
        name: "response.completed"@,
        payload: empty_object().with(
            "response"@,
            response(s.id, s.model, "completed"@, output_items(s)).with(
                "usage"@,
                usage_report(tokens),
            ),
        ),
    }
}

/// What the end of the answer does. The last chunk may tell what the answer cost. An answer ends
/// once: nothing comes after that.
pub open spec fn finish_step(s: StreamView, chunk: JsonView) -> (StreamView, Seq<Event>) {
    if s.finished {
        (s, Seq::empty())
    } else {
        let tokens = usage_of(chunk.get("usage"@));
        (
            StreamView { finished: true, usage: Some(tokens), ..s },
            (reasoning_closing(s.reasoning) + text_closing(s.text) + calls_closing(
                s.tools,
                s.custom_tools,
            )).push(completion(s, tokens)),
        )
    }
}

/// Whether there is any output to speak of.
pub open spec fn has_output(s: StreamView) -> bool {
    s.reasoning.added || s.text.added || exists|i: int|
        0 <= i < s.tools.len() && (#[trigger] s.tools[i]).1.added
}

/// Three texts in a row.
fn triple(a: String, b: String, c: String) -> (v: Vec<String>)
    ensures
        texts(v@) == seq![a@, b@, c@],
{
    let mut v: Vec<String> = Vec::new();
    v.push(a);
    v.push(b);
    v.push(c);
    assert(texts(v@) =~= seq![a@, b@, c@]);
    v
}

impl<'a> SseState<'a> {
    fn finalize_reasoning(&self) -> (events: Vec<String>)
        ensures
            texts(events@) == rendered(reasoning_closing(self@.reasoning)),
    {
        if !self.reasoning.added {
            let events: Vec<String> = Vec::new();
            assert(texts(events@) =~= rendered(reasoning_closing(self@.reasoning)));
            return events;
        }
        let text = self.reasoning.text.as_str();
        let events = triple(
            part_sse(
                "response.reasoning_summary_text.done",
                &self.reasoning,
                "summary_index",
                "text",
                Json::string(text),
            ),
            part_sse(
                "response.reasoning_summary_part.done",
                &self.reasoning,
                "summary_index",
                "part",
                summary_part_json(text),
            ),
            item_sse(
                "response.output_item.done",
                self.reasoning.output_index,
                reasoning_item_json(
                    self.reasoning.item_id.as_str(),
                    Json::single(summary_part_json(text)),
                ).with_text("status", "completed"),
            ),
        );
        assert(texts(events@) =~= rendered(reasoning_closing(self@.reasoning)));
        events
    }

    fn finalize_text(&self) -> (events: Vec<String>)
        ensures
            texts(events@) == rendered(text_closing(self@.text)),
    {
        if !self.text.added {
            let events: Vec<String> = Vec::new();
            assert(texts(events@) =~= rendered(text_closing(self@.text)));
            return events;
        }
        let text = self.text.text.as_str();
        let events = triple(
            part_sse(
                "response.output_text.done",
                &self.text,
                "content_index",
                "text",
                Json::string(text),
            ),
            part_sse(
                "response.content_part.done",
                &self.text,
                "content_index",
                "part",
                output_part_json(text),
            ),
            item_sse(
                "response.output_item.done",
                self.text.output_index,
                message_item_json(
                    self.text.item_id.as_str(),
                    Json::single(output_part_json(text)),
                ).with_text("status", "completed"),
            ),
        );
        assert(texts(events@) =~= rendered(text_closing(self@.text)));
        events
    }

    fn finalize_tools(&self) -> (events: Vec<String>)
        ensures
            texts(events@) == rendered(calls_closing(self@.tools, self@.custom_tools)),
    {
        let ghost all = calls_closing(self@.tools, self@.custom_tools);
        let mut events: Vec<String> = Vec::new();
        let mut i: usize = 0;
        assert(texts(events@) =~= rendered(all.take(0)));
        while i < self.tools.len()
            invariant
                i <= self.tools@.len(),
                all == calls_closing(self@.tools, self@.custom_tools),
                texts(events@) == rendered(all.take(i as int)),
            decreases self.tools@.len() - i,
        {
            broadcast use lemma_rendered_push, lemma_texts_push;

            let stage = &self.tools[i].1;
            let event = item_sse(
                "response.output_item.done",
                stage.output_index,
                function_call_item(stage, "completed", None, &self.custom_tools),
            );
            assert(all.take(i + 1) =~= all.take(i as int).push(all[i as int]));
            events.push(event);
            i += 1;
        }
        assert(all.take(i as int) =~= all);
        events
    }

    fn completed_items(&self) -> (items: Vec<Json>)
        ensures
            array_view(items@) == output_items(self@),
    {
        broadcast use lemma_array_view_push;

        let mut items: Vec<Json> = Vec::new();
        if self.reasoning.added {
            items.push(
                reasoning_item_json(
                    self.reasoning.item_id.as_str(),
                    Json::single(summary_part_json(self.reasoning.text.as_str())),
                ),
            );
        }
        if self.text.added {
            items.push(
                message_item_json(
                    self.text.item_id.as_str(),
                    Json::single(output_part_json(self.text.text.as_str())),
                ),
            );
        }
        let ghost head = array_view(items@);
        let ghost all = call_items(self@.tools, self@.custom_tools);
        let mut i: usize = 0;
        assert(head + all.take(0) =~= head);
        while i < self.tools.len()
            invariant
                i <= self.tools@.len(),
                all == call_items(self@.tools, self@.custom_tools),
                array_view(items@) == head + all.take(i as int),
            decreases self.tools@.len() - i,
        {
            broadcast use lemma_array_view_push;

            let item = function_call_item(&self.tools[i].1, "completed", None, &self.custom_tools);
            assert(all[i as int] == item@);
            assert((head + all.take(i as int)).push(item@) =~= head + all.take(i + 1));
            items.push(item);
            i += 1;
        }
        assert(all.take(i as int) =~= all);
        assert(head + all =~= output_items(self@));
        items
    }

    pub fn finalize(&mut self, chunk: &Json) -> (events: Vec<String>)
        requires
            old(self).wf(),
        ensures
            final(self)@ == finish_step(old(self)@, chunk@).0,
            texts(events@) == rendered(finish_step(old(self)@, chunk@).1),
            final(self).wf(),
    {
        broadcast use lemma_texts_add, lemma_rendered_add, lemma_rendered_push, lemma_texts_push;

        let ghost before = self@;
        if self.finished {
            let events: Vec<String> = Vec::new();
            assert(texts(events@) =~= rendered(Seq::<Event>::empty()));
            return events;
        }
        self.finished = true;
        let tokens = usage_from_chat_usage(chunk.get("usage"));
        let report = responses_usage(&tokens);
        self.usage = Some(tokens);
        let mut events = self.finalize_reasoning();
        let mut more = self.finalize_text();
        events.append(&mut more);
        let mut more = self.finalize_tools();
        events.append(&mut more);
        let answer = base_resp(self.id, self.model, "completed", self.completed_items()).with(
            "usage",
            report,
        );
        assert(output_items(self@) == output_items(before));
        events.push(sse("response.completed", Json::object().with("response", answer)));
        assert(texts(events@) =~= rendered(finish_step(before, chunk@).1));
        events
    }

    pub fn has_substantive_output(&self) -> (b: bool)
        ensures
            b == has_output(self@),
    {
        if self.reasoning.added || self.text.added {
            return true;
        }
        let ghost views = self@.tools;
        let mut i: usize = 0;
        while i < self.tools.len()
            invariant
                i <= self.tools@.len(),
                views == self@.tools,
                forall|k: int| 0 <= k < i ==> !(#[trigger] views[k]).1.added,
            decreases self.tools@.len() - i,
        {
            if self.tools[i].1.added {
                assert(views[i as int].1.added);
                return true;
            }
            i += 1;
        }
        false
    }
}

} // verus!

//! From the text of a chat completion stream to the events of a Responses stream.
use vstd::prelude::*;

use crate::codec::{json_parse, json_text, parse_json, to_json_text};
use crate::json::{empty_object, fields_view, first_member, first_present, lemma_array_view};
use crate::json::{opt_str, opt_view, Json, JsonView};
use crate::proxy::sse::{block_views, blocks_of, lemma_popped_shrinks, lemma_rendered_add};
use crate::proxy::sse::{pop_sse_block, popped, rendered, sse, sse_blocks, BlockView, Event};
use crate::proxy::sse::SseBlock;
use crate::proxy::stage::{TextStage, TextStageView};
use crate::proxy::stream::{base_resp, delta_step, finish_step, has_output, opt_usage, pair};
use crate::proxy::stream::{response, SseState, StreamView};
use crate::proxy::tools::{clip, clipped, custom_names, custom_tool_names, items_of};
use crate::proxy::usage::TokenUsage;
use crate::text::{blank, is_blank, lemma_texts_add, same_text, texts, trim, trimmed};

verus! {

// ── errors in the stream ──────────────────────────────────────────────

/// Whether a chunk reports a failure.
pub open spec fn reports_error(chunk: JsonView) -> bool {
    match chunk.get("error"@) {
        None => false,
        Some(JsonView::Null) => false,
        Some(JsonView::Object(members)) => exists|key: Seq<char>| members.contains_key(key),
        Some(JsonView::Text(s)) => !is_blank(s),
        Some(_) => true,
    }
}

pub fn meaningful_error(chunk: &Json) -> (b: bool)
    ensures
        b == reports_error(chunk@),
{
    match chunk.get("error") {
        None => false,
        Some(error) => match error {
            Json::Null => false,
            Json::Object(fields) => {
                let ghost members = fields_view(fields@);
                proof {
                    if fields@.len() > 0 {
                        assert(members.contains_key(fields@.last().0@));
                    } else {
                        assert(members == Map::<Seq<char>, JsonView>::empty());
                    }
                }
                !fields.is_empty()
            },
            Json::Text(s) => !blank(s.as_str()),
            _ => {
                assert(chunk@.get("error"@) == Some(error@));
                assert(!(error@ is Null || error@ is Object || error@ is Text));
                true
            },
        },
    }
}

/// What a failure says of itself, and of what kind it is.
pub open spec fn error_message(chunk: JsonView) -> Seq<char> {
    let error = match chunk.get("error"@) {
        Some(e) => e,
        None => chunk,
    };
    let told = first_present(
        error.get("message"@),
        first_present(error.get("msg"@), error.get("detail"@)),
    );
    let message = match told {
        Some(JsonView::Text(s)) => s,
        _ => match error {
            JsonView::Text(s) => s,
            _ => "upstream chat SSE error"@,
        },
    };
    match first_present(error.get("type"@), error.get("code"@)) {
        Some(kind) => message + " ("@ + json_text(kind) + ")"@,
        None => message,
    }
}

pub fn chat_sse_error_message(chunk: &Json) -> (message: String)
    ensures
        message@ == error_message(chunk@),
{
    let error = match chunk.get("error") {
        Some(e) => e,
        None => chunk,
    };
    let told = match error.get("message") {
        Some(v) => Some(v),
        None => first_member(error, "msg", "detail"),
    };
    let told_text = match told {
        Some(v) => v.as_str(),
        None => None,
    };
    let message: &str = match told_text {
        Some(s) => s,
        None => match error.as_str() {
            Some(s) => s,
            None => "upstream chat SSE error",
        },
    };
    match first_member(error, "type", "code") {
        Some(kind) => message.to_owned().concat(" (").concat(to_json_text(kind).as_str()).concat(")"),
        None => message.to_owned(),
    }
}

// ── the converter ─────────────────────────────────────────────────────

/// Turns a chat completion stream into Responses events, as it comes.
pub struct ChatSseConverter<'a> {
    pub state: SseState<'a>,
    pub saw_valid_chunk: bool,
}

pub struct ConverterView {
    pub stream: StreamView,
    pub saw_valid_chunk: bool,
}

impl<'a> View for ChatSseConverter<'a> {
    type V = ConverterView;

    open spec fn view(&self) -> ConverterView {
        ConverterView { stream: self.state@, saw_valid_chunk: self.saw_valid_chunk }
    }
}

pub open spec fn no_text() -> TextStageView {
    TextStageView { added: false, item_id: Seq::empty(), text: Seq::empty(), output_index: 0 }
}

/// The converter before anything has come.
pub open spec fn fresh(id: Seq<char>, model: Seq<char>, tools: Option<JsonView>) -> ConverterView {
    ConverterView {
        stream: StreamView {
            id,
            model,
            custom_tools: custom_names(items_of(tools)),
            output_index: 0,
            reasoning: no_text(),
            text: no_text(),
            tools: Seq::empty(),
            finished: false,
            usage: None,
        },
        saw_valid_chunk: false,
    }
}

/// The events that begin an answer.
pub open spec fn opening(s: StreamView) -> Seq<Event> {
    let payload = empty_object().with(
        "response"@,
        response(s.id, s.model, "in_progress"@, Seq::empty()),
    );
    seq![
        Event { name: "response.created"@, payload },
        Event { name: "response.in_progress"@, payload },
    ]
}

/// What a parsed chunk does: the converter after it, and the events it gives or the failure.
pub open spec fn chunk_step(c: ConverterView, event: Option<Seq<char>>, chunk: JsonView) -> (
    ConverterView,
    Result<Seq<Event>, Seq<char>>,
) {
    if event == Some("error"@) || reports_error(chunk) {
        (c, Err(error_message(chunk)))
    } else if chunk.items("choices"@).len() == 0 {
        (c, Ok(Seq::empty()))
    } else {
        let choice = chunk.items("choices"@)[0];
        let after = delta_step(c.stream, choice.member("delta"@));
        if choice.text("finish_reason"@) is None {
            (ConverterView { stream: after.0, saw_valid_chunk: true }, Ok(after.1))
        } else if !has_output(after.0) {
            (
                ConverterView { stream: after.0, saw_valid_chunk: true },
                Err("upstream stream completed without assistant output"@),
            )
        } else {
            let end = finish_step(after.0, chunk);
            (ConverterView { stream: end.0, saw_valid_chunk: true }, Ok(after.1 + end.1))
        }
    }
}

/// What an event of the stream does.
pub open spec fn block_step(c: ConverterView, block: BlockView) -> (
    ConverterView,
    Result<Seq<Event>, Seq<char>>,
) {
    let data = trimmed(block.data);
    if data.len() == 0 || data == "[DONE]"@ {
        (c, Ok(Seq::empty()))
    } else {
        match json_parse(data) {
            Ok(chunk) => chunk_step(c, block.event, chunk),
            Err(e) => (
                c,
                Err("invalid chat SSE JSON: "@ + e + "; data="@ + clipped(data, 400)),
            ),
        }
    }
}

/// Some events and then an outcome.
pub open spec fn following(events: Seq<Event>, outcome: Result<Seq<Event>, Seq<char>>) -> Result<
    Seq<Event>,
    Seq<char>,
> {
    match outcome {
        Ok(later) => Ok(events + later),
        Err(e) => Err(e),
    }
}

pub proof fn lemma_following(a: Seq<Event>, b: Seq<Event>, outcome: Result<Seq<Event>, Seq<char>>)
    ensures
        following(a, following(b, outcome)) == following(a + b, outcome),
        following(Seq::empty(), outcome) == outcome,
        following(a, Ok(Seq::empty())) == Ok::<Seq<Event>, Seq<char>>(a),
{
    if let Ok(later) = outcome {
        assert(a + (b + later) =~= a + b + later);
        assert(Seq::<Event>::empty() + later =~= later);
    }
    assert(a + Seq::<Event>::empty() =~= a);
}

/// What more text of the stream does: the converter after it, the text that is left for later,
/// and the events it gives or the failure.
pub open spec fn feed_step(c: ConverterView, text: Seq<char>) -> (
    ConverterView,
    Seq<char>,
    Result<Seq<Event>, Seq<char>>,
)
    decreases text.len(),
{
    proof {
        lemma_popped_shrinks(text);
    }
    let rest = popped(text).1;
    match popped(text).0 {
        None => (c, rest, Ok(Seq::empty())),
        Some(block) => {
            let step = block_step(c, block);
            match step.1 {
                Err(e) => (step.0, rest, Err(e)),
                Ok(events) => if step.0.stream.finished {
                    (step.0, rest, Ok(events))
                } else {
                    let more = feed_step(step.0, rest);
                    (more.0, more.1, following(events, more.2))
                },
            }
        },
    }
}

/// What the end of the stream does.
pub open spec fn end_step(c: ConverterView) -> (ConverterView, Result<Seq<Event>, Seq<char>>) {
    if c.stream.finished {
        (c, Ok(Seq::empty()))
    } else if !c.saw_valid_chunk {
        (c, Err("upstream stream contained no valid chat completion chunks"@))
    } else if !has_output(c.stream) {
        (c, Err("upstream stream completed without assistant output"@))
    } else {
        let end = finish_step(c.stream, empty_object());
        (ConverterView { stream: end.0, ..c }, Ok(end.1))
    }
}

/// Whether what a function hands back is what it owes: the texts of the events, or the failure.
pub open spec fn delivers(
    result: Result<Vec<String>, String>,
    owed: Result<Seq<Event>, Seq<char>>,
) -> bool {
    match owed {
        Ok(events) => result matches Ok(out) && texts(out@) == rendered(events),
        Err(message) => result matches Err(e) && e@ == message,
    }
}

fn no_events() -> (events: Vec<String>)
    ensures
        texts(events@) == rendered(Seq::empty()),
{
    let events: Vec<String> = Vec::new();
    assert(texts(events@) =~= rendered(Seq::empty()));
    events
}

fn empty_text_stage() -> (stage: TextStage)
    ensures
        stage@ == no_text(),
{
    TextStage { added: false, item_id: String::new(), text: String::new(), output_index: 0 }
}

impl<'a> ChatSseConverter<'a> {
    pub open spec fn wf(&self) -> bool {
        self.state.wf()
    }

    pub fn new(id: &'a str, model: &'a str, tools: Option<&Json>) -> (converter: Self)
        ensures
            converter@ == fresh(id@, model@, opt_view(tools)),
            converter.wf(),
    {
        let converter = ChatSseConverter {
            state: SseState {
                id,
                model,
                custom_tools: custom_tool_names(tools),
                output_index: 0,
                reasoning: empty_text_stage(),
                text: empty_text_stage(),
                tools: Vec::new(),
                finished: false,
                usage: None,
            },
            saw_valid_chunk: false,
        };
        assert(converter@.stream.tools =~= Seq::empty());
        converter
    }

    pub fn initial_events(&self) -> (events: Vec<String>)
        ensures
            texts(events@) == rendered(opening(self@.stream)),
    {
        let events = pair(
            sse(
                "response.created",
                Json::object().with(
                    "response",
                    base_resp(self.state.id, self.state.model, "in_progress", Vec::new()),
                ),
            ),
            sse(
                "response.in_progress",
                Json::object().with(
                    "response",
                    base_resp(self.state.id, self.state.model, "in_progress", Vec::new()),
                ),
            ),
        );
        assert(texts(events@) =~= rendered(opening(self@.stream)));
        events
    }

    pub fn is_finished(&self) -> (b: bool)
        ensures
            b == self@.stream.finished,
    {
        self.state.finished
    }

    pub fn usage(&self) -> (usage: Option<TokenUsage>)
        ensures
            opt_usage(usage) == self@.stream.usage,
    {
        match &self.state.usage {
            Some(usage) => Some(usage.clone()),
            None => None,
        }
    }

    /// Takes in a parsed chunk of the stream that came as an event of this name.
    pub fn push_chunk(&mut self, event: Option<&str>, chunk: &Json) -> (result: Result<
        Vec<String>,
        String,
    >)
        requires
            old(self).wf(),
        ensures
            final(self)@ == chunk_step(old(self)@, opt_str(event), chunk@).0,
            delivers(result, chunk_step(old(self)@, opt_str(event), chunk@).1),
            final(self).wf(),
    {
        broadcast use lemma_texts_add, lemma_rendered_add;

        let named_error = match event {
            Some(name) => same_text(name, "error"),
            None => false,
        };
        if named_error || meaningful_error(chunk) {
            return Err(chat_sse_error_message(chunk));
        }
        match chunk.get("choices") {
            Some(Json::Array(choices)) => {
                proof {
                    lemma_array_view(choices@);
                }
                if choices.is_empty() {
                    return Ok(no_events());
                }
                let choice = &choices[0];
                assert(chunk@.items("choices"@)[0] == choice@);
                self.saw_valid_chunk = true;
                let null = Json::Null;
                let delta = match choice.get("delta") {
                    Some(delta) => delta,
                    None => &null,
                };
                let mut events = self.state.push_delta(delta);
                if choice.text("finish_reason").is_some() {
                    if !self.state.has_substantive_output() {
                        return Err("upstream stream completed without assistant output".to_owned());
                    }
                    let mut more = self.state.finalize(chunk);
                    events.append(&mut more);
                }
                Ok(events)
            },
            _ => Ok(no_events()),
        }
    }

    fn push_block(&mut self, block: &SseBlock) -> (result: Result<Vec<String>, String>)
        requires
            old(self).wf(),
        ensures
            final(self)@ == block_step(old(self)@, block@).0,
            delivers(result, block_step(old(self)@, block@).1),
            final(self).wf(),
    {
        let event: Option<&str> = match &block.event {
            Some(name) => Some(name.as_str()),
            None => None,
        };
        let data = trim(block.data.as_str());
        if data.is_empty() || same_text(data, "[DONE]") {
            return Ok(no_events());
        }
        match parse_json(data) {
            Ok(chunk) => self.push_chunk(event, &chunk),
            Err(e) => Err(
                "invalid chat SSE JSON: ".to_owned().concat(e.as_str()).concat("; data=").concat(
                    clip(data, 400).as_str(),
                ),
            ),
        }
    }

    pub fn push_text(&mut self, text: &mut String) -> (result: Result<Vec<String>, String>)
        requires
            old(self).wf(),
        ensures
            final(self)@ == feed_step(old(self)@, old(text)@).0,
            final(text)@ == feed_step(old(self)@, old(text)@).1,
            delivers(result, feed_step(old(self)@, old(text)@).2),
            final(self).wf(),
    {
        let ghost start = self@;
        let ghost whole = text@;
        let mut events = no_events();
        let ghost mut given: Seq<Event> = Seq::empty();
        proof {
            lemma_following(given, given, feed_step(start, whole).2);
        }
        loop
            invariant
                self.wf(),
                start == old(self)@,
                whole == old(text)@,
                texts(events@) == rendered(given),
                feed_step(start, whole).0 == feed_step(self@, text@).0,
                feed_step(start, whole).1 == feed_step(self@, text@).1,
                feed_step(start, whole).2 == following(given, feed_step(self@, text@).2),
            decreases text@.len(),
        {
            broadcast use lemma_texts_add, lemma_rendered_add;

            let ghost c = self@;
            let ghost pending = text@;
            proof {
                lemma_popped_shrinks(pending);
            }
            match pop_sse_block(text) {
                None => {
                    proof {
                        lemma_following(given, given, feed_step(c, pending).2);
                    }
                    return Ok(events);
                },
                Some(block) => {
                    let ghost step = block_step(c, block@);
                    match self.push_block(&block) {
                        Err(e) => {
                            return Err(e);
                        },
                        Ok(new_events) => {
                            let mut more = new_events;
                            events.append(&mut more);
                            proof {
                                lemma_following(
                                    given,
                                    step.1->Ok_0,
                                    feed_step(self@, text@).2,
                                );
                                given = given + step.1->Ok_0;
                            }
                            if self.is_finished() {
                                return Ok(events);
                            }
                        },
                    }
                },
            }
        }
    }

    pub fn finish_without_done(&mut self) -> (result: Result<Vec<String>, String>)
        requires
            old(self).wf(),
        ensures
            final(self)@ == end_step(old(self)@).0,
            delivers(result, end_step(old(self)@).1),
            final(self).wf(),
    {
        if self.state.finished {
            return Ok(no_events());
        }
        if !self.saw_valid_chunk {
            return Err("upstream stream contained no valid chat completion chunks".to_owned());
        }
        if !self.state.has_substantive_output() {
            return Err("upstream stream completed without assistant output".to_owned());
        }
        Ok(self.state.finalize(&Json::object()))
    }
}

// ── a whole stream at once ────────────────────────────────────────────

/// The events that the blocks of a stream give up to its end, or the failure.
pub open spec fn blocks_step(c: ConverterView, blocks: Seq<BlockView>) -> Result<
    Seq<Event>,
    Seq<char>,
>
    decreases blocks.len(),
{
    if blocks.len() == 0 {
        end_step(c).1
    } else {
        let step = block_step(c, blocks[0]);
        match step.1 {
            Err(e) => Err(e),
            Ok(events) => if step.0.stream.finished {
                Ok(events)
            } else {
                following(events, blocks_step(step.0, blocks.drop_first()))
            },
        }
    }
}

/// The events of a whole stream, or the failure.
pub open spec fn converted(
    id: Seq<char>,
    model: Seq<char>,
    text: Seq<char>,
    tools: Option<JsonView>,
) -> Result<Seq<Event>, Seq<char>> {
    let c = fresh(id, model, tools);
    following(opening(c.stream), blocks_step(c, blocks_of(text)))
}

pub fn chat_sse_to_responses_events(id: &str, model: &str, text: &str) -> (result: Result<
    Vec<String>,
    String,
>)
    ensures
        delivers(result, converted(id@, model@, text@, None)),
{
    chat_sse_to_responses_events_with_tools(id, model, text, None)
}

pub fn chat_sse_to_responses_events_with_tools(
    id: &str,
    model: &str,
    text: &str,
    tools: Option<&Json>,
) -> (result: Result<Vec<String>, String>)
    ensures
        delivers(result, converted(id@, model@, text@, opt_view(tools))),
{
    broadcast use lemma_texts_add, lemma_rendered_add;

    let mut converter = ChatSseConverter::new(id, model, tools);
    let ghost c = converter@;
    let mut events = converter.initial_events();
    let blocks = sse_blocks(text);
    let ghost all = blocks_of(text@);
    let ghost mut given: Seq<Event> = opening(c.stream);
    let mut i: usize = 0;
    assert(all.skip(0) =~= all);
    while i < blocks.len()
        invariant
            converter.wf(),
            i <= blocks@.len(),
            all == block_views(blocks@),
            texts(events@) == rendered(given),
            converted(id@, model@, text@, opt_view(tools)) == following(
                given,
                blocks_step(converter@, all.skip(i as int)),
            ),
        decreases blocks@.len() - i,
    {
        broadcast use lemma_texts_add, lemma_rendered_add;

        assert(all.skip(i as int).drop_first() =~= all.skip(i + 1));
        assert(all.skip(i as int)[0] == blocks@[i as int]@);
        let ghost step = block_step(converter@, blocks@[i as int]@);
        match converter.push_block(&blocks[i]) {
            Err(e) => {
                return Err(e);
            },
            Ok(new_events) => {
                let mut more = new_events;
                events.append(&mut more);
                proof {
                    lemma_following(
                        given,
                        step.1->Ok_0,
                        blocks_step(converter@, all.skip(i + 1)),
                    );
                    given = given + step.1->Ok_0;
                }
                if converter.is_finished() {
                    return Ok(events);
                }
            },
        }
        i += 1;
    }
    assert(all.skip(i as int).len() == 0);
    match converter.finish_without_done() {
        Err(e) => Err(e),
        Ok(new_events) => {
            let mut more = new_events;
            events.append(&mut more);
            Ok(events)
        },
    }
}

} // verus!

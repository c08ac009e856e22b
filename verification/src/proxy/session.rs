//! One request on its way through the proxy.
use vstd::prelude::*;

use crate::codec::{json_parse, json_parse_bytes, json_text, parse_json, parse_json_bytes};
use crate::codec::to_json_text;
use crate::json::{lemma_array_view, or_empty, str_or_empty, Json, JsonView};
use crate::proxy::ProxyConfig;
use crate::proxy::converter::{end_step, feed_step, fresh, opening, ChatSseConverter, ConverterView};
use crate::proxy::http::{failure_reply, headers_json, json_reply, shown_headers, write_failure};
use crate::proxy::http::write_json;
use crate::proxy::reply::{answer, chat_completion_to_response};
use crate::proxy::request::{chat_request, responses_to_chat};
use crate::proxy::sse::{error_event, rendered, sse_error, Event};
use crate::proxy::stream::StreamView;
use crate::proxy::usage::{header_texts, is_record, no_usage, session_id, session_of};
use crate::proxy::usage::{usage_from_chat, usage_of, usage_record, zero_usage, TokenUsageView};
use crate::proxy::usage::{UsageContext, UsageRecord};
use crate::text::{decode_lossy, same_text, texts, utf8_lossy};

verus! {

// ── intake ─────────────────────────────────────────────────────────

/// A request that has been understood: what goes into the record, what goes upstream, and how much
/// came in: the items, and those of the user among them.
pub struct Intake {
    pub ctx: UsageContext,
    pub chat: Json,
    pub input_items: usize,
    pub user_turns: usize,
}

/// How many of these items the user said.
pub open spec fn turns_of_user(items: Seq<JsonView>) -> nat
    decreases items.len(),
{
    if items.len() == 0 {
        0
    } else if items.last().text("role"@) == Some("user"@) {
        turns_of_user(items.drop_last()) + 1
    } else {
        turns_of_user(items.drop_last())
    }
}

/// Counts the items of a request's input, and those of the user among them.
pub fn input_counts(req: &Json) -> (counts: (usize, usize))
    ensures
        counts.0 == req@.items("input"@).len(),
        counts.1 == turns_of_user(req@.items("input"@)),
{
    let ghost all = req@.items("input"@);
    match req.get("input") {
        Some(Json::Array(items)) => {
            proof {
                lemma_array_view(items@);
                assert(all.take(0) =~= Seq::empty());
            }
            let mut turns: usize = 0;
            let mut i: usize = 0;
            while i < items.len()
                invariant
                    i <= items@.len(),
                    all.len() == items@.len(),
                    forall|k: int| 0 <= k < all.len() ==> #[trigger] all[k] == items@[k]@,
                    turns <= i,
                    turns == turns_of_user(all.take(i as int)),
                decreases items@.len() - i,
            {
                assert(all.take(i + 1).drop_last() =~= all.take(i as int));
                assert(all.take(i + 1).last() == items@[i as int]@);
                if let Some(role) = items[i].text("role") {
                    if same_text(role, "user") {
                        turns += 1;
                    }
                }
                i += 1;
            }
            assert(all.take(i as int) =~= all);
            (items.len(), turns)
        },
        _ => (0, 0),
    }
}

/// Whether a request wants its answer as a stream.
pub open spec fn wants_stream(req: JsonView) -> bool {
    req.get("stream"@) == Some(JsonView::Bool(true))
}

fn is_stream(req: &Json) -> (b: bool)
    ensures
        b == wants_stream(req@),
{
    match req.get("stream") {
        Some(stream) => match stream.as_bool() {
            Some(b) => b,
            None => false,
        },
        None => false,
    }
}

/// Whether an intake is the one for this request.
pub open spec fn is_intake(
    intake: Intake,
    request_id: Seq<char>,
    req: JsonView,
    headers: Seq<(Seq<char>, Seq<char>)>,
    body: Seq<u8>,
    cfg: ProxyConfig,
) -> bool {
    &&& intake.ctx.request_id@ == request_id
    &&& intake.ctx.session_id@ == session_of(req, headers)
    &&& intake.ctx.provider@ == cfg.provider_name@
    &&& intake.ctx.model@ == cfg.model_slug@
    &&& intake.ctx.stream == wants_stream(req)
    &&& intake.ctx.request_json@ == utf8_lossy(body)
    &&& intake.ctx.headers_json@ == json_text(shown_headers(headers))
    &&& intake.chat@ == chat_request(req, cfg.model_slug@)
    &&& intake.input_items == req.items("input"@).len()
    &&& intake.user_turns == turns_of_user(req.items("input"@))
}

/// Takes in a request whose body has been parsed.
pub fn take_in_request(
    request_id: String,
    req: &Json,
    headers: &[(String, String)],
    body: &[u8],
    cfg: &ProxyConfig,
) -> (intake: Intake)
    ensures
        is_intake(intake, request_id@, req@, header_texts(headers@), body@, *cfg),
{
    let (input_items, user_turns) = input_counts(req);
    Intake {
        ctx: UsageContext {
            request_id,
            session_id: session_id(req, headers),
            provider: cfg.provider_name.clone(),
            model: cfg.model_slug.clone(),
            stream: is_stream(req),
            request_json: decode_lossy(body),
            headers_json: headers_json(headers),
        },
        chat: responses_to_chat(req, cfg.model_slug.as_str()),
        input_items,
        user_turns,
    }
}

/// The reply that turns away a request whose body is no JSON.
pub open spec fn bad_request() -> Seq<char> {
    json_reply(400, "{\"error\":\"bad json\"}"@)
}

/// Takes in a request, or gives the reply that turns it away: a body that is no JSON is turned away.
pub fn take_in(
    request_id: String,
    headers: &[(String, String)],
    body: &[u8],
    cfg: &ProxyConfig,
) -> (taken: Result<Intake, String>)
    ensures
        match json_parse_bytes(body@) {
            Some(req) => taken matches Ok(intake) && is_intake(
                intake,
                request_id@,
                req,
                header_texts(headers@),
                body@,
                *cfg,
            ),
            None => taken matches Err(reply) && reply@ == bad_request(),
        },
{
    match parse_json_bytes(body) {
        Some(req) => Ok(take_in_request(request_id, &req, headers, body, cfg)),
        None => Err(write_json(400, "{\"error\":\"bad json\"}")),
    }
}

// ── the end of a request ──────────────────────────────────────────────

/// What is left to do for a request: what the client still gets, and the row for the record.
pub struct Conclusion {
    pub reply: String,
    pub record: UsageRecord,
}

/// Whether a conclusion is the one for a request that did not get through to the upstream.
pub open spec fn ends_failed(conclusion: Conclusion, ctx: UsageContext, error: Seq<char>) -> bool {
    &&& conclusion.reply@ == failure_reply(error)
    &&& is_record(conclusion.record, ctx, "error"@, no_usage(), Some(error))
}

/// Concludes a request that did not get through to the upstream.
pub fn conclude_failed(ctx: &UsageContext, error: String) -> (conclusion: Conclusion)
    ensures
        ends_failed(conclusion, *ctx, error@),
{
    let reply = write_failure(error.as_str());
    Conclusion { reply, record: usage_record(ctx, "error", zero_usage(), Some(error)) }
}

/// The model that a chat request names.
pub open spec fn model_of(chat: JsonView) -> Seq<char> {
    or_empty(chat.text("model"@))
}

/// Whether a conclusion is the one for a request that got this chat completion.
pub open spec fn ends_completed(
    conclusion: Conclusion,
    ctx: UsageContext,
    chat: JsonView,
    completion: JsonView,
) -> bool {
    &&& conclusion.reply@ == json_reply(
        200,
        json_text(answer(completion, model_of(chat), chat.get("tools"@))),
    )
    &&& is_record(
        conclusion.record,
        ctx,
        "completed"@,
        usage_of(completion.get("usage"@)),
        None,
    )
}

/// Concludes a request to which the upstream has given this chat completion.
pub fn conclude_completed(ctx: &UsageContext, chat: &Json, completion: &Json) -> (conclusion:
    Conclusion)
    ensures
        ends_completed(conclusion, *ctx, chat@, completion@),
{
    let result = chat_completion_to_response(
        completion,
        str_or_empty(chat.text("model")),
        chat.get("tools"),
    );
    Conclusion {
        reply: write_json(200, to_json_text(&result).as_str()),
        record: usage_record(ctx, "completed", usage_from_chat(completion), None),
    }
}

/// Whether a conclusion is the one for what the upstream sent, or for the failure to get that.
pub open spec fn concludes(
    conclusion: Conclusion,
    ctx: UsageContext,
    chat: JsonView,
    fetched: Result<Seq<char>, Seq<char>>,
) -> bool {
    match fetched {
        Err(error) => ends_failed(conclusion, ctx, error),
        Ok(text) => match json_parse(text) {
            Ok(completion) => ends_completed(conclusion, ctx, chat, completion),
            Err(_) => {
                &&& conclusion.reply@ == json_reply(502, "{\"error\":\"bad upstream\"}"@)
                &&& is_record(
                    conclusion.record,
                    ctx,
                    "error"@,
                    no_usage(),
                    Some("bad upstream"@),
                )
            },
        },
    }
}

/// Concludes a request with what the upstream sent for it, or with the failure to get that.
pub fn conclude(ctx: &UsageContext, chat: &Json, fetched: Result<String, String>) -> (conclusion:
    Conclusion)
    ensures
        concludes(
            conclusion,
            *ctx,
            chat@,
            match fetched {
                Ok(text) => Ok(text@),
                Err(error) => Err(error@),
            },
        ),
{
    match fetched {
        Err(error) => conclude_failed(ctx, error),
        Ok(text) => match parse_json(text.as_str()) {
            Ok(completion) => conclude_completed(ctx, chat, &completion),
            Err(_) => Conclusion {
                reply: write_json(502, "{\"error\":\"bad upstream\"}"),
                record: usage_record(
                    ctx,
                    "error",
                    zero_usage(),
                    Some("bad upstream".to_owned()),
                ),
            },
        },
    }
}

// ── streams ───────────────────────────────────────────────────────────

/// A stream on its way to the client.
pub struct StreamSession<'a> {
    pub ctx: &'a UsageContext,
    pub converter: ChatSseConverter<'a>,
    pub pending: String,
}

pub struct SessionView {
    pub converter: ConverterView,
    pub pending: Seq<char>,
}

impl<'a> View for StreamSession<'a> {
    type V = SessionView;

    open spec fn view(&self) -> SessionView {
        SessionView { converter: self.converter@, pending: self.pending@ }
    }
}

/// What is to be done next: what the client gets, and the row for the record once the stream is
/// over.
pub struct Turn {
    pub output: Vec<String>,
    pub record: Option<UsageRecord>,
}

/// The counts of a stream; none where it told none.
pub open spec fn counted(stream: StreamView) -> TokenUsageView {
    match stream.usage {
        Some(tokens) => tokens,
        None => no_usage(),
    }
}

/// Whether a turn hands on these events, and records the end of the stream where `over`.
pub open spec fn hands_on(
    turn: Turn,
    ctx: UsageContext,
    events: Seq<Event>,
    over: bool,
    stream: StreamView,
) -> bool {
    &&& texts(turn.output@) == rendered(events)
    &&& over == turn.record is Some
    &&& over ==> is_record(turn.record->Some_0, ctx, "completed"@, counted(stream), None)
}

/// Whether a turn ends the stream with this failure.
pub open spec fn breaks_off(turn: Turn, ctx: UsageContext, error: Seq<char>) -> bool {
    &&& texts(turn.output@) == seq![error_event(error)]
    &&& turn.record is Some
    &&& is_record(turn.record->Some_0, ctx, "error"@, no_usage(), Some(error))
}

/// Whether a turn is what more text of the upstream's stream leads to, and `after` the state it
/// leaves.
pub open spec fn takes_in(
    turn: Turn,
    ctx: UsageContext,
    before: SessionView,
    after: SessionView,
    text: Seq<char>,
) -> bool {
    let fed = feed_step(before.converter, before.pending + text);
    &&& after == (SessionView { converter: fed.0, pending: fed.1 })
    &&& match fed.2 {
        Ok(events) => hands_on(turn, ctx, events, fed.0.stream.finished, fed.0.stream),
        Err(error) => breaks_off(turn, ctx, error),
    }
}

/// Whether a turn is what the end of the upstream's stream leads to, and `after` the state it
/// leaves.
pub open spec fn ends(
    turn: Turn,
    ctx: UsageContext,
    before: SessionView,
    after: SessionView,
) -> bool {
    let end = end_step(before.converter);
    &&& after == (SessionView { converter: end.0, pending: before.pending })
    &&& match end.1 {
        Ok(events) => hands_on(turn, ctx, events, true, end.0.stream),
        Err(error) => breaks_off(turn, ctx, error),
    }
}

/// A stream that answers a chat request and has not begun.
pub open spec fn opened(chat: JsonView) -> SessionView {
    SessionView {
        converter: fresh("resp_1"@, model_of(chat), chat.get("tools"@)),
        pending: Seq::empty(),
    }
}

/// The head of the reply that is a stream.
pub open spec fn stream_head() -> Seq<char> {
    "HTTP/1.1 200 OK\r\nContent-Type: text/event-stream\r\n\r\n"@
}

pub fn write_stream_head() -> (head: String)
    ensures
        head@ == stream_head(),
{
    "HTTP/1.1 200 OK\r\nContent-Type: text/event-stream\r\n\r\n".to_owned()
}

impl<'a> StreamSession<'a> {
    pub open spec fn wf(&self) -> bool {
        self.converter.wf()
    }

    /// Opens the stream that answers a chat request.
    pub fn open_stream(ctx: &'a UsageContext, chat: &'a Json) -> (session: Self)
        ensures
            session@ == opened(chat@),
            session.ctx == ctx,
            session.wf(),
    {
        StreamSession {
            ctx,
            converter: ChatSseConverter::new(
                "resp_1",
                str_or_empty(chat.text("model")),
                chat.get("tools"),
            ),
            pending: String::new(),
        }
    }

    /// What the client gets before the upstream has sent anything.
    pub fn initial_events(&self) -> (events: Vec<String>)
        ensures
            texts(events@) == rendered(opening(self@.converter.stream)),
    {
        self.converter.initial_events()
    }

    fn completed_record(&self) -> (record: UsageRecord)
        ensures
            is_record(
                record,
                *self.ctx,
                "completed"@,
                counted(self@.converter.stream),
                None,
            ),
    {
        let tokens = match self.converter.usage() {
            Some(tokens) => tokens,
            None => zero_usage(),
        };
        usage_record(self.ctx, "completed", tokens, None)
    }

    /// Ends the stream with a failure.
    pub fn on_failure(&self, error: &str) -> (turn: Turn)
        ensures
            breaks_off(turn, *self.ctx, error@),
    {
        let mut output: Vec<String> = Vec::new();
        output.push(sse_error(error));
        assert(texts(output@) =~= seq![error_event(error@)]);
        Turn {
            output,
            record: Some(usage_record(self.ctx, "error", zero_usage(), Some(error.to_owned()))),
        }
    }

    /// Takes in more text of the upstream's stream.
    pub fn on_text(&mut self, text: &str) -> (turn: Turn)
        requires
            old(self).wf(),
        ensures
            final(self).wf(),
            final(self).ctx == old(self).ctx,
            takes_in(turn, *old(self).ctx, old(self)@, final(self)@, text@),
    {
        self.pending.append(text);
        match self.converter.push_text(&mut self.pending) {
            Ok(output) => {
                if self.converter.is_finished() {
                    Turn { output, record: Some(self.completed_record()) }
                } else {
                    Turn { output, record: None }
                }
            },
            Err(error) => self.on_failure(error.as_str()),
        }
    }

    /// Takes in more bytes of the upstream's stream. Each chunk is decoded for itself.
    pub fn on_bytes(&mut self, bytes: &[u8]) -> (turn: Turn)
        requires
            old(self).wf(),
        ensures
            final(self).wf(),
            final(self).ctx == old(self).ctx,
            takes_in(turn, *old(self).ctx, old(self)@, final(self)@, utf8_lossy(bytes@)),
    {
        let text = decode_lossy(bytes);
        self.on_text(text.as_str())
    }

    /// Ends the stream when the upstream has.
    pub fn on_end(&mut self) -> (turn: Turn)
        requires
            old(self).wf(),
        ensures
            final(self).wf(),
            final(self).ctx == old(self).ctx,
            ends(turn, *old(self).ctx, old(self)@, final(self)@),
    {
        match self.converter.finish_without_done() {
            Ok(output) => Turn { output, record: Some(self.completed_record()) },
            Err(error) => self.on_failure(error.as_str()),
        }
    }
}

} // verus!

//! One subagent run: how it is started, what it reports on the way, and what it comes to.
use vstd::prelude::*;

use crate::codec::{json_parse, json_pretty, parse_json, to_json_pretty};
use crate::config::{select, selected, wanted_model, ModelConfig, ProviderConfig, SpawnerConfig};
use crate::json::{array_view, empty_object, lemma_array_view, lemma_array_view_push, opt_str};
use crate::json::{opt_string, Json, JsonView};
use crate::text::{ascii_alphanumeric, byte_len, bytes_of, char_alphanumeric, decimal, decode_lossy};
use crate::text::{fitting_prefix, fitting_suffix, lemma_fitting_suffix, lines, lines_of};
use crate::text::{prefix_within, same_text, signed_decimal, suffix_within, texts, to_chars};
use crate::text::{to_decimal, to_signed_decimal, trim, trimmed, utf8_lossy};

verus! {

// ── texts ─────────────────────────────────────────────────────────────

/// How a failed run is reported.
pub open spec fn failure(task_name: Seq<char>, detail: Seq<char>) -> Seq<char> {
    "[subagent "@ + task_name + " "@ + detail + "]"@
}

pub fn diag(task_name: &str, detail: String) -> (text: String)
    ensures
        text@ == failure(task_name@, detail@),
{
    "[subagent ".to_owned().concat(task_name).concat(" ").concat(detail.as_str()).concat("]")
}

/// The end of a text, of at most `n` bytes.
pub open spec fn last_part(s: Seq<char>, n: nat) -> Seq<char> {
    s.skip(fitting_suffix(s, n) as int)
}

pub fn tail(s: &str, n: usize) -> (t: String)
    ensures
        t@ == last_part(s@, n as nat),
{
    suffix_within(s, n).to_owned()
}

/// A tail keeps its limit, and no longer one does.
pub proof fn law_tails_keep_the_limit(s: Seq<char>, n: nat)
    ensures
        byte_len(last_part(s, n)) <= n,
        last_part(s, n).len() <= s.len(),
        last_part(s, n) == s.skip(s.len() - last_part(s, n).len()),
        forall|k: int|
            0 <= k < s.len() - last_part(s, n).len() ==> byte_len(#[trigger] s.skip(k)) > n,
{
    lemma_fitting_suffix(s, n);
}

/// A character that may stand in a file name; an underscore for any other.
pub open spec fn safe_char(c: char) -> char {
    if char_alphanumeric(c) || c == '-' || c == '_' {
        c
    } else {
        '_'
    }
}

pub open spec fn sanitized(s: Seq<char>) -> Seq<char> {
    s.map_values(|c: char| safe_char(c))
}

/// A text for a file name: letters, digits, hyphens and underscores stay, the rest becomes
/// underscores. Nothing else of ASCII is left.
pub fn sanitize(s: &str) -> (t: String)
    ensures
        t@ == sanitized(s@),
        forall|i: int|
            0 <= i < t@.len() && (#[trigger] t@[i]) <= '\u{7f}' ==> ascii_alphanumeric(t@[i])
                || t@[i] == '-' || t@[i] == '_',
{
    let chars = to_chars(s);
    let mut t = String::new();
    let mut i: usize = 0;
    assert(t@ =~= sanitized(s@).take(0));
    while i < chars.len()
        invariant
            i <= chars@.len(),
            chars@ == s@,
            t@ == sanitized(s@).take(i as int),
            forall|k: int|
                0 <= k < t@.len() && (#[trigger] t@[k]) <= '\u{7f}' ==> ascii_alphanumeric(t@[k])
                    || t@[k] == '-' || t@[k] == '_',
        decreases chars@.len() - i,
    {
        let c = chars[i];
        let ghost before = t@;
        if c.is_alphanumeric() || c == '-' || c == '_' {
            t.push(c);
        } else {
            t.push('_');
        }
        assert(t@ =~= before.push(safe_char(c)));
        assert(sanitized(s@).take(i + 1) =~= sanitized(s@).take(i as int).push(safe_char(c)));
        i += 1;
    }
    assert(sanitized(s@).take(i as int) =~= sanitized(s@));
    t
}

/// A sanitized text stays as it is.
pub proof fn law_sanitizing_twice_is_sanitizing_once(s: Seq<char>)
    ensures
        sanitized(sanitized(s)) == sanitized(s),
        sanitized(s).len() == s.len(),
{
    assert(sanitized(sanitized(s)) =~= sanitized(s));
}

/// The first line of a text.
pub open spec fn first_line(s: Seq<char>) -> Seq<char> {
    if lines_of(s).len() > 0 {
        lines_of(s)[0]
    } else {
        s
    }
}

/// Whether a text's first line can be cut after `max` bytes: it is no longer, or a character ends
/// there.
pub open spec fn can_clip(s: Seq<char>, max: nat) -> bool {
    let line = first_line(s);
    byte_len(line) <= max || byte_len(line.take(fitting_prefix(line, max) as int)) == max
}

/// The first line of a text, cut after `max` bytes.
pub open spec fn clipped_line(s: Seq<char>, max: nat) -> Seq<char> {
    let line = first_line(s);
    if byte_len(line) <= max {
        line
    } else {
        line.take(fitting_prefix(line, max) as int) + "…"@
    }
}

fn first_line_of(s: &str) -> (line: String)
    ensures
        line@ == first_line(s@),
{
    let all = lines(s);
    assert(texts(all@).len() == all@.len());
    if all.len() > 0 {
        assert(texts(all@)[0] == all@[0]@);
        all[0].clone()
    } else {
        s.to_owned()
    }
}

/// Whether a text's first line can be cut after `max` bytes.
pub fn is_clippable(s: &str, max: usize) -> (b: bool)
    ensures
        b == can_clip(s@, max as nat),
{
    let line = first_line_of(s);
    bytes_of(line.as_str()) <= max || bytes_of(prefix_within(line.as_str(), max)) == max
}

pub fn format_clipped(s: &str, max: usize) -> (t: String)
    requires
        can_clip(s@, max as nat),
    ensures
        t@ == clipped_line(s@, max as nat),
{
    let line = first_line_of(s);
    if bytes_of(line.as_str()) <= max {
        line
    } else {
        prefix_within(line.as_str(), max).to_owned().concat("…")
    }
}

// ── events ────────────────────────────────────────────────────────────

/// Something that a subagent reported on the way.
#[derive(Debug, PartialEq, Eq)]
pub struct AgentEvent {
    pub event_type: String,
    pub brief: Option<String>,
}

pub struct AgentEventView {
    pub event_type: Seq<char>,
    pub brief: Option<Seq<char>>,
}

impl View for AgentEvent {
    type V = AgentEventView;

    open spec fn view(&self) -> AgentEventView {
        AgentEventView { event_type: self.event_type@, brief: opt_string(self.brief) }
    }
}

/// The text of the first part of a message.
pub open spec fn message_text(item: JsonView) -> Option<Seq<char>> {
    if item.items("content"@).len() > 0 {
        item.items("content"@)[0].text("text"@)
    } else {
        None
    }
}

/// An item in a few words.
pub open spec fn brief_of(item: JsonView) -> Option<Seq<char>> {
    match item.text("type"@) {
        Some(kind) => if kind == "message"@ {
            match message_text(item) {
                Some(text) => Some(clipped_line(text, 80)),
                None => None,
            }
        } else if kind == "function_call"@ {
            match item.text("name"@) {
                Some(name) => Some("[tool] "@ + name),
                None => None,
            }
        } else if kind == "reasoning"@ {
            Some("[reasoning]"@)
        } else {
            Some("["@ + kind + "]"@)
        },
        None => None,
    }
}

/// Whether an item can be put in a few words.
pub open spec fn has_brief(item: JsonView) -> bool {
    item.text("type"@) == Some("message"@) ==> (message_text(item) matches Some(text) ==> can_clip(
        text,
        80,
    ))
}

fn first_text(item: &Json) -> (text: Option<&str>)
    ensures
        opt_str(text) == message_text(item@),
{
    match item.get("content") {
        Some(Json::Array(parts)) => {
            proof {
                lemma_array_view(parts@);
            }
            if parts.is_empty() {
                return None;
            }
            assert(item@.items("content"@)[0] == parts@[0]@);
            parts[0].text("text")
        },
        _ => None,
    }
}

/// Whether an item can be put in a few words.
pub fn is_briefable(item: &Json) -> (b: bool)
    ensures
        b == has_brief(item@),
{
    match item.text("type") {
        Some(kind) => if same_text(kind, "message") {
            match first_text(item) {
                Some(text) => is_clippable(text, 80),
                None => true,
            }
        } else {
            true
        },
        None => true,
    }
}

pub fn item_brief(item: &Json) -> (brief: Option<String>)
    requires
        has_brief(item@),
    ensures
        opt_string(brief) == brief_of(item@),
{
    match item.text("type") {
        Some(kind) => if same_text(kind, "message") {
            match first_text(item) {
                Some(text) => Some(format_clipped(text, 80)),
                None => None,
            }
        } else if same_text(kind, "function_call") {
            match item.text("name") {
                Some(name) => Some("[tool] ".to_owned().concat(name)),
                None => None,
            }
        } else if same_text(kind, "reasoning") {
            Some("[reasoning]".to_owned())
        } else {
            Some("[".to_owned().concat(kind).concat("]"))
        },
        None => None,
    }
}

pub open spec fn event_kind(value: JsonView) -> Seq<char> {
    match value.text("type"@) {
        Some(kind) => kind,
        None => "unknown"@,
    }
}

/// The event that a line of a subagent's output reports.
pub open spec fn event_in(value: JsonView) -> AgentEventView {
    let kind = event_kind(value);
    AgentEventView {
        event_type: kind,
        brief: if kind == "OutputItemDone"@ {
            match value.get("item"@) {
                Some(item) => brief_of(item),
                None => None,
            }
        } else if kind == "TurnComplete"@ {
            Some("turn finished"@)
        } else if kind == "TurnStarted"@ {
            Some("turn started"@)
        } else {
            None
        },
    }
}

/// Whether the event can be put in a few words.
pub open spec fn has_event(value: JsonView) -> bool {
    event_kind(value) == "OutputItemDone"@ ==> (value.get("item"@) matches Some(item) ==> has_brief(
        item,
    ))
}

/// Whether the event can be put in a few words.
pub fn is_extractable(value: &Json) -> (b: bool)
    ensures
        b == has_event(value@),
{
    match value.text("type") {
        Some(kind) => if same_text(kind, "OutputItemDone") {
            match value.get("item") {
                Some(item) => is_briefable(item),
                None => true,
            }
        } else {
            true
        },
        None => {
            proof {
                reveal_strlit("unknown");
                reveal_strlit("OutputItemDone");
                assert("unknown"@.len() == 7);
            }
            true
        },
    }
}

pub fn extract_event(value: &Json) -> (event: AgentEvent)
    requires
        has_event(value@),
    ensures
        event@ == event_in(value@),
{
    let kind: &str = match value.text("type") {
        Some(kind) => kind,
        None => "unknown",
    };
    let brief = if same_text(kind, "OutputItemDone") {
        match value.get("item") {
            Some(item) => item_brief(item),
            None => None,
        }
    } else if same_text(kind, "TurnComplete") {
        Some("turn finished".to_owned())
    } else if same_text(kind, "TurnStarted") {
        Some("turn started".to_owned())
    } else {
        None
    };
    AgentEvent { event_type: kind.to_owned(), brief }
}

/// The events that lines of output report. A line that is no JSON reports none.
pub open spec fn events_in(rows: Seq<Seq<char>>) -> Seq<AgentEventView>
    decreases rows.len(),
{
    if rows.len() == 0 {
        Seq::empty()
    } else {
        match json_parse(rows.last()) {
            Ok(value) => events_in(rows.drop_last()).push(event_in(value)),
            Err(_) => events_in(rows.drop_last()),
        }
    }
}

/// Whether every event that a line reports can be put in a few words.
pub open spec fn all_extractable(rows: Seq<Seq<char>>) -> bool {
    forall|i: int|
        0 <= i < rows.len() ==> (json_parse(#[trigger] rows[i]) matches Ok(value) ==> has_event(
            value,
        ))
}

pub open spec fn event_views(events: Seq<AgentEvent>) -> Seq<AgentEventView> {
    events.map_values(|e: AgentEvent| e@)
}

/// The events in the output of a subagent.
pub fn parse_events(stdout: &[u8]) -> (events: Vec<AgentEvent>)
    requires
        all_extractable(lines_of(utf8_lossy(stdout@))),
    ensures
        event_views(events@) == events_in(lines_of(utf8_lossy(stdout@))),
{
    let text = decode_lossy(stdout);
    let all = lines(text.as_str());
    let ghost rows = texts(all@);
    let mut events: Vec<AgentEvent> = Vec::new();
    let mut i: usize = 0;
    assert(rows.take(0) =~= Seq::empty());
    assert(event_views(events@) =~= Seq::empty());
    while i < all.len()
        invariant
            i <= all@.len(),
            rows == texts(all@),
            all_extractable(rows),
            event_views(events@) == events_in(rows.take(i as int)),
        decreases all@.len() - i,
    {
        assert(rows.take(i + 1).drop_last() =~= rows.take(i as int));
        assert(rows.take(i + 1).last() == rows[i as int]);
        assert(rows[i as int] == all@[i as int]@);
        let ghost before = events@;
        if let Ok(value) = parse_json(all[i].as_str()) {
            let event = extract_event(&value);
            events.push(event);
            assert(event_views(events@) =~= event_views(before).push(event@));
        }
        i += 1;
    }
    assert(rows.take(i as int) =~= rows);
    events
}

/// The events in the output of a subagent, unless one of them cannot be put in a few words.
pub fn try_parse_events(stdout: &[u8]) -> (events: Option<Vec<AgentEvent>>)
    ensures
        match events {
            Some(found) => all_extractable(lines_of(utf8_lossy(stdout@))) && event_views(found@)
                == events_in(lines_of(utf8_lossy(stdout@))),
            None => !all_extractable(lines_of(utf8_lossy(stdout@))),
        },
{
    let text = decode_lossy(stdout);
    let all = lines(text.as_str());
    let ghost rows = texts(all@);
    let mut i: usize = 0;
    while i < all.len()
        invariant
            i <= all@.len(),
            rows == texts(all@),
            rows == lines_of(utf8_lossy(stdout@)),
            forall|k: int|
                0 <= k < i ==> (json_parse(#[trigger] rows[k]) matches Ok(value) ==> has_event(
                    value,
                )),
        decreases all@.len() - i,
    {
        assert(rows[i as int] == all@[i as int]@);
        if let Ok(value) = parse_json(all[i].as_str()) {
            if !is_extractable(&value) {
                return None;
            }
        }
        i += 1;
    }
    Some(parse_events(stdout))
}

// ── the report ────────────────────────────────────────────────────────

/// How many turns were finished.
pub open spec fn turns_in(events: Seq<AgentEventView>) -> nat
    decreases events.len(),
{
    if events.len() == 0 {
        0
    } else {
        turns_in(events.drop_last()) + if events.last().event_type == "TurnComplete"@ {
            1nat
        } else {
            0nat
        }
    }
}

/// The items that were finished, each in a few words.
pub open spec fn briefs_in(events: Seq<AgentEventView>) -> Seq<JsonView>
    decreases events.len(),
{
    if events.len() == 0 {
        Seq::empty()
    } else if events.last().event_type == "OutputItemDone"@ && events.last().brief is Some {
        briefs_in(events.drop_last()).push(JsonView::Text(events.last().brief->Some_0))
    } else {
        briefs_in(events.drop_last())
    }
}

/// How a run of a subagent came out.
pub struct Outcome {
    pub task_name: String,
    pub model: Option<String>,
    pub provider: String,
    pub events: Vec<AgentEvent>,
    pub exit_code: Option<i32>,
    pub success: bool,
    pub final_output: Option<String>,
}

/// The subagent's last word.
pub open spec fn final_message(output: Option<Seq<char>>) -> Seq<char> {
    match output {
        Some(text) => trimmed(text),
        None => Seq::empty(),
    }
}

pub open spec fn code_view(code: Option<i32>) -> JsonView {
    match code {
        Some(n) => JsonView::Int(n as int),
        None => JsonView::Null,
    }
}

/// The report on a run. Its final message is empty where the run left none. Where it failed without
/// a word, the end of its error output is there.
pub open spec fn report(outcome: Outcome, stderr: Seq<char>) -> JsonView {
    let message = final_message(opt_string(outcome.final_output));
    let base = empty_object().with_text("task_name"@, outcome.task_name@).with_text(
        "model"@,
        match outcome.model {
            Some(model) => model@,
            None => "inherited"@,
        },
    ).with_text("provider"@, outcome.provider@).with(
        "exit_code"@,
        code_view(outcome.exit_code),
    ).with("turns"@, JsonView::Int(turns_in(event_views(outcome.events@)) as int)).with(
        "tool_calls"@,
        JsonView::Array(briefs_in(event_views(outcome.events@))),
    ).with_text("final_message"@, message);
    if message.len() == 0 && !outcome.success && trimmed(stderr).len() > 0 {
        base.with_text("stderr_tail"@, last_part(trimmed(stderr), 500))
    } else {
        base
    }
}

fn count_turns(events: &Vec<AgentEvent>) -> (n: usize)
    ensures
        n == turns_in(event_views(events@)),
{
    let ghost all = event_views(events@);
    let mut n: usize = 0;
    let mut i: usize = 0;
    assert(all.take(0) =~= Seq::empty());
    while i < events.len()
        invariant
            i <= events@.len(),
            all == event_views(events@),
            n <= i,
            n == turns_in(all.take(i as int)),
        decreases events@.len() - i,
    {
        assert(all.take(i + 1).drop_last() =~= all.take(i as int));
        assert(all.take(i + 1).last() == events@[i as int]@);
        if same_text(events[i].event_type.as_str(), "TurnComplete") {
            n += 1;
        }
        i += 1;
    }
    assert(all.take(i as int) =~= all);
    n
}

fn collect_briefs(events: &Vec<AgentEvent>) -> (briefs: Vec<Json>)
    ensures
        array_view(briefs@) == briefs_in(event_views(events@)),
{
    let ghost all = event_views(events@);
    let mut briefs: Vec<Json> = Vec::new();
    let mut i: usize = 0;
    assert(all.take(0) =~= Seq::empty());
    while i < events.len()
        invariant
            i <= events@.len(),
            all == event_views(events@),
            array_view(briefs@) == briefs_in(all.take(i as int)),
        decreases events@.len() - i,
    {
        broadcast use lemma_array_view_push;

        assert(all.take(i + 1).drop_last() =~= all.take(i as int));
        assert(all.take(i + 1).last() == events@[i as int]@);
        if same_text(events[i].event_type.as_str(), "OutputItemDone") {
            if let Some(brief) = &events[i].brief {
                briefs.push(Json::string(brief.as_str()));
            }
        }
        i += 1;
    }
    assert(all.take(i as int) =~= all);
    briefs
}

fn code_json(code: Option<i32>) -> (json: Json)
    ensures
        json@ == code_view(code),
{
    match code {
        Some(n) => Json::integer(n as i64),
        None => Json::Null,
    }
}

/// The report on a run whose error output has been decoded.
pub fn report_json(outcome: &Outcome, stderr: &str) -> (json: Json)
    ensures
        json@ == report(*outcome, stderr@),
{
    let message: &str = match &outcome.final_output {
        Some(text) => trim(text.as_str()),
        None => {
            proof {
                reveal_strlit("");
                assert(""@ =~= Seq::<char>::empty());
            }
            ""
        },
    };
    let model: &str = match &outcome.model {
        Some(model) => model.as_str(),
        None => "inherited",
    };
    let base = Json::object().with_text("task_name", outcome.task_name.as_str()).with_text(
        "model",
        model,
    ).with_text("provider", outcome.provider.as_str()).with(
        "exit_code",
        code_json(outcome.exit_code),
    ).with("turns", Json::count(count_turns(&outcome.events))).with(
        "tool_calls",
        Json::Array(collect_briefs(&outcome.events)),
    ).with_text("final_message", message);
    if message.is_empty() && !outcome.success {
        let errors = trim(stderr);
        if !errors.is_empty() {
            return base.with_text("stderr_tail", tail(errors, 500).as_str());
        }
    }
    base
}

/// The text that the caller of the subagent gets.
pub fn finish(outcome: &Outcome, stderr: &[u8]) -> (text: String)
    ensures
        text@ == (match json_pretty(report(*outcome, utf8_lossy(stderr@))) {
            Some(pretty) => pretty,
            None => failure(outcome.task_name@, "failed to serialize result"@),
        }),
{
    let errors = decode_lossy(stderr);
    match to_json_pretty(&report_json(outcome, errors.as_str())) {
        Some(text) => text,
        None => diag(outcome.task_name.as_str(), "failed to serialize result".to_owned()),
    }
}

// ── starting a run ────────────────────────────────────────────────────

/// The arguments of the `spawn_agent` tool.
#[derive(Debug)]
pub struct SpawnArgs {
    pub task_name: String,
    pub message: String,
    pub provider: String,
    pub model: Option<String>,
    pub cwd: Option<String>,
    pub timeout_sec: Option<u64>,
}

/// What a run is started with.
#[derive(Debug, PartialEq, Eq)]
pub struct Plan {
    pub model_slug: String,
    pub context_window: i64,
    pub proxy_url: String,
    pub timeout_sec: u64,
}

pub open spec fn timeout_of(timeout_sec: Option<u64>) -> u64 {
    match timeout_sec {
        Some(n) => n,
        None => 600,
    }
}

/// Whether a plan is the one for these arguments, with the provider and the model that they mean.
pub open spec fn is_plan(plan: Plan, args: SpawnArgs, found: (ProviderConfig, ModelConfig)) -> bool {
    &&& plan.model_slug@ == wanted_model(opt_string(args.model), found.0.models@)
    &&& plan.context_window == found.1.context_window
    &&& plan.proxy_url@ == found.0.proxy_url@
    &&& plan.timeout_sec == timeout_of(args.timeout_sec)
}

/// Plans a run, or reports why there is none.
pub fn plan_run(args: &SpawnArgs, config: &SpawnerConfig) -> (plan: Result<Plan, String>)
    ensures
        match selected(*config, args.provider@, opt_string(args.model)) {
            Ok(found) => plan matches Ok(p) && is_plan(p, *args, found),
            Err(message) => plan matches Err(e) && e@ == failure(args.task_name@, message),
        },
        plan matches Ok(p) ==> {
            &&& args.timeout_sec matches Some(n) ==> p.timeout_sec == n
            &&& args.timeout_sec is None ==> p.timeout_sec == 600
            &&& args.model matches Some(model) ==> p.model_slug@ == model@
        },
{
    match select(config, args.provider.as_str(), &args.model) {
        Ok((provider, model)) => Ok(
            Plan {
                model_slug: provider.model_slug(&args.model).to_owned(),
                context_window: model.context_window,
                proxy_url: provider.proxy_url.clone(),
                timeout_sec: match args.timeout_sec {
                    Some(n) => n,
                    None => 600,
                },
            },
        ),
        Err(message) => Err(diag(args.task_name.as_str(), message)),
    }
}

/// What can go wrong with a run that was planned.
pub enum RunFailure {
    Setup(String),
    Start(String),
    Wait(String),
    Timeout(u64),
}

pub open spec fn failure_detail(problem: RunFailure) -> Seq<char> {
    match problem {
        RunFailure::Setup(error) => error@,
        RunFailure::Start(error) => "failed to start: "@ + error@,
        RunFailure::Wait(error) => "io error: "@ + error@,
        RunFailure::Timeout(seconds) => "timed out after "@ + decimal(seconds as nat) + "s"@,
    }
}

/// The text that the caller of the subagent gets when a run fails.
pub fn report_failure(task_name: &str, problem: RunFailure) -> (text: String)
    ensures
        text@ == failure(task_name@, failure_detail(problem)),
{
    let detail = match problem {
        RunFailure::Setup(error) => error,
        RunFailure::Start(error) => "failed to start: ".to_owned().concat(error.as_str()),
        RunFailure::Wait(error) => "io error: ".to_owned().concat(error.as_str()),
        RunFailure::Timeout(seconds) => "timed out after ".to_owned().concat(
            to_decimal(seconds).as_str(),
        ).concat("s"),
    };
    diag(task_name, detail)
}

/// An argument of the subagent's command line. The output path is filled in by whoever knows it.
#[derive(Debug, PartialEq, Eq)]
pub enum CodexArg {
    Word(String),
    OutputPath,
}

pub enum CodexArgView {
    Word(Seq<char>),
    OutputPath,
}

impl View for CodexArg {
    type V = CodexArgView;

    open spec fn view(&self) -> CodexArgView {
        match self {
            CodexArg::Word(s) => CodexArgView::Word(s@),
            CodexArg::OutputPath => CodexArgView::OutputPath,
        }
    }
}

pub open spec fn arg_views(args: Seq<CodexArg>) -> Seq<CodexArgView> {
    args.map_values(|a: CodexArg| a@)
}

pub open spec fn flag_and_value(flag: Seq<char>, value: Option<Seq<char>>) -> Seq<CodexArgView> {
    match value {
        Some(v) => seq![CodexArgView::Word(flag), CodexArgView::Word(v)],
        None => Seq::empty(),
    }
}

/// The subagent's command line.
pub open spec fn command_line(model: Option<Seq<char>>, cwd: Option<Seq<char>>) -> Seq<
    CodexArgView,
> {
    seq![
        CodexArgView::Word("exec"@),
        CodexArgView::Word("--skip-git-repo-check"@),
        CodexArgView::Word("--json"@),
        CodexArgView::Word("--sandbox"@),
        CodexArgView::Word("workspace-write"@),
    ] + flag_and_value("-m"@, model) + seq![CodexArgView::Word("-o"@), CodexArgView::OutputPath]
        + flag_and_value("-C"@, cwd)
}

fn push_word(args: &mut Vec<CodexArg>, word: &str)
    ensures
        arg_views(final(args)@) == arg_views(old(args)@).push(CodexArgView::Word(word@)),
{
    let ghost before = args@;
    args.push(CodexArg::Word(word.to_owned()));
    assert(arg_views(args@) =~= arg_views(before).push(CodexArgView::Word(word@)));
}

pub fn codex_args(args: &SpawnArgs) -> (line: Vec<CodexArg>)
    ensures
        arg_views(line@) == command_line(opt_string(args.model), opt_string(args.cwd)),
{
    let mut line: Vec<CodexArg> = Vec::new();
    push_word(&mut line, "exec");
    push_word(&mut line, "--skip-git-repo-check");
    push_word(&mut line, "--json");
    push_word(&mut line, "--sandbox");
    push_word(&mut line, "workspace-write");
    if let Some(model) = &args.model {
        push_word(&mut line, "-m");
        push_word(&mut line, model.as_str());
    }
    push_word(&mut line, "-o");
    let ghost before = line@;
    line.push(CodexArg::OutputPath);
    assert(arg_views(line@) =~= arg_views(before).push(CodexArgView::OutputPath));
    if let Some(dir) = &args.cwd {
        push_word(&mut line, "-C");
        push_word(&mut line, dir.as_str());
    }
    assert(arg_views(line@) =~= command_line(opt_string(args.model), opt_string(args.cwd)));
    line
}

// ── files ─────────────────────────────────────────────────────────────

/// The name of the file for a subagent's last word.
pub open spec fn output_name(task_name: Seq<char>, process: nat) -> Seq<char> {
    "codex_subagent_"@ + sanitized(task_name) + "_"@ + decimal(process) + ".txt"@
}

pub fn output_file_name(task_name: &str, process: u32) -> (name: String)
    ensures
        name@ == output_name(task_name@, process as nat),
{
    "codex_subagent_".to_owned().concat(sanitize(task_name).as_str()).concat("_").concat(
        to_decimal(process as u64).as_str(),
    ).concat(".txt")
}

/// The name of a subagent's home directory.
pub open spec fn home_name(provider_name: Seq<char>) -> Seq<char> {
    "codex-subagent-"@ + sanitized(provider_name)
}

pub fn home_dir_name(provider_name: &str) -> (name: String)
    ensures
        name@ == home_name(provider_name@),
{
    "codex-subagent-".to_owned().concat(sanitize(provider_name).as_str())
}

/// The subagent's configuration file: it points at the provider daemon.
pub open spec fn config_text(
    provider_name: Seq<char>,
    model_slug: Seq<char>,
    context_window: int,
    proxy_base_url: Seq<char>,
) -> Seq<char> {
    "model_provider = \"custom\"\nmodel = \""@ + model_slug + "\"\nmodel_context_window = "@
        + signed_decimal(context_window)
        + "\nmodel_catalog_json = \"model-catalog.json\"\n\n[model_providers.custom]\nname = \""@
        + provider_name + "\"\nbase_url = \""@ + proxy_base_url + "\"\nwire_api = \"responses\"\n"@
}

pub fn config_toml(
    provider_name: &str,
    model_slug: &str,
    context_window: i64,
    proxy_base_url: &str,
) -> (text: String)
    ensures
        text@ == config_text(
            provider_name@,
            model_slug@,
            context_window as int,
            proxy_base_url@,
        ),
{
    "model_provider = \"custom\"\nmodel = \"".to_owned().concat(model_slug).concat(
        "\"\nmodel_context_window = ",
    ).concat(to_signed_decimal(context_window).as_str()).concat(
        "\nmodel_catalog_json = \"model-catalog.json\"\n\n[model_providers.custom]\nname = \"",
    ).concat(provider_name).concat("\"\nbase_url = \"").concat(proxy_base_url).concat(
        "\"\nwire_api = \"responses\"\n",
    )
}

pub open spec fn reasoning_level(effort: Seq<char>, description: Seq<char>) -> JsonView {
    empty_object().with_text("effort"@, effort).with_text("description"@, description)
}

fn reasoning_level_json(effort: &str, description: &str) -> (json: Json)
    ensures
        json@ == reasoning_level(effort@, description@),
{
    Json::object().with_text("effort", effort).with_text("description", description)
}

pub open spec fn reasoning_levels() -> JsonView {
    JsonView::Array(
        seq![
            reasoning_level("low"@, "Fast"@),
            reasoning_level("medium"@, "Balanced"@),
            reasoning_level("high"@, "Deep reasoning"@),
        ],
    )
}

fn reasoning_levels_json() -> (json: Json)
    ensures
        json@ == reasoning_levels(),
{
    broadcast use lemma_array_view_push;

    let mut levels: Vec<Json> = Vec::new();
    levels.push(reasoning_level_json("low", "Fast"));
    levels.push(reasoning_level_json("medium", "Balanced"));
    levels.push(reasoning_level_json("high", "Deep reasoning"));
    assert(array_view(levels@) =~= reasoning_levels()->Array_0);
    Json::Array(levels)
}

/// What the catalog says of a model's name and size.
pub open spec fn catalog_head(model_slug: Seq<char>, context_window: int) -> JsonView {
    empty_object().with_text("slug"@, model_slug).with_text("display_name"@, model_slug).with_text(
        "description"@,
        model_slug + " via codex-mcp-spawner"@,
    ).with("context_window"@, JsonView::Int(context_window)).with(
        "max_context_window"@,
        JsonView::Int(context_window),
    ).with("auto_compact_token_limit"@, JsonView::Null).with_text(
        "default_reasoning_level"@,
        "medium"@,
    ).with("supported_reasoning_levels"@, reasoning_levels())
}

fn catalog_head_json(model_slug: &str, context_window: i64) -> (json: Json)
    ensures
        json@ == catalog_head(model_slug@, context_window as int),
{
    Json::object().with_text("slug", model_slug).with_text("display_name", model_slug).with_text(
        "description",
        model_slug.to_owned().concat(" via codex-mcp-spawner").as_str(),
    ).with("context_window", Json::integer(context_window)).with(
        "max_context_window",
        Json::integer(context_window),
    ).with("auto_compact_token_limit", Json::Null).with_text(
        "default_reasoning_level",
        "medium",
    ).with("supported_reasoning_levels", reasoning_levels_json())
}

/// An entry of the catalog with what it says of every model alike.
pub open spec fn catalog_entry(head: JsonView) -> JsonView {
    head.with_text("shell_type"@, "shell_command"@).with_text("visibility"@, "list"@).with(
        "supported_in_api"@,
        JsonView::Bool(true),
    ).with("priority"@, JsonView::Int(1)).with(
        "additional_speed_tiers"@,
        JsonView::Array(Seq::empty()),
    ).with("service_tiers"@, JsonView::Array(Seq::empty())).with_text(
        "base_instructions"@,
        Seq::empty(),
    ).with("supports_reasoning_summaries"@, JsonView::Bool(false)).with_text(
        "default_reasoning_summary"@,
        "none"@,
    ).with("support_verbosity"@, JsonView::Bool(false)).with(
        "default_verbosity"@,
        JsonView::Null,
    ).with_text("apply_patch_tool_type"@, "freeform"@).with_text(
        "web_search_tool_type"@,
        "text_and_image"@,
    ).with("experimental_supported_tools"@, JsonView::Array(Seq::empty())).with(
        "supports_parallel_tool_calls"@,
        JsonView::Bool(true),
    ).with("supports_image_detail_original"@, JsonView::Bool(false)).with(
        "effective_context_window_percent"@,
        JsonView::Int(95),
    ).with("input_modalities"@, JsonView::Array(seq![JsonView::Text("text"@)])).with(
        "supports_search_tool"@,
        JsonView::Bool(false),
    ).with("use_responses_lite"@, JsonView::Bool(false)).with(
        "truncation_policy"@,
        empty_object().with_text("mode"@, "bytes"@).with("limit"@, JsonView::Int(10000)),
    )
}

fn catalog_entry_json(head: Json) -> (json: Json)
    ensures
        json@ == catalog_entry(head@),
{
    proof {
        reveal_strlit("");
        assert(""@ =~= Seq::<char>::empty());
    }
    head.with_text("shell_type", "shell_command").with_text("visibility", "list").with(
        "supported_in_api",
        Json::Bool(true),
    ).with("priority", Json::integer(1)).with("additional_speed_tiers", Json::no_items()).with(
        "service_tiers",
        Json::no_items(),
    ).with_text("base_instructions", "").with(
        "supports_reasoning_summaries",
        Json::Bool(false),
    ).with_text("default_reasoning_summary", "none").with(
        "support_verbosity",
        Json::Bool(false),
    ).with("default_verbosity", Json::Null).with_text(
        "apply_patch_tool_type",
        "freeform",
    ).with_text("web_search_tool_type", "text_and_image").with(
        "experimental_supported_tools",
        Json::no_items(),
    ).with("supports_parallel_tool_calls", Json::Bool(true)).with(
        "supports_image_detail_original",
        Json::Bool(false),
    ).with("effective_context_window_percent", Json::integer(95)).with(
        "input_modalities",
        Json::single(Json::string("text")),
    ).with("supports_search_tool", Json::Bool(false)).with(
        "use_responses_lite",
        Json::Bool(false),
    ).with(
        "truncation_policy",
        Json::object().with_text("mode", "bytes").with("limit", Json::integer(10000)),
    )
}

/// The catalog of the one model that a subagent has.
pub open spec fn catalog(model_slug: Seq<char>, context_window: int) -> JsonView {
    empty_object().with(
        "models"@,
        JsonView::Array(seq![catalog_entry(catalog_head(model_slug, context_window))]),
    )
}

pub fn model_catalog(model_slug: &str, context_window: i64) -> (json: Json)
    ensures
        json@ == catalog(model_slug@, context_window as int),
{
    Json::object().with(
        "models",
        Json::single(catalog_entry_json(catalog_head_json(model_slug, context_window))),
    )
}

/// The catalog file; none where it cannot be written down.
pub fn model_catalog_text(model_slug: &str, context_window: i64) -> (text: Option<String>)
    ensures
        opt_string(text) == json_pretty(catalog(model_slug@, context_window as int)),
{
    to_json_pretty(&model_catalog(model_slug, context_window))
}

/// Where the configuration of this machine's user is: at a path, or under a directory.
#[derive(Debug, PartialEq, Eq)]
pub enum CodexHome {
    At(String),
    Under(String),
}

/// Whether this is the directory that the environment names where it is there, else a place under
/// the user's own.
pub open spec fn is_home(
    choice: CodexHome,
    named: Option<Seq<char>>,
    is_there: bool,
    home: Option<Seq<char>>,
) -> bool {
    match choice {
        CodexHome::At(path) => is_there && named == Some(path@),
        CodexHome::Under(path) => (!is_there || named is None) && path@ == (match home {
            Some(h) => h,
            None => "/tmp"@,
        }),
    }
}

pub fn default_codex_home(named: Option<String>, is_there: bool, home: Option<String>) -> (choice:
    CodexHome)
    ensures
        is_home(choice, opt_string(named), is_there, opt_string(home)),
{
    match named {
        Some(path) => if is_there {
            return CodexHome::At(path);
        },
        None => {},
    }
    match home {
        Some(home) => CodexHome::Under(home),
        None => CodexHome::Under("/tmp".to_owned()),
    }
}

} // verus!

//! What holds of every request that the proxy serves: how it is read, answered and recorded.
use vstd::prelude::*;

use crate::codec::{json_parse, json_text};
use crate::json::{empty_object, opt_string, or_empty, JsonView};
use crate::proxy::ProxyConfig;
use crate::proxy::converter::{end_step, feed_step};
use crate::proxy::http::{declared_length, error_body, head_start, head_step, header_in, is_secret};
use crate::proxy::http::{json_reply, not_served, responses_path, served, shown_headers, HeadView};
use crate::proxy::http::RequestHead;
use crate::proxy::reply::answer;
use crate::proxy::reply_laws::{cached_under, count_under};
use crate::proxy::request::chat_request;
use crate::proxy::session::{bad_request, breaks_off, concludes, ends, hands_on, is_intake};
use crate::proxy::session::{model_of, opened, stream_head, takes_in, turns_of_user, Conclusion};
use crate::proxy::session::{Intake, SessionView, Turn};
use crate::proxy::sse::{error_event, rendered, Event, SseBlock};
use crate::proxy::stage::{TextStage, ToolStage};
use crate::proxy::stream::{has_output, StreamView};
use crate::proxy::tools::{custom_name, law_clipping_keeps_the_limit};
use crate::proxy::upstream::{chat_url, credentials, names_version, refusal, unslashed, version_at};
use crate::proxy::usage::{add_column, header_of, header_session, header_texts, is_record};
use crate::proxy::usage::{later_columns, metadata_session, missing_columns, no_usage, request_name};
use crate::proxy::usage::{session_of, turn_session_of, usage_of, TokenUsage, TokenUsageView};
use crate::proxy::usage::{UsageContext, UsageRecord};
use crate::text::{all_digits, byte_len, count_of, decimal, digit_char, digits_of, digits_value};
use crate::text::{find_from, is_blank, lemma_find_from, lowered, texts, trimmed, utf8_lossy};
use crate::text::words_of;

verus! {

// ── counts ────────────────────────────────────────────────────────────

/// The counts that are kept are those that the upstream told, under the names it has for them, and
/// what it told is kept as it is. Nothing told is nothing counted.
pub proof fn law_counts_are_taken_as_told(usage: JsonView)
    ensures
        ({
            let tokens = usage_of(Some(usage));
            &&& tokens.input_tokens == count_under(usage, "prompt_tokens"@)
            &&& tokens.output_tokens == count_under(usage, "completion_tokens"@)
            &&& tokens.total_tokens == count_under(usage, "total_tokens"@)
            &&& tokens.cached_input_tokens == cached_under(usage)
            &&& tokens.reasoning_output_tokens == count_under(
                usage.member("completion_tokens_details"@),
                "reasoning_tokens"@,
            )
            &&& usage.member("prompt_cache_miss_tokens"@).as_i64() is Some
                ==> tokens.cache_miss_input_tokens == count_under(
                usage,
                "prompt_cache_miss_tokens"@,
            )
            &&& tokens.usage_json == json_text(usage)
        }),
        usage_of(None) == no_usage(),
        no_usage().input_tokens == 0 && no_usage().output_tokens == 0 && no_usage().total_tokens
            == 0 && no_usage().cached_input_tokens == 0 && no_usage().cache_miss_input_tokens == 0
            && no_usage().reasoning_output_tokens == 0 && no_usage().usage_json.len() == 0,
{
}

// ── sessions ──────────────────────────────────────────────────────────

/// The first of the texts that is there and not blank.
pub open spec fn first_told(values: Seq<Option<JsonView>>) -> Option<Seq<char>>
    decreases values.len(),
{
    if values.len() == 0 {
        None
    } else if values[0] matches Some(JsonView::Text(s)) && !is_blank(s) {
        Some(values[0]->Some_0->Text_0)
    } else {
        first_told(values.drop_first())
    }
}

/// A request's metadata names its session under the first of five keys, and turn metadata under the
/// first of three.
pub proof fn law_sessions_are_found_in_the_metadata(req: JsonView, turn: JsonView)
    ensures
        ({
            let m = req.member("metadata"@);
            metadata_session(req) == first_told(
                seq![
                    m.get("session_id"@),
                    m.get("codex_session_id"@),
                    m.get("thread_id"@),
                    m.get("conversation_id"@),
                    m.get("trace_id"@),
                ],
            )
        }),
        turn_session_of(turn) == first_told(
            seq![turn.get("session_id"@), turn.get("thread_id"@), turn.get("turn_id"@)],
        ),
{
    let m = req.member("metadata"@);
    let a = seq![
        m.get("session_id"@),
        m.get("codex_session_id"@),
        m.get("thread_id"@),
        m.get("conversation_id"@),
        m.get("trace_id"@),
    ];
    let b = a.drop_first();
    let c = b.drop_first();
    let d = c.drop_first();
    let e = d.drop_first();
    assert(b[0] == a[1] && c[0] == a[2] && d[0] == a[3] && e[0] == a[4]);
    assert(e.drop_first().len() == 0);
    let x = seq![turn.get("session_id"@), turn.get("thread_id"@), turn.get("turn_id"@)];
    let y = x.drop_first();
    let z = y.drop_first();
    assert(y[0] == x[1] && z[0] == x[2]);
    assert(z.drop_first().len() == 0);
    reveal_with_fuel(first_told, 6);
}

/// A header as a text that may name a session.
pub open spec fn told_in_header(
    headers: Seq<(Seq<char>, Seq<char>)>,
    name: Seq<char>,
) -> Option<JsonView> {
    match header_of(headers, name) {
        Some(value) => Some(JsonView::Text(value)),
        None => None,
    }
}

/// A request's headers name its session under the first of three names, or else in the turn
/// metadata that another header holds.
pub proof fn law_sessions_are_found_in_the_headers(headers: Seq<(Seq<char>, Seq<char>)>)
    ensures
        ({
            let told = first_told(
                seq![
                    told_in_header(headers, "session-id"@),
                    told_in_header(headers, "thread-id"@),
                    told_in_header(headers, "x-client-request-id"@),
                ],
            );
            &&& told is Some ==> header_session(headers) == told
            &&& told is None ==> (match header_of(headers, "x-codex-turn-metadata"@) {
                Some(metadata) => match json_parse(metadata) {
                    Ok(turn) => header_session(headers) == first_told(
                        seq![turn.get("session_id"@), turn.get("thread_id"@), turn.get("turn_id"@)],
                    ),
                    Err(_) => header_session(headers) is None,
                },
                None => header_session(headers) is None,
            })
        }),
{
    let a = seq![
        told_in_header(headers, "session-id"@),
        told_in_header(headers, "thread-id"@),
        told_in_header(headers, "x-client-request-id"@),
    ];
    let b = a.drop_first();
    let c = b.drop_first();
    assert(b[0] == a[1] && c[0] == a[2]);
    assert(c.drop_first().len() == 0);
    reveal_with_fuel(first_told, 4);
    if let Some(metadata) = header_of(headers, "x-codex-turn-metadata"@) {
        if let Ok(turn) = json_parse(metadata) {
            law_sessions_are_found_in_the_metadata(JsonView::Null, turn);
        }
    }
}

/// The session of a request is the one its metadata names; where that names none, the one its
/// headers name.
pub proof fn law_metadata_counts_before_headers(
    req: JsonView,
    headers: Seq<(Seq<char>, Seq<char>)>,
)
    ensures
        metadata_session(req) matches Some(s) ==> s != "unknown"@ ==> session_of(req, headers) == s,
        metadata_session(req) is None ==> session_of(req, headers) == (match header_session(
            headers,
        ) {
            Some(s) => s,
            None => "unknown"@,
        }),
{
}

/// A header is found by its name in whatever case, and the first of that name counts.
pub proof fn law_headers_are_found_by_name(
    headers: Seq<(Seq<char>, Seq<char>)>,
    name: Seq<char>,
    i: int,
)
    requires
        0 <= i <= headers.len(),
        forall|k: int| 0 <= k < i ==> lowered((#[trigger] headers[k]).0) != lowered(name),
        i < headers.len() ==> lowered(headers[i].0) == lowered(name),
    ensures
        header_of(headers, name) == if i < headers.len() {
            Some(headers[i].1)
        } else {
            None
        },
    decreases i,
{
    if i > 0 {
        assert(lowered(headers[0].0) != lowered(name));
        let rest = headers.drop_first();
        assert forall|k: int| 0 <= k < i - 1 implies lowered((#[trigger] rest[k]).0) != lowered(
            name,
        ) by {
            assert(rest[k] == headers[k + 1]);
        }
        law_headers_are_found_by_name(rest, name, i - 1);
    }
}

/// Lower case changes ASCII capitals to their small letters, and nothing else.
pub proof fn law_lower_case(s: Seq<char>, i: int)
    requires
        0 <= i < s.len(),
    ensures
        lowered(s).len() == s.len(),
        'A' <= s[i] <= 'Z' ==> lowered(s)[i] as int == s[i] as int + 32,
        !('A' <= s[i] <= 'Z') ==> lowered(s)[i] == s[i],
{
}

// ── records ───────────────────────────────────────────────────────────

/// A row of the record says whose request it was, how it ended and what it cost.
pub proof fn law_records_say_all(
    record: UsageRecord,
    ctx: UsageContext,
    status: Seq<char>,
    tokens: TokenUsageView,
    error: Option<Seq<char>>,
)
    requires
        is_record(record, ctx, status, tokens, error),
    ensures
        record.request_id@ == ctx.request_id@,
        record.session_id@ == ctx.session_id@,
        record.provider@ == ctx.provider@,
        record.model@ == ctx.model@,
        record.stream == ctx.stream,
        record.request_json@ == ctx.request_json@,
        record.headers_json@ == ctx.headers_json@,
        record.status@ == status,
        opt_string(record.error) == error,
        record.input_tokens == tokens.input_tokens,
        record.output_tokens == tokens.output_tokens,
        record.total_tokens == tokens.total_tokens,
        record.cached_input_tokens == tokens.cached_input_tokens,
        record.cache_miss_input_tokens == tokens.cache_miss_input_tokens,
        record.reasoning_output_tokens == tokens.reasoning_output_tokens,
        record.usage_json@ == tokens.usage_json,
{
}

/// The id of a request begins with a mark.
pub proof fn law_request_ids_are_marked(process: nat, number: nat)
    ensures
        "req_"@.is_prefix_of(request_name(process, number)),
{
    assert("req_"@ =~= request_name(process, number).take("req_"@.len() as int));
}

/// Whether one of the statements adds this column.
pub open spec fn adds_column(statements: Seq<(Seq<char>, Seq<char>)>, name: Seq<char>) -> bool {
    exists|k: int|
        0 <= k < statements.len() && (#[trigger] statements[k]).0 == name && (
        "ALTER TABLE proxy_requests ADD COLUMN "@ + name + " "@).is_prefix_of(statements[k].1)
}

proof fn lemma_missing(
    columns: Seq<Seq<char>>,
    wanted: Seq<(Seq<char>, Seq<char>)>,
    i: int,
)
    requires
        0 <= i < wanted.len(),
    ensures
        columns.contains(wanted[i].0) || adds_column(missing_columns(columns, wanted), wanted[i].0),
    decreases wanted.len(),
{
    let all = missing_columns(columns, wanted);
    let before = missing_columns(columns, wanted.drop_last());
    let name = wanted[i].0;
    if !columns.contains(name) {
        let head = "ALTER TABLE proxy_requests ADD COLUMN "@ + name + " "@;
        if i == wanted.len() - 1 {
            let k = all.len() - 1;
            assert(all[k] == (name, add_column(name, wanted[i].1)));
            assert(head =~= all[k].1.take(head.len() as int));
            assert(all[k].0 == name);
        } else {
            lemma_missing(columns, wanted.drop_last(), i);
            let k = choose|k: int|
                0 <= k < before.len() && (#[trigger] before[k]).0 == name && head.is_prefix_of(
                    before[k].1,
                );
            assert(all[k] == before[k]);
        }
    }
}

/// A table that is migrated has all columns that a record needs beyond those it began with.
pub proof fn law_records_find_their_columns(columns: Seq<Seq<char>>)
    ensures
        ({
            let added = missing_columns(columns, later_columns());
            &&& columns.contains("request_json"@) || adds_column(added, "request_json"@)
            &&& columns.contains("headers_json"@) || adds_column(added, "headers_json"@)
            &&& columns.contains("cached_input_tokens"@) || adds_column(
                added,
                "cached_input_tokens"@,
            )
            &&& columns.contains("cache_miss_input_tokens"@) || adds_column(
                added,
                "cache_miss_input_tokens"@,
            )
            &&& columns.contains("reasoning_output_tokens"@) || adds_column(
                added,
                "reasoning_output_tokens"@,
            )
            &&& columns.contains("usage_json"@) || adds_column(added, "usage_json"@)
        }),
{
    let wanted = later_columns();
    lemma_missing(columns, wanted, 0);
    lemma_missing(columns, wanted, 1);
    lemma_missing(columns, wanted, 2);
    lemma_missing(columns, wanted, 3);
    lemma_missing(columns, wanted, 4);
    lemma_missing(columns, wanted, 5);
}

// ── requests ──────────────────────────────────────────────────────────

/// A request that has been taken in is recorded as it came, for the provider and the model of the
/// daemon, and goes upstream as the chat request it stands for.
pub proof fn law_requests_are_taken_in_whole(
    intake: Intake,
    request_id: Seq<char>,
    req: JsonView,
    headers: Seq<(Seq<char>, Seq<char>)>,
    body: Seq<u8>,
    cfg: ProxyConfig,
)
    requires
        is_intake(intake, request_id, req, headers, body, cfg),
    ensures
        intake.ctx.request_id@ == request_id,
        intake.ctx.session_id@ == session_of(req, headers),
        intake.ctx.provider@ == cfg.provider_name@,
        intake.ctx.model@ == cfg.model_slug@,
        intake.ctx.stream <==> req.get("stream"@) == Some(JsonView::Bool(true)),
        intake.ctx.request_json@ == utf8_lossy(body),
        intake.ctx.headers_json@ == json_text(shown_headers(headers)),
        intake.chat@ == chat_request(req, cfg.model_slug@),
        intake.input_items == req.items("input"@).len(),
        intake.user_turns == req.items("input"@).filter(
            |item: JsonView| item.text("role"@) == Some("user"@),
        ).len(),
{
    lemma_turns(req.items("input"@));
}

proof fn lemma_turns(items: Seq<JsonView>)
    ensures
        turns_of_user(items) == items.filter(
            |item: JsonView| item.text("role"@) == Some("user"@),
        ).len(),
    decreases items.len(),
{
    reveal(Seq::filter);
    if items.len() > 0 {
        lemma_turns(items.drop_last());
    }
}

/// A turn hands on the events it has, and records a stream that is over as completed, with its
/// counts. A turn that breaks off hands on the failure alone, and records it.
pub proof fn law_turns_hand_on_and_record(
    turn: Turn,
    ctx: UsageContext,
    events: Seq<Event>,
    over: bool,
    stream: StreamView,
    error: Seq<char>,
)
    ensures
        hands_on(turn, ctx, events, over, stream) ==> {
            &&& texts(turn.output@) == rendered(events)
            &&& over <==> turn.record is Some
            &&& turn.record matches Some(row) ==> {
                &&& row.status@ == "completed"@
                &&& row.error is None
                &&& row.request_id@ == ctx.request_id@
                &&& stream.usage matches Some(tokens) ==> row.input_tokens == tokens.input_tokens
                    && row.output_tokens == tokens.output_tokens && row.total_tokens
                    == tokens.total_tokens && row.usage_json@ == tokens.usage_json
                &&& stream.usage is None ==> row.input_tokens == 0 && row.output_tokens == 0
                    && row.total_tokens == 0
            }
        },
        breaks_off(turn, ctx, error) ==> {
            &&& turn.output@.len() == 1
            &&& turn.output@[0]@ == error_event(error)
            &&& turn.record matches Some(row) && row.status@ == "error"@ && opt_string(row.error)
                == Some(error) && row.request_id@ == ctx.request_id@ && row.total_tokens == 0
        },
{
    if breaks_off(turn, ctx, error) {
        assert(texts(turn.output@).len() == 1);
        assert(texts(turn.output@)[0] == turn.output@[0]@);
    }
}

// ── HTTP ──────────────────────────────────────────────────────────────

/// The first line of a request holds its method and its path. A line of fewer words is none.
pub proof fn law_requests_begin_with_method_and_path(line: Seq<char>)
    ensures
        words_of(trimmed(line)).len() < 2 ==> head_start(line) is None,
        words_of(trimmed(line)).len() >= 2 ==> (head_start(line) matches Some(head) && head.method
            == words_of(trimmed(line))[0] && head.path == words_of(trimmed(line))[1]
            && head.headers.len() == 0 && head.content_length == 0),
{
}

/// A header line adds a header: what stands before the first colon in lower case, and what stands
/// after it, both without white space around them. Any other line adds nothing. The length of the
/// body is the one declared last.
pub proof fn law_lines_add_headers(
    head: HeadView,
    line: Seq<char>,
    name: Seq<char>,
    value: Seq<char>,
    n: nat,
)
    requires
        forall|i: int| 0 <= i < name.len() ==> name[i] != ':',
        trimmed(line) == name + seq![':'] + value,
        n <= usize::MAX,
    ensures
        ({
            let after = head_step(head, line);
            let key = lowered(trimmed(name));
            &&& after.headers == head.headers.push((key, trimmed(value)))
            &&& after.method == head.method
            &&& after.path == head.path
            &&& key == "content-length"@ && trimmed(value) == decimal(n) ==> after.content_length == n
            &&& key != "content-length"@ ==> after.content_length == head.content_length
        }),
{
    lemma_header_in(line, name, value);
    law_numbers_are_read_back(n);
}

proof fn lemma_header_in(line: Seq<char>, name: Seq<char>, value: Seq<char>)
    requires
        forall|i: int| 0 <= i < name.len() ==> name[i] != ':',
        trimmed(line) == name + seq![':'] + value,
    ensures
        header_in(line) == Some((lowered(trimmed(name)), trimmed(value))),
{
    let raw = trimmed(line);
    let colon = seq![':'];
    let k = name.len() as int;
    lemma_first_colon(raw, name, value);
    assert(raw.take(k) =~= name);
    assert(raw.skip(k + 1) =~= value);
}

proof fn lemma_first_colon(raw: Seq<char>, name: Seq<char>, value: Seq<char>)
    requires
        forall|i: int| 0 <= i < name.len() ==> name[i] != ':',
        raw == name + seq![':'] + value,
    ensures
        find_from(raw, seq![':'], 0) == Some(name.len() as int),
{
    let k = name.len() as int;
    assert forall|i: int| 0 <= i < k implies raw[i] != ':' by {
        assert(raw[i] == name[i]);
    }
    assert(raw[k] == ':');
    lemma_colon_from(raw, k, 0);
}

proof fn lemma_colon_from(raw: Seq<char>, k: int, from: int)
    requires
        0 <= from <= k < raw.len(),
        raw[k] == ':',
        forall|i: int| from <= i < k ==> raw[i] != ':',
    ensures
        find_from(raw, seq![':'], from) == Some(k),
    decreases k - from,
{
    let here = raw.subrange(from, from + 1);
    assert(here.len() == 1 && here[0] == raw[from]);
    if from < k {
        assert(raw[from] != ':');
        assert(here != seq![':']) by {
            assert(seq![':'][0] == ':');
        }
        lemma_colon_from(raw, k, from + 1);
    } else {
        assert(here =~= seq![':']);
    }
}

/// A line without a colon adds no header.
pub proof fn law_other_lines_add_nothing(head: HeadView, line: Seq<char>)
    requires
        forall|i: int| 0 <= i < trimmed(line).len() ==> trimmed(line)[i] != ':',
    ensures
        head_step(head, line) == head,
{
    let raw = trimmed(line);
    lemma_find_from(raw, seq![':'], 0);
    if let Some(i) = find_from(raw, seq![':'], 0) {
        assert(raw.subrange(i, i + 1)[0] == raw[i]);
    }
}

proof fn lemma_decimal(n: nat)
    ensures
        digits_of(n, 10).len() > 0,
        all_digits(digits_of(n, 10)),
        digits_value(digits_of(n, 10)) == n,
    decreases n,
{
    let s = digits_of(n, 10);
    if n < 10 {
        assert(s.drop_last() =~= Seq::empty());
        assert(digits_value(s.drop_last()) == 0);
        assert(s.last() == digit_char(n));
        assert(digit_char(n) as nat == 48 + n);
    } else {
        lemma_decimal(n / 10);
        assert(s.drop_last() =~= digits_of(n / 10, 10));
        assert(s.last() == digit_char(n % 10));
        assert(digit_char(n % 10) as nat == 48 + n % 10);
        assert forall|i: int| 0 <= i < s.len() implies '0' <= #[trigger] s[i] <= '9' by {
            if i < s.len() - 1 {
                assert(s[i] == digits_of(n / 10, 10)[i]);
            }
        }
        assert(n == (n / 10) * 10 + n % 10);
    }
}

/// A number that is written down is read back as itself.
pub proof fn law_numbers_are_read_back(n: nat)
    ensures
        n <= usize::MAX ==> count_of(decimal(n)) == Some(n as usize),
        n > usize::MAX ==> count_of(decimal(n)) is None,
{
    lemma_decimal(n);
    let s = decimal(n);
    assert('0' <= s[0] <= '9');
}

/// A reply has its status, says that it is JSON and how long it is, and ends with its body after a
/// blank line.
pub proof fn law_replies_are_whole(code: nat, body: Seq<char>)
    ensures
        ("HTTP/1.1 "@ + decimal(code) + " "@).is_prefix_of(json_reply(code, body)),
        ("\r\nContent-Type: application/json\r\nContent-Length: "@ + decimal(byte_len(body))
            + "\r\n\r\n"@ + body).is_suffix_of(json_reply(code, body)),
{
    reveal_strlit("HTTP/1.1 ");
    reveal_strlit(" ");
    reveal_strlit(" OK\r\nContent-Type: application/json\r\nContent-Length: ");
    reveal_strlit("\r\nContent-Type: application/json\r\nContent-Length: ");
    let reply = json_reply(code, body);
    let head = "HTTP/1.1 "@ + decimal(code) + " "@;
    let middle = " OK\r\nContent-Type: application/json\r\nContent-Length: "@;
    let end = "\r\nContent-Type: application/json\r\nContent-Length: "@;
    let tail = end + decimal(byte_len(body)) + "\r\n\r\n"@ + body;
    assert(middle.skip(3) =~= end);
    assert(middle.take(1) =~= " "@);
    assert(head =~= reply.take(head.len() as int));
    assert(tail =~= reply.skip(reply.len() - tail.len()));
}

/// The proxy serves two paths.
pub proof fn law_two_paths_are_served(path: Seq<char>)
    ensures
        responses_path(path) <==> path == "/v1/responses"@ || path == "/responses"@,
{
}

/// A failure is told in a JSON object of its own.
pub proof fn law_failures_are_told(message: Seq<char>)
    ensures
        exists|body: JsonView|
            error_body(message) == #[trigger] json_text(body) && body.text("error"@) == Some(message),
{
    let body = empty_object().with_text("error"@, message);
    assert(error_body(message) == json_text(body));
}

/// Three headers hold secrets.
pub proof fn law_three_headers_are_secret(name: Seq<char>)
    ensures
        is_secret(name) <==> name == "authorization"@ || name == "api-key"@ || name == "x-api-key"@,
{
}

/// The record keeps every header that is no secret with the value that came last under its name,
/// and no header that did not come.
pub proof fn law_headers_are_kept(headers: Seq<(Seq<char>, Seq<char>)>, i: int, key: Seq<char>)
    requires
        0 <= i < headers.len(),
        !is_secret(headers[i].0),
        forall|k: int| i < k < headers.len() ==> (#[trigger] headers[k]).0 != headers[i].0,
    ensures
        shown_headers(headers) is Object,
        shown_headers(headers).text(headers[i].0) == Some(headers[i].1),
        (forall|k: int| 0 <= k < headers.len() ==> (#[trigger] headers[k]).0 != key)
            ==> shown_headers(headers).get(key) is None,
    decreases headers.len(),
{
    lemma_shown(headers, key);
    lemma_shown(headers.drop_last(), key);
    if i < headers.len() - 1 {
        assert(headers[headers.len() - 1].0 != headers[i].0);
        let rest = headers.drop_last();
        assert forall|k: int| i < k < rest.len() implies (#[trigger] rest[k]).0 != rest[i].0 by {
            assert(rest[k] == headers[k]);
        }
        law_headers_are_kept(rest, i, key);
    }
}

proof fn lemma_shown(headers: Seq<(Seq<char>, Seq<char>)>, key: Seq<char>)
    ensures
        shown_headers(headers) is Object,
        (forall|k: int| 0 <= k < headers.len() ==> (#[trigger] headers[k]).0 != key)
            ==> shown_headers(headers).get(key) is None,
    decreases headers.len(),
{
    if headers.len() > 0 {
        lemma_shown(headers.drop_last(), key);
        if forall|k: int| 0 <= k < headers.len() ==> (#[trigger] headers[k]).0 != key {
            assert(headers[headers.len() - 1].0 != key);
            let rest = headers.drop_last();
            assert forall|k: int| 0 <= k < rest.len() implies (#[trigger] rest[k]).0 != key by {
                assert(rest[k] == headers[k]);
            }
        }
    }
}

// ── the upstream ──────────────────────────────────────────────────────

proof fn lemma_unslashed(base: Seq<char>)
    ensures
        unslashed(base).is_prefix_of(base),
        unslashed(base).len() > 0 ==> unslashed(base).last() != '/',
        forall|i: int| unslashed(base).len() <= i < base.len() ==> base[i] == '/',
    decreases base.len(),
{
    if base.len() > 0 && base.last() == '/' {
        lemma_unslashed(base.drop_last());
        let t = unslashed(base);
        assert(t =~= base.take(t.len() as int));
        assert forall|i: int| t.len() <= i < base.len() implies base[i] == '/' by {
            if i < base.len() - 1 {
                assert(base[i] == base.drop_last()[i]);
            }
        }
    } else {
        assert(base =~= base.take(base.len() as int));
    }
}

/// Chat completions are had below the base URL, without the slashes at its end: right there where
/// the URL names a version in one of its segments, else below the first version.
pub proof fn law_completions_are_had_below_the_base(base: Seq<char>)
    requires
        base.len() == 0 || base.last() != '/',
    ensures
        (exists|i: int, k: int|
            0 <= i && i + 2 < k <= base.len() && base[i] == '/' && base[i + 1] == 'v' && (k
                == base.len() || base[k] == '/') && all_digits(#[trigger] base.subrange(i + 2, k)))
            ==> chat_url(base) == base + "/chat/completions"@,
        (forall|i: int| 0 <= i < base.len() - 1 && base[i] == '/' ==> #[trigger] base[i + 1] != 'v')
            ==> chat_url(base) == base + "/v1/chat/completions"@,
{
    lemma_unslashed(base);
    assert(unslashed(base) == base);
    if exists|i: int, k: int|
        0 <= i && i + 2 < k <= base.len() && base[i] == '/' && base[i + 1] == 'v' && (k == base.len()
            || base[k] == '/') && all_digits(#[trigger] base.subrange(i + 2, k)) {
        let (i, k) = choose|i: int, k: int|
            0 <= i && i + 2 < k <= base.len() && base[i] == '/' && base[i + 1] == 'v' && (k
                == base.len() || base[k] == '/') && all_digits(#[trigger] base.subrange(i + 2, k));
        let digits = base.subrange(i + 2, k);
        assert forall|j: int| i + 2 <= j < k implies '0' <= #[trigger] base[j] <= '9' by {
            assert(digits[j - i - 2] == base[j]);
        }
        assert(version_at(base, i, k));
    }
    if names_version(base) {
        let (i, k) = choose|i: int, k: int| version_at(base, i, k);
        assert(base[i + 1] == 'v');
    }
}

/// Slashes at the end of the base URL are as good as none.
pub proof fn law_the_base_loses_its_slashes(base: Seq<char>)
    ensures
        chat_url(base) == chat_url(unslashed(base)),
        unslashed(base).is_prefix_of(base),
        unslashed(base).len() > 0 ==> unslashed(base).last() != '/',
        forall|i: int| unslashed(base).len() <= i < base.len() ==> base[i] == '/',
{
    lemma_unslashed(base);
}

/// The model that a chat request names is the text under `model`.
pub proof fn law_requests_name_their_model(chat: JsonView)
    ensures
        chat.text("model"@) matches Some(model) ==> model_of(chat) == model,
        chat.text("model"@) is None ==> model_of(chat).len() == 0,
{
}

/// A row of headers stands for its names and values, as they are.
pub proof fn law_headers_are_as_they_are(headers: Seq<(String, String)>, i: int)
    requires
        0 <= i < headers.len(),
    ensures
        header_texts(headers).len() == headers.len(),
        header_texts(headers)[i] == (headers[i].0@, headers[i].1@),
{
}

/// The length of a body is the one that the last header of that name declares, and zero where none
/// does.
pub proof fn law_the_last_length_counts(
    headers: Seq<(Seq<char>, Seq<char>)>,
    name: Seq<char>,
    value: Seq<char>,
    n: nat,
)
    requires
        n <= usize::MAX,
    ensures
        declared_length(Seq::empty()) == 0,
        declared_length(headers.push(("content-length"@, decimal(n)))) == n,
        name != "content-length"@ ==> declared_length(headers.push((name, value)))
            == declared_length(headers),
{
    law_numbers_are_read_back(n);
    assert(headers.push(("content-length"@, decimal(n))).drop_last() =~= headers);
    assert(headers.push((name, value)).drop_last() =~= headers);
}

/// Input that missed the cache is counted where it is not told, and never runs over.
pub proof fn law_missed_input_is_counted(usage: JsonView)
    requires
        usage.member("prompt_cache_miss_tokens"@).as_i64() is None,
    ensures
        ({
            let missed = count_under(usage, "prompt_tokens"@) - cached_under(usage);
            let counted = usage_of(Some(usage)).cache_miss_input_tokens;
            &&& i64::MIN <= missed <= i64::MAX ==> counted == missed
            &&& missed > i64::MAX ==> counted == i64::MAX
            &&& missed < i64::MIN ==> counted == i64::MIN
        }),
{
}

/// A reply that is a stream says so, and that it succeeds.
pub proof fn law_streams_say_that_they_are()
    ensures
        "HTTP/1.1 200 OK\r\n"@.is_prefix_of(stream_head()),
        "Content-Type: text/event-stream\r\n\r\n"@.is_suffix_of(stream_head()),
{
    reveal_strlit("HTTP/1.1 200 OK\r\nContent-Type: text/event-stream\r\n\r\n");
    reveal_strlit("HTTP/1.1 200 OK\r\n");
    reveal_strlit("Content-Type: text/event-stream\r\n\r\n");
    let head = "HTTP/1.1 200 OK\r\n"@;
    let tail = "Content-Type: text/event-stream\r\n\r\n"@;
    let all = stream_head();
    assert(head =~= all.take(head.len() as int));
    assert(tail =~= all.skip(all.len() - tail.len()));
}

// ── what values stand for ─────────────────────────────────────────────

/// A head, a row of counts, an event and an output item in the making stand for all that they hold.
pub proof fn law_nothing_is_left_out(
    head: RequestHead,
    tokens: TokenUsage,
    block: SseBlock,
    text: TextStage,
    tool: ToolStage,
)
    ensures
        head@.method == head.method@ && head@.path == head.path@ && head@.content_length
            == head.content_length && head@.headers == header_texts(head.headers@),
        tokens@.input_tokens == tokens.input_tokens && tokens@.output_tokens
            == tokens.output_tokens && tokens@.total_tokens == tokens.total_tokens
            && tokens@.cached_input_tokens == tokens.cached_input_tokens
            && tokens@.cache_miss_input_tokens == tokens.cache_miss_input_tokens
            && tokens@.reasoning_output_tokens == tokens.reasoning_output_tokens
            && tokens@.usage_json == tokens.usage_json@,
        block@.event == opt_string(block.event) && block@.data == block.data@,
        text@.added == text.added && text@.item_id == text.item_id@ && text@.text == text.text@
            && text@.output_index == text.output_index,
        tool@.added == tool.added && tool@.item_id == tool.item_id@ && tool@.call_id == tool.call_id@
            && tool@.name == tool.name@ && tool@.arguments == tool.arguments@ && tool@.output_index
            == tool.output_index,
{
}

// ── what goes to the upstream and what comes of it ────────────────────

/// The key goes with a request as it is, behind the word for its kind.
pub proof fn law_credentials_hold_the_key(key: Seq<char>)
    ensures
        "Bearer "@.is_prefix_of(credentials(key)),
        credentials(key).skip("Bearer "@.len() as int) == key,
{
    assert("Bearer "@ =~= credentials(key).take("Bearer "@.len() as int));
    assert(credentials(key).skip("Bearer "@.len() as int) =~= key);
}

/// A refusal is told with the status, and with what the upstream said: all of it where that is not
/// long, else as much as fits into 800 bytes.
pub proof fn law_refusals_are_told(status: Seq<char>, text: Seq<char>)
    ensures
        ("upstream HTTP "@ + status + ": "@).is_prefix_of(refusal(status, text)),
        byte_len(text) <= 800 ==> refusal(status, text) == "upstream HTTP "@ + status + ": "@ + text,
        byte_len(text) > 800 ==> exists|k: int|
            0 <= k < text.len() && byte_len(text.take(k)) <= 800 && byte_len(
                #[trigger] text.take(k + 1),
            ) > 800 && refusal(status, text) == "upstream HTTP "@ + status + ": "@ + (text.take(k)
                + "..."@),
{
    law_clipping_keeps_the_limit(text, 800);
    let head = "upstream HTTP "@ + status + ": "@;
    assert(head =~= refusal(status, text).take(head.len() as int));
}

/// Only what is posted to one of the two paths is served; all else is not found.
pub proof fn law_only_posts_are_served(method: Seq<char>, path: Seq<char>)
    ensures
        served(method, path) ==> method == "POST"@ && (path == "/v1/responses"@ || path
            == "/responses"@),
        method == "POST"@ && (path == "/v1/responses"@ || path == "/responses"@) ==> served(
            method,
            path,
        ),
        ("HTTP/1.1 "@ + decimal(404) + " "@).is_prefix_of(not_served()),
        "{\"error\":\"not_found\"}"@.is_suffix_of(not_served()),
{
    law_replies_are_whole(404, "{\"error\":\"not_found\"}"@);
    lemma_body_comes_last(404, "{\"error\":\"not_found\"}"@);
}

proof fn lemma_body_comes_last(code: nat, body: Seq<char>)
    ensures
        body.is_suffix_of(json_reply(code, body)),
{
    let reply = json_reply(code, body);
    assert(body =~= reply.skip(reply.len() - body.len()));
}

/// A request that is no JSON is turned away as a bad one.
pub proof fn law_bad_requests_are_turned_away()
    ensures
        ("HTTP/1.1 "@ + decimal(400) + " "@).is_prefix_of(bad_request()),
        "{\"error\":\"bad json\"}"@.is_suffix_of(bad_request()),
{
    law_replies_are_whole(400, "{\"error\":\"bad json\"}"@);
    lemma_body_comes_last(400, "{\"error\":\"bad json\"}"@);
}

/// A request ends in one of three ways, and the client and the record are told the same. Where the
/// upstream could not be asked, both are told why. Where it sent no JSON, both are told that. Where
/// it sent a completion, the client gets the answer in it and the record what it cost.
pub proof fn law_requests_end_with_what_came_of_them(
    conclusion: Conclusion,
    ctx: UsageContext,
    chat: JsonView,
    fetched: Result<Seq<char>, Seq<char>>,
)
    requires
        concludes(conclusion, ctx, chat, fetched),
    ensures
        conclusion.record.request_id@ == ctx.request_id@,
        fetched matches Err(error) ==> {
            &&& ("HTTP/1.1 "@ + decimal(502) + " "@).is_prefix_of(conclusion.reply@)
            &&& exists|body: JsonView|
                (#[trigger] json_text(body)).is_suffix_of(conclusion.reply@) && body.text("error"@)
                    == Some(error)
            &&& conclusion.record.status@ == "error"@
            &&& opt_string(conclusion.record.error) == Some(error)
            &&& conclusion.record.total_tokens == 0
        },
        fetched is Ok && json_parse(fetched->Ok_0) is Err ==> {
            &&& ("HTTP/1.1 "@ + decimal(502) + " "@).is_prefix_of(conclusion.reply@)
            &&& "{\"error\":\"bad upstream\"}"@.is_suffix_of(conclusion.reply@)
            &&& conclusion.record.status@ == "error"@
            &&& opt_string(conclusion.record.error) == Some("bad upstream"@)
            &&& conclusion.record.total_tokens == 0
        },
        fetched is Ok && json_parse(fetched->Ok_0) is Ok ==> {
            let completion = json_parse(fetched->Ok_0)->Ok_0;
            &&& ("HTTP/1.1 "@ + decimal(200) + " "@).is_prefix_of(conclusion.reply@)
            &&& json_text(
                answer(completion, or_empty(chat.text("model"@)), chat.get("tools"@)),
            ).is_suffix_of(conclusion.reply@)
            &&& conclusion.record.status@ == "completed"@
            &&& conclusion.record.error is None
            &&& completion.get("usage"@) matches Some(usage) ==> conclusion.record.usage_json@
                == json_text(usage)
        },
{
    match fetched {
        Err(error) => {
            law_failures_are_told(error);
            law_replies_are_whole(502, error_body(error));
            lemma_body_comes_last(502, error_body(error));
        },
        Ok(text) => match json_parse(text) {
            Err(_) => {
                law_replies_are_whole(502, "{\"error\":\"bad upstream\"}"@);
                lemma_body_comes_last(502, "{\"error\":\"bad upstream\"}"@);
            },
            Ok(completion) => {
                let body = json_text(answer(completion, model_of(chat), chat.get("tools"@)));
                law_replies_are_whole(200, body);
                lemma_body_comes_last(200, body);
            },
        },
    }
}

/// A stream is opened for the model and the tools of its request, with nothing said and nothing
/// owed.
pub proof fn law_streams_are_opened_for_their_request(chat: JsonView, name: Seq<char>)
    ensures
        opened(chat).pending.len() == 0,
        opened(chat).converter.stream.id == "resp_1"@,
        chat.text("model"@) matches Some(model) ==> opened(chat).converter.stream.model == model,
        opened(chat).converter.stream.custom_tools.contains(name) <==> exists|i: int|
            0 <= i < chat.items("tools"@).len() && #[trigger] custom_name(chat.items("tools"@)[i])
                == Some(name),
        !opened(chat).converter.stream.finished,
        !has_output(opened(chat).converter.stream),
        opened(chat).converter.stream.usage is None,
{
}

/// What is left over of the text that came before is read before the text that comes next. The end
/// of the stream is recorded with the turn in which it ends, be it with an answer or with a failure,
/// and not before.
pub proof fn law_streams_are_read_on_where_they_stopped(
    turn: Turn,
    ctx: UsageContext,
    before: SessionView,
    after: SessionView,
    text: Seq<char>,
)
    requires
        takes_in(turn, ctx, before, after, text),
    ensures
        takes_in(
            turn,
            ctx,
            (SessionView { converter: before.converter, pending: Seq::empty() }),
            after,
            before.pending + text,
        ),
        turn.record matches Some(row) ==> row.request_id@ == ctx.request_id@ && (row.status@
            == "completed"@ ==> after.converter.stream.finished) && (row.status@ != "completed"@
            ==> row.status@ == "error"@ && row.error is Some),
        turn.record is None ==> !after.converter.stream.finished,
        feed_step(before.converter, before.pending + text).2 is Ok ==> texts(turn.output@)
            == rendered(feed_step(before.converter, before.pending + text).2->Ok_0),
{
    assert(Seq::<char>::empty() + (before.pending + text) =~= before.pending + text);
    reveal_strlit("completed");
    reveal_strlit("error");
    assert("completed"@.len() != "error"@.len());
}

/// When the upstream's stream ends there is a record of the request in any case: of an answer, or of
/// the failure that the client is told.
pub proof fn law_every_stream_is_recorded(
    turn: Turn,
    ctx: UsageContext,
    before: SessionView,
    after: SessionView,
)
    requires
        ends(turn, ctx, before, after),
    ensures
        turn.record matches Some(row) && row.request_id@ == ctx.request_id@,
        end_step(before.converter).1 matches Ok(events) ==> texts(turn.output@) == rendered(events)
            && turn.record->Some_0.status@ == "completed"@ && turn.record->Some_0.error is None,
        end_step(before.converter).1 matches Err(error) ==> texts(turn.output@) == seq![
            error_event(error),
        ] && turn.record->Some_0.status@ == "error"@ && opt_string(turn.record->Some_0.error)
            == Some(error),
        after.pending == before.pending,
{
}

} // verus!

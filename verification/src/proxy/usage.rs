//! Token accounting: what a completed call cost, whose session it was, and the record that is kept.
use vstd::prelude::*;

use crate::codec::{is_plain, json_parse, json_text, parse_json, to_json_text};
use crate::json::{first_of, opt_str, opt_string, opt_view, Json, JsonView};
use crate::text::{blank, contains_name, digits_of, is_blank, lemma_digits_apart};
use crate::text::{lemma_digits_hold_no_underscore, lemma_not_blank, lowered, same_text, texts};
use crate::text::{to_hex, to_lower};

verus! {

// ── token counts ──────────────────────────────────────────────────────

/// What one upstream call consumed.
#[derive(Debug, PartialEq, Eq)]
pub struct TokenUsage {
    pub input_tokens: i64,
    pub output_tokens: i64,
    pub total_tokens: i64,
    pub cached_input_tokens: i64,
    pub cache_miss_input_tokens: i64,
    pub reasoning_output_tokens: i64,
    pub usage_json: String,
}

pub struct TokenUsageView {
    pub input_tokens: i64,
    pub output_tokens: i64,
    pub total_tokens: i64,
    pub cached_input_tokens: i64,
    pub cache_miss_input_tokens: i64,
    pub reasoning_output_tokens: i64,
    pub usage_json: Seq<char>,
}

impl View for TokenUsage {
    type V = TokenUsageView;

    open spec fn view(&self) -> TokenUsageView {
        TokenUsageView {
            input_tokens: self.input_tokens,
            output_tokens: self.output_tokens,
            total_tokens: self.total_tokens,
            cached_input_tokens: self.cached_input_tokens,
            cache_miss_input_tokens: self.cache_miss_input_tokens,
            reasoning_output_tokens: self.reasoning_output_tokens,
            usage_json: self.usage_json@,
        }
    }
}

impl Clone for TokenUsage {
    fn clone(&self) -> (copy: Self)
        ensures
            copy == *self,
    {
        TokenUsage {
            input_tokens: self.input_tokens,
            output_tokens: self.output_tokens,
            total_tokens: self.total_tokens,
            cached_input_tokens: self.cached_input_tokens,
            cache_miss_input_tokens: self.cache_miss_input_tokens,
            reasoning_output_tokens: self.reasoning_output_tokens,
            usage_json: self.usage_json.clone(),
        }
    }
}

/// The counts of a call of which nothing is known.
pub open spec fn no_usage() -> TokenUsageView {
    TokenUsageView {
        input_tokens: 0,
        output_tokens: 0,
        total_tokens: 0,
        cached_input_tokens: 0,
        cache_miss_input_tokens: 0,
        reasoning_output_tokens: 0,
        usage_json: Seq::empty(),
    }
}

pub fn zero_usage() -> (tokens: TokenUsage)
    ensures
        tokens@ == no_usage(),
{
    TokenUsage {
        input_tokens: 0,
        output_tokens: 0,
        total_tokens: 0,
        cached_input_tokens: 0,
        cache_miss_input_tokens: 0,
        reasoning_output_tokens: 0,
        usage_json: String::new(),
    }
}

/// The count that an upstream's usage object has under `key`.
pub open spec fn tokens_at(usage: Option<JsonView>, key: Seq<char>) -> Option<i64> {
    match usage {
        Some(u) => u.member(key).as_i64(),
        None => None,
    }
}

/// The count that an upstream's usage object has under `inner` of `outer`.
pub open spec fn tokens_at2(usage: Option<JsonView>, outer: Seq<char>, inner: Seq<char>) -> Option<
    i64,
> {
    match usage {
        Some(u) => u.member(outer).member(inner).as_i64(),
        None => None,
    }
}

pub open spec fn or_zero(count: Option<i64>) -> i64 {
    match count {
        Some(n) => n,
        None => 0,
    }
}

/// The difference of two counts, held within the range of a count.
pub open spec fn saturating_difference(a: i64, b: i64) -> i64 {
    if a - b < i64::MIN {
        i64::MIN
    } else if a - b > i64::MAX {
        i64::MAX
    } else {
        (a - b) as i64
    }
}

/// How many input tokens came out of a cache.
pub open spec fn cached_tokens(usage: Option<JsonView>) -> i64 {
    match tokens_at(usage, "prompt_cache_hit_tokens"@) {
        Some(n) => n,
        None => or_zero(tokens_at2(usage, "prompt_tokens_details"@, "cached_tokens"@)),
    }
}

/// The counts that a chat completion's usage object gives. Where it does not say how many input
/// tokens missed the cache, they are the input tokens that did not come out of it.
pub open spec fn usage_of(usage: Option<JsonView>) -> TokenUsageView {
    let input = or_zero(tokens_at(usage, "prompt_tokens"@));
    TokenUsageView {
        input_tokens: input,
        output_tokens: or_zero(tokens_at(usage, "completion_tokens"@)),
        total_tokens: or_zero(tokens_at(usage, "total_tokens"@)),
        cached_input_tokens: cached_tokens(usage),
        cache_miss_input_tokens: match tokens_at(usage, "prompt_cache_miss_tokens"@) {
            Some(n) => n,
            None => saturating_difference(input, cached_tokens(usage)),
        },
        reasoning_output_tokens: or_zero(
            tokens_at2(usage, "completion_tokens_details"@, "reasoning_tokens"@),
        ),
        usage_json: match usage {
            Some(u) => json_text(u),
            None => Seq::empty(),
        },
    }
}

fn count_at(usage: Option<&Json>, key: &str) -> (count: Option<i64>)
    ensures
        count == tokens_at(opt_view(usage), key@),
{
    match usage {
        Some(u) => match u.get(key) {
            Some(value) => value.as_i64(),
            None => None,
        },
        None => None,
    }
}

fn count_at2(usage: Option<&Json>, outer: &str, inner: &str) -> (count: Option<i64>)
    ensures
        count == tokens_at2(opt_view(usage), outer@, inner@),
{
    match usage {
        Some(u) => match u.get2(outer, inner) {
            Some(value) => value.as_i64(),
            None => None,
        },
        None => None,
    }
}

fn saturating_sub(a: i64, b: i64) -> (d: i64)
    ensures
        d == saturating_difference(a, b),
{
    let d: i128 = a as i128 - b as i128;
    if d < i64::MIN as i128 {
        i64::MIN
    } else if d > i64::MAX as i128 {
        i64::MAX
    } else {
        d as i64
    }
}

pub fn usage_from_chat(value: &Json) -> (tokens: TokenUsage)
    ensures
        tokens@ == usage_of(value@.get("usage"@)),
{
    usage_from_chat_usage(value.get("usage"))
}

/// Counts what a usage object reports. Unless it holds fractions, it can be read back from the
/// text that is kept of it.
pub fn usage_from_chat_usage(usage: Option<&Json>) -> (tokens: TokenUsage)
    ensures
        tokens@ == usage_of(opt_view(usage)),
        opt_view(usage) matches Some(u) ==> is_plain(u, 127) ==> json_parse(tokens.usage_json@)
            == Ok::<JsonView, Seq<char>>(u),
{
    let input_tokens: i64 = count_at(usage, "prompt_tokens").unwrap_or(0);
    let cached_input_tokens: i64 = match count_at(usage, "prompt_cache_hit_tokens") {
        Some(n) => n,
        None => count_at2(usage, "prompt_tokens_details", "cached_tokens").unwrap_or(0),
    };
    TokenUsage {
        input_tokens,
        output_tokens: count_at(usage, "completion_tokens").unwrap_or(0),
        total_tokens: count_at(usage, "total_tokens").unwrap_or(0),
        cached_input_tokens,
        cache_miss_input_tokens: match count_at(usage, "prompt_cache_miss_tokens") {
            Some(n) => n,
            None => saturating_sub(input_tokens, cached_input_tokens),
        },
        reasoning_output_tokens: count_at2(
            usage,
            "completion_tokens_details",
            "reasoning_tokens",
        ).unwrap_or(0),
        usage_json: match usage {
            Some(u) => to_json_text(u),
            None => String::new(),
        },
    }
}

/// Where an upstream does not report cache misses, hits and misses add up to the input, unless
/// their difference is no count.
pub proof fn law_hits_and_misses_make_up_the_input(usage: Option<JsonView>)
    requires
        tokens_at(usage, "prompt_cache_miss_tokens"@) is None,
        i64::MIN <= usage_of(usage).input_tokens - usage_of(usage).cached_input_tokens <= i64::MAX,
    ensures
        usage_of(usage).cached_input_tokens + usage_of(usage).cache_miss_input_tokens == usage_of(
            usage,
        ).input_tokens,
{
}

// ── sessions ──────────────────────────────────────────────────────────

/// A document's text where it is a string with more than white space in it.
pub open spec fn session_text(value: Option<JsonView>) -> Option<Seq<char>> {
    match value {
        Some(JsonView::Text(s)) => if is_blank(s) {
            None
        } else {
            Some(s)
        },
        _ => None,
    }
}

/// The session that a request's metadata names.
pub open spec fn metadata_session(req: JsonView) -> Option<Seq<char>> {
    first_of(
        session_text(req.get2("metadata"@, "session_id"@)),
        first_of(
            session_text(req.get2("metadata"@, "codex_session_id"@)),
            first_of(
                session_text(req.get2("metadata"@, "thread_id"@)),
                first_of(
                    session_text(req.get2("metadata"@, "conversation_id"@)),
                    session_text(req.get2("metadata"@, "trace_id"@)),
                ),
            ),
        ),
    )
}

pub open spec fn or_unknown(session: Option<Seq<char>>) -> Seq<char> {
    match session {
        Some(s) => s,
        None => "unknown"@,
    }
}

fn session_str(value: Option<&Json>) -> (s: Option<&str>)
    ensures
        opt_str(s) == session_text(opt_view(value)),
{
    match value {
        Some(v) => match v.as_str() {
            Some(s) => if blank(s) {
                None
            } else {
                Some(s)
            },
            None => None,
        },
        None => None,
    }
}

fn metadata_str<'a>(req: &'a Json, key: &str) -> (s: Option<&'a str>)
    ensures
        opt_str(s) == session_text(req@.get2("metadata"@, key@)),
{
    session_str(req.get2("metadata", key))
}

pub fn extract_session_id(req: &Json) -> (session: String)
    ensures
        session@ == or_unknown(metadata_session(req@)),
{
    if let Some(s) = metadata_str(req, "session_id") {
        return s.to_owned();
    }
    if let Some(s) = metadata_str(req, "codex_session_id") {
        return s.to_owned();
    }
    if let Some(s) = metadata_str(req, "thread_id") {
        return s.to_owned();
    }
    if let Some(s) = metadata_str(req, "conversation_id") {
        return s.to_owned();
    }
    if let Some(s) = metadata_str(req, "trace_id") {
        return s.to_owned();
    }
    "unknown".to_owned()
}

/// The names and values of a row of headers.
pub open spec fn header_texts(headers: Seq<(String, String)>) -> Seq<(Seq<char>, Seq<char>)> {
    headers.map_values(|h: (String, String)| (h.0@, h.1@))
}

/// The value of the first header with this name, whatever its ASCII case.
pub open spec fn header_of(headers: Seq<(Seq<char>, Seq<char>)>, name: Seq<char>) -> Option<
    Seq<char>,
>
    decreases headers.len(),
{
    if headers.len() == 0 {
        None
    } else if lowered(headers[0].0) == lowered(name) {
        Some(headers[0].1)
    } else {
        header_of(headers.drop_first(), name)
    }
}

pub fn header_value<'a>(headers: &'a [(String, String)], name: &str) -> (value: Option<&'a str>)
    ensures
        opt_str(value) == header_of(header_texts(headers@), name@),
{
    let wanted = to_lower(name);
    let ghost all = header_texts(headers@);
    let mut i: usize = 0;
    assert(all.skip(0) =~= all);
    while i < headers.len()
        invariant
            i <= headers@.len(),
            all == header_texts(headers@),
            wanted@ == lowered(name@),
            header_of(all, name@) == header_of(all.skip(i as int), name@),
        decreases headers@.len() - i,
    {
        if same_text(to_lower(headers[i].0.as_str()).as_str(), wanted.as_str()) {
            return Some(headers[i].1.as_str());
        }
        assert(all.skip(i as int).drop_first() =~= all.skip(i + 1));
        i += 1;
    }
    None
}

pub open spec fn non_blank(s: Option<Seq<char>>) -> Option<Seq<char>> {
    match s {
        Some(t) => if is_blank(t) {
            None
        } else {
            Some(t)
        },
        None => None,
    }
}

/// The session that the turn metadata in a header names.
pub open spec fn turn_session(metadata: Seq<char>) -> Option<Seq<char>> {
    match json_parse(metadata) {
        Ok(value) => turn_session_of(value),
        Err(_) => None,
    }
}

pub open spec fn turn_session_of(value: JsonView) -> Option<Seq<char>> {
    first_of(
        session_text(value.get("session_id"@)),
        first_of(session_text(value.get("thread_id"@)), session_text(value.get("turn_id"@))),
    )
}

/// The session that the headers name.
pub open spec fn header_session(headers: Seq<(Seq<char>, Seq<char>)>) -> Option<Seq<char>> {
    first_of(
        non_blank(header_of(headers, "session-id"@)),
        first_of(
            non_blank(header_of(headers, "thread-id"@)),
            first_of(
                non_blank(header_of(headers, "x-client-request-id"@)),
                match header_of(headers, "x-codex-turn-metadata"@) {
                    Some(metadata) => turn_session(metadata),
                    None => None,
                },
            ),
        ),
    )
}

fn non_blank_header<'a>(headers: &'a [(String, String)], name: &str) -> (s: Option<&'a str>)
    ensures
        opt_str(s) == non_blank(header_of(header_texts(headers@), name@)),
{
    match header_value(headers, name) {
        Some(s) => if blank(s) {
            None
        } else {
            Some(s)
        },
        None => None,
    }
}

/// The session that parsed turn metadata names.
pub fn session_of_turn(value: &Json) -> (session: Option<String>)
    ensures
        opt_string(session) == turn_session_of(value@),
{
    if let Some(s) = session_str(value.get("session_id")) {
        return Some(s.to_owned());
    }
    if let Some(s) = session_str(value.get("thread_id")) {
        return Some(s.to_owned());
    }
    if let Some(s) = session_str(value.get("turn_id")) {
        return Some(s.to_owned());
    }
    None
}

pub fn extract_session_id_from_headers(headers: &[(String, String)]) -> (session: Option<String>)
    ensures
        opt_string(session) == header_session(header_texts(headers@)),
{
    if let Some(s) = non_blank_header(headers, "session-id") {
        return Some(s.to_owned());
    }
    if let Some(s) = non_blank_header(headers, "thread-id") {
        return Some(s.to_owned());
    }
    if let Some(s) = non_blank_header(headers, "x-client-request-id") {
        return Some(s.to_owned());
    }
    match header_value(headers, "x-codex-turn-metadata") {
        Some(metadata) => match parse_json(metadata) {
            Ok(value) => session_of_turn(&value),
            Err(_) => None,
        },
        None => None,
    }
}

/// The session of a request: the one its metadata names, else the one its headers name.
pub open spec fn session_of(req: JsonView, headers: Seq<(Seq<char>, Seq<char>)>) -> Seq<char> {
    let from_body = or_unknown(metadata_session(req));
    if from_body == "unknown"@ {
        or_unknown(header_session(headers))
    } else {
        from_body
    }
}

pub fn session_id(req: &Json, headers: &[(String, String)]) -> (session: String)
    ensures
        session@ == session_of(req@, header_texts(headers@)),
{
    let from_body = extract_session_id(req);
    if same_text(from_body.as_str(), "unknown") {
        match extract_session_id_from_headers(headers) {
            Some(s) => s,
            None => from_body,
        }
    } else {
        from_body
    }
}

/// A session always has a name: the one that was found, or `unknown`.
pub proof fn law_sessions_have_a_name(req: JsonView, headers: Seq<(Seq<char>, Seq<char>)>)
    ensures
        !is_blank(session_of(req, headers)),
        metadata_session(req) is None && header_session(headers) is None ==> session_of(
            req,
            headers,
        ) == "unknown"@,
{
    reveal_strlit("unknown");
    lemma_not_blank("unknown"@);
}

// ── request ids ───────────────────────────────────────────────────────

pub open spec fn request_name(process: nat, number: nat) -> Seq<char> {
    "req_"@ + digits_of(process, 16) + "_"@ + digits_of(number, 16)
}

/// The id of the `number`-th request that the process `process` serves.
pub fn request_id(process: u32, number: u64) -> (id: String)
    ensures
        id@ == request_name(process as nat, number as nat),
{
    "req_".to_owned().concat(to_hex(process as u64).as_str()).concat("_").concat(
        to_hex(number).as_str(),
    )
}

/// Two requests of any two processes have different ids unless both numbers agree.
pub proof fn law_request_ids_are_unique(process: nat, number: nat, process2: nat, number2: nat)
    requires
        request_name(process, number) == request_name(process2, number2),
    ensures
        process == process2,
        number == number2,
{
    reveal_strlit("req_");
    reveal_strlit("_");
    let a = digits_of(process, 16);
    let b = digits_of(number, 16);
    let c = digits_of(process2, 16);
    let d = digits_of(number2, 16);
    let s = request_name(process, number);
    lemma_digits_hold_no_underscore(process, 16);
    lemma_digits_hold_no_underscore(process2, 16);
    assert(s[4int + a.len()] == '_');
    assert(s[4int + c.len()] == '_');
    if a.len() < c.len() {
        assert(s[4int + a.len()] == c[a.len() as int]);
    }
    if c.len() < a.len() {
        assert(s[4int + c.len()] == a[c.len() as int]);
    }
    assert(a =~= s.subrange(4, 4int + a.len()));
    assert(c =~= s.subrange(4, 4int + c.len()));
    assert(b =~= s.skip(5int + a.len()));
    assert(d =~= s.skip(5int + c.len()));
    lemma_digits_apart(process, process2, 16);
    lemma_digits_apart(number, number2, 16);
}

// ── records ───────────────────────────────────────────────────────────

/// What is known of a request before it goes upstream.
pub struct UsageContext {
    pub request_id: String,
    pub session_id: String,
    pub provider: String,
    pub model: String,
    pub stream: bool,
    pub request_json: String,
    pub headers_json: String,
}

/// One row of the usage table.
#[derive(Debug, PartialEq, Eq)]
pub struct UsageRecord {
    pub request_id: String,
    pub session_id: String,
    pub provider: String,
    pub model: String,
    pub stream: bool,
    pub status: String,
    pub input_tokens: i64,
    pub output_tokens: i64,
    pub total_tokens: i64,
    pub cached_input_tokens: i64,
    pub cache_miss_input_tokens: i64,
    pub reasoning_output_tokens: i64,
    pub usage_json: String,
    pub error: Option<String>,
    pub request_json: String,
    pub headers_json: String,
}

/// Whether a row is the one for a request that ended with this status, these counts and this error.
pub open spec fn is_record(
    record: UsageRecord,
    ctx: UsageContext,
    status: Seq<char>,
    tokens: TokenUsageView,
    error: Option<Seq<char>>,
) -> bool {
    &&& record.request_id@ == ctx.request_id@
    &&& record.session_id@ == ctx.session_id@
    &&& record.provider@ == ctx.provider@
    &&& record.model@ == ctx.model@
    &&& record.stream == ctx.stream
    &&& record.status@ == status
    &&& record.input_tokens == tokens.input_tokens
    &&& record.output_tokens == tokens.output_tokens
    &&& record.total_tokens == tokens.total_tokens
    &&& record.cached_input_tokens == tokens.cached_input_tokens
    &&& record.cache_miss_input_tokens == tokens.cache_miss_input_tokens
    &&& record.reasoning_output_tokens == tokens.reasoning_output_tokens
    &&& record.usage_json@ == tokens.usage_json
    &&& opt_string(record.error) == error
    &&& record.request_json@ == ctx.request_json@
    &&& record.headers_json@ == ctx.headers_json@
}

/// The row for a request that ended with this status, these counts and this error.
pub fn usage_record(
    ctx: &UsageContext,
    status: &str,
    tokens: TokenUsage,
    error: Option<String>,
) -> (record: UsageRecord)
    ensures
        is_record(record, *ctx, status@, tokens@, opt_string(error)),
{
    UsageRecord {
        request_id: ctx.request_id.clone(),
        session_id: ctx.session_id.clone(),
        provider: ctx.provider.clone(),
        model: ctx.model.clone(),
        stream: ctx.stream,
        status: status.to_owned(),
        input_tokens: tokens.input_tokens,
        output_tokens: tokens.output_tokens,
        total_tokens: tokens.total_tokens,
        cached_input_tokens: tokens.cached_input_tokens,
        cache_miss_input_tokens: tokens.cache_miss_input_tokens,
        reasoning_output_tokens: tokens.reasoning_output_tokens,
        usage_json: tokens.usage_json,
        error,
        request_json: ctx.request_json.clone(),
        headers_json: ctx.headers_json.clone(),
    }
}

// ── the usage table ───────────────────────────────────────────────────

/// The statement that adds a column to the usage table.
pub open spec fn add_column(name: Seq<char>, definition: Seq<char>) -> Seq<char> {
    "ALTER TABLE proxy_requests ADD COLUMN "@ + name + " "@ + definition
}

/// The statement that a table with these columns needs before it has the column `name`; none
/// where it has it.
pub fn ensure_column(columns: &Vec<String>, name: &str, definition: &str) -> (statement: Option<
    String,
>)
    ensures
        opt_string(statement) == (if texts(columns@).contains(name@) {
            None
        } else {
            Some(add_column(name@, definition@))
        }),
{
    if contains_name(columns, name) {
        None
    } else {
        Some(
            "ALTER TABLE proxy_requests ADD COLUMN ".to_owned().concat(name).concat(" ").concat(
                definition,
            ),
        )
    }
}

/// The columns that came after the first version of the table, with their definitions.
pub open spec fn later_columns() -> Seq<(Seq<char>, Seq<char>)> {
    seq![
        ("request_json"@, "TEXT NOT NULL DEFAULT ''"@),
        ("headers_json"@, "TEXT NOT NULL DEFAULT ''"@),
        ("cached_input_tokens"@, "INTEGER NOT NULL DEFAULT 0"@),
        ("cache_miss_input_tokens"@, "INTEGER NOT NULL DEFAULT 0"@),
        ("reasoning_output_tokens"@, "INTEGER NOT NULL DEFAULT 0"@),
        ("usage_json"@, "TEXT NOT NULL DEFAULT ''"@),
    ]
}

/// The columns among `wanted` that are missing, each with the statement that adds it.
pub open spec fn missing_columns(
    columns: Seq<Seq<char>>,
    wanted: Seq<(Seq<char>, Seq<char>)>,
) -> Seq<(Seq<char>, Seq<char>)>
    decreases wanted.len(),
{
    if wanted.len() == 0 {
        Seq::empty()
    } else if columns.contains(wanted.last().0) {
        missing_columns(columns, wanted.drop_last())
    } else {
        missing_columns(columns, wanted.drop_last()).push(
            (wanted.last().0, add_column(wanted.last().0, wanted.last().1)),
        )
    }
}

fn push_column(columns: &Vec<String>, name: &str, definition: &str, out: &mut Vec<(String, String)>)
    ensures
        header_texts(final(out)@) == (if texts(columns@).contains(name@) {
            header_texts(old(out)@)
        } else {
            header_texts(old(out)@).push((name@, add_column(name@, definition@)))
        }),
{
    if let Some(statement) = ensure_column(columns, name, definition) {
        let ghost before = out@;
        out.push((name.to_owned(), statement));
        assert(header_texts(out@) =~= header_texts(before).push(
            (name@, add_column(name@, definition@)),
        ));
    }
}

/// The columns that a table with these columns still needs, each with the statement that adds it.
pub fn migrations(columns: &Vec<String>) -> (statements: Vec<(String, String)>)
    ensures
        header_texts(statements@) == missing_columns(texts(columns@), later_columns()),
{
    let mut out: Vec<(String, String)> = Vec::new();
    push_column(columns, "request_json", "TEXT NOT NULL DEFAULT ''", &mut out);
    push_column(columns, "headers_json", "TEXT NOT NULL DEFAULT ''", &mut out);
    push_column(columns, "cached_input_tokens", "INTEGER NOT NULL DEFAULT 0", &mut out);
    push_column(columns, "cache_miss_input_tokens", "INTEGER NOT NULL DEFAULT 0", &mut out);
    push_column(columns, "reasoning_output_tokens", "INTEGER NOT NULL DEFAULT 0", &mut out);
    push_column(columns, "usage_json", "TEXT NOT NULL DEFAULT ''", &mut out);
    proof {
        let all = later_columns();
        reveal_with_fuel(missing_columns, 7);
        assert(all.drop_last().drop_last().drop_last().drop_last().drop_last().drop_last()
            =~= Seq::empty());
    }
    out
}

/// The names in a row of columns.
pub open spec fn column_names(columns: Seq<(Seq<char>, Seq<char>)>) -> Seq<Seq<char>> {
    columns.map_values(|c: (Seq<char>, Seq<char>)| c.0)
}

/// Once the missing columns have been added, none is missing.
pub proof fn law_migrating_is_done_once(
    columns: Seq<Seq<char>>,
    wanted: Seq<(Seq<char>, Seq<char>)>,
    more: Seq<Seq<char>>,
)
    requires
        forall|name: Seq<char>| #[trigger] columns.contains(name) ==> more.contains(name),
        forall|name: Seq<char>| #[trigger]
            column_names(missing_columns(columns, wanted)).contains(name) ==> more.contains(name),
    ensures
        missing_columns(more, wanted) == Seq::<(Seq<char>, Seq<char>)>::empty(),
    decreases wanted.len(),
{
    if wanted.len() > 0 {
        let rest = wanted.drop_last();
        let missing = column_names(missing_columns(columns, wanted));
        let fewer = column_names(missing_columns(columns, rest));
        assert forall|name: Seq<char>| #[trigger] fewer.contains(name) implies more.contains(
            name,
        ) by {
            let k = choose|k: int| 0 <= k < fewer.len() && fewer[k] == name;
            assert(missing[k] == name);
            assert(missing.contains(name));
        }
        law_migrating_is_done_once(columns, rest, more);
        let last = wanted.last().0;
        if !columns.contains(last) {
            assert(missing[missing.len() - 1] == last);
            assert(missing.contains(last));
        }
        assert(more.contains(last));
    }
}

} // verus!

//! Server-sent events: writing them, and taking a stream of them apart.
use vstd::prelude::*;

use crate::codec::{json_text, to_json_text};
use crate::json::{empty_object, opt_string, Json, JsonView};
use crate::text::{after_prefix, find_chars, find_from, join, joined, lemma_find_from};
use crate::text::{lemma_texts_push, lemma_unix_newlines_len, lines, lines_of, normalize_newlines};
use crate::text::{part, pieces, pieces_of, strip_prefix, texts, to_chars, trim, trim_end};
use crate::text::{trim_start, trimmed, trimmed_end, trimmed_start, unix_newlines};

verus! {

// ── writing ───────────────────────────────────────────────────────────

/// An event before it is written: its name and its payload.
pub struct Event {
    pub name: Seq<char>,
    pub payload: JsonView,
}

/// An event as it goes over the wire. The payload carries the event's name as its type.
pub open spec fn event_text(event: Event) -> Seq<char> {
    "event: "@ + event.name + "\ndata: "@ + json_text(
        event.payload.with_text("type"@, event.name),
    ) + "\n\n"@
}

/// The texts of a row of events.
pub open spec fn rendered(events: Seq<Event>) -> Seq<Seq<char>> {
    events.map_values(|event: Event| event_text(event))
}

pub broadcast proof fn lemma_rendered_add(a: Seq<Event>, b: Seq<Event>)
    ensures
        #[trigger] rendered(a + b) == rendered(a) + rendered(b),
{
    assert(rendered(a + b) =~= rendered(a) + rendered(b));
}

pub broadcast proof fn lemma_rendered_push(a: Seq<Event>, event: Event)
    ensures
        #[trigger] rendered(a.push(event)) == rendered(a).push(event_text(event)),
{
    assert(rendered(a.push(event)) =~= rendered(a).push(event_text(event)));
}

pub fn sse(evt: &str, payload: Json) -> (text: String)
    ensures
        text@ == event_text((Event { name: evt@, payload: payload@ })),
{
    let data = to_json_text(&payload.with_text("type", evt));
    "event: ".to_owned().concat(evt).concat("\ndata: ").concat(data.as_str()).concat("\n\n")
}

/// The payload of an event that reports a failure.
pub open spec fn error_payload(message: Seq<char>) -> JsonView {
    empty_object().with_text("type"@, "error"@).with(
        "error"@,
        empty_object().with_text("message"@, message),
    )
}

pub open spec fn error_event(message: Seq<char>) -> Seq<char> {
    "event: error\ndata: "@ + json_text(error_payload(message)) + "\n\n"@
}

pub fn sse_error(message: &str) -> (text: String)
    ensures
        text@ == error_event(message@),
{
    let payload = Json::object().with_text("type", "error").with(
        "error",
        Json::object().with_text("message", message),
    );
    "event: error\ndata: ".to_owned().concat(to_json_text(&payload).as_str()).concat("\n\n")
}

// ── reading ───────────────────────────────────────────────────────────

/// One event of a stream: its name, where it has one, and its data lines.
#[derive(Debug, PartialEq, Eq)]
pub struct SseBlock {
    pub event: Option<String>,
    pub data: String,
}

pub struct BlockView {
    pub event: Option<Seq<char>>,
    pub data: Seq<char>,
}

impl View for SseBlock {
    type V = BlockView;

    open spec fn view(&self) -> BlockView {
        BlockView { event: opt_string(self.event), data: self.data@ }
    }
}

pub open spec fn opt_block(block: Option<SseBlock>) -> Option<BlockView> {
    match block {
        Some(b) => Some(b@),
        None => None,
    }
}

/// The name that the last `event:` line gives.
pub open spec fn event_of(lines: Seq<Seq<char>>) -> Option<Seq<char>>
    decreases lines.len(),
{
    if lines.len() == 0 {
        None
    } else {
        match after_prefix(trimmed_end(lines.last()), "event:"@) {
            Some(value) => Some(trimmed(value)),
            None => event_of(lines.drop_last()),
        }
    }
}

/// What the `data:` lines hold.
pub open spec fn data_of(lines: Seq<Seq<char>>) -> Seq<Seq<char>>
    decreases lines.len(),
{
    if lines.len() == 0 {
        Seq::empty()
    } else {
        match after_prefix(trimmed_end(lines.last()), "data:"@) {
            Some(value) => data_of(lines.drop_last()).push(trimmed_start(value)),
            None => data_of(lines.drop_last()),
        }
    }
}

/// The event in the text between two blank lines; none where it has no data.
pub open spec fn parsed_block(raw: Seq<char>) -> Option<BlockView> {
    let data = data_of(lines_of(raw));
    if data.len() > 0 {
        Some(BlockView { event: event_of(lines_of(raw)), data: joined(data, "\n"@) })
    } else {
        None
    }
}

pub fn parse_sse_block(raw: &str) -> (block: Option<SseBlock>)
    ensures
        opt_block(block) == parsed_block(raw@),
{
    let all = lines(raw);
    let ghost rows = texts(all@);
    let mut event: Option<String> = None;
    let mut data: Vec<String> = Vec::new();
    let mut i: usize = 0;
    assert(rows.take(0) =~= Seq::empty());
    assert(texts(data@) =~= Seq::empty());
    while i < all.len()
        invariant
            i <= all@.len(),
            rows == texts(all@),
            opt_string(event) == event_of(rows.take(i as int)),
            texts(data@) == data_of(rows.take(i as int)),
        decreases all@.len() - i,
    {
        let ghost longer = rows.take(i + 1);
        assert(longer.drop_last() =~= rows.take(i as int));
        assert(longer.last() == all@[i as int]@);
        let line = trim_end(all[i].as_str());
        if let Some(value) = strip_prefix(line, "event:") {
            event = Some(trim(value).to_owned());
        }
        if let Some(value) = strip_prefix(line, "data:") {
            let owned = trim_start(value).to_owned();
            proof {
                lemma_texts_push(data@, owned);
            }
            data.push(owned);
        }
        i += 1;
    }
    assert(rows.take(i as int) =~= rows);
    assert(texts(data@).len() == data@.len());
    if data.is_empty() {
        None
    } else {
        Some(SseBlock { event, data: join(&data, "\n") })
    }
}

/// What a stream's text gives when its first event is taken off: the event and the rest. Nothing
/// is taken off before a blank line has come.
pub open spec fn popped(text: Seq<char>) -> (Option<BlockView>, Seq<char>) {
    let normalized = unix_newlines(text);
    match find_from(normalized, "\n\n"@, 0) {
        Some(i) => (parsed_block(normalized.take(i)), normalized.skip(i + 2)),
        None => (None, text),
    }
}

/// Taking an event off leaves less text.
pub proof fn lemma_popped_shrinks(text: Seq<char>)
    ensures
        popped(text).0 is Some ==> popped(text).1.len() < text.len(),
{
    reveal_strlit("\n\n");
    lemma_unix_newlines_len(text);
    lemma_find_from(unix_newlines(text), "\n\n"@, 0);
}

pub fn pop_sse_block(text: &mut String) -> (block: Option<SseBlock>)
    ensures
        opt_block(block) == popped(old(text)@).0,
        final(text)@ == popped(old(text)@).1,
{
    let normalized = normalize_newlines(text.as_str());
    let chars = to_chars(normalized.as_str());
    let gap = to_chars("\n\n");
    proof {
        reveal_strlit("\n\n");
        lemma_find_from(chars@, gap@, 0);
    }
    match find_chars(&chars, &gap, 0) {
        Some(split) => {
            assert(split + gap@.len() <= chars.len());
            let raw = part(&chars, 0, split);
            let rest = part(&chars, split + 2, chars.len());
            assert(raw@ =~= chars@.take(split as int));
            assert(rest@ =~= chars@.skip(split + 2));
            *text = rest;
            parse_sse_block(raw.as_str())
        },
        None => None,
    }
}

/// The events in the pieces of a text.
pub open spec fn blocks_in(raws: Seq<Seq<char>>) -> Seq<BlockView>
    decreases raws.len(),
{
    if raws.len() == 0 {
        Seq::empty()
    } else {
        match parsed_block(raws.last()) {
            Some(block) => blocks_in(raws.drop_last()).push(block),
            None => blocks_in(raws.drop_last()),
        }
    }
}

pub open spec fn blocks_of(text: Seq<char>) -> Seq<BlockView> {
    blocks_in(pieces_of(unix_newlines(text), "\n\n"@))
}

pub open spec fn block_views(blocks: Seq<SseBlock>) -> Seq<BlockView> {
    blocks.map_values(|b: SseBlock| b@)
}

/// All events of a complete text.
pub fn sse_blocks(text: &str) -> (blocks: Vec<SseBlock>)
    ensures
        block_views(blocks@) == blocks_of(text@),
{
    proof {
        reveal_strlit("\n\n");
    }
    let raws = pieces(normalize_newlines(text).as_str(), "\n\n");
    let ghost rows = texts(raws@);
    let mut blocks: Vec<SseBlock> = Vec::new();
    let mut i: usize = 0;
    assert(rows.take(0) =~= Seq::empty());
    assert(block_views(blocks@) =~= Seq::empty());
    while i < raws.len()
        invariant
            i <= raws@.len(),
            rows == texts(raws@),
            block_views(blocks@) == blocks_in(rows.take(i as int)),
        decreases raws@.len() - i,
    {
        let ghost longer = rows.take(i + 1);
        assert(longer.drop_last() =~= rows.take(i as int));
        assert(longer.last() == raws@[i as int]@);
        let ghost before = blocks@;
        if let Some(block) = parse_sse_block(raws[i].as_str()) {
            blocks.push(block);
            assert(block_views(blocks@) =~= block_views(before).push(block@));
        }
        i += 1;
    }
    assert(rows.take(i as int) =~= rows);
    blocks
}

} // verus!

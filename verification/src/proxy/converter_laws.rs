//! What holds of everything that a stream may hold: chunks, failures, and the lines they come in.
use vstd::prelude::*;

use crate::codec::{json_parse, json_text};
use crate::json::JsonView;
use crate::proxy::converter::{block_step, chunk_step, delivers, end_step, error_message, feed_step};
use crate::proxy::converter::{fresh, reports_error, ConverterView};
use crate::proxy::finish_laws::{lemma_delta_comes, lemma_texts_added};
use crate::proxy::run_laws::{calls_of, introduced, lemma_deltas_heard};
use crate::proxy::sse::{blocks_in, blocks_of, data_of, error_event, error_payload, event_of};
use crate::proxy::sse::{event_text, parsed_block, popped, rendered, BlockView, Event};
use crate::proxy::stage::{has_stage, lemma_stage_of, slot, stage_at};
use crate::proxy::stream::{delta_step, finish_step, has_output};
use crate::proxy::stream_laws::{deltas_step, law_the_answer_is_what_was_streamed, pieces_in};
use crate::proxy::tools::clipped;
use crate::text::{find_from, is_blank, joined, lemma_find_from, lines_of, occurs_at, pieces_of};
use crate::text::{texts, trimmed, trimmed_end, trimmed_start, unix_newlines};

verus! {

// ── failures ──────────────────────────────────────────────────────────

/// Whether a chunk reports a failure: under `error` there is something else than null, an empty
/// object or a blank text.
pub open spec fn is_failure(chunk: JsonView) -> bool {
    match chunk.member("error"@) {
        JsonView::Null => false,
        JsonView::Text(s) => !is_blank(s),
        JsonView::Object(members) => members.dom() != Set::<Seq<char>>::empty(),
        _ => true,
    }
}

proof fn lemma_is_failure(chunk: JsonView)
    ensures
        reports_error(chunk) == is_failure(chunk),
{
    if let JsonView::Object(members) = chunk.member("error"@) {
        if reports_error(chunk) {
            let key = choose|key: Seq<char>| members.contains_key(key);
            assert(members.dom().contains(key));
            assert(!Set::<Seq<char>>::empty().contains(key));
        } else {
            assert forall|key: Seq<char>| !members.dom().contains(key) by {
                assert(!members.contains_key(key));
            }
            assert(members.dom() =~= Set::<Seq<char>>::empty());
        }
    }
}

/// The first of the members that is there, in the order of the keys.
pub open spec fn first_under(value: JsonView, keys: Seq<Seq<char>>) -> Option<JsonView>
    decreases keys.len(),
{
    if keys.len() == 0 {
        None
    } else if value.get(keys[0]) is Some {
        value.get(keys[0])
    } else {
        first_under(value, keys.drop_first())
    }
}

/// A failure is told in its own words: those under `message`, `msg` or `detail`, or the failure
/// itself where it is a text. What kind it is, under `type` or `code`, is added.
pub proof fn law_failures_are_told_in_their_own_words(chunk: JsonView)
    ensures
        ({
            let error = if chunk.get("error"@) is Some {
                chunk.member("error"@)
            } else {
                chunk
            };
            let told = first_under(error, seq!["message"@, "msg"@, "detail"@]);
            let kind = first_under(error, seq!["type"@, "code"@]);
            let words = match told {
                Some(JsonView::Text(s)) => s,
                _ => match error {
                    JsonView::Text(s) => s,
                    _ => "upstream chat SSE error"@,
                },
            };
            error_message(chunk) == match kind {
                Some(k) => words + " ("@ + json_text(k) + ")"@,
                None => words,
            }
        }),
{
    let a = seq!["message"@, "msg"@, "detail"@];
    let b = seq!["type"@, "code"@];
    assert(a.drop_first() =~= seq!["msg"@, "detail"@]);
    assert(a.drop_first().drop_first() =~= seq!["detail"@]);
    assert(b.drop_first() =~= seq!["code"@]);
    reveal_with_fuel(first_under, 4);
}

/// A chunk that reports a failure, or comes under the name of one, ends the stream with what it
/// tells, and changes nothing.
pub proof fn law_failures_end_the_stream(
    c: ConverterView,
    event: Option<Seq<char>>,
    chunk: JsonView,
)
    ensures
        event == Some("error"@) || is_failure(chunk) ==> chunk_step(c, event, chunk) == (
            c,
            Err::<Seq<Event>, Seq<char>>(error_message(chunk)),
        ),
{
    lemma_is_failure(chunk);
}

// ── chunks ────────────────────────────────────────────────────────────

/// A chunk that is no failure does what its first choice says: its delta is taken in, and the
/// answer ends where the choice gives a reason to. A chunk without choices does nothing.
pub proof fn law_chunks_do_what_they_say(
    c: ConverterView,
    event: Option<Seq<char>>,
    chunk: JsonView,
)
    requires
        event != Some("error"@),
        !is_failure(chunk),
        !c.stream.finished,
    ensures
        ({
            let step = chunk_step(c, event, chunk);
            let choices = chunk.items("choices"@);
            let delta = delta_step(c.stream, choices[0].member("delta"@));
            &&& choices.len() == 0 ==> step == (c, Ok::<Seq<Event>, Seq<char>>(Seq::empty()))
            &&& choices.len() > 0 ==> step.0.saw_valid_chunk
            &&& choices.len() > 0 && choices[0].text("finish_reason"@) is None ==> {
                &&& step.1 == Ok::<Seq<Event>, Seq<char>>(delta.1)
                &&& step.0.stream == delta.0
            }
            &&& choices.len() > 0 && choices[0].text("finish_reason"@) is Some && step.1 is Ok ==> {
                &&& delta.1.is_prefix_of(step.1->Ok_0)
                &&& step.1->Ok_0.len() > delta.1.len()
                &&& step.0.stream.finished
            }
            &&& choices.len() > 0 && choices[0].text("finish_reason"@) is Some && step.1 is Err
                ==> step.1->Err_0 == "upstream stream completed without assistant output"@
        }),
{
    lemma_is_failure(chunk);
    let choices = chunk.items("choices"@);
    if choices.len() > 0 && choices[0].text("finish_reason"@) is Some {
        let delta = delta_step(c.stream, choices[0].member("delta"@));
        lemma_delta_comes(c.stream, choices[0].member("delta"@));
        if has_output(delta.0) {
            let end = finish_step(delta.0, chunk);
            assert((delta.1 + end.1).take(delta.1.len() as int) =~= delta.1);
        }
    }
}

/// An answer has output once something has been said, thought or called, and not before.
pub proof fn law_output_is_what_was_said_or_called(
    id: Seq<char>,
    model: Seq<char>,
    tools: Option<JsonView>,
    deltas: Seq<JsonView>,
)
    ensures
        has_output(deltas_step(fresh(id, model, tools).stream, deltas).0) <==> {
            ||| pieces_in(deltas, "content"@).len() > 0
            ||| pieces_in(deltas, "reasoning_content"@).len() > 0
            ||| exists|index: usize| introduced(calls_of(deltas), index)
        },
{
    let s = deltas_step(fresh(id, model, tools).stream, deltas).0;
    law_the_answer_is_what_was_streamed(id, model, tools, deltas);
    lemma_texts_added(id, model, tools, deltas);
    assert forall|index: usize| introduced(calls_of(deltas), index) == stage_at(
        s.tools,
        index,
    ).added by {
        lemma_deltas_heard(id, model, tools, deltas, index);
    }
    lemma_deltas_heard(id, model, tools, deltas, 0);
    if exists|i: int| 0 <= i < s.tools.len() && (#[trigger] s.tools[i]).1.added {
        let i = choose|i: int| 0 <= i < s.tools.len() && (#[trigger] s.tools[i]).1.added;
        lemma_stage_of(s.tools, i);
        assert(introduced(calls_of(deltas), s.tools[i].0));
    }
    if exists|index: usize| introduced(calls_of(deltas), index) {
        let index = choose|index: usize| introduced(calls_of(deltas), index);
        assert(stage_at(s.tools, index).added);
        assert(has_stage(s.tools, index));
        assert(s.tools[slot(s.tools, index) as int].1.added);
    }
}

/// A stream that stops fails where nothing of it could be understood, and where there is no output;
/// otherwise the answer ends. Where it had ended before, nothing more is said.
pub proof fn law_streams_that_stop(c: ConverterView)
    ensures
        c.stream.finished ==> end_step(c) == (c, Ok::<Seq<Event>, Seq<char>>(Seq::empty())),
        !c.stream.finished && !c.saw_valid_chunk ==> end_step(c) == (
            c,
            Err::<Seq<Event>, Seq<char>>(
                "upstream stream contained no valid chat completion chunks"@,
            ),
        ),
        !c.stream.finished && c.saw_valid_chunk && !has_output(c.stream) ==> end_step(c) == (
            c,
            Err::<Seq<Event>, Seq<char>>("upstream stream completed without assistant output"@),
        ),
        !c.stream.finished && c.saw_valid_chunk && has_output(c.stream) ==> end_step(c).1 is Ok
            && end_step(c).0.stream.finished,
{
}

/// What stands in the lines of an event is a chunk where it is JSON, and a failure where it is not.
/// Blank lines and the mark of the end say nothing.
pub proof fn law_blocks_hold_chunks(c: ConverterView, block: BlockView)
    ensures
        is_blank(block.data) || trimmed(block.data) == "[DONE]"@ ==> block_step(c, block) == (
            c,
            Ok::<Seq<Event>, Seq<char>>(Seq::empty()),
        ),
        !is_blank(block.data) && trimmed(block.data) != "[DONE]"@ ==> (match json_parse(
            trimmed(block.data),
        ) {
            Ok(chunk) => block_step(c, block) == chunk_step(c, block.event, chunk),
            Err(e) => {
                &&& block_step(c, block).0 == c
                &&& block_step(c, block).1 is Err
                &&& block_step(c, block).1->Err_0 == "invalid chat SSE JSON: "@ + e + "; data="@
                    + clipped(trimmed(block.data), 400)
            },
        }),
{
}

// ── lines ─────────────────────────────────────────────────────────────

/// Of the lines of an event, the last name counts, and every data line adds its data. A line that
/// is neither adds nothing.
pub proof fn law_lines_of_an_event(lines: Seq<Seq<char>>, line: Seq<char>, value: Seq<char>)
    requires
        line.len() > 0,
        trimmed_end(line) == line,
    ensures
        line == "data:"@ + value ==> {
            &&& data_of(lines.push(line)) == data_of(lines).push(trimmed_start(value))
            &&& event_of(lines.push(line)) == event_of(lines)
        },
        line == "event:"@ + value ==> {
            &&& event_of(lines.push(line)) == Some(trimmed(value))
            &&& data_of(lines.push(line)) == data_of(lines)
        },
        line[0] != 'd' && line[0] != 'e' ==> {
            &&& data_of(lines.push(line)) == data_of(lines)
            &&& event_of(lines.push(line)) == event_of(lines)
        },
{
    reveal_strlit("data:");
    reveal_strlit("event:");
    assert(lines.push(line).drop_last() =~= lines);
    let d = "data:"@;
    let e = "event:"@;
    if occurs_at(line, d, 0) {
        assert(line.subrange(0, 5)[0] == line[0]);
        assert(line[0] == 'd');
    }
    if occurs_at(line, e, 0) {
        assert(line.subrange(0, 6)[0] == line[0]);
        assert(line[0] == 'e');
    }
    if line == d + value {
        assert(line[0] == d[0]);
        assert(line.subrange(0, 5) =~= d);
        assert(line.skip(5) =~= value);
    }
    if line == e + value {
        assert(line[0] == e[0]);
        assert(line.subrange(0, 6) =~= e);
        assert(line.skip(6) =~= value);
    }
}

/// An event is what its lines make it, and there is none without data. Its data lines are one text,
/// a line for each.
pub proof fn law_events_have_data(raw: Seq<char>)
    ensures
        parsed_block(raw) is Some <==> data_of(lines_of(raw)).len() > 0,
        parsed_block(raw) matches Some(block) ==> block.event == event_of(lines_of(raw))
            && block.data == joined(data_of(lines_of(raw)), "\n"@),
{
}

/// Nothing is taken off a stream before a blank line has come; then what stands before the first
/// one is taken off, and what stands after it is left. A line may end in either of two ways.
pub proof fn law_events_end_in_a_blank_line(text: Seq<char>, event: Seq<char>, rest: Seq<char>)
    ensures
        (forall|i: int| !occurs_at(unix_newlines(text), "\n\n"@, i)) ==> popped(text) == (
            None::<BlockView>,
            text,
        ),
        unix_newlines(text) == event + "\n\n"@ + rest && (forall|i: int|
            occurs_at(unix_newlines(text), "\n\n"@, i) ==> i >= event.len()) ==> popped(text) == (
            parsed_block(event),
            rest,
        ),
{
    reveal_strlit("\n\n");
    let s = unix_newlines(text);
    lemma_find_from(s, "\n\n"@, 0);
    if s == event + "\n\n"@ + rest {
        let n = event.len() as int;
        assert(s.subrange(n, n + 2) =~= "\n\n"@);
        assert(occurs_at(s, "\n\n"@, n));
        assert(s.take(n) =~= event);
        assert(s.skip(n + 2) =~= rest);
    }
}

/// A carriage return before a line feed makes no difference, and nothing else is changed.
pub proof fn law_lines_may_end_in_two_ways(a: Seq<char>, c: char)
    ensures
        unix_newlines(seq!['\r', '\n'] + a) == unix_newlines(seq!['\n'] + a),
        c != '\r' ==> unix_newlines(seq![c] + a) == seq![c] + unix_newlines(a),
{
    let x = seq!['\r', '\n'] + a;
    let y = seq!['\n'] + a;
    assert(x.skip(2) =~= a);
    assert(y.skip(1) =~= a);
    assert((seq![c] + a).skip(1) =~= a);
}

// ── events on the wire ────────────────────────────────────────────────

/// On the wire an event has its name, then its payload, which carries the name as its type.
pub proof fn law_events_carry_their_name(event: Event)
    requires
        event.payload is Object,
    ensures
        exists|payload: JsonView|
            {
                &&& event_text(event) == "event: "@ + event.name + "\ndata: "@ + #[trigger] json_text(
                    payload,
                ) + "\n\n"@
                &&& payload.text("type"@) == Some(event.name)
                &&& forall|key: Seq<char>|
                    key != "type"@ ==> #[trigger] payload.get(key) == event.payload.get(key)
            },
{
    let payload = event.payload.with_text("type"@, event.name);
    assert(event_text(event) == "event: "@ + event.name + "\ndata: "@ + json_text(payload)
        + "\n\n"@);
}

/// A failure is an event of its own that holds the words of the failure.
pub proof fn law_failures_are_events(message: Seq<char>)
    ensures
        exists|payload: JsonView|
            {
                &&& error_event(message) == "event: error\ndata: "@ + #[trigger] json_text(payload)
                    + "\n\n"@
                &&& payload.text("type"@) == Some("error"@)
                &&& payload.member("error"@).text("message"@) == Some(message)
            },
{
    reveal_strlit("type");
    reveal_strlit("error");
    assert("type"@.len() == 4 && "error"@.len() == 5);
    let payload = error_payload(message);
    assert(payload.get("error"@) is Some);
    assert(error_event(message) == "event: error\ndata: "@ + json_text(payload) + "\n\n"@);
}

// ── what is delivered ─────────────────────────────────────────────────

/// What is delivered is the text of every event that is owed, in order, or the failure that is.
pub proof fn law_what_is_owed_is_delivered(
    result: Result<Vec<String>, String>,
    events: Seq<Event>,
    failure: Seq<char>,
    i: int,
)
    ensures
        delivers(result, Ok(events)) ==> {
            &&& result is Ok
            &&& result->Ok_0@.len() == events.len()
            &&& 0 <= i < events.len() ==> result->Ok_0@[i]@ == event_text(events[i])
        },
        delivers(result, Err(failure)) ==> result is Err && result->Err_0@ == failure,
{
    if delivers(result, Ok(events)) {
        let out = result->Ok_0@;
        assert(texts(out).len() == out.len());
        assert(rendered(events).len() == events.len());
        if 0 <= i < events.len() {
            assert(texts(out)[i] == out[i]@);
            assert(rendered(events)[i] == event_text(events[i]));
        }
    }
}

/// A stream is taken in event by event: each does what it does, one after the other, until one
/// fails or ends the answer. What has no blank line after it yet is left for later.
pub proof fn law_streams_are_taken_in_event_by_event(c: ConverterView, text: Seq<char>)
    ensures
        ({
            let fed = feed_step(c, text);
            let rest = popped(text).1;
            match popped(text).0 {
                None => fed == (c, rest, Ok::<Seq<Event>, Seq<char>>(Seq::empty())),
                Some(block) => {
                    let first = block_step(c, block);
                    let later = feed_step(first.0, rest);
                    &&& first.1 is Err ==> fed.2 == first.1 && fed.0 == first.0
                    &&& first.1 is Ok && first.0.stream.finished ==> fed == (
                        first.0,
                        rest,
                        first.1,
                    )
                    &&& first.1 is Ok && !first.0.stream.finished ==> {
                        &&& fed.0 == later.0
                        &&& fed.1 == later.1
                        &&& later.2 is Err ==> fed.2 == later.2
                        &&& later.2 is Ok ==> fed.2 == Ok::<Seq<Event>, Seq<char>>(
                            first.1->Ok_0 + later.2->Ok_0,
                        )
                    }
                },
            }
        }),
{
}

/// The events of a text are those in its pieces, in order; a piece without data gives none.
pub proof fn law_pieces_give_events(raws: Seq<Seq<char>>, raw: Seq<char>)
    ensures
        blocks_in(Seq::empty()) == Seq::<BlockView>::empty(),
        parsed_block(raw) is Some ==> blocks_in(raws.push(raw)) == blocks_in(raws).push(
            parsed_block(raw)->Some_0,
        ),
        parsed_block(raw) is None ==> blocks_in(raws.push(raw)) == blocks_in(raws),
{
    assert(raws.push(raw).drop_last() =~= raws);
}

/// The pieces of a text make up the text, with a blank line between each two.
pub proof fn law_events_are_separated_by_blank_lines(text: Seq<char>)
    ensures
        blocks_of(text) == blocks_in(pieces_of(unix_newlines(text), "\n\n"@)),
        pieces_of(text, "\n\n"@).len() > 0,
        joined(pieces_of(text, "\n\n"@), "\n\n"@) == text,
    decreases text.len(),
{
    reveal_strlit("\n\n");
    let sep = "\n\n"@;
    lemma_find_from(text, sep, 0);
    if let Some(i) = find_from(text, sep, 0) {
        let rest = text.skip(i + 2);
        law_events_are_separated_by_blank_lines(rest);
        let pieces = pieces_of(rest, sep);
        lemma_joined_first(text.take(i), pieces, sep);
        assert(text =~= text.take(i) + text.subrange(i, i + 2) + rest);
    }
}

proof fn lemma_joined_first(first: Seq<char>, parts: Seq<Seq<char>>, sep: Seq<char>)
    requires
        parts.len() > 0,
    ensures
        joined(seq![first] + parts, sep) == first + sep + joined(parts, sep),
    decreases parts.len(),
{
    let all = seq![first] + parts;
    assert(all.drop_last() =~= seq![first] + parts.drop_last());
    assert(all.last() == parts.last());
    if parts.len() == 1 {
        assert(all.drop_last() =~= seq![first]);
        assert(joined(seq![first], sep) == first);
        assert(joined(all, sep) == joined(all.drop_last(), sep) + sep + all.last());
        assert(joined(parts, sep) == parts[0]);
    } else {
        lemma_joined_first(first, parts.drop_last(), sep);
        assert(first + sep + joined(parts.drop_last(), sep) + sep + parts.last() =~= first + sep + (
        joined(parts.drop_last(), sep) + sep + parts.last()));
    }
}

} // verus!

//! What holds of the end of every streamed answer: it says what was streamed.
use vstd::prelude::*;

use crate::codec::json_parse;
use crate::json::{empty_object, JsonView};
use crate::proxy::converter::{block_step, blocks_step, chunk_step, converted, end_step, feed_step};
use crate::proxy::converter::{fresh, opening, ConverterView};
use crate::proxy::reply_laws::{is_input, is_message, is_reasoning, law_counts_are_reported};
use crate::proxy::reply_laws::{law_names_are_not_lost, lemma_answer_words, lemma_is_input};
use crate::proxy::reply_laws::{lemma_text_items, reports_counts, tells_of_custom_call};
use crate::proxy::reply_laws::{tells_of_function_call, tells_of_search};
use crate::proxy::request::chat_request;
use crate::proxy::request_laws::law_declared_custom_tools_come_back;
use crate::proxy::run_laws::{calls_of, fragments, introduced, lemma_call_shown, lemma_deltas_heard};
use crate::proxy::run_laws::{lemma_text_item_types, opens_type};
use crate::proxy::sse::{blocks_of, lemma_popped_shrinks, popped, BlockView, Event};
use crate::proxy::stage::{has_stage, lemma_put_stage_all, ordered, slot, stage_at, TextStageView};
use crate::proxy::stage::ToolStageView;
use crate::proxy::stream::{call_arguments, call_index, call_item, call_items, call_step};
use crate::proxy::stream::{calls_closing, calls_step, completion, content_step, delta_step};
use crate::proxy::stream::{finish_step, heard, item_event, message_item, opened_stage};
use crate::proxy::stream::{output_items, output_part, part_event, reasoning_closing};
use crate::proxy::stream::{reasoning_item, reasoning_opened, reasoning_step, response};
use crate::proxy::stream::{summary_part, text_closing, text_opened, to_be_opened, usage_report};
use crate::proxy::stream::{with_reasoning, StreamView};
use crate::proxy::stream_laws::{deltas_step, grows_by, handed_on, has_index};
use crate::proxy::stream_laws::{law_a_delta_hands_on_what_it_adds, lemma_call_opens};
use crate::proxy::stream_laws::{lemma_finish_step, lemma_handed_on_add, lemma_item_index, opens};
use crate::proxy::stream_laws::{opens_first, reasoning_delta, text_delta};
use crate::proxy::toolset::defined_name;
use crate::proxy::toolset_laws::told_name;
use crate::proxy::usage::usage_of;
use crate::text::{decimal, is_blank, substance, trimmed};

verus! {

/// The names of the events are all different.
proof fn lemma_event_words()
    ensures
        "response.output_item.added"@ != "response.reasoning_summary_part.added"@,
        "response.output_item.added"@ != "response.content_part.added"@,
        "response.output_item.added"@ != "response.output_text.delta"@,
        "response.output_item.added"@ != "response.reasoning_summary_text.delta"@,
        "response.output_item.added"@ != "response.function_call_arguments.delta"@,
        "response.output_item.added"@ != "response.output_item.done"@,
        "response.output_item.added"@ != "response.reasoning_summary_text.done"@,
        "response.output_item.added"@ != "response.reasoning_summary_part.done"@,
        "response.output_item.added"@ != "response.output_text.done"@,
        "response.output_item.added"@ != "response.content_part.done"@,
        "response.output_item.added"@ != "response.completed"@,
        "response.reasoning_summary_part.added"@ != "response.content_part.added"@,
        "response.reasoning_summary_part.added"@ != "response.output_text.delta"@,
        "response.reasoning_summary_part.added"@ != "response.reasoning_summary_text.delta"@,
        "response.reasoning_summary_part.added"@ != "response.function_call_arguments.delta"@,
        "response.reasoning_summary_part.added"@ != "response.output_item.done"@,
        "response.reasoning_summary_part.added"@ != "response.reasoning_summary_text.done"@,
        "response.reasoning_summary_part.added"@ != "response.reasoning_summary_part.done"@,
        "response.reasoning_summary_part.added"@ != "response.output_text.done"@,
        "response.reasoning_summary_part.added"@ != "response.content_part.done"@,
        "response.reasoning_summary_part.added"@ != "response.completed"@,
        "response.content_part.added"@ != "response.output_text.delta"@,
        "response.content_part.added"@ != "response.reasoning_summary_text.delta"@,
        "response.content_part.added"@ != "response.function_call_arguments.delta"@,
        "response.content_part.added"@ != "response.output_item.done"@,
        "response.content_part.added"@ != "response.reasoning_summary_text.done"@,
        "response.content_part.added"@ != "response.reasoning_summary_part.done"@,
        "response.content_part.added"@ != "response.output_text.done"@,
        "response.content_part.added"@ != "response.content_part.done"@,
        "response.content_part.added"@ != "response.completed"@,
        "response.output_text.delta"@ != "response.reasoning_summary_text.delta"@,
        "response.output_text.delta"@ != "response.function_call_arguments.delta"@,
        "response.output_text.delta"@ != "response.output_item.done"@,
        "response.output_text.delta"@ != "response.reasoning_summary_text.done"@,
        "response.output_text.delta"@ != "response.reasoning_summary_part.done"@,
        "response.output_text.delta"@ != "response.output_text.done"@,
        "response.output_text.delta"@ != "response.content_part.done"@,
        "response.output_text.delta"@ != "response.completed"@,
        "response.reasoning_summary_text.delta"@ != "response.function_call_arguments.delta"@,
        "response.reasoning_summary_text.delta"@ != "response.output_item.done"@,
        "response.reasoning_summary_text.delta"@ != "response.reasoning_summary_text.done"@,
        "response.reasoning_summary_text.delta"@ != "response.reasoning_summary_part.done"@,
        "response.reasoning_summary_text.delta"@ != "response.output_text.done"@,
        "response.reasoning_summary_text.delta"@ != "response.content_part.done"@,
        "response.reasoning_summary_text.delta"@ != "response.completed"@,
        "response.function_call_arguments.delta"@ != "response.output_item.done"@,
        "response.function_call_arguments.delta"@ != "response.reasoning_summary_text.done"@,
        "response.function_call_arguments.delta"@ != "response.reasoning_summary_part.done"@,
        "response.function_call_arguments.delta"@ != "response.output_text.done"@,
        "response.function_call_arguments.delta"@ != "response.content_part.done"@,
        "response.function_call_arguments.delta"@ != "response.completed"@,
        "response.output_item.done"@ != "response.reasoning_summary_text.done"@,
        "response.output_item.done"@ != "response.reasoning_summary_part.done"@,
        "response.output_item.done"@ != "response.output_text.done"@,
        "response.output_item.done"@ != "response.content_part.done"@,
        "response.output_item.done"@ != "response.completed"@,
        "response.reasoning_summary_text.done"@ != "response.reasoning_summary_part.done"@,
        "response.reasoning_summary_text.done"@ != "response.output_text.done"@,
        "response.reasoning_summary_text.done"@ != "response.content_part.done"@,
        "response.reasoning_summary_text.done"@ != "response.completed"@,
        "response.reasoning_summary_part.done"@ != "response.output_text.done"@,
        "response.reasoning_summary_part.done"@ != "response.content_part.done"@,
        "response.reasoning_summary_part.done"@ != "response.completed"@,
        "response.output_text.done"@ != "response.content_part.done"@,
        "response.output_text.done"@ != "response.completed"@,
        "response.content_part.done"@ != "response.completed"@,
{
    reveal_strlit("response.output_item.added");
    reveal_strlit("response.reasoning_summary_part.added");
    reveal_strlit("response.content_part.added");
    reveal_strlit("response.output_text.delta");
    reveal_strlit("response.reasoning_summary_text.delta");
    reveal_strlit("response.function_call_arguments.delta");
    reveal_strlit("response.output_item.done");
    reveal_strlit("response.reasoning_summary_text.done");
    reveal_strlit("response.reasoning_summary_part.done");
    reveal_strlit("response.output_text.done");
    reveal_strlit("response.content_part.done");
    reveal_strlit("response.completed");
    assert("response.output_item.added"@.len() == 26);
    assert("response.reasoning_summary_part.added"@.len() == 37);
    assert("response.content_part.added"@.len() == 27);
    assert("response.output_text.delta"@.len() == 26);
    assert("response.reasoning_summary_text.delta"@.len() == 37);
    assert("response.function_call_arguments.delta"@.len() == 38);
    assert("response.output_item.done"@.len() == 25);
    assert("response.reasoning_summary_text.done"@.len() == 36);
    assert("response.reasoning_summary_part.done"@.len() == 36);
    assert("response.output_text.done"@.len() == 25);
    assert("response.content_part.done"@.len() == 26);
    assert("response.completed"@.len() == 18);
    assert("response.output_item.added"@[16] != "response.output_text.delta"@[16]);
    assert("response.output_item.added"@[9] != "response.content_part.done"@[9]);
    assert("response.reasoning_summary_part.added"@[27] != "response.reasoning_summary_text.delta"@[27]);
    assert("response.output_text.delta"@[9] != "response.content_part.done"@[9]);
    assert("response.output_item.done"@[16] != "response.output_text.done"@[16]);
    assert("response.reasoning_summary_text.done"@[27] != "response.reasoning_summary_part.done"@[27]);
}

/// The words of the payloads are all different.
proof fn lemma_payload_words()
    ensures
        "item_id"@ != "output_index"@,
        "item_id"@ != "summary_index"@,
        "item_id"@ != "content_index"@,
        "item_id"@ != "delta"@,
        "item_id"@ != "text"@,
        "item_id"@ != "part"@,
        "item_id"@ != "item"@,
        "item_id"@ != "response"@,
        "output_index"@ != "summary_index"@,
        "output_index"@ != "content_index"@,
        "output_index"@ != "delta"@,
        "output_index"@ != "text"@,
        "output_index"@ != "part"@,
        "output_index"@ != "item"@,
        "output_index"@ != "response"@,
        "summary_index"@ != "content_index"@,
        "summary_index"@ != "delta"@,
        "summary_index"@ != "text"@,
        "summary_index"@ != "part"@,
        "summary_index"@ != "item"@,
        "summary_index"@ != "response"@,
        "content_index"@ != "delta"@,
        "content_index"@ != "text"@,
        "content_index"@ != "part"@,
        "content_index"@ != "item"@,
        "content_index"@ != "response"@,
        "delta"@ != "text"@,
        "delta"@ != "part"@,
        "delta"@ != "item"@,
        "delta"@ != "response"@,
        "text"@ != "part"@,
        "text"@ != "item"@,
        "text"@ != "response"@,
        "part"@ != "item"@,
        "part"@ != "response"@,
        "item"@ != "response"@,
{
    reveal_strlit("item_id");
    reveal_strlit("output_index");
    reveal_strlit("summary_index");
    reveal_strlit("content_index");
    reveal_strlit("delta");
    reveal_strlit("text");
    reveal_strlit("part");
    reveal_strlit("item");
    reveal_strlit("response");
    assert("item_id"@.len() == 7);
    assert("output_index"@.len() == 12);
    assert("summary_index"@.len() == 13);
    assert("content_index"@.len() == 13);
    assert("delta"@.len() == 5);
    assert("text"@.len() == 4);
    assert("part"@.len() == 4);
    assert("item"@.len() == 4);
    assert("response"@.len() == 8);
    assert("summary_index"@[0] != "content_index"@[0]);
    assert("text"@[0] != "part"@[0]);
    assert("text"@[0] != "item"@[0]);
    assert("part"@[0] != "item"@[0]);
}

// ── what an end is ────────────────────────────────────────────────────

/// The item that an event is about.
pub open spec fn item_of(event: Event) -> JsonView {
    event.payload.member("item"@)
}

/// Whether an event hands over a finished item of this type.
pub open spec fn closes_type(event: Event, kind: Seq<char>) -> bool {
    event.name == "response.output_item.done"@ && item_of(event).text("type"@) == Some(kind)
}

/// Whether an event hands over the finished answer.
pub open spec fn completes(event: Event) -> bool {
    event.name == "response.completed"@
}

/// Whether two events are about the same output index.
pub open spec fn same_index(a: Event, b: Event) -> bool {
    a.payload.get("output_index"@) is Some && a.payload.get("output_index"@) == b.payload.get(
        "output_index"@,
    )
}

/// Whether exactly one of the events hands over the finished message: it says this text, under the
/// output index under which the message was opened and its pieces were handed on.
pub open spec fn closes_message(events: Seq<Event>, p: int, text: Seq<char>) -> bool {
    &&& 0 <= p < events.len()
    &&& closes_type(events[p], "message"@)
    &&& is_message(item_of(events[p]), text)
    &&& item_of(events[p]).text("status"@) == Some("completed"@)
    &&& forall|q: int|
        0 <= q < events.len() && closes_type(#[trigger] events[q], "message"@) ==> q == p
    &&& forall|q: int|
        0 <= q < events.len() && (opens_type(#[trigger] events[q], "message"@) || events[q].name
            == text_delta()) ==> same_index(events[q], events[p])
}

/// Whether exactly one of the events hands over the finished reasoning: it says this text, under
/// the output index under which the reasoning was opened and its pieces were handed on.
pub open spec fn closes_reasoning(events: Seq<Event>, p: int, text: Seq<char>) -> bool {
    &&& 0 <= p < events.len()
    &&& closes_type(events[p], "reasoning"@)
    &&& is_reasoning(item_of(events[p]), text)
    &&& item_of(events[p]).text("status"@) == Some("completed"@)
    &&& forall|q: int|
        0 <= q < events.len() && closes_type(#[trigger] events[q], "reasoning"@) ==> q == p
    &&& forall|q: int|
        0 <= q < events.len() && (opens_type(#[trigger] events[q], "reasoning"@) || events[q].name
            == reasoning_delta()) ==> same_index(events[q], events[p])
}

/// Whether an event hands over a finished answer of this id and model, whose output begins with
/// this reasoning and this message, each where there is any.
pub open spec fn completes_with(
    event: Event,
    id: Seq<char>,
    model: Seq<char>,
    thought: Seq<char>,
    spoken: Seq<char>,
) -> bool {
    let r = event.payload.member("response"@);
    let out = r.items("output"@);
    let n: int = if thought.len() > 0 {
        1
    } else {
        0
    };
    &&& completes(event)
    &&& r.text("id"@) == Some(id)
    &&& r.text("model"@) == Some(model)
    &&& r.text("object"@) == Some("response"@)
    &&& r.text("status"@) == Some("completed"@)
    &&& thought.len() > 0 ==> out.len() > 0 && is_reasoning(out[0], thought)
    &&& spoken.len() > 0 ==> out.len() > n && is_message(out[n], spoken)
}

/// Whether the events of a whole answer end with what they handed on on the way: the message and
/// the reasoning are finished with the pieces that were streamed, and the last event hands over the
/// answer that holds them.
pub open spec fn tells_whole(events: Seq<Event>, id: Seq<char>, model: Seq<char>) -> bool {
    let spoken = handed_on(events, text_delta());
    let thought = handed_on(events, reasoning_delta());
    &&& events.len() > 0
    &&& spoken.len() > 0 ==> exists|p: int| closes_message(events, p, spoken)
    &&& spoken.len() == 0 ==> forall|q: int|
        0 <= q < events.len() ==> !closes_type(#[trigger] events[q], "message"@)
    &&& thought.len() > 0 ==> exists|p: int| closes_reasoning(events, p, thought)
    &&& thought.len() == 0 ==> forall|q: int|
        0 <= q < events.len() ==> !closes_type(#[trigger] events[q], "reasoning"@)
    &&& completes_with(events.last(), id, model, thought, spoken)
    &&& forall|q: int| 0 <= q < events.len() - 1 ==> !completes(#[trigger] events[q])
}

// ── what a step adds ──────────────────────────────────────────────────

/// Whether the pieces of the message in these events belong to `t`'s message, and it is opened by
/// them only where `s` had not opened it.
pub open spec fn text_belongs(s: StreamView, t: StreamView, more: Seq<Event>) -> bool {
    &&& (s.text.added <==> s.text.text.len() > 0) ==> (t.text.added <==> t.text.text.len() > 0)
    &&& s.text.added ==> t.text.added && t.text.output_index == s.text.output_index
    &&& forall|q: int|
        0 <= q < more.len() && opens_type(#[trigger] more[q], "message"@) ==> !s.text.added
            && t.text.added && has_index(more[q], t.text.output_index as int)
    &&& forall|q: int|
        0 <= q < more.len() && (#[trigger] more[q]).name == text_delta() ==> t.text.added
            && has_index(more[q], t.text.output_index as int)
}

/// The same for the reasoning.
pub open spec fn reasoning_belongs(s: StreamView, t: StreamView, more: Seq<Event>) -> bool {
    &&& (s.reasoning.added <==> s.reasoning.text.len() > 0) ==> (t.reasoning.added
        <==> t.reasoning.text.len() > 0)
    &&& s.reasoning.added ==> t.reasoning.added && t.reasoning.output_index
        == s.reasoning.output_index
    &&& forall|q: int|
        0 <= q < more.len() && opens_type(#[trigger] more[q], "reasoning"@) ==> !s.reasoning.added
            && t.reasoning.added && has_index(more[q], t.reasoning.output_index as int)
    &&& forall|q: int|
        0 <= q < more.len() && (#[trigger] more[q]).name == reasoning_delta() ==> t.reasoning.added
            && has_index(more[q], t.reasoning.output_index as int)
}

/// Whether events close nothing.
pub open spec fn closes_nothing(events: Seq<Event>) -> bool {
    forall|q: int|
        0 <= q < events.len() ==> (#[trigger] events[q]).name != "response.output_item.done"@
            && !completes(events[q])
}

/// Whether `t` comes of `s` by these events.
pub open spec fn comes_of(s: StreamView, t: StreamView, more: Seq<Event>) -> bool {
    &&& text_belongs(s, t, more)
    &&& reasoning_belongs(s, t, more)
    &&& closes_nothing(more)
    &&& t.id == s.id
    &&& t.model == s.model
    &&& t.custom_tools == s.custom_tools
    &&& t.finished == s.finished
}

proof fn lemma_part_index(
    name: Seq<char>,
    stage: TextStageView,
    part: Seq<char>,
    key: Seq<char>,
    value: JsonView,
)
    requires
        part == "summary_index"@ || part == "content_index"@,
        key == "delta"@ || key == "text"@ || key == "part"@,
    ensures
        has_index(part_event(name, stage, part, key, value), stage.output_index as int),
        part_event(name, stage, part, key, value).payload.get(key) == Some(value),
        part_event(name, stage, part, key, value).payload.text("item_id"@) == Some(stage.item_id),
{
    lemma_payload_words();
}

proof fn lemma_reasoning_comes(s: StreamView, piece: Seq<char>)
    requires
        piece.len() > 0,
    ensures
        comes_of(s, reasoning_step(s, piece).0, reasoning_step(s, piece).1),
{
    lemma_event_words();
    lemma_payload_words();
    let step = reasoning_step(s, piece);
    let stage = step.0.reasoning;
    let opened = reasoning_opened(s).reasoning;
    let item = reasoning_item(opened.item_id, JsonView::Array(Seq::empty())).with_text(
        "status"@,
        "in_progress"@,
    );
    lemma_text_item_types(opened.item_id);
    lemma_item_index("response.output_item.added"@, opened.output_index, item);
    lemma_part_index(
        reasoning_delta(),
        stage,
        "summary_index"@,
        "delta"@,
        JsonView::Text(piece),
    );
    let more = step.1;
    let last = more.len() - 1;
    assert(more[last] == part_event(
        reasoning_delta(),
        stage,
        "summary_index"@,
        "delta"@,
        JsonView::Text(piece),
    ));
    if !s.reasoning.added {
        assert(more[0] == item_event("response.output_item.added"@, opened.output_index, item));
        assert(more[1].name == "response.reasoning_summary_part.added"@);
        assert(more.len() == 3);
    } else {
        assert(more.len() == 1);
    }
}

proof fn lemma_content_comes(s: StreamView, piece: Seq<char>)
    requires
        piece.len() > 0,
    ensures
        comes_of(s, content_step(s, piece).0, content_step(s, piece).1),
{
    lemma_event_words();
    lemma_payload_words();
    let step = content_step(s, piece);
    let stage = step.0.text;
    let opened = text_opened(s).text;
    let item = message_item(opened.item_id, JsonView::Array(Seq::empty())).with_text(
        "status"@,
        "in_progress"@,
    );
    lemma_text_item_types(opened.item_id);
    lemma_item_index("response.output_item.added"@, opened.output_index, item);
    lemma_part_index(text_delta(), stage, "content_index"@, "delta"@, JsonView::Text(piece));
    let more = step.1;
    let last = more.len() - 1;
    assert(more[last] == part_event(
        text_delta(),
        stage,
        "content_index"@,
        "delta"@,
        JsonView::Text(piece),
    ));
    if !s.text.added {
        assert(more[0] == item_event("response.output_item.added"@, opened.output_index, item));
        assert(more[1].name == "response.content_part.added"@);
        assert(more.len() == 3);
    } else {
        assert(more.len() == 1);
    }
}

proof fn lemma_call_comes(s: StreamView, call: JsonView, reasoning: Option<Seq<char>>)
    ensures
        comes_of(s, call_step(s, call, reasoning).0, call_step(s, call, reasoning).1),
{
    lemma_event_words();
    lemma_call_opens(s, call, reasoning);
    lemma_call_shown(s, call, reasoning);
    let step = call_step(s, call, reasoning);
    let more = step.1;
    assert forall|q: int| 0 <= q < more.len() implies (#[trigger] more[q]).name
        == "response.output_item.added"@ || more[q].name
        == "response.function_call_arguments.delta"@ by {}
    assert forall|q: int| 0 <= q < more.len() implies !opens_type(
        #[trigger] more[q],
        "message"@,
    ) && !opens_type(more[q], "reasoning"@) by {
        if opens(more[q]) {
            assert(opens_first(more, s.output_index));
            assert(q == 0);
        }
    }
}

proof fn lemma_comes_join(
    s: StreamView,
    t: StreamView,
    u: StreamView,
    a: Seq<Event>,
    b: Seq<Event>,
)
    requires
        comes_of(s, t, a),
        comes_of(t, u, b),
    ensures
        comes_of(s, u, a + b),
{
    let both = a + b;
    let n = a.len() as int;
    assert forall|q: int| 0 <= q < both.len() implies #[trigger] both[q] == if q < n {
        a[q]
    } else {
        b[q - n]
    } by {}
    assert forall|q: int| 0 <= q < both.len() && opens_type(#[trigger] both[q], "message"@) implies !s
        .text.added && u.text.added && has_index(both[q], u.text.output_index as int) by {
        if q < n {
            assert(opens_type(a[q], "message"@));
        } else {
            assert(opens_type(b[q - n], "message"@));
        }
    }
    assert forall|q: int|
        0 <= q < both.len() && opens_type(#[trigger] both[q], "reasoning"@) implies !s.reasoning.added
        && u.reasoning.added && has_index(both[q], u.reasoning.output_index as int) by {
        if q < n {
            assert(opens_type(a[q], "reasoning"@));
        } else {
            assert(opens_type(b[q - n], "reasoning"@));
        }
    }
    assert forall|q: int| 0 <= q < both.len() && (#[trigger] both[q]).name == text_delta() implies u
        .text.added && has_index(both[q], u.text.output_index as int) by {
        if q < n {
            assert(a[q].name == text_delta());
        } else {
            assert(b[q - n].name == text_delta());
        }
    }
    assert forall|q: int|
        0 <= q < both.len() && (#[trigger] both[q]).name == reasoning_delta() implies u.reasoning.added
        && has_index(both[q], u.reasoning.output_index as int) by {
        if q < n {
            assert(a[q].name == reasoning_delta());
        } else {
            assert(b[q - n].name == reasoning_delta());
        }
    }
    assert forall|q: int| 0 <= q < both.len() implies (#[trigger] both[q]).name
        != "response.output_item.done"@ && !completes(both[q]) by {
        if q < n {
            assert(!completes(a[q]));
        } else {
            assert(!completes(b[q - n]));
        }
    }
}

proof fn lemma_comes_of_itself(s: StreamView)
    ensures
        comes_of(s, s, Seq::empty()),
{
}

proof fn lemma_calls_come(s: StreamView, calls: Seq<JsonView>, reasoning: Option<Seq<char>>)
    ensures
        comes_of(s, calls_step(s, calls, reasoning).0, calls_step(s, calls, reasoning).1),
    decreases calls.len(),
{
    if calls.len() == 0 {
        lemma_comes_of_itself(s);
    } else {
        let before = calls_step(s, calls.drop_last(), reasoning);
        let last = call_step(before.0, calls.last(), reasoning);
        lemma_calls_come(s, calls.drop_last(), reasoning);
        lemma_call_comes(before.0, calls.last(), reasoning);
        lemma_comes_join(s, before.0, last.0, before.1, last.1);
    }
}

pub proof fn lemma_delta_comes(s: StreamView, delta: JsonView)
    ensures
        comes_of(s, delta_step(s, delta).0, delta_step(s, delta).1),
{
    let reasoned = match delta.full_text("reasoning_content"@) {
        Some(piece) => reasoning_step(s, piece),
        None => (s, Seq::empty()),
    };
    let spoken = match delta.full_text("content"@) {
        Some(piece) => content_step(reasoned.0, piece),
        None => (reasoned.0, Seq::empty()),
    };
    let thought = substance(spoken.0.reasoning.text);
    let called = calls_step(spoken.0, delta.items("tool_calls"@), thought);
    match delta.full_text("reasoning_content"@) {
        Some(piece) => lemma_reasoning_comes(s, piece),
        None => lemma_comes_of_itself(s),
    }
    match delta.full_text("content"@) {
        Some(piece) => lemma_content_comes(reasoned.0, piece),
        None => lemma_comes_of_itself(reasoned.0),
    }
    lemma_calls_come(spoken.0, delta.items("tool_calls"@), thought);
    lemma_comes_join(s, reasoned.0, spoken.0, reasoned.1, spoken.1);
    lemma_comes_join(s, spoken.0, called.0, reasoned.1 + spoken.1, called.1);
}

// ── what the events so far tell ───────────────────────────────────────

/// Whether the events that led to a state say what it holds.
pub open spec fn faithful(s: StreamView, events: Seq<Event>) -> bool {
    &&& s.text.text == handed_on(events, text_delta())
    &&& s.reasoning.text == handed_on(events, reasoning_delta())
    &&& s.text.added <==> s.text.text.len() > 0
    &&& s.reasoning.added <==> s.reasoning.text.len() > 0
    &&& forall|q: int|
        0 <= q < events.len() && (opens_type(#[trigger] events[q], "message"@) || events[q].name
            == text_delta()) ==> s.text.added && has_index(events[q], s.text.output_index as int)
    &&& forall|q: int|
        0 <= q < events.len() && (opens_type(#[trigger] events[q], "reasoning"@) || events[q].name
            == reasoning_delta()) ==> s.reasoning.added && has_index(
            events[q],
            s.reasoning.output_index as int,
        )
    &&& closes_nothing(events)
    &&& !s.finished
}

proof fn lemma_faithful_on(s: StreamView, t: StreamView, past: Seq<Event>, more: Seq<Event>)
    requires
        faithful(s, past),
        comes_of(s, t, more),
        grows_by(s, t, more),
    ensures
        faithful(t, past + more),
{
    let both = past + more;
    let n = past.len() as int;
    lemma_handed_on_add(past, more, text_delta());
    lemma_handed_on_add(past, more, reasoning_delta());
    assert forall|q: int|
        0 <= q < both.len() && (opens_type(#[trigger] both[q], "message"@) || both[q].name
            == text_delta()) implies t.text.added && has_index(both[q], t.text.output_index as int) by {
        if q < n {
            assert(both[q] == past[q]);
        } else {
            assert(both[q] == more[q - n]);
        }
    }
    assert forall|q: int|
        0 <= q < both.len() && (opens_type(#[trigger] both[q], "reasoning"@) || both[q].name
            == reasoning_delta()) implies t.reasoning.added && has_index(
        both[q],
        t.reasoning.output_index as int,
    ) by {
        if q < n {
            assert(both[q] == past[q]);
        } else {
            assert(both[q] == more[q - n]);
        }
    }
    assert forall|q: int| 0 <= q < both.len() implies (#[trigger] both[q]).name
        != "response.output_item.done"@ && !completes(both[q]) by {
        if q < n {
            assert(both[q] == past[q]);
        } else {
            assert(both[q] == more[q - n]);
        }
    }
}

proof fn lemma_delta_faithful(s: StreamView, past: Seq<Event>, delta: JsonView)
    requires
        faithful(s, past),
    ensures
        faithful(delta_step(s, delta).0, past + delta_step(s, delta).1),
        delta_step(s, delta).0.id == s.id,
        delta_step(s, delta).0.model == s.model,
{
    let step = delta_step(s, delta);
    lemma_delta_comes(s, delta);
    law_a_delta_hands_on_what_it_adds(s, delta);
    lemma_faithful_on(s, step.0, past, step.1);
}

// ── the end ───────────────────────────────────────────────────────────

/// The type of the item of a tool call is that of no text.
proof fn lemma_call_type(stage: ToolStageView, status: Seq<char>, custom_tools: Set<Seq<char>>)
    ensures
        call_item(stage, status, None, custom_tools).text("type"@) != Some("message"@),
        call_item(stage, status, None, custom_tools).text("type"@) != Some("reasoning"@),
{
    lemma_answer_words();
}

/// The end of an answer is made up of the reasoning, the message, the tool calls and the answer, in
/// this order, and of nothing else. The items that end are those that were opened.
pub proof fn law_an_answer_ends_in_order(s: StreamView, chunk: JsonView)
    requires
        !s.finished,
    ensures
        ({
            let end = finish_step(s, chunk).1;
            let r: int = if s.reasoning.added {
                3
            } else {
                0
            };
            let m: int = if s.text.added {
                3
            } else {
                0
            };
            &&& end.len() == r + m + s.tools.len() + 1
            &&& s.reasoning.added ==> closes_type(end[2], "reasoning"@) && is_reasoning(
                item_of(end[2]),
                s.reasoning.text,
            ) && item_of(end[2]).text("id"@) == Some(s.reasoning.item_id) && item_of(end[2]).text(
                "status"@,
            ) == Some("completed"@) && has_index(
                end[2],
                s.reasoning.output_index as int,
            )
            &&& s.text.added ==> closes_type(end[r + 2], "message"@) && is_message(
                item_of(end[r + 2]),
                s.text.text,
            ) && item_of(end[r + 2]).text("id"@) == Some(s.text.item_id) && item_of(end[r + 2]).text(
                "status"@,
            ) == Some("completed"@) && has_index(
                end[r + 2],
                s.text.output_index as int,
            )
            &&& forall|q: int|
                0 <= q < end.len() ==> {
                    &&& closes_type(#[trigger] end[q], "reasoning"@) ==> s.reasoning.added && q == 2
                    &&& closes_type(end[q], "message"@) ==> s.text.added && q == r + 2
                    &&& completes(end[q]) ==> q == end.len() - 1
                    &&& !opens(end[q]) && end[q].name != text_delta() && end[q].name
                        != reasoning_delta()
                }
            &&& end.last() == completion(s, usage_of(chunk.get("usage"@)))
        }),
{
    lemma_event_words();
    lemma_answer_words();
    let end = finish_step(s, chunk).1;
    let a = reasoning_closing(s.reasoning);
    let b = text_closing(s.text);
    let c = calls_closing(s.tools, s.custom_tools);
    assert(end.drop_last() =~= a + b + c);
    let done = "response.output_item.done"@;
    let thought = reasoning_item(
        s.reasoning.item_id,
        JsonView::Array(seq![summary_part(s.reasoning.text)]),
    ).with_text("status"@, "completed"@);
    let spoken = message_item(
        s.text.item_id,
        JsonView::Array(seq![output_part(s.text.text)]),
    ).with_text("status"@, "completed"@);
    lemma_text_items(s.reasoning.item_id, s.reasoning.text);
    lemma_text_items(s.text.item_id, s.text.text);
    lemma_item_index(done, s.reasoning.output_index, thought);
    lemma_item_index(done, s.text.output_index, spoken);
    if s.reasoning.added {
        assert(end[0] == a[0] && end[1] == a[1] && end[2] == a[2]);
        assert(a[2] == item_event(done, s.reasoning.output_index, thought));
    }
    if s.text.added {
        let n = a.len() as int;
        assert(end[n] == b[0] && end[n + 1] == b[1] && end[n + 2] == b[2]);
        assert(b[2] == item_event(done, s.text.output_index, spoken));
    }
    assert forall|q: int| 0 <= q < end.len() implies {
        &&& closes_type(#[trigger] end[q], "reasoning"@) ==> s.reasoning.added && q == 2
        &&& closes_type(end[q], "message"@) ==> s.text.added && q == a.len() + 2
        &&& completes(end[q]) ==> q == end.len() - 1
        &&& !opens(end[q]) && end[q].name != text_delta() && end[q].name != reasoning_delta()
    } by {
        if q < a.len() {
            assert(end[q] == a[q]);
        } else if q < a.len() + b.len() {
            assert(end[q] == b[q - a.len()]);
        } else if q < end.len() - 1 {
            let k = q - a.len() - b.len();
            assert(end[q] == c[k]);
            let stage = s.tools[k].1;
            let item = call_item(stage, "completed"@, None, s.custom_tools);
            lemma_call_type(stage, "completed"@, s.custom_tools);
            lemma_item_index(done, stage.output_index, item);
        }
    }
}

proof fn lemma_completion(s: StreamView, chunk: JsonView)
    requires
        s.text.added <==> s.text.text.len() > 0,
        s.reasoning.added <==> s.reasoning.text.len() > 0,
    ensures
        completes_with(
            completion(s, usage_of(chunk.get("usage"@))),
            s.id,
            s.model,
            s.reasoning.text,
            s.text.text,
        ),
{
    lemma_answer_words();
    let event = completion(s, usage_of(chunk.get("usage"@)));
    let r = response(s.id, s.model, "completed"@, output_items(s)).with(
        "usage"@,
        usage_report(usage_of(chunk.get("usage"@))),
    );
    assert(event.payload.get("response"@) == Some(r));
    assert(r.get("output"@) == Some(JsonView::Array(output_items(s))));
    lemma_text_items(s.reasoning.item_id, s.reasoning.text);
    lemma_text_items(s.text.item_id, s.text.text);
}

proof fn lemma_finish_whole(s: StreamView, past: Seq<Event>, chunk: JsonView)
    requires
        faithful(s, past),
    ensures
        tells_whole(past + finish_step(s, chunk).1, s.id, s.model),
{
    lemma_event_words();
    let end = finish_step(s, chunk).1;
    let all = past + end;
    let n = past.len() as int;
    law_an_answer_ends_in_order(s, chunk);
    lemma_completion(s, chunk);
    lemma_finish_step(s, chunk);
    lemma_handed_on_add(past, end, text_delta());
    lemma_handed_on_add(past, end, reasoning_delta());
    let spoken = handed_on(all, text_delta());
    let thought = handed_on(all, reasoning_delta());
    assert(spoken =~= s.text.text);
    assert(thought =~= s.reasoning.text);
    assert forall|q: int| 0 <= q < all.len() implies #[trigger] all[q] == if q < n {
        past[q]
    } else {
        end[q - n]
    } by {}
    let r: int = if s.reasoning.added {
        3
    } else {
        0
    };
    assert forall|q: int| 0 <= q < all.len() implies {
        &&& closes_type(#[trigger] all[q], "reasoning"@) ==> s.reasoning.added && q == n + 2
        &&& closes_type(all[q], "message"@) ==> s.text.added && q == n + r + 2
        &&& completes(all[q]) ==> q == all.len() - 1
    } by {
        if q < n {
            assert(all[q] == past[q]);
        } else {
            assert(all[q] == end[q - n]);
        }
    }
    if spoken.len() > 0 {
        let p = n + r + 2;
        assert(all[p] == end[r + 2]);
        assert forall|q: int|
            0 <= q < all.len() && (opens_type(#[trigger] all[q], "message"@) || all[q].name
                == text_delta()) implies same_index(all[q], all[p]) by {
            if q < n {
                assert(all[q] == past[q]);
            } else {
                assert(all[q] == end[q - n]);
            }
        }
        assert(closes_message(all, p, spoken));
    }
    if thought.len() > 0 {
        let p = n + 2;
        assert(all[p] == end[2]);
        assert forall|q: int|
            0 <= q < all.len() && (opens_type(#[trigger] all[q], "reasoning"@) || all[q].name
                == reasoning_delta()) implies same_index(all[q], all[p]) by {
            if q < n {
                assert(all[q] == past[q]);
            } else {
                assert(all[q] == end[q - n]);
            }
        }
        assert(closes_reasoning(all, p, thought));
    }
    assert(all.last() == end.last());
}

// ── whole streams ─────────────────────────────────────────────────────

/// Whether the events so far are told whole where the answer has ended, and say what the state
/// holds where it has not.
pub open spec fn on_the_way(c: ConverterView, events: Seq<Event>) -> bool {
    if c.stream.finished {
        tells_whole(events, c.stream.id, c.stream.model)
    } else {
        faithful(c.stream, events)
    }
}

proof fn lemma_chunk_on_the_way(
    c: ConverterView,
    past: Seq<Event>,
    event: Option<Seq<char>>,
    chunk: JsonView,
)
    requires
        faithful(c.stream, past),
    ensures
        chunk_step(c, event, chunk).1 matches Ok(events) ==> {
            &&& on_the_way(chunk_step(c, event, chunk).0, past + events)
            &&& chunk_step(c, event, chunk).0.stream.id == c.stream.id
            &&& chunk_step(c, event, chunk).0.stream.model == c.stream.model
        },
{
    let step = chunk_step(c, event, chunk);
    assert(past + Seq::<Event>::empty() =~= past);
    if step.1 is Ok && chunk.items("choices"@).len() > 0 {
        let delta = chunk.items("choices"@)[0].member("delta"@);
        let after = delta_step(c.stream, delta);
        lemma_delta_faithful(c.stream, past, delta);
        lemma_finish_whole(after.0, past + after.1, chunk);
        let end = finish_step(after.0, chunk);
        assert(past + after.1 + end.1 =~= past + (after.1 + end.1));
    }
}

proof fn lemma_feed_on_the_way(c: ConverterView, past: Seq<Event>, text: Seq<char>)
    requires
        faithful(c.stream, past),
    ensures
        feed_step(c, text).2 matches Ok(events) ==> {
            &&& on_the_way(feed_step(c, text).0, past + events)
            &&& feed_step(c, text).0.stream.id == c.stream.id
            &&& feed_step(c, text).0.stream.model == c.stream.model
        },
    decreases text.len(),
{
    lemma_popped_shrinks(text);
    assert(past + Seq::<Event>::empty() =~= past);
    if let Some(block) = popped(text).0 {
        let step = block_step(c, block);
        if let Ok(chunk) = json_parse(trimmed(block.data)) {
            lemma_chunk_on_the_way(c, past, block.event, chunk);
        }
        if step.1 is Ok && !step.0.stream.finished {
            let events = step.1->Ok_0;
            let more = feed_step(step.0, popped(text).1);
            lemma_feed_on_the_way(step.0, past + events, popped(text).1);
            if more.2 is Ok {
                assert(past + events + more.2->Ok_0 =~= past + (events + more.2->Ok_0));
            }
        }
    }
}

/// Whatever text of a stream comes, once the answer has ended its message is the pieces that were
/// streamed of it, and so is its reasoning: in the one event that finishes each of them, and in the
/// finished answer, which comes last. So it is too where the stream just stops.
pub proof fn law_a_finished_answer_says_what_was_streamed(
    id: Seq<char>,
    model: Seq<char>,
    tools: Option<JsonView>,
    text: Seq<char>,
)
    ensures
        ({
            let fed = feed_step(fresh(id, model, tools), text);
            &&& fed.2 is Ok && fed.0.stream.finished ==> tells_whole(fed.2->Ok_0, id, model)
            &&& fed.2 is Ok && !fed.0.stream.finished && end_step(fed.0).1 is Ok ==> tells_whole(
                fed.2->Ok_0 + end_step(fed.0).1->Ok_0,
                id,
                model,
            )
        }),
{
    let c = fresh(id, model, tools);
    let none = Seq::<Event>::empty();
    assert(faithful(c.stream, none));
    lemma_feed_on_the_way(c, none, text);
    let fed = feed_step(c, text);
    if let Ok(events) = fed.2 {
        assert(none + events =~= events);
        if !fed.0.stream.finished {
            lemma_finish_whole(fed.0.stream, events, empty_object());
        }
    }
}

// ── tool calls ────────────────────────────────────────────────────────

/// Whether an output item tells of a tool call as it stands: who is called under which id, with
/// which arguments.
pub open spec fn tells_of_stage(
    item: JsonView,
    stage: ToolStageView,
    status: Seq<char>,
    custom: bool,
) -> bool {
    &&& item.text("status"@) == Some(status)
    &&& if stage.name == "tool_search"@ {
        tells_of_search(item, stage.call_id, stage.arguments)
    } else if custom {
        tells_of_custom_call(item, stage.call_id, stage.name, stage.arguments) && item.text("id"@)
            == Some(stage.item_id)
    } else {
        tells_of_function_call(item, stage.call_id, stage.name, stage.arguments) && item.text("id"@)
            == Some(stage.item_id)
    }
}

proof fn lemma_call_item_tells(
    stage: ToolStageView,
    status: Seq<char>,
    custom_tools: Set<Seq<char>>,
)
    ensures
        tells_of_stage(
            call_item(stage, status, None, custom_tools),
            stage,
            status,
            custom_tools.contains(stage.name),
        ),
{
    lemma_answer_words();
    law_names_are_not_lost(stage.name);
    lemma_is_input(stage.arguments);
}

/// An answer ends with every tool call it has heard of, in order: each is handed over finished,
/// under its output index, and stands in the output of the answer after the reasoning and the
/// message.
pub proof fn law_an_answer_ends_with_its_calls(s: StreamView, chunk: JsonView, k: int)
    requires
        !s.finished,
        0 <= k < s.tools.len(),
    ensures
        ({
            let end = finish_step(s, chunk).1;
            let stage = s.tools[k].1;
            let custom = s.custom_tools.contains(stage.name);
            let event = end[end.len() - 1 - s.tools.len() + k];
            let out = end.last().payload.member("response"@).items("output"@);
            let before: int = (if s.reasoning.added {
                1int
            } else {
                0
            }) + (if s.text.added {
                1int
            } else {
                0
            });
            &&& end.len() > s.tools.len()
            &&& event.name == "response.output_item.done"@
            &&& has_index(event, stage.output_index as int)
            &&& tells_of_stage(item_of(event), stage, "completed"@, custom)
            &&& completes(end.last())
            &&& out.len() == before + s.tools.len()
            &&& tells_of_stage(out[before + k], stage, "completed"@, custom)
        }),
{
    lemma_answer_words();
    law_an_answer_ends_in_order(s, chunk);
    let end = finish_step(s, chunk).1;
    let stage = s.tools[k].1;
    let item = call_item(stage, "completed"@, None, s.custom_tools);
    let a = reasoning_closing(s.reasoning);
    let b = text_closing(s.text);
    let c = calls_closing(s.tools, s.custom_tools);
    lemma_call_item_tells(stage, "completed"@, s.custom_tools);
    lemma_item_index("response.output_item.done"@, stage.output_index, item);
    assert(end.drop_last() =~= a + b + c);
    assert((a + b + c)[a.len() + b.len() + k] == c[k]);
    assert(end[end.len() - 1 - s.tools.len() + k] == c[k]);
    let tokens = usage_of(chunk.get("usage"@));
    let r = response(s.id, s.model, "completed"@, output_items(s)).with(
        "usage"@,
        usage_report(tokens),
    );
    assert(end.last() == completion(s, tokens));
    assert(end.last().payload.get("response"@) == Some(r));
    assert(r.get("output"@) == Some(JsonView::Array(output_items(s))));
    let out = output_items(s);
    assert(out[out.len() - s.tools.len() + k] == call_items(s.tools, s.custom_tools)[k]);
}

/// Whatever deltas came, a tool call that was named ends with all the arguments that came for it.
pub proof fn law_finished_calls_have_all_arguments(
    id: Seq<char>,
    model: Seq<char>,
    tools: Option<JsonView>,
    deltas: Seq<JsonView>,
    chunk: JsonView,
    index: usize,
)
    requires
        introduced(calls_of(deltas), index),
    ensures
        ({
            let s = deltas_step(fresh(id, model, tools).stream, deltas).0;
            let end = finish_step(s, chunk).1;
            let stage = stage_at(s.tools, index);
            &&& stage.arguments == fragments(calls_of(deltas), index)
            &&& exists|q: int|
                0 <= q < end.len() && (#[trigger] end[q]).name == "response.output_item.done"@
                    && has_index(end[q], stage.output_index as int) && tells_of_stage(
                    item_of(end[q]),
                    stage,
                    "completed"@,
                    s.custom_tools.contains(stage.name),
                )
        }),
{
    let s = deltas_step(fresh(id, model, tools).stream, deltas).0;
    lemma_deltas_heard(id, model, tools, deltas, index);
    lemma_deltas_unfinished(fresh(id, model, tools).stream, deltas);
    let k = slot(s.tools, index) as int;
    assert(has_stage(s.tools, index));
    law_an_answer_ends_with_its_calls(s, chunk, k);
    let end = finish_step(s, chunk).1;
    let q = end.len() - 1 - s.tools.len() + k;
    assert(end[q].name == "response.output_item.done"@);
}

proof fn lemma_deltas_unfinished(s: StreamView, deltas: Seq<JsonView>)
    ensures
        deltas_step(s, deltas).0.finished == s.finished,
        deltas_step(s, deltas).0.custom_tools == s.custom_tools,
    decreases deltas.len(),
{
    if deltas.len() > 0 {
        lemma_deltas_unfinished(s, deltas.drop_last());
        lemma_delta_comes(deltas_step(s, deltas.drop_last()).0, deltas.last());
    }
}

/// A tool call goes by the id and the name that it was told last. What it was never told it makes
/// up when it is opened, and it keeps its item and its output index from then on.
pub proof fn law_calls_go_by_what_was_told(
    s: StreamView,
    call: JsonView,
    reasoning: Option<Seq<char>>,
)
    requires
        ordered(s.tools),
    ensures
        ({
            let index = call_index(call);
            let before = stage_at(s.tools, index);
            let after = stage_at(call_step(s, call, reasoning).0.tools, index);
            let id = call.full_text("id"@);
            let name = call.member("function"@).full_text("name"@);
            &&& id is Some ==> after.call_id == id->Some_0
            &&& name is Some ==> after.name == name->Some_0
            &&& before.added ==> {
                &&& after.added
                &&& after.item_id == before.item_id
                &&& after.output_index == before.output_index
                &&& call.get("id"@) is None ==> after.call_id == before.call_id
                &&& call.member("function"@).get("name"@) is None ==> after.name == before.name
            }
            &&& !before.added && after.added ==> {
                &&& after.item_id == "fc_"@ + after.call_id
                &&& after.output_index == s.output_index
                &&& id is None && before.call_id.len() == 0 ==> after.call_id == "call_"@ + decimal(
                    index as nat,
                )
                &&& name is None && before.name.len() == 0 ==> after.name == "unknown_tool"@
            }
        }),
{
    let index = call_index(call);
    let stage = heard(stage_at(s.tools, index), call);
    if to_be_opened(stage) {
        lemma_put_stage_all(s.tools, index, opened_stage(stage, index, s.output_index));
    } else {
        lemma_put_stage_all(s.tools, index, stage);
    }
}

/// The index of a tool call is the one its delta tells, and the first where it tells none.
pub proof fn law_calls_have_the_index_told(call: JsonView, index: usize)
    ensures
        call.get("index"@) == Some(JsonView::Int(index as int)) ==> call_index(call) == index,
        call.get("index"@) is None ==> call_index(call) == 0,
{
}

/// A tool call is opened with an item that tells who is called, with the arguments that have come
/// and the reasoning that led to it.
pub proof fn law_calls_are_opened_as_they_stand(
    s: StreamView,
    call: JsonView,
    reasoning: Option<Seq<char>>,
)
    requires
        ordered(s.tools),
        !stage_at(s.tools, call_index(call)).added,
        call.full_text("id"@) is Some || call.member("function"@).full_text("name"@) is Some,
    ensures
        ({
            let step = call_step(s, call, reasoning);
            let stage = stage_at(step.0.tools, call_index(call));
            let item = item_of(step.1[0]);
            &&& step.1.len() > 0
            &&& step.1[0].name == "response.output_item.added"@
            &&& has_index(step.1[0], s.output_index as int)
            &&& tells_of_stage(item, stage, "in_progress"@, s.custom_tools.contains(stage.name))
            &&& item.text("reasoning_content"@) == reasoning
        }),
{
    lemma_answer_words();
    let index = call_index(call);
    let stage = heard(stage_at(s.tools, index), call);
    let opened = opened_stage(stage, index, s.output_index);
    assert(to_be_opened(stage));
    lemma_put_stage_all(s.tools, index, opened);
    let plain = call_item(opened, "in_progress"@, None, s.custom_tools);
    lemma_call_item_tells(opened, "in_progress"@, s.custom_tools);
    let item = match reasoning {
        Some(text) => plain.with_text("reasoning_content"@, text),
        None => plain,
    };
    lemma_reasoning_apart();
    assert(call_step(s, call, reasoning).1[0] == item_event(
        "response.output_item.added"@,
        s.output_index,
        item,
    ));
    lemma_item_index("response.output_item.added"@, s.output_index, item);
}

proof fn lemma_reasoning_apart()
    ensures
        "reasoning_content"@ != "id"@,
        "reasoning_content"@ != "type"@,
        "reasoning_content"@ != "status"@,
        "reasoning_content"@ != "call_id"@,
        "reasoning_content"@ != "execution"@,
        "reasoning_content"@ != "arguments"@,
        "reasoning_content"@ != "name"@,
        "reasoning_content"@ != "input"@,
        "reasoning_content"@ != "namespace"@,
{
    reveal_strlit("reasoning_content");
    reveal_strlit("id");
    reveal_strlit("type");
    reveal_strlit("status");
    reveal_strlit("call_id");
    reveal_strlit("execution");
    reveal_strlit("arguments");
    reveal_strlit("name");
    reveal_strlit("input");
    reveal_strlit("namespace");
    assert("reasoning_content"@.len() == 17);
    assert("id"@.len() == 2 && "type"@.len() == 4 && "status"@.len() == 6 && "call_id"@.len() == 7);
    assert("execution"@.len() == 9 && "arguments"@.len() == 9 && "name"@.len() == 4);
    assert("input"@.len() == 5 && "namespace"@.len() == 9);
}

// ── the cost, and the beginning ───────────────────────────────────────

/// An answer ends with the counts that the last chunk told, for the client and for the record.
pub proof fn law_an_answer_ends_with_its_cost(s: StreamView, chunk: JsonView)
    requires
        !s.finished,
    ensures
        ({
            let end = finish_step(s, chunk);
            &&& end.0.finished
            &&& end.1.len() > 0
            &&& completes(end.1.last())
            &&& reports_counts(
                end.1.last().payload.member("response"@).member("usage"@),
                chunk.member("usage"@),
            )
            &&& end.0.usage is Some
            &&& reports_counts(usage_report(end.0.usage->Some_0), chunk.member("usage"@))
        }),
{
    lemma_answer_words();
    law_an_answer_ends_in_order(s, chunk);
    let tokens = usage_of(chunk.get("usage"@));
    law_counts_are_reported(chunk.get("usage"@));
    let r = response(s.id, s.model, "completed"@, output_items(s)).with(
        "usage"@,
        usage_report(tokens),
    );
    assert(finish_step(s, chunk).1.last().payload.get("response"@) == Some(r));
}

/// Before the message is handed over, its whole text is told twice, and so is the reasoning.
pub proof fn law_finished_texts_are_told_before(s: StreamView, chunk: JsonView)
    requires
        !s.finished,
    ensures
        ({
            let end = finish_step(s, chunk).1;
            let r: int = if s.reasoning.added {
                3
            } else {
                0
            };
            &&& s.reasoning.added ==> {
                &&& end.len() > 3
                &&& end[0].name == "response.reasoning_summary_text.done"@
                &&& end[0].payload.text("text"@) == Some(s.reasoning.text)
                &&& has_index(end[0], s.reasoning.output_index as int)
                &&& end[1].name == "response.reasoning_summary_part.done"@
                &&& end[1].payload.member("part"@).text("text"@) == Some(s.reasoning.text)
                &&& has_index(end[1], s.reasoning.output_index as int)
            }
            &&& s.text.added ==> {
                &&& end.len() > r + 3
                &&& end[r].name == "response.output_text.done"@
                &&& end[r].payload.text("text"@) == Some(s.text.text)
                &&& has_index(end[r], s.text.output_index as int)
                &&& end[r + 1].name == "response.content_part.done"@
                &&& end[r + 1].payload.member("part"@).text("text"@) == Some(s.text.text)
                &&& has_index(end[r + 1], s.text.output_index as int)
            }
        }),
{
    lemma_answer_words();
    law_an_answer_ends_in_order(s, chunk);
    let end = finish_step(s, chunk).1;
    let a = reasoning_closing(s.reasoning);
    let b = text_closing(s.text);
    let c = calls_closing(s.tools, s.custom_tools);
    assert(end.drop_last() =~= a + b + c);
    if s.reasoning.added {
        let text = JsonView::Text(s.reasoning.text);
        let part = summary_part(s.reasoning.text);
        lemma_part_index(a[0].name, s.reasoning, "summary_index"@, "text"@, text);
        lemma_part_index(a[1].name, s.reasoning, "summary_index"@, "part"@, part);
        assert(end[0] == a[0] && end[1] == a[1]);
    }
    if s.text.added {
        let n = a.len() as int;
        let text = JsonView::Text(s.text.text);
        let part = output_part(s.text.text);
        lemma_part_index(b[0].name, s.text, "content_index"@, "text"@, text);
        lemma_part_index(b[1].name, s.text, "content_index"@, "part"@, part);
        assert(end[n] == b[0] && end[n + 1] == b[1]);
    }
}

/// The message and the reasoning are opened, empty and in progress, before their first piece, and
/// each piece is handed on for the item that was opened.
pub proof fn law_texts_are_opened_before_their_pieces(s: StreamView, piece: Seq<char>)
    requires
        piece.len() > 0,
    ensures
        ({
            let step = content_step(s, piece);
            let events = step.1;
            &&& events.len() > 0
            &&& events.last().name == "response.output_text.delta"@
            &&& events.last().payload.text("delta"@) == Some(piece)
            &&& events.last().payload.text("item_id"@) == Some(step.0.text.item_id)
            &&& has_index(events.last(), step.0.text.output_index as int)
            &&& s.text.added ==> events.len() == 1
            &&& !s.text.added ==> {
                &&& events.len() == 3
                &&& step.0.text.item_id == s.id + "_msg"@
                &&& events[0].name == "response.output_item.added"@
                &&& has_index(events[0], s.output_index as int)
                &&& item_of(events[0]).text("type"@) == Some("message"@)
                &&& item_of(events[0]).text("id"@) == Some(s.id + "_msg"@)
                &&& item_of(events[0]).text("role"@) == Some("assistant"@)
                &&& item_of(events[0]).text("status"@) == Some("in_progress"@)
                &&& item_of(events[0]).items("content"@).len() == 0
                &&& events[1].name == "response.content_part.added"@
                &&& has_index(events[1], s.output_index as int)
                &&& events[1].payload.member("part"@).text("text"@) == Some(Seq::<char>::empty())
            }
        }),
        ({
            let step = reasoning_step(s, piece);
            let events = step.1;
            &&& events.len() > 0
            &&& events.last().name == "response.reasoning_summary_text.delta"@
            &&& events.last().payload.text("delta"@) == Some(piece)
            &&& events.last().payload.text("item_id"@) == Some(step.0.reasoning.item_id)
            &&& has_index(events.last(), step.0.reasoning.output_index as int)
            &&& s.reasoning.added ==> events.len() == 1
            &&& !s.reasoning.added ==> {
                &&& events.len() == 3
                &&& step.0.reasoning.item_id == "rs_"@ + s.id
                &&& events[0].name == "response.output_item.added"@
                &&& has_index(events[0], s.output_index as int)
                &&& item_of(events[0]).text("type"@) == Some("reasoning"@)
                &&& item_of(events[0]).text("id"@) == Some("rs_"@ + s.id)
                &&& item_of(events[0]).text("status"@) == Some("in_progress"@)
                &&& item_of(events[0]).items("summary"@).len() == 0
                &&& events[1].name == "response.reasoning_summary_part.added"@
                &&& has_index(events[1], s.output_index as int)
                &&& events[1].payload.member("part"@).text("text"@) == Some(Seq::<char>::empty())
            }
        }),
{
    lemma_answer_words();
    lemma_payload_words();
    let added = "response.output_item.added"@;
    let spoken = content_step(s, piece);
    let msg = message_item(s.id + "_msg"@, JsonView::Array(Seq::empty())).with_text(
        "status"@,
        "in_progress"@,
    );
    lemma_item_index(added, s.output_index, msg);
    lemma_part_index(
        text_delta(),
        spoken.0.text,
        "content_index"@,
        "delta"@,
        JsonView::Text(piece),
    );
    lemma_part_index(
        "response.content_part.added"@,
        text_opened(s).text,
        "content_index"@,
        "part"@,
        output_part(Seq::empty()),
    );
    assert(!s.text.added ==> spoken.1[0] == item_event(added, s.output_index, msg));
    let thought = reasoning_step(s, piece);
    let rs = reasoning_item("rs_"@ + s.id, JsonView::Array(Seq::empty())).with_text(
        "status"@,
        "in_progress"@,
    );
    lemma_item_index(added, s.output_index, rs);
    lemma_part_index(
        reasoning_delta(),
        thought.0.reasoning,
        "summary_index"@,
        "delta"@,
        JsonView::Text(piece),
    );
    lemma_part_index(
        "response.reasoning_summary_part.added"@,
        reasoning_opened(s).reasoning,
        "summary_index"@,
        "part"@,
        summary_part(Seq::empty()),
    );
    assert(!s.reasoning.added ==> thought.1[0] == item_event(added, s.output_index, rs));
}

/// An answer begins by saying that it has been created and is in progress, with its id and model
/// and without output.
pub proof fn law_an_answer_begins(s: StreamView, k: int)
    requires
        0 <= k < 2,
    ensures
        ({
            let r = opening(s)[k].payload.member("response"@);
            &&& opening(s).len() == 2
            &&& opening(s)[0].name == "response.created"@
            &&& opening(s)[1].name == "response.in_progress"@
            &&& r.text("id"@) == Some(s.id)
            &&& r.text("model"@) == Some(s.model)
            &&& r.text("object"@) == Some("response"@)
            &&& r.text("status"@) == Some("in_progress"@)
            &&& r.get("output"@) == Some(JsonView::Array(Seq::<JsonView>::empty()))
        }),
{
    lemma_answer_words();
    let r = response(s.id, s.model, "in_progress"@, Seq::empty());
    assert(opening(s)[k].payload.get("response"@) == Some(r));
}

/// The message has been opened once a piece of it has come, and so has the reasoning.
pub proof fn lemma_texts_added(
    id: Seq<char>,
    model: Seq<char>,
    tools: Option<JsonView>,
    deltas: Seq<JsonView>,
)
    ensures
        ({
            let s = deltas_step(fresh(id, model, tools).stream, deltas).0;
            &&& s.text.added <==> s.text.text.len() > 0
            &&& s.reasoning.added <==> s.reasoning.text.len() > 0
        }),
    decreases deltas.len(),
{
    if deltas.len() > 0 {
        let s = fresh(id, model, tools).stream;
        lemma_texts_added(id, model, tools, deltas.drop_last());
        lemma_delta_comes(deltas_step(s, deltas.drop_last()).0, deltas.last());
    }
}

/// A streamed call of a tool that the request declared as a custom tool ends as a call of that
/// custom tool, with the input that the chat model wrote into its arguments.
pub proof fn law_streamed_custom_calls_come_back_as_such(
    req: JsonView,
    served: Seq<char>,
    i: int,
    id: Seq<char>,
    model: Seq<char>,
    deltas: Seq<JsonView>,
    chunk: JsonView,
    k: int,
)
    requires
        0 <= i < req.items("tools"@).len(),
        req.items("tools"@)[i].text("type"@) == Some("custom"@),
        told_name(req.items("tools"@)[i]) is Some,
        told_name(req.items("tools"@)[i]) != Some("tool_search"@),
        ({
            let c = fresh(id, model, chat_request(req, served).get("tools"@));
            let s = deltas_step(c.stream, deltas).0;
            0 <= k < s.tools.len() && Some(s.tools[k].1.name) == told_name(req.items("tools"@)[i])
        }),
    ensures
        ({
            let c = fresh(id, model, chat_request(req, served).get("tools"@));
            let s = deltas_step(c.stream, deltas).0;
            let end = finish_step(s, chunk).1;
            let item = item_of(end[end.len() - 1 - s.tools.len() + k]);
            &&& end.len() > s.tools.len()
            &&& item.text("type"@) == Some("custom_tool_call"@)
            &&& item.text("name"@) == told_name(req.items("tools"@)[i])
            &&& item.text("call_id"@) == Some(s.tools[k].1.call_id)
            &&& item.text("input"@) is Some
            &&& is_input(item.text("input"@)->Some_0, s.tools[k].1.arguments)
        }),
{
    let c = fresh(id, model, chat_request(req, served).get("tools"@));
    let s = deltas_step(c.stream, deltas).0;
    assert(defined_name(req.items("tools"@)[i]) == told_name(req.items("tools"@)[i]));
    law_declared_custom_tools_come_back(req, served, i);
    lemma_deltas_unfinished(c.stream, deltas);
    law_an_answer_ends_with_its_calls(s, chunk, k);
}

/// The piece of arguments in a delta of a tool call is the text under `arguments` in its function.
pub proof fn law_arguments_are_found_in_the_function(call: JsonView)
    ensures
        call_arguments(call) == (match call.member("function"@).member("arguments"@) {
            JsonView::Text(s) => s,
            _ => Seq::empty(),
        }),
{
}

/// A delta of a tool call says no more than it has to: it opens the call, with the arguments that
/// have come, or hands on its piece of them, or says nothing.
pub proof fn law_calls_say_no_more(s: StreamView, call: JsonView, reasoning: Option<Seq<char>>)
    ensures
        ({
            let before = stage_at(s.tools, call_index(call));
            let events = call_step(s, call, reasoning).1;
            let opened = to_be_opened(heard(before, call));
            &&& opened ==> events.len() == (if before.arguments.len() + call_arguments(call).len() > 0 {
                2int
            } else {
                1
            })
            &&& !opened && before.added ==> events.len() == (if call_arguments(call).len() > 0 {
                1int
            } else {
                0
            })
            &&& !opened && !before.added ==> events.len() == 0
        }),
{
}

/// A delta is taken in in order: its reasoning, its part of the message, its tool calls. What it
/// does not hold does nothing.
pub proof fn law_a_delta_is_taken_in_in_order(s: StreamView, delta: JsonView)
    ensures
        ({
            let thought = delta.full_text("reasoning_content"@);
            let spoken = delta.full_text("content"@);
            let calls = delta.items("tool_calls"@);
            let step = delta_step(s, delta);
            &&& thought is None && spoken is None && calls.len() == 0 ==> step == (
                s,
                Seq::<Event>::empty(),
            )
            &&& thought is Some && spoken is None && calls.len() == 0 ==> step == reasoning_step(
                s,
                thought->Some_0,
            )
            &&& thought is None && spoken is Some && calls.len() == 0 ==> step == content_step(
                s,
                spoken->Some_0,
            )
            &&& thought is None && spoken is None && calls.len() == 1 ==> step == call_step(
                s,
                calls[0],
                substance(s.reasoning.text),
            )
            &&& thought is Some ==> reasoning_step(s, thought->Some_0).1.is_prefix_of(step.1)
            &&& step.1.len() >= (if thought is Some {
                1int
            } else {
                0
            }) + (if spoken is Some {
                1int
            } else {
                0
            })
        }),
{
    let none = Seq::<Event>::empty();
    let calls = delta.items("tool_calls"@);
    let step = delta_step(s, delta);
    let reasoned = match delta.full_text("reasoning_content"@) {
        Some(piece) => reasoning_step(s, piece),
        None => (s, none),
    };
    let spoken = match delta.full_text("content"@) {
        Some(piece) => content_step(reasoned.0, piece),
        None => (reasoned.0, none),
    };
    let called = calls_step(spoken.0, calls, substance(spoken.0.reasoning.text));
    assert(none + none + none =~= none);
    assert(reasoned.1 + none + none =~= reasoned.1);
    assert(none + spoken.1 + none =~= spoken.1);
    assert(none + none + called.1 =~= called.1);
    if calls.len() == 1 {
        assert(calls.drop_last() =~= Seq::empty());
        let one = call_step(spoken.0, calls[0], substance(spoken.0.reasoning.text));
        reveal_with_fuel(calls_step, 2);
        assert(none + one.1 =~= one.1);
    }
    assert(reasoned.1 =~= step.1.take(reasoned.1.len() as int));
}

/// Every event about a part of an item says which part: there is only the first.
pub proof fn law_there_is_one_part(
    name: Seq<char>,
    stage: TextStageView,
    key: Seq<char>,
    value: JsonView,
)
    requires
        key == "delta"@ || key == "text"@ || key == "part"@,
    ensures
        part_event(name, stage, "content_index"@, key, value).payload.get("content_index"@) == Some(
            JsonView::Int(0),
        ),
        part_event(name, stage, "summary_index"@, key, value).payload.get("summary_index"@) == Some(
            JsonView::Int(0),
        ),
{
    lemma_payload_words();
}

// ── streams that come whole ───────────────────────────────────────────

proof fn lemma_blocks_on_the_way(c: ConverterView, past: Seq<Event>, blocks: Seq<BlockView>)
    requires
        faithful(c.stream, past),
    ensures
        blocks_step(c, blocks) matches Ok(events) ==> tells_whole(
            past + events,
            c.stream.id,
            c.stream.model,
        ),
    decreases blocks.len(),
{
    assert(past + Seq::<Event>::empty() =~= past);
    if blocks.len() == 0 {
        lemma_finish_whole(c.stream, past, empty_object());
    } else {
        let step = block_step(c, blocks[0]);
        if let Ok(chunk) = json_parse(trimmed(blocks[0].data)) {
            lemma_chunk_on_the_way(c, past, blocks[0].event, chunk);
        }
        if step.1 is Ok && !step.0.stream.finished {
            let events = step.1->Ok_0;
            let more = blocks_step(step.0, blocks.drop_first());
            lemma_blocks_on_the_way(step.0, past + events, blocks.drop_first());
            if more is Ok {
                assert(past + events + more->Ok_0 =~= past + (events + more->Ok_0));
            }
        }
    }
}

/// A stream that comes whole begins as every answer does, and ends with what its events handed on
/// on the way.
pub proof fn law_a_whole_stream_says_what_was_streamed(
    id: Seq<char>,
    model: Seq<char>,
    text: Seq<char>,
    tools: Option<JsonView>,
)
    ensures
        converted(id, model, text, tools) matches Ok(events) ==> {
            &&& events.len() > 2
            &&& events[0].name == "response.created"@
            &&& events[1].name == "response.in_progress"@
            &&& events.take(2) == opening(fresh(id, model, tools).stream)
            &&& tells_whole(events.skip(2), id, model)
        },
{
    let c = fresh(id, model, tools);
    let none = Seq::<Event>::empty();
    assert(faithful(c.stream, none));
    lemma_blocks_on_the_way(c, none, blocks_of(text));
    if let Ok(events) = blocks_step(c, blocks_of(text)) {
        let all = opening(c.stream) + events;
        assert(none + events =~= events);
        assert(all.take(2) =~= opening(c.stream));
        assert(all.skip(2) =~= events);
    }
}

/// Reasoning that is added to an item is there without the white space around it, and blank
/// reasoning is not there at all. Nothing else is changed.
pub proof fn law_items_take_reasoning(item: JsonView, text: Seq<char>, key: Seq<char>)
    requires
        item is Object,
    ensures
        with_reasoning(item, None) == item,
        is_blank(text) ==> with_reasoning(item, Some(text)) == item,
        !is_blank(text) ==> with_reasoning(item, Some(text)).text("reasoning_content"@) == Some(
            trimmed(text),
        ),
        key != "reasoning_content"@ ==> with_reasoning(item, Some(text)).get(key) == item.get(key),
{
}

} // verus!

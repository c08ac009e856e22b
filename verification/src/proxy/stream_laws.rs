//! What holds of every stream: nothing is dropped, nothing is mixed up, and it ends once.
use vstd::prelude::*;

use crate::codec::json_parse;
use crate::json::{empty_object, or_empty, JsonView};
use crate::proxy::converter::{block_step, chunk_step, end_step, feed_step, fresh, ConverterView};
use crate::proxy::sse::{lemma_popped_shrinks, popped, Event};
use crate::proxy::stage::{lemma_put_stage_all, lemma_stage_of, ordered, slot, stage_at, ToolStageView};
use crate::proxy::stream::{arguments_event, call_arguments, call_index, call_item, call_step};
use crate::proxy::stream::{calls_step, content_step, delta_step, finish_step, has_output, heard};
use crate::proxy::stream::{item_event, message_item, next_index, opened_stage, reasoning_item};
use crate::proxy::stream::{reasoning_opened, reasoning_opening, reasoning_step, text_opened};
use crate::proxy::stream::{text_opening, to_be_opened, StreamView};
use crate::text::{substance, trimmed};

verus! {

// ── what the events hand on ───────────────────────────────────────────

/// The piece that an event of this name hands on.
pub open spec fn piece_of(event: Event, name: Seq<char>) -> Seq<char> {
    if event.name == name {
        or_empty(event.payload.text("delta"@))
    } else {
        Seq::empty()
    }
}

/// What the events of this name hand on, piece after piece.
pub open spec fn handed_on(events: Seq<Event>, name: Seq<char>) -> Seq<char>
    decreases events.len(),
{
    if events.len() == 0 {
        Seq::empty()
    } else {
        handed_on(events.drop_last(), name) + piece_of(events.last(), name)
    }
}

pub proof fn lemma_handed_on_add(a: Seq<Event>, b: Seq<Event>, name: Seq<char>)
    ensures
        handed_on(a + b, name) == handed_on(a, name) + handed_on(b, name),
    decreases b.len(),
{
    if b.len() == 0 {
        assert(a + b =~= a);
        assert(handed_on(a, name) + Seq::<char>::empty() =~= handed_on(a, name));
    } else {
        assert((a + b).drop_last() =~= a + b.drop_last());
        lemma_handed_on_add(a, b.drop_last(), name);
        assert(handed_on(a, name) + (handed_on(b.drop_last(), name) + piece_of(b.last(), name))
            =~= handed_on(a, name) + handed_on(b.drop_last(), name) + piece_of(b.last(), name));
    }
}

pub open spec fn text_delta() -> Seq<char> {
    "response.output_text.delta"@
}

pub open spec fn reasoning_delta() -> Seq<char> {
    "response.reasoning_summary_text.delta"@
}

pub open spec fn arguments_delta() -> Seq<char> {
    "response.function_call_arguments.delta"@
}

/// The names of the events that come up before an answer ends are all different.
pub proof fn lemma_names()
    ensures
        text_delta() != reasoning_delta(),
        text_delta() != arguments_delta(),
        reasoning_delta() != arguments_delta(),
        "response.output_item.added"@ != text_delta(),
        "response.output_item.added"@ != reasoning_delta(),
        "response.output_item.added"@ != arguments_delta(),
        "response.content_part.added"@ != text_delta(),
        "response.content_part.added"@ != reasoning_delta(),
        "response.content_part.added"@ != arguments_delta(),
        "response.reasoning_summary_part.added"@ != text_delta(),
        "response.reasoning_summary_part.added"@ != reasoning_delta(),
        "response.reasoning_summary_part.added"@ != arguments_delta(),
        "response.reasoning_summary_part.added"@ != "response.output_item.added"@,
        "response.content_part.added"@ != "response.output_item.added"@,
{
    reveal_strlit("response.output_text.delta");
    reveal_strlit("response.reasoning_summary_text.delta");
    reveal_strlit("response.function_call_arguments.delta");
    reveal_strlit("response.output_item.added");
    reveal_strlit("response.content_part.added");
    reveal_strlit("response.reasoning_summary_part.added");
    assert(text_delta().len() == 26);
    assert(reasoning_delta().len() == 37);
    assert(arguments_delta().len() == 38);
    assert("response.output_item.added"@.len() == 26);
    assert("response.content_part.added"@.len() == 27);
    assert("response.reasoning_summary_part.added"@.len() == 37);
    assert(text_delta()[16] != "response.output_item.added"@[16]);
    assert(reasoning_delta()[27] != "response.reasoning_summary_part.added"@[27]);
}

// ── text and reasoning ────────────────────────────────────────────────

proof fn lemma_reasoning_step(s: StreamView, piece: Seq<char>)
    ensures
        handed_on(reasoning_step(s, piece).1, reasoning_delta()) == piece,
        handed_on(reasoning_step(s, piece).1, text_delta()) == Seq::<char>::empty(),
        handed_on(reasoning_step(s, piece).1, arguments_delta()) == Seq::<char>::empty(),
        reasoning_step(s, piece).0.reasoning.text == s.reasoning.text + piece,
        reasoning_step(s, piece).0.text == s.text,
        reasoning_step(s, piece).0.tools == s.tools,
{
    lemma_names();
    let step = reasoning_step(s, piece);
    let opened = if s.reasoning.added {
        s
    } else {
        reasoning_opened(s)
    };
    let head: Seq<Event> = if s.reasoning.added {
        Seq::empty()
    } else {
        reasoning_opening(opened.reasoning)
    };
    assert(step.1.drop_last() =~= head);
    assert(piece_of(step.1.last(), reasoning_delta()) == piece);
    if !s.reasoning.added {
        assert(head.drop_last().drop_last() =~= Seq::empty());
        assert(head.drop_last().last() == head[0]);
        reveal_with_fuel(handed_on, 3);
    }
    assert(handed_on(head, reasoning_delta()) =~= Seq::empty());
    assert(handed_on(head, text_delta()) =~= Seq::empty());
    assert(handed_on(head, arguments_delta()) =~= Seq::empty());
    assert(Seq::<char>::empty() + piece =~= piece);
}

proof fn lemma_content_step(s: StreamView, piece: Seq<char>)
    ensures
        handed_on(content_step(s, piece).1, text_delta()) == piece,
        handed_on(content_step(s, piece).1, reasoning_delta()) == Seq::<char>::empty(),
        handed_on(content_step(s, piece).1, arguments_delta()) == Seq::<char>::empty(),
        content_step(s, piece).0.text.text == s.text.text + piece,
        content_step(s, piece).0.reasoning == s.reasoning,
        content_step(s, piece).0.tools == s.tools,
{
    lemma_names();
    let step = content_step(s, piece);
    let opened = if s.text.added {
        s
    } else {
        text_opened(s)
    };
    let head: Seq<Event> = if s.text.added {
        Seq::empty()
    } else {
        text_opening(opened.text)
    };
    assert(step.1.drop_last() =~= head);
    assert(piece_of(step.1.last(), text_delta()) == piece);
    if !s.text.added {
        assert(head.drop_last().drop_last() =~= Seq::empty());
        assert(head.drop_last().last() == head[0]);
        reveal_with_fuel(handed_on, 3);
    }
    assert(handed_on(head, reasoning_delta()) =~= Seq::empty());
    assert(handed_on(head, text_delta()) =~= Seq::empty());
    assert(handed_on(head, arguments_delta()) =~= Seq::empty());
    assert(Seq::<char>::empty() + piece =~= piece);
}

proof fn lemma_call_step(s: StreamView, call: JsonView, reasoning: Option<Seq<char>>)
    ensures
        handed_on(call_step(s, call, reasoning).1, text_delta()) == Seq::<char>::empty(),
        handed_on(call_step(s, call, reasoning).1, reasoning_delta()) == Seq::<char>::empty(),
        call_step(s, call, reasoning).0.text == s.text,
        call_step(s, call, reasoning).0.reasoning == s.reasoning,
{
    lemma_names();
    let step = call_step(s, call, reasoning);
    let events = step.1;
    if events.len() > 0 {
        reveal_with_fuel(handed_on, 3);
        if events.len() == 2 {
            assert(events.drop_last().drop_last() =~= Seq::empty());
            assert(events.drop_last().last() == events[0]);
        } else {
            assert(events.len() == 1);
            assert(events.drop_last() =~= Seq::empty());
        }
    }
    assert(handed_on(events, text_delta()) =~= Seq::empty());
    assert(handed_on(events, reasoning_delta()) =~= Seq::empty());
}

proof fn lemma_calls_step(s: StreamView, calls: Seq<JsonView>, reasoning: Option<Seq<char>>)
    ensures
        handed_on(calls_step(s, calls, reasoning).1, text_delta()) == Seq::<char>::empty(),
        handed_on(calls_step(s, calls, reasoning).1, reasoning_delta()) == Seq::<char>::empty(),
        calls_step(s, calls, reasoning).0.text == s.text,
        calls_step(s, calls, reasoning).0.reasoning == s.reasoning,
    decreases calls.len(),
{
    if calls.len() > 0 {
        lemma_calls_step(s, calls.drop_last(), reasoning);
        let before = calls_step(s, calls.drop_last(), reasoning);
        let last = call_step(before.0, calls.last(), reasoning);
        lemma_call_step(before.0, calls.last(), reasoning);
        lemma_handed_on_add(before.1, last.1, text_delta());
        lemma_handed_on_add(before.1, last.1, reasoning_delta());
        assert(Seq::<char>::empty() + Seq::<char>::empty() =~= Seq::<char>::empty());
    }
}

/// The message grows by exactly what the events of a delta hand on of it, and so does the
/// reasoning.
pub proof fn law_a_delta_hands_on_what_it_adds(s: StreamView, delta: JsonView)
    ensures
        delta_step(s, delta).0.text.text == s.text.text + handed_on(
            delta_step(s, delta).1,
            text_delta(),
        ),
        delta_step(s, delta).0.reasoning.text == s.reasoning.text + handed_on(
            delta_step(s, delta).1,
            reasoning_delta(),
        ),
        handed_on(delta_step(s, delta).1, text_delta()) == or_empty(delta.full_text("content"@)),
        handed_on(delta_step(s, delta).1, reasoning_delta()) == or_empty(
            delta.full_text("reasoning_content"@),
        ),
{
    let reasoned = match delta.full_text("reasoning_content"@) {
        Some(piece) => reasoning_step(s, piece),
        None => (s, Seq::empty()),
    };
    let spoken = match delta.full_text("content"@) {
        Some(piece) => content_step(reasoned.0, piece),
        None => (reasoned.0, Seq::empty()),
    };
    let thought = substance(spoken.0.reasoning.text);
    let called = calls_step(spoken.0, delta.items("tool_calls"@), thought);
    if let Some(piece) = delta.full_text("reasoning_content"@) {
        lemma_reasoning_step(s, piece);
    }
    if let Some(piece) = delta.full_text("content"@) {
        lemma_content_step(reasoned.0, piece);
    }
    lemma_calls_step(spoken.0, delta.items("tool_calls"@), thought);
    lemma_handed_on_add(reasoned.1, spoken.1, text_delta());
    lemma_handed_on_add(reasoned.1, spoken.1, reasoning_delta());
    lemma_handed_on_add(reasoned.1 + spoken.1, called.1, text_delta());
    lemma_handed_on_add(reasoned.1 + spoken.1, called.1, reasoning_delta());
    let events = delta_step(s, delta).1;
    assert(handed_on(events, text_delta()) =~= or_empty(delta.full_text("content"@)));
    assert(handed_on(events, reasoning_delta()) =~= or_empty(
        delta.full_text("reasoning_content"@),
    ));
    assert(s.text.text + Seq::<char>::empty() =~= s.text.text);
    assert(s.reasoning.text + Seq::<char>::empty() =~= s.reasoning.text);
}

/// What a row of deltas does.
pub open spec fn deltas_step(s: StreamView, deltas: Seq<JsonView>) -> (StreamView, Seq<Event>)
    decreases deltas.len(),
{
    if deltas.len() == 0 {
        (s, Seq::empty())
    } else {
        let before = deltas_step(s, deltas.drop_last());
        let last = delta_step(before.0, deltas.last());
        (last.0, before.1 + last.1)
    }
}

/// The pieces of this member in a row of deltas.
pub open spec fn pieces_in(deltas: Seq<JsonView>, key: Seq<char>) -> Seq<char>
    decreases deltas.len(),
{
    if deltas.len() == 0 {
        Seq::empty()
    } else {
        pieces_in(deltas.drop_last(), key) + or_empty(deltas.last().full_text(key))
    }
}

/// The message that an answer ends with is what its events handed on, piece after piece, and that
/// is what the upstream sent. So it is with the reasoning.
pub proof fn law_the_answer_is_what_was_streamed(
    id: Seq<char>,
    model: Seq<char>,
    tools: Option<JsonView>,
    deltas: Seq<JsonView>,
)
    ensures
        ({
            let run = deltas_step(fresh(id, model, tools).stream, deltas);
            &&& run.0.text.text == handed_on(run.1, text_delta())
            &&& run.0.text.text == pieces_in(deltas, "content"@)
            &&& run.0.reasoning.text == handed_on(run.1, reasoning_delta())
            &&& run.0.reasoning.text == pieces_in(deltas, "reasoning_content"@)
        }),
    decreases deltas.len(),
{
    if deltas.len() > 0 {
        let s = fresh(id, model, tools).stream;
        law_the_answer_is_what_was_streamed(id, model, tools, deltas.drop_last());
        let before = deltas_step(s, deltas.drop_last());
        let last = delta_step(before.0, deltas.last());
        law_a_delta_hands_on_what_it_adds(before.0, deltas.last());
        lemma_handed_on_add(before.1, last.1, text_delta());
        lemma_handed_on_add(before.1, last.1, reasoning_delta());
    }
}

/// Events of other names hand nothing on.
pub proof fn lemma_silent(events: Seq<Event>, name: Seq<char>)
    requires
        forall|i: int| 0 <= i < events.len() ==> (#[trigger] events[i]).name != name,
    ensures
        handed_on(events, name) == Seq::<char>::empty(),
    decreases events.len(),
{
    if events.len() > 0 {
        let rest = events.drop_last();
        assert forall|i: int| 0 <= i < rest.len() implies (#[trigger] rest[i]).name != name by {
            assert(rest[i] == events[i]);
        }
        lemma_silent(rest, name);
        assert(events[events.len() - 1].name != name);
        assert(Seq::<char>::empty() + Seq::<char>::empty() =~= Seq::<char>::empty());
    }
}

/// The end of an answer hands on no piece, and changes neither the message nor the reasoning.
pub proof fn lemma_finish_step(s: StreamView, chunk: JsonView)
    ensures
        handed_on(finish_step(s, chunk).1, text_delta()) == Seq::<char>::empty(),
        handed_on(finish_step(s, chunk).1, reasoning_delta()) == Seq::<char>::empty(),
        finish_step(s, chunk).0.text == s.text,
        finish_step(s, chunk).0.reasoning == s.reasoning,
{
    reveal_strlit("response.output_text.delta");
    reveal_strlit("response.reasoning_summary_text.delta");
    reveal_strlit("response.reasoning_summary_text.done");
    reveal_strlit("response.reasoning_summary_part.done");
    reveal_strlit("response.output_item.done");
    reveal_strlit("response.output_text.done");
    reveal_strlit("response.content_part.done");
    reveal_strlit("response.completed");
    assert(text_delta().len() == 26 && reasoning_delta().len() == 37);
    assert("response.reasoning_summary_text.done"@.len() == 36);
    assert("response.reasoning_summary_part.done"@.len() == 36);
    assert("response.output_item.done"@.len() == 25);
    assert("response.output_text.done"@.len() == 25);
    assert("response.content_part.done"@.len() == 26);
    assert("response.content_part.done"@[9] != text_delta()[9]);
    assert("response.completed"@.len() == 18);
    let events = finish_step(s, chunk).1;
    assert forall|i: int| 0 <= i < events.len() implies (#[trigger] events[i]).name != text_delta()
        && events[i].name != reasoning_delta() by {}
    lemma_silent(events, text_delta());
    lemma_silent(events, reasoning_delta());
}

/// Whether the message and the reasoning have grown by what the events hand on of them.
pub open spec fn grows_by(s: StreamView, t: StreamView, events: Seq<Event>) -> bool {
    &&& t.text.text == s.text.text + handed_on(events, text_delta())
    &&& t.reasoning.text == s.reasoning.text + handed_on(events, reasoning_delta())
}

pub proof fn lemma_grows_join(
    s: StreamView,
    t: StreamView,
    u: StreamView,
    a: Seq<Event>,
    b: Seq<Event>,
)
    requires
        grows_by(s, t, a),
        grows_by(t, u, b),
    ensures
        grows_by(s, u, a + b),
{
    lemma_handed_on_add(a, b, text_delta());
    lemma_handed_on_add(a, b, reasoning_delta());
    assert(u.text.text =~= s.text.text + handed_on(a + b, text_delta()));
    assert(u.reasoning.text =~= s.reasoning.text + handed_on(a + b, reasoning_delta()));
}

pub proof fn lemma_grows_by_nothing(s: StreamView)
    ensures
        grows_by(s, s, Seq::empty()),
{
    assert(s.text.text =~= s.text.text + Seq::<char>::empty());
    assert(s.reasoning.text =~= s.reasoning.text + Seq::<char>::empty());
}

proof fn lemma_chunk_grows(c: ConverterView, event: Option<Seq<char>>, chunk: JsonView)
    ensures
        chunk_step(c, event, chunk).1 matches Ok(events) ==> grows_by(
            c.stream,
            chunk_step(c, event, chunk).0.stream,
            events,
        ),
{
    let step = chunk_step(c, event, chunk);
    lemma_grows_by_nothing(c.stream);
    if step.1 is Ok && chunk.items("choices"@).len() > 0 {
        let delta = chunk.items("choices"@)[0].member("delta"@);
        let after = delta_step(c.stream, delta);
        law_a_delta_hands_on_what_it_adds(c.stream, delta);
        assert(grows_by(c.stream, after.0, after.1));
        lemma_finish_step(after.0, chunk);
        lemma_grows_by_nothing(after.0);
        let end = finish_step(after.0, chunk);
        assert(grows_by(after.0, end.0, end.1));
        lemma_grows_join(c.stream, after.0, end.0, after.1, end.1);
    }
}

/// Whatever text of a stream comes, the message and the reasoning grow by exactly what the events
/// hand on of them.
pub proof fn law_a_stream_hands_on_what_it_adds(c: ConverterView, text: Seq<char>)
    ensures
        feed_step(c, text).2 matches Ok(events) ==> grows_by(
            c.stream,
            feed_step(c, text).0.stream,
            events,
        ),
    decreases text.len(),
{
    lemma_popped_shrinks(text);
    lemma_grows_by_nothing(c.stream);
    if let Some(block) = popped(text).0 {
        let step = block_step(c, block);
        if let Ok(chunk) = json_parse(trimmed(block.data)) {
            lemma_chunk_grows(c, block.event, chunk);
        }
        if step.1 is Ok && !step.0.stream.finished {
            let more = feed_step(step.0, popped(text).1);
            law_a_stream_hands_on_what_it_adds(step.0, popped(text).1);
            if more.2 is Ok {
                lemma_grows_join(
                    c.stream,
                    step.0.stream,
                    more.0.stream,
                    step.1->Ok_0,
                    more.2->Ok_0,
                );
            }
        }
    }
}

// ── arguments ─────────────────────────────────────────────────────────

/// The arguments of a tool call that have been handed on.
pub open spec fn released(stage: ToolStageView) -> Seq<char> {
    if stage.added {
        stage.arguments
    } else {
        Seq::empty()
    }
}

/// No argument of a tool call is dropped: what came before its item was opened is handed on with
/// it, and what comes later as it comes. The other tool calls stay as they are.
pub proof fn law_no_argument_is_dropped(
    s: StreamView,
    call: JsonView,
    reasoning: Option<Seq<char>>,
    other: usize,
)
    requires
        ordered(s.tools),
    ensures
        ({
            let index = call_index(call);
            let step = call_step(s, call, reasoning);
            &&& ordered(step.0.tools)
            &&& released(stage_at(step.0.tools, index)) == released(stage_at(s.tools, index))
                + handed_on(step.1, arguments_delta())
            &&& stage_at(step.0.tools, index).arguments == stage_at(s.tools, index).arguments
                + call_arguments(call)
            &&& other != index ==> stage_at(step.0.tools, other) == stage_at(s.tools, other)
        }),
{
    lemma_names();
    let index = call_index(call);
    let step = call_step(s, call, reasoning);
    let events = step.1;
    let stage = heard(stage_at(s.tools, index), call);
    let piece = call_arguments(call);
    if to_be_opened(stage) {
        let opened = opened_stage(stage, index, s.output_index);
        lemma_put_stage_all(s.tools, index, opened);
        reveal_with_fuel(handed_on, 3);
        if opened.arguments.len() > 0 {
            assert(events.drop_last().drop_last() =~= Seq::empty());
            assert(events.drop_last().last() == events[0]);
            assert(piece_of(events[1], arguments_delta()) == opened.arguments);
            assert(handed_on(events, arguments_delta()) =~= opened.arguments);
        } else {
            assert(events.drop_last() =~= Seq::empty());
            assert(handed_on(events, arguments_delta()) =~= opened.arguments);
        }
        assert(Seq::<char>::empty() + opened.arguments =~= opened.arguments);
    } else {
        lemma_put_stage_all(s.tools, index, stage);
        if stage.added && piece.len() > 0 {
            reveal_with_fuel(handed_on, 2);
            assert(events.drop_last() =~= Seq::empty());
            assert(piece_of(events[0], arguments_delta()) == piece);
            assert(handed_on(events, arguments_delta()) =~= piece);
        } else {
            assert(released(stage) =~= released(stage_at(s.tools, index)) + Seq::<char>::empty());
        }
    }
}

// ── output indices ────────────────────────────────────────────────────

/// Whether every item that has been opened has an output index of its own, below the next one.
pub open spec fn indices_apart(s: StreamView) -> bool {
    &&& s.reasoning.added ==> s.reasoning.output_index < s.output_index
    &&& s.text.added ==> s.text.output_index < s.output_index
    &&& s.reasoning.added && s.text.added ==> s.reasoning.output_index != s.text.output_index
    &&& forall|i: usize|
        (#[trigger] stage_at(s.tools, i)).added ==> {
            &&& stage_at(s.tools, i).output_index < s.output_index
            &&& s.reasoning.added ==> s.reasoning.output_index != stage_at(s.tools, i).output_index
            &&& s.text.added ==> s.text.output_index != stage_at(s.tools, i).output_index
        }
    &&& forall|i: usize, k: usize|
        i != k && (#[trigger] stage_at(s.tools, i)).added && (#[trigger] stage_at(s.tools, k)).added
            ==> stage_at(s.tools, i).output_index != stage_at(s.tools, k).output_index
}

/// Whether an event opens an output item.
pub open spec fn opens(event: Event) -> bool {
    event.name == "response.output_item.added"@
}

/// How many output items the events open.
pub open spec fn items_opened(events: Seq<Event>) -> nat
    decreases events.len(),
{
    if events.len() == 0 {
        0
    } else if opens(events.last()) {
        items_opened(events.drop_last()) + 1
    } else {
        items_opened(events.drop_last())
    }
}

pub proof fn lemma_items_opened_add(a: Seq<Event>, b: Seq<Event>)
    ensures
        items_opened(a + b) == items_opened(a) + items_opened(b),
    decreases b.len(),
{
    if b.len() == 0 {
        assert(a + b =~= a);
    } else {
        assert((a + b).drop_last() =~= a + b.drop_last());
        lemma_items_opened_add(a, b.drop_last());
    }
}

/// Events none of which opens an item open none.
pub proof fn lemma_nothing_opened(events: Seq<Event>)
    requires
        forall|i: int| 0 <= i < events.len() ==> !opens(#[trigger] events[i]),
    ensures
        items_opened(events) == 0,
    decreases events.len(),
{
    if events.len() > 0 {
        assert(!opens(events[events.len() - 1]));
        lemma_nothing_opened(events.drop_last());
    }
}

/// Whether an event is about the item with this output index.
pub open spec fn has_index(event: Event, output_index: int) -> bool {
    event.payload.get("output_index"@) == Some(JsonView::Int(output_index))
}

/// Whether the first of these events opens an item, under this output index, and no other does.
pub open spec fn opens_first(events: Seq<Event>, output_index: usize) -> bool {
    &&& events.len() > 0
    &&& opens(events[0])
    &&& has_index(events[0], output_index as int)
    &&& forall|i: int| 0 < i < events.len() ==> !opens(#[trigger] events[i])
}

/// Whether the events open nothing while the next output index stays, or one item under it while
/// the one after it comes next.
pub open spec fn opens_in_turn(s: StreamView, t: StreamView, events: Seq<Event>) -> bool {
    ||| {
        &&& forall|i: int| 0 <= i < events.len() ==> !opens(#[trigger] events[i])
        &&& t.output_index == s.output_index
    }
    ||| {
        &&& opens_first(events, s.output_index)
        &&& t.output_index == next_index(s.output_index)
    }
}

pub proof fn lemma_opened_in_turn(s: StreamView, t: StreamView, events: Seq<Event>)
    requires
        opens_in_turn(s, t, events),
    ensures
        items_opened(events) <= 1,
        items_opened(events) == 1 <==> opens_first(events, s.output_index),
        s.output_index + items_opened(events) <= usize::MAX ==> t.output_index == s.output_index
            + items_opened(events),
{
    if opens_first(events, s.output_index) {
        let rest = events.skip(1);
        assert(events =~= events.take(1) + rest);
        lemma_items_opened_add(events.take(1), rest);
        assert forall|i: int| 0 <= i < rest.len() implies !opens(#[trigger] rest[i]) by {
            assert(rest[i] == events[i + 1]);
        }
        lemma_nothing_opened(rest);
        assert(events.take(1).drop_last() =~= Seq::empty());
        assert(events.take(1).last() == events[0]);
        reveal_with_fuel(items_opened, 2);
    } else {
        lemma_nothing_opened(events);
    }
}

pub proof fn lemma_item_index(name: Seq<char>, output_index: usize, item: JsonView)
    ensures
        has_index(item_event(name, output_index, item), output_index as int),
        item_event(name, output_index, item).payload.get("item"@) == Some(item),
{
    reveal_strlit("output_index");
    reveal_strlit("item");
    assert("output_index"@.len() == 12 && "item"@.len() == 4);
}

pub proof fn lemma_reasoning_opens(s: StreamView, piece: Seq<char>)
    ensures
        opens_in_turn(s, reasoning_step(s, piece).0, reasoning_step(s, piece).1),
{
    lemma_names();
    let events = reasoning_step(s, piece).1;
    if !s.reasoning.added {
        let stage = reasoning_opened(s).reasoning;
        let item = reasoning_item(stage.item_id, JsonView::Array(Seq::empty())).with_text(
            "status"@,
            "in_progress"@,
        );
        lemma_item_index("response.output_item.added"@, stage.output_index, item);
        assert(opens_first(events, s.output_index));
    }
}

pub proof fn lemma_content_opens(s: StreamView, piece: Seq<char>)
    ensures
        opens_in_turn(s, content_step(s, piece).0, content_step(s, piece).1),
{
    lemma_names();
    let events = content_step(s, piece).1;
    if !s.text.added {
        let stage = text_opened(s).text;
        let item = message_item(stage.item_id, JsonView::Array(Seq::empty())).with_text(
            "status"@,
            "in_progress"@,
        );
        lemma_item_index("response.output_item.added"@, stage.output_index, item);
        assert(opens_first(events, s.output_index));
    }
}

/// The item that the opening of a tool call shows.
pub open spec fn opened_item(
    stage: ToolStageView,
    reasoning: Option<Seq<char>>,
    s: StreamView,
) -> JsonView {
    let item = call_item(stage, "in_progress"@, None, s.custom_tools);
    match reasoning {
        Some(text) => item.with_text("reasoning_content"@, text),
        None => item,
    }
}

pub proof fn lemma_call_opens(s: StreamView, call: JsonView, reasoning: Option<Seq<char>>)
    ensures
        opens_in_turn(
            s,
            call_step(s, call, reasoning).0,
            call_step(s, call, reasoning).1,
        ),
        to_be_opened(heard(stage_at(s.tools, call_index(call)), call)) <==> opens_first(
            call_step(s, call, reasoning).1,
            s.output_index,
        ),
{
    lemma_names();
    let events = call_step(s, call, reasoning).1;
    let stage = heard(stage_at(s.tools, call_index(call)), call);
    if to_be_opened(stage) {
        let item = opened_item(opened_stage(stage, call_index(call), s.output_index), reasoning, s);
        lemma_item_index("response.output_item.added"@, s.output_index, item);
        assert(events[0] == item_event("response.output_item.added"@, s.output_index, item));
    }
}

pub proof fn lemma_call_indices(s: StreamView, call: JsonView, reasoning: Option<Seq<char>>)
    requires
        ordered(s.tools),
        indices_apart(s),
        s.output_index + items_opened(call_step(s, call, reasoning).1) <= usize::MAX,
    ensures
        ordered(call_step(s, call, reasoning).0.tools),
        indices_apart(call_step(s, call, reasoning).0),
        call_step(s, call, reasoning).0.output_index == s.output_index + items_opened(
            call_step(s, call, reasoning).1,
        ),
{
    lemma_call_opens(s, call, reasoning);
    let step = call_step(s, call, reasoning);
    lemma_opened_in_turn(s, step.0, step.1);
    let index = call_index(call);
    let stage = heard(stage_at(s.tools, index), call);
    if to_be_opened(stage) {
        lemma_put_stage_all(s.tools, index, opened_stage(stage, index, s.output_index));
    } else {
        lemma_put_stage_all(s.tools, index, stage);
    }
}

pub proof fn lemma_calls_indices(s: StreamView, calls: Seq<JsonView>, reasoning: Option<Seq<char>>)
    requires
        ordered(s.tools),
        indices_apart(s),
        s.output_index + items_opened(calls_step(s, calls, reasoning).1) <= usize::MAX,
    ensures
        ordered(calls_step(s, calls, reasoning).0.tools),
        indices_apart(calls_step(s, calls, reasoning).0),
        calls_step(s, calls, reasoning).0.output_index == s.output_index + items_opened(
            calls_step(s, calls, reasoning).1,
        ),
    decreases calls.len(),
{
    if calls.len() > 0 {
        let before = calls_step(s, calls.drop_last(), reasoning);
        lemma_items_opened_add(before.1, call_step(before.0, calls.last(), reasoning).1);
        lemma_calls_indices(s, calls.drop_last(), reasoning);
        lemma_call_indices(
            calls_step(s, calls.drop_last(), reasoning).0,
            calls.last(),
            reasoning,
        );
    }
}

/// Every item of an answer has an output index of its own, as long as there are indices left.
pub proof fn law_output_indices_stay_apart(s: StreamView, delta: JsonView)
    requires
        ordered(s.tools),
        indices_apart(s),
        s.output_index + items_opened(delta_step(s, delta).1) <= usize::MAX,
    ensures
        ordered(delta_step(s, delta).0.tools),
        indices_apart(delta_step(s, delta).0),
        delta_step(s, delta).0.output_index == s.output_index + items_opened(
            delta_step(s, delta).1,
        ),
{
    let reasoned = match delta.full_text("reasoning_content"@) {
        Some(piece) => reasoning_step(s, piece),
        None => (s, Seq::empty()),
    };
    let spoken = match delta.full_text("content"@) {
        Some(piece) => content_step(reasoned.0, piece),
        None => (reasoned.0, Seq::empty()),
    };
    let thought = substance(spoken.0.reasoning.text);
    let called = calls_step(spoken.0, delta.items("tool_calls"@), thought);
    lemma_delta_opens(s, delta);
    assert(indices_apart(reasoned.0));
    assert(indices_apart(spoken.0));
    lemma_calls_indices(spoken.0, delta.items("tool_calls"@), thought);
}

/// The items that a delta opens: the reasoning, the message, and tool calls.
proof fn lemma_delta_opens(s: StreamView, delta: JsonView)
    ensures
        ({
            let reasoned = match delta.full_text("reasoning_content"@) {
                Some(piece) => reasoning_step(s, piece),
                None => (s, Seq::empty()),
            };
            let spoken = match delta.full_text("content"@) {
                Some(piece) => content_step(reasoned.0, piece),
                None => (reasoned.0, Seq::empty()),
            };
            let called = calls_step(
                spoken.0,
                delta.items("tool_calls"@),
                substance(spoken.0.reasoning.text),
            );
            &&& opens_in_turn(s, reasoned.0, reasoned.1)
            &&& opens_in_turn(reasoned.0, spoken.0, spoken.1)
            &&& items_opened(delta_step(s, delta).1) == items_opened(reasoned.1) + items_opened(
                spoken.1,
            ) + items_opened(called.1)
            &&& s.output_index + items_opened(reasoned.1) <= usize::MAX ==> reasoned.0.output_index
                == s.output_index + items_opened(reasoned.1)
            &&& reasoned.0.output_index + items_opened(spoken.1) <= usize::MAX
                ==> spoken.0.output_index == reasoned.0.output_index + items_opened(spoken.1)
        }),
{
    let reasoned = match delta.full_text("reasoning_content"@) {
        Some(piece) => reasoning_step(s, piece),
        None => (s, Seq::empty()),
    };
    let spoken = match delta.full_text("content"@) {
        Some(piece) => content_step(reasoned.0, piece),
        None => (reasoned.0, Seq::empty()),
    };
    let called = calls_step(
        spoken.0,
        delta.items("tool_calls"@),
        substance(spoken.0.reasoning.text),
    );
    if let Some(piece) = delta.full_text("reasoning_content"@) {
        lemma_reasoning_opens(s, piece);
    }
    if let Some(piece) = delta.full_text("content"@) {
        lemma_content_opens(reasoned.0, piece);
    }
    lemma_opened_in_turn(s, reasoned.0, reasoned.1);
    lemma_opened_in_turn(reasoned.0, spoken.0, spoken.1);
    lemma_items_opened_add(reasoned.1, spoken.1);
    lemma_items_opened_add(reasoned.1 + spoken.1, called.1);
}

/// Before anything has come, no index has been given away.
pub proof fn law_output_indices_start_apart(id: Seq<char>, model: Seq<char>, tools: Option<JsonView>)
    ensures
        ordered(fresh(id, model, tools).stream.tools),
        indices_apart(fresh(id, model, tools).stream),
{
    let s = fresh(id, model, tools).stream;
    assert forall|i: usize| !(#[trigger] stage_at(s.tools, i)).added by {
        assert(slot(s.tools, i) == 0);
    }
}

// ── every argument under its own index ────────────────────────────────

/// The piece of arguments that an event hands on for the item with this output index.
pub open spec fn argument_of(event: Event, output_index: int) -> Seq<char> {
    if has_index(event, output_index) {
        piece_of(event, arguments_delta())
    } else {
        Seq::empty()
    }
}

/// The arguments that the events hand on for the item with this output index.
pub open spec fn arguments_for(events: Seq<Event>, output_index: int) -> Seq<char>
    decreases events.len(),
{
    if events.len() == 0 {
        Seq::empty()
    } else {
        arguments_for(events.drop_last(), output_index) + argument_of(events.last(), output_index)
    }
}

proof fn lemma_arguments_for_add(a: Seq<Event>, b: Seq<Event>, i: int)
    ensures
        arguments_for(a + b, i) == arguments_for(a, i) + arguments_for(b, i),
    decreases b.len(),
{
    if b.len() == 0 {
        assert(a + b =~= a);
        assert(arguments_for(a, i) + Seq::<char>::empty() =~= arguments_for(a, i));
    } else {
        assert((a + b).drop_last() =~= a + b.drop_last());
        lemma_arguments_for_add(a, b.drop_last(), i);
        assert(arguments_for(a, i) + (arguments_for(b.drop_last(), i) + argument_of(b.last(), i))
            =~= arguments_for(a, i) + arguments_for(b.drop_last(), i) + argument_of(b.last(), i));
    }
}

/// Events without arguments hand none on.
proof fn lemma_no_arguments(events: Seq<Event>, i: int)
    requires
        forall|k: int| 0 <= k < events.len() ==> (#[trigger] events[k]).name != arguments_delta(),
    ensures
        arguments_for(events, i) == Seq::<char>::empty(),
    decreases events.len(),
{
    if events.len() > 0 {
        lemma_no_arguments(events.drop_last(), i);
        assert(events[events.len() - 1].name != arguments_delta());
        assert(Seq::<char>::empty() + Seq::<char>::empty() =~= Seq::<char>::empty());
    }
}

/// Whether the events from `s` to `t` hand on, for every tool call, what it has released since,
/// and nothing for an index that has not been given away.
pub open spec fn accounts_for(s: StreamView, t: StreamView, events: Seq<Event>) -> bool {
    &&& forall|i: usize|
        (#[trigger] stage_at(t.tools, i)).added ==> released(stage_at(t.tools, i)) == released(
            stage_at(s.tools, i),
        ) + arguments_for(events, stage_at(t.tools, i).output_index as int)
    &&& forall|i: usize|
        (#[trigger] stage_at(s.tools, i)).added ==> stage_at(t.tools, i).added && stage_at(
            t.tools,
            i,
        ).output_index == stage_at(s.tools, i).output_index
    &&& forall|i: usize|
        (#[trigger] stage_at(t.tools, i)).added && !stage_at(s.tools, i).added ==> stage_at(
            t.tools,
            i,
        ).output_index >= s.output_index
    &&& forall|o: int|
        o >= t.output_index ==> #[trigger] arguments_for(events, o) == Seq::<char>::empty()
    &&& s.output_index <= t.output_index
}

proof fn lemma_argument_of(stage: ToolStageView, piece: Seq<char>, o: int)
    ensures
        argument_of(arguments_event(stage, piece), o) == if o == stage.output_index {
            piece
        } else {
            Seq::empty()
        },
{
    reveal_strlit("output_index");
    reveal_strlit("delta");
    assert("output_index"@.len() == 12 && "delta"@.len() == 5);
    let event = arguments_event(stage, piece);
    assert(event.payload.get("output_index"@) == Some(JsonView::Int(stage.output_index as int)));
    assert(event.payload.text("delta"@) == Some(piece));
}

proof fn lemma_call_accounts(s: StreamView, call: JsonView, reasoning: Option<Seq<char>>)
    requires
        ordered(s.tools),
        indices_apart(s),
        s.output_index + items_opened(call_step(s, call, reasoning).1) <= usize::MAX,
    ensures
        accounts_for(
            s,
            call_step(s, call, reasoning).0,
            call_step(s, call, reasoning).1,
        ),
{
    lemma_names();
    lemma_call_indices(s, call, reasoning);
    let index = call_index(call);
    let step = call_step(s, call, reasoning);
    let t = step.0;
    let events = step.1;
    let old_stage = stage_at(s.tools, index);
    let stage = heard(old_stage, call);
    let piece = call_arguments(call);
    let new = if to_be_opened(stage) {
        opened_stage(stage, index, s.output_index)
    } else {
        stage
    };
    lemma_put_stage_all(s.tools, index, new);
    let given = if to_be_opened(stage) {
        stage.arguments
    } else if stage.added {
        piece
    } else {
        Seq::empty()
    };
    assert forall|o: int| #[trigger]
        arguments_for(events, o) == if new.added && o == new.output_index {
            given
        } else {
            Seq::empty()
        } by {
        reveal_with_fuel(arguments_for, 3);
        let empty = Seq::<char>::empty();
        lemma_argument_of(new, given, o);
        if events.len() == 2 {
            assert(events.drop_last().drop_last() =~= Seq::empty());
            assert(events.drop_last().last() == events[0]);
            assert(argument_of(events[0], o) == empty);
            assert(argument_of(events[1], o) == if o == new.output_index {
                given
            } else {
                empty
            });
            assert(empty + empty + argument_of(events[1], o) =~= argument_of(events[1], o));
        } else if events.len() == 1 {
            assert(events.drop_last() =~= Seq::empty());
            assert(empty + argument_of(events[0], o) =~= argument_of(events[0], o));
        }
        assert(given.len() == 0 ==> given =~= empty);
    }
    assert forall|i: usize| (#[trigger] stage_at(t.tools, i)).added implies released(
        stage_at(t.tools, i),
    ) == released(stage_at(s.tools, i)) + arguments_for(
        events,
        stage_at(t.tools, i).output_index as int,
    ) by {
        let now = stage_at(t.tools, i);
        if i == index {
            assert(released(now) =~= released(old_stage) + given);
        } else {
            assert(now == stage_at(s.tools, i));
            if new.added {
                assert(stage_at(t.tools, index).added);
                assert(now.output_index != new.output_index);
            }
            assert(released(now) + Seq::<char>::empty() =~= released(now));
        }
    }
}

pub proof fn lemma_accounts_join(
    s: StreamView,
    t: StreamView,
    u: StreamView,
    a: Seq<Event>,
    b: Seq<Event>,
)
    requires
        accounts_for(s, t, a),
        accounts_for(t, u, b),
    ensures
        accounts_for(s, u, a + b),
{
    let both = a + b;
    assert forall|i: usize| (#[trigger] stage_at(u.tools, i)).added implies released(
        stage_at(u.tools, i),
    ) == released(stage_at(s.tools, i)) + arguments_for(
        both,
        stage_at(u.tools, i).output_index as int,
    ) by {
        let o = stage_at(u.tools, i).output_index as int;
        lemma_arguments_for_add(a, b, o);
        let x = released(stage_at(s.tools, i));
        if stage_at(t.tools, i).added {
            assert(x + arguments_for(a, o) + arguments_for(b, o) =~= x + (arguments_for(a, o)
                + arguments_for(b, o)));
        } else {
            assert(!stage_at(s.tools, i).added);
            assert(arguments_for(a, o) == Seq::<char>::empty());
            assert(Seq::<char>::empty() + (Seq::<char>::empty() + arguments_for(b, o))
                =~= Seq::<char>::empty() + arguments_for(b, o));
        }
    }
    assert forall|i: usize| (#[trigger] stage_at(s.tools, i)).added implies stage_at(
        u.tools,
        i,
    ).added && stage_at(u.tools, i).output_index == stage_at(s.tools, i).output_index by {
        assert(stage_at(t.tools, i).added);
    }
    assert forall|i: usize|
        (#[trigger] stage_at(u.tools, i)).added && !stage_at(s.tools, i).added implies stage_at(
        u.tools,
        i,
    ).output_index >= s.output_index by {
        if stage_at(t.tools, i).added {
            assert(stage_at(u.tools, i).output_index == stage_at(t.tools, i).output_index);
        }
    }
    assert forall|o: int| o >= u.output_index implies #[trigger] arguments_for(both, o) == Seq::<
        char,
    >::empty() by {
        lemma_arguments_for_add(a, b, o);
        assert(arguments_for(a, o) == Seq::<char>::empty());
        assert(arguments_for(b, o) == Seq::<char>::empty());
        assert(Seq::<char>::empty() + Seq::<char>::empty() =~= Seq::<char>::empty());
    }
}

/// Events without arguments account for a step that leaves the tool calls as they are.
pub proof fn lemma_quiet_accounts(s: StreamView, t: StreamView, events: Seq<Event>)
    requires
        t.tools == s.tools,
        s.output_index <= t.output_index,
        forall|k: int| 0 <= k < events.len() ==> (#[trigger] events[k]).name != arguments_delta(),
    ensures
        accounts_for(s, t, events),
{
    assert forall|o: int| #[trigger] arguments_for(events, o) == Seq::<char>::empty() by {
        lemma_no_arguments(events, o);
    }
    assert forall|i: usize| (#[trigger] stage_at(t.tools, i)).added implies released(
        stage_at(t.tools, i),
    ) == released(stage_at(s.tools, i)) + arguments_for(
        events,
        stage_at(t.tools, i).output_index as int,
    ) by {
        let x = released(stage_at(s.tools, i));
        assert(x + Seq::<char>::empty() =~= x);
    }
}

proof fn lemma_calls_account(s: StreamView, calls: Seq<JsonView>, reasoning: Option<Seq<char>>)
    requires
        ordered(s.tools),
        indices_apart(s),
        s.output_index + items_opened(calls_step(s, calls, reasoning).1) <= usize::MAX,
    ensures
        accounts_for(
            s,
            calls_step(s, calls, reasoning).0,
            calls_step(s, calls, reasoning).1,
        ),
    decreases calls.len(),
{
    if calls.len() == 0 {
        lemma_quiet_accounts(s, s, Seq::empty());
    } else {
        let before = calls_step(s, calls.drop_last(), reasoning);
        let last = call_step(before.0, calls.last(), reasoning);
        lemma_items_opened_add(before.1, last.1);
        lemma_calls_account(s, calls.drop_last(), reasoning);
        lemma_calls_indices(s, calls.drop_last(), reasoning);
        lemma_call_accounts(before.0, calls.last(), reasoning);
        lemma_accounts_join(s, before.0, last.0, before.1, last.1);
    }
}

/// The events of a delta hand on, under the output index of each tool call, what of its arguments
/// they did not hand on before, as long as there are indices left.
pub proof fn law_arguments_go_to_their_own_call(s: StreamView, delta: JsonView)
    requires
        ordered(s.tools),
        indices_apart(s),
        s.output_index + items_opened(delta_step(s, delta).1) <= usize::MAX,
    ensures
        accounts_for(s, delta_step(s, delta).0, delta_step(s, delta).1),
{
    lemma_names();
    let reasoned = match delta.full_text("reasoning_content"@) {
        Some(piece) => reasoning_step(s, piece),
        None => (s, Seq::empty()),
    };
    let spoken = match delta.full_text("content"@) {
        Some(piece) => content_step(reasoned.0, piece),
        None => (reasoned.0, Seq::empty()),
    };
    let thought = substance(spoken.0.reasoning.text);
    let called = calls_step(spoken.0, delta.items("tool_calls"@), thought);
    lemma_delta_opens(s, delta);
    assert(indices_apart(reasoned.0));
    assert(indices_apart(spoken.0));
    lemma_quiet_accounts(s, reasoned.0, reasoned.1);
    lemma_quiet_accounts(reasoned.0, spoken.0, spoken.1);
    lemma_calls_account(spoken.0, delta.items("tool_calls"@), thought);
    lemma_accounts_join(s, reasoned.0, spoken.0, reasoned.1, spoken.1);
    lemma_accounts_join(s, spoken.0, called.0, reasoned.1 + spoken.1, called.1);
}

// ── the end ───────────────────────────────────────────────────────────

/// An answer ends once: whatever comes after its end gives no event and changes nothing.
pub proof fn law_an_answer_ends_once(s: StreamView, chunk: JsonView, later: JsonView)
    ensures
        finish_step(s, chunk).0.finished,
        finish_step(finish_step(s, chunk).0, later) == (
            finish_step(s, chunk).0,
            Seq::<Event>::empty(),
        ),
{
}

/// Whether `s` is as far as `t` or farther: what has been opened stays open.
pub open spec fn goes_on_from(s: StreamView, t: StreamView) -> bool {
    &&& t.reasoning.added ==> s.reasoning.added
    &&& t.text.added ==> s.text.added
    &&& forall|i: usize| (#[trigger] stage_at(t.tools, i)).added ==> stage_at(s.tools, i).added
    &&& t.finished == s.finished
}

proof fn lemma_calls_go_on(s: StreamView, calls: Seq<JsonView>, reasoning: Option<Seq<char>>)
    requires
        ordered(s.tools),
    ensures
        ordered(calls_step(s, calls, reasoning).0.tools),
        goes_on_from(calls_step(s, calls, reasoning).0, s),
    decreases calls.len(),
{
    if calls.len() > 0 {
        lemma_calls_go_on(s, calls.drop_last(), reasoning);
        let before = calls_step(s, calls.drop_last(), reasoning).0;
        let index = call_index(calls.last());
        let stage = heard(stage_at(before.tools, index), calls.last());
        if to_be_opened(stage) {
            lemma_put_stage_all(
                before.tools,
                index,
                opened_stage(stage, index, before.output_index),
            );
        } else {
            lemma_put_stage_all(before.tools, index, stage);
        }
    }
}

/// A delta closes nothing, and does not end the answer.
pub proof fn law_a_delta_closes_nothing(s: StreamView, delta: JsonView)
    requires
        ordered(s.tools),
    ensures
        ordered(delta_step(s, delta).0.tools),
        goes_on_from(delta_step(s, delta).0, s),
{
    let reasoned = match delta.full_text("reasoning_content"@) {
        Some(piece) => reasoning_step(s, piece),
        None => (s, Seq::empty()),
    };
    let spoken = match delta.full_text("content"@) {
        Some(piece) => content_step(reasoned.0, piece),
        None => (reasoned.0, Seq::empty()),
    };
    lemma_calls_go_on(
        spoken.0,
        delta.items("tool_calls"@),
        substance(spoken.0.reasoning.text),
    );
    let end = delta_step(s, delta).0;
    assert(spoken.0.tools == s.tools);
    assert forall|i: usize| (#[trigger] stage_at(s.tools, i)).added implies stage_at(
        end.tools,
        i,
    ).added by {
        assert(stage_at(spoken.0.tools, i).added);
    }
}

/// Whether an answer that has ended has some output.
pub open spec fn ends_with_output(s: StreamView) -> bool {
    s.finished ==> has_output(s) && s.usage is Some
}

proof fn lemma_output_goes_on(s: StreamView, t: StreamView)
    requires
        ordered(t.tools),
        goes_on_from(s, t),
        has_output(t),
        ordered(s.tools),
    ensures
        has_output(s),
{
    if !t.reasoning.added && !t.text.added {
        let i = choose|i: int| 0 <= i < t.tools.len() && (#[trigger] t.tools[i]).1.added;
        let index = t.tools[i].0;
        lemma_stage_of(t.tools, i);
        assert(stage_at(t.tools, index).added);
        assert(stage_at(s.tools, index).added);
        let k = slot(s.tools, index) as int;
        assert(s.tools[k].1.added);
    }
}

/// An answer ends only with output, and with its counts: a stream without output never does.
pub proof fn law_an_answer_ends_with_output(
    c: ConverterView,
    event: Option<Seq<char>>,
    chunk: JsonView,
)
    requires
        ordered(c.stream.tools),
        ends_with_output(c.stream),
    ensures
        ordered(chunk_step(c, event, chunk).0.stream.tools),
        ends_with_output(chunk_step(c, event, chunk).0.stream),
        ends_with_output(end_step(c).0.stream),
{
    if chunk.items("choices"@).len() > 0 {
        let delta = chunk.items("choices"@)[0].member("delta"@);
        law_a_delta_closes_nothing(c.stream, delta);
        let after = delta_step(c.stream, delta).0;
        if c.stream.finished {
            lemma_output_goes_on(after, c.stream);
        }
        lemma_delta_keeps_usage(c.stream, delta);
        lemma_finish_keeps_output(after, chunk);
    }
    lemma_finish_keeps_output(c.stream, empty_object());
}

proof fn lemma_finish_keeps_output(s: StreamView, chunk: JsonView)
    ensures
        has_output(s) ==> has_output(finish_step(s, chunk).0),
{
    let t = finish_step(s, chunk).0;
    assert(t.tools == s.tools && t.text == s.text && t.reasoning == s.reasoning);
    if has_output(s) && !s.reasoning.added && !s.text.added {
        let i = choose|i: int| 0 <= i < s.tools.len() && (#[trigger] s.tools[i]).1.added;
        assert(t.tools[i].1.added);
    }
}

proof fn lemma_calls_keep_usage(s: StreamView, calls: Seq<JsonView>, reasoning: Option<Seq<char>>)
    ensures
        calls_step(s, calls, reasoning).0.usage == s.usage,
    decreases calls.len(),
{
    if calls.len() > 0 {
        lemma_calls_keep_usage(s, calls.drop_last(), reasoning);
    }
}

proof fn lemma_delta_keeps_usage(s: StreamView, delta: JsonView)
    ensures
        delta_step(s, delta).0.usage == s.usage,
{
    let reasoned = match delta.full_text("reasoning_content"@) {
        Some(piece) => reasoning_step(s, piece),
        None => (s, Seq::empty()),
    };
    let spoken = match delta.full_text("content"@) {
        Some(piece) => content_step(reasoned.0, piece),
        None => (reasoned.0, Seq::empty()),
    };
    lemma_calls_keep_usage(
        spoken.0,
        delta.items("tool_calls"@),
        substance(spoken.0.reasoning.text),
    );
}

/// However much text of a stream has come, an answer that has ended has some output.
pub proof fn law_a_stream_ends_with_output(c: ConverterView, text: Seq<char>)
    requires
        ordered(c.stream.tools),
        ends_with_output(c.stream),
    ensures
        ordered(feed_step(c, text).0.stream.tools),
        ends_with_output(feed_step(c, text).0.stream),
    decreases text.len(),
{
    lemma_popped_shrinks(text);
    if let Some(block) = popped(text).0 {
        let step = block_step(c, block);
        if let Ok(chunk) = json_parse(trimmed(block.data)) {
            law_an_answer_ends_with_output(c, block.event, chunk);
        }
        if step.1 is Ok && !step.0.stream.finished {
            law_a_stream_ends_with_output(step.0, popped(text).1);
        }
    }
}

} // verus!

//! What holds of a whole run of deltas: the items are counted through, and every tool call is
//! opened once and told in full.
use vstd::prelude::*;

use crate::json::JsonView;
use crate::proxy::converter::fresh;
use crate::proxy::sse::Event;
use crate::proxy::stage::{has_stage, lemma_put_stage_all, ordered, put_stage, slot, stage_at};
use crate::proxy::stage::ToolStageView;
use crate::proxy::stream::{arguments_event, call_arguments, call_index, call_step, calls_step};
use crate::proxy::stream::{content_step, delta_step, heard, item_event, message_item};
use crate::proxy::stream::{opened_stage, reasoning_item, reasoning_opened, reasoning_step};
use crate::proxy::stream::{text_opened, to_be_opened, StreamView};
use crate::proxy::stream_laws::{accounts_for, arguments_delta, arguments_for, deltas_step};
use crate::proxy::stream_laws::{has_index, indices_apart, items_opened, lemma_accounts_join};
use crate::proxy::stream_laws::{lemma_call_indices, lemma_call_opens, lemma_content_opens};
use crate::proxy::stream_laws::{lemma_item_index, lemma_items_opened_add, lemma_names};
use crate::proxy::stream_laws::{lemma_opened_in_turn, lemma_quiet_accounts, lemma_reasoning_opens};
use crate::proxy::stream_laws::{law_arguments_go_to_their_own_call, opened_item, opens};
use crate::proxy::stream_laws::{law_output_indices_start_apart, opens_in_turn};
use crate::text::substance;

verus! {

// ── items counted through ─────────────────────────────────────────────

/// Whether an event opens an item of this type.
pub open spec fn opens_type(event: Event, kind: Seq<char>) -> bool {
    opens(event) && event.payload.member("item"@).text("type"@) == Some(kind)
}

/// How many items of this type the events open.
pub open spec fn opened_of_type(events: Seq<Event>, kind: Seq<char>) -> nat
    decreases events.len(),
{
    if events.len() == 0 {
        0
    } else if opens_type(events.last(), kind) {
        opened_of_type(events.drop_last(), kind) + 1
    } else {
        opened_of_type(events.drop_last(), kind)
    }
}

/// Whether every item is opened under the number of items opened before it, as long as there are
/// indices left.
pub open spec fn numbered(events: Seq<Event>) -> bool {
    forall|k: int|
        0 <= k < events.len() && opens(#[trigger] events[k]) && items_opened(events.take(k))
            <= usize::MAX ==> has_index(events[k], items_opened(events.take(k)) as int)
}

/// Whether a state counts its items as the events that led to it do.
pub open spec fn counts_along(s: StreamView, events: Seq<Event>) -> bool {
    &&& numbered(events)
    &&& items_opened(events) <= usize::MAX ==> s.output_index == items_opened(events)
    &&& opened_of_type(events, "reasoning"@) == if s.reasoning.added {
        1nat
    } else {
        0nat
    }
    &&& opened_of_type(events, "message"@) == if s.text.added {
        1nat
    } else {
        0nat
    }
}

proof fn lemma_opened_of_type_add(a: Seq<Event>, b: Seq<Event>, kind: Seq<char>)
    ensures
        opened_of_type(a + b, kind) == opened_of_type(a, kind) + opened_of_type(b, kind),
    decreases b.len(),
{
    if b.len() == 0 {
        assert(a + b =~= a);
    } else {
        assert((a + b).drop_last() =~= a + b.drop_last());
        lemma_opened_of_type_add(a, b.drop_last(), kind);
    }
}

/// Where only the first event may open an item, its type decides.
proof fn lemma_type_of_first(events: Seq<Event>, kind: Seq<char>)
    requires
        forall|i: int| 0 < i < events.len() ==> !opens(#[trigger] events[i]),
    ensures
        opened_of_type(events, kind) == if events.len() > 0 && opens_type(events[0], kind) {
            1nat
        } else {
            0nat
        },
    decreases events.len(),
{
    reveal_with_fuel(opened_of_type, 2);
    if events.len() == 1 {
        assert(events.drop_last() =~= Seq::empty());
    } else if events.len() > 1 {
        let rest = events.drop_last();
        assert forall|i: int| 0 < i < rest.len() implies !opens(#[trigger] rest[i]) by {
            assert(rest[i] == events[i]);
        }
        lemma_type_of_first(rest, kind);
        assert(!opens(events[events.len() - 1]));
    }
}

/// Events that open in turn are numbered on.
proof fn lemma_counts_on(s: StreamView, t: StreamView, events: Seq<Event>, more: Seq<Event>)
    requires
        numbered(events),
        items_opened(events) <= usize::MAX ==> s.output_index == items_opened(events),
        opens_in_turn(s, t, more),
    ensures
        numbered(events + more),
        items_opened(events + more) <= usize::MAX ==> t.output_index == items_opened(events + more),
        forall|kind: Seq<char>| #[trigger]
            opened_of_type(events + more, kind) == opened_of_type(events, kind) + if more.len() > 0
                && opens_type(more[0], kind) {
                1nat
            } else {
                0nat
            },
{
    let both = events + more;
    lemma_items_opened_add(events, more);
    lemma_opened_in_turn(s, t, more);
    assert forall|k: int|
        0 <= k < both.len() && opens(#[trigger] both[k]) && items_opened(both.take(k))
            <= usize::MAX implies has_index(both[k], items_opened(both.take(k)) as int) by {
        if k < events.len() {
            assert(both[k] == events[k]);
            assert(both.take(k) =~= events.take(k));
        } else {
            assert(both[k] == more[k - events.len()]);
            assert(k == events.len());
            assert(both.take(k) =~= events);
        }
    }
    assert forall|kind: Seq<char>| #[trigger]
        opened_of_type(both, kind) == opened_of_type(events, kind) + if more.len() > 0
            && opens_type(more[0], kind) {
            1nat
        } else {
            0nat
        } by {
        lemma_opened_of_type_add(events, more, kind);
        lemma_type_of_first(more, kind);
    }
}

// ── what an item is ───────────────────────────────────────────────────

/// The types of the items that are opened.
pub proof fn lemma_text_item_types(id: Seq<char>)
    ensures
        reasoning_item(id, JsonView::Array(Seq::empty())).with_text(
            "status"@,
            "in_progress"@,
        ).text("type"@) == Some("reasoning"@),
        message_item(id, JsonView::Array(Seq::empty())).with_text(
            "status"@,
            "in_progress"@,
        ).text("type"@) == Some("message"@),
        "reasoning"@ != "message"@,
{
    reveal_strlit("id");
    reveal_strlit("type");
    reveal_strlit("role");
    reveal_strlit("status");
    reveal_strlit("summary");
    reveal_strlit("content");
    reveal_strlit("reasoning");
    reveal_strlit("message");
    assert("id"@.len() == 2 && "type"@.len() == 4 && "role"@.len() == 4 && "status"@.len() == 6);
    assert("summary"@.len() == 7 && "content"@.len() == 7);
    assert("type"@[0] != "role"@[0]);
    assert("reasoning"@.len() == 9 && "message"@.len() == 7);
}

/// Whether an event that opens an item shows this tool call: it is no reasoning and no message, and
/// where it has an id, that is the one of the tool call.
pub open spec fn shows_call(event: Event, stage: ToolStageView) -> bool {
    let item = event.payload.member("item"@);
    &&& item.text("type"@) != Some("reasoning"@)
    &&& item.text("type"@) != Some("message"@)
    &&& item.text("id"@) == None::<Seq<char>> || item.text("id"@) == Some(stage.item_id)
}

proof fn lemma_call_item(stage: ToolStageView, reasoning: Option<Seq<char>>, s: StreamView)
    ensures
        ({
            let item = opened_item(stage, reasoning, s);
            &&& item.text("type"@) != Some("reasoning"@)
            &&& item.text("type"@) != Some("message"@)
            &&& item.text("id"@) == None::<Seq<char>> || item.text("id"@) == Some(stage.item_id)
        }),
{
    reveal_strlit("id");
    reveal_strlit("type");
    reveal_strlit("name");
    reveal_strlit("status");
    reveal_strlit("call_id");
    reveal_strlit("input");
    reveal_strlit("execution");
    reveal_strlit("arguments");
    reveal_strlit("namespace");
    reveal_strlit("reasoning_content");
    reveal_strlit("reasoning");
    reveal_strlit("message");
    reveal_strlit("tool_search_call");
    reveal_strlit("custom_tool_call");
    reveal_strlit("function_call");
    assert("id"@.len() == 2 && "type"@.len() == 4 && "name"@.len() == 4 && "status"@.len() == 6);
    assert("call_id"@.len() == 7 && "input"@.len() == 5 && "execution"@.len() == 9);
    assert("arguments"@.len() == 9 && "namespace"@.len() == 9);
    assert("reasoning_content"@.len() == 17);
    assert("type"@[0] != "name"@[0]);
    assert("reasoning"@.len() == 9 && "message"@.len() == 7);
    assert("tool_search_call"@.len() == 16 && "custom_tool_call"@.len() == 16);
    assert("function_call"@.len() == 13);
}

pub proof fn lemma_call_shown(s: StreamView, call: JsonView, reasoning: Option<Seq<char>>)
    ensures
        ({
            let index = call_index(call);
            let stage = heard(stage_at(s.tools, index), call);
            let events = call_step(s, call, reasoning).1;
            to_be_opened(stage) ==> events.len() > 0 && shows_call(
                events[0],
                opened_stage(stage, index, s.output_index),
            )
        }),
{
    let index = call_index(call);
    let stage = heard(stage_at(s.tools, index), call);
    let shown = opened_stage(stage, index, s.output_index);
    let item = opened_item(shown, reasoning, s);
    lemma_call_item(shown, reasoning, s);
    lemma_item_index("response.output_item.added"@, s.output_index, item);
    if to_be_opened(stage) {
        assert(call_step(s, call, reasoning).1[0] == item_event(
            "response.output_item.added"@,
            s.output_index,
            item,
        ));
    }
}

// ── the count over a run ──────────────────────────────────────────────

pub proof fn lemma_reasoning_counts(s: StreamView, events: Seq<Event>, piece: Seq<char>)
    requires
        counts_along(s, events),
    ensures
        counts_along(reasoning_step(s, piece).0, events + reasoning_step(s, piece).1),
{
    let step = reasoning_step(s, piece);
    let stage = reasoning_opened(s).reasoning;
    let item = reasoning_item(stage.item_id, JsonView::Array(Seq::empty())).with_text(
        "status"@,
        "in_progress"@,
    );
    lemma_names();
    lemma_reasoning_opens(s, piece);
    lemma_counts_on(s, step.0, events, step.1);
    lemma_text_item_types(stage.item_id);
    lemma_item_index("response.output_item.added"@, stage.output_index, item);
    if !s.reasoning.added {
        assert(step.1[0] == item_event("response.output_item.added"@, stage.output_index, item));
    }
}

pub proof fn lemma_content_counts(s: StreamView, events: Seq<Event>, piece: Seq<char>)
    requires
        counts_along(s, events),
    ensures
        counts_along(content_step(s, piece).0, events + content_step(s, piece).1),
{
    let step = content_step(s, piece);
    let stage = text_opened(s).text;
    let item = message_item(stage.item_id, JsonView::Array(Seq::empty())).with_text(
        "status"@,
        "in_progress"@,
    );
    lemma_names();
    lemma_content_opens(s, piece);
    lemma_counts_on(s, step.0, events, step.1);
    lemma_text_item_types(stage.item_id);
    lemma_item_index("response.output_item.added"@, stage.output_index, item);
    if !s.text.added {
        assert(step.1[0] == item_event("response.output_item.added"@, stage.output_index, item));
    }
}

pub proof fn lemma_call_counts(
    s: StreamView,
    events: Seq<Event>,
    call: JsonView,
    reasoning: Option<Seq<char>>,
)
    requires
        counts_along(s, events),
    ensures
        counts_along(
            call_step(s, call, reasoning).0,
            events + call_step(s, call, reasoning).1,
        ),
{
    let step = call_step(s, call, reasoning);
    lemma_call_opens(s, call, reasoning);
    lemma_call_shown(s, call, reasoning);
    lemma_counts_on(s, step.0, events, step.1);
}

proof fn lemma_calls_count(
    s: StreamView,
    events: Seq<Event>,
    calls: Seq<JsonView>,
    reasoning: Option<Seq<char>>,
)
    requires
        counts_along(s, events),
    ensures
        counts_along(
            calls_step(s, calls, reasoning).0,
            events + calls_step(s, calls, reasoning).1,
        ),
    decreases calls.len(),
{
    if calls.len() == 0 {
        assert(events + Seq::<Event>::empty() =~= events);
    } else {
        let before = calls_step(s, calls.drop_last(), reasoning);
        let last = call_step(before.0, calls.last(), reasoning);
        lemma_calls_count(s, events, calls.drop_last(), reasoning);
        lemma_call_counts(before.0, events + before.1, calls.last(), reasoning);
        assert(events + before.1 + last.1 =~= events + (before.1 + last.1));
    }
}

pub proof fn lemma_delta_counts(s: StreamView, events: Seq<Event>, delta: JsonView)
    requires
        counts_along(s, events),
    ensures
        counts_along(delta_step(s, delta).0, events + delta_step(s, delta).1),
{
    let reasoned = match delta.full_text("reasoning_content"@) {
        Some(piece) => reasoning_step(s, piece),
        None => (s, Seq::empty()),
    };
    let spoken = match delta.full_text("content"@) {
        Some(piece) => content_step(reasoned.0, piece),
        None => (reasoned.0, Seq::empty()),
    };
    let thought = substance(spoken.0.reasoning.text);
    let called = calls_step(spoken.0, delta.items("tool_calls"@), thought);
    if let Some(piece) = delta.full_text("reasoning_content"@) {
        lemma_reasoning_counts(s, events, piece);
    } else {
        assert(events + reasoned.1 =~= events);
    }
    if let Some(piece) = delta.full_text("content"@) {
        lemma_content_counts(reasoned.0, events + reasoned.1, piece);
    } else {
        assert(events + reasoned.1 + spoken.1 =~= events + reasoned.1);
    }
    lemma_calls_count(
        spoken.0,
        events + reasoned.1 + spoken.1,
        delta.items("tool_calls"@),
        thought,
    );
    assert(events + reasoned.1 + spoken.1 + called.1 =~= events + (reasoned.1 + spoken.1
        + called.1));
}

proof fn lemma_deltas_count(
    id: Seq<char>,
    model: Seq<char>,
    tools: Option<JsonView>,
    deltas: Seq<JsonView>,
)
    ensures
        counts_along(
            deltas_step(fresh(id, model, tools).stream, deltas).0,
            deltas_step(fresh(id, model, tools).stream, deltas).1,
        ),
    decreases deltas.len(),
{
    if deltas.len() > 0 {
        let s = fresh(id, model, tools).stream;
        lemma_deltas_count(id, model, tools, deltas.drop_last());
        let before = deltas_step(s, deltas.drop_last());
        lemma_delta_counts(before.0, before.1, deltas.last());
    }
}

/// Whatever deltas come, the items of an answer are counted through: each is opened under the
/// number of items opened before it, as long as there are indices left. At most one of them is the
/// reasoning, and at most one the message.
pub proof fn law_output_indices_count_the_items(
    id: Seq<char>,
    model: Seq<char>,
    tools: Option<JsonView>,
    deltas: Seq<JsonView>,
)
    ensures
        ({
            let events = deltas_step(fresh(id, model, tools).stream, deltas).1;
            &&& forall|k: int|
                0 <= k < events.len() && opens(#[trigger] events[k]) && items_opened(
                    events.take(k),
                ) <= usize::MAX ==> has_index(events[k], items_opened(events.take(k)) as int)
            &&& opened_of_type(events, "reasoning"@) <= 1
            &&& opened_of_type(events, "message"@) <= 1
        }),
{
    lemma_deltas_count(id, model, tools, deltas);
}

// ── what is heard of a tool call ──────────────────────────────────────

/// The deltas of tool calls in a row of deltas.
pub open spec fn calls_of(deltas: Seq<JsonView>) -> Seq<JsonView>
    decreases deltas.len(),
{
    if deltas.len() == 0 {
        Seq::empty()
    } else {
        calls_of(deltas.drop_last()) + deltas.last().items("tool_calls"@)
    }
}

/// The pieces of arguments for the tool call with this index, piece after piece.
pub open spec fn fragments(calls: Seq<JsonView>, index: usize) -> Seq<char>
    decreases calls.len(),
{
    if calls.len() == 0 {
        Seq::empty()
    } else if call_index(calls.last()) == index {
        fragments(calls.drop_last(), index) + call_arguments(calls.last())
    } else {
        fragments(calls.drop_last(), index)
    }
}

/// Whether a delta says who a tool call is: it carries an id or a name.
pub open spec fn introduces(call: JsonView) -> bool {
    call.full_text("id"@) is Some || call.member("function"@).full_text("name"@) is Some
}

/// Whether one of the deltas says who the tool call with this index is.
pub open spec fn introduced(calls: Seq<JsonView>, index: usize) -> bool {
    exists|k: int|
        0 <= k < calls.len() && call_index(#[trigger] calls[k]) == index && introduces(calls[k])
}

/// Whether nothing is known of the tool calls that have not been opened but their arguments.
pub open spec fn opened_once_known(s: StreamView) -> bool {
    forall|i: usize|
        !(#[trigger] stage_at(s.tools, i)).added ==> stage_at(s.tools, i).call_id.len() == 0
            && stage_at(s.tools, i).name.len() == 0
}

proof fn lemma_fragments_add(a: Seq<JsonView>, b: Seq<JsonView>, index: usize)
    ensures
        fragments(a + b, index) == fragments(a, index) + fragments(b, index),
    decreases b.len(),
{
    if b.len() == 0 {
        assert(a + b =~= a);
        assert(fragments(a, index) + Seq::<char>::empty() =~= fragments(a, index));
    } else {
        assert((a + b).drop_last() =~= a + b.drop_last());
        lemma_fragments_add(a, b.drop_last(), index);
        assert(fragments(a, index) + (fragments(b.drop_last(), index) + call_arguments(b.last()))
            =~= fragments(a, index) + fragments(b.drop_last(), index) + call_arguments(b.last()));
    }
}

proof fn lemma_introduced_add(a: Seq<JsonView>, b: Seq<JsonView>, index: usize)
    ensures
        introduced(a + b, index) == (introduced(a, index) || introduced(b, index)),
{
    let both = a + b;
    if introduced(a, index) {
        let k = choose|k: int|
            0 <= k < a.len() && call_index(#[trigger] a[k]) == index && introduces(a[k]);
        assert(both[k] == a[k]);
    }
    if introduced(b, index) {
        let k = choose|k: int|
            0 <= k < b.len() && call_index(#[trigger] b[k]) == index && introduces(b[k]);
        assert(both[a.len() + k] == b[k]);
    }
    if introduced(both, index) {
        let k = choose|k: int|
            0 <= k < both.len() && call_index(#[trigger] both[k]) == index && introduces(both[k]);
        if k < a.len() {
            assert(a[k] == both[k]);
        } else {
            assert(b[k - a.len()] == both[k]);
        }
    }
}

proof fn lemma_call_heard(s: StreamView, call: JsonView, reasoning: Option<Seq<char>>, i: usize)
    requires
        ordered(s.tools),
        opened_once_known(s),
    ensures
        ({
            let t = call_step(s, call, reasoning).0;
            &&& ordered(t.tools)
            &&& opened_once_known(t)
            &&& stage_at(t.tools, i).arguments == if i == call_index(call) {
                stage_at(s.tools, i).arguments + call_arguments(call)
            } else {
                stage_at(s.tools, i).arguments
            }
            &&& stage_at(t.tools, i).added == (stage_at(s.tools, i).added || i == call_index(call)
                && introduces(call))
        }),
{
    let index = call_index(call);
    let stage = heard(stage_at(s.tools, index), call);
    if to_be_opened(stage) {
        lemma_put_stage_all(s.tools, index, opened_stage(stage, index, s.output_index));
    } else {
        lemma_put_stage_all(s.tools, index, stage);
    }
    assert(!stage_at(s.tools, index).added ==> to_be_opened(stage) == introduces(call));
}

proof fn lemma_calls_heard(
    s: StreamView,
    calls: Seq<JsonView>,
    reasoning: Option<Seq<char>>,
    i: usize,
)
    requires
        ordered(s.tools),
        opened_once_known(s),
    ensures
        ({
            let t = calls_step(s, calls, reasoning).0;
            &&& ordered(t.tools)
            &&& opened_once_known(t)
            &&& stage_at(t.tools, i).arguments == stage_at(s.tools, i).arguments + fragments(
                calls,
                i,
            )
            &&& stage_at(t.tools, i).added == (stage_at(s.tools, i).added || introduced(calls, i))
        }),
    decreases calls.len(),
{
    let x = stage_at(s.tools, i).arguments;
    if calls.len() == 0 {
        assert(x + Seq::<char>::empty() =~= x);
    } else {
        let before = calls_step(s, calls.drop_last(), reasoning).0;
        lemma_calls_heard(s, calls.drop_last(), reasoning, i);
        lemma_call_heard(before, calls.last(), reasoning, i);
        let last = seq![calls.last()];
        assert(calls =~= calls.drop_last() + last);
        lemma_introduced_add(calls.drop_last(), last, i);
        assert(last[0] == calls.last());
        assert(introduced(last, i) == (call_index(calls.last()) == i && introduces(calls.last())));
        let f = fragments(calls.drop_last(), i);
        assert(x + f + call_arguments(calls.last()) =~= x + (f + call_arguments(calls.last())));
    }
}

/// A tool call has the arguments that came for it, and has been opened once it is known who it is.
pub proof fn lemma_deltas_heard(
    id: Seq<char>,
    model: Seq<char>,
    tools: Option<JsonView>,
    deltas: Seq<JsonView>,
    i: usize,
)
    ensures
        ({
            let t = deltas_step(fresh(id, model, tools).stream, deltas).0;
            &&& ordered(t.tools)
            &&& opened_once_known(t)
            &&& stage_at(t.tools, i).arguments == fragments(calls_of(deltas), i)
            &&& stage_at(t.tools, i).added == introduced(calls_of(deltas), i)
        }),
    decreases deltas.len(),
{
    let s = fresh(id, model, tools).stream;
    if deltas.len() == 0 {
        assert forall|k: usize| slot(s.tools, k) == 0 by {}
        assert(stage_at(s.tools, i).arguments =~= Seq::empty());
    } else {
        let before = deltas_step(s, deltas.drop_last()).0;
        let delta = deltas.last();
        lemma_deltas_heard(id, model, tools, deltas.drop_last(), i);
        let reasoned = match delta.full_text("reasoning_content"@) {
            Some(piece) => reasoning_step(before, piece).0,
            None => before,
        };
        let spoken = match delta.full_text("content"@) {
            Some(piece) => content_step(reasoned, piece).0,
            None => reasoned,
        };
        assert(spoken.tools == before.tools);
        lemma_calls_heard(
            spoken,
            delta.items("tool_calls"@),
            substance(spoken.reasoning.text),
            i,
        );
        lemma_fragments_add(calls_of(deltas.drop_last()), delta.items("tool_calls"@), i);
        lemma_introduced_add(calls_of(deltas.drop_last()), delta.items("tool_calls"@), i);
    }
}

// ── openings before arguments ─────────────────────────────────────────

/// Whether an event hands on arguments for the item with this output index.
pub open spec fn hands_arguments(event: Event, output_index: int) -> bool {
    event.name == arguments_delta() && has_index(event, output_index)
}

/// Whether an event opens the item with this output index.
pub open spec fn opens_under(event: Event, output_index: int) -> bool {
    opens(event) && has_index(event, output_index)
}

/// Whether arguments are handed on only for items that have been opened before.
pub open spec fn opened_before(events: Seq<Event>) -> bool {
    forall|q: int, o: int|
        0 <= q < events.len() && #[trigger] hands_arguments(events[q], o) ==> o < items_opened(
            events.take(q),
        )
}

/// Whether an event that opens an item or hands on arguments under the output index of a tool call
/// is about that tool call.
pub open spec fn is_about(event: Event, stage: ToolStageView) -> bool {
    &&& opens_under(event, stage.output_index as int) ==> shows_call(event, stage)
    &&& hands_arguments(event, stage.output_index as int) ==> event.payload.text("item_id"@) == Some(
        stage.item_id,
    )
}

/// Whether the events that led to a state tell of its tool calls.
pub open spec fn tells_of_calls(s: StreamView, events: Seq<Event>) -> bool {
    &&& ordered(s.tools)
    &&& indices_apart(s)
    &&& s.output_index == items_opened(events)
    &&& opened_before(events)
    &&& forall|q: int, o: int|
        0 <= q < events.len() && #[trigger] opens_under(events[q], o) ==> o < s.output_index
    &&& forall|q: int, o: int|
        0 <= q < events.len() && #[trigger] hands_arguments(events[q], o) ==> o < s.output_index
    &&& forall|q: int, i: usize|
        #![trigger events[q], stage_at(s.tools, i)]
        0 <= q < events.len() && stage_at(s.tools, i).added ==> is_about(
            events[q],
            stage_at(s.tools, i),
        )
}

proof fn lemma_arguments_event(stage: ToolStageView, piece: Seq<char>)
    ensures
        !opens(arguments_event(stage, piece)),
        forall|o: int| #[trigger]
            hands_arguments(arguments_event(stage, piece), o) <==> o == stage.output_index,
        arguments_event(stage, piece).payload.text("item_id"@) == Some(stage.item_id),
{
    lemma_names();
    reveal_strlit("item_id");
    reveal_strlit("output_index");
    reveal_strlit("delta");
    assert("item_id"@.len() == 7 && "output_index"@.len() == 12 && "delta"@.len() == 5);
    let event = arguments_event(stage, piece);
    assert(has_index(event, stage.output_index as int));
}

/// What is told of the tool calls goes on being told when more events come, where it is told by
/// these.
proof fn lemma_tells_on(s: StreamView, t: StreamView, events: Seq<Event>, more: Seq<Event>)
    requires
        tells_of_calls(s, events),
        opens_in_turn(s, t, more),
        items_opened(events + more) <= usize::MAX,
        ordered(t.tools),
        indices_apart(t),
        forall|q: int, o: int|
            0 <= q < more.len() && #[trigger] hands_arguments(more[q], o) ==> o < items_opened(
                events,
            ) + items_opened(more.take(q)),
        forall|q: int, i: usize|
            #![trigger more[q], stage_at(t.tools, i)]
            0 <= q < more.len() && stage_at(t.tools, i).added ==> is_about(
                more[q],
                stage_at(t.tools, i),
            ),
        forall|i: usize|
            (#[trigger] stage_at(t.tools, i)).added ==> if stage_at(s.tools, i).added {
                &&& stage_at(t.tools, i).output_index == stage_at(s.tools, i).output_index
                &&& stage_at(t.tools, i).item_id == stage_at(s.tools, i).item_id
            } else {
                stage_at(t.tools, i).output_index >= s.output_index
            },
    ensures
        tells_of_calls(t, events + more),
{
    let both = events + more;
    let n = events.len() as int;
    lemma_items_opened_add(events, more);
    lemma_opened_in_turn(s, t, more);
    assert forall|q: int, o: int|
        0 <= q < both.len() && #[trigger] hands_arguments(both[q], o) implies o < items_opened(
        both.take(q),
    ) && o < t.output_index by {
        if q < n {
            assert(both[q] == events[q]);
            assert(both.take(q) =~= events.take(q));
            assert(hands_arguments(events[q], o));
        } else {
            assert(both[q] == more[q - n]);
            assert(hands_arguments(more[q - n], o));
            assert(both.take(q) =~= events + more.take(q - n));
            lemma_items_opened_add(events, more.take(q - n));
            assert(more =~= more.take(q - n) + more.skip(q - n));
            lemma_items_opened_add(more.take(q - n), more.skip(q - n));
        }
    }
    assert forall|q: int, o: int|
        0 <= q < both.len() && #[trigger] opens_under(both[q], o) implies o < t.output_index by {
        if q < n {
            assert(both[q] == events[q]);
            assert(opens_under(events[q], o));
        } else {
            assert(both[q] == more[q - n]);
            assert(opens(more[q - n]));
        }
    }
    assert forall|q: int, i: usize|
        #![trigger both[q], stage_at(t.tools, i)]
        0 <= q < both.len() && stage_at(t.tools, i).added implies is_about(
        both[q],
        stage_at(t.tools, i),
    ) by {
        let stage = stage_at(t.tools, i);
        if q < n {
            assert(both[q] == events[q]);
            if stage_at(s.tools, i).added {
                assert(is_about(events[q], stage_at(s.tools, i)));
            } else {
                assert(!opens_under(events[q], stage.output_index as int));
                assert(!hands_arguments(events[q], stage.output_index as int));
            }
        } else {
            assert(both[q] == more[q - n]);
            assert(is_about(more[q - n], stage_at(t.tools, i)));
        }
    }
}

/// So it is with events that hand on no arguments, and leave the tool calls as they are.
proof fn lemma_quiet_tells(s: StreamView, t: StreamView, events: Seq<Event>, more: Seq<Event>)
    requires
        tells_of_calls(s, events),
        opens_in_turn(s, t, more),
        items_opened(events + more) <= usize::MAX,
        t.tools == s.tools,
        indices_apart(t),
        forall|q: int| 0 <= q < more.len() ==> (#[trigger] more[q]).name != arguments_delta(),
    ensures
        tells_of_calls(t, events + more),
{
    assert forall|q: int, i: usize|
        #![trigger more[q], stage_at(t.tools, i)]
        0 <= q < more.len() && stage_at(t.tools, i).added implies is_about(
        more[q],
        stage_at(t.tools, i),
    ) by {
        assert(stage_at(s.tools, i).output_index < s.output_index);
        if opens(more[q]) {
            assert(q == 0 && has_index(more[0], s.output_index as int));
        }
    }
    lemma_tells_on(s, t, events, more);
}

proof fn lemma_call_tells(
    s: StreamView,
    events: Seq<Event>,
    call: JsonView,
    reasoning: Option<Seq<char>>,
)
    requires
        tells_of_calls(s, events),
        items_opened(events + call_step(s, call, reasoning).1) <= usize::MAX,
    ensures
        tells_of_calls(
            call_step(s, call, reasoning).0,
            events + call_step(s, call, reasoning).1,
        ),
{
    lemma_names();
    let step = call_step(s, call, reasoning);
    let t = step.0;
    let more = step.1;
    let index = call_index(call);
    let stage = heard(stage_at(s.tools, index), call);
    let new = if to_be_opened(stage) {
        opened_stage(stage, index, s.output_index)
    } else {
        stage
    };
    let piece = if to_be_opened(stage) {
        stage.arguments
    } else {
        call_arguments(call)
    };
    lemma_items_opened_add(events, more);
    lemma_call_opens(s, call, reasoning);
    lemma_opened_in_turn(s, t, more);
    lemma_call_indices(s, call, reasoning);
    lemma_call_shown(s, call, reasoning);
    lemma_put_stage_all(s.tools, index, new);
    lemma_arguments_event(new, piece);
    assert forall|q: int| 0 <= q < more.len() && !opens(#[trigger] more[q]) implies more[q]
        == arguments_event(new, piece) && new.added by {}
    assert forall|q: int, o: int|
        0 <= q < more.len() && #[trigger] hands_arguments(more[q], o) implies o < items_opened(
        events,
    ) + items_opened(more.take(q)) by {
        assert(more[q] == arguments_event(new, piece));
        assert(o == new.output_index);
        if to_be_opened(stage) {
            assert(q == 1);
            assert(more.take(1).drop_last() =~= Seq::empty());
            assert(more.take(1).last() == more[0]);
            reveal_with_fuel(items_opened, 2);
        } else {
            assert(stage_at(s.tools, index).added);
        }
    }
    assert forall|q: int, i: usize|
        #![trigger more[q], stage_at(t.tools, i)]
        0 <= q < more.len() && stage_at(t.tools, i).added implies is_about(
        more[q],
        stage_at(t.tools, i),
    ) by {
        if i == index {
            assert(stage_at(t.tools, i) == new);
        } else {
            assert(stage_at(t.tools, i) == stage_at(s.tools, i));
            assert(stage_at(s.tools, i).output_index < s.output_index);
            assert(new.added ==> stage_at(t.tools, index).added);
        }
    }
    lemma_tells_on(s, t, events, more);
}

proof fn lemma_calls_tell(
    s: StreamView,
    events: Seq<Event>,
    calls: Seq<JsonView>,
    reasoning: Option<Seq<char>>,
)
    requires
        tells_of_calls(s, events),
        items_opened(events + calls_step(s, calls, reasoning).1) <= usize::MAX,
    ensures
        tells_of_calls(
            calls_step(s, calls, reasoning).0,
            events + calls_step(s, calls, reasoning).1,
        ),
    decreases calls.len(),
{
    if calls.len() == 0 {
        assert(events + Seq::<Event>::empty() =~= events);
    } else {
        let before = calls_step(s, calls.drop_last(), reasoning);
        let last = call_step(before.0, calls.last(), reasoning);
        assert(events + before.1 + last.1 =~= events + (before.1 + last.1));
        lemma_items_opened_add(events + before.1, last.1);
        lemma_calls_tell(s, events, calls.drop_last(), reasoning);
        lemma_call_tells(before.0, events + before.1, calls.last(), reasoning);
    }
}

proof fn lemma_delta_tells(s: StreamView, events: Seq<Event>, delta: JsonView)
    requires
        tells_of_calls(s, events),
        items_opened(events + delta_step(s, delta).1) <= usize::MAX,
    ensures
        tells_of_calls(delta_step(s, delta).0, events + delta_step(s, delta).1),
{
    lemma_names();
    let reasoned = match delta.full_text("reasoning_content"@) {
        Some(piece) => reasoning_step(s, piece),
        None => (s, Seq::empty()),
    };
    let spoken = match delta.full_text("content"@) {
        Some(piece) => content_step(reasoned.0, piece),
        None => (reasoned.0, Seq::empty()),
    };
    let thought = substance(spoken.0.reasoning.text);
    let called = calls_step(spoken.0, delta.items("tool_calls"@), thought);
    let a = events + reasoned.1;
    let b = a + spoken.1;
    assert(b + called.1 =~= events + delta_step(s, delta).1);
    lemma_items_opened_add(b, called.1);
    lemma_items_opened_add(a, spoken.1);
    lemma_items_opened_add(events, reasoned.1);
    if let Some(piece) = delta.full_text("reasoning_content"@) {
        lemma_reasoning_opens(s, piece);
    }
    if let Some(piece) = delta.full_text("content"@) {
        lemma_content_opens(reasoned.0, piece);
    }
    lemma_opened_in_turn(s, reasoned.0, reasoned.1);
    assert(indices_apart(reasoned.0));
    lemma_quiet_tells(s, reasoned.0, events, reasoned.1);
    lemma_opened_in_turn(reasoned.0, spoken.0, spoken.1);
    assert(indices_apart(spoken.0));
    lemma_quiet_tells(reasoned.0, spoken.0, a, spoken.1);
    lemma_calls_tell(spoken.0, b, delta.items("tool_calls"@), thought);
}

proof fn lemma_deltas_tell(
    id: Seq<char>,
    model: Seq<char>,
    tools: Option<JsonView>,
    deltas: Seq<JsonView>,
)
    requires
        items_opened(deltas_step(fresh(id, model, tools).stream, deltas).1) <= usize::MAX,
    ensures
        ({
            let s = fresh(id, model, tools).stream;
            let run = deltas_step(s, deltas);
            tells_of_calls(run.0, run.1) && accounts_for(s, run.0, run.1)
        }),
    decreases deltas.len(),
{
    let s = fresh(id, model, tools).stream;
    if deltas.len() == 0 {
        law_output_indices_start_apart(id, model, tools);
        lemma_quiet_accounts(s, s, Seq::empty());
        assert forall|i: usize| !(#[trigger] stage_at(s.tools, i)).added by {
            assert(slot(s.tools, i) == 0);
        }
    } else {
        let before = deltas_step(s, deltas.drop_last());
        let last = delta_step(before.0, deltas.last());
        lemma_items_opened_add(before.1, last.1);
        lemma_deltas_tell(id, model, tools, deltas.drop_last());
        lemma_delta_tells(before.0, before.1, deltas.last());
        law_arguments_go_to_their_own_call(before.0, deltas.last());
        lemma_accounts_join(s, before.0, last.0, before.1, last.1);
    }
}

// ── tool calls told in full ───────────────────────────────────────────

/// Events that open at least one item more than `n` have one that opens the item after the first
/// `n`.
proof fn lemma_opening(events: Seq<Event>, n: nat) -> (p: int)
    requires
        n < items_opened(events),
    ensures
        0 <= p < events.len(),
        opens(events[p]),
        items_opened(events.take(p)) == n,
    decreases events.len(),
{
    let rest = events.drop_last();
    let last = events.len() - 1;
    if n < items_opened(rest) {
        let p = lemma_opening(rest, n);
        assert(rest[p] == events[p]);
        assert(rest.take(p) =~= events.take(p));
        p
    } else {
        assert(events.take(last) =~= rest);
        last
    }
}

/// The count of the items goes up with each that is opened.
proof fn lemma_opened_grows(events: Seq<Event>, p: int, q: int)
    requires
        0 <= p < q <= events.len(),
    ensures
        items_opened(events.take(p)) <= items_opened(events.take(q)),
        opens(events[p]) ==> items_opened(events.take(p)) < items_opened(events.take(q)),
{
    let head = events.take(p + 1);
    assert(head.drop_last() =~= events.take(p));
    assert(head.last() == events[p]);
    assert(events.take(q) =~= head + events.subrange(p + 1, q));
    lemma_items_opened_add(head, events.subrange(p + 1, q));
}

/// Whether the event at `p` opens the item of a tool call: no other does, and every event that
/// hands on its arguments comes later.
pub open spec fn opens_call(events: Seq<Event>, p: int, stage: ToolStageView) -> bool {
    let o = stage.output_index as int;
    &&& 0 <= p < events.len()
    &&& opens_under(events[p], o)
    &&& shows_call(events[p], stage)
    &&& forall|q: int| 0 <= q < events.len() && #[trigger] opens_under(events[q], o) ==> q == p
    &&& forall|q: int|
        0 <= q < events.len() && #[trigger] hands_arguments(events[q], o) ==> p < q
            && events[q].payload.text("item_id"@) == Some(stage.item_id)
}

/// Whatever deltas come, a tool call is opened if and only if one of them says who it is, be it
/// before, among or after its arguments. Its item is opened by exactly one event, before
/// any of its arguments, and the arguments that the events hand on for it are the pieces that came
/// for it, none dropped, repeated or moved. This holds as long as there are indices left.
pub proof fn law_a_tool_call_is_told_in_full(
    id: Seq<char>,
    model: Seq<char>,
    tools: Option<JsonView>,
    deltas: Seq<JsonView>,
    index: usize,
)
    requires
        items_opened(deltas_step(fresh(id, model, tools).stream, deltas).1) <= usize::MAX,
    ensures
        ({
            let run = deltas_step(fresh(id, model, tools).stream, deltas);
            let stage = stage_at(run.0.tools, index);
            &&& stage.added == introduced(calls_of(deltas), index)
            &&& stage.arguments == fragments(calls_of(deltas), index)
            &&& stage.added ==> {
                &&& exists|p: int| opens_call(run.1, p, stage)
                &&& arguments_for(run.1, stage.output_index as int) == fragments(
                    calls_of(deltas),
                    index,
                )
            }
        }),
{
    let s = fresh(id, model, tools).stream;
    let run = deltas_step(s, deltas);
    let events = run.1;
    let stage = stage_at(run.0.tools, index);
    let o = stage.output_index as int;
    lemma_deltas_heard(id, model, tools, deltas, index);
    lemma_deltas_tell(id, model, tools, deltas);
    lemma_deltas_count(id, model, tools, deltas);
    if stage.added {
        assert(slot(s.tools, index) == 0);
        assert(arguments_for(events, o) =~= stage.arguments);
        let p = lemma_opening(events, o as nat);
        assert(events.take(events.len() as int) =~= events);
        lemma_opened_grows(events, p, events.len() as int);
        assert(opens_under(events[p], o));
        assert(is_about(events[p], stage));
        assert forall|q: int|
            0 <= q < events.len() && #[trigger] opens_under(events[q], o) implies q == p by {
            lemma_opened_grows(events, q, events.len() as int);
            if q < p {
                lemma_opened_grows(events, q, p);
            } else if p < q {
                lemma_opened_grows(events, p, q);
            }
        }
        assert forall|q: int|
            0 <= q < events.len() && #[trigger] hands_arguments(events[q], o) implies p < q
            && events[q].payload.text("item_id"@) == Some(stage.item_id) by {
            assert(is_about(events[q], stage));
            if q < p {
                lemma_opened_grows(events, q, p);
            }
        }
        assert(opens_call(events, p, stage));
    }
}

// ── how many items there are ──────────────────────────────────────────

/// How many of the tool calls have been opened.
pub open spec fn opened_calls(tools: Seq<(usize, ToolStageView)>) -> nat
    decreases tools.len(),
{
    if tools.len() == 0 {
        0
    } else {
        opened_calls(tools.drop_last()) + one_if(tools.last().1.added)
    }
}

pub open spec fn one_if(b: bool) -> nat {
    if b {
        1
    } else {
        0
    }
}

proof fn lemma_opened_calls_add(
    a: Seq<(usize, ToolStageView)>,
    b: Seq<(usize, ToolStageView)>,
)
    ensures
        opened_calls(a + b) == opened_calls(a) + opened_calls(b),
    decreases b.len(),
{
    if b.len() == 0 {
        assert(a + b =~= a);
    } else {
        assert((a + b).drop_last() =~= a + b.drop_last());
        lemma_opened_calls_add(a, b.drop_last());
    }
}

proof fn lemma_opened_calls_bound(tools: Seq<(usize, ToolStageView)>)
    ensures
        opened_calls(tools) <= tools.len(),
    decreases tools.len(),
{
    if tools.len() > 0 {
        lemma_opened_calls_bound(tools.drop_last());
    }
}

proof fn lemma_slot_bound(tools: Seq<(usize, ToolStageView)>, index: usize)
    ensures
        slot(tools, index) <= tools.len(),
    decreases tools.len(),
{
    if tools.len() > 0 {
        lemma_slot_bound(tools.drop_last(), index);
    }
}

proof fn lemma_opened_calls_put(
    tools: Seq<(usize, ToolStageView)>,
    index: usize,
    stage: ToolStageView,
)
    ensures
        opened_calls(put_stage(tools, index, stage)) + one_if(stage_at(tools, index).added)
            == opened_calls(tools) + one_if(stage.added),
{
    lemma_slot_bound(tools, index);
    let i = slot(tools, index) as int;
    let next = put_stage(tools, index, stage);
    let new = seq![(index, stage)];
    let head = tools.take(i);
    assert(new.drop_last() =~= Seq::empty());
    reveal_with_fuel(opened_calls, 2);
    assert(opened_calls(new) == one_if(stage.added));
    if has_stage(tools, index) {
        let old_one = seq![tools[i]];
        let tail = tools.skip(i + 1);
        assert(old_one.drop_last() =~= Seq::empty());
        assert(opened_calls(old_one) == one_if(tools[i].1.added));
        assert(tools =~= head + old_one + tail);
        assert(next =~= head + new + tail);
        lemma_opened_calls_add(head, old_one);
        lemma_opened_calls_add(head + old_one, tail);
        lemma_opened_calls_add(head, new);
        lemma_opened_calls_add(head + new, tail);
    } else {
        let tail = tools.skip(i);
        assert(tools =~= head + tail);
        assert(next =~= head + new + tail);
        lemma_opened_calls_add(head, tail);
        lemma_opened_calls_add(head, new);
        lemma_opened_calls_add(head + new, tail);
    }
}

/// The items that a state has opened: the reasoning, the message, and tool calls.
pub open spec fn items_of(s: StreamView) -> nat {
    one_if(s.reasoning.added) + one_if(s.text.added) + opened_calls(s.tools)
}

proof fn lemma_call_items(s: StreamView, call: JsonView, reasoning: Option<Seq<char>>)
    ensures
        items_of(call_step(s, call, reasoning).0) == items_of(s) + items_opened(
            call_step(s, call, reasoning).1,
        ),
{
    let step = call_step(s, call, reasoning);
    let index = call_index(call);
    let stage = heard(stage_at(s.tools, index), call);
    lemma_call_opens(s, call, reasoning);
    lemma_opened_in_turn(s, step.0, step.1);
    if to_be_opened(stage) {
        lemma_opened_calls_put(s.tools, index, opened_stage(stage, index, s.output_index));
    } else {
        lemma_opened_calls_put(s.tools, index, stage);
    }
}

proof fn lemma_calls_items(s: StreamView, calls: Seq<JsonView>, reasoning: Option<Seq<char>>)
    ensures
        items_of(calls_step(s, calls, reasoning).0) == items_of(s) + items_opened(
            calls_step(s, calls, reasoning).1,
        ),
    decreases calls.len(),
{
    if calls.len() > 0 {
        let before = calls_step(s, calls.drop_last(), reasoning);
        lemma_calls_items(s, calls.drop_last(), reasoning);
        lemma_call_items(before.0, calls.last(), reasoning);
        lemma_items_opened_add(before.1, call_step(before.0, calls.last(), reasoning).1);
    }
}

proof fn lemma_delta_items(s: StreamView, delta: JsonView)
    ensures
        items_of(delta_step(s, delta).0) == items_of(s) + items_opened(delta_step(s, delta).1),
{
    lemma_names();
    let reasoned = match delta.full_text("reasoning_content"@) {
        Some(piece) => reasoning_step(s, piece),
        None => (s, Seq::empty()),
    };
    let spoken = match delta.full_text("content"@) {
        Some(piece) => content_step(reasoned.0, piece),
        None => (reasoned.0, Seq::empty()),
    };
    let thought = substance(spoken.0.reasoning.text);
    let called = calls_step(spoken.0, delta.items("tool_calls"@), thought);
    if let Some(piece) = delta.full_text("reasoning_content"@) {
        lemma_reasoning_opens(s, piece);
        assert(opens(reasoned.1[0]) == !s.reasoning.added);
    }
    if let Some(piece) = delta.full_text("content"@) {
        lemma_content_opens(reasoned.0, piece);
        assert(opens(spoken.1[0]) == !reasoned.0.text.added);
    }
    lemma_opened_in_turn(s, reasoned.0, reasoned.1);
    lemma_opened_in_turn(reasoned.0, spoken.0, spoken.1);
    lemma_calls_items(spoken.0, delta.items("tool_calls"@), thought);
    lemma_items_opened_add(reasoned.1, spoken.1);
    lemma_items_opened_add(reasoned.1 + spoken.1, called.1);
}

/// Whatever deltas come, the items that are opened are the reasoning, the message and tool calls,
/// each once. So there are indices left for all tool calls that can be held.
pub proof fn law_there_is_an_index_for_every_call(
    id: Seq<char>,
    model: Seq<char>,
    tools: Option<JsonView>,
    deltas: Seq<JsonView>,
)
    ensures
        ({
            let run = deltas_step(fresh(id, model, tools).stream, deltas);
            &&& items_opened(run.1) == items_of(run.0)
            &&& items_opened(run.1) <= run.0.tools.len() + 2
        }),
    decreases deltas.len(),
{
    let s = fresh(id, model, tools).stream;
    let run = deltas_step(s, deltas);
    if deltas.len() > 0 {
        let before = deltas_step(s, deltas.drop_last());
        law_there_is_an_index_for_every_call(id, model, tools, deltas.drop_last());
        lemma_delta_items(before.0, deltas.last());
        lemma_items_opened_add(before.1, delta_step(before.0, deltas.last()).1);
    }
    lemma_opened_calls_bound(run.0.tools);
}

} // verus!

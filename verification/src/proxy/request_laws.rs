//! What holds of every chat request that stands for a Responses request.
use vstd::prelude::*;

use crate::codec::json_text;
use crate::json::{empty_object, text_of, JsonView};
use crate::proxy::content::flat;
use crate::proxy::request::{all_with_reasons, appended, attached, beginning, call_kind, calling};
use crate::proxy::request::{chat_call, chat_message, chat_messages, chat_request, chat_role};
use crate::proxy::request::{collapsed, flushed, gives_reasons, is_result, is_system};
use crate::proxy::request::{item_reasoning, item_step, items_step, leading_systems, makes_calls};
use crate::proxy::request::{reasoned, reasoning_text, said, system_message, taken_over};
use crate::proxy::request::{tool_result, with_reasons, with_stream, with_thinking, with_tools};
use crate::proxy::request::DraftView;
use crate::proxy::tools::{custom_name, custom_names, has_text, items2, items_of};
use crate::proxy::toolset::{chat_function, chat_tool, chat_tools, custom_parameters, custom_tool};
use crate::proxy::toolset::defined_name;
use crate::text::{is_blank, is_white, joined, lemma_not_blank, lemma_trimmed_edges};
use crate::text::{lemma_trimmed_fixed, occurs_at};

verus! {

// ── roles and reasons ─────────────────────────────────────────────────

/// A role that a chat model knows stays as it is.
pub proof fn law_chat_roles_are_stable(role: Seq<char>)
    ensures
        chat_role(chat_role(role)) == chat_role(role),
{
    reveal_strlit("user");
    reveal_strlit("system");
    reveal_strlit("developer");
    reveal_strlit("assistant");
    reveal_strlit("tool");
    assert("user"@.len() == 4 && "system"@.len() == 6 && "developer"@.len() == 9);
    assert("assistant"@.len() == 9 && "tool"@.len() == 4);
    assert("user"@[0] != "tool"@[0]);
    assert("assistant"@[0] != "developer"@[0]);
}

/// The keys of a message are all different.
pub proof fn lemma_keys()
    ensures
        "reasoning_content"@ != "role"@,
        "reasoning_content"@ != "tool_calls"@,
        "reasoning_content"@ != "tool_call_id"@,
        "reasoning_content"@ != "content"@,
        "role"@ != "content"@,
        "role"@ != "tool_calls"@,
        "role"@ != "tool_call_id"@,
        "content"@ != "tool_calls"@,
        "content"@ != "tool_call_id"@,
        "tool_calls"@ != "tool_call_id"@,
        "assistant"@ != "system"@,
        "assistant"@ != "tool"@,
        "system"@ != "tool"@,
{
    reveal_strlit("reasoning_content");
    reveal_strlit("role");
    reveal_strlit("tool_calls");
    reveal_strlit("tool_call_id");
    reveal_strlit("content");
    reveal_strlit("assistant");
    reveal_strlit("system");
    reveal_strlit("tool");
    assert("reasoning_content"@.len() == 17 && "role"@.len() == 4 && "tool_calls"@.len() == 10);
    assert("tool_call_id"@.len() == 12 && "content"@.len() == 7);
    assert("assistant"@.len() == 9 && "system"@.len() == 6 && "tool"@.len() == 4);
}

pub proof fn lemma_with_reasons(msg: JsonView)
    ensures
        with_reasons(msg).text("role"@) == msg.text("role"@),
        with_reasons(msg).items("tool_calls"@) == msg.items("tool_calls"@),
        with_reasons(msg).get("tool_call_id"@) == msg.get("tool_call_id"@),
        makes_calls(with_reasons(msg)) == makes_calls(msg),
        makes_calls(msg) ==> gives_reasons(with_reasons(msg)),
{
    lemma_keys();
    reveal_strlit("tool call");
    lemma_not_blank("tool call"@);
}

/// In the end every message in which the assistant calls tools gives a reason, and asking for
/// reasons again changes nothing.
pub proof fn law_calls_have_reasons(messages: Seq<JsonView>)
    ensures
        forall|i: int|
            0 <= i < messages.len() && makes_calls(#[trigger] all_with_reasons(messages)[i])
                ==> gives_reasons(all_with_reasons(messages)[i]),
        all_with_reasons(all_with_reasons(messages)) == all_with_reasons(messages),
        all_with_reasons(messages).len() == messages.len(),
{
    let after = all_with_reasons(messages);
    assert forall|i: int| 0 <= i < messages.len() && makes_calls(#[trigger] after[i]) implies
        gives_reasons(after[i]) by {
        lemma_with_reasons(messages[i]);
    }
    assert(all_with_reasons(after) =~= after);
}

// ── system messages ───────────────────────────────────────────────────

proof fn lemma_said_is_trimmed(messages: Seq<JsonView>)
    ensures
        forall|i: int|
            0 <= i < said(messages).len() ==> {
                &&& (#[trigger] said(messages)[i]).len() > 0
                &&& !is_white(said(messages)[i][0])
                &&& !is_white(said(messages)[i].last())
            },
    decreases messages.len(),
{
    if messages.len() > 0 {
        lemma_said_is_trimmed(messages.drop_last());
        let before = said(messages.drop_last());
        let words = said(messages);
        if let Some(content) = text_of(messages.last().get("content"@)) {
            lemma_trimmed_edges(content);
        }
        assert forall|i: int| 0 <= i < words.len() implies {
            &&& (#[trigger] words[i]).len() > 0
            &&& !is_white(words[i][0])
            &&& !is_white(words[i].last())
        } by {
            if i < before.len() {
                assert(words[i] == before[i]);
            }
        }
    }
}

/// Words that begin and end with something else than white space still do once they are joined.
proof fn lemma_joined_edges(words: Seq<Seq<char>>, sep: Seq<char>)
    requires
        words.len() > 0,
        forall|i: int|
            0 <= i < words.len() ==> {
                &&& (#[trigger] words[i]).len() > 0
                &&& !is_white(words[i][0])
                &&& !is_white(words[i].last())
            },
    ensures
        joined(words, sep).len() > 0,
        !is_white(joined(words, sep)[0]),
        !is_white(joined(words, sep).last()),
    decreases words.len(),
{
    if words.len() > 1 {
        let rest = words.drop_last();
        assert forall|i: int| 0 <= i < rest.len() implies {
            &&& (#[trigger] rest[i]).len() > 0
            &&& !is_white(rest[i][0])
            &&& !is_white(rest[i].last())
        } by {
            assert(rest[i] == words[i]);
        }
        lemma_joined_edges(rest, sep);
        assert(words[words.len() - 1].len() > 0);
        assert(joined(words, sep).last() == words.last().last());
    } else {
        assert(words[0].len() > 0);
    }
}

pub proof fn lemma_after_leading(messages: Seq<JsonView>)
    ensures
        leading_systems(messages) <= messages.len(),
        leading_systems(messages) < messages.len() ==> !is_system(
            messages[leading_systems(messages) as int],
        ),
        forall|i: int| 0 <= i < leading_systems(messages) ==> is_system(#[trigger] messages[i]),
    decreases messages.len(),
{
    if messages.len() > 0 && is_system(messages[0]) {
        let rest = messages.drop_first();
        lemma_after_leading(rest);
        let n = leading_systems(rest) as int;
        if n < rest.len() {
            assert(rest[n] == messages[n + 1]);
        }
        assert forall|i: int| 0 <= i < leading_systems(messages) implies is_system(
            #[trigger] messages[i],
        ) by {
            if i > 0 {
                assert(messages[i] == rest[i - 1]);
            }
        }
    }
}

/// A conversation begins with one system message at most, and making them one again changes
/// nothing.
pub proof fn law_one_system_message_at_most(messages: Seq<JsonView>)
    ensures
        leading_systems(collapsed(messages)) <= 1,
        collapsed(collapsed(messages)) == collapsed(messages),
{
    lemma_keys();
    let n = leading_systems(messages) as int;
    let words = said(messages.take(n));
    let rest = messages.skip(n);
    let once = collapsed(messages);
    lemma_after_leading(messages);
    lemma_said_is_trimmed(messages.take(n));
    assert(leading_systems(rest) == 0) by {
        if rest.len() > 0 {
            assert(rest[0] == messages[n]);
        }
    }
    if words.len() > 0 {
        let text = joined(words, "\n\n"@);
        let head = system_message(text);
        lemma_joined_edges(words, "\n\n"@);
        lemma_trimmed_fixed(text);
        assert(is_system(head));
        assert(once.drop_first() =~= rest);
        assert(once[0] == head);
        assert(leading_systems(once) == 1);
        assert(once.take(1) =~= seq![head]);
        assert(seq![head].drop_last() =~= Seq::empty());
        assert(said(Seq::<JsonView>::empty()) =~= Seq::empty());
        assert(head.text("content"@) == Some(text));
        assert(said(seq![head]) =~= seq![text]);
        assert(joined(seq![text], "\n\n"@) == text);
        assert(once.skip(1) =~= rest);
    } else {
        assert(once == rest);
        assert(once.take(0) =~= Seq::empty());
        assert(said(once.take(0)) =~= Seq::empty());
        assert(once.skip(0) =~= once);
    }
}

// ── calls and results ─────────────────────────────────────────────────

/// What `f` finds in the messages, one after the other.
pub open spec fn gathered(
    messages: Seq<JsonView>,
    f: spec_fn(JsonView) -> Seq<JsonView>,
) -> Seq<JsonView>
    decreases messages.len(),
{
    if messages.len() == 0 {
        Seq::empty()
    } else {
        gathered(messages.drop_last(), f) + f(messages.last())
    }
}

pub proof fn lemma_gathered_push(
    messages: Seq<JsonView>,
    msg: JsonView,
    f: spec_fn(JsonView) -> Seq<JsonView>,
)
    ensures
        gathered(messages.push(msg), f) == gathered(messages, f) + f(msg),
{
    assert(messages.push(msg).drop_last() =~= messages);
}

pub proof fn lemma_gathered_alike(
    a: Seq<JsonView>,
    b: Seq<JsonView>,
    f: spec_fn(JsonView) -> Seq<JsonView>,
)
    requires
        a.len() == b.len(),
        forall|i: int| 0 <= i < a.len() ==> f(#[trigger] a[i]) == f(b[i]),
    ensures
        gathered(a, f) == gathered(b, f),
    decreases a.len(),
{
    if a.len() > 0 {
        assert(f(a[a.len() - 1]) == f(b[b.len() - 1]));
        let x = a.drop_last();
        let y = b.drop_last();
        assert forall|i: int| 0 <= i < x.len() implies f(#[trigger] x[i]) == f(y[i]) by {
            assert(x[i] == a[i] && y[i] == b[i]);
        }
        lemma_gathered_alike(x, y, f);
    }
}

pub proof fn lemma_gathered_add(
    a: Seq<JsonView>,
    b: Seq<JsonView>,
    f: spec_fn(JsonView) -> Seq<JsonView>,
)
    ensures
        gathered(a + b, f) == gathered(a, f) + gathered(b, f),
    decreases b.len(),
{
    if b.len() == 0 {
        assert(a + b =~= a);
        assert(gathered(a, f) + Seq::<JsonView>::empty() =~= gathered(a, f));
    } else {
        assert((a + b).drop_last() =~= a + b.drop_last());
        lemma_gathered_add(a, b.drop_last(), f);
        assert(gathered(a, f) + (gathered(b.drop_last(), f) + f(b.last())) =~= gathered(a, f)
            + gathered(b.drop_last(), f) + f(b.last()));
    }
}

pub proof fn lemma_gathered_nothing(messages: Seq<JsonView>, f: spec_fn(JsonView) -> Seq<JsonView>)
    requires
        forall|i: int|
            0 <= i < messages.len() ==> f(#[trigger] messages[i]) == Seq::<JsonView>::empty(),
    ensures
        gathered(messages, f) == Seq::<JsonView>::empty(),
    decreases messages.len(),
{
    if messages.len() > 0 {
        let rest = messages.drop_last();
        assert forall|i: int| 0 <= i < rest.len() implies f(#[trigger] rest[i]) == Seq::<
            JsonView,
        >::empty() by {
            assert(rest[i] == messages[i]);
        }
        lemma_gathered_nothing(rest, f);
        assert(f(messages[messages.len() - 1]) == Seq::<JsonView>::empty());
        assert(Seq::<JsonView>::empty() + Seq::<JsonView>::empty() =~= Seq::empty());
    }
}

/// The calls in a message.
pub open spec fn calls_in() -> spec_fn(JsonView) -> Seq<JsonView> {
    |msg: JsonView| msg.items("tool_calls"@)
}

/// A message, where it hands back what a tool gave.
pub open spec fn result_in() -> spec_fn(JsonView) -> Seq<JsonView> {
    |msg: JsonView|
        if msg.get("tool_call_id"@) is Some {
            seq![msg]
        } else {
            Seq::empty()
        }
}

/// The calls among the items of a request.
pub open spec fn call_in() -> spec_fn(JsonView) -> Seq<JsonView> {
    |item: JsonView|
        match call_kind(item) {
            Some(custom) => seq![chat_call(item, custom)],
            None => Seq::empty(),
        }
}

/// The results among the items of a request.
pub open spec fn answer_in() -> spec_fn(JsonView) -> Seq<JsonView> {
    |item: JsonView|
        if call_kind(item) is None && is_result(item) {
            seq![tool_result(item)]
        } else {
            Seq::empty()
        }
}

/// Whether only the assistant calls tools, and only tools hand back results.
pub open spec fn roles_kept(messages: Seq<JsonView>) -> bool {
    forall|i: int|
        0 <= i < messages.len() ==> {
            &&& (#[trigger] messages[i]).items("tool_calls"@).len() > 0 ==> messages[i].text(
                "role"@,
            ) == Some("assistant"@) && messages[i].get("tool_call_id"@) is None
            &&& messages[i].get("tool_call_id"@) is Some ==> messages[i].text("role"@) == Some(
                "tool"@,
            )
        }
}

proof fn lemma_roles_push(messages: Seq<JsonView>, msg: JsonView)
    requires
        roles_kept(messages),
        msg.items("tool_calls"@).len() > 0 ==> msg.text("role"@) == Some("assistant"@) && msg.get(
            "tool_call_id"@,
        ) is None,
        msg.get("tool_call_id"@) is Some ==> msg.text("role"@) == Some("tool"@),
    ensures
        roles_kept(messages.push(msg)),
{
    let longer = messages.push(msg);
    assert forall|i: int| 0 <= i < longer.len() implies {
        &&& (#[trigger] longer[i]).items("tool_calls"@).len() > 0 ==> longer[i].text("role"@)
            == Some("assistant"@) && longer[i].get("tool_call_id"@) is None
        &&& longer[i].get("tool_call_id"@) is Some ==> longer[i].text("role"@) == Some("tool"@)
    } by {
        if i < messages.len() {
            assert(longer[i] == messages[i]);
        }
    }
}

pub proof fn lemma_attached(msg: JsonView, pending: Option<Seq<char>>)
    ensures
        attached(msg, pending).text("role"@) == msg.text("role"@),
        attached(msg, pending).items("tool_calls"@) == msg.items("tool_calls"@),
        attached(msg, pending).get("tool_call_id"@) == msg.get("tool_call_id"@),
{
    lemma_keys();
}

proof fn lemma_chat_message(item: JsonView, pending: Option<Seq<char>>)
    ensures
        chat_message(item, pending).items("tool_calls"@) == Seq::<JsonView>::empty(),
        chat_message(item, pending).get("tool_call_id"@) is None,
{
    lemma_keys();
    let role = chat_role(
        match item.text("role"@) {
            Some(role) => role,
            None => "user"@,
        },
    );
    let msg = empty_object().with_text("role"@, role).with(
        "content"@,
        flat(item.member("content"@)),
    );
    lemma_attached(msg, appended(pending, item_reasoning(item)));
}

proof fn lemma_flushed(d: DraftView)
    requires
        roles_kept(d.messages),
    ensures
        roles_kept(flushed(d).messages),
        flushed(d).calls.len() == 0,
        gathered(flushed(d).messages, calls_in()) + flushed(d).calls == gathered(
            d.messages,
            calls_in(),
        ) + d.calls,
        gathered(flushed(d).messages, result_in()) == gathered(d.messages, result_in()),
{
    lemma_keys();
    if d.calls.len() > 0 {
        let msg = calling(d.calls);
        let whole = attached(msg, d.reasoning);
        lemma_attached(msg, d.reasoning);
        lemma_gathered_push(d.messages, whole, calls_in());
        lemma_gathered_push(d.messages, whole, result_in());
        lemma_roles_push(d.messages, whole);
        assert(gathered(flushed(d).messages, calls_in()) + flushed(d).calls =~= gathered(
            d.messages,
            calls_in(),
        ) + d.calls);
        assert(gathered(flushed(d).messages, result_in()) =~= gathered(d.messages, result_in()));
    }
}

proof fn lemma_reasoned(d: DraftView, text: Option<Seq<char>>)
    requires
        roles_kept(d.messages),
    ensures
        roles_kept(reasoned(d, text).messages),
        reasoned(d, text).calls == d.calls,
        gathered(reasoned(d, text).messages, calls_in()) == gathered(d.messages, calls_in()),
        gathered(reasoned(d, text).messages, result_in()) == gathered(d.messages, result_in()),
{
    lemma_keys();
    let after = reasoned(d, text).messages;
    assert(after.len() == d.messages.len());
    assert forall|i: int| 0 <= i < after.len() implies {
        &&& (#[trigger] after[i]).items("tool_calls"@) == d.messages[i].items("tool_calls"@)
        &&& after[i].text("role"@) == d.messages[i].text("role"@)
        &&& after[i].get("tool_call_id"@) == d.messages[i].get("tool_call_id"@)
        &&& after[i].get("tool_call_id"@) is Some ==> after[i] == d.messages[i]
    } by {
        assert(roles_kept(d.messages));
        assert(d.messages[i].get("tool_call_id"@) is Some ==> d.messages[i].text("role"@) == Some(
            "tool"@,
        ));
    }
    assert(roles_kept(after));
    assert forall|i: int| 0 <= i < after.len() implies calls_in()(#[trigger] after[i])
        == calls_in()(d.messages[i]) by {}
    assert forall|i: int| 0 <= i < after.len() implies result_in()(#[trigger] after[i])
        == result_in()(d.messages[i]) by {}
    lemma_gathered_alike(after, d.messages, calls_in());
    lemma_gathered_alike(after, d.messages, result_in());
}

/// An item adds its call or its result, and leaves those before it as they are.
proof fn lemma_item_step(d: DraftView, item: JsonView)
    requires
        roles_kept(d.messages),
    ensures
        roles_kept(item_step(d, item).messages),
        gathered(item_step(d, item).messages, calls_in()) + item_step(d, item).calls == gathered(
            d.messages,
            calls_in(),
        ) + d.calls + call_in()(item),
        gathered(item_step(d, item).messages, result_in()) == gathered(d.messages, result_in())
            + answer_in()(item),
{
    lemma_keys();
    let next = item_step(d, item);
    let calls = gathered(d.messages, calls_in());
    let results = gathered(d.messages, result_in());
    let none = Seq::<JsonView>::empty();
    lemma_flushed(d);
    let f = flushed(d);
    if call_kind(item) is Some {
        assert(calls + next.calls =~= calls + d.calls + call_in()(item));
        assert(results + none =~= results);
    } else if is_result(item) {
        let msg = tool_result(item);
        lemma_gathered_push(f.messages, msg, calls_in());
        lemma_gathered_push(f.messages, msg, result_in());
        lemma_roles_push(f.messages, msg);
        assert(calls_in()(msg) =~= none);
        assert(result_in()(msg) =~= seq![msg]);
        assert(gathered(next.messages, calls_in()) + next.calls =~= calls + d.calls + none);
    } else if item.text("type"@) == Some("reasoning"@) {
        lemma_reasoned(d, reasoning_text(item));
        assert(calls + d.calls + none =~= calls + d.calls);
        assert(results + none =~= results);
    } else {
        if item.get("role"@) is Some || item.get("content"@) is Some {
            let msg = chat_message(item, f.reasoning);
            lemma_chat_message(item, f.reasoning);
            lemma_gathered_push(f.messages, msg, calls_in());
            lemma_gathered_push(f.messages, msg, result_in());
            lemma_roles_push(f.messages, msg);
            assert(calls_in()(msg) =~= none);
            assert(result_in()(msg) =~= none);
        }
        assert(gathered(next.messages, calls_in()) + next.calls =~= calls + d.calls + none);
        assert(gathered(next.messages, result_in()) =~= results + none);
    }
}

proof fn lemma_items_step(d: DraftView, items: Seq<JsonView>)
    requires
        roles_kept(d.messages),
    ensures
        roles_kept(items_step(d, items).messages),
        gathered(items_step(d, items).messages, calls_in()) + items_step(d, items).calls
            == gathered(d.messages, calls_in()) + d.calls + gathered(items, call_in()),
        gathered(items_step(d, items).messages, result_in()) == gathered(d.messages, result_in())
            + gathered(items, answer_in()),
    decreases items.len(),
{
    let calls = gathered(d.messages, calls_in()) + d.calls;
    let results = gathered(d.messages, result_in());
    if items.len() == 0 {
        assert(calls + Seq::<JsonView>::empty() =~= calls);
        assert(results + Seq::<JsonView>::empty() =~= results);
    } else {
        lemma_items_step(d, items.drop_last());
        let before = items_step(d, items.drop_last());
        lemma_item_step(before, items.last());
        assert(calls + gathered(items.drop_last(), call_in()) + call_in()(items.last()) =~= calls
            + gathered(items, call_in()));
        assert(results + gathered(items.drop_last(), answer_in()) + answer_in()(items.last())
            =~= results + gathered(items, answer_in()));
    }
}

/// Making the first system messages one takes no call and no result away.
proof fn lemma_collapsed(messages: Seq<JsonView>)
    requires
        roles_kept(messages),
    ensures
        gathered(collapsed(messages), calls_in()) == gathered(messages, calls_in()),
        gathered(collapsed(messages), result_in()) == gathered(messages, result_in()),
{
    lemma_keys();
    lemma_after_leading(messages);
    let n = leading_systems(messages) as int;
    let head = messages.take(n);
    let rest = messages.skip(n);
    let none = Seq::<JsonView>::empty();
    assert(messages =~= head + rest);
    lemma_gathered_add(head, rest, calls_in());
    lemma_gathered_add(head, rest, result_in());
    assert forall|i: int| 0 <= i < head.len() implies calls_in()(#[trigger] head[i]) == none by {
        assert(is_system(messages[i]));
        assert(head[i].items("tool_calls"@).len() == 0);
        assert(calls_in()(head[i]) =~= none);
    }
    assert forall|i: int| 0 <= i < head.len() implies result_in()(#[trigger] head[i]) == none by {
        assert(is_system(messages[i]));
    }
    lemma_gathered_nothing(head, calls_in());
    lemma_gathered_nothing(head, result_in());
    let words = said(head);
    if words.len() > 0 {
        let msg = system_message(joined(words, "\n\n"@));
        let one = seq![msg];
        assert(calls_in()(msg) =~= none);
        assert(result_in()(msg) =~= none);
        lemma_gathered_nothing(one, calls_in());
        lemma_gathered_nothing(one, result_in());
        lemma_gathered_add(one, rest, calls_in());
        lemma_gathered_add(one, rest, result_in());
    }
    assert(none + gathered(rest, calls_in()) =~= gathered(rest, calls_in()));
    assert(none + gathered(rest, result_in()) =~= gathered(rest, result_in()));
}

/// Every call in a request reaches the chat model, once and in order, and so does every result;
/// and no message holds a call or a result that was not in the request.
pub proof fn law_calls_and_results_are_kept(req: JsonView)
    ensures
        gathered(chat_messages(req), calls_in()) == gathered(req.items("input"@), call_in()),
        gathered(chat_messages(req), result_in()) == gathered(req.items("input"@), answer_in()),
{
    lemma_keys();
    let items = req.items("input"@);
    let d = beginning(req);
    let none = Seq::<JsonView>::empty();
    assert(roles_kept(d.messages));
    assert forall|i: int| 0 <= i < d.messages.len() implies calls_in()(#[trigger] d.messages[i])
        == none by {
        assert(calls_in()(d.messages[i]) =~= none);
    }
    assert forall|i: int| 0 <= i < d.messages.len() implies result_in()(#[trigger] d.messages[i])
        == none by {}
    lemma_gathered_nothing(d.messages, calls_in());
    lemma_gathered_nothing(d.messages, result_in());
    lemma_items_step(d, items);
    let full = items_step(d, items);
    lemma_flushed(full);
    let messages = flushed(full).messages;
    let reasons = all_with_reasons(messages);
    assert forall|i: int| 0 <= i < messages.len() implies {
        &&& calls_in()(#[trigger] reasons[i]) == calls_in()(messages[i])
        &&& result_in()(reasons[i]) == result_in()(messages[i])
        &&& reasons[i].text("role"@) == messages[i].text("role"@)
        &&& reasons[i].get("tool_call_id"@) == messages[i].get("tool_call_id"@)
        &&& reasons[i].items("tool_calls"@) == messages[i].items("tool_calls"@)
    } by {
        lemma_with_reasons(messages[i]);
        assert(roles_kept(messages));
        assert(messages[i].get("tool_call_id"@) is Some ==> messages[i].text("role"@) == Some(
            "tool"@,
        ));
    }
    assert(roles_kept(reasons));
    lemma_gathered_alike(reasons, messages, calls_in());
    lemma_gathered_alike(reasons, messages, result_in());
    lemma_collapsed(reasons);
    assert(gathered(messages, calls_in()) + flushed(full).calls =~= gathered(messages, calls_in()));
    assert(none + none + gathered(items, call_in()) =~= gathered(items, call_in()));
    assert(none + gathered(items, answer_in()) =~= gathered(items, answer_in()));
}

// ── reasoning ─────────────────────────────────────────────────────────

/// Reasoning that waits goes to the assistant's next message, and waits no longer.
pub proof fn law_waiting_reasoning_goes_to_the_next_answer(
    d: DraftView,
    item: JsonView,
    reasoning: Seq<char>,
)
    requires
        d.calls.len() == 0,
        d.reasoning == Some(reasoning),
        !is_blank(reasoning),
        item.text("type"@) is None || item.text("type"@) == Some("message"@),
        item.text("role"@) == Some("assistant"@),
        item_reasoning(item) is None,
    ensures
        item_step(d, item).messages.len() == d.messages.len() + 1,
        item_step(d, item).messages.last().text("role"@) == Some("assistant"@),
        item_step(d, item).messages.last().text("reasoning_content"@) == Some(reasoning),
        item_step(d, item).reasoning is None,
{
    lemma_keys();
    reveal_strlit("message");
    reveal_strlit("function_call");
    reveal_strlit("custom_tool_call");
    reveal_strlit("function_call_output");
    reveal_strlit("custom_tool_call_output");
    reveal_strlit("reasoning");
    assert("message"@.len() == 7 && "function_call"@.len() == 13);
    assert("custom_tool_call"@.len() == 16 && "function_call_output"@.len() == 20);
    assert("custom_tool_call_output"@.len() == 23 && "reasoning"@.len() == 9);
    law_chat_roles_are_stable("assistant"@);
    reveal_strlit("system");
    reveal_strlit("developer");
    reveal_strlit("assistant");
    assert("assistant"@[0] != "developer"@[0]);
    assert(chat_role("assistant"@) == "assistant"@);
}

// ── custom tools ──────────────────────────────────────────────────────

proof fn lemma_function_keys()
    ensures
        "name"@ != "description"@,
        "name"@ != "parameters"@,
        "description"@ != "parameters"@,
        "type"@ != "properties"@,
        "type"@ != "required"@,
        "properties"@ != "required"@,
        "type"@ != "function"@,
{
    reveal_strlit("name");
    reveal_strlit("description");
    reveal_strlit("parameters");
    reveal_strlit("type");
    reveal_strlit("properties");
    reveal_strlit("required");
    reveal_strlit("function");
    assert("name"@.len() == 4 && "description"@.len() == 11 && "parameters"@.len() == 10);
    assert("type"@.len() == 4 && "properties"@.len() == 10 && "required"@.len() == 8);
    assert("function"@.len() == 8);
}

/// A custom tool is known as one by its chat definition.
pub proof fn law_custom_tools_are_known_again(tool: JsonView)
    requires
        custom_tool(tool) is Some,
    ensures
        custom_name(custom_tool(tool)->Some_0) == defined_name(tool),
{
    lemma_function_keys();
    let chat = custom_tool(tool)->Some_0;
    let name = defined_name(tool)->Some_0;
    let description = "Original custom tool definition: "@ + json_text(tool);
    let function = empty_object().with_text("name"@, name).with_text(
        "description"@,
        description,
    ).with("parameters"@, custom_parameters());
    assert(chat == chat_function(function));
    assert(chat.get("function"@) == Some(function));
    assert(function.text("name"@) == Some(name));
    assert(function.text("description"@) == Some(description));
    assert(function.get("parameters"@) == Some(custom_parameters()));
    let required = items2(function, "parameters"@, "required"@);
    assert(required =~= seq![JsonView::Text("input"@)]);
    assert(required[0] == JsonView::Text("input"@));
    assert(has_text(required, "input"@));
    assert(custom_parameters().get2("properties"@, "input"@) is Some);
    reveal_strlit("Original custom tool definition: ");
    reveal_strlit("Original custom tool definition");
    let mark = "Original custom tool definition"@;
    assert(description.subrange(0, mark.len() as int) =~= mark);
    assert(occurs_at(description, mark, 0));
}

proof fn lemma_chat_tools_hold(tools: Seq<JsonView>, i: int, k: int)
    requires
        0 <= i < tools.len(),
        0 <= k < chat_tool(tools[i]).len(),
    ensures
        chat_tools(tools).contains(chat_tool(tools[i])[k]),
    decreases tools.len(),
{
    let before = chat_tools(tools.drop_last());
    let last = chat_tool(tools.last());
    let wanted = chat_tool(tools[i])[k];
    if i == tools.len() - 1 {
        assert((before + last)[before.len() + k] == wanted);
    } else {
        lemma_chat_tools_hold(tools.drop_last(), i, k);
        let at = choose|at: int| 0 <= at < before.len() && before[at] == wanted;
        assert((before + last)[at] == wanted);
    }
}

proof fn lemma_chat_request_tools(req: JsonView, model: Seq<char>)
    ensures
        chat_tools(req.items("tools"@)).len() > 0 ==> items_of(
            chat_request(req, model).get("tools"@),
        ) == chat_tools(req.items("tools"@)),
{
    reveal_strlit("tools");
    reveal_strlit("tool_choice");
    reveal_strlit("stream");
    reveal_strlit("stream_options");
    reveal_strlit("thinking");
    assert("tools"@.len() == 5 && "tool_choice"@.len() == 11 && "stream"@.len() == 6);
    assert("stream_options"@.len() == 14 && "thinking"@.len() == 8);
    let named = empty_object().with_text("model"@, model).with(
        "messages"@,
        JsonView::Array(chat_messages(req)),
    );
    let limited = taken_over(named, req, "max_output_tokens"@, "max_tokens"@);
    let tempered = taken_over(limited, req, "temperature"@, "temperature"@);
    let sampled = taken_over(tempered, req, "top_p"@, "top_p"@);
    assert(sampled is Object);
    let equipped = with_tools(sampled, req);
    if chat_tools(req.items("tools"@)).len() > 0 {
        assert(equipped.get("tools"@) == Some(JsonView::Array(chat_tools(req.items("tools"@)))));
        assert(with_stream(equipped, req).get("tools"@) == equipped.get("tools"@));
        assert(with_thinking(with_stream(equipped, req), req).get("tools"@) == equipped.get(
            "tools"@,
        ));
    }
}

/// A call of a custom tool comes back as one: what a request declares as a custom tool is among
/// the custom tools that the proxy finds in the chat request it has made of it.
pub proof fn law_declared_custom_tools_come_back(req: JsonView, model: Seq<char>, i: int)
    requires
        0 <= i < req.items("tools"@).len(),
        req.items("tools"@)[i].text("type"@) == Some("custom"@),
        defined_name(req.items("tools"@)[i]) is Some,
    ensures
        custom_names(items_of(chat_request(req, model).get("tools"@))).contains(
            defined_name(req.items("tools"@)[i])->Some_0,
        ),
{
    reveal_strlit("custom");
    reveal_strlit("function");
    assert("custom"@.len() == 6 && "function"@.len() == 8);
    let tool = req.items("tools"@)[i];
    let chat = custom_tool(tool)->Some_0;
    law_custom_tools_are_known_again(tool);
    assert(chat_tool(tool) == seq![chat]);
    assert(chat_tool(tool)[0] == chat);
    lemma_chat_tools_hold(req.items("tools"@), i, 0);
    lemma_chat_request_tools(req, model);
    let all = chat_tools(req.items("tools"@));
    let at = choose|at: int| 0 <= at < all.len() && all[at] == chat;
    assert(custom_name(all[at]) == defined_name(tool));
}

} // verus!

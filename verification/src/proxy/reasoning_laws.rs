//! What holds of reasoning on its way into a chat request.
use vstd::prelude::*;

use crate::json::{empty_object, JsonView};
use crate::proxy::content::flat;
use crate::proxy::message_laws::{lemma_item_words, lemma_role_words, role_of_item};
use crate::proxy::request::{all_with_reasons, appended, attached, calling, chat_message, flushed};
use crate::proxy::request::{item_reasoning, item_step, reasoning_text, summary_text, summary_texts};
use crate::proxy::request::DraftView;
use crate::proxy::request_laws::{lemma_attached, lemma_keys};
use crate::text::{is_blank, joined, trimmed};

verus! {

// ── where it is told ──────────────────────────────────────────────────

/// The reasoning that an item carries: under `reasoning_content` or `reasoning`, or in a
/// `reasoning` object under `content`, `text` or `summary`; the first of these that is no empty
/// text.
pub proof fn law_reasoning_is_found_in_its_places(item: JsonView)
    ensures
        ({
            let inner = item.member("reasoning"@);
            item_reasoning(item) == if item.full_text("reasoning_content"@) is Some {
                item.full_text("reasoning_content"@)
            } else if item.full_text("reasoning"@) is Some {
                item.full_text("reasoning"@)
            } else if inner.full_text("content"@) is Some {
                inner.full_text("content"@)
            } else if inner.full_text("text"@) is Some {
                inner.full_text("text"@)
            } else {
                inner.full_text("summary"@)
            }
        }),
{
}

/// The text of a part of a summary: under `text` or `content`, or the part itself.
pub open spec fn words_of_summary(part: JsonView) -> Option<Seq<char>> {
    if part.text("text"@) is Some {
        part.text("text"@)
    } else if part.text("content"@) is Some {
        part.text("content"@)
    } else {
        part.as_text()
    }
}

proof fn lemma_summary_texts(parts: Seq<JsonView>)
    requires
        forall|i: int|
            0 <= i < parts.len() ==> (words_of_summary(#[trigger] parts[i]) matches Some(s)
                && s.len() > 0),
    ensures
        summary_texts(parts) == Seq::new(parts.len(), |i: int| words_of_summary(parts[i])->Some_0),
    decreases parts.len(),
{
    if parts.len() > 0 {
        let rest = parts.drop_last();
        assert forall|i: int| 0 <= i < rest.len() implies (words_of_summary(
            #[trigger] rest[i],
        ) matches Some(s) && s.len() > 0) by {
            assert(rest[i] == parts[i]);
        }
        lemma_summary_texts(rest);
        let last = parts[parts.len() - 1];
        assert(words_of_summary(last) matches Some(s) && s.len() > 0);
        assert(summary_text(last) == words_of_summary(last));
    }
    assert(summary_texts(parts) =~= Seq::new(
        parts.len(),
        |i: int| words_of_summary(parts[i])->Some_0,
    ));
}

/// What a reasoning item tells: the first text that is not empty under `reasoning_content`,
/// `content`, `text` and `summary`. A summary in parts is told part after part, with blank lines
/// between them.
pub proof fn law_reasoning_items_are_told_in_full(item: JsonView, parts: Seq<JsonView>)
    requires
        forall|i: int|
            0 <= i < parts.len() ==> (words_of_summary(#[trigger] parts[i]) matches Some(s)
                && s.len() > 0),
    ensures
        item.full_text("reasoning_content"@) is Some ==> reasoning_text(item) == item.full_text(
            "reasoning_content"@,
        ),
        item.full_text("reasoning_content"@) is None ==> {
            &&& item.full_text("content"@) is Some ==> reasoning_text(item) == item.full_text(
                "content"@,
            )
            &&& item.full_text("content"@) is None && item.full_text("text"@) is Some
                ==> reasoning_text(item) == item.full_text("text"@)
            &&& item.full_text("content"@) is None && item.full_text("text"@) is None ==> {
                &&& item.member("summary"@) is Text ==> reasoning_text(item) == item.full_text(
                    "summary"@,
                )
                &&& item.get("summary"@) is None ==> reasoning_text(item) is None
                &&& item.get("summary"@) == Some(JsonView::Array(parts)) && parts.len() > 0
                    ==> reasoning_text(item) == Some(
                    joined(
                        Seq::new(parts.len(), |i: int| words_of_summary(parts[i])->Some_0),
                        "\n\n"@,
                    ),
                )
            }
        },
{
    lemma_summary_texts(parts);
    let words = Seq::new(parts.len(), |i: int| words_of_summary(parts[i])->Some_0);
    if parts.len() > 0 {
        assert(words_of_summary(parts[parts.len() - 1]) matches Some(s) && s.len() > 0);
        assert(words.last().len() > 0);
        assert(joined(words, "\n\n"@).len() > 0);
    }
}

// ── how it adds up ────────────────────────────────────────────────────

/// Pieces of reasoning add up, without the white space around them and with a blank line between
/// them. A blank piece adds nothing.
pub proof fn law_reasoning_adds_up(waiting: Seq<char>, piece: Seq<char>)
    ensures
        is_blank(piece) ==> appended(Some(waiting), Some(piece)) == Some(waiting),
        !is_blank(piece) && waiting.len() > 0 ==> appended(Some(waiting), Some(piece)) == Some(
            waiting + "\n\n"@ + trimmed(piece),
        ),
        !is_blank(piece) ==> appended(None, Some(piece)) == Some(trimmed(piece)),
        is_blank(piece) ==> appended(None, Some(piece)) is None,
        appended(Some(waiting), None) == Some(waiting),
        appended(None, None) is None,
{
}

// ── where it goes ─────────────────────────────────────────────────────

/// The reasoning of a message.
pub open spec fn reasons_of(msg: JsonView) -> Option<Seq<char>> {
    msg.text("reasoning_content"@)
}

/// Calls that wait get one message of the assistant, which says nothing else and has the reasoning
/// that waited with them.
pub proof fn law_calls_take_the_reasoning_that_waits(d: DraftView, reasoning: Seq<char>)
    requires
        d.calls.len() > 0,
        d.reasoning == Some(reasoning),
        !is_blank(reasoning),
    ensures
        ({
            let after = flushed(d);
            let msg = after.messages.last();
            &&& after.messages.len() == d.messages.len() + 1
            &&& after.messages.drop_last() == d.messages
            &&& msg.text("role"@) == Some("assistant"@)
            &&& msg.get("content"@) == Some(JsonView::Null)
            &&& msg.items("tool_calls"@) == d.calls
            &&& reasons_of(msg) == Some(reasoning)
            &&& after.reasoning is None
            &&& after.calls.len() == 0
        }),
{
    lemma_keys();
    assert(flushed(d).messages.drop_last() =~= d.messages);
    let msg = calling(d.calls);
    assert(msg.full_text("reasoning_content"@) is None);
    assert(flushed(d).messages.last() == msg.with_text("reasoning_content"@, reasoning));
}

/// A call and its reasoning wait for the message they will be in.
pub proof fn law_calls_wait_with_their_reasoning(d: DraftView, item: JsonView)
    requires
        item.text("type"@) == Some("function_call"@) || item.text("type"@) == Some(
            "custom_tool_call"@,
        ),
    ensures
        item_step(d, item).messages == d.messages,
        item_step(d, item).calls.len() == d.calls.len() + 1,
        item_step(d, item).calls.drop_last() == d.calls,
        item_step(d, item).reasoning == appended(d.reasoning, item_reasoning(item)),
{
    lemma_item_words();
    assert(item_step(d, item).calls.drop_last() =~= d.calls);
}

/// Reasoning that comes after the assistant has spoken goes to what was spoken, after the reasoning
/// that is there; with calls waiting, or where nobody has spoken it could belong to, it waits.
pub proof fn law_reasoning_finds_its_message(d: DraftView, item: JsonView, at: int)
    requires
        item.text("type"@) == Some("reasoning"@),
        reasoning_text(item) is Some,
        !is_blank(reasoning_text(item)->Some_0),
        0 <= at < d.messages.len() <= usize::MAX,
    ensures
        ({
            let text = trimmed(reasoning_text(item)->Some_0);
            let after = item_step(d, item);
            let before = d.messages[at].full_text("reasoning_content"@);
            &&& d.calls.len() == 0 && d.last == Some(at as usize) && d.messages[at].text("role"@)
                == Some("assistant"@) ==> {
                &&& after.messages.len() == d.messages.len()
                &&& reasons_of(after.messages[at]) == Some(
                    match before {
                        Some(b) => b + "\n\n"@ + text,
                        None => text,
                    },
                )
                &&& after.messages[at].get("content"@) == d.messages[at].get("content"@)
                &&& after.reasoning == d.reasoning
                &&& forall|i: int|
                    0 <= i < d.messages.len() && i != at ==> #[trigger] after.messages[i]
                        == d.messages[i]
            }
            &&& d.calls.len() > 0 || d.last is None ==> {
                &&& after.messages == d.messages
                &&& after.calls == d.calls
                &&& after.reasoning == appended(d.reasoning, reasoning_text(item))
            }
        }),
{
    lemma_keys();
    lemma_item_words();
    assert(d.messages[at] is Object || d.messages[at].get("role"@) is None);
}

/// The assistant's message takes the reasoning that waits and its own, and nobody else's takes any.
/// No reasoning waits after a message.
pub proof fn law_messages_take_the_reasoning_that_waits(item: JsonView, pending: Option<Seq<char>>)
    ensures
        ({
            let msg = chat_message(item, pending);
            let all = appended(pending, item_reasoning(item));
            &&& item.text("role"@) == Some("assistant"@) ==> reasons_of(msg) == (match all {
                Some(text) => if is_blank(text) {
                    None
                } else {
                    Some(text)
                },
                None => None,
            })
            &&& msg.text("role"@) != Some("assistant"@) ==> reasons_of(msg) is None
        }),
{
    lemma_keys();
    reveal_strlit("system");
    reveal_strlit("developer");
    reveal_strlit("assistant");
    assert("assistant"@.len() == 9 && "developer"@.len() == 9 && "system"@.len() == 6);
    assert("assistant"@[0] != "developer"@[0]);
    let plain = empty_object().with_text("role"@, role_of_item(item)).with(
        "content"@,
        flat(item.member("content"@)),
    );
    assert(plain.get("reasoning_content"@) is None);
    assert(plain.full_text("reasoning_content"@) is None);
    assert(attached(plain, appended(pending, item_reasoning(item))).text("role"@) == plain.text(
        "role"@,
    ));
}

/// After the assistant has spoken or called, it is the one who spoke last; after anybody else but a
/// tool has spoken, nobody is.
pub proof fn law_the_one_who_spoke_last(d: DraftView, item: JsonView)
    requires
        d.messages.len() <= usize::MAX,
    ensures
        d.calls.len() > 0 ==> flushed(d).last == Some(d.messages.len() as usize),
        d.calls.len() == 0 ==> flushed(d) == d,
        ({
            let after = item_step(d, item);
            let kind = item.text("type"@);
            let speaks = (kind is None || kind == Some("message"@)) && d.calls.len() == 0;
            &&& speaks && item.text("role"@) == Some("assistant"@) ==> after.last == Some(
                d.messages.len() as usize,
            )
            &&& speaks && item.text("role"@) == Some("user"@) ==> after.last is None
                && after.reasoning is None
            &&& speaks && item.text("role"@) == Some("system"@) ==> after.last is None
            &&& kind == Some("function_call_output"@) && d.calls.len() == 0 ==> after.last == d.last
        }),
{
    lemma_keys();
    lemma_item_words();
    lemma_role_words();
    reveal_strlit("message");
    reveal_strlit("function_call");
    reveal_strlit("custom_tool_call");
    reveal_strlit("function_call_output");
    reveal_strlit("custom_tool_call_output");
    reveal_strlit("reasoning");
    assert("message"@.len() == 7 && "function_call"@.len() == 13);
    assert("custom_tool_call"@.len() == 16 && "function_call_output"@.len() == 20);
    assert("custom_tool_call_output"@.len() == 23 && "reasoning"@.len() == 9);
    let plain = empty_object().with_text("role"@, role_of_item(item)).with(
        "content"@,
        flat(item.member("content"@)),
    );
    lemma_attached(plain, appended(d.reasoning, item_reasoning(item)));
    assert(plain.text("role"@) == Some(role_of_item(item)));
    assert(chat_message(item, d.reasoning).text("role"@) == Some(role_of_item(item)));
}

/// A message with calls that gives no reason is given one, and no other message is changed.
pub proof fn law_reasons_are_filled_in(messages: Seq<JsonView>, i: int)
    requires
        0 <= i < messages.len(),
    ensures
        ({
            let msg = messages[i];
            let after = all_with_reasons(messages)[i];
            let calls = msg.text("role"@) == Some("assistant"@) && msg.items("tool_calls"@).len() > 0;
            let reasons = reasons_of(msg) is Some && !is_blank(reasons_of(msg)->Some_0);
            &&& all_with_reasons(messages).len() == messages.len()
            &&& !calls || reasons ==> after == msg
            &&& calls && !reasons ==> {
                &&& reasons_of(after) == Some("tool call"@)
                &&& forall|key: Seq<char>|
                    key != "reasoning_content"@ ==> #[trigger] after.get(key) == msg.get(key)
            }
        }),
{
    lemma_keys();
}

} // verus!

//! What holds of the conversation in every chat request: who says what, in which order.
use vstd::prelude::*;

use crate::codec::json_text;
use crate::json::{empty_object, JsonView};
use crate::proxy::content::{chat_part, chat_parts, flat, has_media, item_texts, media, plain_text};
use crate::proxy::content::{plain_texts, result_text};
use crate::proxy::request::{all_with_reasons, appended, attached, beginning, call_id_of, call_kind};
use crate::proxy::request::{calling, chat_call, chat_message, chat_messages, chat_request, chat_role};
use crate::proxy::request::{collapsed, flushed, is_result, is_system, item_reasoning, item_step};
use crate::proxy::request::{items_step, leading_systems, reasoned, reasoning_text, said};
use crate::proxy::request::{summary_texts, system_message, taken_over, tool_result, with_reasons};
use crate::proxy::request::{with_stream, with_thinking, with_tools, DraftView};
use crate::proxy::request_laws::{gathered, lemma_after_leading, lemma_attached, lemma_gathered_add};
use crate::proxy::request_laws::{lemma_gathered_alike, lemma_gathered_nothing, lemma_gathered_push};
use crate::proxy::request_laws::{lemma_keys, lemma_with_reasons};
use crate::proxy::toolset::{chat_choice, chat_tools};
use crate::text::{is_blank, joined, lemma_trimmed_edges, lemma_trimmed_fixed, lowered, trimmed};

verus! {

/// The words of items are all different.
pub proof fn lemma_item_words()
    ensures
        "type"@ != "function_call"@,
        "type"@ != "custom_tool_call"@,
        "type"@ != "function_call_output"@,
        "type"@ != "custom_tool_call_output"@,
        "type"@ != "reasoning"@,
        "type"@ != "role"@,
        "type"@ != "content"@,
        "function_call"@ != "custom_tool_call"@,
        "function_call"@ != "function_call_output"@,
        "function_call"@ != "custom_tool_call_output"@,
        "function_call"@ != "reasoning"@,
        "function_call"@ != "role"@,
        "function_call"@ != "content"@,
        "custom_tool_call"@ != "function_call_output"@,
        "custom_tool_call"@ != "custom_tool_call_output"@,
        "custom_tool_call"@ != "reasoning"@,
        "custom_tool_call"@ != "role"@,
        "custom_tool_call"@ != "content"@,
        "function_call_output"@ != "custom_tool_call_output"@,
        "function_call_output"@ != "reasoning"@,
        "function_call_output"@ != "role"@,
        "function_call_output"@ != "content"@,
        "custom_tool_call_output"@ != "reasoning"@,
        "custom_tool_call_output"@ != "role"@,
        "custom_tool_call_output"@ != "content"@,
        "reasoning"@ != "role"@,
        "reasoning"@ != "content"@,
        "role"@ != "content"@,
{
    reveal_strlit("type");
    reveal_strlit("function_call");
    reveal_strlit("custom_tool_call");
    reveal_strlit("function_call_output");
    reveal_strlit("custom_tool_call_output");
    reveal_strlit("reasoning");
    reveal_strlit("role");
    reveal_strlit("content");
    assert("type"@.len() == 4);
    assert("function_call"@.len() == 13);
    assert("custom_tool_call"@.len() == 16);
    assert("function_call_output"@.len() == 20);
    assert("custom_tool_call_output"@.len() == 23);
    assert("reasoning"@.len() == 9);
    assert("role"@.len() == 4);
    assert("content"@.len() == 7);
    assert("type"@[0] != "role"@[0]);
}

/// The words of content parts are all different.
proof fn lemma_part_words()
    ensures
        "input_text"@ != "output_text"@,
        "input_text"@ != "text"@,
        "input_text"@ != "refusal"@,
        "input_text"@ != "input_image"@,
        "input_text"@ != "input_file"@,
        "input_text"@ != "input_audio"@,
        "input_text"@ != "image_url"@,
        "input_text"@ != "file"@,
        "input_text"@ != "type"@,
        "input_text"@ != "url"@,
        "input_text"@ != "file_id"@,
        "input_text"@ != "file_data"@,
        "input_text"@ != "filename"@,
        "output_text"@ != "text"@,
        "output_text"@ != "refusal"@,
        "output_text"@ != "input_image"@,
        "output_text"@ != "input_file"@,
        "output_text"@ != "input_audio"@,
        "output_text"@ != "image_url"@,
        "output_text"@ != "file"@,
        "output_text"@ != "type"@,
        "output_text"@ != "url"@,
        "output_text"@ != "file_id"@,
        "output_text"@ != "file_data"@,
        "output_text"@ != "filename"@,
        "text"@ != "refusal"@,
        "text"@ != "input_image"@,
        "text"@ != "input_file"@,
        "text"@ != "input_audio"@,
        "text"@ != "image_url"@,
        "text"@ != "file"@,
        "text"@ != "type"@,
        "text"@ != "url"@,
        "text"@ != "file_id"@,
        "text"@ != "file_data"@,
        "text"@ != "filename"@,
        "refusal"@ != "input_image"@,
        "refusal"@ != "input_file"@,
        "refusal"@ != "input_audio"@,
        "refusal"@ != "image_url"@,
        "refusal"@ != "file"@,
        "refusal"@ != "type"@,
        "refusal"@ != "url"@,
        "refusal"@ != "file_id"@,
        "refusal"@ != "file_data"@,
        "refusal"@ != "filename"@,
        "input_image"@ != "input_file"@,
        "input_image"@ != "input_audio"@,
        "input_image"@ != "image_url"@,
        "input_image"@ != "file"@,
        "input_image"@ != "type"@,
        "input_image"@ != "url"@,
        "input_image"@ != "file_id"@,
        "input_image"@ != "file_data"@,
        "input_image"@ != "filename"@,
        "input_file"@ != "input_audio"@,
        "input_file"@ != "image_url"@,
        "input_file"@ != "file"@,
        "input_file"@ != "type"@,
        "input_file"@ != "url"@,
        "input_file"@ != "file_id"@,
        "input_file"@ != "file_data"@,
        "input_file"@ != "filename"@,
        "input_audio"@ != "image_url"@,
        "input_audio"@ != "file"@,
        "input_audio"@ != "type"@,
        "input_audio"@ != "url"@,
        "input_audio"@ != "file_id"@,
        "input_audio"@ != "file_data"@,
        "input_audio"@ != "filename"@,
        "image_url"@ != "file"@,
        "image_url"@ != "type"@,
        "image_url"@ != "url"@,
        "image_url"@ != "file_id"@,
        "image_url"@ != "file_data"@,
        "image_url"@ != "filename"@,
        "file"@ != "type"@,
        "file"@ != "url"@,
        "file"@ != "file_id"@,
        "file"@ != "file_data"@,
        "file"@ != "filename"@,
        "type"@ != "url"@,
        "type"@ != "file_id"@,
        "type"@ != "file_data"@,
        "type"@ != "filename"@,
        "url"@ != "file_id"@,
        "url"@ != "file_data"@,
        "url"@ != "filename"@,
        "file_id"@ != "file_data"@,
        "file_id"@ != "filename"@,
        "file_data"@ != "filename"@,
{
    reveal_strlit("input_text");
    reveal_strlit("output_text");
    reveal_strlit("text");
    reveal_strlit("refusal");
    reveal_strlit("input_image");
    reveal_strlit("input_file");
    reveal_strlit("input_audio");
    reveal_strlit("image_url");
    reveal_strlit("file");
    reveal_strlit("type");
    reveal_strlit("url");
    reveal_strlit("file_id");
    reveal_strlit("file_data");
    reveal_strlit("filename");
    assert("input_text"@.len() == 10);
    assert("output_text"@.len() == 11);
    assert("text"@.len() == 4);
    assert("refusal"@.len() == 7);
    assert("input_image"@.len() == 11);
    assert("input_file"@.len() == 10);
    assert("input_audio"@.len() == 11);
    assert("image_url"@.len() == 9);
    assert("file"@.len() == 4);
    assert("type"@.len() == 4);
    assert("url"@.len() == 3);
    assert("file_id"@.len() == 7);
    assert("file_data"@.len() == 9);
    assert("filename"@.len() == 8);
    assert("input_text"@[6] != "input_file"@[6]);
    assert("output_text"@[0] != "input_image"@[0]);
    assert("output_text"@[0] != "input_audio"@[0]);
    assert("text"@[0] != "file"@[0]);
    assert("text"@[1] != "type"@[1]);
    assert("refusal"@[0] != "file_id"@[0]);
    assert("input_image"@[6] != "input_audio"@[6]);
    assert("image_url"@[0] != "file_data"@[0]);
    assert("file"@[0] != "type"@[0]);
}

/// The words of a chat request are all different.
proof fn lemma_request_words()
    ensures
        "model"@ != "messages"@,
        "model"@ != "max_tokens"@,
        "model"@ != "temperature"@,
        "model"@ != "top_p"@,
        "model"@ != "tools"@,
        "model"@ != "tool_choice"@,
        "model"@ != "stream"@,
        "model"@ != "stream_options"@,
        "model"@ != "thinking"@,
        "messages"@ != "max_tokens"@,
        "messages"@ != "temperature"@,
        "messages"@ != "top_p"@,
        "messages"@ != "tools"@,
        "messages"@ != "tool_choice"@,
        "messages"@ != "stream"@,
        "messages"@ != "stream_options"@,
        "messages"@ != "thinking"@,
        "max_tokens"@ != "temperature"@,
        "max_tokens"@ != "top_p"@,
        "max_tokens"@ != "tools"@,
        "max_tokens"@ != "tool_choice"@,
        "max_tokens"@ != "stream"@,
        "max_tokens"@ != "stream_options"@,
        "max_tokens"@ != "thinking"@,
        "temperature"@ != "top_p"@,
        "temperature"@ != "tools"@,
        "temperature"@ != "tool_choice"@,
        "temperature"@ != "stream"@,
        "temperature"@ != "stream_options"@,
        "temperature"@ != "thinking"@,
        "top_p"@ != "tools"@,
        "top_p"@ != "tool_choice"@,
        "top_p"@ != "stream"@,
        "top_p"@ != "stream_options"@,
        "top_p"@ != "thinking"@,
        "tools"@ != "tool_choice"@,
        "tools"@ != "stream"@,
        "tools"@ != "stream_options"@,
        "tools"@ != "thinking"@,
        "tool_choice"@ != "stream"@,
        "tool_choice"@ != "stream_options"@,
        "tool_choice"@ != "thinking"@,
        "stream"@ != "stream_options"@,
        "stream"@ != "thinking"@,
        "stream_options"@ != "thinking"@,
{
    reveal_strlit("model");
    reveal_strlit("messages");
    reveal_strlit("max_tokens");
    reveal_strlit("temperature");
    reveal_strlit("top_p");
    reveal_strlit("tools");
    reveal_strlit("tool_choice");
    reveal_strlit("stream");
    reveal_strlit("stream_options");
    reveal_strlit("thinking");
    assert("model"@.len() == 5);
    assert("messages"@.len() == 8);
    assert("max_tokens"@.len() == 10);
    assert("temperature"@.len() == 11);
    assert("top_p"@.len() == 5);
    assert("tools"@.len() == 5);
    assert("tool_choice"@.len() == 11);
    assert("stream"@.len() == 6);
    assert("stream_options"@.len() == 14);
    assert("thinking"@.len() == 8);
    assert("model"@[0] != "top_p"@[0]);
    assert("model"@[0] != "tools"@[0]);
    assert("messages"@[0] != "thinking"@[0]);
    assert("temperature"@[1] != "tool_choice"@[1]);
    assert("top_p"@[2] != "tools"@[2]);
}

/// The roles are all different.
pub proof fn lemma_role_words()
    ensures
        "system"@ != "developer"@,
        "system"@ != "assistant"@,
        "system"@ != "tool"@,
        "system"@ != "user"@,
        "developer"@ != "assistant"@,
        "developer"@ != "tool"@,
        "developer"@ != "user"@,
        "assistant"@ != "tool"@,
        "assistant"@ != "user"@,
        "tool"@ != "user"@,
{
    reveal_strlit("system");
    reveal_strlit("developer");
    reveal_strlit("assistant");
    reveal_strlit("tool");
    reveal_strlit("user");
    assert("system"@.len() == 6);
    assert("developer"@.len() == 9);
    assert("assistant"@.len() == 9);
    assert("tool"@.len() == 4);
    assert("user"@.len() == 4);
    assert("developer"@[0] != "assistant"@[0]);
    assert("tool"@[0] != "user"@[0]);
}

/// The words of a call are all different.
proof fn lemma_call_words()
    ensures
        "id"@ != "type"@,
        "id"@ != "function"@,
        "id"@ != "name"@,
        "id"@ != "arguments"@,
        "id"@ != "input"@,
        "type"@ != "function"@,
        "type"@ != "name"@,
        "type"@ != "arguments"@,
        "type"@ != "input"@,
        "function"@ != "name"@,
        "function"@ != "arguments"@,
        "function"@ != "input"@,
        "name"@ != "arguments"@,
        "name"@ != "input"@,
        "arguments"@ != "input"@,
{
    reveal_strlit("id");
    reveal_strlit("type");
    reveal_strlit("function");
    reveal_strlit("name");
    reveal_strlit("arguments");
    reveal_strlit("input");
    assert("id"@.len() == 2);
    assert("type"@.len() == 4);
    assert("function"@.len() == 8);
    assert("name"@.len() == 4);
    assert("arguments"@.len() == 9);
    assert("input"@.len() == 5);
    assert("type"@[0] != "name"@[0]);
}

// ── roles ─────────────────────────────────────────────────────────────

/// A chat model knows four roles. Developers speak as the system, and whoever is none of the four
/// speaks as the user.
pub proof fn law_roles_are_known(role: Seq<char>)
    ensures
        chat_role("system"@) == "system"@,
        chat_role("developer"@) == "system"@,
        chat_role("assistant"@) == "assistant"@,
        chat_role("tool"@) == "tool"@,
        chat_role("user"@) == "user"@,
        role != "system"@ && role != "developer"@ && role != "assistant"@ && role != "tool"@
            ==> chat_role(role) == "user"@,
{
    lemma_role_words();
}

// ── content ───────────────────────────────────────────────────────────

/// The text that a part says: under `text` where it is a text of one of three kinds, under
/// `refusal` where it is a refusal. None where that is empty.
pub open spec fn words_of_part(part: JsonView) -> Option<Seq<char>> {
    let kind = part.text("type"@);
    if kind == Some("input_text"@) || kind == Some("output_text"@) || kind == Some("text"@) {
        part.full_text("text"@)
    } else if kind == Some("refusal"@) {
        part.full_text("refusal"@)
    } else {
        None
    }
}

/// Whether a part shows an image, a file or a recording.
pub open spec fn shows_media(part: JsonView) -> bool {
    let kind = part.text("type"@);
    ||| kind == Some("input_image"@) && part.get("image_url"@) is Some
    ||| kind == Some("input_audio"@) && part.get("input_audio"@) is Some
    ||| kind == Some("input_file"@) && (part.get("file_id"@) is Some || part.get("file_data"@) is Some
        || part.get("filename"@) is Some)
}

/// Whether `chat` is the form of a part that a chat model knows.
pub open spec fn is_chat_part(chat: JsonView, part: JsonView) -> bool {
    let kind = part.text("type"@);
    if words_of_part(part) is Some {
        chat.text("type"@) == Some("text"@) && chat.text("text"@) == words_of_part(part)
    } else if kind == Some("input_image"@) {
        &&& chat.text("type"@) == Some("image_url"@)
        &&& part.member("image_url"@) is Object ==> chat.get("image_url"@) == part.get("image_url"@)
        &&& !(part.member("image_url"@) is Object) ==> chat.member("image_url"@).text("url"@) == Some(
            match part.text("image_url"@) {
                Some(url) => url,
                None => Seq::empty(),
            },
        )
    } else if kind == Some("input_audio"@) {
        chat.text("type"@) == Some("input_audio"@) && chat.get("input_audio"@) == part.get(
            "input_audio"@,
        )
    } else {
        &&& chat.text("type"@) == Some("file"@)
        &&& chat.member("file"@).get("file_id"@) == part.get("file_id"@)
        &&& chat.member("file"@).get("file_data"@) == part.get("file_data"@)
        &&& chat.member("file"@).get("filename"@) == part.get("filename"@)
    }
}

proof fn lemma_part(part: JsonView)
    ensures
        plain_text(part) == words_of_part(part),
        media(part) is Some <==> shows_media(part),
        words_of_part(part) is Some ==> !shows_media(part),
        chat_part(part) is Some <==> words_of_part(part) is Some || shows_media(part),
        chat_part(part) matches Some(chat) ==> is_chat_part(chat, part),
{
    lemma_part_words();
    reveal_strlit("input_text");
    reveal_strlit("output_text");
    reveal_strlit("text");
    reveal_strlit("refusal");
    reveal_strlit("input_image");
    reveal_strlit("input_file");
    reveal_strlit("input_audio");
    assert("input_text"@.len() > 0);
    assert("output_text"@.len() > 0);
    assert("text"@.len() > 0);
    assert("refusal"@.len() > 0);
    assert("input_image"@.len() > 0);
    assert("input_file"@.len() > 0);
    assert("input_audio"@.len() > 0);
}

proof fn lemma_texts_only(parts: Seq<JsonView>)
    requires
        forall|i: int| 0 <= i < parts.len() ==> words_of_part(#[trigger] parts[i]) is Some,
    ensures
        !has_media(parts),
        plain_texts(parts) == Seq::new(parts.len(), |i: int| words_of_part(parts[i])->Some_0),
    decreases parts.len(),
{
    if parts.len() > 0 {
        let rest = parts.drop_last();
        assert forall|i: int| 0 <= i < rest.len() implies words_of_part(
            #[trigger] rest[i],
        ) is Some by {
            assert(rest[i] == parts[i]);
        }
        lemma_texts_only(rest);
        assert(words_of_part(parts[parts.len() - 1]) is Some);
        lemma_part(parts.last());
    }
    assert(plain_texts(parts) =~= Seq::new(
        parts.len(),
        |i: int| words_of_part(parts[i])->Some_0,
    ));
}

/// What is said in a text stays that text. What is said in parts that are all texts is the text of
/// them, in order, a line for each. Nothing is the empty text.
pub proof fn law_texts_are_said_in_full(content: JsonView, parts: Seq<JsonView>)
    requires
        forall|i: int| 0 <= i < parts.len() ==> words_of_part(#[trigger] parts[i]) is Some,
    ensures
        !(content is Null) && !(content is Array) ==> flat(content) == content,
        flat(JsonView::Null) == JsonView::Text(Seq::empty()),
        flat(JsonView::Array(parts)) == JsonView::Text(
            joined(Seq::new(parts.len(), |i: int| words_of_part(parts[i])->Some_0), "\n"@),
        ),
{
    lemma_texts_only(parts);
}

/// A part that says and shows nothing makes no difference, wherever it stands.
pub proof fn law_silent_parts_make_no_difference(
    before: Seq<JsonView>,
    part: JsonView,
    after: Seq<JsonView>,
)
    requires
        words_of_part(part) is None,
        !shows_media(part),
    ensures
        flat(JsonView::Array(before.push(part) + after)) == flat(JsonView::Array(before + after)),
{
    lemma_silent_part(before, part, after);
}

proof fn lemma_silent_part(before: Seq<JsonView>, part: JsonView, after: Seq<JsonView>)
    requires
        words_of_part(part) is None,
        !shows_media(part),
    ensures
        plain_texts(before.push(part) + after) == plain_texts(before + after),
        chat_parts(before.push(part) + after) == chat_parts(before + after),
        has_media(before.push(part) + after) == has_media(before + after),
    decreases after.len(),
{
    if after.len() == 0 {
        lemma_part(part);
        assert(before.push(part) + after =~= before.push(part));
        assert(before + after =~= before);
        assert(before.push(part).drop_last() =~= before);
    } else {
        assert((before.push(part) + after).drop_last() =~= before.push(part) + after.drop_last());
        assert((before + after).drop_last() =~= before + after.drop_last());
        lemma_silent_part(before, part, after.drop_last());
    }
}

proof fn lemma_shown_parts(parts: Seq<JsonView>)
    requires
        forall|i: int|
            0 <= i < parts.len() ==> words_of_part(#[trigger] parts[i]) is Some || shows_media(
                parts[i],
            ),
    ensures
        chat_parts(parts).len() == parts.len(),
        forall|i: int|
            0 <= i < parts.len() ==> is_chat_part(#[trigger] chat_parts(parts)[i], parts[i]),
        has_media(parts) <==> exists|i: int| 0 <= i < parts.len() && shows_media(#[trigger] parts[i]),
    decreases parts.len(),
{
    if parts.len() > 0 {
        let rest = parts.drop_last();
        let last = parts.len() - 1;
        assert forall|i: int| 0 <= i < rest.len() implies words_of_part(#[trigger] rest[i]) is Some
            || shows_media(rest[i]) by {
            assert(rest[i] == parts[i]);
        }
        lemma_shown_parts(rest);
        assert(words_of_part(parts[last]) is Some || shows_media(parts[last]));
        lemma_part(parts.last());
        assert forall|i: int| 0 <= i < parts.len() implies is_chat_part(
            #[trigger] chat_parts(parts)[i],
            parts[i],
        ) by {
            if i < last {
                assert(chat_parts(parts)[i] == chat_parts(rest)[i]);
                assert(rest[i] == parts[i]);
            }
        }
        if exists|i: int| 0 <= i < rest.len() && shows_media(#[trigger] rest[i]) {
            let i = choose|i: int| 0 <= i < rest.len() && shows_media(#[trigger] rest[i]);
            assert(shows_media(parts[i]));
        }
        if exists|i: int| 0 <= i < parts.len() && shows_media(#[trigger] parts[i]) {
            let i = choose|i: int| 0 <= i < parts.len() && shows_media(#[trigger] parts[i]);
            if i < last {
                assert(shows_media(rest[i]));
            }
        }
    }
}

/// Where one of the parts shows more than text, every part is passed on in its chat form, in order.
pub proof fn law_media_are_passed_on(parts: Seq<JsonView>, i: int)
    requires
        forall|k: int|
            0 <= k < parts.len() ==> words_of_part(#[trigger] parts[k]) is Some || shows_media(
                parts[k],
            ),
        0 <= i < parts.len(),
        shows_media(parts[i]),
    ensures
        flat(JsonView::Array(parts)) is Array,
        flat(JsonView::Array(parts))->Array_0.len() == parts.len(),
        forall|k: int|
            0 <= k < parts.len() ==> is_chat_part(
                #[trigger] flat(JsonView::Array(parts))->Array_0[k],
                parts[k],
            ),
{
    lemma_shown_parts(parts);
}

// ── calls and results ─────────────────────────────────────────────────

/// The id that a call and its result share: under `call_id`, or else under `id`.
pub open spec fn shared_id(item: JsonView) -> Seq<char> {
    let told = if item.get("call_id"@) is Some {
        item.member("call_id"@)
    } else {
        item.member("id"@)
    };
    match told {
        JsonView::Text(s) => s,
        _ => Seq::empty(),
    }
}

/// A call reaches the chat model with its id, its name after its namespace, and its arguments: as
/// they are where they are a text, else as JSON. The arguments of a custom tool are its input.
pub proof fn law_calls_are_told_in_full(item: JsonView, custom: bool)
    ensures
        ({
            let call = chat_call(item, custom);
            let f = call.member("function"@);
            let name = match item.text("name"@) {
                Some(name) => name,
                None => Seq::empty(),
            };
            &&& call.text("id"@) == Some(shared_id(item))
            &&& call.text("type"@) == Some("function"@)
            &&& f.text("name"@) == Some(
                match item.text("namespace"@) {
                    Some(ns) => ns + "__"@ + name,
                    None => name,
                },
            )
            &&& !custom ==> f.text("arguments"@) == Some(
                match item.get("arguments"@) {
                    Some(JsonView::Text(s)) => s,
                    Some(value) => json_text(value),
                    None => "{}"@,
                },
            )
            &&& custom ==> f.text("arguments"@) == Some(
                json_text(
                    empty_object().with(
                        "input"@,
                        if item.get("input"@) is Some {
                            item.member("input"@)
                        } else {
                            JsonView::Text(Seq::empty())
                        },
                    ),
                ),
            )
            &&& forall|key: Seq<char>|
                key != "id"@ && key != "type"@ && key != "function"@ ==> (
                #[trigger] call.get(key)) is None
            &&& forall|key: Seq<char>|
                key != "name"@ && key != "arguments"@ ==> (#[trigger] f.get(key)) is None
        }),
{
    lemma_call_words();
    assert(call_id_of(item) == shared_id(item));
}

/// Those of the items that have a text.
pub open spec fn with_texts(items: Seq<JsonView>) -> Seq<JsonView> {
    items.filter(|item: JsonView| item.text("text"@) is Some)
}

proof fn lemma_item_texts(items: Seq<JsonView>)
    ensures
        item_texts(items) == with_texts(items).map_values(
            |item: JsonView| item.text("text"@)->Some_0,
        ),
    decreases items.len(),
{
    reveal(Seq::filter);
    if items.len() > 0 {
        lemma_item_texts(items.drop_last());
    }
    assert(item_texts(items) =~= with_texts(items).map_values(
        |item: JsonView| item.text("text"@)->Some_0,
    ));
}

/// A result reaches the chat model as the tool's, under the id of its call: a text as it is, the
/// texts of a list a line for each, and anything else as JSON.
pub proof fn law_results_are_told_in_full(item: JsonView)
    ensures
        ({
            let msg = tool_result(item);
            let output = item.member("output"@);
            &&& msg.text("role"@) == Some("tool"@)
            &&& msg.text("tool_call_id"@) == Some(shared_id(item))
            &&& msg.text("content"@) == Some(
                match output {
                    JsonView::Text(s) => s,
                    JsonView::Array(items) => joined(
                        with_texts(items).map_values(|i: JsonView| i.text("text"@)->Some_0),
                        "\n"@,
                    ),
                    other => json_text(other),
                },
            )
            &&& forall|key: Seq<char>|
                key != "role"@ && key != "content"@ && key != "tool_call_id"@ ==> (
                #[trigger] msg.get(key)) is None
        }),
{
    lemma_keys();
    assert(call_id_of(item) == shared_id(item));
    if let JsonView::Array(items) = item.member("output"@) {
        lemma_item_texts(items);
    }
}

// ── the conversation ──────────────────────────────────────────────────

/// Who says what, and in answer to which call.
pub open spec fn utterance(role: JsonView, content: JsonView, call: JsonView) -> JsonView {
    JsonView::Array(seq![role, content, call])
}

/// What a message adds to the conversation: its calls where it makes any, else what it says. What
/// the system says counts only where `all` does.
pub open spec fn told_by_message(all: bool) -> spec_fn(JsonView) -> Seq<JsonView> {
    |msg: JsonView|
        if msg.items("tool_calls"@).len() > 0 {
            msg.items("tool_calls"@)
        } else if msg.text("role"@) == Some("system"@) && !all {
            Seq::empty()
        } else {
            seq![
                utterance(
                    msg.member("role"@),
                    msg.member("content"@),
                    msg.member("tool_call_id"@),
                ),
            ]
        }
}

/// The role in which an item speaks; the user's where it names none.
pub open spec fn role_of_item(item: JsonView) -> Seq<char> {
    chat_role(
        if item.text("role"@) is Some {
            item.text("role"@)->Some_0
        } else {
            "user"@
        },
    )
}

/// What an item of a request adds to the conversation: a call, a result, or what somebody says.
/// Reasoning adds nothing of its own, nor does an item without a role and content.
pub open spec fn told_by_item(all: bool) -> spec_fn(JsonView) -> Seq<JsonView> {
    |item: JsonView|
        {
            let kind = item.text("type"@);
            if kind == Some("function_call"@) {
                seq![chat_call(item, false)]
            } else if kind == Some("custom_tool_call"@) {
                seq![chat_call(item, true)]
            } else if kind == Some("function_call_output"@) || kind == Some(
                "custom_tool_call_output"@,
            ) {
                seq![
                    utterance(
                        JsonView::Text("tool"@),
                        JsonView::Text(result_text(item.member("output"@))),
                        JsonView::Text(shared_id(item)),
                    ),
                ]
            } else if kind == Some("reasoning"@) || (item.get("role"@) is None && item.get(
                "content"@,
            ) is None) || (role_of_item(item) == "system"@ && !all) {
                Seq::empty()
            } else {
                seq![
                    utterance(
                        JsonView::Text(role_of_item(item)),
                        flat(item.member("content"@)),
                        JsonView::Null,
                    ),
                ]
            }
        }
}

/// What the instructions of a request add to the conversation.
pub open spec fn told_by_instructions(req: JsonView) -> Seq<JsonView> {
    match req.text("instructions"@) {
        Some(text) => seq![
            utterance(JsonView::Text("system"@), JsonView::Text(text), JsonView::Null),
        ],
        None => Seq::empty(),
    }
}

/// More reasoning changes nothing that a message tells.
proof fn lemma_told_after_reasoning(msg: JsonView, text: Seq<char>, all: bool)
    ensures
        told_by_message(all)(msg.with_text("reasoning_content"@, text)) == told_by_message(all)(msg),
{
    lemma_keys();
    let after = msg.with_text("reasoning_content"@, text);
    assert(after.get("role"@) == msg.get("role"@));
    assert(after.get("content"@) == msg.get("content"@));
    assert(after.get("tool_calls"@) == msg.get("tool_calls"@));
    assert(after.get("tool_call_id"@) == msg.get("tool_call_id"@));
}

proof fn lemma_told_attached(msg: JsonView, pending: Option<Seq<char>>, all: bool)
    ensures
        told_by_message(all)(attached(msg, pending)) == told_by_message(all)(msg),
{
    if let Some(text) = pending {
        lemma_told_after_reasoning(msg, text, all);
        if let Some(existing) = msg.full_text("reasoning_content"@) {
            lemma_told_after_reasoning(msg, existing + "\n\n"@ + text, all);
        }
    }
}

proof fn lemma_told_flushed(d: DraftView, all: bool)
    ensures
        flushed(d).calls.len() == 0,
        gathered(flushed(d).messages, told_by_message(all)) == gathered(
            d.messages,
            told_by_message(all),
        ) + d.calls,
{
    lemma_keys();
    let f = told_by_message(all);
    if d.calls.len() > 0 {
        let msg = calling(d.calls);
        lemma_told_attached(msg, d.reasoning, all);
        lemma_gathered_push(d.messages, attached(msg, d.reasoning), f);
        assert(f(msg) == d.calls);
    } else {
        assert(gathered(d.messages, f) + d.calls =~= gathered(d.messages, f));
    }
}

proof fn lemma_told_reasoned(d: DraftView, text: Option<Seq<char>>, all: bool)
    ensures
        reasoned(d, text).calls == d.calls,
        gathered(reasoned(d, text).messages, told_by_message(all)) == gathered(
            d.messages,
            told_by_message(all),
        ),
{
    let f = told_by_message(all);
    let after = reasoned(d, text).messages;
    assert forall|i: int| 0 <= i < after.len() implies f(#[trigger] after[i]) == f(
        d.messages[i],
    ) by {
        let msg = d.messages[i];
        if after[i] != msg {
            let more = after[i].text("reasoning_content"@)->Some_0;
            assert(after[i] == msg.with_text("reasoning_content"@, more));
            lemma_told_after_reasoning(msg, more, all);
        }
    }
    lemma_gathered_alike(after, d.messages, f);
}

proof fn lemma_told_said(item: JsonView, pending: Option<Seq<char>>, all: bool)
    ensures
        told_by_message(all)(chat_message(item, pending)) == if role_of_item(item) == "system"@
            && !all {
            Seq::<JsonView>::empty()
        } else {
            seq![
                utterance(
                    JsonView::Text(role_of_item(item)),
                    flat(item.member("content"@)),
                    JsonView::Null,
                ),
            ]
        },
{
    lemma_keys();
    let role = role_of_item(item);
    let msg = empty_object().with_text("role"@, role).with(
        "content"@,
        flat(item.member("content"@)),
    );
    lemma_told_attached(msg, appended(pending, item_reasoning(item)), all);
    assert(msg.items("tool_calls"@).len() == 0);
    assert(msg.get("role"@) == Some(JsonView::Text(role)));
}

proof fn lemma_told_item(d: DraftView, item: JsonView, all: bool)
    ensures
        gathered(item_step(d, item).messages, told_by_message(all)) + item_step(d, item).calls
            == gathered(d.messages, told_by_message(all)) + d.calls + told_by_item(all)(item),
{
    lemma_keys();
    lemma_item_words();
    let f = told_by_message(all);
    let next = item_step(d, item);
    let told = gathered(d.messages, f);
    let none = Seq::<JsonView>::empty();
    lemma_told_flushed(d, all);
    let flat_draft = flushed(d);
    if call_kind(item) is Some {
        assert(told + next.calls =~= told + d.calls + told_by_item(all)(item));
    } else if is_result(item) {
        let msg = tool_result(item);
        assert(call_id_of(item) == shared_id(item));
        lemma_gathered_push(flat_draft.messages, msg, f);
        assert(msg.items("tool_calls"@).len() == 0);
        assert(msg.text("role"@) == Some("tool"@));
        assert(f(msg) == told_by_item(all)(item));
        assert(gathered(next.messages, f) + next.calls =~= told + d.calls + told_by_item(all)(item));
    } else if item.text("type"@) == Some("reasoning"@) {
        lemma_told_reasoned(d, reasoning_text(item), all);
        assert(told + d.calls + none =~= told + d.calls);
    } else {
        if item.get("role"@) is Some || item.get("content"@) is Some {
            let msg = chat_message(item, flat_draft.reasoning);
            lemma_told_said(item, flat_draft.reasoning, all);
            lemma_gathered_push(flat_draft.messages, msg, f);
        }
        assert(gathered(next.messages, f) + next.calls =~= told + d.calls + told_by_item(all)(item));
    }
}

proof fn lemma_told_items(d: DraftView, items: Seq<JsonView>, all: bool)
    ensures
        gathered(items_step(d, items).messages, told_by_message(all)) + items_step(d, items).calls
            == gathered(d.messages, told_by_message(all)) + d.calls + gathered(
            items,
            told_by_item(all),
        ),
    decreases items.len(),
{
    let before = gathered(d.messages, told_by_message(all)) + d.calls;
    if items.len() == 0 {
        assert(before + Seq::<JsonView>::empty() =~= before);
    } else {
        lemma_told_items(d, items.drop_last(), all);
        lemma_told_item(items_step(d, items.drop_last()), items.last(), all);
        assert(before + gathered(items.drop_last(), told_by_item(all)) + told_by_item(all)(
            items.last(),
        ) =~= before + gathered(items, told_by_item(all)));
    }
}

/// The messages before the first system messages become one.
pub open spec fn full_messages(req: JsonView) -> Seq<JsonView> {
    all_with_reasons(flushed(items_step(beginning(req), req.items("input"@))).messages)
}

proof fn lemma_full_messages(req: JsonView, all: bool)
    ensures
        gathered(full_messages(req), told_by_message(all)) == (if all {
            told_by_instructions(req)
        } else {
            Seq::empty()
        }) + gathered(req.items("input"@), told_by_item(all)),
{
    lemma_keys();
    let f = told_by_message(all);
    let items = req.items("input"@);
    let d = beginning(req);
    let none = Seq::<JsonView>::empty();
    lemma_told_items(d, items, all);
    let whole = items_step(d, items);
    lemma_told_flushed(whole, all);
    let messages = flushed(whole).messages;
    let reasons = all_with_reasons(messages);
    assert forall|i: int| 0 <= i < messages.len() implies f(#[trigger] reasons[i]) == f(
        messages[i],
    ) by {
        lemma_told_after_reasoning(messages[i], "tool call"@, all);
    }
    lemma_gathered_alike(reasons, messages, f);
    let first = if all {
        told_by_instructions(req)
    } else {
        none
    };
    if let Some(text) = req.text("instructions"@) {
        let msg = system_message(text);
        assert(d.messages =~= none.push(msg));
        lemma_gathered_push(none, msg, f);
        assert(msg.items("tool_calls"@).len() == 0);
        assert(gathered(d.messages, f) =~= first);
    } else {
        assert(gathered(d.messages, f) =~= first);
    }
    assert(gathered(d.messages, f) + d.calls =~= first);
}

/// The conversation of a request is kept: every call, every result and everything that is said
/// reaches the chat model once, in the order of the request, and nothing is added. What the system
/// says at the beginning, the instructions first, becomes one message; the rest stays as it is.
pub proof fn law_the_conversation_is_kept(req: JsonView)
    ensures
        gathered(full_messages(req), told_by_message(true)) == told_by_instructions(req) + gathered(
            req.items("input"@),
            told_by_item(true),
        ),
        chat_messages(req) == collapsed(full_messages(req)),
        gathered(chat_messages(req), told_by_message(false)) == gathered(
            req.items("input"@),
            told_by_item(false),
        ),
{
    lemma_keys();
    lemma_full_messages(req, true);
    lemma_full_messages(req, false);
    let f = told_by_message(false);
    let none = Seq::<JsonView>::empty();
    let messages = full_messages(req);
    lemma_system_makes_no_calls(req);
    lemma_after_leading(messages);
    let n = leading_systems(messages) as int;
    let head = messages.take(n);
    let rest = messages.skip(n);
    assert(messages =~= head + rest);
    lemma_gathered_add(head, rest, f);
    assert forall|i: int| 0 <= i < head.len() implies f(#[trigger] head[i]) == none by {
        assert(is_system(messages[i]));
        assert(head[i] == messages[i]);
    }
    lemma_gathered_nothing(head, f);
    let words = said(head);
    if words.len() > 0 {
        let msg = system_message(joined(words, "\n\n"@));
        let one = seq![msg];
        assert(msg.items("tool_calls"@).len() == 0);
        assert(f(msg) =~= none);
        lemma_gathered_nothing(one, f);
        lemma_gathered_add(one, rest, f);
    }
    assert(none + gathered(rest, f) =~= gathered(rest, f));
    assert(none + gathered(req.items("input"@), told_by_item(false)) =~= gathered(
        req.items("input"@),
        told_by_item(false),
    ));
}

/// Whether no message of the system makes calls.
pub open spec fn system_makes_no_calls(messages: Seq<JsonView>) -> bool {
    forall|i: int|
        0 <= i < messages.len() && is_system(#[trigger] messages[i]) ==> messages[i].items(
            "tool_calls"@,
        ).len() == 0
}

proof fn lemma_no_calls_push(messages: Seq<JsonView>, msg: JsonView)
    requires
        system_makes_no_calls(messages),
        is_system(msg) ==> msg.items("tool_calls"@).len() == 0,
    ensures
        system_makes_no_calls(messages.push(msg)),
{
    let longer = messages.push(msg);
    assert forall|i: int| 0 <= i < longer.len() && is_system(#[trigger] longer[i]) implies longer[
        i].items("tool_calls"@).len() == 0 by {
        if i < messages.len() {
            assert(longer[i] == messages[i]);
        }
    }
}

proof fn lemma_no_calls_items(d: DraftView, items: Seq<JsonView>)
    requires
        system_makes_no_calls(d.messages),
    ensures
        system_makes_no_calls(items_step(d, items).messages),
        system_makes_no_calls(flushed(items_step(d, items)).messages),
    decreases items.len(),
{
    lemma_keys();
    if items.len() > 0 {
        lemma_no_calls_items(d, items.drop_last());
        let before = items_step(d, items.drop_last());
        let item = items.last();
        let f = flushed(before);
        let msg = chat_message(item, f.reasoning);
        let plain = empty_object().with_text("role"@, role_of_item(item)).with(
            "content"@,
            flat(item.member("content"@)),
        );
        lemma_attached(plain, appended(f.reasoning, item_reasoning(item)));
        assert(plain.items("tool_calls"@).len() == 0);
        assert(msg.items("tool_calls"@).len() == 0);
        lemma_no_calls_push(f.messages, msg);
        assert(tool_result(item).text("role"@) == Some("tool"@));
        lemma_no_calls_push(f.messages, tool_result(item));
        let after = reasoned(before, reasoning_text(item)).messages;
        assert forall|i: int| 0 <= i < after.len() && is_system(#[trigger] after[i]) implies after[
            i].items("tool_calls"@).len() == 0 by {
            assert(after[i].text("role"@) == before.messages[i].text("role"@));
            assert(is_system(before.messages[i]));
            assert(after[i].items("tool_calls"@) == before.messages[i].items("tool_calls"@));
        }
    }
    let whole = items_step(d, items);
    if whole.calls.len() > 0 {
        let msg = calling(whole.calls);
        lemma_attached(msg, whole.reasoning);
        assert(msg.text("role"@) == Some("assistant"@));
        lemma_no_calls_push(whole.messages, attached(msg, whole.reasoning));
    }
}

proof fn lemma_system_makes_no_calls(req: JsonView)
    ensures
        system_makes_no_calls(full_messages(req)),
{
    lemma_keys();
    let d = beginning(req);
    assert(system_makes_no_calls(d.messages));
    lemma_no_calls_items(d, req.items("input"@));
    let messages = flushed(items_step(d, req.items("input"@))).messages;
    let reasons = all_with_reasons(messages);
    assert forall|i: int| 0 <= i < reasons.len() && is_system(#[trigger] reasons[i]) implies reasons[
        i].items("tool_calls"@).len() == 0 by {
        lemma_with_reasons(messages[i]);
        assert(reasons[i] == with_reasons(messages[i]));
        assert(is_system(messages[i]));
    }
}

// ── what one item says ────────────────────────────────────────────────

/// An item that says something reaches the chat model in the role it speaks in, with what it says:
/// a text as it is, and parts that are all texts as one text, a line for each.
pub proof fn law_messages_say_what_items_say(
    item: JsonView,
    pending: Option<Seq<char>>,
    parts: Seq<JsonView>,
)
    requires
        forall|i: int| 0 <= i < parts.len() ==> words_of_part(#[trigger] parts[i]) is Some,
    ensures
        ({
            let msg = chat_message(item, pending);
            let role = item.text("role"@);
            &&& item.text("content"@) matches Some(text) ==> msg.text("content"@) == Some(text)
            &&& item.member("content"@) is Null ==> msg.text("content"@) == Some(Seq::<char>::empty())
            &&& item.get("content"@) == Some(JsonView::Array(parts)) ==> msg.text("content"@) == Some(
                joined(Seq::new(parts.len(), |i: int| words_of_part(parts[i])->Some_0), "\n"@),
            )
            &&& role is None || role == Some("user"@) ==> msg.text("role"@) == Some("user"@)
            &&& role == Some("assistant"@) ==> msg.text("role"@) == Some("assistant"@)
            &&& role == Some("tool"@) ==> msg.text("role"@) == Some("tool"@)
            &&& role == Some("system"@) || role == Some("developer"@) ==> msg.text("role"@) == Some(
                "system"@,
            )
            &&& forall|key: Seq<char>|
                key != "role"@ && key != "content"@ && key != "reasoning_content"@ ==> (
                #[trigger] msg.get(key)) is None
        }),
{
    lemma_keys();
    lemma_role_words();
    law_roles_are_known("user"@);
    law_texts_are_said_in_full(item.member("content"@), parts);
    let plain = empty_object().with_text("role"@, role_of_item(item)).with(
        "content"@,
        flat(item.member("content"@)),
    );
    let msg = chat_message(item, pending);
    let waiting = appended(pending, item_reasoning(item));
    assert(plain.get("content"@) == Some(flat(item.member("content"@))));
    assert(msg == plain || msg == attached(plain, waiting));
    assert(attached(plain, waiting).get("content"@) == plain.get("content"@));
    lemma_attached(plain, waiting);
}

// ── the system ────────────────────────────────────────────────────────

proof fn lemma_said_add(a: Seq<JsonView>, b: Seq<JsonView>)
    ensures
        said(a + b) == said(a) + said(b),
    decreases b.len(),
{
    if b.len() == 0 {
        assert(a + b =~= a);
        assert(said(a) + Seq::<Seq<char>>::empty() =~= said(a));
    } else {
        assert((a + b).drop_last() =~= a + b.drop_last());
        lemma_said_add(a, b.drop_last());
        assert(said(a + b) =~= said(a) + said(b));
    }
}

proof fn lemma_said_one(msg: JsonView)
    ensures
        said(seq![msg]) == (match msg.text("content"@) {
            Some(text) => if is_blank(text) {
                Seq::<Seq<char>>::empty()
            } else {
                seq![trimmed(text)]
            },
            None => Seq::<Seq<char>>::empty(),
        }),
{
    let one = seq![msg];
    assert(one.drop_last() =~= Seq::empty());
    reveal_with_fuel(said, 2);
    assert(said(one.drop_last()) =~= Seq::empty());
    assert(one.last() == msg);
    assert(said(one) =~= (match msg.text("content"@) {
        Some(text) => if is_blank(text) {
            Seq::<Seq<char>>::empty()
        } else {
            seq![trimmed(text)]
        },
        None => Seq::<Seq<char>>::empty(),
    }));
}

proof fn lemma_leading_one(msg: JsonView, rest: Seq<JsonView>)
    requires
        is_system(msg),
    ensures
        leading_systems(seq![msg] + rest) == 1 + leading_systems(rest),
        (seq![msg] + rest).take(leading_systems(seq![msg] + rest) as int) == seq![msg] + rest.take(
            leading_systems(rest) as int,
        ),
        (seq![msg] + rest).skip(leading_systems(seq![msg] + rest) as int) == rest.skip(
            leading_systems(rest) as int,
        ),
{
    let all = seq![msg] + rest;
    assert(all[0] == msg);
    assert(all.drop_first() =~= rest);
    lemma_after_leading(rest);
    let n = leading_systems(rest) as int;
    assert(all.take(1 + n) =~= seq![msg] + rest.take(n));
    assert(all.skip(1 + n) =~= rest.skip(n));
}

proof fn lemma_joined_first_two(
    a: Seq<char>,
    b: Seq<char>,
    words: Seq<Seq<char>>,
    sep: Seq<char>,
)
    ensures
        joined(seq![a, b] + words, sep) == joined(seq![a + sep + b] + words, sep),
    decreases words.len(),
{
    let two = seq![a, b] + words;
    let one = seq![a + sep + b] + words;
    if words.len() == 0 {
        assert(two =~= seq![a, b]);
        assert(one =~= seq![a + sep + b]);
        assert(two.drop_last() =~= seq![a]);
        reveal_with_fuel(joined, 2);
    } else {
        lemma_joined_first_two(a, b, words.drop_last(), sep);
        assert(two.drop_last() =~= seq![a, b] + words.drop_last());
        assert(one.drop_last() =~= seq![a + sep + b] + words.drop_last());
    }
}

/// Where nobody else has spoken yet, one message of the system stays one, without the white space
/// around it. A blank one goes.
pub proof fn law_the_system_speaks_first(msg: JsonView, rest: Seq<JsonView>)
    requires
        msg.text("role"@) == Some("system"@),
        rest.len() > 0 ==> rest[0].text("role"@) != Some("system"@),
    ensures
        collapsed(rest) == rest,
        ({
            let after = collapsed(seq![msg] + rest);
            match msg.text("content"@) {
                Some(text) => if is_blank(text) {
                    after == rest
                } else {
                    &&& after.len() == rest.len() + 1
                    &&& after[0].text("role"@) == Some("system"@)
                    &&& after[0].text("content"@) == Some(trimmed(text))
                    &&& after.skip(1) == rest
                },
                None => after == rest,
            }
        }),
{
    lemma_keys();
    lemma_leading_one(msg, rest);
    lemma_said_one(msg);
    assert(leading_systems(rest) == 0);
    assert(rest.take(0) =~= Seq::empty());
    assert(said(rest.take(0)) =~= Seq::empty());
    assert(rest.skip(0) =~= rest);
    assert(seq![msg] + rest.take(0) =~= seq![msg]);
    let after = collapsed(seq![msg] + rest);
    if let Some(text) = msg.text("content"@) {
        if !is_blank(text) {
            assert(joined(seq![trimmed(text)], "\n\n"@) == trimmed(text));
            assert(after.skip(1) =~= rest);
        }
    }
}

/// Two messages of the system with which a conversation begins are as good as one that says both,
/// with a blank line between them. A blank one there is as good as none.
pub proof fn law_system_messages_are_put_together(
    a: JsonView,
    b: JsonView,
    both: JsonView,
    rest: Seq<JsonView>,
)
    requires
        a.text("role"@) == Some("system"@),
        b.text("role"@) == Some("system"@),
        both.text("role"@) == Some("system"@),
        a.text("content"@) is Some,
        b.text("content"@) is Some,
        !is_blank(a.text("content"@)->Some_0),
        both.text("content"@) == Some(
            trimmed(a.text("content"@)->Some_0) + "\n\n"@ + trimmed(b.text("content"@)->Some_0),
        ),
    ensures
        !is_blank(b.text("content"@)->Some_0) ==> collapsed(seq![a] + (seq![b] + rest)) == collapsed(
            seq![both] + rest,
        ),
        is_blank(b.text("content"@)->Some_0) ==> collapsed(seq![b] + rest) == collapsed(rest),
{
    let n = leading_systems(rest) as int;
    let words = said(rest.take(n));
    let x = trimmed(a.text("content"@)->Some_0);
    let y = trimmed(b.text("content"@)->Some_0);
    lemma_leading_one(b, rest);
    lemma_leading_one(a, seq![b] + rest);
    lemma_leading_one(both, rest);
    lemma_said_one(a);
    lemma_said_one(b);
    lemma_said_one(both);
    lemma_said_add(seq![b], rest.take(n));
    lemma_said_add(seq![a], seq![b] + rest.take(n));
    lemma_said_add(seq![both], rest.take(n));
    if is_blank(b.text("content"@)->Some_0) {
        assert(Seq::<Seq<char>>::empty() + words =~= words);
    } else {
        lemma_trimmed_edges(a.text("content"@)->Some_0);
        lemma_trimmed_edges(b.text("content"@)->Some_0);
        let whole = x + "\n\n"@ + y;
        assert(whole[0] == x[0] && whole.last() == y.last());
        lemma_trimmed_fixed(whole);
        assert(seq![x] + (seq![y] + words) =~= seq![x, y] + words);
        lemma_joined_first_two(x, y, words, "\n\n"@);
    }
}

proof fn lemma_first_stays(d: DraftView, items: Seq<JsonView>)
    requires
        d.messages.len() > 0,
        is_system(d.messages[0]),
    ensures
        items_step(d, items).messages.len() > 0,
        items_step(d, items).messages[0] == d.messages[0],
    decreases items.len(),
{
    lemma_keys();
    if items.len() > 0 {
        lemma_first_stays(d, items.drop_last());
    }
}

/// The instructions of a request come first in what the chat model hears.
pub proof fn law_instructions_come_first(req: JsonView)
    requires
        req.text("instructions"@) is Some,
        !is_blank(req.text("instructions"@)->Some_0),
    ensures
        chat_messages(req).len() > 0,
        chat_messages(req)[0].text("role"@) == Some("system"@),
        chat_messages(req)[0].text("content"@) matches Some(content) && trimmed(
            req.text("instructions"@)->Some_0,
        ).is_prefix_of(content),
{
    lemma_keys();
    let text = req.text("instructions"@)->Some_0;
    let d = beginning(req);
    let items = req.items("input"@);
    lemma_first_stays(d, items);
    let messages = full_messages(req);
    let first = system_message(text);
    assert(flushed(items_step(d, items)).messages[0] == first);
    assert(messages[0] == with_reasons(first));
    assert(with_reasons(first) == first);
    let rest = messages.skip(1);
    assert(messages =~= seq![first] + rest);
    lemma_leading_one(first, rest);
    lemma_said_one(first);
    let n = leading_systems(rest) as int;
    lemma_said_add(seq![first], rest.take(n));
    let words = said(rest.take(n));
    assert(said(messages.take(1 + n)) == seq![trimmed(text)] + words);
    lemma_joined_prefix(trimmed(text), words, "\n\n"@);
}

proof fn lemma_joined_prefix(first: Seq<char>, words: Seq<Seq<char>>, sep: Seq<char>)
    ensures
        first.is_prefix_of(joined(seq![first] + words, sep)),
    decreases words.len(),
{
    let all = seq![first] + words;
    if words.len() == 0 {
        assert(all =~= seq![first]);
    } else {
        lemma_joined_prefix(first, words.drop_last(), sep);
        assert(all.drop_last() =~= seq![first] + words.drop_last());
        let before = joined(all.drop_last(), sep);
        assert(first =~= before.take(first.len() as int));
        assert(first =~= joined(all, sep).take(first.len() as int));
    }
}

// ── what stands around the conversation ───────────────────────────────

/// Whether a request asks for no reasoning: its effort is one of three words, in whatever case, or
/// it has null for reasoning.
pub open spec fn declines_reasoning(req: JsonView) -> bool {
    match req.member("reasoning"@).text("effort"@) {
        Some(effort) => {
            let word = lowered(trimmed(effort));
            word == "none"@ || word == "off"@ || word == "disabled"@
        },
        None => req.get("reasoning"@) == Some(JsonView::Null),
    }
}

/// A chat request names the model of the daemon and holds the conversation. Limits, sampling and
/// streaming are those of the request; a stream is told to tell its cost. Reasoning is asked for or
/// declined as in the request. Tools come with the choice among them, and a choice only with tools.
pub proof fn law_requests_are_passed_on(req: JsonView, model: Seq<char>)
    ensures
        ({
            let chat = chat_request(req, model);
            let tools = chat_tools(req.items("tools"@));
            &&& chat.text("model"@) == Some(model)
            &&& chat.get("messages"@) == Some(JsonView::Array(chat_messages(req)))
            &&& chat.get("max_tokens"@) == req.get("max_output_tokens"@)
            &&& chat.get("temperature"@) == req.get("temperature"@)
            &&& chat.get("top_p"@) == req.get("top_p"@)
            &&& chat.get("stream"@) == req.get("stream"@)
            &&& req.get("stream"@) == Some(JsonView::Bool(true)) ==> chat.member(
                "stream_options"@,
            ).get("include_usage"@) == Some(JsonView::Bool(true))
            &&& req.get("stream"@) != Some(JsonView::Bool(true)) ==> chat.get(
                "stream_options"@,
            ) is None
            &&& req.get("reasoning"@) is None ==> chat.get("thinking"@) is None
            &&& req.get("reasoning"@) is Some ==> chat.member("thinking"@).text("type"@) == Some(
                if declines_reasoning(req) {
                    "disabled"@
                } else {
                    "enabled"@
                },
            )
            &&& tools.len() > 0 ==> chat.get("tools"@) == Some(JsonView::Array(tools))
            &&& tools.len() > 0 ==> chat.get("tool_choice"@) == chat_choice(req.get("tool_choice"@))
            &&& tools.len() == 0 ==> chat.get("tools"@) is None && chat.get("tool_choice"@) is None
            &&& forall|key: Seq<char>|
                key != "model"@ && key != "messages"@ && key != "max_tokens"@ && key
                    != "temperature"@ && key != "top_p"@ && key != "stream"@ && key
                    != "stream_options"@ && key != "thinking"@ && key != "tools"@ && key
                    != "tool_choice"@ ==> (#[trigger] chat.get(key)) is None
        }),
{
    lemma_request_words();
    let named = empty_object().with_text("model"@, model).with(
        "messages"@,
        JsonView::Array(chat_messages(req)),
    );
    let limited = taken_over(named, req, "max_output_tokens"@, "max_tokens"@);
    let tempered = taken_over(limited, req, "temperature"@, "temperature"@);
    let sampled = taken_over(tempered, req, "top_p"@, "top_p"@);
    let equipped = with_tools(sampled, req);
    let streamed = with_stream(equipped, req);
    let chat = with_thinking(streamed, req);
    assert(named is Object && limited is Object && tempered is Object && sampled is Object);
    assert(equipped is Object && streamed is Object);
    assert(req.get2("reasoning"@, "effort"@) == req.member("reasoning"@).get("effort"@));
}

} // verus!

//! Message content on its way to a chat model.
use vstd::prelude::*;

use crate::codec::{json_text, to_json_text};
use crate::json::{array_view, empty_object, lemma_array_view, lemma_array_view_push, opt_json};
use crate::json::{opt_str, or_empty, str_or_empty, Json, JsonView};
use crate::text::{join, joined, lemma_texts_push, same_text, texts};

verus! {

// ── parts ─────────────────────────────────────────────────────────────

pub open spec fn part_kind(part: JsonView) -> Seq<char> {
    or_empty(part.text("type"@))
}

/// The text of a part that holds text.
pub open spec fn plain_text(part: JsonView) -> Option<Seq<char>> {
    let kind = part_kind(part);
    if kind == "input_text"@ || kind == "output_text"@ || kind == "text"@ {
        part.full_text("text"@)
    } else if kind == "refusal"@ {
        part.full_text("refusal"@)
    } else {
        None
    }
}

/// `object` with the member `key` of `part`, where it has one.
pub open spec fn carried(object: JsonView, part: JsonView, key: Seq<char>) -> JsonView {
    match part.get(key) {
        Some(value) => object.with(key, value),
        None => object,
    }
}

pub open spec fn is_file(part: JsonView) -> bool {
    part.get("file_id"@) is Some || part.get("file_data"@) is Some || part.get("filename"@) is Some
}

/// The chat form of a part that holds an image, a file or a recording.
pub open spec fn media(part: JsonView) -> Option<JsonView> {
    let kind = part_kind(part);
    if kind == "input_image"@ {
        match part.get("image_url"@) {
            Some(url) => Some(
                empty_object().with_text("type"@, "image_url"@).with(
                    "image_url"@,
                    if url is Object {
                        url
                    } else {
                        empty_object().with_text("url"@, or_empty(url.as_text()))
                    },
                ),
            ),
            None => None,
        }
    } else if kind == "input_file"@ {
        if is_file(part) {
            let file = carried(
                carried(carried(empty_object(), part, "file_id"@), part, "file_data"@),
                part,
                "filename"@,
            );
            Some(empty_object().with_text("type"@, "file"@).with("file"@, file))
        } else {
            None
        }
    } else if kind == "input_audio"@ {
        match part.get("input_audio"@) {
            Some(audio) => Some(
                empty_object().with_text("type"@, "input_audio"@).with("input_audio"@, audio),
            ),
            None => None,
        }
    } else {
        None
    }
}

/// The chat form of a part.
pub open spec fn chat_part(part: JsonView) -> Option<JsonView> {
    match plain_text(part) {
        Some(text) => Some(empty_object().with_text("type"@, "text"@).with_text("text"@, text)),
        None => media(part),
    }
}

/// The chat forms of the parts that have one.
pub open spec fn chat_parts(parts: Seq<JsonView>) -> Seq<JsonView>
    decreases parts.len(),
{
    if parts.len() == 0 {
        Seq::empty()
    } else {
        match chat_part(parts.last()) {
            Some(part) => chat_parts(parts.drop_last()).push(part),
            None => chat_parts(parts.drop_last()),
        }
    }
}

/// The texts of the parts that hold text.
pub open spec fn plain_texts(parts: Seq<JsonView>) -> Seq<Seq<char>>
    decreases parts.len(),
{
    if parts.len() == 0 {
        Seq::empty()
    } else {
        match plain_text(parts.last()) {
            Some(text) => plain_texts(parts.drop_last()).push(text),
            None => plain_texts(parts.drop_last()),
        }
    }
}

/// Whether one of the parts holds more than text.
pub open spec fn has_media(parts: Seq<JsonView>) -> bool
    decreases parts.len(),
{
    parts.len() > 0 && (has_media(parts.drop_last()) || media(parts.last()) is Some)
}

/// The chat form of a message's content. Parts become one text, a line for each, unless one of
/// them holds more than text. Nothing becomes the empty text.
pub open spec fn flat(content: JsonView) -> JsonView {
    match content {
        JsonView::Null => JsonView::Text(Seq::empty()),
        JsonView::Array(parts) => if has_media(parts) {
            JsonView::Array(chat_parts(parts))
        } else {
            JsonView::Text(joined(plain_texts(parts), "\n"@))
        },
        other => other,
    }
}

fn part_kind_str(part: &Json) -> (kind: &str)
    ensures
        kind@ == part_kind(part@),
{
    str_or_empty(part.text("type"))
}

fn plain_text_str(part: &Json) -> (text: Option<&str>)
    ensures
        opt_str(text) == plain_text(part@),
{
    let kind = part_kind_str(part);
    if same_text(kind, "input_text") || same_text(kind, "output_text") || same_text(kind, "text") {
        part.full_text("text")
    } else if same_text(kind, "refusal") {
        part.full_text("refusal")
    } else {
        None
    }
}

fn carry(object: Json, part: &Json, key: &str) -> (json: Json)
    ensures
        json@ == carried(object@, part@, key@),
{
    match part.get(key) {
        Some(value) => object.with(key, value.clone()),
        None => object,
    }
}

fn media_json(part: &Json) -> (json: Option<Json>)
    ensures
        opt_json(json) == media(part@),
{
    let kind = part_kind_str(part);
    if same_text(kind, "input_image") {
        match part.get("image_url") {
            Some(url) => {
                let image_url = if url.is_object() {
                    url.clone()
                } else {
                    Json::object().with_text("url", str_or_empty(url.as_str()))
                };
                Some(Json::object().with_text("type", "image_url").with("image_url", image_url))
            },
            None => None,
        }
    } else if same_text(kind, "input_file") {
        if part.get("file_id").is_some() || part.get("file_data").is_some() || part.get(
            "filename",
        ).is_some() {
            let file = carry(
                carry(carry(Json::object(), part, "file_id"), part, "file_data"),
                part,
                "filename",
            );
            Some(Json::object().with_text("type", "file").with("file", file))
        } else {
            None
        }
    } else if same_text(kind, "input_audio") {
        match part.get("input_audio") {
            Some(audio) => Some(
                Json::object().with_text("type", "input_audio").with("input_audio", audio.clone()),
            ),
            None => None,
        }
    } else {
        None
    }
}

fn flatten_parts(parts: &Vec<Json>) -> (json: Json)
    ensures
        json@ == flat(JsonView::Array(array_view(parts@))),
{
    let ghost all = array_view(parts@);
    proof {
        lemma_array_view(parts@);
        assert(all.take(0) =~= Seq::empty());
    }
    let mut converted: Vec<Json> = Vec::new();
    let mut plain: Vec<String> = Vec::new();
    let mut has_non_text = false;
    let mut i: usize = 0;
    assert(texts(plain@) =~= Seq::empty());
    while i < parts.len()
        invariant
            i <= parts@.len(),
            all.len() == parts@.len(),
            forall|k: int| 0 <= k < all.len() ==> #[trigger] all[k] == parts@[k]@,
            array_view(converted@) == chat_parts(all.take(i as int)),
            texts(plain@) == plain_texts(all.take(i as int)),
            has_non_text == has_media(all.take(i as int)),
        decreases parts@.len() - i,
    {
        broadcast use lemma_array_view_push, lemma_texts_push;

        assert(all.take(i + 1).drop_last() =~= all.take(i as int));
        assert(all.take(i + 1).last() == parts@[i as int]@);
        match plain_text_str(&parts[i]) {
            Some(text) => {
                proof {
                    lemma_text_is_no_media(parts@[i as int]@);
                }
                converted.push(Json::object().with_text("type", "text").with_text("text", text));
                plain.push(text.to_owned());
            },
            None => {
                if let Some(part) = media_json(&parts[i]) {
                    converted.push(part);
                    has_non_text = true;
                }
            },
        }
        i += 1;
    }
    assert(all.take(i as int) =~= all);
    if has_non_text {
        Json::Array(converted)
    } else {
        Json::Text(join(&plain, "\n"))
    }
}

/// A part that holds text holds nothing else.
proof fn lemma_text_is_no_media(part: JsonView)
    requires
        plain_text(part) is Some,
    ensures
        media(part) is None,
{
    reveal_strlit("input_text");
    reveal_strlit("output_text");
    reveal_strlit("text");
    reveal_strlit("refusal");
    reveal_strlit("input_image");
    reveal_strlit("input_file");
    reveal_strlit("input_audio");
    let kind = part_kind(part);
    assert(kind[kind.len() - 1] != 'e' && kind[kind.len() - 1] != 'o');
}

pub fn flatten_content(content: Json) -> (json: Json)
    ensures
        json@ == flat(content@),
{
    match content {
        Json::Null => Json::Text(String::new()),
        Json::Array(parts) => flatten_parts(&parts),
        other => {
            assert(!(other@ is Null || other@ is Array));
            other
        },
    }
}

// ── tool results ──────────────────────────────────────────────────────

/// The texts of the items that have one.
pub open spec fn item_texts(items: Seq<JsonView>) -> Seq<Seq<char>>
    decreases items.len(),
{
    if items.len() == 0 {
        Seq::empty()
    } else {
        match items.last().text("text"@) {
            Some(text) => item_texts(items.drop_last()).push(text),
            None => item_texts(items.drop_last()),
        }
    }
}

/// What a tool gave back, as one text.
pub open spec fn result_text(output: JsonView) -> Seq<char> {
    match output {
        JsonView::Text(s) => s,
        JsonView::Array(items) => joined(item_texts(items), "\n"@),
        other => json_text(other),
    }
}

pub fn output_text(output: &Json) -> (text: String)
    ensures
        text@ == result_text(output@),
{
    match output {
        Json::Text(s) => s.clone(),
        Json::Array(items) => {
            let ghost all = array_view(items@);
            proof {
                lemma_array_view(items@);
                assert(all.take(0) =~= Seq::empty());
            }
            let mut found: Vec<String> = Vec::new();
            let mut i: usize = 0;
            assert(texts(found@) =~= Seq::empty());
            while i < items.len()
                invariant
                    i <= items@.len(),
                    all.len() == items@.len(),
                    forall|k: int| 0 <= k < all.len() ==> #[trigger] all[k] == items@[k]@,
                    texts(found@) == item_texts(all.take(i as int)),
                decreases items@.len() - i,
            {
                broadcast use lemma_texts_push;

                assert(all.take(i + 1).drop_last() =~= all.take(i as int));
                assert(all.take(i + 1).last() == items@[i as int]@);
                if let Some(text) = items[i].text("text") {
                    found.push(text.to_owned());
                }
                i += 1;
            }
            assert(all.take(i as int) =~= all);
            join(&found, "\n")
        },
        _ => {
            assert(!(output@ is Text || output@ is Array));
            to_json_text(output)
        },
    }
}

} // verus!

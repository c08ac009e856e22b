//! Reading and writing JSON text with `serde_json`.
use vstd::prelude::*;

use crate::json::{array_view, fields_view, json_view, lemma_array_view, lemma_array_view_push};
use crate::json::{number_view, Json, JsonNumber, JsonView};

verus! {

// ── trusted: the calls into serde_json ────────────────────────────────

/// The JSON value of `serde_json`.
#[verifier::external_type_specification]
#[verifier::external_body]
pub struct ExValue(serde_json::Value);

/// The JSON number of `serde_json`.
#[verifier::external_type_specification]
#[verifier::external_body]
pub struct ExNumber(serde_json::Number);

/// `serde_json::Number::clone` hands out an equal number.
pub assume_specification[ <serde_json::Number as Clone>::clone ](
    number: &serde_json::Number,
) -> (copy: serde_json::Number)
    ensures
        copy == *number,
;

/// A number that is no integer of 64 bits, as `serde_json` keeps it. Only reading a document makes
/// one, so an integer never passes for a fraction.
#[derive(Debug, PartialEq)]
pub struct Fraction {
    number: serde_json::Number,
}

impl Clone for Fraction {
    fn clone(&self) -> (copy: Self)
        ensures
            copy == *self,
    {
        Fraction { number: self.number.clone() }
    }
}

/// The tree that a `serde_json::Value` holds.
pub uninterp spec fn value_tree(value: serde_json::Value) -> JsonView;

/// What `serde_json::from_str` makes of a text: a tree, or the wording of its error.
pub uninterp spec fn json_parse(text: Seq<char>) -> Result<JsonView, Seq<char>>;

/// What `serde_json::from_slice` makes of bytes: a tree, or nothing where it fails.
pub uninterp spec fn json_parse_bytes(bytes: Seq<u8>) -> Option<JsonView>;

/// The compact text that `serde_json` writes for a tree.
pub uninterp spec fn json_text(tree: JsonView) -> Seq<char>;

/// The indented text that `serde_json` writes for a tree, or nothing where it fails.
pub uninterp spec fn json_pretty(tree: JsonView) -> Option<Seq<char>>;

/// Whether a tree holds no fraction, and has at most `depth` arrays and objects in one another.
pub open spec fn is_plain(tree: JsonView, depth: nat) -> bool
    decreases depth,
{
    match tree {
        JsonView::Fraction(_) => false,
        JsonView::Array(items) => depth > 0 && forall|i: int|
            0 <= i < items.len() ==> is_plain(#[trigger] items[i], (depth - 1) as nat),
        JsonView::Object(members) => depth > 0 && forall|key: Seq<char>| #[trigger]
            members.contains_key(key) ==> is_plain(members[key], (depth - 1) as nat),
        _ => true,
    }
}

/// `serde_json::from_str` read as a `Value`: the result is a function of the text. The error is
/// taken by its wording.
#[verifier::external_body]
fn value_from_str(text: &str) -> (parsed: Result<serde_json::Value, String>)
    ensures
        match parsed {
            Ok(value) => json_parse(text@) == Ok::<JsonView, Seq<char>>(value_tree(value)),
            Err(error) => json_parse(text@) == Err::<JsonView, Seq<char>>(error@),
        },
{
    serde_json::from_str::<serde_json::Value>(text).map_err(|e| e.to_string())
}

/// `serde_json::from_slice` read as a `Value`: the result is a function of the bytes.
#[verifier::external_body]
fn value_from_slice(bytes: &[u8]) -> (parsed: Option<serde_json::Value>)
    ensures
        match parsed {
            Some(value) => json_parse_bytes(bytes@) == Some(value_tree(value)),
            None => json_parse_bytes(bytes@) == None::<JsonView>,
        },
{
    serde_json::from_slice::<serde_json::Value>(bytes).ok()
}

/// `serde_json::Value::to_string`: the text is a function of the tree. The text of an object
/// begins with a brace. `serde_json::from_str` reads a tree without fractions back from it, as
/// long as it is not nested beyond what `from_str` takes.
#[verifier::external_body]
fn value_to_string(value: &serde_json::Value) -> (written: String)
    ensures
        written@ == json_text(value_tree(*value)),
        value_tree(*value) is Object ==> written@.len() > 0,
        value_tree(*value) is Object ==> written@[0] == '{',
        is_plain(value_tree(*value), 127) ==> json_parse(written@) is Ok,
        is_plain(value_tree(*value), 127) ==> json_parse(written@)->Ok_0 == value_tree(*value),
{
    value.to_string()
}

/// `serde_json::to_string_pretty`: the text is a function of the tree.
#[verifier::external_body]
fn value_to_string_pretty(value: &serde_json::Value) -> (text: Option<String>)
    ensures
        match text {
            Some(s) => json_pretty(value_tree(*value)) == Some(s@),
            None => json_pretty(value_tree(*value)) == None::<Seq<char>>,
        },
{
    serde_json::to_string_pretty(value).ok()
}

/// One layer of a `serde_json::Value`: a scalar, or the values right below it.
pub enum Layer<'a> {
    Null,
    Bool(bool),
    Number(JsonNumber),
    Text(&'a String),
    Array(&'a Vec<serde_json::Value>),
    Object(Vec<(&'a String, &'a serde_json::Value)>),
}

/// The trees of a row of values.
pub open spec fn values_tree(values: Seq<serde_json::Value>) -> Seq<JsonView> {
    values.map_values(|value: serde_json::Value| value_tree(value))
}

/// The map of a row of entries.
pub open spec fn entries_tree(entries: Seq<(&String, &serde_json::Value)>) -> Map<
    Seq<char>,
    JsonView,
>
    decreases entries.len(),
{
    if entries.len() == 0 {
        Map::empty()
    } else {
        entries_tree(entries.drop_last()).insert(
            entries.last().0@,
            value_tree(*entries.last().1),
        )
    }
}

pub open spec fn layer_tree(layer: Layer) -> JsonView {
    match layer {
        Layer::Null => JsonView::Null,
        Layer::Bool(b) => JsonView::Bool(b),
        Layer::Number(n) => number_view(n),
        Layer::Text(s) => JsonView::Text(s@),
        Layer::Array(items) => JsonView::Array(values_tree(items@)),
        Layer::Object(entries) => JsonView::Object(entries_tree(entries@)),
    }
}

/// Tells the variants of `serde_json::Value` apart. No key occurs twice in what
/// `serde_json::Map::iter` walks over.
#[verifier::external_body]
fn open_layer<'a>(value: &'a serde_json::Value) -> (layer: Layer<'a>)
    ensures
        layer_tree(layer) == value_tree(*value),
        layer matches Layer::Object(entries) ==> forall|i: int, k: int|
            0 <= i < k < entries@.len() ==> (#[trigger] entries@[i]).0@ != (
            #[trigger] entries@[k]).0@,
{
    match value {
        serde_json::Value::Null => Layer::Null,
        serde_json::Value::Bool(b) => Layer::Bool(*b),
        serde_json::Value::Number(n) => Layer::Number(match (n.as_u64(), n.as_i64()) {
            (Some(u), _) => JsonNumber::Unsigned(u),
            (None, Some(i)) => JsonNumber::Signed(i),
            (None, None) => JsonNumber::Fraction(Fraction { number: n.clone() }),
        }),
        serde_json::Value::String(s) => Layer::Text(s),
        serde_json::Value::Array(items) => Layer::Array(items),
        serde_json::Value::Object(map) => Layer::Object(map.iter().collect()),
    }
}

/// The `serde_json::Value` of a number: `Value::from` for the integers, the number that
/// `serde_json` read for a fraction.
#[verifier::external_body]
fn number_value(number: JsonNumber) -> (value: serde_json::Value)
    ensures
        value_tree(value) == number_view(number),
{
    match number {
        JsonNumber::Unsigned(u) => serde_json::Value::from(u),
        JsonNumber::Signed(i) => serde_json::Value::from(i),
        JsonNumber::Fraction(f) => serde_json::Value::Number(f.number),
    }
}

/// `serde_json::Value::Null`.
#[verifier::external_body]
fn null_value() -> (value: serde_json::Value)
    ensures
        value_tree(value) == JsonView::Null,
{
    serde_json::Value::Null
}

/// `serde_json::Value::Bool`.
#[verifier::external_body]
fn bool_value(b: bool) -> (value: serde_json::Value)
    ensures
        value_tree(value) == JsonView::Bool(b),
{
    serde_json::Value::Bool(b)
}

/// `serde_json::Value::String`.
#[verifier::external_body]
fn text_value(s: String) -> (value: serde_json::Value)
    ensures
        value_tree(value) == JsonView::Text(s@),
{
    serde_json::Value::String(s)
}

/// `serde_json::Value::Array`.
#[verifier::external_body]
fn array_value(items: Vec<serde_json::Value>) -> (value: serde_json::Value)
    ensures
        value_tree(value) == JsonView::Array(values_tree(items@)),
{
    serde_json::Value::Array(items)
}

/// `serde_json::Value::Object` of a new `serde_json::Map`.
#[verifier::external_body]
fn object_value() -> (value: serde_json::Value)
    ensures
        value_tree(value) == JsonView::Object(Map::<Seq<char>, JsonView>::empty()),
{
    serde_json::Value::Object(serde_json::Map::new())
}

/// `serde_json::Map::insert`, on the map of an object: the key then has the given value.
#[verifier::external_body]
fn insert_member(object: &mut serde_json::Value, key: String, member: serde_json::Value)
    requires
        value_tree(*old(object)) is Object,
    ensures
        value_tree(*final(object)) == JsonView::Object(
            value_tree(*old(object))->Object_0.insert(key@, value_tree(member)),
        ),
{
    object.as_object_mut().unwrap().insert(key, member);
}

// ── documents and values ──────────────────────────────────────────────

proof fn lemma_entries_tree(entries: Seq<(&String, &serde_json::Value)>)
    requires
        forall|i: int, k: int|
            0 <= i < k < entries.len() ==> (#[trigger] entries[i]).0@ != (#[trigger] entries[k]).0@,
    ensures
        entries_tree(entries).dom().finite(),
        forall|i: int|
            0 <= i < entries.len() ==> {
                &&& entries_tree(entries).contains_key((#[trigger] entries[i]).0@)
                &&& entries_tree(entries)[entries[i].0@] == value_tree(*entries[i].1)
            },
    decreases entries.len(),
{
    if entries.len() > 0 {
        let rest = entries.drop_last();
        assert forall|i: int, k: int| 0 <= i < k < rest.len() implies (#[trigger] rest[i]).0@ != (
        #[trigger] rest[k]).0@ by {
            assert(rest[i] == entries[i] && rest[k] == entries[k]);
        }
        lemma_entries_tree(rest);
        assert forall|i: int| 0 <= i < entries.len() implies {
            &&& entries_tree(entries).contains_key((#[trigger] entries[i]).0@)
            &&& entries_tree(entries)[entries[i].0@] == value_tree(*entries[i].1)
        } by {
            if i < rest.len() {
                assert(rest[i] == entries[i]);
                assert(entries[i].0@ != entries[entries.len() - 1].0@);
            }
        }
    }
}

/// The document that a `serde_json::Value` holds.
fn json_of_value(value: &serde_json::Value) -> (json: Json)
    ensures
        json@ == value_tree(*value),
    decreases value_tree(*value),
{
    match open_layer(value) {
        Layer::Null => Json::Null,
        Layer::Bool(b) => Json::Bool(b),
        Layer::Number(n) => Json::Number(n),
        Layer::Text(s) => Json::Text(s.clone()),
        Layer::Array(items) => {
            let mut out: Vec<Json> = Vec::new();
            let mut i: usize = 0;
            while i < items.len()
                invariant
                    i <= items@.len(),
                    value_tree(*value) == JsonView::Array(values_tree(items@)),
                    array_view(out@) == values_tree(items@).take(i as int),
                decreases items@.len() - i,
            {
                let ghost tree = value_tree(*value);
                assert(tree->Array_0[i as int] == value_tree(items@[i as int]));
                assert(decreases_to!(tree => tree->Array_0));
                assert(decreases_to!(tree->Array_0 => tree->Array_0[i as int]));
                let item = json_of_value(&items[i]);
                proof {
                    lemma_array_view_push(out@, item);
                }
                out.push(item);
                assert(values_tree(items@).take(i + 1) =~= values_tree(items@).take(
                    i as int,
                ).push(values_tree(items@)[i as int]));
                i += 1;
            }
            assert(values_tree(items@).take(i as int) =~= values_tree(items@));
            Json::Array(out)
        },
        Layer::Object(entries) => {
            let mut out: Vec<(String, Json)> = Vec::new();
            let mut i: usize = 0;
            proof {
                lemma_entries_tree(entries@);
                assert(entries@.take(0) =~= Seq::empty());
            }
            while i < entries.len()
                invariant
                    i <= entries@.len(),
                    value_tree(*value) == JsonView::Object(entries_tree(entries@)),
                    entries_tree(entries@).dom().finite(),
                    forall|k: int|
                        0 <= k < entries@.len() ==> {
                            &&& entries_tree(entries@).contains_key((#[trigger] entries@[k]).0@)
                            &&& entries_tree(entries@)[entries@[k].0@] == value_tree(*entries@[k].1)
                        },
                    fields_view(out@) == entries_tree(entries@.take(i as int)),
                decreases entries@.len() - i,
            {
                let ghost tree = value_tree(*value);
                assert(tree->Object_0[entries@[i as int].0@] == value_tree(*entries@[i as int].1));
                assert(decreases_to!(tree => tree->Object_0));
                assert(decreases_to!(tree->Object_0 => tree->Object_0[entries@[i as int].0@]));
                let field = (entries[i].0.clone(), json_of_value(entries[i].1));
                let ghost before = out@;
                out.push(field);
                assert(out@.drop_last() =~= before);
                assert(entries@.take(i + 1).drop_last() =~= entries@.take(i as int));
                i += 1;
            }
            assert(entries@.take(i as int) =~= entries@);
            Json::Object(out)
        },
    }
}

/// The `serde_json::Value` of a document.
fn value_of_json(json: &Json) -> (value: serde_json::Value)
    ensures
        value_tree(value) == json@,
    decreases json,
{
    match json {
        Json::Null => null_value(),
        Json::Bool(b) => bool_value(*b),
        Json::Number(n) => number_value(n.clone()),
        Json::Text(s) => text_value(s.clone()),
        Json::Array(items) => {
            let mut out: Vec<serde_json::Value> = Vec::new();
            let mut i: usize = 0;
            while i < items.len()
                invariant
                    i <= items@.len(),
                    *json == Json::Array(*items),
                    values_tree(out@) == array_view(items@).take(i as int),
                decreases items@.len() - i,
            {
                broadcast use lemma_array_view;

                assert(decreases_to!(*json => json->Array_0));
                assert(decreases_to!(json->Array_0 => json->Array_0@));
                assert(decreases_to!(json->Array_0@ => json->Array_0@[i as int]));
                let item = value_of_json(&items[i]);
                let ghost before = out@;
                out.push(item);
                assert(values_tree(out@) =~= values_tree(before).push(value_tree(item)));
                assert(array_view(items@).take(i + 1) =~= array_view(items@).take(i as int).push(
                    json_view(items@[i as int]),
                ));
                i += 1;
            }
            proof {
                lemma_array_view(items@);
                assert(array_view(items@).take(i as int) =~= array_view(items@));
            }
            array_value(out)
        },
        Json::Object(fields) => {
            let mut out = object_value();
            let mut i: usize = 0;
            while i < fields.len()
                invariant
                    i <= fields@.len(),
                    *json == Json::Object(*fields),
                    value_tree(out) == JsonView::Object(fields_view(fields@.take(i as int))),
                decreases fields@.len() - i,
            {
                assert(decreases_to!(*json => json->Object_0));
                assert(decreases_to!(json->Object_0 => json->Object_0@));
                assert(decreases_to!(json->Object_0@ => json->Object_0@[i as int]));
                assert(decreases_to!(json->Object_0@[i as int] => json->Object_0@[i as int].1));
                let member = value_of_json(&fields[i].1);
                insert_member(&mut out, fields[i].0.clone(), member);
                assert(fields@.take(i + 1).drop_last() =~= fields@.take(i as int));
                i += 1;
            }
            assert(fields@.take(i as int) =~= fields@);
            out
        },
    }
}

// ── text and documents ────────────────────────────────────────────────

/// Reads a JSON text, or says what is wrong with it.
pub fn parse_json(text: &str) -> (parsed: Result<Json, String>)
    ensures
        match parsed {
            Ok(json) => json_parse(text@) == Ok::<JsonView, Seq<char>>(json@),
            Err(error) => json_parse(text@) == Err::<JsonView, Seq<char>>(error@),
        },
{
    match value_from_str(text) {
        Ok(value) => Ok(json_of_value(&value)),
        Err(error) => Err(error),
    }
}

/// Reads JSON bytes.
pub fn parse_json_bytes(bytes: &[u8]) -> (parsed: Option<Json>)
    ensures
        match parsed {
            Some(json) => json_parse_bytes(bytes@) == Some(json@),
            None => json_parse_bytes(bytes@) == None::<JsonView>,
        },
{
    match value_from_slice(bytes) {
        Some(value) => Some(json_of_value(&value)),
        None => None,
    }
}

/// The compact text of a document. A document without fractions can be read back from it.
pub fn to_json_text(json: &Json) -> (text: String)
    ensures
        text@ == json_text(json@),
        json@ is Object ==> text@.len() > 0 && text@[0] == '{',
        is_plain(json@, 127) ==> (json_parse(text@) matches Ok(tree) && tree == json@),
{
    value_to_string(&value_of_json(json))
}

/// The indented text of a document.
pub fn to_json_pretty(json: &Json) -> (text: Option<String>)
    ensures
        match text {
            Some(s) => json_pretty(json@) == Some(s@),
            None => json_pretty(json@) == None::<Seq<char>>,
        },
{
    value_to_string_pretty(&value_of_json(json))
}

} // verus!

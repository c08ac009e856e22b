//! JSON documents as plain data, and the mathematical tree that each one stands for.
use vstd::prelude::*;

use crate::codec::Fraction;
use crate::text::same_text;

verus! {

// ── documents ─────────────────────────────────────────────────────────

/// A JSON number: an integer of one of the two 64-bit ranges, or a fraction that is carried along.
#[derive(Debug, PartialEq)]
pub enum JsonNumber {
    Unsigned(u64),
    Signed(i64),
    Fraction(Fraction),
}

/// A JSON document. Where a key occurs twice in an object, the last entry counts.
#[derive(Debug, PartialEq)]
pub enum Json {
    Null,
    Bool(bool),
    Number(JsonNumber),
    Text(String),
    Array(Vec<Json>),
    Object(Vec<(String, Json)>),
}

// ── the tree of a document ────────────────────────────────────────────

/// The tree that a JSON document stands for. An object is a map: its keys have no order.
pub enum JsonView {
    Null,
    Bool(bool),
    Int(int),
    Fraction(Fraction),
    Text(Seq<char>),
    Array(Seq<JsonView>),
    Object(Map<Seq<char>, JsonView>),
}

/// The entry of `key`, if the map has one.
pub open spec fn lookup(map: Map<Seq<char>, JsonView>, key: Seq<char>) -> Option<JsonView> {
    if map.contains_key(key) {
        Some(map[key])
    } else {
        None
    }
}

impl JsonView {
    /// The member `key` of an object; nothing of anything else.
    pub open spec fn get(self, key: Seq<char>) -> Option<JsonView> {
        match self {
            JsonView::Object(map) => lookup(map, key),
            _ => None,
        }
    }

    /// The member `key`, or null where there is none.
    pub open spec fn member(self, key: Seq<char>) -> JsonView {
        match self.get(key) {
            Some(value) => value,
            None => JsonView::Null,
        }
    }

    /// The member `inner` of the member `outer`.
    pub open spec fn get2(self, outer: Seq<char>, inner: Seq<char>) -> Option<JsonView> {
        match self.get(outer) {
            Some(value) => value.get(inner),
            None => None,
        }
    }

    pub open spec fn as_text(self) -> Option<Seq<char>> {
        match self {
            JsonView::Text(s) => Some(s),
            _ => None,
        }
    }

    pub open spec fn as_array(self) -> Option<Seq<JsonView>> {
        match self {
            JsonView::Array(items) => Some(items),
            _ => None,
        }
    }

    pub open spec fn as_bool(self) -> Option<bool> {
        match self {
            JsonView::Bool(b) => Some(b),
            _ => None,
        }
    }

    pub open spec fn as_i64(self) -> Option<i64> {
        match self {
            JsonView::Int(i) => if i64::MIN <= i <= i64::MAX {
                Some(i as i64)
            } else {
                None
            },
            _ => None,
        }
    }

    pub open spec fn as_u64(self) -> Option<u64> {
        match self {
            JsonView::Int(i) => if 0 <= i <= u64::MAX {
                Some(i as u64)
            } else {
                None
            },
            _ => None,
        }
    }

    /// The string member `key`.
    pub open spec fn text(self, key: Seq<char>) -> Option<Seq<char>> {
        match self.get(key) {
            Some(value) => value.as_text(),
            None => None,
        }
    }

    /// The string member `key` where it is there and not empty.
    pub open spec fn full_text(self, key: Seq<char>) -> Option<Seq<char>> {
        match self.text(key) {
            Some(s) => if s.len() > 0 {
                Some(s)
            } else {
                None
            },
            None => None,
        }
    }

    /// The items of the array member `key`; none where that is no array.
    pub open spec fn items(self, key: Seq<char>) -> Seq<JsonView> {
        match self.get(key) {
            Some(JsonView::Array(items)) => items,
            _ => Seq::empty(),
        }
    }

    /// The object with the member `key` set to `value`. Anything but an object stays as it is.
    pub open spec fn with(self, key: Seq<char>, value: JsonView) -> JsonView {
        match self {
            JsonView::Object(map) => JsonView::Object(map.insert(key, value)),
            other => other,
        }
    }

    /// The object with the string member `key` set to `value`.
    pub open spec fn with_text(self, key: Seq<char>, value: Seq<char>) -> JsonView {
        self.with(key, JsonView::Text(value))
    }
}

/// The object without members.
pub open spec fn empty_object() -> JsonView {
    JsonView::Object(Map::empty())
}

pub open spec fn number_view(n: JsonNumber) -> JsonView {
    match n {
        JsonNumber::Unsigned(u) => JsonView::Int(u as int),
        JsonNumber::Signed(i) => JsonView::Int(i as int),
        JsonNumber::Fraction(f) => JsonView::Fraction(f),
    }
}

pub open spec fn json_view(j: Json) -> JsonView
    decreases j,
{
    match j {
        Json::Null => JsonView::Null,
        Json::Bool(b) => JsonView::Bool(b),
        Json::Number(n) => number_view(n),
        Json::Text(s) => JsonView::Text(s@),
        Json::Array(items) => JsonView::Array(array_view(items@)),
        Json::Object(fields) => JsonView::Object(fields_view(fields@)),
    }
}

/// The trees of a row of documents.
pub open spec fn array_view(items: Seq<Json>) -> Seq<JsonView>
    decreases items,
{
    if items.len() == 0 {
        Seq::empty()
    } else {
        array_view(items.drop_last()).push(json_view(items.last()))
    }
}

/// The map of a row of entries.
pub open spec fn fields_view(fields: Seq<(String, Json)>) -> Map<Seq<char>, JsonView>
    decreases fields,
{
    if fields.len() == 0 {
        Map::empty()
    } else {
        fields_view(fields.drop_last()).insert(fields.last().0@, json_view(fields.last().1))
    }
}

impl View for Json {
    type V = JsonView;

    open spec fn view(&self) -> JsonView {
        json_view(*self)
    }
}

/// The tree of an optional document.
pub open spec fn opt_view(json: Option<&Json>) -> Option<JsonView> {
    match json {
        Some(j) => Some(j@),
        None => None,
    }
}

/// The tree of an optional document that is owned.
pub open spec fn opt_json(json: Option<Json>) -> Option<JsonView> {
    match json {
        Some(j) => Some(j@),
        None => None,
    }
}

/// The characters of an optional string slice.
pub open spec fn opt_str(s: Option<&str>) -> Option<Seq<char>> {
    match s {
        Some(t) => Some(t@),
        None => None,
    }
}

/// The characters of an optional string.
pub open spec fn opt_string(s: Option<String>) -> Option<Seq<char>> {
    match s {
        Some(t) => Some(t@),
        None => None,
    }
}

// ── facts about views ─────────────────────────────────────────────────

pub broadcast proof fn lemma_array_view(items: Seq<Json>)
    ensures
        #![trigger array_view(items)]
        array_view(items).len() == items.len(),
        forall|i: int| 0 <= i < items.len() ==> #[trigger] array_view(items)[i] == json_view(items[i]),
    decreases items.len(),
{
    if items.len() > 0 {
        lemma_array_view(items.drop_last());
        assert forall|i: int| 0 <= i < items.len() implies #[trigger] array_view(items)[i]
            == json_view(items[i]) by {
            if i < items.len() - 1 {
                assert(array_view(items.drop_last())[i] == json_view(items.drop_last()[i]));
            }
        }
    }
}

pub broadcast proof fn lemma_array_view_push(items: Seq<Json>, item: Json)
    ensures
        #[trigger] array_view(items.push(item)) == array_view(items).push(json_view(item)),
{
    assert(items.push(item).drop_last() =~= items);
}

pub broadcast proof fn lemma_array_view_add(a: Seq<Json>, b: Seq<Json>)
    ensures
        #[trigger] array_view(a + b) == array_view(a) + array_view(b),
{
    lemma_array_view(a);
    lemma_array_view(b);
    lemma_array_view(a + b);
    assert(array_view(a + b) =~= array_view(a) + array_view(b));
}

proof fn lemma_fields_view_push(fields: Seq<(String, Json)>, field: (String, Json))
    ensures
        fields_view(fields.push(field)) == fields_view(fields).insert(field.0@, json_view(field.1)),
{
    assert(fields.push(field).drop_last() =~= fields);
}

proof fn lemma_fields_view_update(fields: Seq<(String, Json)>, i: int, field: (String, Json))
    requires
        0 <= i < fields.len(),
        fields[i].0@ == field.0@,
        forall|k: int| i < k < fields.len() ==> (#[trigger] fields[k]).0@ != field.0@,
    ensures
        fields_view(fields.update(i, field)) == fields_view(fields).insert(
            field.0@,
            json_view(field.1),
        ),
    decreases fields.len(),
{
    let updated = fields.update(i, field);
    if i == fields.len() - 1 {
        assert(updated.drop_last() =~= fields.drop_last());
        assert(fields_view(updated) =~= fields_view(fields).insert(field.0@, json_view(field.1)));
    } else {
        let rest = fields.drop_last();
        assert(updated.drop_last() =~= rest.update(i, field));
        assert forall|k: int| i < k < rest.len() implies (#[trigger] rest[k]).0@ != field.0@ by {
            assert(rest[k] == fields[k]);
        }
        lemma_fields_view_update(rest, i, field);
        assert(fields[fields.len() - 1].0@ != field.0@);
        assert(fields_view(updated) =~= fields_view(fields).insert(field.0@, json_view(field.1)));
    }
}

// ── reading ───────────────────────────────────────────────────────────

/// The index of the entry that counts for `key`.
fn find_field(fields: &Vec<(String, Json)>, key: &str) -> (found: Option<usize>)
    ensures
        match found {
            Some(i) => {
                &&& i < fields@.len()
                &&& fields@[i as int].0@ == key@
                &&& forall|k: int| i < k < fields@.len() ==> (#[trigger] fields@[k]).0@ != key@
                &&& lookup(fields_view(fields@), key@) == Some(json_view(fields@[i as int].1))
            },
            None => lookup(fields_view(fields@), key@) == None::<JsonView>,
        },
{
    let mut i: usize = fields.len();
    assert(fields@.take(i as int) =~= fields@);
    while i > 0
        invariant
            i <= fields@.len(),
            forall|k: int| i <= k < fields@.len() ==> (#[trigger] fields@[k]).0@ != key@,
            lookup(fields_view(fields@), key@) == lookup(
                fields_view(fields@.take(i as int)),
                key@,
            ),
        decreases i,
    {
        i -= 1;
        let ghost longer = fields@.take(i + 1);
        assert(longer.drop_last() =~= fields@.take(i as int));
        assert(longer.last() == fields@[i as int]);
        if same_text(fields[i].0.as_str(), key) {
            return Some(i);
        }
    }
    None
}

impl Json {
    /// The member `key` of an object.
    pub fn get(&self, key: &str) -> (value: Option<&Json>)
        ensures
            opt_view(value) == self@.get(key@),
    {
        match self {
            Json::Object(fields) => match find_field(fields, key) {
                Some(i) => Some(&fields[i].1),
                None => None,
            },
            _ => None,
        }
    }

    /// The member `inner` of the member `outer`.
    pub fn get2(&self, outer: &str, inner: &str) -> (value: Option<&Json>)
        ensures
            opt_view(value) == self@.get2(outer@, inner@),
    {
        match self.get(outer) {
            Some(value) => value.get(inner),
            None => None,
        }
    }

    pub fn as_str(&self) -> (s: Option<&str>)
        ensures
            opt_str(s) == self@.as_text(),
    {
        match self {
            Json::Text(s) => Some(s.as_str()),
            _ => None,
        }
    }

    pub fn as_array(&self) -> (items: Option<&Vec<Json>>)
        ensures
            match items {
                Some(v) => self@.as_array() == Some(array_view(v@)),
                None => self@.as_array() == None::<Seq<JsonView>>,
            },
    {
        match self {
            Json::Array(items) => Some(items),
            _ => None,
        }
    }

    pub fn as_bool(&self) -> (b: Option<bool>)
        ensures
            b == self@.as_bool(),
    {
        match self {
            Json::Bool(b) => Some(*b),
            _ => None,
        }
    }

    pub fn as_i64(&self) -> (i: Option<i64>)
        ensures
            i == self@.as_i64(),
    {
        match self {
            Json::Number(JsonNumber::Unsigned(u)) => if *u <= i64::MAX as u64 {
                Some(*u as i64)
            } else {
                None
            },
            Json::Number(JsonNumber::Signed(i)) => Some(*i),
            _ => None,
        }
    }

    pub fn as_u64(&self) -> (u: Option<u64>)
        ensures
            u == self@.as_u64(),
    {
        match self {
            Json::Number(JsonNumber::Unsigned(u)) => Some(*u),
            Json::Number(JsonNumber::Signed(i)) => if *i >= 0 {
                Some(*i as u64)
            } else {
                None
            },
            _ => None,
        }
    }

    pub fn is_null(&self) -> (b: bool)
        ensures
            b == (self@ is Null),
    {
        match self {
            Json::Null => true,
            _ => false,
        }
    }

    pub fn is_object(&self) -> (b: bool)
        ensures
            b == (self@ is Object),
    {
        match self {
            Json::Object(_) => true,
            _ => false,
        }
    }

    /// The string member `key`.
    pub fn text(&self, key: &str) -> (s: Option<&str>)
        ensures
            opt_str(s) == self@.text(key@),
    {
        match self.get(key) {
            Some(value) => value.as_str(),
            None => None,
        }
    }

    /// The string member `key` where it is there and not empty.
    pub fn full_text(&self, key: &str) -> (s: Option<&str>)
        ensures
            opt_str(s) == self@.full_text(key@),
    {
        match self.text(key) {
            Some(s) => if s.is_empty() {
                None
            } else {
                Some(s)
            },
            None => None,
        }
    }

    // ── building ──────────────────────────────────────────────────────

    /// A JSON string.
    pub fn string(s: &str) -> (json: Json)
        ensures
            json@ == JsonView::Text(s@),
    {
        Json::Text(s.to_owned())
    }

    /// The object without members.
    pub fn object() -> (json: Json)
        ensures
            json@ == empty_object(),
    {
        Json::Object(Vec::new())
    }

    /// A JSON integer.
    pub fn integer(i: i64) -> (json: Json)
        ensures
            json@ == JsonView::Int(i as int),
    {
        Json::Number(JsonNumber::Signed(i))
    }

    /// A JSON integer that counts something.
    pub fn count(n: usize) -> (json: Json)
        ensures
            json@ == JsonView::Int(n as int),
    {
        Json::Number(JsonNumber::Unsigned(n as u64))
    }

    /// The array without items.
    pub fn no_items() -> (json: Json)
        ensures
            json@ == JsonView::Array(Seq::empty()),
    {
        Json::Array(Vec::new())
    }

    /// The array of one item.
    pub fn single(item: Json) -> (json: Json)
        ensures
            json@ == JsonView::Array(seq![item@]),
    {
        let mut items: Vec<Json> = Vec::new();
        proof {
            lemma_array_view_push(items@, item);
        }
        items.push(item);
        assert(array_view(items@) =~= seq![item@]);
        Json::Array(items)
    }

    /// The object with the member `key` set to `value`. Anything but an object stays as it is.
    pub fn with(self, key: &str, value: Json) -> (json: Json)
        ensures
            json@ == self@.with(key@, value@),
    {
        match self {
            Json::Object(old_fields) => {
                let mut fields = old_fields;
                match find_field(&fields, key) {
                    Some(i) => {
                        proof {
                            let k = fields@[i as int].0;
                            lemma_fields_view_update(fields@, i as int, (k, value));
                        }
                        fields[i].1 = value;
                    },
                    None => {
                        let name = key.to_owned();
                        proof {
                            lemma_fields_view_push(fields@, (name, value));
                        }
                        fields.push((name, value));
                    },
                }
                Json::Object(fields)
            },
            other => other,
        }
    }

    /// The object with the string member `key` set to `value`.
    pub fn with_text(self, key: &str, value: &str) -> (json: Json)
        ensures
            json@ == self@.with_text(key@, value@),
    {
        self.with(key, Json::string(value))
    }
}

// ── optional parts ────────────────────────────────────────────────────

/// The first of two texts that is there.
pub open spec fn first_of(a: Option<Seq<char>>, b: Option<Seq<char>>) -> Option<Seq<char>> {
    match a {
        Some(s) => Some(s),
        None => b,
    }
}

/// The first of two documents that is there.
pub open spec fn first_present(a: Option<JsonView>, b: Option<JsonView>) -> Option<JsonView> {
    match a {
        Some(v) => Some(v),
        None => b,
    }
}

/// The first of two members that is there.
pub fn first_member<'a>(json: &'a Json, a: &str, b: &str) -> (member: Option<&'a Json>)
    ensures
        opt_view(member) == first_present(json@.get(a@), json@.get(b@)),
{
    match json.get(a) {
        Some(v) => Some(v),
        None => json.get(b),
    }
}

/// A document's text.
pub open spec fn text_of(value: Option<JsonView>) -> Option<Seq<char>> {
    match value {
        Some(v) => v.as_text(),
        None => None,
    }
}

pub fn str_of(value: Option<&Json>) -> (s: Option<&str>)
    ensures
        opt_str(s) == text_of(opt_view(value)),
{
    match value {
        Some(v) => v.as_str(),
        None => None,
    }
}

pub open spec fn or_empty(s: Option<Seq<char>>) -> Seq<char> {
    match s {
        Some(t) => t,
        None => Seq::empty(),
    }
}

pub fn str_or_empty(s: Option<&str>) -> (t: &str)
    ensures
        t@ == or_empty(opt_str(s)),
{
    match s {
        Some(t) => t,
        None => {
            proof {
                reveal_strlit("");
                assert(""@ =~= Seq::<char>::empty());
            }
            ""
        },
    }
}

// ── copies ────────────────────────────────────────────────────────────

impl Clone for JsonNumber {
    fn clone(&self) -> (copy: Self)
        ensures
            copy == *self,
    {
        match self {
            JsonNumber::Unsigned(u) => JsonNumber::Unsigned(*u),
            JsonNumber::Signed(i) => JsonNumber::Signed(*i),
            JsonNumber::Fraction(f) => JsonNumber::Fraction(f.clone()),
        }
    }
}

impl Clone for Json {
    fn clone(&self) -> (copy: Self)
        ensures
            copy@ == self@,
        decreases self,
    {
        broadcast use lemma_array_view, lemma_array_view_push;

        match self {
            Json::Null => Json::Null,
            Json::Bool(b) => Json::Bool(*b),
            Json::Number(n) => Json::Number(n.clone()),
            Json::Text(s) => Json::Text(s.clone()),
            Json::Array(items) => {
                let mut copies: Vec<Json> = Vec::new();
                let mut i: usize = 0;
                while i < items.len()
                    invariant
                        i <= items@.len(),
                        *self == Json::Array(*items),
                        array_view(copies@) == array_view(items@).take(i as int),
                    decreases items@.len() - i,
                {
                    broadcast use lemma_array_view, lemma_array_view_push;

                    assert(decreases_to!(*self => self->Array_0));
                    assert(decreases_to!(self->Array_0 => self->Array_0@));
                    assert(decreases_to!(self->Array_0@ => self->Array_0@[i as int]));
                    let item = items[i].clone();
                    copies.push(item);
                    assert(array_view(items@).take(i + 1) =~= array_view(items@).take(
                        i as int,
                    ).push(json_view(items@[i as int])));
                    i += 1;
                }
                assert(array_view(items@).take(i as int) =~= array_view(items@));
                Json::Array(copies)
            },
            Json::Object(fields) => {
                let mut copies: Vec<(String, Json)> = Vec::new();
                let mut i: usize = 0;
                while i < fields.len()
                    invariant
                        i <= fields@.len(),
                        *self == Json::Object(*fields),
                        fields_view(copies@) == fields_view(fields@.take(i as int)),
                    decreases fields@.len() - i,
                {
                    assert(decreases_to!(*self => self->Object_0));
                    assert(decreases_to!(self->Object_0 => self->Object_0@));
                    assert(decreases_to!(self->Object_0@ => self->Object_0@[i as int]));
                    assert(decreases_to!(self->Object_0@[i as int] => self->Object_0@[i as int].1));
                    let copy = (fields[i].0.clone(), fields[i].1.clone());
                    proof {
                        lemma_fields_view_push(copies@, copy);
                        assert(fields@.take(i + 1) =~= fields@.take(i as int).push(
                            fields@[i as int],
                        ));
                        lemma_fields_view_push(fields@.take(i as int), fields@[i as int]);
                    }
                    copies.push(copy);
                    i += 1;
                }
                assert(fields@.take(i as int) =~= fields@);
                Json::Object(copies)
            },
        }
    }
}

} // verus!

//! Tool names and tool arguments on their way between the two protocols.
use vstd::prelude::*;

use crate::codec::{json_parse, json_text, parse_json, to_json_text};
use crate::json::{array_view, empty_object, lemma_array_view, opt_str, opt_string, opt_view, Json};
use crate::json::JsonView;
use crate::text::{blank, byte_len, bytes_of, contains, contains_text, fitting_prefix, is_blank};
use crate::text::{lemma_byte_len_push, lemma_fitting_prefix, lemma_rfind, lemma_texts_push};
use crate::text::{occurs_at, part, prefix_within, rfind, rfind_chars, same_text, texts, to_chars};

verus! {

// ── names ─────────────────────────────────────────────────────────────

/// The name under which a chat model knows a tool: its namespace is part of the name.
pub open spec fn chat_name(name: Seq<char>, namespace: Option<Seq<char>>) -> Seq<char> {
    match namespace {
        Some(ns) => ns + "__"@ + name,
        None => name,
    }
}

pub fn chat_tool_name(name: &str, namespace: Option<&str>) -> (full: String)
    ensures
        full@ == chat_name(name@, opt_str(namespace)),
{
    match namespace {
        Some(ns) => ns.to_owned().concat("__").concat(name),
        None => name.to_owned(),
    }
}

/// What stands before and after the last `sep`, where neither is empty.
pub open spec fn split_last(s: Seq<char>, sep: Seq<char>) -> Option<(Seq<char>, Seq<char>)> {
    match rfind(s, sep) {
        Some(i) => if 0 < i && i + sep.len() < s.len() {
            Some((s.take(i), s.skip(i + sep.len())))
        } else {
            None
        },
        None => None,
    }
}

/// The namespace and the name in a chat model's tool name. A name that begins with an underscore
/// leaves three in a row.
pub open spec fn split_name(full: Seq<char>) -> (Option<Seq<char>>, Seq<char>) {
    match split_last(full, "___"@) {
        Some((ns, rest)) => (Some(ns), "_"@ + rest),
        None => match split_last(full, "__"@) {
            Some((ns, name)) => (Some(ns), name),
            None => (None, full),
        },
    }
}

fn split_at_last(s: &str, sep: &str) -> (parts: Option<(String, String)>)
    ensures
        match parts {
            Some((a, b)) => split_last(s@, sep@) == Some((a@, b@)),
            None => split_last(s@, sep@) == None::<(Seq<char>, Seq<char>)>,
        },
{
    let chars = to_chars(s);
    let sep_chars = to_chars(sep);
    match rfind_chars(&chars, &sep_chars) {
        Some(i) => {
            assert(i + sep_chars@.len() <= chars.len());
            let after: usize = i + sep_chars.len();
            if 0 < i && after < chars.len() {
                let a = part(&chars, 0, i);
                let b = part(&chars, after, chars.len());
                assert(a@ =~= s@.take(i as int));
                assert(b@ =~= s@.skip(after as int));
                Some((a, b))
            } else {
                None
            }
        },
        None => None,
    }
}

pub fn split_chat_tool_name(name: &str) -> (parts: (Option<String>, String))
    ensures
        opt_string(parts.0) == split_name(name@).0,
        parts.1@ == split_name(name@).1,
{
    match split_at_last(name, "___") {
        Some((namespace, rest)) => (Some(namespace), "_".to_owned().concat(rest.as_str())),
        None => match split_at_last(name, "__") {
            Some((namespace, rest)) => (Some(namespace), rest),
            None => (None, name.to_owned()),
        },
    }
}

/// Whether a namespace and a name can be told apart again once they are one name.
pub open spec fn separable(ns: Seq<char>, name: Seq<char>) -> bool {
    &&& ns.len() > 0
    &&& name.len() > 0
    &&& if name[0] == '_' {
        name.len() > 1 && !contains_text("_"@ + name, "___"@)
    } else {
        !contains_text(name, "__"@) && (rfind(ns + "__"@, "___"@) is None || rfind(
            ns + "__"@,
            "___"@,
        ) == Some(0int))
    }
}

proof fn lemma_run(s: Seq<char>, i: int)
    ensures
        occurs_at(s, "__"@, i) <==> (0 <= i && i + 2 <= s.len() && s[i] == '_' && s[i + 1] == '_'),
        occurs_at(s, "___"@, i) <==> (0 <= i && i + 3 <= s.len() && s[i] == '_' && s[i + 1] == '_'
            && s[i + 2] == '_'),
{
    reveal_strlit("__");
    reveal_strlit("___");
    if 0 <= i && i + 2 <= s.len() {
        if s[i] == '_' && s[i + 1] == '_' {
            assert(s.subrange(i, i + 2) =~= "__"@);
        } else {
            assert(s.subrange(i, i + 2)[0] == s[i]);
            assert(s.subrange(i, i + 2)[1] == s[i + 1]);
        }
    }
    if 0 <= i && i + 3 <= s.len() {
        if s[i] == '_' && s[i + 1] == '_' && s[i + 2] == '_' {
            assert(s.subrange(i, i + 3) =~= "___"@);
        } else {
            assert(s.subrange(i, i + 3)[0] == s[i]);
            assert(s.subrange(i, i + 3)[1] == s[i + 1]);
            assert(s.subrange(i, i + 3)[2] == s[i + 2]);
        }
    }
}

proof fn lemma_underscored_name(ns: Seq<char>, name: Seq<char>)
    requires
        name.len() > 0,
        name[0] == '_',
    ensures
        (split_name(chat_name(name, Some(ns))) == (Some(ns), name)) <==> separable(ns, name),
{
    reveal_strlit("_");
    reveal_strlit("__");
    reveal_strlit("___");
    let full = ns + "__"@ + name;
    let n = ns.len() as int;
    let tail = "_"@ + name;
    assert(full[n] == '_' && full[n + 1] == '_' && full[n + 2] == name[0]);
    lemma_run(full, n);
    lemma_rfind(full, "___"@);
    lemma_rfind(full, "__"@);
    let i = rfind(full, "___"@)->Some_0;
    assert(i >= n);
    assert(full.take(n) =~= ns);
    if contains_text(tail, "___"@) {
        let k = choose|k: int| occurs_at(tail, "___"@, k);
        lemma_run(tail, k);
        assert(tail[k] == full[n + 1 + k] && tail[k + 1] == full[n + 2 + k] && tail[k + 2] == full[n
            + 3 + k]);
        lemma_run(full, n + 1 + k);
        assert(i > n);
        if i + 3 < full.len() {
            assert(full.take(i).len() != n);
        } else {
            lemma_run(full, i);
            lemma_run(full, i + 1);
            assert(split_last(full, "__"@) is None);
        }
    } else {
        if i > n {
            lemma_run(full, i);
            lemma_run(tail, i - n - 1);
            assert(tail[i - n - 1] == full[i] && tail[i - n] == full[i + 1] && tail[i - n + 1]
                == full[i + 2]);
            assert(occurs_at(tail, "___"@, i - n - 1));
        }
        assert(i == n);
        if name.len() > 1 {
            assert("_"@ + full.skip(n + 3) =~= name);
            if n == 0 {
                assert(separable(ns, name) == false);
                if split_name(full).0 is Some {
                    assert(split_name(full).0->Some_0.len() > 0);
                }
            }
        } else {
            lemma_run(full, n + 1);
            assert(split_last(full, "__"@) is None);
        }
    }
}

proof fn lemma_rfind_alike(s: Seq<char>, t: Seq<char>, p: Seq<char>)
    requires
        forall|k: int| occurs_at(s, p, k) <==> occurs_at(t, p, k),
    ensures
        rfind(s, p) == rfind(t, p),
{
    lemma_rfind(s, p);
    lemma_rfind(t, p);
}

/// Whether three underscores stand in `s` from index `i` on.
spec fn triple_at(s: Seq<char>, i: int) -> bool {
    0 <= i && i + 3 <= s.len() && s[i] == '_' && s[i + 1] == '_' && s[i + 2] == '_'
}

proof fn lemma_triple_at(ns: Seq<char>, two: Seq<char>, name: Seq<char>, k: int)
    requires
        two.len() == 2,
        name.len() == 0 || name[0] != '_',
        0 <= k - ns.len() - 2 && k - ns.len() < name.len() ==> !(name[k - ns.len() - 2] == '_'
            && name[k - ns.len() - 1] == '_'),
    ensures
        triple_at(ns + two + name, k) <==> triple_at(ns + two, k),
{
    let full = ns + two + name;
    let head = ns + two;
    let n = ns.len() as int;
    if k >= n + 2 {
        if k + 3 <= full.len() {
            assert(name[k - n - 2] == full[k]);
            assert(name[k - n - 1] == full[k + 1]);
        }
    } else if k >= n {
        if k + 3 <= full.len() {
            assert(full[n + 2] == name[0]);
        }
    } else if k >= 0 {
        assert(head[k] == full[k]);
        assert(head[k + 1] == full[k + 1]);
        assert(head[k + 2] == full[k + 2]);
    }
}

/// Where a plain name holds no double underscore, a triple one can only stand before it.
proof fn lemma_triple_before_plain_name(ns: Seq<char>, name: Seq<char>)
    requires
        name.len() == 0 || name[0] != '_',
        !contains_text(name, "__"@),
    ensures
        rfind(ns + "__"@ + name, "___"@) == rfind(ns + "__"@, "___"@),
{
    let full = ns + "__"@ + name;
    let head = ns + "__"@;
    assert forall|k: int| occurs_at(full, "___"@, k) <==> occurs_at(head, "___"@, k) by {
        lemma_run(full, k);
        lemma_run(head, k);
        lemma_run(name, k - ns.len() - 2);
        assert(!occurs_at(name, "__"@, k - ns.len() - 2));
        assert("__"@.len() == 2) by {
            reveal_strlit("__");
        }
        lemma_triple_at(ns, "__"@, name, k);
    }
    lemma_rfind_alike(full, head, "___"@);
}

/// The last double underscore before a plain name is the one that was put there.
proof fn lemma_double_before_plain_name(ns: Seq<char>, name: Seq<char>)
    requires
        name.len() == 0 || name[0] != '_',
    ensures
        rfind(ns + "__"@ + name, "__"@) is Some,
        rfind(ns + "__"@ + name, "__"@)->Some_0 >= ns.len(),
        (rfind(ns + "__"@ + name, "__"@)->Some_0 == ns.len()) <==> !contains_text(name, "__"@),
{
    reveal_strlit("__");
    let full = ns + "__"@ + name;
    let n = ns.len() as int;
    lemma_rfind(full, "__"@);
    assert(full[n] == '_' && full[n + 1] == '_');
    lemma_run(full, n);
    assert(occurs_at(full, "__"@, n));
    let i = rfind(full, "__"@)->Some_0;
    lemma_run(full, i);
    if contains_text(name, "__"@) {
        let k = choose|k: int| occurs_at(name, "__"@, k);
        lemma_run(name, k);
        assert(name[k] == full[n + 2 + k] && name[k + 1] == full[n + 3 + k]);
        lemma_run(full, n + 2 + k);
        assert(occurs_at(full, "__"@, n + 2 + k));
    } else if i > n {
        if i == n + 1 {
            assert(full[i + 1] == name[0]);
        } else {
            lemma_run(name, i - n - 2);
            assert(name[i - n - 2] == full[i] && name[i - n - 1] == full[i + 1]);
            assert(occurs_at(name, "__"@, i - n - 2));
        }
    }
}

proof fn lemma_plain_name(ns: Seq<char>, name: Seq<char>)
    requires
        name.len() == 0 || name[0] != '_',
    ensures
        (split_name(chat_name(name, Some(ns))) == (Some(ns), name)) <==> separable(ns, name),
{
    reveal_strlit("_");
    reveal_strlit("__");
    reveal_strlit("___");
    let full = ns + "__"@ + name;
    let n = ns.len() as int;
    lemma_double_before_plain_name(ns, name);
    assert(full.take(n) =~= ns);
    assert(full.skip(n + 2) =~= name);
    let i = rfind(full, "__"@)->Some_0;
    if split_last(full, "___"@) is Some {
        assert(split_name(full).1[0] == '_');
    }
    if contains_text(name, "__"@) {
        if split_last(full, "__"@) is Some {
            assert(full.take(i).len() == i);
        }
    } else {
        lemma_triple_before_plain_name(ns, name);
        lemma_rfind(full, "___"@);
        lemma_rfind(ns + "__"@, "___"@);
        if let Some(j) = rfind(full, "___"@) {
            assert(j + 3 <= n + 2);
        }
        if split_last(full, "___"@) is None && n > 0 && name.len() > 0 {
            assert(split_last(full, "__"@) == Some((ns, name)));
        }
    }
}

/// A tool call comes back under the namespace and the name that the tool was sent out with,
/// exactly where the two can be told apart.
pub proof fn law_namespaced_names_come_back(ns: Seq<char>, name: Seq<char>)
    ensures
        (split_name(chat_name(name, Some(ns))) == (Some(ns), name)) <==> separable(ns, name),
{
    if name.len() > 0 && name[0] == '_' {
        lemma_underscored_name(ns, name);
    } else {
        lemma_plain_name(ns, name);
    }
}

// ── custom tools ──────────────────────────────────────────────────────

pub open spec fn has_text(items: Seq<JsonView>, s: Seq<char>) -> bool {
    exists|i: int| 0 <= i < items.len() && #[trigger] items[i] == JsonView::Text(s)
}

/// The items of the array member `inner` of the member `outer`.
pub open spec fn items2(v: JsonView, outer: Seq<char>, inner: Seq<char>) -> Seq<JsonView> {
    match v.get2(outer, inner) {
        Some(JsonView::Array(items)) => items,
        _ => Seq::empty(),
    }
}

/// The name of a chat tool that stands for a custom tool: one that takes a required `input` and
/// whose description says so.
pub open spec fn custom_name(tool: JsonView) -> Option<Seq<char>> {
    match tool.get("function"@) {
        Some(function) => match function.text("name"@) {
            Some(name) => if has_text(items2(function, "parameters"@, "required"@), "input"@) && (
            function.member("parameters"@).get2("properties"@, "input"@) is Some) && (
            function.text("description"@) matches Some(description) && contains_text(
                description,
                "Original custom tool definition"@,
            )) {
                Some(name)
            } else {
                None
            },
            None => None,
        },
        None => None,
    }
}

/// The names of the custom tools among chat tools.
pub open spec fn custom_names(tools: Seq<JsonView>) -> Set<Seq<char>> {
    Set::new(
        |name: Seq<char>|
            exists|i: int| 0 <= i < tools.len() && #[trigger] custom_name(tools[i]) == Some(name),
    )
}

/// The items of an optional array; none where there is no array.
pub open spec fn items_of(tools: Option<JsonView>) -> Seq<JsonView> {
    match tools {
        Some(JsonView::Array(items)) => items,
        _ => Seq::empty(),
    }
}

fn requires_input(function: &Json) -> (b: bool)
    ensures
        b == has_text(items2(function@, "parameters"@, "required"@), "input"@),
{
    let ghost all = items2(function@, "parameters"@, "required"@);
    match function.get2("parameters", "required") {
        Some(Json::Array(items)) => {
            proof {
                lemma_array_view(items@);
            }
            let mut i: usize = 0;
            while i < items.len()
                invariant
                    i <= items@.len(),
                    all == items2(function@, "parameters"@, "required"@),
                    all.len() == items@.len(),
                    forall|k: int| 0 <= k < all.len() ==> #[trigger] all[k] == items@[k]@,
                    forall|k: int| 0 <= k < i ==> #[trigger] all[k] != JsonView::Text("input"@),
                decreases items@.len() - i,
            {
                assert(all[i as int] == items@[i as int]@);
                if let Some(s) = items[i].as_str() {
                    if same_text(s, "input") {
                        assert(all[i as int] == JsonView::Text("input"@));
                        return true;
                    }
                }
                i += 1;
            }
            false
        },
        _ => false,
    }
}

fn custom_tool_name(tool: &Json) -> (name: Option<&str>)
    ensures
        opt_str(name) == custom_name(tool@),
{
    match tool.get("function") {
        Some(function) => match function.text("name") {
            Some(name) => {
                let has_input_property = match function.get("parameters") {
                    Some(parameters) => parameters.get2("properties", "input").is_some(),
                    None => false,
                };
                let marked = match function.text("description") {
                    Some(description) => contains(description, "Original custom tool definition"),
                    None => false,
                };
                if requires_input(function) && has_input_property && marked {
                    Some(name)
                } else {
                    None
                }
            },
            None => None,
        },
        None => None,
    }
}

/// The names of the custom tools among chat tools. A name may occur more than once.
pub fn custom_tool_names(tools: Option<&Json>) -> (names: Vec<String>)
    ensures
        texts(names@).to_set() == custom_names(items_of(opt_view(tools))),
{
    let mut names: Vec<String> = Vec::new();
    let ghost all = items_of(opt_view(tools));
    if let Some(Json::Array(items)) = tools {
        proof {
            lemma_array_view(items@);
        }
        let mut i: usize = 0;
        while i < items.len()
            invariant
                i <= items@.len(),
                all == array_view(items@),
                all.len() == items@.len(),
                forall|k: int| 0 <= k < all.len() ==> #[trigger] all[k] == items@[k]@,
                forall|s: Seq<char>| #[trigger]
                    texts(names@).contains(s) <==> exists|k: int|
                        0 <= k < i && #[trigger] custom_name(all[k]) == Some(s),
            decreases items@.len() - i,
        {
            assert(all[i as int] == items@[i as int]@);
            let ghost before = names@;
            match custom_tool_name(&items[i]) {
                Some(name) => {
                    let owned = name.to_owned();
                    proof {
                        lemma_texts_push(names@, owned);
                    }
                    names.push(owned);
                    assert forall|s: Seq<char>| #[trigger]
                        texts(names@).contains(s) <==> exists|k: int|
                            0 <= k < i + 1 && #[trigger] custom_name(all[k]) == Some(s) by {
                        if texts(before).contains(s) {
                            let k = choose|k: int|
                                0 <= k < i && #[trigger] custom_name(all[k]) == Some(s);
                            assert(custom_name(all[k]) == Some(s));
                            let at = choose|at: int|
                                0 <= at < texts(before).len() && texts(before)[at] == s;
                            assert(texts(names@)[at] == s);
                        }
                        if s == name@ {
                            assert(custom_name(all[i as int]) == Some(s));
                            assert(texts(names@).last() == s);
                        }
                        if texts(names@).contains(s) && s != name@ {
                            let at = choose|at: int|
                                0 <= at < texts(names@).len() && texts(names@)[at] == s;
                            assert(texts(before)[at] == s);
                        }
                    }
                },
                None => {
                    assert(custom_name(all[i as int]) is None);
                },
            }
            i += 1;
        }
    }
    assert(texts(names@).to_set() =~= custom_names(all));
    names
}

/// What a custom tool gets for the arguments of a call: their `input`, or all of them.
pub open spec fn custom_input(arguments: Seq<char>) -> Seq<char> {
    if is_blank(arguments) {
        Seq::empty()
    } else {
        match json_parse(arguments) {
            Ok(value) => custom_input_of(arguments, value),
            Err(_) => arguments,
        }
    }
}

pub open spec fn custom_input_of(arguments: Seq<char>, value: JsonView) -> Seq<char> {
    match value.get("input"@) {
        Some(JsonView::Text(s)) => s,
        Some(other) => json_text(other),
        None => arguments,
    }
}

/// The input in the parsed arguments `value` of a call.
pub fn input_of_arguments(arguments: &str, value: &Json) -> (input: String)
    ensures
        input@ == custom_input_of(arguments@, value@),
{
    match value.get("input") {
        Some(input) => match input.as_str() {
            Some(s) => s.to_owned(),
            None => to_json_text(input),
        },
        None => arguments.to_owned(),
    }
}

pub fn custom_tool_input(arguments: &str) -> (input: String)
    ensures
        input@ == custom_input(arguments@),
{
    if blank(arguments) {
        return String::new();
    }
    match parse_json(arguments) {
        Ok(value) => input_of_arguments(arguments, &value),
        Err(_) => arguments.to_owned(),
    }
}

/// The arguments of a call where they are a JSON object; else the object without members.
pub open spec fn arguments_object(arguments: Seq<char>) -> JsonView {
    match json_parse(arguments) {
        Ok(value) => if value is Object {
            value
        } else {
            empty_object()
        },
        Err(_) => empty_object(),
    }
}

/// A document where it is an object; else the object without members.
pub fn object_or_empty(value: Json) -> (object: Json)
    ensures
        object@ == if value@ is Object {
            value@
        } else {
            empty_object()
        },
{
    if value.is_object() {
        value
    } else {
        Json::object()
    }
}

pub fn parse_arguments_object(arguments: &str) -> (object: Json)
    ensures
        object@ == arguments_object(arguments@),
{
    match parse_json(arguments) {
        Ok(value) => object_or_empty(value),
        Err(_) => Json::object(),
    }
}

// ── clipping ──────────────────────────────────────────────────────────

/// A text cut to at most `max` bytes, with dots where something is missing.
pub open spec fn clipped(s: Seq<char>, max: nat) -> Seq<char> {
    if byte_len(s) <= max {
        s
    } else {
        s.take(fitting_prefix(s, max) as int) + "..."@
    }
}

pub fn clip(s: &str, max: usize) -> (t: String)
    ensures
        t@ == clipped(s@, max as nat),
{
    if bytes_of(s) <= max {
        return s.to_owned();
    }
    prefix_within(s, max).to_owned().concat("...")
}

/// A clipped text is the text itself, or as much of it as fits and three dots.
pub proof fn law_clipping_keeps_the_limit(s: Seq<char>, max: nat)
    ensures
        byte_len(clipped(s, max)) <= max + 3,
        byte_len(s) <= max ==> clipped(s, max) == s,
        byte_len(s) > max ==> exists|k: int|
            0 <= k < s.len() && clipped(s, max) == s.take(k) + "..."@ && byte_len(s.take(k)) <= max
                && byte_len(#[trigger] s.take(k + 1)) > max,
{
    reveal_strlit("...");
    let k = fitting_prefix(s, max) as int;
    lemma_fitting_prefix(s, max);
    let head = s.take(k);
    lemma_byte_len_push(head, '.');
    lemma_byte_len_push(head.push('.'), '.');
    lemma_byte_len_push(head.push('.').push('.'), '.');
    assert(head + "..."@ =~= head.push('.').push('.').push('.'));
    if byte_len(s) > max {
        assert(k < s.len()) by {
            if k == s.len() {
                assert(s.take(k) =~= s);
            }
        }
        assert(byte_len(s.take(k + 1)) > max);
    }
}

} // verus!

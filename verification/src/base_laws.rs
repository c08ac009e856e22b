//! What holds of texts and documents, whatever they are used for.
use vstd::prelude::*;

use crate::json::{empty_object, JsonView};
use crate::text::{find_from, is_blank, is_white, joined, lemma_find_from, lemma_trimmed_edges};
use crate::text::{lines_of, substance, texts, trimmed, trimmed_end, trimmed_start, word_len};
use crate::text::words_of;

verus! {

// ── texts ─────────────────────────────────────────────────────────────

/// Texts that are joined stand one after the other, with the separator between them and nowhere
/// else.
pub proof fn law_joined_texts(parts: Seq<Seq<char>>, last: Seq<char>, sep: Seq<char>)
    ensures
        joined(Seq::empty(), sep) == Seq::<char>::empty(),
        joined(seq![last], sep) == last,
        parts.len() > 0 ==> joined(parts.push(last), sep) == joined(parts, sep) + sep + last,
{
    assert(parts.push(last).drop_last() =~= parts);
}

proof fn lemma_start(s: Seq<char>)
    ensures
        trimmed_start(s).is_suffix_of(s),
        forall|i: int| 0 <= i < s.len() - trimmed_start(s).len() ==> is_white(#[trigger] s[i]),
    decreases s.len(),
{
    let t = trimmed_start(s);
    if s.len() > 0 && is_white(s[0]) {
        lemma_start(s.drop_first());
        assert(t =~= s.skip(s.len() - t.len()));
        assert forall|i: int| 0 <= i < s.len() - t.len() implies is_white(#[trigger] s[i]) by {
            if i > 0 {
                assert(s[i] == s.drop_first()[i - 1]);
            }
        }
    } else {
        assert(t =~= s.skip(0));
    }
}

proof fn lemma_end(s: Seq<char>)
    ensures
        trimmed_end(s).is_prefix_of(s),
        forall|i: int| trimmed_end(s).len() <= i < s.len() ==> is_white(#[trigger] s[i]),
    decreases s.len(),
{
    let t = trimmed_end(s);
    if s.len() > 0 && is_white(s.last()) {
        lemma_end(s.drop_last());
        assert(t =~= s.take(t.len() as int));
        assert forall|i: int| t.len() <= i < s.len() implies is_white(#[trigger] s[i]) by {
            if i < s.len() - 1 {
                assert(s[i] == s.drop_last()[i]);
            }
        }
    } else {
        assert(t =~= s.take(s.len() as int));
    }
}

/// A trimmed text has lost the white space around it, all of it and nothing else.
pub proof fn law_trimmed_texts(s: Seq<char>)
    ensures
        trimmed(s).len() > 0 ==> !is_white(trimmed(s)[0]) && !is_white(trimmed(s).last()),
        exists|a: int, b: int|
            {
                &&& 0 <= a <= b <= s.len()
                &&& trimmed(s) == #[trigger] s.subrange(a, b)
                &&& forall|i: int| 0 <= i < a || b <= i < s.len() ==> is_white(#[trigger] s[i])
            },
{
    lemma_trimmed_edges(s);
    let t = trimmed_start(s);
    lemma_start(s);
    lemma_end(t);
    let a = s.len() - t.len();
    let b = a + trimmed(s).len();
    assert(t =~= s.skip(a));
    assert(trimmed(s) =~= s.subrange(a, b));
    assert forall|i: int| 0 <= i < a || b <= i < s.len() implies is_white(#[trigger] s[i]) by {
        if i >= b {
            assert(s[i] == t[i - a]);
        }
    }
}

proof fn lemma_newline(s: Seq<char>, k: int, from: int)
    requires
        0 <= from <= k < s.len(),
        s[k] == '\n',
        forall|i: int| from <= i < k ==> s[i] != '\n',
    ensures
        find_from(s, seq!['\n'], from) == Some(k),
    decreases k - from,
{
    let here = s.subrange(from, from + 1);
    assert(here.len() == 1 && here[0] == s[from]);
    if from < k {
        assert(s[from] != '\n');
        assert(here != seq!['\n']) by {
            assert(seq!['\n'][0] == '\n');
        }
        lemma_newline(s, k, from + 1);
    } else {
        assert(here =~= seq!['\n']);
    }
}

/// A line ends in a line feed, which a carriage return may precede; the last one may lack it.
pub proof fn law_lines(line: Seq<char>, rest: Seq<char>)
    requires
        forall|i: int| 0 <= i < line.len() ==> line[i] != '\n',
    ensures
        lines_of(Seq::empty()) == Seq::<Seq<char>>::empty(),
        line.len() > 0 ==> lines_of(line) == seq![line],
        line.len() == 0 || line.last() != '\r' ==> lines_of(line + seq!['\n'] + rest) == seq![line]
            + lines_of(rest),
        lines_of(line + seq!['\r', '\n'] + rest) == seq![line] + lines_of(rest),
{
    let k = line.len() as int;
    lemma_find_from(line, seq!['\n'], 0);
    if let Some(i) = find_from(line, seq!['\n'], 0) {
        assert(line.subrange(i, i + 1)[0] == line[i]);
    }
    let a = line + seq!['\n'] + rest;
    lemma_newline(a, k, 0);
    assert(a.take(k) =~= line);
    assert(a.skip(k + 1) =~= rest);
    let b = line + seq!['\r', '\n'] + rest;
    assert forall|i: int| 0 <= i < k + 1 implies b[i] != '\n' by {
        if i < k {
            assert(b[i] == line[i]);
        }
    }
    lemma_newline(b, k + 1, 0);
    assert(b.take(k + 1) =~= line.push('\r'));
    assert(line.push('\r').drop_last() =~= line);
    assert(b.skip(k + 2) =~= rest);
}

// ── documents ─────────────────────────────────────────────────────────

/// An object has the members it was given, each with the value it was given last, and no others;
/// nothing else has members.
pub proof fn law_members(object: JsonView, key: Seq<char>, other: Seq<char>, value: JsonView)
    ensures
        empty_object().get(key) is None,
        object is Object ==> object.with(key, value).get(key) == Some(value),
        other != key ==> object.with(key, value).get(other) == object.get(other),
        !(object is Object) ==> object.get(key) is None,
        object.member(key) == (if object.get(key) is Some {
            object.get(key)->Some_0
        } else {
            JsonView::Null
        }),
        object.text(key) is Some <==> object.member(key) is Text,
        object.text(key) matches Some(s) ==> object.get(key) == Some(JsonView::Text(s)),
        object.full_text(key) is Some <==> (object.text(key) matches Some(s) && s.len() > 0),
        object.full_text(key) is Some ==> object.full_text(key) == object.text(key),
        object.member(key) is Array ==> object.items(key) == object.member(key)->Array_0,
        !(object.member(key) is Array) ==> object.items(key).len() == 0,
{
}

/// A number is a count where it is an integer in the range of one.
pub proof fn law_numbers(i: int)
    ensures
        i64::MIN <= i <= i64::MAX ==> JsonView::Int(i).as_i64() == Some(i as i64),
        !(i64::MIN <= i <= i64::MAX) ==> JsonView::Int(i).as_i64() is None,
        0 <= i <= u64::MAX ==> JsonView::Int(i).as_u64() == Some(i as u64),
        !(0 <= i <= u64::MAX) ==> JsonView::Int(i).as_u64() is None,
{
}

/// A text is blank where it holds nothing but white space.
pub proof fn law_blank_texts(s: Seq<char>)
    ensures
        is_blank(s) <==> forall|i: int| 0 <= i < s.len() ==> is_white(#[trigger] s[i]),
        substance(s) is None <==> is_blank(s),
        substance(s) is Some ==> substance(s) == Some(trimmed(s)),
{
    law_trimmed_texts(s);
    let (a, b) = choose|a: int, b: int|
        {
            &&& 0 <= a <= b <= s.len()
            &&& trimmed(s) == #[trigger] s.subrange(a, b)
            &&& forall|i: int| 0 <= i < a || b <= i < s.len() ==> is_white(#[trigger] s[i])
        };
    if !is_blank(s) {
        assert(trimmed(s)[0] == s[a]);
    }
}

proof fn lemma_word_len(word: Seq<char>, rest: Seq<char>)
    requires
        forall|i: int| 0 <= i < word.len() ==> !is_white(#[trigger] word[i]),
        rest.len() > 0 ==> is_white(rest[0]),
    ensures
        word_len(word + rest) == word.len(),
    decreases word.len(),
{
    let s = word + rest;
    if word.len() == 0 {
        assert(s =~= rest);
    } else {
        let tail = word.drop_first();
        assert(s[0] == word[0]);
        assert(s.drop_first() =~= tail + rest);
        assert forall|i: int| 0 <= i < tail.len() implies !is_white(#[trigger] tail[i]) by {
            assert(tail[i] == word[i + 1]);
        }
        lemma_word_len(tail, rest);
    }
}

/// White space separates words, and nothing else does.
pub proof fn law_words(word: Seq<char>, rest: Seq<char>, c: char)
    requires
        word.len() > 0,
        forall|i: int| 0 <= i < word.len() ==> !is_white(#[trigger] word[i]),
        rest.len() > 0 ==> is_white(rest[0]),
    ensures
        words_of(word + rest) == seq![word] + words_of(rest),
        is_white(c) ==> words_of(seq![c] + rest) == words_of(rest),
        words_of(Seq::empty()) == Seq::<Seq<char>>::empty(),
{
    let s = word + rest;
    lemma_word_len(word, rest);
    assert(s[0] == word[0]);
    assert(s.take(word.len() as int) =~= word);
    assert(s.skip(word.len() as int) =~= rest);
    assert((seq![c] + rest).drop_first() =~= rest);
}

/// A row of strings stands for their texts, as they are.
pub proof fn law_strings_are_as_they_are(strings: Seq<String>, i: int)
    requires
        0 <= i < strings.len(),
    ensures
        texts(strings).len() == strings.len(),
        texts(strings)[i] == strings[i]@,
{
}

} // verus!

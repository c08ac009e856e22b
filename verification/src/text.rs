//! Text as sequences of characters: the pure string operations that the rest of the crate builds on.
use vstd::prelude::*;
use vstd::utf8::encode_utf8;

verus! {

// ── trusted part of std ───────────────────────────────────────────────

/// `String::push` appends one character to the end of the string.
pub assume_specification[ String::push ](string: &mut String, ch: char)
    ensures
        final(string)@ == old(string)@.push(ch),
;

// ── characters and slices of text ─────────────────────────────────────

/// The characters of a string, in order.
pub fn to_chars(s: &str) -> (chars: Vec<char>)
    ensures
        chars@ == s@,
{
    let mut chars: Vec<char> = Vec::new();
    for c in it: s.chars()
        invariant
            chars@ == it.seq().take(it.index()),
            it.seq() == s@,
    {
        chars.push(c);
    }
    chars
}

/// Whether two strings hold the same characters.
pub fn same_text(a: &str, b: &str) -> (same: bool)
    ensures
        same == (a@ == b@),
{
    let x = a.as_bytes();
    let y = b.as_bytes();
    proof {
        vstd::utf8::encode_utf8_decode_utf8(a@);
        vstd::utf8::encode_utf8_decode_utf8(b@);
    }
    if x.len() != y.len() {
        return false;
    }
    let mut i: usize = 0;
    while i < x.len()
        invariant
            i <= x@.len(),
            x@.len() == y@.len(),
            x@ == encode_utf8(a@),
            y@ == encode_utf8(b@),
            forall|k: int| 0 <= k < i ==> x@[k] == y@[k],
        decreases x@.len() - i,
    {
        if x[i] != y[i] {
            return false;
        }
        i += 1;
    }
    assert(x@ =~= y@);
    true
}

// ── white space ───────────────────────────────────────────────────────

/// The characters with the Unicode property White_Space.
pub open spec fn is_white(c: char) -> bool {
    let u = c as u32;
    ||| 0x9 <= u <= 0xd
    ||| u == 0x20
    ||| u == 0x85
    ||| u == 0xa0
    ||| u == 0x1680
    ||| 0x2000 <= u <= 0x200a
    ||| u == 0x2028
    ||| u == 0x2029
    ||| u == 0x202f
    ||| u == 0x205f
    ||| u == 0x3000
}

/// The text without leading white space.
pub open spec fn trimmed_start(s: Seq<char>) -> Seq<char>
    decreases s.len(),
{
    if s.len() > 0 && is_white(s[0]) {
        trimmed_start(s.drop_first())
    } else {
        s
    }
}

/// The text without trailing white space.
pub open spec fn trimmed_end(s: Seq<char>) -> Seq<char>
    decreases s.len(),
{
    if s.len() > 0 && is_white(s.last()) {
        trimmed_end(s.drop_last())
    } else {
        s
    }
}

/// The text without white space at either end.
pub open spec fn trimmed(s: Seq<char>) -> Seq<char> {
    trimmed_end(trimmed_start(s))
}

/// Whether nothing is left of a text once white space is gone from both ends.
pub open spec fn is_blank(s: Seq<char>) -> bool {
    trimmed(s).len() == 0
}

/// What does not begin with white space is still there once the end is trimmed.
pub proof fn lemma_trimmed_end_keeps_head(s: Seq<char>)
    requires
        s.len() > 0,
        !is_white(s[0]),
    ensures
        trimmed_end(s).len() > 0,
        trimmed_end(s)[0] == s[0],
    decreases s.len(),
{
    if is_white(s.last()) {
        lemma_trimmed_end_keeps_head(s.drop_last());
    }
}

proof fn lemma_trimmed_start(s: Seq<char>)
    ensures
        trimmed_start(s).len() > 0 ==> !is_white(trimmed_start(s)[0]),
        s.len() > 0 && !is_white(s[0]) ==> trimmed_start(s) == s,
    decreases s.len(),
{
    if s.len() > 0 && is_white(s[0]) {
        lemma_trimmed_start(s.drop_first());
    }
}

proof fn lemma_trimmed_end(s: Seq<char>)
    ensures
        trimmed_end(s).len() > 0 ==> !is_white(trimmed_end(s).last()),
        s.len() > 0 && !is_white(s.last()) ==> trimmed_end(s) == s,
    decreases s.len(),
{
    if s.len() > 0 && is_white(s.last()) {
        lemma_trimmed_end(s.drop_last());
    }
}

/// What is left of a text once it is trimmed begins and ends with something else than white space.
pub proof fn lemma_trimmed_edges(s: Seq<char>)
    ensures
        trimmed(s).len() > 0 ==> !is_white(trimmed(s)[0]) && !is_white(trimmed(s).last()),
{
    let t = trimmed_start(s);
    lemma_trimmed_start(s);
    lemma_trimmed_end(t);
    if t.len() > 0 {
        lemma_trimmed_end_keeps_head(t);
    }
}

/// A text that begins and ends with something else than white space is not changed by trimming.
pub proof fn lemma_trimmed_fixed(s: Seq<char>)
    requires
        s.len() > 0,
        !is_white(s[0]),
        !is_white(s.last()),
    ensures
        trimmed(s) == s,
{
    lemma_trimmed_start(s);
    lemma_trimmed_end(s);
}

/// A text that does not begin with white space is not blank.
pub proof fn lemma_not_blank(s: Seq<char>)
    requires
        s.len() > 0,
        !is_white(s[0]),
    ensures
        !is_blank(s),
{
    lemma_trimmed_start(s);
    lemma_trimmed_end_keeps_head(s);
}

pub fn white(c: char) -> (b: bool)
    ensures
        b == is_white(c),
{
    let u: u32 = c as u32;
    (0x9 <= u && u <= 0xd) || u == 0x20 || u == 0x85 || u == 0xa0 || u == 0x1680 || (0x2000 <= u
        && u <= 0x200a) || u == 0x2028 || u == 0x2029 || u == 0x202f || u == 0x205f || u == 0x3000
}

pub fn trim_start(s: &str) -> (t: &str)
    ensures
        t@ == trimmed_start(s@),
{
    let chars = to_chars(s);
    let mut i: usize = 0;
    assert(s@.skip(0) =~= s@);
    while i < chars.len() && white(chars[i])
        invariant
            i <= chars@.len(),
            chars@ == s@,
            trimmed_start(s@) == trimmed_start(s@.skip(i as int)),
        decreases chars@.len() - i,
    {
        assert(s@.skip(i as int).drop_first() =~= s@.skip(i + 1));
        i += 1;
    }
    assert(s@.skip(i as int) =~= s@.subrange(i as int, s@.len() as int));
    s.substring_char(i, chars.len())
}

pub fn trim_end(s: &str) -> (t: &str)
    ensures
        t@ == trimmed_end(s@),
{
    let chars = to_chars(s);
    let mut i: usize = chars.len();
    assert(s@.take(i as int) =~= s@);
    while i > 0 && white(chars[i - 1])
        invariant
            i <= chars@.len(),
            chars@ == s@,
            trimmed_end(s@) == trimmed_end(s@.take(i as int)),
        decreases i,
    {
        assert(s@.take(i as int).drop_last() =~= s@.take(i - 1));
        i -= 1;
    }
    assert(s@.take(i as int) =~= s@.subrange(0, i as int));
    s.substring_char(0, i)
}

pub fn trim(s: &str) -> (t: &str)
    ensures
        t@ == trimmed(s@),
{
    trim_end(trim_start(s))
}

/// The text without white space at either end, unless nothing is left.
pub open spec fn substance(s: Seq<char>) -> Option<Seq<char>> {
    if trimmed(s).len() > 0 {
        Some(trimmed(s))
    } else {
        None
    }
}

/// Whether nothing is left of a string once white space is gone from both ends.
pub fn blank(s: &str) -> (b: bool)
    ensures
        b == is_blank(s@),
{
    trim(s).is_empty()
}

/// What is left of a string once white space is gone from both ends.
pub fn trim_to_substance(s: &str) -> (t: Option<&str>)
    ensures
        match t {
            Some(x) => substance(s@) == Some(x@),
            None => substance(s@) == None::<Seq<char>>,
        },
{
    let x = trim(s);
    if x.is_empty() {
        None
    } else {
        Some(x)
    }
}

// ── searching ─────────────────────────────────────────────────────────

/// Whether `p` stands in `s` from index `i` on.
pub open spec fn occurs_at(s: Seq<char>, p: Seq<char>, i: int) -> bool {
    0 <= i && i + p.len() <= s.len() && s.subrange(i, i + p.len()) == p
}

/// Whether `p` stands somewhere in `s`.
pub open spec fn contains_text(s: Seq<char>, p: Seq<char>) -> bool {
    exists|i: int| occurs_at(s, p, i)
}

/// The first index at or after `from` at which `p` stands in `s`.
pub open spec fn find_from(s: Seq<char>, p: Seq<char>, from: int) -> Option<int>
    decreases s.len() - from + 1,
{
    if from + p.len() > s.len() {
        None
    } else if occurs_at(s, p, from) {
        Some(from)
    } else {
        find_from(s, p, from + 1)
    }
}

/// The last index at or before `from` at which `p` stands in `s`.
pub open spec fn rfind_to(s: Seq<char>, p: Seq<char>, from: int) -> Option<int>
    decreases from + 1,
{
    if from < 0 {
        None
    } else if occurs_at(s, p, from) {
        Some(from)
    } else {
        rfind_to(s, p, from - 1)
    }
}

/// The last index at which `p` stands in `s`.
pub open spec fn rfind(s: Seq<char>, p: Seq<char>) -> Option<int> {
    rfind_to(s, p, s.len() - p.len())
}

/// `find_from` gives the least index there is.
pub proof fn lemma_find_from(s: Seq<char>, p: Seq<char>, from: int)
    requires
        0 <= from,
    ensures
        match find_from(s, p, from) {
            Some(i) => from <= i && occurs_at(s, p, i) && forall|k: int|
                from <= k < i ==> !occurs_at(s, p, k),
            None => forall|k: int| from <= k ==> !occurs_at(s, p, k),
        },
    decreases s.len() - from + 1,
{
    if from + p.len() <= s.len() && !occurs_at(s, p, from) {
        lemma_find_from(s, p, from + 1);
    }
}

/// `rfind_to` gives the greatest index there is.
pub proof fn lemma_rfind_to(s: Seq<char>, p: Seq<char>, from: int)
    ensures
        match rfind_to(s, p, from) {
            Some(i) => i <= from && occurs_at(s, p, i) && forall|k: int|
                i < k <= from ==> !occurs_at(s, p, k),
            None => forall|k: int| k <= from ==> !occurs_at(s, p, k),
        },
    decreases from + 1,
{
    if from >= 0 && !occurs_at(s, p, from) {
        lemma_rfind_to(s, p, from - 1);
    }
}

/// `rfind` gives the greatest index there is.
pub proof fn lemma_rfind(s: Seq<char>, p: Seq<char>)
    ensures
        match rfind(s, p) {
            Some(i) => occurs_at(s, p, i) && forall|k: int| i < k ==> !occurs_at(s, p, k),
            None => forall|k: int| !occurs_at(s, p, k),
        },
{
    lemma_rfind_to(s, p, s.len() - p.len());
}

fn stands_at(s: &Vec<char>, p: &Vec<char>, i: usize) -> (b: bool)
    requires
        i <= s@.len(),
    ensures
        b == occurs_at(s@, p@, i as int),
{
    if p.len() > s.len() - i {
        return false;
    }
    let mut k: usize = 0;
    while k < p.len()
        invariant
            k <= p@.len(),
            i + p@.len() <= s@.len(),
            s@.len() == s.len(),
            forall|m: int| 0 <= m < k ==> s@[i + m] == p@[m],
        decreases p@.len() - k,
    {
        if s[i + k] != p[k] {
            assert(s@.subrange(i as int, i + p@.len())[k as int] != p@[k as int]);
            return false;
        }
        k += 1;
    }
    assert(s@.subrange(i as int, i + p@.len()) =~= p@);
    true
}

/// The first index at or after `from` at which `p` stands in `s`.
pub fn find_chars(s: &Vec<char>, p: &Vec<char>, from: usize) -> (found: Option<usize>)
    requires
        from <= s@.len(),
    ensures
        match found {
            Some(i) => find_from(s@, p@, from as int) == Some(i as int) && i + p@.len() <= s@.len(),
            None => find_from(s@, p@, from as int) == None::<int>,
        },
{
    let mut i: usize = from;
    while i < s.len()
        invariant
            i <= s@.len(),
            find_from(s@, p@, from as int) == find_from(s@, p@, i as int),
        decreases s@.len() - i,
    {
        if stands_at(s, p, i) {
            return Some(i);
        }
        if p.len() > s.len() - i {
            return None;
        }
        i += 1;
    }
    if stands_at(s, p, i) {
        Some(i)
    } else {
        assert(p@.len() == 0 ==> s@.subrange(i as int, i as int) =~= p@);
        None
    }
}

/// The last index at which `p` stands in `s`.
pub fn rfind_chars(s: &Vec<char>, p: &Vec<char>) -> (found: Option<usize>)
    ensures
        match found {
            Some(i) => rfind(s@, p@) == Some(i as int) && i + p@.len() <= s@.len(),
            None => rfind(s@, p@) == None::<int>,
        },
{
    if p.len() > s.len() {
        return None;
    }
    let mut i: usize = s.len() - p.len();
    while i > 0
        invariant
            i <= s@.len() - p@.len(),
            rfind(s@, p@) == rfind_to(s@, p@, i as int),
        decreases i,
    {
        if stands_at(s, p, i) {
            return Some(i);
        }
        i -= 1;
    }
    if stands_at(s, p, i) {
        Some(i)
    } else {
        assert(rfind_to(s@, p@, -1) == None::<int>);
        None
    }
}

pub fn contains(s: &str, p: &str) -> (b: bool)
    ensures
        b == contains_text(s@, p@),
{
    proof {
        lemma_find_from(s@, p@, 0);
    }
    find_chars(&to_chars(s), &to_chars(p), 0).is_some()
}

/// What follows the prefix `p` of `s`.
pub open spec fn after_prefix(s: Seq<char>, p: Seq<char>) -> Option<Seq<char>> {
    if occurs_at(s, p, 0) {
        Some(s.skip(p.len() as int))
    } else {
        None
    }
}

pub fn strip_prefix<'a>(s: &'a str, p: &str) -> (rest: Option<&'a str>)
    ensures
        match rest {
            Some(t) => after_prefix(s@, p@) == Some(t@),
            None => after_prefix(s@, p@) == None::<Seq<char>>,
        },
{
    let x = to_chars(s);
    let y = to_chars(p);
    if stands_at(&x, &y, 0) {
        assert(s@.subrange(p@.len() as int, s@.len() as int) =~= s@.skip(p@.len() as int));
        Some(s.substring_char(y.len(), x.len()))
    } else {
        None
    }
}

// ── lines, pieces and words ───────────────────────────────────────────

/// A text with every carriage return that a line feed follows taken out.
pub open spec fn unix_newlines(s: Seq<char>) -> Seq<char>
    decreases s.len(),
{
    if s.len() == 0 {
        s
    } else if s[0] == '\r' && s.len() > 1 && s[1] == '\n' {
        seq!['\n'] + unix_newlines(s.skip(2))
    } else {
        seq![s[0]] + unix_newlines(s.skip(1))
    }
}

pub proof fn lemma_unix_newlines_len(s: Seq<char>)
    ensures
        unix_newlines(s).len() <= s.len(),
    decreases s.len(),
{
    if s.len() > 1 && s[0] == '\r' && s[1] == '\n' {
        lemma_unix_newlines_len(s.skip(2));
    } else if s.len() > 0 {
        lemma_unix_newlines_len(s.skip(1));
    }
}

pub fn normalize_newlines(s: &str) -> (t: String)
    ensures
        t@ == unix_newlines(s@),
{
    let chars = to_chars(s);
    let mut t = String::new();
    let mut i: usize = 0;
    assert(s@.skip(0) =~= s@);
    assert(t@ + unix_newlines(s@) =~= unix_newlines(s@));
    while i < chars.len()
        invariant
            i <= chars@.len(),
            chars@ == s@,
            t@ + unix_newlines(s@.skip(i as int)) == unix_newlines(s@),
        decreases chars@.len() - i,
    {
        let ghost before = t@;
        let ghost rest = s@.skip(i as int);
        if chars[i] == '\r' && chars.len() - i > 1 && chars[i + 1] == '\n' {
            t.push('\n');
            assert(rest.skip(2) =~= s@.skip(i + 2));
            assert(before.push('\n') + unix_newlines(s@.skip(i + 2)) =~= before + unix_newlines(rest));
            i += 2;
        } else {
            t.push(chars[i]);
            assert(rest.skip(1) =~= s@.skip(i + 1));
            assert(before.push(rest[0]) + unix_newlines(s@.skip(i + 1)) =~= before + unix_newlines(
                rest,
            ));
            i += 1;
        }
    }
    assert(s@.skip(i as int) =~= Seq::empty());
    assert(t@ + Seq::<char>::empty() =~= t@);
    t
}

/// A line without the carriage return at its end.
pub open spec fn without_cr(line: Seq<char>) -> Seq<char> {
    if line.len() > 0 && line.last() == '\r' {
        line.drop_last()
    } else {
        line
    }
}

/// The lines of a text. A line ends in a line feed, which a carriage return may precede; the
/// last one may lack it.
pub open spec fn lines_of(s: Seq<char>) -> Seq<Seq<char>>
    decreases s.len(),
{
    if s.len() == 0 {
        Seq::empty()
    } else {
        match find_from(s, seq!['\n'], 0) {
            Some(i) => if 0 <= i < s.len() {
                seq![without_cr(s.take(i))] + lines_of(s.skip(i + 1))
            } else {
                Seq::empty()
            },
            None => seq![s],
        }
    }
}

/// The pieces of a text between the places where `sep` stands.
pub open spec fn pieces_of(s: Seq<char>, sep: Seq<char>) -> Seq<Seq<char>>
    decreases s.len(),
{
    match find_from(s, sep, 0) {
        Some(i) => if sep.len() > 0 && 0 <= i && i + sep.len() <= s.len() {
            seq![s.take(i)] + pieces_of(s.skip(i + sep.len()), sep)
        } else {
            seq![s]
        },
        None => seq![s],
    }
}

/// The characters of each string of a row.
pub open spec fn texts(strings: Seq<String>) -> Seq<Seq<char>> {
    strings.map_values(|s: String| s@)
}

pub broadcast proof fn lemma_texts_push(strings: Seq<String>, s: String)
    ensures
        #[trigger] texts(strings.push(s)) == texts(strings).push(s@),
{
    assert(texts(strings.push(s)) =~= texts(strings).push(s@));
}

pub broadcast proof fn lemma_texts_add(a: Seq<String>, b: Seq<String>)
    ensures
        #[trigger] texts(a + b) == texts(a) + texts(b),
{
    assert(texts(a + b) =~= texts(a) + texts(b));
}

/// Part of a string, given by character indices.
pub fn part(chars: &Vec<char>, from: usize, to: usize) -> (t: String)
    requires
        from <= to <= chars@.len(),
    ensures
        t@ == chars@.subrange(from as int, to as int),
{
    let mut t = String::new();
    let mut i: usize = from;
    assert(t@ =~= chars@.subrange(from as int, from as int));
    while i < to
        invariant
            from <= i <= to <= chars@.len(),
            t@ == chars@.subrange(from as int, i as int),
        decreases to - i,
    {
        t.push(chars[i]);
        assert(chars@.subrange(from as int, i + 1) =~= chars@.subrange(from as int, i as int).push(
            chars@[i as int],
        ));
        i += 1;
    }
    t
}

pub fn lines(s: &str) -> (out: Vec<String>)
    ensures
        texts(out@) == lines_of(s@),
{
    let chars = to_chars(s);
    let mut newline: Vec<char> = Vec::new();
    newline.push('\n');
    assert(newline@ =~= seq!['\n']);
    let mut out: Vec<String> = Vec::new();
    let mut start: usize = 0;
    assert(s@.skip(0) =~= s@);
    assert(texts(out@) + lines_of(s@) =~= lines_of(s@));
    while start < chars.len()
        invariant
            start <= chars@.len(),
            chars@ == s@,
            newline@ == seq!['\n'],
            texts(out@) + lines_of(s@.skip(start as int)) == lines_of(s@),
        decreases chars@.len() - start,
    {
        let ghost rest = s@.skip(start as int);
        proof {
            lemma_find_from_skip(s@, seq!['\n'], start as int, 0);
            lemma_find_from(s@, seq!['\n'], start as int);
        }
        let ghost before = texts(out@);
        match find_chars(&chars, &newline, start) {
            Some(i) => {
                let end: usize = if i > start && chars[i - 1] == '\r' {
                    i - 1
                } else {
                    i
                };
                let line = part(&chars, start, end);
                assert(line@ =~= without_cr(rest.take(i - start)));
                assert(rest.skip(i - start + 1) =~= s@.skip(i + 1));
                proof {
                    lemma_texts_push(out@, line);
                }
                out.push(line);
                assert(before.push(line@) + lines_of(s@.skip(i + 1)) =~= before + lines_of(rest));
                start = i + 1;
            },
            None => {
                let line = part(&chars, start, chars.len());
                assert(line@ =~= rest);
                proof {
                    lemma_texts_push(out@, line);
                }
                out.push(line);
                assert(before.push(line@) =~= before + lines_of(rest));
                return out;
            },
        }
    }
    assert(s@.skip(start as int) =~= Seq::empty());
    assert(texts(out@) + Seq::<Seq<char>>::empty() =~= texts(out@));
    out
}

/// Searching a tail of a text is searching the text from there on.
pub proof fn lemma_find_from_skip(s: Seq<char>, p: Seq<char>, k: int, from: int)
    requires
        0 <= k <= s.len(),
        0 <= from,
    ensures
        find_from(s.skip(k), p, from) == match find_from(s, p, k + from) {
            Some(i) => Some(i - k),
            None => None,
        },
    decreases s.len() - from + 1,
{
    if from + p.len() <= s.len() - k {
        assert(s.skip(k).subrange(from, from + p.len()) =~= s.subrange(
            k + from,
            k + from + p.len(),
        ));
        if !occurs_at(s.skip(k), p, from) {
            lemma_find_from_skip(s, p, k, from + 1);
        }
    }
}

pub fn pieces(s: &str, sep: &str) -> (out: Vec<String>)
    requires
        sep@.len() > 0,
    ensures
        texts(out@) == pieces_of(s@, sep@),
{
    let chars = to_chars(s);
    let sep_chars = to_chars(sep);
    let mut out: Vec<String> = Vec::new();
    let mut start: usize = 0;
    assert(s@.skip(0) =~= s@);
    assert(texts(out@) + pieces_of(s@, sep@) =~= pieces_of(s@, sep@));
    loop
        invariant
            start <= chars@.len(),
            chars@ == s@,
            sep_chars@ == sep@,
            sep@.len() > 0,
            texts(out@) + pieces_of(s@.skip(start as int), sep@) == pieces_of(s@, sep@),
        decreases chars@.len() - start,
    {
        let ghost rest = s@.skip(start as int);
        proof {
            lemma_find_from_skip(s@, sep@, start as int, 0);
            lemma_find_from(s@, sep@, start as int);
        }
        let ghost before = texts(out@);
        match find_chars(&chars, &sep_chars, start) {
            Some(i) => {
                let piece = part(&chars, start, i);
                assert(piece@ =~= rest.take(i - start));
                assert(rest.skip(i - start + sep@.len()) =~= s@.skip(i + sep@.len()));
                proof {
                    lemma_texts_push(out@, piece);
                }
                out.push(piece);
                assert(i + sep_chars@.len() <= chars.len());
                assert(before.push(piece@) + pieces_of(s@.skip(i + sep@.len()), sep@) =~= before
                    + pieces_of(rest, sep@));
                start = i + sep_chars.len();
            },
            None => {
                let piece = part(&chars, start, chars.len());
                assert(piece@ =~= rest);
                proof {
                    lemma_texts_push(out@, piece);
                }
                out.push(piece);
                assert(before.push(piece@) =~= before + pieces_of(rest, sep@));
                return out;
            },
        }
    }
}

/// How many characters there are before the first white space.
pub open spec fn word_len(s: Seq<char>) -> nat
    decreases s.len(),
{
    if s.len() == 0 || is_white(s[0]) {
        0
    } else {
        1 + word_len(s.drop_first())
    }
}

/// The words of a text: what white space separates.
pub open spec fn words_of(s: Seq<char>) -> Seq<Seq<char>>
    decreases s.len(),
{
    if s.len() == 0 {
        Seq::empty()
    } else if is_white(s[0]) {
        words_of(s.drop_first())
    } else {
        let n = word_len(s) as int;
        if 0 < n <= s.len() {
            seq![s.take(n)] + words_of(s.skip(n))
        } else {
            Seq::empty()
        }
    }
}

pub fn words(s: &str) -> (out: Vec<String>)
    ensures
        texts(out@) == words_of(s@),
{
    let chars = to_chars(s);
    let mut out: Vec<String> = Vec::new();
    let mut start: usize = 0;
    assert(s@.skip(0) =~= s@);
    assert(texts(out@) + words_of(s@) =~= words_of(s@));
    while start < chars.len()
        invariant
            start <= chars@.len(),
            chars@ == s@,
            texts(out@) + words_of(s@.skip(start as int)) == words_of(s@),
        decreases chars@.len() - start,
    {
        let ghost rest = s@.skip(start as int);
        if white(chars[start]) {
            assert(rest.drop_first() =~= s@.skip(start + 1));
            start += 1;
        } else {
            let mut end: usize = start;
            while end < chars.len() && !white(chars[end])
                invariant
                    start <= end <= chars@.len(),
                    chars@ == s@,
                    rest == s@.skip(start as int),
                    word_len(rest) == (end - start) + word_len(s@.skip(end as int)),
                decreases chars@.len() - end,
            {
                assert(s@.skip(end as int).drop_first() =~= s@.skip(end + 1));
                end += 1;
            }
            assert(word_len(rest) == end - start);
            assert(word_len(rest) > 0);
            let ghost before = texts(out@);
            let word = part(&chars, start, end);
            assert(word@ =~= rest.take(end - start));
            assert(rest.skip(end - start) =~= s@.skip(end as int));
            proof {
                lemma_texts_push(out@, word);
            }
            out.push(word);
            assert(before.push(word@) + words_of(s@.skip(end as int)) =~= before + words_of(rest));
            start = end;
        }
    }
    assert(s@.skip(start as int) =~= Seq::empty());
    assert(texts(out@) + Seq::<Seq<char>>::empty() =~= texts(out@));
    out
}

/// Whether a string is among those of a row.
pub fn contains_name(names: &Vec<String>, name: &str) -> (b: bool)
    ensures
        b == texts(names@).contains(name@),
{
    let mut i: usize = 0;
    while i < names.len()
        invariant
            i <= names@.len(),
            forall|k: int| 0 <= k < i ==> (#[trigger] texts(names@)[k]) != name@,
        decreases names@.len() - i,
    {
        if same_text(names[i].as_str(), name) {
            assert(texts(names@)[i as int] == name@);
            return true;
        }
        i += 1;
    }
    false
}

/// The texts one after the other, `sep` between any two of them.
pub open spec fn joined(parts: Seq<Seq<char>>, sep: Seq<char>) -> Seq<char>
    decreases parts.len(),
{
    if parts.len() == 0 {
        Seq::empty()
    } else if parts.len() == 1 {
        parts[0]
    } else {
        joined(parts.drop_last(), sep) + sep + parts.last()
    }
}

pub fn join(parts: &Vec<String>, sep: &str) -> (t: String)
    ensures
        t@ == joined(texts(parts@), sep@),
{
    let mut t = String::new();
    let mut i: usize = 0;
    assert(texts(parts@).take(0) =~= Seq::empty());
    while i < parts.len()
        invariant
            i <= parts@.len(),
            t@ == joined(texts(parts@).take(i as int), sep@),
        decreases parts@.len() - i,
    {
        let ghost longer = texts(parts@).take(i + 1);
        assert(longer.drop_last() =~= texts(parts@).take(i as int));
        if i > 0 {
            t.append(sep);
        }
        t.append(parts[i].as_str());
        assert(i == 0 ==> t@ =~= longer[0]);
        i += 1;
    }
    assert(texts(parts@).take(i as int) =~= texts(parts@));
    t
}

// ── letters and digits ────────────────────────────────────────────────

/// The lower-case form of an ASCII capital; any other character as it is.
pub open spec fn lower_char(c: char) -> char {
    if 'A' <= c <= 'Z' {
        ((c as u8) + 32) as char
    } else {
        c
    }
}

/// A text with its ASCII capitals in lower case.
pub open spec fn lowered(s: Seq<char>) -> Seq<char> {
    s.map_values(|c: char| lower_char(c))
}

pub fn to_lower(s: &str) -> (t: String)
    ensures
        t@ == lowered(s@),
{
    let chars = to_chars(s);
    let mut t = String::new();
    let mut i: usize = 0;
    assert(t@ =~= lowered(s@).take(0));
    while i < chars.len()
        invariant
            i <= chars@.len(),
            chars@ == s@,
            t@ == lowered(s@).take(i as int),
        decreases chars@.len() - i,
    {
        let c = chars[i];
        let l: char = if 'A' <= c && c <= 'Z' {
            ((c as u8) + 32) as char
        } else {
            c
        };
        t.push(l);
        assert(lowered(s@).take(i + 1) =~= lowered(s@).take(i as int).push(lower_char(c)));
        i += 1;
    }
    assert(lowered(s@).take(i as int) =~= lowered(s@));
    t
}

/// What `char::is_alphanumeric` answers for a character.
pub uninterp spec fn char_alphanumeric(c: char) -> bool;

/// The ASCII letters and digits.
pub open spec fn ascii_alphanumeric(c: char) -> bool {
    ('a' <= c <= 'z') || ('A' <= c <= 'Z') || ('0' <= c <= '9')
}

/// `char::is_alphanumeric` is a function of the character. Of the ASCII characters it holds for
/// the letters and the digits.
pub assume_specification[ char::is_alphanumeric ](c: char) -> (b: bool)
    ensures
        b == char_alphanumeric(c),
        c <= '\u{7f}' ==> b == ascii_alphanumeric(c),
;

/// The digit for a value below sixteen.
pub open spec fn digit_char(d: nat) -> char {
    if d < 10 {
        (48 + d) as u8 as char
    } else {
        (87 + d) as u8 as char
    }
}

/// A number written to a base of at least two.
pub open spec fn digits_of(n: nat, base: nat) -> Seq<char>
    decreases n,
{
    if n < base || base < 2 {
        seq![digit_char(n)]
    } else {
        proof {
            vstd::arithmetic::div_mod::lemma_div_decreases(n as int, base as int);
        }
        digits_of(n / base, base).push(digit_char(n % base))
    }
}

/// A number in decimal.
pub open spec fn decimal(n: nat) -> Seq<char> {
    digits_of(n, 10)
}

/// An integer in decimal, with a minus sign before the negative ones.
pub open spec fn signed_decimal(i: int) -> Seq<char> {
    if i < 0 {
        seq!['-'] + decimal((-i) as nat)
    } else {
        decimal(i as nat)
    }
}

fn write_digits(n: u64, base: u64) -> (t: String)
    requires
        2 <= base <= 16,
    ensures
        t@ == digits_of(n as nat, base as nat),
    decreases n,
{
    let d: u64 = n % base;
    proof {
        if n < base {
            vstd::arithmetic::div_mod::lemma_small_mod(n as nat, base as nat);
        } else {
            vstd::arithmetic::div_mod::lemma_div_decreases(n as int, base as int);
        }
        vstd::arithmetic::div_mod::lemma_mod_bound(n as int, base as int);
    }
    let c: char = if d < 10 {
        (48 + d) as u8 as char
    } else {
        (87 + d) as u8 as char
    };
    if n < base {
        let mut t = String::new();
        t.push(c);
        assert(t@ =~= seq![digit_char(n as nat)]);
        t
    } else {
        let mut t = write_digits(n / base, base);
        t.push(c);
        t
    }
}

/// The digits of a number hold no underscore.
pub proof fn lemma_digits_hold_no_underscore(n: nat, base: nat)
    requires
        2 <= base <= 16,
    ensures
        digits_of(n, base).len() > 0,
        forall|i: int| 0 <= i < digits_of(n, base).len() ==> #[trigger] digits_of(n, base)[i] != '_',
    decreases n,
{
    if n >= base {
        vstd::arithmetic::div_mod::lemma_div_decreases(n as int, base as int);
        vstd::arithmetic::div_mod::lemma_mod_bound(n as int, base as int);
        lemma_digits_hold_no_underscore(n / base, base);
    }
}

/// Different numbers have different digits.
pub proof fn lemma_digits_apart(a: nat, b: nat, base: nat)
    requires
        2 <= base <= 16,
        digits_of(a, base) == digits_of(b, base),
    ensures
        a == b,
    decreases a,
{
    let s = digits_of(a, base);
    let t = digits_of(b, base);
    assert(s.last() == t.last());
    vstd::arithmetic::div_mod::lemma_mod_bound(a as int, base as int);
    vstd::arithmetic::div_mod::lemma_mod_bound(b as int, base as int);
    if a >= base {
        vstd::arithmetic::div_mod::lemma_div_decreases(a as int, base as int);
        lemma_digits_hold_no_underscore(a / base, base);
        assert(s.len() > 1);
        assert(b >= base);
        assert(s.drop_last() =~= digits_of(a / base, base));
        assert(t.drop_last() =~= digits_of(b / base, base));
        lemma_digits_apart(a / base, b / base, base);
        vstd::arithmetic::div_mod::lemma_fundamental_div_mod(a as int, base as int);
        vstd::arithmetic::div_mod::lemma_fundamental_div_mod(b as int, base as int);
    } else if b >= base {
        lemma_digits_hold_no_underscore(b / base, base);
        assert(t.len() > 1);
    }
}

pub fn to_decimal(n: u64) -> (t: String)
    ensures
        t@ == decimal(n as nat),
{
    write_digits(n, 10)
}

pub fn to_hex(n: u64) -> (t: String)
    ensures
        t@ == digits_of(n as nat, 16),
{
    write_digits(n, 16)
}

pub fn to_signed_decimal(i: i64) -> (t: String)
    ensures
        t@ == signed_decimal(i as int),
{
    if i < 0 {
        let magnitude: u64 = (-(i as i128)) as u64;
        let mut t = String::new();
        t.push('-');
        t.append(to_decimal(magnitude).as_str());
        assert(t@ =~= signed_decimal(i as int));
        t
    } else {
        to_decimal(i as u64)
    }
}

/// Whether a text holds nothing but decimal digits.
pub open spec fn all_digits(s: Seq<char>) -> bool {
    forall|i: int| 0 <= i < s.len() ==> '0' <= #[trigger] s[i] <= '9'
}

/// The number that a row of decimal digits stands for.
pub open spec fn digits_value(s: Seq<char>) -> nat
    decreases s.len(),
{
    if s.len() == 0 {
        0
    } else {
        digits_value(s.drop_last()) * 10 + (s.last() as nat - 48) as nat
    }
}

/// What a text means as a machine-sized count: an optional plus sign, then digits.
pub open spec fn count_of(s: Seq<char>) -> Option<usize> {
    let digits = if s.len() > 0 && s[0] == '+' {
        s.drop_first()
    } else {
        s
    };
    if digits.len() > 0 && all_digits(digits) && digits_value(digits) <= usize::MAX {
        Some(digits_value(digits) as usize)
    } else {
        None
    }
}

proof fn lemma_digits_value_grows(s: Seq<char>, k: int)
    requires
        0 <= k <= s.len(),
        all_digits(s),
    ensures
        digits_value(s.take(k)) <= digits_value(s),
    decreases s.len() - k,
{
    if k == s.len() {
        assert(s.take(k) =~= s);
    } else {
        lemma_digits_value_grows(s, k + 1);
        assert(s.take(k + 1).drop_last() =~= s.take(k));
        assert(s[k] >= '0');
    }
}

pub fn parse_count(s: &str) -> (n: Option<usize>)
    ensures
        n == count_of(s@),
{
    let chars = to_chars(s);
    let start: usize = if chars.len() > 0 && chars[0] == '+' {
        1
    } else {
        0
    };
    let ghost digits = s@.skip(start as int);
    proof {
        if start == 1 {
            assert(digits =~= s@.drop_first());
        } else {
            assert(digits =~= s@);
        }
    }
    if start == chars.len() {
        return None;
    }
    let mut n: usize = 0;
    let mut i: usize = start;
    assert(digits.take(0) =~= Seq::empty());
    while i < chars.len()
        invariant
            start <= i <= chars@.len(),
            chars@ == s@,
            digits == s@.skip(start as int),
            digits.len() > 0,
            count_of(s@) == (if all_digits(digits) && digits_value(digits) <= usize::MAX {
                Some(digits_value(digits) as usize)
            } else {
                None
            }),
            forall|k: int| 0 <= k < i - start ==> '0' <= #[trigger] digits[k] <= '9',
            n == digits_value(digits.take(i - start)),
        decreases chars@.len() - i,
    {
        let c = chars[i];
        assert(c == digits[i - start]);
        if c < '0' || c > '9' {
            return None;
        }
        let d: usize = (c as u8 - 48) as usize;
        proof {
            let longer = digits.take(i - start + 1);
            assert(longer.drop_last() =~= digits.take(i - start));
            assert(digits_value(longer) == n * 10 + d);
            if all_digits(digits) {
                lemma_digits_value_grows(digits, i - start + 1);
            }
        }
        match n.checked_mul(10) {
            Some(m) => match m.checked_add(d) {
                Some(v) => {
                    n = v;
                },
                None => {
                    return None;
                },
            },
            None => {
                return None;
            },
        }
        i += 1;
    }
    assert(digits.take(i - start) =~= digits);
    Some(n)
}

// ── length in bytes ───────────────────────────────────────────────────

/// How many bytes a text takes in UTF-8.
pub open spec fn byte_len(s: Seq<char>) -> nat {
    encode_utf8(s).len()
}

/// How many bytes a character takes in UTF-8.
pub open spec fn char_width(c: char) -> nat {
    vstd::utf8::encode_scalar(c as u32).len()
}

pub proof fn lemma_byte_len_push(s: Seq<char>, c: char)
    ensures
        byte_len(s.push(c)) == byte_len(s) + char_width(c),
    decreases s.len(),
{
    let t = s.push(c);
    if s.len() == 0 {
        assert(t.drop_first() =~= Seq::empty());
        assert(encode_utf8(t.drop_first()).len() == 0);
    } else {
        assert(t.drop_first() =~= s.drop_first().push(c));
        lemma_byte_len_push(s.drop_first(), c);
    }
}

fn width(c: char) -> (n: usize)
    ensures
        n == char_width(c),
        1 <= n <= 4,
{
    let u: u32 = c as u32;
    if u <= 0x7f {
        1
    } else if u <= 0x7ff {
        2
    } else if u <= 0xffff {
        3
    } else {
        4
    }
}

/// How many characters of the longest prefix take at most `max` bytes.
pub open spec fn fitting_prefix(s: Seq<char>, max: nat) -> nat
    decreases s.len(),
{
    if byte_len(s) <= max || s.len() == 0 {
        s.len()
    } else {
        fitting_prefix(s.drop_last(), max)
    }
}

/// How many characters precede the longest suffix that takes at most `max` bytes.
pub open spec fn fitting_suffix(s: Seq<char>, max: nat) -> nat
    decreases s.len(),
{
    if byte_len(s) <= max || s.len() == 0 {
        0
    } else {
        1 + fitting_suffix(s.drop_first(), max)
    }
}

/// The fitting prefix fits, and no longer one does.
pub proof fn lemma_fitting_prefix(s: Seq<char>, max: nat)
    ensures
        fitting_prefix(s, max) <= s.len(),
        byte_len(s.take(fitting_prefix(s, max) as int)) <= max,
        forall|k: int|
            fitting_prefix(s, max) < k <= s.len() ==> byte_len(#[trigger] s.take(k)) > max,
    decreases s.len(),
{
    assert(s.take(s.len() as int) =~= s);
    if s.len() == 0 {
        assert(s =~= Seq::empty());
    } else if byte_len(s) > max {
        let rest = s.drop_last();
        lemma_fitting_prefix(rest, max);
        assert forall|k: int| 0 <= k <= rest.len() implies rest.take(k) == #[trigger] s.take(k) by {
            assert(rest.take(k) =~= s.take(k));
        }
    }
}

/// The fitting suffix fits, and no longer one does.
pub proof fn lemma_fitting_suffix(s: Seq<char>, max: nat)
    ensures
        fitting_suffix(s, max) <= s.len(),
        byte_len(s.skip(fitting_suffix(s, max) as int)) <= max,
        forall|k: int| 0 <= k < fitting_suffix(s, max) ==> byte_len(#[trigger] s.skip(k)) > max,
    decreases s.len(),
{
    assert(s.skip(0) =~= s);
    if s.len() == 0 {
        assert(s =~= Seq::empty());
    } else if byte_len(s) > max {
        let rest = s.drop_first();
        lemma_fitting_suffix(rest, max);
        assert forall|k: int| 0 <= k < fitting_suffix(s, max) implies byte_len(
            #[trigger] s.skip(k),
        ) > max by {
            if k > 0 {
                assert(s.skip(k) =~= rest.skip(k - 1));
            }
        }
        assert(s.skip(fitting_suffix(s, max) as int) =~= rest.skip(
            fitting_suffix(rest, max) as int,
        ));
    }
}

/// The number of bytes of a string.
pub fn bytes_of(s: &str) -> (n: usize)
    ensures
        n == byte_len(s@),
{
    s.as_bytes().len()
}

/// The longest prefix of `s` of at most `max` bytes.
pub fn prefix_within(s: &str, max: usize) -> (t: &str)
    ensures
        t@ == s@.take(fitting_prefix(s@, max as nat) as int),
        fitting_prefix(s@, max as nat) <= s@.len(),
{
    let chars = to_chars(s);
    let mut n: usize = bytes_of(s);
    let mut i: usize = chars.len();
    assert(s@.take(i as int) =~= s@);
    while n > max && i > 0
        invariant
            i <= chars@.len(),
            chars@ == s@,
            n == byte_len(s@.take(i as int)),
            fitting_prefix(s@, max as nat) == fitting_prefix(s@.take(i as int), max as nat),
        decreases i,
    {
        assert(s@.take(i as int).drop_last() =~= s@.take(i - 1));
        assert(s@.take(i as int) =~= s@.take(i - 1).push(s@[i - 1]));
        proof {
            lemma_byte_len_push(s@.take(i - 1), s@[i - 1]);
        }
        n -= width(chars[i - 1]);
        i -= 1;
    }
    assert(s@.take(i as int) =~= s@.subrange(0, i as int));
    s.substring_char(0, i)
}

/// The longest suffix of `s` of at most `max` bytes.
pub fn suffix_within(s: &str, max: usize) -> (t: &str)
    ensures
        t@ == s@.skip(fitting_suffix(s@, max as nat) as int),
        fitting_suffix(s@, max as nat) <= s@.len(),
{
    let chars = to_chars(s);
    let mut n: usize = bytes_of(s);
    let mut i: usize = 0;
    assert(s@.skip(i as int) =~= s@);
    while n > max && i < chars.len()
        invariant
            i <= chars@.len(),
            chars@ == s@,
            n == byte_len(s@.skip(i as int)),
            fitting_suffix(s@, max as nat) == i + fitting_suffix(s@.skip(i as int), max as nat),
        decreases chars@.len() - i,
    {
        assert(s@.skip(i as int).drop_first() =~= s@.skip(i + 1));
        n -= width(chars[i]);
        i += 1;
    }
    assert(s@.skip(i as int) =~= s@.subrange(i as int, s@.len() as int));
    s.substring_char(i, chars.len())
}

/// What `String::from_utf8_lossy` makes of bytes.
pub uninterp spec fn utf8_lossy(bytes: Seq<u8>) -> Seq<char>;

/// `String::from_utf8_lossy`: a function of the bytes, and the text itself where they are UTF-8.
#[verifier::external_body]
pub(crate) fn decode_lossy(bytes: &[u8]) -> (t: String)
    ensures
        t@ == utf8_lossy(bytes@),
        vstd::utf8::valid_utf8(bytes@) ==> t@ == vstd::utf8::decode_utf8(bytes@),
{
    String::from_utf8_lossy(bytes).to_string()
}

} // verus!

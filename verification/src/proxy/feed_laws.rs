//! What holds of a stream however its text is cut into chunks.
use vstd::prelude::*;

use crate::json::JsonView;
use crate::proxy::converter::{block_step, blocks_step, converted, end_step, feed_step, following};
use crate::proxy::converter::{fresh, lemma_following, opening, ConverterView};
use crate::proxy::sse::{blocks_in, parsed_block, popped, BlockView, Event};
use crate::text::{find_from, lemma_find_from, occurs_at, pieces_of, unix_newlines};

verus! {

// ── line ends ─────────────────────────────────────────────────────────

/// Whether a text has no line end of two characters.
pub open spec fn has_plain_ends(s: Seq<char>) -> bool {
    forall|i: int| 0 <= i && i + 1 < s.len() ==> !((#[trigger] s[i]) == '\r' && s[i + 1] == '\n')
}

/// Whether no carriage return comes before a line end of two characters.
pub open spec fn has_clean_ends(s: Seq<char>) -> bool {
    forall|i: int|
        0 <= i && i + 2 < s.len() ==> !((#[trigger] s[i]) == '\r' && s[i + 1] == '\r' && s[i + 2]
            == '\n')
}

pub open spec fn ends_in_return(s: Seq<char>) -> bool {
    s.len() > 0 && s.last() == '\r'
}

/// Whether the two texts meet in the middle of a line end.
pub open spec fn cut_line_end(a: Seq<char>, b: Seq<char>) -> bool {
    ends_in_return(a) && b.len() > 0 && b[0] == '\n'
}

proof fn lemma_plain_is_normal(s: Seq<char>)
    requires
        has_plain_ends(s),
    ensures
        unix_newlines(s) == s,
    decreases s.len(),
{
    if s.len() > 0 {
        if s.len() > 1 {
            assert(!(s[0] == '\r' && s[1] == '\n'));
        }
        let rest = s.skip(1);
        assert forall|i: int| 0 <= i && i + 1 < rest.len() implies !((#[trigger] rest[i]) == '\r'
            && rest[i + 1] == '\n') by {
            assert(rest[i] == s[i + 1] && rest[i + 1] == s[i + 2]);
        }
        lemma_plain_is_normal(rest);
        assert(seq![s[0]] + rest =~= s);
    }
}

proof fn lemma_clean_rest(s: Seq<char>, n: int)
    requires
        has_clean_ends(s),
        0 <= n <= s.len(),
    ensures
        has_clean_ends(s.skip(n)),
{
    let rest = s.skip(n);
    assert forall|i: int| 0 <= i && i + 2 < rest.len() implies !((#[trigger] rest[i]) == '\r'
        && rest[i + 1] == '\r' && rest[i + 2] == '\n') by {
        assert(rest[i] == s[i + n] && rest[i + 1] == s[i + n + 1] && rest[i + 2] == s[i + n + 2]);
    }
}

/// The first character of a text stays the first, unless it is part of a line end.
proof fn lemma_normal_head(s: Seq<char>)
    requires
        s.len() > 0,
    ensures
        unix_newlines(s).len() > 0,
        unix_newlines(s)[0] == if s[0] == '\r' && s.len() > 1 && s[1] == '\n' {
            '\n'
        } else {
            s[0]
        },
{
}

/// Once normalized, a text with clean ends has plain ends.
proof fn lemma_normal_is_plain(s: Seq<char>)
    requires
        has_clean_ends(s),
    ensures
        has_plain_ends(unix_newlines(s)),
    decreases s.len(),
{
    if s.len() > 0 {
        let two = s[0] == '\r' && s.len() > 1 && s[1] == '\n';
        let n: int = if two {
            2
        } else {
            1
        };
        let head = if two {
            '\n'
        } else {
            s[0]
        };
        let rest = s.skip(n);
        lemma_clean_rest(s, n);
        lemma_normal_is_plain(rest);
        let tail = unix_newlines(rest);
        let whole = unix_newlines(s);
        assert(whole =~= seq![head] + tail);
        assert forall|i: int| 0 <= i && i + 1 < whole.len() implies !((#[trigger] whole[i]) == '\r'
            && whole[i + 1] == '\n') by {
            if i > 0 {
                assert(whole[i] == tail[i - 1] && whole[i + 1] == tail[i - 1 + 1]);
            } else {
                assert(rest.len() > 0);
                lemma_normal_head(rest);
                assert(whole[1] == tail[0]);
                if head == '\r' && tail[0] == '\n' {
                    assert(rest[0] == s[1]);
                    if rest[0] == '\r' {
                        assert(rest[1] == s[2]);
                        assert(s[0] == '\r' && s[1] == '\r' && s[2] == '\n');
                    }
                }
            }
        }
    }
}

/// The last character of a text stays the last.
proof fn lemma_normal_last(s: Seq<char>)
    requires
        s.len() > 0,
    ensures
        unix_newlines(s).len() > 0,
        unix_newlines(s).last() == s.last(),
    decreases s.len(),
{
    let two = s[0] == '\r' && s.len() > 1 && s[1] == '\n';
    let n: int = if two {
        2
    } else {
        1
    };
    let rest = s.skip(n);
    if rest.len() > 0 {
        lemma_normal_last(rest);
        assert(unix_newlines(s).last() == unix_newlines(rest).last());
        assert(rest.last() == s.last());
    } else {
        assert(unix_newlines(rest) =~= Seq::empty());
    }
}

/// Two texts normalized as one.
proof fn lemma_normal_add(a: Seq<char>, b: Seq<char>)
    ensures
        unix_newlines(a + b) == if cut_line_end(a, b) {
            unix_newlines(a).drop_last() + unix_newlines(b)
        } else {
            unix_newlines(a) + unix_newlines(b)
        },
    decreases a.len(),
{
    let whole = a + b;
    if a.len() == 0 {
        assert(whole =~= b);
        assert(unix_newlines(a) + unix_newlines(b) =~= unix_newlines(b));
    } else if a.len() == 1 && cut_line_end(a, b) {
        assert(whole[0] == '\r' && whole[1] == '\n');
        assert(whole.skip(2) =~= b.skip(1));
        assert(unix_newlines(a.skip(1)) =~= Seq::empty());
        assert(unix_newlines(a) =~= seq!['\r']);
        assert(unix_newlines(a).drop_last() =~= Seq::empty());
        assert(unix_newlines(b) =~= seq!['\n'] + unix_newlines(b.skip(1)));
        assert(Seq::<char>::empty() + unix_newlines(b) =~= unix_newlines(b));
    } else {
        let two = a[0] == '\r' && a.len() > 1 && a[1] == '\n';
        let n: int = if two {
            2
        } else {
            1
        };
        let head = if two {
            '\n'
        } else {
            a[0]
        };
        let rest = a.skip(n);
        assert(whole[0] == a[0]);
        if a.len() > 1 {
            assert(whole[1] == a[1]);
        } else if b.len() > 0 {
            assert(whole[1] == b[0]);
        }
        assert(whole.skip(n) =~= rest + b);
        lemma_normal_add(rest, b);
        assert(rest.len() > 0 ==> rest.last() == a.last());
        if rest.len() == 0 {
            assert(!cut_line_end(a, b));
        }
        if cut_line_end(a, b) {
            lemma_normal_last(rest);
            assert(seq![head] + (unix_newlines(rest).drop_last() + unix_newlines(b)) =~= (
            seq![head] + unix_newlines(rest)).drop_last() + unix_newlines(b));
        } else {
            assert(seq![head] + (unix_newlines(rest) + unix_newlines(b)) =~= seq![head]
                + unix_newlines(rest) + unix_newlines(b));
        }
    }
}

// ── feeding ───────────────────────────────────────────────────────────

/// Whether two ways of feeding come to the same: the same converter, the same events or failure,
/// and rests that differ in their line ends at most.
pub open spec fn same_feed(
    x: (ConverterView, Seq<char>, Result<Seq<Event>, Seq<char>>),
    y: (ConverterView, Seq<char>, Result<Seq<Event>, Seq<char>>),
) -> bool {
    x.0 == y.0 && x.2 == y.2 && unix_newlines(x.1) == unix_newlines(y.1)
}

/// Texts that differ in their line ends at most do the same.
proof fn lemma_same_feed(c: ConverterView, x: Seq<char>, y: Seq<char>)
    requires
        unix_newlines(x) == unix_newlines(y),
    ensures
        same_feed(feed_step(c, x), feed_step(c, y)),
{
    assert(popped(x).0 == popped(y).0);
    if popped(x).0 is Some {
        assert(popped(x).1 == popped(y).1);
    }
}

/// Whether every event that has come in full has data.
pub open spec fn events_have_data(text: Seq<char>) -> bool
    decreases text.len(),
{
    match find_from(text, "\n\n"@, 0) {
        Some(i) => if 0 <= i && i + 2 <= text.len() {
            parsed_block(text.take(i)) is Some && events_have_data(text.skip(i + 2))
        } else {
            true
        },
        None => true,
    }
}

/// What was found in a text is found in a text that begins alike.
proof fn lemma_find_alike(a: Seq<char>, b: Seq<char>, p: Seq<char>, from: int)
    requires
        0 <= from,
        find_from(a, p, from) is Some,
        find_from(a, p, from)->Some_0 + p.len() <= b.len(),
        b.take(find_from(a, p, from)->Some_0 + p.len()) == a.take(
            find_from(a, p, from)->Some_0 + p.len(),
        ),
    ensures
        find_from(b, p, from) == find_from(a, p, from),
    decreases a.len() - from + 1,
{
    let end = find_from(a, p, from)->Some_0 + p.len();
    lemma_find_from(a, p, from);
    assert(from + p.len() <= end);
    assert(b.subrange(from, from + p.len()) =~= b.take(end).subrange(from, from + p.len()));
    assert(a.subrange(from, from + p.len()) =~= a.take(end).subrange(from, from + p.len()));
    if !occurs_at(a, p, from) {
        lemma_find_alike(a, b, p, from + 1);
    }
}

/// A normalized text with more after it: its first event is the first event of both.
proof fn lemma_popped_of_longer(a: Seq<char>, b: Seq<char>)
    requires
        has_plain_ends(a),
        find_from(a, "\n\n"@, 0) is Some,
    ensures
        ({
            let i = find_from(a, "\n\n"@, 0)->Some_0;
            &&& 0 <= i && i + 2 <= a.len()
            &&& i + 2 <= unix_newlines(a + b).len()
            &&& popped(a) == (parsed_block(a.take(i)), a.skip(i + 2))
            &&& popped(a + b) == (
                parsed_block(a.take(i)),
                unix_newlines(a.skip(i + 2) + b),
            )
            &&& unix_newlines(a.skip(i + 2) + b) == unix_newlines(a + b).skip(i + 2)
            &&& has_plain_ends(a.skip(i + 2))
        }),
{
    reveal_strlit("\n\n");
    let i = find_from(a, "\n\n"@, 0)->Some_0;
    let rest = a.skip(i + 2);
    let whole = unix_newlines(a + b);
    lemma_find_from(a, "\n\n"@, 0);
    lemma_plain_is_normal(a);
    assert forall|k: int| 0 <= k && k + 1 < rest.len() implies !((#[trigger] rest[k]) == '\r'
        && rest[k + 1] == '\n') by {
        assert(rest[k] == a[k + i + 2] && rest[k + 1] == a[k + i + 3]);
    }
    lemma_plain_is_normal(rest);
    lemma_normal_add(a, b);
    lemma_normal_add(rest, b);
    assert(a.subrange(i, i + 2) == "\n\n"@);
    assert(a[i + 1] == a.subrange(i, i + 2)[1]);
    if ends_in_return(a) {
        assert(a.len() > i + 2);
    }
    assert(rest.len() > 0 ==> rest.last() == a.last());
    assert(whole.take(i + 2) =~= a.take(i + 2));
    assert(whole.skip(i + 2) =~= unix_newlines(rest + b));
    lemma_find_alike(a, whole, "\n\n"@, 0);
    assert(whole.take(i) =~= a.take(i));
}

proof fn lemma_normalized_chunks(c: ConverterView, a: Seq<char>, b: Seq<char>)
    requires
        !c.stream.finished,
        has_plain_ends(a),
        has_plain_ends(unix_newlines(a + b)),
        events_have_data(a),
    ensures
        chunks_join(c, a, b),
    decreases a.len(),
{
    if find_from(a, "\n\n"@, 0) is None {
        lemma_plain_is_normal(a);
        let whole = feed_step(c, a + b);
        lemma_following(Seq::empty(), Seq::empty(), whole.2);
    } else {
        let i = find_from(a, "\n\n"@, 0)->Some_0;
        lemma_popped_of_longer(a, b);
        let rest = a.skip(i + 2);
        let left = unix_newlines(rest + b);
        let block = parsed_block(a.take(i))->Some_0;
        let step = block_step(c, block);
        let all = unix_newlines(a + b);
        assert(has_plain_ends(left)) by {
            assert forall|k: int| 0 <= k && k + 1 < left.len() implies !((#[trigger] left[k])
                == '\r' && left[k + 1] == '\n') by {
                assert(left[k] == all[k + i + 2] && left[k + 1] == all[k + i + 3]);
            }
        }
        lemma_plain_is_normal(left);
        if step.1 is Ok && !step.0.stream.finished {
            lemma_same_feed(step.0, left, rest + b);
            lemma_normalized_chunks(step.0, rest, b);
            let first = feed_step(step.0, rest);
            if first.2 is Ok && !first.0.stream.finished {
                let second = feed_step(first.0, first.1 + b);
                lemma_following(step.1->Ok_0, first.2->Ok_0, second.2);
            }
        }
    }
}

/// Whether feeding `a` and then `b` comes to the same as feeding both at once.
pub open spec fn chunks_join(c: ConverterView, a: Seq<char>, b: Seq<char>) -> bool {
    let first = feed_step(c, a);
    let whole = feed_step(c, a + b);
    match first.2 {
        Err(e) => same_feed(whole, (first.0, first.1 + b, Err(e))),
        Ok(events) => if first.0.stream.finished {
            same_feed(whole, (first.0, first.1 + b, Ok(events)))
        } else {
            let second = feed_step(first.0, first.1 + b);
            same_feed(whole, (second.0, second.1, following(events, second.2)))
        },
    }
}

/// How a text is cut into chunks makes no difference, not even within a line end: a chunk and then
/// another do what both do at once. Left out are texts with a carriage return before a line end of
/// two characters, and chunks with an event that has no data: that one holds back what follows it
/// until the next chunk.
pub proof fn law_chunks_do_not_matter(c: ConverterView, a: Seq<char>, b: Seq<char>)
    requires
        !c.stream.finished,
        has_clean_ends(a + b),
        events_have_data(unix_newlines(a)),
    ensures
        chunks_join(c, a, b),
{
    let normal = unix_newlines(a);
    assert(has_clean_ends(a)) by {
        assert forall|i: int| 0 <= i && i + 2 < a.len() implies !((#[trigger] a[i]) == '\r'
            && a[i + 1] == '\r' && a[i + 2] == '\n') by {
            assert((a + b)[i] == a[i] && (a + b)[i + 1] == a[i + 1] && (a + b)[i + 2] == a[i + 2]);
        }
    }
    lemma_normal_is_plain(a);
    lemma_plain_is_normal(normal);
    lemma_normal_add(a, b);
    lemma_normal_add(normal, b);
    if a.len() > 0 {
        lemma_normal_last(a);
    } else {
        assert(normal =~= Seq::empty());
    }
    assert(unix_newlines(normal + b) == unix_newlines(a + b));
    lemma_normal_is_plain(a + b);
    lemma_normalized_chunks(c, normal, b);
    lemma_same_feed(c, a, normal);
    lemma_same_feed(c, a + b, normal + b);
    let first = feed_step(c, a);
    let other = feed_step(c, normal);
    lemma_joined_rests(first.1, other.1, b);
    lemma_same_feed(first.0, first.1 + b, other.1 + b);
}

/// Rests that differ in their line ends at most still do with more after them.
proof fn lemma_joined_rests(x: Seq<char>, y: Seq<char>, b: Seq<char>)
    requires
        unix_newlines(x) == unix_newlines(y),
    ensures
        unix_newlines(x + b) == unix_newlines(y + b),
{
    lemma_normal_add(x, b);
    lemma_normal_add(y, b);
    if x.len() > 0 {
        lemma_normal_last(x);
    }
    if y.len() > 0 {
        lemma_normal_last(y);
    }
}

// ── a whole stream at once ────────────────────────────────────────────

proof fn lemma_blocks_in_front(raw: Seq<char>, raws: Seq<Seq<char>>)
    ensures
        blocks_in(seq![raw] + raws) == (match parsed_block(raw) {
            Some(block) => seq![block],
            None => Seq::empty(),
        }) + blocks_in(raws),
    decreases raws.len(),
{
    let all = seq![raw] + raws;
    let head: Seq<BlockView> = match parsed_block(raw) {
        Some(block) => seq![block],
        None => Seq::empty(),
    };
    if raws.len() == 0 {
        assert(all.drop_last() =~= Seq::empty());
        assert(all.last() == raw);
        assert(blocks_in(Seq::<Seq<char>>::empty()) =~= Seq::empty());
        assert(blocks_in(all) =~= head + Seq::empty());
    } else {
        assert(all.drop_last() =~= seq![raw] + raws.drop_last());
        lemma_blocks_in_front(raw, raws.drop_last());
        assert(all.last() == raws.last());
        assert(blocks_in(all) =~= head + blocks_in(raws));
    }
}

/// Whether what is left after the last complete event holds no event.
pub open spec fn ends_complete(text: Seq<char>) -> bool
    decreases text.len(),
{
    match find_from(text, "\n\n"@, 0) {
        Some(i) => if 0 <= i && i + 2 <= text.len() {
            ends_complete(text.skip(i + 2))
        } else {
            true
        },
        None => parsed_block(text) is None,
    }
}

/// What is to be had of a stream when all of its text comes at once, and then its end.
pub open spec fn fed_whole(c: ConverterView, text: Seq<char>) -> Result<Seq<Event>, Seq<char>> {
    let fed = feed_step(c, text);
    match fed.2 {
        Err(e) => Err(e),
        Ok(events) => following(events, end_step(fed.0).1),
    }
}

proof fn lemma_whole(c: ConverterView, text: Seq<char>)
    requires
        !c.stream.finished,
        has_plain_ends(text),
        events_have_data(text),
        ends_complete(text),
    ensures
        fed_whole(c, text) == blocks_step(c, blocks_in(pieces_of(text, "\n\n"@))),
    decreases text.len(),
{
    reveal_strlit("\n\n");
    lemma_plain_is_normal(text);
    lemma_find_from(text, "\n\n"@, 0);
    match find_from(text, "\n\n"@, 0) {
        None => {
            assert(pieces_of(text, "\n\n"@) =~= seq![text] + Seq::<Seq<char>>::empty());
            lemma_blocks_in_front(text, Seq::empty());
            assert(blocks_in(pieces_of(text, "\n\n"@)) =~= Seq::empty());
            lemma_following(Seq::empty(), Seq::empty(), end_step(c).1);
        },
        Some(i) => {
            let rest = text.skip(i + 2);
            assert(text + Seq::<char>::empty() =~= text);
            lemma_popped_of_longer(text, Seq::empty());
            let block = parsed_block(text.take(i))->Some_0;
            let step = block_step(c, block);
            lemma_blocks_in_front(text.take(i), pieces_of(rest, "\n\n"@));
            let later = blocks_in(pieces_of(rest, "\n\n"@));
            let blocks = blocks_in(pieces_of(text, "\n\n"@));
            assert(blocks =~= seq![block] + later);
            assert(blocks.drop_first() =~= later);
            if step.1 is Ok {
                if step.0.stream.finished {
                    lemma_following(step.1->Ok_0, Seq::empty(), end_step(step.0).1);
                } else {
                    lemma_whole(step.0, rest);
                    let fed = feed_step(step.0, rest);
                    if fed.2 is Ok {
                        lemma_following(step.1->Ok_0, fed.2->Ok_0, end_step(fed.0).1);
                    }
                }
            }
        },
    }
}

/// A stream gives the same events whether it is taken in as it comes or as a whole.
pub proof fn law_streaming_gives_what_the_whole_gives(
    id: Seq<char>,
    model: Seq<char>,
    text: Seq<char>,
    tools: Option<JsonView>,
)
    requires
        has_clean_ends(text),
        events_have_data(unix_newlines(text)),
        ends_complete(unix_newlines(text)),
    ensures
        converted(id, model, text, tools) == following(
            opening(fresh(id, model, tools).stream),
            fed_whole(fresh(id, model, tools), text),
        ),
{
    let c = fresh(id, model, tools);
    let normal = unix_newlines(text);
    lemma_normal_is_plain(text);
    lemma_plain_is_normal(normal);
    lemma_same_feed(c, text, normal);
    lemma_whole(c, normal);
}

} // verus!

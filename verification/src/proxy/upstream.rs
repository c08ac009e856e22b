//! What the proxy says to the upstream.
use vstd::prelude::*;

use crate::proxy::tools::{clip, clipped};
use crate::text::to_chars;

verus! {

/// A text without the slashes at its end.
pub open spec fn unslashed(s: Seq<char>) -> Seq<char>
    decreases s.len(),
{
    if s.len() > 0 && s.last() == '/' {
        unslashed(s.drop_last())
    } else {
        s
    }
}

fn trim_slashes(s: &str) -> (t: &str)
    ensures
        t@ == unslashed(s@),
{
    let chars = to_chars(s);
    let mut i: usize = chars.len();
    assert(s@.take(i as int) =~= s@);
    while i > 0 && chars[i - 1] == '/'
        invariant
            i <= chars@.len(),
            chars@ == s@,
            unslashed(s@) == unslashed(s@.take(i as int)),
        decreases i,
    {
        assert(s@.take(i as int).drop_last() =~= s@.take(i - 1));
        i -= 1;
    }
    assert(s@.take(i as int) =~= s@.subrange(0, i as int));
    s.substring_char(0, i)
}

/// Whether a version stands between `i` and `k`: a slash, a `v` and digits, up to the next slash or
/// the end.
pub open spec fn version_at(base: Seq<char>, i: int, k: int) -> bool {
    &&& 0 <= i && i + 2 < k <= base.len()
    &&& base[i] == '/'
    &&& base[i + 1] == 'v'
    &&& forall|j: int| i + 2 <= j < k ==> '0' <= #[trigger] base[j] <= '9'
    &&& k == base.len() || base[k] == '/'
}

/// Whether a base URL says which version of the API it leads to.
pub open spec fn names_version(base: Seq<char>) -> bool {
    exists|i: int, k: int| version_at(base, i, k)
}

fn has_version(base: &str) -> (b: bool)
    ensures
        b == names_version(base@),
{
    let chars = to_chars(base);
    let mut i: usize = 0;
    while i < chars.len()
        invariant
            i <= chars@.len(),
            chars@ == base@,
            forall|h: int, k: int| h < i ==> !version_at(base@, h, k),
        decreases chars@.len() - i,
    {
        if chars[i] == '/' && chars.len() - i > 2 && chars[i + 1] == 'v' {
            let mut k: usize = i + 2;
            while k < chars.len() && '0' <= chars[k] && chars[k] <= '9'
                invariant
                    i + 2 <= k <= chars@.len(),
                    chars@ == base@,
                    forall|j: int| i + 2 <= j < k ==> '0' <= #[trigger] base@[j] <= '9',
                decreases chars@.len() - k,
            {
                k += 1;
            }
            if k > i + 2 && (k == chars.len() || chars[k] == '/') {
                assert(version_at(base@, i as int, k as int));
                return true;
            }
            assert forall|end: int| !version_at(base@, i as int, end) by {
                if version_at(base@, i as int, end) {
                    if end < k {
                        assert('0' <= base@[end] <= '9');
                    } else if end > k {
                        assert('0' <= base@[k as int] <= '9');
                    }
                }
            }
        }
        i += 1;
    }
    false
}

/// Where chat completions are to be had. The version is filled in where the base URL has none.
pub open spec fn chat_url(base: Seq<char>) -> Seq<char> {
    if names_version(unslashed(base)) {
        unslashed(base) + "/chat/completions"@
    } else {
        unslashed(base) + "/v1/chat/completions"@
    }
}

pub fn completions_url(base: &str) -> (url: String)
    ensures
        url@ == chat_url(base@),
{
    let base = trim_slashes(base);
    if has_version(base) {
        base.to_owned().concat("/chat/completions")
    } else {
        base.to_owned().concat("/v1/chat/completions")
    }
}

/// The credentials that go with a request.
pub open spec fn credentials(key: Seq<char>) -> Seq<char> {
    "Bearer "@ + key
}

pub fn authorization(key: &str) -> (value: String)
    ensures
        value@ == credentials(key@),
{
    "Bearer ".to_owned().concat(key)
}

/// What a status that is no success is reported as.
pub open spec fn refusal(status: Seq<char>, text: Seq<char>) -> Seq<char> {
    "upstream HTTP "@ + status + ": "@ + clipped(text, 800)
}

pub fn status_error(status: &str, text: &str) -> (message: String)
    ensures
        message@ == refusal(status@, text@),
{
    "upstream HTTP ".to_owned().concat(status).concat(": ").concat(clip(text, 800).as_str())
}

/// A slash more at the end of the base URL makes no difference.
pub proof fn law_slashes_do_not_matter(base: Seq<char>)
    ensures
        chat_url(base.push('/')) == chat_url(base),
{
    assert(base.push('/').drop_last() =~= base);
}

} // verus!

//! The little of HTTP that the proxy speaks to its own clients.
use vstd::prelude::*;

use crate::codec::{json_text, to_json_text};
use crate::json::{empty_object, Json, JsonView};
use crate::proxy::usage::header_texts;
use crate::text::{byte_len, bytes_of, count_of, decimal, find_chars, find_from, is_blank};
use crate::text::{lemma_find_from, lowered, parse_count, part, same_text, texts, to_chars};
use crate::text::{to_decimal, to_lower, trim, trimmed, words, words_of};

verus! {

// ── requests ──────────────────────────────────────────────────────────

/// The head of a request as far as it has been read.
#[derive(Debug, PartialEq, Eq)]
pub struct RequestHead {
    pub method: String,
    pub path: String,
    pub headers: Vec<(String, String)>,
    pub content_length: usize,
}

pub struct HeadView {
    pub method: Seq<char>,
    pub path: Seq<char>,
    pub headers: Seq<(Seq<char>, Seq<char>)>,
    pub content_length: usize,
}

impl View for RequestHead {
    type V = HeadView;

    open spec fn view(&self) -> HeadView {
        HeadView {
            method: self.method@,
            path: self.path@,
            headers: header_texts(self.headers@),
            content_length: self.content_length,
        }
    }
}

/// The head after its first line: a method and a path. None where one of them is missing.
pub open spec fn head_start(line: Seq<char>) -> Option<HeadView> {
    let parts = words_of(trimmed(line));
    if parts.len() >= 2 {
        Some(
            HeadView {
                method: parts[0],
                path: parts[1],
                headers: Seq::empty(),
                content_length: 0,
            },
        )
    } else {
        None
    }
}

/// The name and the value in a header line. The name is in lower case.
pub open spec fn header_in(line: Seq<char>) -> Option<(Seq<char>, Seq<char>)> {
    let raw = trimmed(line);
    match find_from(raw, seq![':'], 0) {
        Some(i) => Some((lowered(trimmed(raw.take(i))), trimmed(raw.skip(i + 1)))),
        None => None,
    }
}

/// The length that a header value declares; zero where it declares none.
pub open spec fn length_in(value: Seq<char>) -> usize {
    match count_of(value) {
        Some(n) => n,
        None => 0,
    }
}

/// The length of the body that the last `content-length` header declares.
pub open spec fn declared_length(headers: Seq<(Seq<char>, Seq<char>)>) -> usize
    decreases headers.len(),
{
    if headers.len() == 0 {
        0
    } else if headers.last().0 == "content-length"@ {
        length_in(headers.last().1)
    } else {
        declared_length(headers.drop_last())
    }
}

/// The head after one more line. A line that is no header changes nothing.
pub open spec fn head_step(head: HeadView, line: Seq<char>) -> HeadView {
    match header_in(line) {
        Some((name, value)) => HeadView {
            headers: head.headers.push((name, value)),
            content_length: if name == "content-length"@ {
                length_in(value)
            } else {
                head.content_length
            },
            ..head
        },
        None => head,
    }
}

fn split_header(line: &str) -> (header: Option<(String, String)>)
    ensures
        match header {
            Some((name, value)) => header_in(line@) == Some((name@, value@)),
            None => header_in(line@) == None::<(Seq<char>, Seq<char>)>,
        },
{
    let chars = to_chars(trim(line));
    let mut colon: Vec<char> = Vec::new();
    colon.push(':');
    assert(colon@ =~= seq![':']);
    proof {
        lemma_find_from(chars@, colon@, 0);
    }
    match find_chars(&chars, &colon, 0) {
        Some(i) => {
            let name = part(&chars, 0, i);
            let value = part(&chars, i + 1, chars.len());
            assert(name@ =~= chars@.take(i as int));
            assert(value@ =~= chars@.skip(i + 1));
            Some((to_lower(trim(name.as_str())), trim(value.as_str()).to_owned()))
        },
        None => None,
    }
}

impl RequestHead {
    /// The length of the body is the one that the headers declare.
    pub open spec fn wf(&self) -> bool {
        self@.content_length == declared_length(self@.headers)
    }

    /// Reads the first line of a request.
    pub fn start(line: &str) -> (head: Option<RequestHead>)
        ensures
            match head {
                Some(h) => head_start(line@) == Some(h@) && h.wf(),
                None => head_start(line@) == None::<HeadView>,
            },
    {
        let mut parts = words(trim(line));
        assert(texts(parts@).len() == parts@.len());
        if parts.len() < 2 {
            return None;
        }
        parts.truncate(2);
        assert(texts(parts@) =~= words_of(trimmed(line@)).take(2));
        assert(texts(parts@)[0] == parts@[0]@ && texts(parts@)[1] == parts@[1]@);
        let path = parts.swap_remove(1);
        let method = parts.swap_remove(0);
        let head = RequestHead { method, path, headers: Vec::new(), content_length: 0 };
        assert(head@.headers =~= Seq::empty());
        Some(head)
    }

    /// Reads another line of the head. Says whether the head goes on after it: a blank line ends it.
    pub fn push_line(&mut self, line: &str) -> (more: bool)
        ensures
            more == !is_blank(line@),
            final(self)@ == (if more {
                head_step(old(self)@, line@)
            } else {
                old(self)@
            }),
            old(self).wf() ==> final(self).wf(),
    {
        if trim(line).is_empty() {
            return false;
        }
        if let Some((name, value)) = split_header(line) {
            if same_text(name.as_str(), "content-length") {
                self.content_length = match parse_count(value.as_str()) {
                    Some(n) => n,
                    None => 0,
                };
            }
            let ghost before = self.headers@;
            self.headers.push((name, value));
            assert(header_texts(self.headers@) =~= header_texts(before).push((name@, value@)));
            assert(self@.headers.drop_last() =~= header_texts(before));
        }
        true
    }
}

// ── routing ───────────────────────────────────────────────────────────

pub open spec fn responses_path(path: Seq<char>) -> bool {
    path == "/v1/responses"@ || path == "/responses"@
}

pub fn is_responses_path(path: &str) -> (b: bool)
    ensures
        b == responses_path(path@),
{
    same_text(path, "/v1/responses") || same_text(path, "/responses")
}

/// Whether a request is one that the proxy serves.
pub open spec fn served(method: Seq<char>, path: Seq<char>) -> bool {
    method == "POST"@ && responses_path(path)
}

pub fn is_served(method: &str, path: &str) -> (b: bool)
    ensures
        b == served(method@, path@),
{
    same_text(method, "POST") && is_responses_path(path)
}

// ── replies ───────────────────────────────────────────────────────────

/// A complete reply with a JSON body.
pub open spec fn json_reply(code: nat, body: Seq<char>) -> Seq<char> {
    "HTTP/1.1 "@ + decimal(code)
        + " OK\r\nContent-Type: application/json\r\nContent-Length: "@ + decimal(byte_len(body))
        + "\r\n\r\n"@ + body
}

pub fn write_json(code: u16, body: &str) -> (reply: String)
    ensures
        reply@ == json_reply(code as nat, body@),
{
    "HTTP/1.1 ".to_owned().concat(to_decimal(code as u64).as_str()).concat(
        " OK\r\nContent-Type: application/json\r\nContent-Length: ",
    ).concat(to_decimal(bytes_of(body) as u64).as_str()).concat("\r\n\r\n").concat(body)
}

/// The reply to a request that the proxy does not serve.
pub open spec fn not_served() -> Seq<char> {
    json_reply(404, "{\"error\":\"not_found\"}"@)
}

pub fn write_404() -> (reply: String)
    ensures
        reply@ == not_served(),
{
    write_json(404, "{\"error\":\"not_found\"}")
}

/// The body that reports a failure.
pub open spec fn error_body(message: Seq<char>) -> Seq<char> {
    json_text(empty_object().with_text("error"@, message))
}

/// The reply when the upstream has failed.
pub open spec fn failure_reply(message: Seq<char>) -> Seq<char> {
    json_reply(502, error_body(message))
}

pub fn write_failure(message: &str) -> (reply: String)
    ensures
        reply@ == failure_reply(message@),
{
    write_json(502, to_json_text(&Json::object().with_text("error", message)).as_str())
}

// ── headers for the record ────────────────────────────────────────────

/// Whether the value of a header is nobody's business.
pub open spec fn is_secret(name: Seq<char>) -> bool {
    name == "authorization"@ || name == "api-key"@ || name == "x-api-key"@
}

pub open spec fn shown(header: (Seq<char>, Seq<char>)) -> Seq<char> {
    if is_secret(header.0) {
        "[redacted]"@
    } else {
        header.1
    }
}

/// The headers as an object, without the secrets in them.
pub open spec fn shown_headers(headers: Seq<(Seq<char>, Seq<char>)>) -> JsonView
    decreases headers.len(),
{
    if headers.len() == 0 {
        empty_object()
    } else {
        shown_headers(headers.drop_last()).with_text(headers.last().0, shown(headers.last()))
    }
}

pub fn headers_json(headers: &[(String, String)]) -> (text: String)
    ensures
        text@ == json_text(shown_headers(header_texts(headers@))),
{
    let ghost all = header_texts(headers@);
    let mut object = Json::object();
    let mut i: usize = 0;
    assert(all.take(0) =~= Seq::empty());
    while i < headers.len()
        invariant
            i <= headers@.len(),
            all == header_texts(headers@),
            object@ == shown_headers(all.take(i as int)),
        decreases headers@.len() - i,
    {
        assert(all.take(i + 1).drop_last() =~= all.take(i as int));
        assert(all.take(i + 1).last() == all[i as int]);
        let name = headers[i].0.as_str();
        if same_text(name, "authorization") || same_text(name, "api-key") || same_text(
            name,
            "x-api-key",
        ) {
            object = object.with_text(name, "[redacted]");
        } else {
            object = object.with_text(name, headers[i].1.as_str());
        }
        i += 1;
    }
    assert(all.take(i as int) =~= all);
    to_json_text(&object)
}

/// What the record keeps of the headers does not depend on the secrets in them.
pub proof fn law_secrets_stay_out(
    headers: Seq<(Seq<char>, Seq<char>)>,
    others: Seq<(Seq<char>, Seq<char>)>,
)
    requires
        headers.len() == others.len(),
        forall|i: int|
            0 <= i < headers.len() ==> {
                &&& (#[trigger] headers[i]).0 == others[i].0
                &&& is_secret(headers[i].0) || headers[i].1 == others[i].1
            },
    ensures
        shown_headers(headers) == shown_headers(others),
    decreases headers.len(),
{
    if headers.len() > 0 {
        assert(headers.last() == headers[headers.len() - 1]);
        law_secrets_stay_out(headers.drop_last(), others.drop_last());
    }
}

/// Where a header with a secret comes, the record says that it did, and no more.
pub proof fn law_secrets_are_redacted(headers: Seq<(Seq<char>, Seq<char>)>, i: int)
    requires
        0 <= i < headers.len(),
        is_secret(headers[i].0),
    ensures
        shown_headers(headers).text(headers[i].0) == Some("[redacted]"@),
    decreases headers.len(),
{
    lemma_shown_headers_is_object(headers.drop_last());
    if i < headers.len() - 1 {
        law_secrets_are_redacted(headers.drop_last(), i);
    }
}

proof fn lemma_shown_headers_is_object(headers: Seq<(Seq<char>, Seq<char>)>)
    ensures
        shown_headers(headers) is Object,
    decreases headers.len(),
{
    if headers.len() > 0 {
        lemma_shown_headers_is_object(headers.drop_last());
    }
}

} // verus!

//! Parsing one request from the bytes a client sent.
use vstd::prelude::*;
use crate::bytes::{bytes_eq, copy_range};
use crate::http::{find_header, headers_view, header_lookup, HttpMethod, HttpRequest, RequestView};
use crate::literals::{
    content_length_name, crlf, method_delete, method_get, method_post, method_put,
    spec_content_length_name, spec_crlf, spec_method_delete, spec_method_get, spec_method_post,
    spec_method_put,
};

verus! {

/// ASCII whitespace: space, tab, line feed, vertical tab, form feed, carriage return.
pub open spec fn is_ws(c: u8) -> bool {
    c == 32 || (9 <= c && c <= 13)
}

/// The end (exclusive) of the line starting at `i`: just past the first line
/// feed at or after `i`, or the end of the input when there is none.
pub open spec fn line_end(b: Seq<u8>, i: int) -> int
    decreases b.len() - i,
{
    if i < 0 || i >= b.len() {
        b.len() as int
    } else if b[i] == 10 {
        i + 1
    } else {
        line_end(b, i + 1)
    }
}

/// The first position at or after `i` that holds no whitespace (or the end).
pub open spec fn skip_ws(l: Seq<u8>, i: int) -> int
    decreases l.len() - i,
{
    if i < 0 || i >= l.len() {
        l.len() as int
    } else if is_ws(l[i]) {
        skip_ws(l, i + 1)
    } else {
        i
    }
}

/// The first position at or after `i` that holds whitespace (or the end).
pub open spec fn skip_token(l: Seq<u8>, i: int) -> int
    decreases l.len() - i,
{
    if i < 0 || i >= l.len() {
        l.len() as int
    } else if !is_ws(l[i]) {
        skip_token(l, i + 1)
    } else {
        i
    }
}

/// The first position at or after `i` where `": "` begins.
pub open spec fn find_sep(l: Seq<u8>, i: int) -> Option<int>
    decreases l.len() - i,
{
    if i < 0 || i + 1 >= l.len() {
        None
    } else if l[i] == 58 && l[i + 1] == 32 {
        Some(i)
    } else {
        find_sep(l, i + 1)
    }
}

/// The end of `v[..j]` once trailing whitespace is dropped.
pub open spec fn trim_end(v: Seq<u8>, j: int) -> int
    decreases j,
{
    if j <= 0 || j > v.len() {
        0
    } else if is_ws(v[j - 1]) {
        trim_end(v, j - 1)
    } else {
        j
    }
}

/// `v` without leading and trailing whitespace.
pub open spec fn trim(v: Seq<u8>) -> Seq<u8> {
    let s = skip_ws(v, 0);
    let e = trim_end(v, v.len() as int);
    if s < e {
        v.subrange(s, e)
    } else {
        Seq::empty()
    }
}

/// The method a token names.
pub open spec fn method_of(tok: Seq<u8>) -> HttpMethod {
    if tok == spec_method_get() {
        HttpMethod::GET
    } else if tok == spec_method_put() {
        HttpMethod::PUT
    } else if tok == spec_method_post() {
        HttpMethod::POST
    } else if tok == spec_method_delete() {
        HttpMethod::DELETE
    } else {
        HttpMethod::Unknown
    }
}

/// The value of a run of ASCII digits.
pub open spec fn digits_value(d: Seq<u8>) -> nat
    decreases d.len(),
{
    if d.len() == 0 {
        0
    } else {
        digits_value(d.drop_last()) * 10 + (d.last() - 48) as nat
    }
}

/// The digits of a length field: an optional leading `+` is allowed.
pub open spec fn length_digits(v: Seq<u8>) -> Seq<u8> {
    if v.len() > 0 && v[0] == 43 {
        v.drop_first()
    } else {
        v
    }
}

/// A non-negative decimal integer that fits in `usize`, if `v` is one.
pub open spec fn parse_length(v: Seq<u8>) -> Option<nat> {
    let d = length_digits(v);
    if d.len() > 0 && (forall|i: int| 0 <= i < d.len() ==> 48 <= #[trigger] d[i] <= 57)
        && digits_value(d) <= usize::MAX {
        Some(digits_value(d))
    } else {
        None
    }
}

/// The header lines from `pos` up to and including the empty line: the pairs
/// they hold, and where the body begins. `None` when a line lacks `": "` or
/// the input ends first.
pub open spec fn parse_headers(b: Seq<u8>, pos: int) -> Option<(Seq<(Seq<u8>, Seq<u8>)>, int)>
    decreases b.len() - pos,
{
    if pos < 0 || pos >= b.len() {
        None
    } else {
        let e = line_end(b, pos);
        let line = b.subrange(pos, e);
        if line == spec_crlf() {
            Some((Seq::empty(), e))
        } else {
            match find_sep(line, 0) {
                None => None,
                Some(k) => if e <= pos || e > b.len() {
                    None
                } else {
                    match parse_headers(b, e) {
                        None => None,
                        Some((hs, bs)) => Some(
                            (
                                seq![(line.subrange(0, k), trim(line.subrange(k + 2, line.len() as int)))]
                                    + hs,
                                bs,
                            ),
                        ),
                    }
                },
            }
        }
    }
}

/// The request that the bytes `b` hold, if they hold one.
///
/// The first line carries the method and the target as its first two
/// whitespace-separated tokens. Header lines follow up to an empty line. When
/// a `Content-Length` header is present its value must be a decimal integer,
/// and exactly that many bytes after the header block form the body.
pub open spec fn parse_request(b: Seq<u8>) -> Option<RequestView> {
    let e0 = line_end(b, 0);
    let l = b.subrange(0, e0);
    let s1 = skip_ws(l, 0);
    let e1 = skip_token(l, s1);
    let s2 = skip_ws(l, e1);
    let e2 = skip_token(l, s2);
    if s2 >= l.len() {
        None
    } else {
        match parse_headers(b, e0) {
            None => None,
            Some((hs, bs)) => {
                let head = RequestView {
                    method: method_of(l.subrange(s1, e1)),
                    target: l.subrange(s2, e2),
                    headers: hs,
                    body: None,
                };
                match header_lookup(hs, spec_content_length_name()) {
                    None => Some(head),
                    Some(v) => match parse_length(v) {
                        None => None,
                        Some(n) => if bs + n <= b.len() {
                            Some(RequestView { body: Some(b.subrange(bs, bs + n)), ..head })
                        } else {
                            None
                        },
                    },
                }
            },
        }
    }
}

fn find_line_end(b: &[u8], i: usize) -> (r: usize)
    requires
        i <= b@.len(),
    ensures
        r as int == line_end(b@, i as int),
        i <= r <= b@.len(),
{
    let mut j: usize = i;
    while j < b.len()
        invariant
            i <= j <= b@.len(),
            line_end(b@, j as int) == line_end(b@, i as int),
        decreases b@.len() - j,
    {
        if b[j] == 10u8 {
            return j + 1;
        }
        j = j + 1;
    }
    j
}

fn is_ws_byte(c: u8) -> (r: bool)
    ensures
        r == is_ws(c),
{
    c == 32u8 || (9u8 <= c && c <= 13u8)
}

fn skip_ws_from(l: &[u8], i: usize) -> (r: usize)
    requires
        i <= l@.len(),
    ensures
        r as int == skip_ws(l@, i as int),
        i <= r <= l@.len(),
{
    let mut j: usize = i;
    while j < l.len()
        invariant
            i <= j <= l@.len(),
            skip_ws(l@, j as int) == skip_ws(l@, i as int),
        decreases l@.len() - j,
    {
        if !is_ws_byte(l[j]) {
            return j;
        }
        j = j + 1;
    }
    j
}

fn skip_token_from(l: &[u8], i: usize) -> (r: usize)
    requires
        i <= l@.len(),
    ensures
        r as int == skip_token(l@, i as int),
        i <= r <= l@.len(),
{
    let mut j: usize = i;
    while j < l.len()
        invariant
            i <= j <= l@.len(),
            skip_token(l@, j as int) == skip_token(l@, i as int),
        decreases l@.len() - j,
    {
        if is_ws_byte(l[j]) {
            return j;
        }
        j = j + 1;
    }
    j
}

fn find_separator(l: &[u8]) -> (r: Option<usize>)
    ensures
        r.is_none() == find_sep(l@, 0).is_none(),
        r.is_some() ==> r.unwrap() as int == find_sep(l@, 0).unwrap() && r.unwrap() + 2
            <= l@.len(),
{
    if l.len() < 2 {
        return None;
    }
    let mut i: usize = 0;
    while i < l.len() - 1
        invariant
            l@.len() >= 2,
            find_sep(l@, i as int) == find_sep(l@, 0),
        decreases l@.len() - i,
    {
        if l[i] == 58u8 && l[i + 1] == 32u8 {
            return Some(i);
        }
        i = i + 1;
    }
    None
}

fn trim_bytes(v: &[u8]) -> (r: Vec<u8>)
    ensures
        r@ == trim(v@),
{
    let s = skip_ws_from(v, 0);
    let mut e: usize = v.len();
    while e > 0 && is_ws_byte(v[e - 1])
        invariant
            e <= v@.len(),
            trim_end(v@, e as int) == trim_end(v@, v@.len() as int),
        decreases e,
    {
        e = e - 1;
    }
    if s < e {
        copy_range(v, s, e)
    } else {
        Vec::new()
    }
}

fn method_from_token(tok: &[u8]) -> (r: HttpMethod)
    ensures
        r == method_of(tok@),
{
    if bytes_eq(tok, method_get().as_slice()) {
        HttpMethod::GET
    } else if bytes_eq(tok, method_put().as_slice()) {
        HttpMethod::PUT
    } else if bytes_eq(tok, method_post().as_slice()) {
        HttpMethod::POST
    } else if bytes_eq(tok, method_delete().as_slice()) {
        HttpMethod::DELETE
    } else {
        HttpMethod::Unknown
    }
}

proof fn lemma_digits_value_grows(d: Seq<u8>, i: int, j: int)
    requires
        0 <= i <= j <= d.len(),
        forall|k: int| 0 <= k < d.len() ==> 48 <= #[trigger] d[k] <= 57,
    ensures
        digits_value(d.subrange(0, i)) <= digits_value(d.subrange(0, j)),
    decreases j - i,
{
    if i < j {
        lemma_digits_value_grows(d, i, j - 1);
        assert(d.subrange(0, j).drop_last() =~= d.subrange(0, j - 1));
    }
}

/// Reads a length field: an optional `+` and then decimal digits whose value
/// fits in `usize`.
pub fn parse_length_field(v: &[u8]) -> (r: Option<usize>)
    ensures
        r.is_none() == parse_length(v@).is_none(),
        r.is_some() ==> r.unwrap() as nat == parse_length(v@).unwrap(),
{
    let start: usize = if v.len() > 0 && v[0] == 43u8 {
        1
    } else {
        0
    };
    let ghost d = length_digits(v@);
    proof {
        assert(d =~= v@.subrange(start as int, v@.len() as int));
    }
    if start == v.len() {
        return None;
    }
    let mut acc: usize = 0;
    let mut i: usize = start;
    while i < v.len()
        invariant
            start <= i <= v@.len(),
            d == length_digits(v@),
            d =~= v@.subrange(start as int, v@.len() as int),
            d.len() > 0,
            forall|k: int| 0 <= k < i - start ==> 48 <= #[trigger] d[k] <= 57,
            acc as nat == digits_value(d.subrange(0, i - start)),
        decreases v@.len() - i,
    {
        let c = v[i];
        if c < 48u8 || c > 57u8 {
            assert(d[i - start] == c);
            assert(!(forall|k: int| 0 <= k < d.len() ==> 48 <= #[trigger] d[k] <= 57));
            return None;
        }
        proof {
            assert(d.subrange(0, i - start + 1).drop_last() =~= d.subrange(0, i - start));
        }
        let next = match acc.checked_mul(10) {
            Some(m) => m.checked_add((c - 48u8) as usize),
            None => None,
        };
        match next {
            Some(n) => {
                acc = n;
            },
            None => {
                proof {
                    if forall|k: int| 0 <= k < d.len() ==> 48 <= #[trigger] d[k] <= 57 {
                        lemma_digits_value_grows(d, i - start + 1, d.len() as int);
                        assert(d.subrange(0, d.len() as int) =~= d);
                    }
                }
                return None;
            },
        }
        i = i + 1;
    }
    proof {
        assert(d.subrange(0, d.len() as int) =~= d);
    }
    Some(acc)
}

/// The header block that starts at `start`: its pairs and where the body
/// begins (see `parse_headers`).
fn read_headers(input: &[u8], start: usize) -> (r: Option<(Vec<(Vec<u8>, Vec<u8>)>, usize)>)
    requires
        start <= input@.len(),
    ensures
        r.is_none() == parse_headers(input@, start as int).is_none(),
        r.is_some() ==> r.unwrap().1 <= input@.len() && parse_headers(input@, start as int)
            == Some((headers_view(&r.unwrap().0), r.unwrap().1 as int)),
{
    let mut headers: Vec<(Vec<u8>, Vec<u8>)> = Vec::new();
    let mut pos: usize = start;
    let ghost all = parse_headers(input@, start as int);
    let body_start: usize;
    loop
        invariant
            start <= pos <= input@.len(),
            all == parse_headers(input@, start as int),
            all == match parse_headers(input@, pos as int) {
                None => None,
                Some((hs, bs)) => Some((headers_view(&headers) + hs, bs)),
            },
        ensures
            body_start <= input@.len(),
            all == Some((headers_view(&headers), body_start as int)),
        decreases input@.len() - pos,
    {
        if pos >= input.len() {
            assert(parse_headers(input@, pos as int).is_none());
            assert(all.is_none());
            return None;
        }
        let e = find_line_end(input, pos);
        let line = copy_range(input, pos, e);
        if bytes_eq(line.as_slice(), crlf().as_slice()) {
            body_start = e;
            proof {
                assert(headers_view(&headers) + Seq::empty() =~= headers_view(&headers));
            }
            break;
        }
        match find_separator(line.as_slice()) {
            None => {
                return None;
            },
            Some(k) => {
                let name = copy_range(line.as_slice(), 0, k);
                let raw = copy_range(line.as_slice(), k + 2, line.len());
                let value = trim_bytes(raw.as_slice());
                let ghost old_headers = headers_view(&headers);
                headers.push((name, value));
                proof {
                    assert(headers_view(&headers) =~= old_headers.push((name@, value@)));
                    match parse_headers(input@, e as int) {
                        None => {},
                        Some((hs, bs)) => {
                            assert(old_headers + (seq![(name@, value@)] + hs)
                                =~= headers_view(&headers) + hs);
                        },
                    }
                }
                pos = e;
            },
        }
    }
    Some((headers, body_start))
}

/// The body length that the header block of `b` announces: the value of its
/// `Content-Length` header, or 0 when the header block does not parse, has
/// no such header, or its value is no decimal integer.
pub open spec fn announced_length(b: Seq<u8>) -> nat {
    match parse_headers(b, line_end(b, 0)) {
        Some((hs, _)) => match header_lookup(hs, spec_content_length_name()) {
            Some(v) => match parse_length(v) {
                Some(n) => n,
                None => 0,
            },
            None => 0,
        },
        None => 0,
    }
}

/// Parses one request.
pub struct HttpRequestParser;

impl HttpRequestParser {
    /// Whether `line` is the empty line `\r\n` that closes the header block.
    pub fn ends_head(line: &[u8]) -> (r: bool)
        ensures
            r == (line@ == spec_crlf()),
    {
        bytes_eq(line, crlf().as_slice())
    }

    /// How many body bytes the request line and header block in `head` call for.
    pub fn announced_body_length(head: &[u8]) -> (r: usize)
        ensures
            r as nat == announced_length(head@),
    {
        let e0 = find_line_end(head, 0);
        match read_headers(head, e0) {
            None => 0,
            Some((hs, _)) => match find_header(&hs, content_length_name().as_slice()) {
                None => 0,
                Some(i) => match parse_length_field(hs[i].1.as_slice()) {
                    Some(n) => n,
                    None => 0,
                },
            },
        }
    }

    /// The request that `input` holds (see `parse_request`), or `None` when it
    /// holds none: fewer than two tokens on the first line, a header line
    /// without `": "`, no empty line closing the headers, a `Content-Length`
    /// that is no decimal integer, or fewer body bytes than it announces.
    pub fn from_request(input: &[u8]) -> (r: Option<HttpRequest>)
        ensures
            r.is_none() == parse_request(input@).is_none(),
            r.is_some() ==> r.unwrap()@ == parse_request(input@).unwrap(),
    {
        let e0 = find_line_end(input, 0);
        let l = copy_range(input, 0, e0);
        let s1 = skip_ws_from(l.as_slice(), 0);
        let e1 = skip_token_from(l.as_slice(), s1);
        let s2 = skip_ws_from(l.as_slice(), e1);
        let e2 = skip_token_from(l.as_slice(), s2);
        if s2 >= l.len() {
            return None;
        }
        let method_tok = copy_range(l.as_slice(), s1, e1);
        let method = method_from_token(method_tok.as_slice());
        let target = copy_range(l.as_slice(), s2, e2);
        let (headers, body_start) = match read_headers(input, e0) {
            Some(p) => p,
            None => {
                return None;
            },
        };
        let body = match find_header(&headers, content_length_name().as_slice()) {
            None => None,
            Some(idx) => {
                match parse_length_field(headers[idx].1.as_slice()) {
                    None => {
                        return None;
                    },
                    Some(n) => {
                        if n > input.len() - body_start {
                            return None;
                        }
                        Some(copy_range(input, body_start, body_start + n))
                    },
                }
            },
        };
        Some(HttpRequest { method, request_target: target, headers, body })
    }
}

} // verus!

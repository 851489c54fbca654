//! The request and response model.
use vstd::prelude::*;
use crate::bytes::{append_all, bytes_eq, decimal, push_decimal};
use crate::literals::{
    crlf, header_sep, http_version, phrase_created, phrase_not_found, phrase_ok, spec_crlf,
    spec_header_sep, spec_http_version, spec_phrase_created, spec_phrase_not_found, spec_phrase_ok,
};

verus! {

/// A request method. Tokens outside the four known methods parse to `Unknown`,
/// so an uncommon method still gets an answer instead of aborting the parse.
#[derive(Copy, Clone, Debug, PartialEq, Eq, Structural)]
pub enum HttpMethod {
    GET,
    PUT,
    POST,
    DELETE,
    Unknown,
}

/// The statuses this server can answer with.
#[derive(Copy, Clone, Debug, PartialEq, Eq, Structural)]
pub enum StatusKind {
    Success,
    Created,
    NotFound,
}

/// A response status: a numeric code together with its fixed reason phrase.
/// Only 200, 201 and 404 can be represented.
#[derive(Copy, Clone, Debug, PartialEq, Eq, Structural)]
pub struct HttpStatus {
    kind: StatusKind,
}

pub open spec fn is_known_code(code: int) -> bool {
    code == 200 || code == 201 || code == 404
}

pub open spec fn kind_of_code(code: int) -> StatusKind {
    if code == 200 {
        StatusKind::Success
    } else if code == 201 {
        StatusKind::Created
    } else {
        StatusKind::NotFound
    }
}

pub open spec fn code_of_kind(k: StatusKind) -> int {
    match k {
        StatusKind::Success => 200,
        StatusKind::Created => 201,
        StatusKind::NotFound => 404,
    }
}

impl HttpStatus {
    pub closed spec fn spec_kind(self) -> StatusKind {
        self.kind
    }

    pub open spec fn spec_code(self) -> int {
        code_of_kind(self.spec_kind())
    }

    /// The status for `status_code`, if it is one of 200, 201 and 404.
    pub fn from_status_code(status_code: i16) -> (r: Option<HttpStatus>)
        ensures
            r.is_some() == is_known_code(status_code as int),
            r.is_some() ==> r.unwrap().spec_kind() == kind_of_code(status_code as int)
                && r.unwrap().spec_code() == status_code as int,
    {
        let kind = match status_code {
            200 => StatusKind::Success,
            201 => StatusKind::Created,
            404 => StatusKind::NotFound,
            _ => {
                return None;
            },
        };
        Some(HttpStatus { kind })
    }

    pub fn kind(&self) -> (r: StatusKind)
        ensures
            r == self.spec_kind(),
    {
        self.kind
    }

    /// The numeric code.
    pub fn code(&self) -> (r: i16)
        ensures
            r as int == self.spec_code(),
    {
        match self.kind {
            StatusKind::Success => 200,
            StatusKind::Created => 201,
            StatusKind::NotFound => 404,
        }
    }
}

/// Header fields in the order they were given, as (name, value) pairs.
pub type Headers = Vec<(Vec<u8>, Vec<u8>)>;

/// The (name, value) pairs of a header list.
pub open spec fn headers_view(hs: &Headers) -> Seq<(Seq<u8>, Seq<u8>)> {
    Seq::new(hs@.len(), |i: int| (hs@[i].0@, hs@[i].1@))
}

/// The bytes of an optional body.
pub open spec fn body_view(b: &Option<Vec<u8>>) -> Option<Seq<u8>> {
    match b {
        Some(v) => Some(v@),
        None => None,
    }
}

/// The value of header `name`: the last pair with that name wins.
pub open spec fn header_lookup(hs: Seq<(Seq<u8>, Seq<u8>)>, name: Seq<u8>) -> Option<Seq<u8>>
    decreases hs.len(),
{
    if hs.len() == 0 {
        None
    } else if hs.last().0 == name {
        Some(hs.last().1)
    } else {
        header_lookup(hs.drop_last(), name)
    }
}

/// The position of the pair that `header_lookup` answers with, if any.
pub fn find_header(hs: &Headers, name: &[u8]) -> (r: Option<usize>)
    ensures
        r.is_none() == header_lookup(headers_view(&hs), name@).is_none(),
        r.is_some() ==> {
            &&& r.unwrap() < hs@.len()
            &&& hs@[r.unwrap() as int].0@ == name@
            &&& header_lookup(headers_view(&hs), name@) == Some(hs@[r.unwrap() as int].1@)
        },
{
    let mut i: usize = hs.len();
    proof {
        assert(headers_view(&hs).subrange(0, i as int) =~= headers_view(&hs));
    }
    while i > 0
        invariant
            i <= hs@.len(),
            header_lookup(headers_view(&hs), name@) == header_lookup(
                headers_view(&hs).subrange(0, i as int),
                name@,
            ),
        decreases i,
    {
        let ghost prefix = headers_view(&hs).subrange(0, i as int);
        assert(prefix.drop_last() =~= headers_view(&hs).subrange(0, i - 1));
        assert(prefix.last() == (hs@[i - 1].0@, hs@[i - 1].1@));
        if bytes_eq(hs[i - 1].0.as_slice(), name) {
            return Some(i - 1);
        }
        i = i - 1;
    }
    None
}

/// A parsed request.
#[derive(Clone, Debug)]
pub struct HttpRequest {
    pub method: HttpMethod,
    /// The request target exactly as it stood on the request line.
    pub request_target: Vec<u8>,
    pub headers: Headers,
    /// Present exactly when a `Content-Length` header announced it and that
    /// many bytes followed the header block.
    pub body: Option<Vec<u8>>,
}

/// What a request holds, as plain sequences.
pub struct RequestView {
    pub method: HttpMethod,
    pub target: Seq<u8>,
    pub headers: Seq<(Seq<u8>, Seq<u8>)>,
    pub body: Option<Seq<u8>>,
}

impl View for HttpRequest {
    type V = RequestView;

    open spec fn view(&self) -> RequestView {
        RequestView {
            method: self.method,
            target: self.request_target@,
            headers: headers_view(&self.headers),
            body: body_view(&self.body),
        }
    }
}

/// A response: the protocol version is always `HTTP/1.1`.
#[derive(Clone, Debug)]
pub struct HttpResponse {
    pub status: HttpStatus,
    /// Every pair is emitted, in this order.
    pub headers: Headers,
    pub body: Option<Vec<u8>>,
}

/// What a response holds, as plain sequences.
pub struct ResponseView {
    pub kind: StatusKind,
    pub headers: Seq<(Seq<u8>, Seq<u8>)>,
    pub body: Option<Seq<u8>>,
}

impl View for HttpResponse {
    type V = ResponseView;

    open spec fn view(&self) -> ResponseView {
        ResponseView {
            kind: self.status.spec_kind(),
            headers: headers_view(&self.headers),
            body: body_view(&self.body),
        }
    }
}

/// The reason phrase that goes with a status.
pub open spec fn spec_phrase(k: StatusKind) -> Seq<u8> {
    match k {
        StatusKind::Success => spec_phrase_ok(),
        StatusKind::Created => spec_phrase_created(),
        StatusKind::NotFound => spec_phrase_not_found(),
    }
}

/// The header block: one `name: value\r\n` line per pair, in order.
pub open spec fn spec_header_lines(hs: Seq<(Seq<u8>, Seq<u8>)>) -> Seq<u8>
    decreases hs.len(),
{
    if hs.len() == 0 {
        Seq::empty()
    } else {
        spec_header_lines(hs.drop_last()) + hs.last().0 + spec_header_sep() + hs.last().1
            + spec_crlf()
    }
}

/// The wire form of a response: status line, header lines, then (only with
/// a body) a blank line and the body followed by `\r\n`, then a final `\r\n`.
pub open spec fn spec_serialize(
    k: StatusKind,
    hs: Seq<(Seq<u8>, Seq<u8>)>,
    body: Option<Seq<u8>>,
) -> Seq<u8> {
    let status_line = spec_http_version() + seq![32u8] + decimal(code_of_kind(k) as nat)
        + seq![32u8] + spec_phrase(k) + spec_crlf();
    let body_part = match body {
        Some(b) => spec_crlf() + b + spec_crlf(),
        None => Seq::empty(),
    };
    status_line + spec_header_lines(hs) + body_part + spec_crlf()
}

impl HttpResponse {
    /// A response with the status `status_code`, which must be 200, 201 or 404.
    pub fn new(status_code: i16, headers: Headers, body: Option<Vec<u8>>) -> (r: HttpResponse)
        requires
            is_known_code(status_code as int),
        ensures
            r.status.spec_kind() == kind_of_code(status_code as int),
            r.headers == headers,
            r.body == body,
    {
        let status = match HttpStatus::from_status_code(status_code) {
            Some(s) => s,
            None => HttpStatus { kind: StatusKind::NotFound },
        };
        HttpResponse { status, headers, body }
    }

    /// `404 Not Found` with no headers and no body.
    pub fn not_found() -> (r: HttpResponse)
        ensures
            r.status.spec_kind() == StatusKind::NotFound,
            r@ == (ResponseView { kind: StatusKind::NotFound, headers: Seq::empty(), body: None }),
    {
        let r = HttpResponse::new(404, Vec::new(), None);
        proof {
            assert(r@.headers =~= Seq::<(Seq<u8>, Seq<u8>)>::empty());
        }
        r
    }

    /// The exact bytes to send for this response.
    pub fn to_bytes(&self) -> (r: Vec<u8>)
        ensures
            r@ == spec_serialize(
                self.status.spec_kind(),
                headers_view(&self.headers),
                body_view(&self.body),
            ),
    {
        let mut out = http_version();
        out.push(32u8);
        push_decimal(self.status.code() as usize, &mut out);
        out.push(32u8);
        let phrase = match self.status.kind() {
            StatusKind::Success => phrase_ok(),
            StatusKind::Created => phrase_created(),
            StatusKind::NotFound => phrase_not_found(),
        };
        append_all(&mut out, phrase.as_slice());
        append_all(&mut out, crlf().as_slice());
        let ghost status_line = out@;
        let mut i: usize = 0;
        while i < self.headers.len()
            invariant
                i <= self.headers@.len(),
                out@ == status_line + spec_header_lines(
                    headers_view(&self.headers).subrange(0, i as int),
                ),
            decreases self.headers@.len() - i,
        {
            let ghost before = out@;
            append_all(&mut out, self.headers[i].0.as_slice());
            append_all(&mut out, header_sep().as_slice());
            append_all(&mut out, self.headers[i].1.as_slice());
            append_all(&mut out, crlf().as_slice());
            proof {
                let hv = headers_view(&self.headers).subrange(0, i + 1);
                assert(hv.drop_last() =~= headers_view(&self.headers).subrange(0, i as int));
                assert(out@ =~= status_line + spec_header_lines(hv));
            }
            i = i + 1;
        }
        proof {
            assert(headers_view(&self.headers).subrange(0, i as int) =~= headers_view(&self.headers));
        }
        let ghost with_headers = out@;
        match &self.body {
            Some(b) => {
                append_all(&mut out, crlf().as_slice());
                append_all(&mut out, b.as_slice());
                append_all(&mut out, crlf().as_slice());
            },
            None => {},
        }
        append_all(&mut out, crlf().as_slice());
        proof {
            assert(out@ =~= spec_serialize(
                self.status.spec_kind(),
                headers_view(&self.headers),
                body_view(&self.body),
            ));
        }
        out
    }
}

} // verus!

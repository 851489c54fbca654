//! The fixed route table: what to answer, or which file operation to run
//! before answering.
use vstd::prelude::*;
use crate::bytes::{append_all, bytes_eq, copy_range, decimal, push_decimal, starts_with};
use crate::http::{
    body_view, find_header, header_lookup, spec_header_lines, spec_serialize, HttpMethod,
    HttpRequest, HttpResponse, RequestView, ResponseView, StatusKind,
};
use crate::literals::{
    content_length_name, content_type_name, echo_prefix, files_prefix, octet_stream, root_path,
    spec_content_length_name, spec_content_type_name, spec_crlf, spec_echo_prefix,
    spec_files_prefix, spec_header_sep, spec_http_version, spec_octet_stream, spec_phrase_ok,
    spec_root_path, spec_text_plain, spec_user_agent_name, spec_user_agent_path, text_plain,
    user_agent_name, user_agent_path,
};
use crate::parser::{line_end, parse_headers, parse_length, parse_request};

verus! {

/// What the server does for a request: answer at once, or first read or
/// write a file (the path is the files directory followed by the name).
pub enum RouteAction {
    Respond(HttpResponse),
    ReadFile(Vec<u8>),
    WriteFile(Vec<u8>, Vec<u8>),
}

/// A `RouteAction` as plain sequences.
pub enum ActionView {
    Respond(ResponseView),
    ReadFile(Seq<u8>),
    WriteFile(Seq<u8>, Seq<u8>),
}

impl View for RouteAction {
    type V = ActionView;

    open spec fn view(&self) -> ActionView {
        match self {
            RouteAction::Respond(r) => ActionView::Respond(r@),
            RouteAction::ReadFile(p) => ActionView::ReadFile(p@),
            RouteAction::WriteFile(p, b) => ActionView::WriteFile(p@, b@),
        }
    }
}

pub open spec fn not_found_view() -> ResponseView {
    ResponseView { kind: StatusKind::NotFound, headers: Seq::empty(), body: None }
}

pub open spec fn has_prefix(s: Seq<u8>, prefix: Seq<u8>) -> bool {
    prefix.len() <= s.len() && s.subrange(0, prefix.len() as int) == prefix
}

/// What follows `prefix` in `s` (which starts with it).
pub open spec fn after_prefix(s: Seq<u8>, prefix: Seq<u8>) -> Seq<u8> {
    s.subrange(prefix.len() as int, s.len() as int)
}

/// A 200 answer carrying `body` with the given media type and its byte length.
pub open spec fn content_view(media: Seq<u8>, body: Seq<u8>) -> ResponseView {
    ResponseView {
        kind: StatusKind::Success,
        headers: seq![
            (spec_content_type_name(), media),
            (spec_content_length_name(), decimal(body.len())),
        ],
        body: Some(body),
    }
}

/// The answer to `GET /echo/{s}`: `s` as plain text, or an empty 200 when `s`
/// is empty.
pub open spec fn echo_view(path: Seq<u8>) -> ResponseView {
    if has_prefix(path, spec_echo_prefix()) && after_prefix(path, spec_echo_prefix()).len() > 0 {
        content_view(spec_text_plain(), after_prefix(path, spec_echo_prefix()))
    } else {
        ResponseView { kind: StatusKind::Success, headers: Seq::empty(), body: None }
    }
}

/// The answer to `GET /user-agent`: the `User-Agent` value as plain text, or
/// 404 without that header.
pub open spec fn user_agent_view(headers: Seq<(Seq<u8>, Seq<u8>)>) -> ResponseView {
    match header_lookup(headers, spec_user_agent_name()) {
        Some(v) => content_view(spec_text_plain(), v),
        None => not_found_view(),
    }
}

/// The answer once a file was read (`Some` with its bytes) or could not be.
pub open spec fn file_read_view(content: Option<Seq<u8>>) -> ResponseView {
    match content {
        Some(c) => content_view(spec_octet_stream(), c),
        None => not_found_view(),
    }
}

/// The answer once a file was written, or could not be.
pub open spec fn file_write_view(written: bool) -> ResponseView {
    if written {
        ResponseView { kind: StatusKind::Created, headers: Seq::empty(), body: None }
    } else {
        not_found_view()
    }
}

/// Whether a method and target fall under one of the defined routes.
pub open spec fn is_defined_route(m: HttpMethod, target: Seq<u8>) -> bool {
    ||| m == HttpMethod::GET && (target == spec_root_path() || target == spec_user_agent_path()
        || has_prefix(target, spec_echo_prefix()) || has_prefix(target, spec_files_prefix()))
    ||| m == HttpMethod::POST && has_prefix(target, spec_files_prefix())
}

/// What the server does for a parsed request, with files under `dir`.
pub open spec fn route(dir: Seq<u8>, req: RequestView) -> ActionView {
    let t = req.target;
    let name = after_prefix(t, spec_files_prefix());
    if req.method == HttpMethod::GET {
        if t == spec_root_path() {
            ActionView::Respond(
                ResponseView { kind: StatusKind::Success, headers: Seq::empty(), body: None },
            )
        } else if t == spec_user_agent_path() {
            ActionView::Respond(user_agent_view(req.headers))
        } else if has_prefix(t, spec_echo_prefix()) {
            ActionView::Respond(echo_view(t))
        } else if has_prefix(t, spec_files_prefix()) {
            if name.len() == 0 {
                ActionView::Respond(not_found_view())
            } else {
                ActionView::ReadFile(dir + name)
            }
        } else {
            ActionView::Respond(not_found_view())
        }
    } else if req.method == HttpMethod::POST && has_prefix(t, spec_files_prefix()) {
        match req.body {
            Some(b) => if name.len() == 0 {
                ActionView::Respond(not_found_view())
            } else {
                ActionView::WriteFile(dir + name, b)
            },
            None => ActionView::Respond(not_found_view()),
        }
    } else {
        ActionView::Respond(not_found_view())
    }
}

/// What the server does for the outcome of parsing: a request that did not
/// parse is answered with 404.
pub open spec fn handle(dir: Seq<u8>, req: Option<RequestView>) -> ActionView {
    match req {
        Some(r) => route(dir, r),
        None => ActionView::Respond(not_found_view()),
    }
}

fn content_response(media: Vec<u8>, body: Vec<u8>) -> (r: HttpResponse)
    ensures
        r@ == content_view(media@, body@),
{
    let mut len_text: Vec<u8> = Vec::new();
    push_decimal(body.len(), &mut len_text);
    proof {
        assert(len_text@ =~= decimal(body@.len()));
    }
    let headers = vec![(content_type_name(), media), (content_length_name(), len_text)];
    let r = HttpResponse::new(200, headers, Some(body));
    proof {
        assert(r@.headers =~= content_view(media@, body@).headers);
    }
    r
}

fn empty_response(status_code: i16) -> (r: HttpResponse)
    requires
        status_code == 200 || status_code == 201,
    ensures
        r@ == (ResponseView {
            kind: if status_code == 200 {
                StatusKind::Success
            } else {
                StatusKind::Created
            },
            headers: Seq::empty(),
            body: None,
        }),
{
    let r = HttpResponse::new(status_code, Vec::new(), None);
    proof {
        assert(r@.headers =~= Seq::<(Seq<u8>, Seq<u8>)>::empty());
    }
    r
}

/// What follows `prefix` in `s`, when `s` starts with it.
fn strip_prefix(s: &[u8], prefix: &[u8]) -> (r: Option<Vec<u8>>)
    ensures
        r.is_some() == has_prefix(s@, prefix@),
        r.is_some() ==> r.unwrap()@ == after_prefix(s@, prefix@),
{
    if starts_with(s, prefix) {
        Some(copy_range(s, prefix.len(), s.len()))
    } else {
        None
    }
}

/// The files directory followed by a file name, as given.
fn join_path(dir: &[u8], name: &[u8]) -> (r: Vec<u8>)
    ensures
        r@ == dir@ + name@,
{
    let mut path = copy_range(dir, 0, dir.len());
    proof {
        assert(path@ =~= dir@);
    }
    append_all(&mut path, name);
    path
}

/// The answer to `GET /echo/{s}`.
pub fn response_for_echo_route(path: &[u8]) -> (r: HttpResponse)
    ensures
        r@ == echo_view(path@),
{
    match strip_prefix(path, echo_prefix().as_slice()) {
        Some(suffix) => if suffix.len() > 0 {
            content_response(text_plain(), suffix)
        } else {
            empty_response(200)
        },
        None => empty_response(200),
    }
}

/// The answer to `GET /user-agent`.
pub fn response_for_user_agent_route(request: &HttpRequest) -> (r: HttpResponse)
    ensures
        r@ == user_agent_view(request@.headers),
{
    match find_header(&request.headers, user_agent_name().as_slice()) {
        Some(i) => {
            let value = copy_range(request.headers[i].1.as_slice(), 0, request.headers[i].1.len());
            proof {
                assert(value@ =~= request.headers@[i as int].1@);
            }
            content_response(text_plain(), value)
        },
        None => HttpResponse::not_found(),
    }
}

/// The answer for `GET /files/{name}` once the file was read: `Some` with its
/// bytes, or `None` when it could not be read.
pub fn file_read_response(content: Option<Vec<u8>>) -> (r: HttpResponse)
    ensures
        r@ == file_read_view(body_view(&content)),
{
    match content {
        Some(c) => content_response(octet_stream(), c),
        None => HttpResponse::not_found(),
    }
}

/// The answer for `POST /files/{name}` once the write was tried.
pub fn file_write_response(written: bool) -> (r: HttpResponse)
    ensures
        r@ == file_write_view(written),
{
    if written {
        empty_response(201)
    } else {
        HttpResponse::not_found()
    }
}

/// Decides what to do for the outcome of parsing one request, with files
/// under `files_dir`.
pub fn handle_request(files_dir: &[u8], request: Option<HttpRequest>) -> (r: RouteAction)
    ensures
        r@ == handle(
            files_dir@,
            match request {
                Some(q) => Some(q@),
                None => None,
            },
        ),
{
    let request = match request {
        Some(q) => q,
        None => {
            return RouteAction::Respond(HttpResponse::not_found());
        },
    };
    let t = request.request_target.as_slice();
    let files = strip_prefix(t, files_prefix().as_slice());
    match request.method {
        HttpMethod::GET => {
            if bytes_eq(t, root_path().as_slice()) {
                RouteAction::Respond(empty_response(200))
            } else if bytes_eq(t, user_agent_path().as_slice()) {
                RouteAction::Respond(response_for_user_agent_route(&request))
            } else if starts_with(t, echo_prefix().as_slice()) {
                RouteAction::Respond(response_for_echo_route(t))
            } else {
                match files {
                    Some(name) => if name.len() == 0 {
                        RouteAction::Respond(HttpResponse::not_found())
                    } else {
                        let path = join_path(files_dir, name.as_slice());
                        RouteAction::ReadFile(path)
                    },
                    None => RouteAction::Respond(HttpResponse::not_found()),
                }
            }
        },
        HttpMethod::POST => match files {
            Some(name) => match request.body {
                Some(body) => if name.len() == 0 {
                    RouteAction::Respond(HttpResponse::not_found())
                } else {
                    let path = join_path(files_dir, name.as_slice());
                    RouteAction::WriteFile(path, body)
                },
                None => RouteAction::Respond(HttpResponse::not_found()),
            },
            None => RouteAction::Respond(HttpResponse::not_found()),
        },
        _ => RouteAction::Respond(HttpResponse::not_found()),
    }
}

/// Every method and target outside the route table is answered with 404,
/// no headers and no body.
pub proof fn lemma_undefined_route_not_found(dir: Seq<u8>, req: RequestView)
    requires
        !is_defined_route(req.method, req.target),
    ensures
        route(dir, req) == ActionView::Respond(not_found_view()),
{
}

/// `GET /echo/{s}` with a non-empty `s` goes out on the wire with `s` as
/// its body, byte for byte, and `Content-Length` set to the byte length of `s`.
pub proof fn lemma_echo_wire_form(dir: Seq<u8>, req: RequestView, s: Seq<u8>)
    requires
        req.method == HttpMethod::GET,
        req.target == spec_echo_prefix() + s,
        s.len() > 0,
    ensures
        route(dir, req) == ActionView::Respond(echo_view(req.target)),
        spec_serialize(echo_view(req.target).kind, echo_view(req.target).headers, echo_view(req.target).body)
            == spec_http_version() + seq![32u8] + decimal(200) + seq![32u8] + spec_phrase_ok()
            + spec_crlf() + spec_content_type_name() + spec_header_sep() + spec_text_plain()
            + spec_crlf() + spec_content_length_name() + spec_header_sep() + decimal(s.len())
            + spec_crlf() + spec_crlf() + s + spec_crlf() + spec_crlf(),
{
    let t = req.target;
    assert(t[1] == 101u8);
    assert(t != spec_root_path());
    assert(t[1] != spec_user_agent_path()[1]);
    assert(t.subrange(0, 6) =~= spec_echo_prefix());
    assert(after_prefix(t, spec_echo_prefix()) =~= s);
    let v = echo_view(t);
    let hs = v.headers;
    assert(hs.drop_last().drop_last() =~= Seq::<(Seq<u8>, Seq<u8>)>::empty());
    assert(spec_header_lines(hs.drop_last().drop_last()) =~= Seq::<u8>::empty());
    assert(hs.drop_last().last() == (spec_content_type_name(), spec_text_plain()));
    assert(spec_header_lines(hs.drop_last()) =~= spec_content_type_name() + spec_header_sep()
        + spec_text_plain() + spec_crlf());
    assert(spec_serialize(v.kind, v.headers, v.body) =~= spec_http_version() + seq![32u8]
        + decimal(200) + seq![32u8] + spec_phrase_ok() + spec_crlf() + spec_content_type_name()
        + spec_header_sep() + spec_text_plain() + spec_crlf() + spec_content_length_name()
        + spec_header_sep() + decimal(s.len()) + spec_crlf() + spec_crlf() + s + spec_crlf()
        + spec_crlf());
}

/// A `POST /files/{name}` with body `b` writes `b` to the very path that a
/// later `GET /files/{name}` reads, and reading back `b` answers 200 with body
/// `b` typed `application/octet-stream`.
pub proof fn lemma_write_then_read(
    dir: Seq<u8>,
    name: Seq<u8>,
    b: Seq<u8>,
    post: RequestView,
    get: RequestView,
)
    requires
        name.len() > 0,
        post.method == HttpMethod::POST,
        post.target == spec_files_prefix() + name,
        post.body == Some(b),
        get.method == HttpMethod::GET,
        get.target == spec_files_prefix() + name,
    ensures
        route(dir, post) == ActionView::WriteFile(dir + name, b),
        route(dir, get) == ActionView::ReadFile(dir + name),
        file_read_view(Some(b)).kind == StatusKind::Success,
        file_read_view(Some(b)).body == Some(b),
        file_read_view(Some(b)).headers[0] == (spec_content_type_name(), spec_octet_stream()),
{
    let t = get.target;
    assert(t[1] == 102u8);
    assert(t != spec_root_path());
    assert(t[1] != spec_user_agent_path()[1]);
    assert(t[1] != spec_echo_prefix()[1]);
    assert(!has_prefix(t, spec_echo_prefix()));
    assert(t.subrange(0, 7) =~= spec_files_prefix());
    assert(after_prefix(t, spec_files_prefix()) =~= name);
}

/// A request whose `Content-Length` calls for more bytes than follow its
/// header block does not parse, and is answered with 404.
pub proof fn lemma_short_body_not_found(
    dir: Seq<u8>,
    b: Seq<u8>,
    hs: Seq<(Seq<u8>, Seq<u8>)>,
    body_start: int,
    n: nat,
)
    requires
        parse_headers(b, line_end(b, 0)) == Some((hs, body_start)),
        header_lookup(hs, spec_content_length_name()).is_some(),
        parse_length(header_lookup(hs, spec_content_length_name()).unwrap()) == Some(n),
        body_start + n > b.len(),
    ensures
        parse_request(b).is_none(),
        handle(dir, parse_request(b)) == ActionView::Respond(not_found_view()),
{
}

} // verus!

//! The fixed byte strings of the protocol and of the route table.
use vstd::prelude::*;

verus! {

/// The bytes of the line terminator `\r\n`.
pub open spec fn spec_crlf() -> Seq<u8> {
    seq![13, 10]
}

/// A fresh vector holding the bytes of the line terminator `\r\n`.
pub fn crlf() -> (r: Vec<u8>)
    ensures
        r@ == spec_crlf(),
{
    let r: Vec<u8> = vec![13u8, 10u8];
    proof {
        assert(r@ =~= spec_crlf());
    }
    r
}

/// The bytes of the separator `: ` between a header's name and value.
pub open spec fn spec_header_sep() -> Seq<u8> {
    seq![58, 32]
}

/// A fresh vector holding the bytes of the separator `: ` between a header's name and value.
pub fn header_sep() -> (r: Vec<u8>)
    ensures
        r@ == spec_header_sep(),
{
    let r: Vec<u8> = vec![58u8, 32u8];
    proof {
        assert(r@ =~= spec_header_sep());
    }
    r
}

/// The bytes of the protocol version `HTTP/1.1`.
pub open spec fn spec_http_version() -> Seq<u8> {
    seq![72, 84, 84, 80, 47, 49, 46, 49]
}

/// A fresh vector holding the bytes of the protocol version `HTTP/1.1`.
pub fn http_version() -> (r: Vec<u8>)
    ensures
        r@ == spec_http_version(),
{
    let r: Vec<u8> = vec![72u8, 84u8, 84u8, 80u8, 47u8, 49u8, 46u8, 49u8];
    proof {
        assert(r@ =~= spec_http_version());
    }
    r
}

/// The bytes of the header name `Content-Type`.
pub open spec fn spec_content_type_name() -> Seq<u8> {
    seq![67, 111, 110, 116, 101, 110, 116, 45, 84, 121, 112, 101]
}

/// A fresh vector holding the bytes of the header name `Content-Type`.
pub fn content_type_name() -> (r: Vec<u8>)
    ensures
        r@ == spec_content_type_name(),
{
    let r: Vec<u8> = vec![67u8, 111u8, 110u8, 116u8, 101u8, 110u8, 116u8, 45u8, 84u8, 121u8, 112u8, 101u8];
    proof {
        assert(r@ =~= spec_content_type_name());
    }
    r
}

/// The bytes of the header name `Content-Length`.
pub open spec fn spec_content_length_name() -> Seq<u8> {
    seq![67, 111, 110, 116, 101, 110, 116, 45, 76, 101, 110, 103, 116, 104]
}

/// A fresh vector holding the bytes of the header name `Content-Length`.
pub fn content_length_name() -> (r: Vec<u8>)
    ensures
        r@ == spec_content_length_name(),
{
    let r: Vec<u8> = vec![67u8, 111u8, 110u8, 116u8, 101u8, 110u8, 116u8, 45u8, 76u8, 101u8, 110u8, 103u8, 116u8, 104u8];
    proof {
        assert(r@ =~= spec_content_length_name());
    }
    r
}

/// The bytes of the header name `User-Agent`.
pub open spec fn spec_user_agent_name() -> Seq<u8> {
    seq![85, 115, 101, 114, 45, 65, 103, 101, 110, 116]
}

/// A fresh vector holding the bytes of the header name `User-Agent`.
pub fn user_agent_name() -> (r: Vec<u8>)
    ensures
        r@ == spec_user_agent_name(),
{
    let r: Vec<u8> = vec![85u8, 115u8, 101u8, 114u8, 45u8, 65u8, 103u8, 101u8, 110u8, 116u8];
    proof {
        assert(r@ =~= spec_user_agent_name());
    }
    r
}

/// The bytes of the media type `text/plain`.
pub open spec fn spec_text_plain() -> Seq<u8> {
    seq![116, 101, 120, 116, 47, 112, 108, 97, 105, 110]
}

/// A fresh vector holding the bytes of the media type `text/plain`.
pub fn text_plain() -> (r: Vec<u8>)
    ensures
        r@ == spec_text_plain(),
{
    let r: Vec<u8> = vec![116u8, 101u8, 120u8, 116u8, 47u8, 112u8, 108u8, 97u8, 105u8, 110u8];
    proof {
        assert(r@ =~= spec_text_plain());
    }
    r
}

/// The bytes of the media type `application/octet-stream`.
pub open spec fn spec_octet_stream() -> Seq<u8> {
    seq![97, 112, 112, 108, 105, 99, 97, 116, 105, 111, 110, 47, 111, 99, 116, 101, 116, 45, 115, 116, 114, 101, 97, 109]
}

/// A fresh vector holding the bytes of the media type `application/octet-stream`.
pub fn octet_stream() -> (r: Vec<u8>)
    ensures
        r@ == spec_octet_stream(),
{
    let r: Vec<u8> = vec![97u8, 112u8, 112u8, 108u8, 105u8, 99u8, 97u8, 116u8, 105u8, 111u8, 110u8, 47u8, 111u8, 99u8, 116u8, 101u8, 116u8, 45u8, 115u8, 116u8, 114u8, 101u8, 97u8, 109u8];
    proof {
        assert(r@ =~= spec_octet_stream());
    }
    r
}

/// The bytes of the reason phrase `OK`.
pub open spec fn spec_phrase_ok() -> Seq<u8> {
    seq![79, 75]
}

/// A fresh vector holding the bytes of the reason phrase `OK`.
pub fn phrase_ok() -> (r: Vec<u8>)
    ensures
        r@ == spec_phrase_ok(),
{
    let r: Vec<u8> = vec![79u8, 75u8];
    proof {
        assert(r@ =~= spec_phrase_ok());
    }
    r
}

/// The bytes of the reason phrase `Created`.
pub open spec fn spec_phrase_created() -> Seq<u8> {
    seq![67, 114, 101, 97, 116, 101, 100]
}

/// A fresh vector holding the bytes of the reason phrase `Created`.
pub fn phrase_created() -> (r: Vec<u8>)
    ensures
        r@ == spec_phrase_created(),
{
    let r: Vec<u8> = vec![67u8, 114u8, 101u8, 97u8, 116u8, 101u8, 100u8];
    proof {
        assert(r@ =~= spec_phrase_created());
    }
    r
}

/// The bytes of the reason phrase `Not Found`.
pub open spec fn spec_phrase_not_found() -> Seq<u8> {
    seq![78, 111, 116, 32, 70, 111, 117, 110, 100]
}

/// A fresh vector holding the bytes of the reason phrase `Not Found`.
pub fn phrase_not_found() -> (r: Vec<u8>)
    ensures
        r@ == spec_phrase_not_found(),
{
    let r: Vec<u8> = vec![78u8, 111u8, 116u8, 32u8, 70u8, 111u8, 117u8, 110u8, 100u8];
    proof {
        assert(r@ =~= spec_phrase_not_found());
    }
    r
}

/// The bytes of the route prefix `/echo/`.
pub open spec fn spec_echo_prefix() -> Seq<u8> {
    seq![47, 101, 99, 104, 111, 47]
}

/// A fresh vector holding the bytes of the route prefix `/echo/`.
pub fn echo_prefix() -> (r: Vec<u8>)
    ensures
        r@ == spec_echo_prefix(),
{
    let r: Vec<u8> = vec![47u8, 101u8, 99u8, 104u8, 111u8, 47u8];
    proof {
        assert(r@ =~= spec_echo_prefix());
    }
    r
}

/// The bytes of the route prefix `/files/`.
pub open spec fn spec_files_prefix() -> Seq<u8> {
    seq![47, 102, 105, 108, 101, 115, 47]
}

/// A fresh vector holding the bytes of the route prefix `/files/`.
pub fn files_prefix() -> (r: Vec<u8>)
    ensures
        r@ == spec_files_prefix(),
{
    let r: Vec<u8> = vec![47u8, 102u8, 105u8, 108u8, 101u8, 115u8, 47u8];
    proof {
        assert(r@ =~= spec_files_prefix());
    }
    r
}

/// The bytes of the route `/`.
pub open spec fn spec_root_path() -> Seq<u8> {
    seq![47]
}

/// A fresh vector holding the bytes of the route `/`.
pub fn root_path() -> (r: Vec<u8>)
    ensures
        r@ == spec_root_path(),
{
    let r: Vec<u8> = vec![47u8];
    proof {
        assert(r@ =~= spec_root_path());
    }
    r
}

/// The bytes of the route `/user-agent`.
pub open spec fn spec_user_agent_path() -> Seq<u8> {
    seq![47, 117, 115, 101, 114, 45, 97, 103, 101, 110, 116]
}

/// A fresh vector holding the bytes of the route `/user-agent`.
pub fn user_agent_path() -> (r: Vec<u8>)
    ensures
        r@ == spec_user_agent_path(),
{
    let r: Vec<u8> = vec![47u8, 117u8, 115u8, 101u8, 114u8, 45u8, 97u8, 103u8, 101u8, 110u8, 116u8];
    proof {
        assert(r@ =~= spec_user_agent_path());
    }
    r
}

/// The bytes of the method token `GET`.
pub open spec fn spec_method_get() -> Seq<u8> {
    seq![71, 69, 84]
}

/// A fresh vector holding the bytes of the method token `GET`.
pub fn method_get() -> (r: Vec<u8>)
    ensures
        r@ == spec_method_get(),
{
    let r: Vec<u8> = vec![71u8, 69u8, 84u8];
    proof {
        assert(r@ =~= spec_method_get());
    }
    r
}

/// The bytes of the method token `PUT`.
pub open spec fn spec_method_put() -> Seq<u8> {
    seq![80, 85, 84]
}

/// A fresh vector holding the bytes of the method token `PUT`.
pub fn method_put() -> (r: Vec<u8>)
    ensures
        r@ == spec_method_put(),
{
    let r: Vec<u8> = vec![80u8, 85u8, 84u8];
    proof {
        assert(r@ =~= spec_method_put());
    }
    r
}

/// The bytes of the method token `POST`.
pub open spec fn spec_method_post() -> Seq<u8> {
    seq![80, 79, 83, 84]
}

/// A fresh vector holding the bytes of the method token `POST`.
pub fn method_post() -> (r: Vec<u8>)
    ensures
        r@ == spec_method_post(),
{
    let r: Vec<u8> = vec![80u8, 79u8, 83u8, 84u8];
    proof {
        assert(r@ =~= spec_method_post());
    }
    r
}

/// The bytes of the method token `DELETE`.
pub open spec fn spec_method_delete() -> Seq<u8> {
    seq![68, 69, 76, 69, 84, 69]
}

/// A fresh vector holding the bytes of the method token `DELETE`.
pub fn method_delete() -> (r: Vec<u8>)
    ensures
        r@ == spec_method_delete(),
{
    let r: Vec<u8> = vec![68u8, 69u8, 76u8, 69u8, 84u8, 69u8];
    proof {
        assert(r@ =~= spec_method_delete());
    }
    r
}

} // verus!

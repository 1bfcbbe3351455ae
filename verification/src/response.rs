//! HTTP responses, as far as the relay decides them: status, headers and,
//! where it is known at once, the body.

use vstd::prelude::*;
use vstd::string::*;
use vstd::utf8::encode_utf8;
use crate::range::ServedRange;
use crate::text::{decimal, decimal_string, push_decimal, push_from};

verus! {

/// One header line.
#[derive(Debug, PartialEq, Eq)]
pub struct Header {
    pub name: String,
    pub value: String,
}

impl View for Header {
    type V = (Seq<char>, Seq<char>);

    open spec fn view(&self) -> (Seq<char>, Seq<char>) {
        (self.name@, self.value@)
    }
}

/// Status and headers of a response.
#[derive(Debug, PartialEq, Eq)]
pub struct ResponseHead {
    pub status: u16,
    pub headers: Vec<Header>,
}

/// Status and headers of a response, as plain values.
pub struct HeadView {
    pub status: u16,
    pub headers: Seq<(Seq<char>, Seq<char>)>,
}

impl View for ResponseHead {
    type V = HeadView;

    open spec fn view(&self) -> HeadView {
        HeadView { status: self.status, headers: self.headers@.map_values(|h: Header| h@) }
    }
}

/// A response whose body is known at once.
#[derive(Debug, PartialEq, Eq)]
pub struct Reply {
    pub head: ResponseHead,
    pub body: Vec<u8>,
}

/// A whole response, as plain values.
pub struct ReplyView {
    pub head: HeadView,
    pub body: Seq<u8>,
}

impl View for Reply {
    type V = ReplyView;

    open spec fn view(&self) -> ReplyView {
        ReplyView { head: self.head@, body: self.body@ }
    }
}

/// The value of a `Content-Range` header: `bytes <start>-<end - 1>/<size>`.
pub open spec fn content_range(range: ServedRange, size: u64) -> Seq<char> {
    "bytes "@ + decimal(range.start as nat) + seq!['-'] + decimal((range.end - 1) as nat) + seq![
        '/',
    ] + decimal(size as nat)
}

/// Status and headers of the response that streams a file of `size` bytes,
/// or the part of it that `range` names.
pub open spec fn stream_head(size: u64, range: Option<ServedRange>) -> HeadView {
    match range {
        Some(range) => HeadView {
            status: 206,
            headers: seq![
                ("Content-Range"@, content_range(range, size)),
                ("Content-Length"@, decimal((range.end - range.start) as nat)),
                ("Accept-Ranges"@, "bytes"@),
                ("Content-Type"@, "application/octet-stream"@),
            ],
        },
        None => HeadView {
            status: 200,
            headers: seq![
                ("Content-Length"@, decimal(size as nat)),
                ("Accept-Ranges"@, "bytes"@),
                ("Content-Type"@, "application/octet-stream"@),
            ],
        },
    }
}

/// A response without headers.
pub open spec fn bare_reply(status: u16, body: Seq<u8>) -> ReplyView {
    ReplyView { head: HeadView { status, headers: Seq::empty() }, body }
}

/// The answer to a request for a session that is not there.
pub open spec fn not_found_reply() -> ReplyView {
    bare_reply(404, encode_utf8("Not found"@))
}

/// The answer to a request whose `Range` header cannot be read.
pub open spec fn bad_range_reply() -> ReplyView {
    bare_reply(416, Seq::empty())
}

/// The answer to a request for a file that the session holds in its cache.
pub open spec fn cached_reply(content: Seq<u8>) -> ReplyView {
    bare_reply(200, content)
}

/// The answer to a request that the hoster turned down, `message` being what
/// it said.
pub open spec fn failure_reply(message: Seq<char>) -> ReplyView {
    bare_reply(404, encode_utf8(message))
}

fn push_header(headers: &mut Vec<Header>, name: &str, value: String)
    ensures
        final(headers)@.map_values(|h: Header| h@) == old(headers)@.map_values(|h: Header| h@).push(
            (name@, value@),
        ),
{
    let header = Header { name: name.to_owned(), value };
    headers.push(header);
    assert(headers@.map_values(|h: Header| h@) =~= old(headers)@.map_values(|h: Header| h@).push(
        (name@, value@),
    ));
}

fn content_range_value(range: ServedRange, size: u64) -> (value: String)
    requires
        range.wf(),
    ensures
        value@ == content_range(range, size),
{
    proof {
        reveal_strlit("-/");
    }
    let mut value = "bytes ".to_owned();
    push_decimal(&mut value, range.start);
    push_from(&mut value, "-/", 0);
    push_decimal(&mut value, range.end - 1);
    push_from(&mut value, "-/", 1);
    push_decimal(&mut value, size);
    value
}

/// Status and headers of the response that streams a file of `size` bytes:
/// 206 with `Content-Range` and the length of the part where the hoster
/// serves a range, 200 with the length of the file where it does not.
pub fn response_head(size: u64, range: Option<ServedRange>) -> (head: ResponseHead)
    requires
        range matches Some(r) ==> r.wf(),
    ensures
        head@ == stream_head(size, range),
{
    let mut headers: Vec<Header> = Vec::new();
    let status: u16;
    match range {
        Some(r) => {
            status = 206;
            push_header(&mut headers, "Content-Range", content_range_value(r, size));
            push_header(&mut headers, "Content-Length", decimal_string(r.end - r.start));
        },
        None => {
            status = 200;
            push_header(&mut headers, "Content-Length", decimal_string(size));
        },
    }
    push_header(&mut headers, "Accept-Ranges", "bytes".to_owned());
    push_header(&mut headers, "Content-Type", "application/octet-stream".to_owned());
    let head = ResponseHead { status, headers };
    assert(head@.headers =~= stream_head(size, range).headers);
    head
}

fn make_reply(status: u16, body: Vec<u8>) -> (reply: Reply)
    ensures
        reply@ == bare_reply(status, body@),
{
    let headers: Vec<Header> = Vec::new();
    assert(headers@.map_values(|h: Header| h@) =~= Seq::empty());
    Reply { head: ResponseHead { status, headers }, body }
}

impl Reply {
    /// 404 with the body `Not found`.
    pub fn not_found() -> (reply: Reply)
        ensures
            reply@ == not_found_reply(),
    {
        make_reply(404, "Not found".as_bytes_vec())
    }

    /// 416 without a body.
    pub fn bad_range() -> (reply: Reply)
        ensures
            reply@ == bad_range_reply(),
    {
        make_reply(416, Vec::new())
    }

    /// 200 with the cached content as its body.
    pub fn cached(content: Vec<u8>) -> (reply: Reply)
        ensures
            reply@ == cached_reply(content@),
    {
        make_reply(200, content)
    }

    /// 404 with the hoster's message as its body.
    pub fn failure(message: &str) -> (reply: Reply)
        ensures
            reply@ == failure_reply(message@),
    {
        make_reply(404, message.as_bytes_vec())
    }
}

} // verus!

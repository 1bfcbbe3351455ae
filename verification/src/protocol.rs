//! The messages exchanged with a hoster over the control channel and beside
//! each data stream. All of them are JSON documents.

use vstd::prelude::*;
use vstd::string::*;
use crate::json::{
    as_unsigned, json_as_str, json_as_u64, json_content, json_get, json_index, json_is_number, json_is_object,
    json_number, json_object, json_read, json_render, json_set, json_string, json_text, member,
    member_or_null, parse_json, Json, JsonNumber,
};
use crate::range::{ByteRange, ServedRange};

verus! {

/// The document that tells a hoster its session id:
/// `{"jsonrpc":"2.0","method":"setId","params":<session id>}`.
pub open spec fn handshake_doc(session_id: Seq<char>) -> Json {
    Json::Object(
        Map::<Seq<char>, Json>::empty().insert("jsonrpc"@, Json::Text("2.0"@)).insert(
            "method"@,
            Json::Text("setId"@),
        ).insert("params"@, Json::Text(session_id)),
    )
}

/// A range as the protocol writes it: `{"start":N}` or `{"start":N,"end":N}`.
pub open spec fn range_doc(range: ByteRange) -> Json {
    let start = Map::<Seq<char>, Json>::empty().insert(
        "start"@,
        Json::Number(JsonNumber::Unsigned(range.start)),
    );
    match range.end {
        Some(end) => Json::Object(start.insert("end"@, Json::Number(JsonNumber::Unsigned(end)))),
        None => Json::Object(start),
    }
}

/// The `params` of a file request: the path, and the range where one is
/// asked for.
pub open spec fn file_params_doc(filename: Seq<char>, range: Option<ByteRange>) -> Json {
    let path = Map::<Seq<char>, Json>::empty().insert("path"@, Json::Text(seq!['/'] + filename));
    match range {
        Some(range) => Json::Object(path.insert("range"@, range_doc(range))),
        None => Json::Object(path),
    }
}

/// The document that asks a hoster for a file:
/// `{"jsonrpc":"2.0","method":"getFile","params":{"path":"/<filename>"},"id":<request id>}`,
/// with a `range` beside the path where one is asked for.
pub open spec fn file_request_doc(
    filename: Seq<char>,
    request_id: u64,
    range: Option<ByteRange>,
) -> Json {
    Json::Object(
        Map::<Seq<char>, Json>::empty().insert("jsonrpc"@, Json::Text("2.0"@)).insert(
            "method"@,
            Json::Text("getFile"@),
        ).insert("params"@, file_params_doc(filename, range)).insert(
            "id"@,
            Json::Number(JsonNumber::Unsigned(request_id)),
        ),
    )
}

/// A file request carries the range that is asked for, and no range where
/// none is asked for; a range carries its end where it has one, and none
/// where it is open.
pub proof fn lemma_request_carries_range(
    filename: Seq<char>,
    request_id: u64,
    range: Option<ByteRange>,
)
    ensures
        member(member_or_null(file_request_doc(filename, request_id, range), "params"@), "range"@)
            == (match range {
            Some(asked) => Some(range_doc(asked)),
            None => None,
        }),
        range matches Some(asked) ==> as_unsigned(member_or_null(range_doc(asked), "start"@))
            == Some(asked.start) && member(range_doc(asked), "end"@) == (match asked.end {
            Some(end) => Some(Json::Number(JsonNumber::Unsigned(end))),
            None => None,
        }),
{
    reveal_strlit("jsonrpc");
    reveal_strlit("method");
    reveal_strlit("params");
    reveal_strlit("id");
    reveal_strlit("path");
    reveal_strlit("range");
    reveal_strlit("start");
    reveal_strlit("end");
    assert("params"@.len() != "id"@.len());
    assert("path"@.len() != "range"@.len());
    assert("start"@.len() != "end"@.len());
}

/// The handshake for a session, as a document.
pub fn handshake_value(session_id: &str) -> (doc: serde_json::Value)
    ensures
        json_content(doc) == handshake_doc(session_id@),
{
    let mut doc = json_object();
    json_set(&mut doc, "jsonrpc", json_string("2.0"));
    json_set(&mut doc, "method", json_string("setId"));
    json_set(&mut doc, "params", json_string(session_id));
    doc
}

/// The handshake message for a session.
pub fn handshake_message(session_id: &str) -> (message: String)
    ensures
        message@ == json_text(handshake_doc(session_id@)),
{
    json_render(&handshake_value(session_id))
}

fn range_value(range: ByteRange) -> (value: serde_json::Value)
    ensures
        json_content(value) == range_doc(range),
{
    let mut value = json_object();
    json_set(&mut value, "start", json_number(range.start));
    match range.end {
        Some(end) => {
            json_set(&mut value, "end", json_number(end));
        },
        None => {},
    }
    value
}

/// The request for a file, or for a range of it, as a document.
pub fn file_request_value(filename: &str, request_id: u64, range: Option<ByteRange>) -> (doc:
    serde_json::Value)
    ensures
        json_content(doc) == file_request_doc(filename@, request_id, range),
{
    let mut path = "/".to_owned();
    path.append(filename);
    proof {
        reveal_strlit("/");
        assert(path@ =~= seq!['/'] + filename@);
    }
    let mut params = json_object();
    json_set(&mut params, "path", json_string(path.as_str()));
    match range {
        Some(range) => {
            json_set(&mut params, "range", range_value(range));
        },
        None => {},
    }
    let mut doc = json_object();
    json_set(&mut doc, "jsonrpc", json_string("2.0"));
    json_set(&mut doc, "method", json_string("getFile"));
    json_set(&mut doc, "params", params);
    json_set(&mut doc, "id", json_number(request_id));
    doc
}

/// The message that asks a hoster for a file, or for a range of it.
pub fn file_request_message(filename: &str, request_id: u64, range: Option<ByteRange>) -> (message:
    String)
    ensures
        message@ == json_text(file_request_doc(filename@, request_id, range)),
{
    json_render(&file_request_value(filename, request_id, range))
}

/// What a hoster says of a request that it turns down.
#[derive(Debug, PartialEq, Eq)]
pub struct RemoteError {
    pub request_id: u64,
    /// What the error says: the text of its `message`.
    pub message: String,
}

/// What the `message` member of an error says: its characters where it is
/// a string, as they are, without quotes or escapes; its JSON text where it
/// is anything else, which is `null` where the error has no such member.
pub open spec fn message_text(message: Json) -> Seq<char> {
    match message {
        Json::Text(characters) => characters,
        other => json_text(other),
    }
}

/// The error that a control message reports: the message has an `error`
/// member and a non-negative integer as its `id`. What the error says is
/// the text of the `message` member of `error`.
pub open spec fn remote_error_of(doc: Json) -> Option<(u64, Seq<char>)> {
    if member(doc, "error"@) is Some {
        match as_unsigned(member_or_null(doc, "id"@)) {
            Some(request_id) => Some(
                (
                    request_id,
                    message_text(member_or_null(member_or_null(doc, "error"@), "message"@)),
                ),
            ),
            None => None,
        }
    } else {
        None
    }
}

/// Reads what the `message` member of an error says.
pub fn read_message_text(message: &serde_json::Value) -> (text: String)
    ensures
        text@ == message_text(json_content(*message)),
{
    match json_as_str(message) {
        Some(characters) => characters.to_owned(),
        None => json_render(message),
    }
}

/// Reads the error that a control message reports, if it reports one.
pub fn read_remote_error(doc: &serde_json::Value) -> (error: Option<RemoteError>)
    ensures
        match error {
            Some(e) => remote_error_of(json_content(*doc)) == Some((e.request_id, e.message@)),
            None => remote_error_of(json_content(*doc)) is None,
        },
{
    if json_get(doc, "error").is_none() {
        return None;
    }
    match json_as_u64(json_index(doc, "id")) {
        Some(request_id) => {
            let message = read_message_text(json_index(json_index(doc, "error"), "message"));
            Some(RemoteError { request_id, message })
        },
        None => None,
    }
}

/// The error that the bytes of a control message report, if they are a JSON
/// document that reports one.
pub open spec fn decoded_remote_error(message: Seq<u8>) -> Option<(u64, Seq<char>)> {
    match json_read(message) {
        Some(doc) => remote_error_of(doc),
        None => None,
    }
}

/// Decodes a control message. Bytes that are no JSON document report nothing.
pub fn decode_remote_error(message: &[u8]) -> (error: Option<RemoteError>)
    ensures
        match error {
            Some(e) => decoded_remote_error(message@) == Some((e.request_id, e.message@)),
            None => decoded_remote_error(message@) is None,
        },
{
    match parse_json(message) {
        Ok(doc) => read_remote_error(&doc),
        Err(_) => None,
    }
}

/// What a hoster says of a data stream that it opens: the request that the
/// stream answers, the size of the whole file, and the range that the
/// stream carries where it is a part of the file.
#[derive(Clone, Copy, Debug, PartialEq, Eq, Structural)]
pub struct StreamMetadata {
    pub request_id: u64,
    pub size: u64,
    pub range: Option<ServedRange>,
}

impl StreamMetadata {
    pub open spec fn wf(self) -> bool {
        self.range matches Some(range) ==> range.wf()
    }
}

/// The served range in the `range` member of a stream's `result`. A member
/// that is no object counts as no range. Inside the object, `start` must be
/// a non-negative integer; `end` must be one too where it is a number, and
/// is the file's size where it is anything else. `Err` stands for a range
/// that breaks these rules or has no last byte at or after its start.
pub open spec fn served_range_of(range: Json, size: u64) -> Result<Option<ServedRange>, ()> {
    if range is Object {
        let end = if member_or_null(range, "end"@) is Number {
            as_unsigned(member_or_null(range, "end"@))
        } else {
            Some(size)
        };
        match (as_unsigned(member_or_null(range, "start"@)), end) {
            (Some(start), Some(end)) => if (ServedRange { start, end }).wf() {
                Ok(Some(ServedRange { start, end }))
            } else {
                Err(())
            },
            _ => Err(()),
        }
    } else {
        Ok(None)
    }
}

/// What the metadata of a stream says:
/// `{"id":<request id>,"result":{"size":N,"range":{"start":N,"end":N}}}`,
/// `range` and its `end` being optional. `None` for metadata that is not of
/// this form.
pub open spec fn metadata_of(doc: Json) -> Option<StreamMetadata> {
    let result = member_or_null(doc, "result"@);
    match (as_unsigned(member_or_null(doc, "id"@)), as_unsigned(member_or_null(result, "size"@))) {
        (Some(request_id), Some(size)) => match served_range_of(
            member_or_null(result, "range"@),
            size,
        ) {
            Ok(range) => Some(StreamMetadata { request_id, size, range }),
            Err(_) => None,
        },
        _ => None,
    }
}

fn read_served_range(range: &serde_json::Value, size: u64) -> (served: Result<
    Option<ServedRange>,
    (),
>)
    ensures
        served == served_range_of(json_content(*range), size),
        served matches Ok(Some(r)) ==> r.wf(),
{
    if !json_is_object(range) {
        return Ok(None);
    }
    let start = match json_as_u64(json_index(range, "start")) {
        Some(start) => start,
        None => { return Err(()); },
    };
    let end_doc = json_index(range, "end");
    let end = if json_is_number(end_doc) {
        match json_as_u64(end_doc) {
            Some(end) => end,
            None => { return Err(()); },
        }
    } else {
        size
    };
    if start <= end && 1 <= end {
        Ok(Some(ServedRange { start, end }))
    } else {
        Err(())
    }
}

/// Reads the metadata of a stream.
pub fn read_metadata(doc: &serde_json::Value) -> (metadata: Option<StreamMetadata>)
    ensures
        metadata == metadata_of(json_content(*doc)),
        metadata matches Some(m) ==> m.wf(),
{
    let request_id = match json_as_u64(json_index(doc, "id")) {
        Some(request_id) => request_id,
        None => { return None; },
    };
    let result = json_index(doc, "result");
    let size = match json_as_u64(json_index(result, "size")) {
        Some(size) => size,
        None => { return None; },
    };
    match read_served_range(json_index(result, "range"), size) {
        Ok(range) => Some(StreamMetadata { request_id, size, range }),
        Err(_) => None,
    }
}

/// What the bytes beside a stream say, if they are a JSON document of the
/// form that [`metadata_of`] describes.
pub open spec fn decoded_metadata(metadata: Seq<u8>) -> Option<StreamMetadata> {
    match json_read(metadata) {
        Some(doc) => metadata_of(doc),
        None => None,
    }
}

/// Decodes the metadata of a stream. Bytes that are no JSON document, or a
/// document of another form, give `None`.
pub fn decode_metadata(metadata: &[u8]) -> (decoded: Option<StreamMetadata>)
    ensures
        decoded == decoded_metadata(metadata@),
        decoded matches Some(m) ==> m.wf(),
{
    match parse_json(metadata) {
        Ok(doc) => read_metadata(&doc),
        Err(_) => None,
    }
}

} // verus!

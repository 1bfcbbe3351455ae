use fibridge_proxy::cache::{CacheTap, MAX_CACHED_SIZE};
use fibridge_proxy::hoster_manager::{HosterManager, RequestOutcome, Resolution, StreamStart};
use fibridge_proxy::protocol::{RemoteError, StreamMetadata};
use fibridge_proxy::range::ServedRange;
use fibridge_proxy::response::Reply;
use serde_json::Value;

fn session() -> HosterManager {
    HosterManager::new("abcd-efgh".to_string())
}

fn forward(outcome: RequestOutcome) -> (u64, Value) {
    match outcome {
        RequestOutcome::Forward { request_id, message } => {
            (request_id, serde_json::from_str(&message).unwrap())
        }
        other => panic!("not forwarded: {:?}", other),
    }
}

fn request(session: &mut HosterManager, filename: &str, range: &str) -> RequestOutcome {
    session.process_request(filename.to_string(), range.to_string())
}

fn metadata(request_id: u64, size: u64) -> Vec<u8> {
    format!("{{\"id\":{},\"result\":{{\"size\":{}}}}}", request_id, size).into_bytes()
}

fn fetch(session: &mut HosterManager, filename: &str, content: &[u8], chunk: usize) -> u64 {
    let (request_id, _) = forward(request(session, filename, ""));
    let start = session.handle_conduit(&metadata(request_id, content.len() as u64)).unwrap();
    let mut tap = start.tap.unwrap();
    for piece in content.chunks(chunk.max(1)) {
        tap.observe(piece);
    }
    if content.is_empty() {
        tap.observe(&[]);
    }
    assert!(session.commit(&tap));
    request_id
}

#[test]
fn new_session_has_its_id_and_starts_at_zero() {
    let session = session();
    assert_eq!(session.id(), "abcd-efgh");
    assert_eq!(session.peek_request_id(), 0);
}

#[test]
fn handshake_names_the_session() {
    let doc: Value = serde_json::from_str(&session().handshake()).unwrap();
    assert_eq!(doc["jsonrpc"], "2.0");
    assert_eq!(doc["method"], "setId");
    assert_eq!(doc["params"], "abcd-efgh");
}

#[test]
fn request_ids_count_up_from_zero() {
    let mut session = session();
    for expected in 0..50u64 {
        let range = if expected % 3 == 0 { "bytes=1-2" } else { "" };
        let (request_id, doc) = forward(request(&mut session, "file.bin", range));
        assert_eq!(request_id, expected);
        assert_eq!(doc["id"], expected);
        assert_eq!(session.peek_request_id(), expected + 1);
    }
}

#[test]
fn refused_and_cached_requests_use_no_request_id() {
    let mut session = session();
    fetch(&mut session, "small", b"abc", 2);
    assert_eq!(session.peek_request_id(), 1);
    assert!(matches!(request(&mut session, "small", ""), RequestOutcome::Reply(_)));
    assert!(matches!(request(&mut session, "other", "bytes=x"), RequestOutcome::Reply(_)));
    assert_eq!(session.peek_request_id(), 1);
    let (request_id, _) = forward(request(&mut session, "other", ""));
    assert_eq!(request_id, 1);
}

#[test]
fn request_for_a_range_carries_it_with_the_end_moved_up() {
    let mut session = session();
    let (_, doc) = forward(request(&mut session, "movie.mp4", "bytes=100-199"));
    assert_eq!(doc["method"], "getFile");
    assert_eq!(doc["params"]["path"], "/movie.mp4");
    assert_eq!(doc["params"]["range"]["start"], 100);
    assert_eq!(doc["params"]["range"]["end"], 200);
}

#[test]
fn request_without_range_carries_none() {
    let mut session = session();
    let (_, doc) = forward(request(&mut session, "movie.mp4", ""));
    assert_eq!(doc["params"]["path"], "/movie.mp4");
    assert!(doc["params"].get("range").is_none());
}

#[test]
fn malformed_range_is_refused_and_nothing_is_pending() {
    let mut session = session();
    assert_eq!(
        request(&mut session, "movie.mp4", "bytes=abc"),
        RequestOutcome::Reply(Reply::bad_range())
    );
    assert_eq!(session.handle_conduit(&metadata(0, 10)).map(|s| s.request_id), None);
}

#[test]
fn remote_error_resolves_the_request_with_404() {
    let mut session = session();
    let (request_id, _) = forward(request(&mut session, "missing", ""));
    let resolution = session
        .handle_control_message(
            format!("{{\"error\":{{\"message\":\"File not found\"}},\"id\":{}}}", request_id)
                .as_bytes(),
        )
        .unwrap();
    assert_eq!(resolution.request_id, request_id);
    assert_eq!(resolution.reply.head.status, 404);
    assert_eq!(resolution.reply.body, b"File not found".to_vec());
    assert!(resolution.reply.head.headers.is_empty());
    assert!(!session.is_pending(request_id));
    assert_eq!(session.cached("missing"), None);
}

#[test]
fn stream_resolves_the_request_with_its_head() {
    let mut session = session();
    let (request_id, _) = forward(request(&mut session, "movie.mp4", "bytes=100-199"));
    let start = session
        .handle_conduit(
            format!(
                "{{\"id\":{},\"result\":{{\"size\":1000,\"range\":{{\"start\":100,\"end\":200}}}}}}",
                request_id
            )
            .as_bytes(),
        )
        .unwrap();
    assert_eq!(start.request_id, request_id);
    assert_eq!(start.head.status, 206);
    let values: Vec<(&str, &str)> =
        start.head.headers.iter().map(|h| (h.name.as_str(), h.value.as_str())).collect();
    assert_eq!(
        values,
        vec![
            ("Content-Range", "bytes 100-199/1000"),
            ("Content-Length", "100"),
            ("Accept-Ranges", "bytes"),
            ("Content-Type", "application/octet-stream"),
        ]
    );
    assert!(start.tap.is_none());
}

#[test]
fn whole_file_stream_is_tapped_and_answers_200() {
    let mut session = session();
    let (request_id, _) = forward(request(&mut session, "movie.mp4", ""));
    let start = session.handle_conduit(&metadata(request_id, 1000)).unwrap();
    assert_eq!(start.head.status, 200);
    let values: Vec<(&str, &str)> =
        start.head.headers.iter().map(|h| (h.name.as_str(), h.value.as_str())).collect();
    assert_eq!(
        values,
        vec![
            ("Content-Length", "1000"),
            ("Accept-Ranges", "bytes"),
            ("Content-Type", "application/octet-stream"),
        ]
    );
    let tap = start.tap.unwrap();
    assert_eq!(tap.key(), "movie.mp4");
    assert!(tap.seen().is_empty());
    assert!(!tap.is_complete());
}

#[test]
fn a_request_is_resolved_once_by_an_error() {
    let mut session = session();
    let (request_id, _) = forward(request(&mut session, "f", ""));
    let error = RemoteError { request_id, message: "gone".to_string() };
    assert_eq!(
        session.fail_request(&error),
        Some(Resolution { request_id, reply: Reply::failure("gone") })
    );
    assert_eq!(session.fail_request(&error), None);
    assert!(session.handle_conduit(&metadata(request_id, 5)).is_none());
    assert!(session
        .open_stream(StreamMetadata { request_id, size: 5, range: None })
        .is_none());
}

#[test]
fn a_request_is_resolved_once_by_a_stream() {
    let mut session = session();
    let (request_id, _) = forward(request(&mut session, "f", ""));
    let start: Option<StreamStart> = session.handle_conduit(&metadata(request_id, 5));
    assert_eq!(start.map(|s| s.request_id), Some(request_id));
    assert!(session.handle_conduit(&metadata(request_id, 5)).is_none());
    assert_eq!(
        session.fail_request(&RemoteError { request_id, message: "null".to_string() }),
        None
    );
}

#[test]
fn answers_may_come_in_any_order() {
    let mut session = session();
    let (a, _) = forward(request(&mut session, "a", ""));
    let (b, _) = forward(request(&mut session, "b", "bytes=0-9"));
    let (c, _) = forward(request(&mut session, "c", ""));
    assert_eq!((a, b, c), (0, 1, 2));
    assert_eq!(session.handle_conduit(&metadata(c, 5)).unwrap().request_id, c);
    assert_eq!(
        session
            .fail_request(&RemoteError { request_id: a, message: "null".to_string() })
            .unwrap()
            .request_id,
        a
    );
    let start = session
        .open_stream(StreamMetadata {
            request_id: b,
            size: 100,
            range: Some(ServedRange { start: 0, end: 10 }),
        })
        .unwrap();
    assert_eq!(start.request_id, b);
    assert_eq!(start.head.status, 206);
    for id in [a, b, c] {
        assert!(session.handle_conduit(&metadata(id, 5)).is_none());
    }
}

#[test]
fn answers_to_unknown_requests_are_ignored() {
    let mut session = session();
    assert!(session.handle_control_message(b"{\"error\":{\"message\":\"x\"},\"id\":0}").is_none());
    assert!(session.handle_conduit(&metadata(0, 5)).is_none());
    let (request_id, _) = forward(request(&mut session, "f", ""));
    assert_eq!(request_id, 0);
    assert!(session.handle_control_message(b"{\"error\":{\"message\":\"x\"},\"id\":1}").is_none());
    assert!(session.handle_conduit(&metadata(1, 5)).is_none());
    assert!(session.handle_conduit(&metadata(0, 5)).is_some());
}

#[test]
fn messages_that_cannot_be_read_are_ignored() {
    let mut session = session();
    let (request_id, _) = forward(request(&mut session, "f", ""));
    assert!(session.handle_control_message(b"not json").is_none());
    assert!(session.handle_control_message(b"{\"result\":1,\"id\":0}").is_none());
    assert!(session.handle_conduit(b"not json").is_none());
    assert!(session.handle_conduit(b"{\"id\":0}").is_none());
    assert!(session
        .handle_conduit(b"{\"id\":0,\"result\":{\"size\":10,\"range\":{\"start\":11}}}")
        .is_none());
    assert_eq!(session.handle_conduit(&metadata(request_id, 5)).unwrap().request_id, request_id);
}

#[test]
fn second_request_for_a_small_file_comes_from_the_cache() {
    let mut session = session();
    let content: Vec<u8> = (0..=255u8).cycle().take(10_000).collect();
    fetch(&mut session, "small.bin", &content, 777);
    let before = session.peek_request_id();
    assert_eq!(
        request(&mut session, "small.bin", ""),
        RequestOutcome::Reply(Reply::cached(content.clone()))
    );
    assert_eq!(
        request(&mut session, "small.bin", ""),
        RequestOutcome::Reply(Reply::cached(content))
    );
    assert_eq!(session.peek_request_id(), before);
}

#[test]
fn cached_file_is_still_asked_for_by_range() {
    let mut session = session();
    fetch(&mut session, "small.bin", b"0123456789", 3);
    let (request_id, doc) = forward(request(&mut session, "small.bin", "bytes=2-4"));
    assert_eq!(request_id, 1);
    assert_eq!(doc["params"]["range"]["start"], 2);
    assert_eq!(doc["params"]["range"]["end"], 5);
}

#[test]
fn the_cache_is_keyed_by_file_name() {
    let mut session = session();
    fetch(&mut session, "a", b"first", 2);
    fetch(&mut session, "b", b"second", 2);
    assert_eq!(request(&mut session, "a", ""), RequestOutcome::Reply(Reply::cached(b"first".to_vec())));
    assert_eq!(
        request(&mut session, "b", ""),
        RequestOutcome::Reply(Reply::cached(b"second".to_vec()))
    );
    assert!(matches!(request(&mut session, "c", ""), RequestOutcome::Forward { .. }));
}

#[test]
fn ranged_requests_are_not_cached() {
    let mut session = session();
    let (request_id, _) = forward(request(&mut session, "f", "bytes=0-9"));
    let start = session.handle_conduit(&metadata(request_id, 10)).unwrap();
    assert!(start.tap.is_none());
    assert!(matches!(request(&mut session, "f", ""), RequestOutcome::Forward { .. }));
}

#[test]
fn files_over_the_ceiling_are_not_tapped() {
    let mut session = session();
    let (request_id, _) = forward(request(&mut session, "big", ""));
    assert!(session
        .handle_conduit(&metadata(request_id, MAX_CACHED_SIZE + 1))
        .unwrap()
        .tap
        .is_none());
    let (request_id, _) = forward(request(&mut session, "edge", ""));
    assert!(session.handle_conduit(&metadata(request_id, MAX_CACHED_SIZE)).unwrap().tap.is_some());
}

#[test]
fn the_ceiling_is_twenty_mebibytes() {
    assert_eq!(MAX_CACHED_SIZE, 20 * 1024 * 1024);
    assert_eq!(MAX_CACHED_SIZE, 20_971_520);
}

#[test]
fn incomplete_file_is_not_kept() {
    let mut session = session();
    let (request_id, _) = forward(request(&mut session, "f", ""));
    let mut tap: CacheTap = session.handle_conduit(&metadata(request_id, 10)).unwrap().tap.unwrap();
    assert!(!tap.observe(b"01234"));
    assert!(!session.commit(&tap));
    assert!(matches!(request(&mut session, "f", ""), RequestOutcome::Forward { .. }));
}

#[test]
fn overrun_file_is_not_kept() {
    let mut session = session();
    let (request_id, _) = forward(request(&mut session, "f", ""));
    let mut tap = session.handle_conduit(&metadata(request_id, 4)).unwrap().tap.unwrap();
    assert!(!tap.observe(b"012"));
    assert!(!tap.observe(b"34"));
    assert_eq!(tap.seen(), &b"012".to_vec());
    assert!(!tap.observe(b"3"));
    assert!(!tap.is_complete());
    assert!(!session.commit(&tap));
    assert!(matches!(request(&mut session, "f", ""), RequestOutcome::Forward { .. }));
}

#[test]
fn tap_gathers_chunks_in_order() {
    let mut session = session();
    let (request_id, _) = forward(request(&mut session, "f", ""));
    let mut tap = session.handle_conduit(&metadata(request_id, 6)).unwrap().tap.unwrap();
    assert!(!tap.observe(b"ab"));
    assert!(!tap.observe(b""));
    assert!(!tap.observe(b"cde"));
    assert!(tap.observe(b"f"));
    assert!(tap.is_complete());
    assert_eq!(tap.seen(), &b"abcdef".to_vec());
    assert!(tap.observe(b""));
    assert!(!tap.observe(b"g"));
}

#[test]
fn empty_file_is_kept() {
    let mut session = session();
    fetch(&mut session, "empty", b"", 1);
    assert_eq!(request(&mut session, "empty", ""), RequestOutcome::Reply(Reply::cached(vec![])));
}

#[test]
fn pending_requests_can_be_asked_for() {
    let mut session = session();
    assert!(!session.is_pending(0));
    let (request_id, _) = forward(request(&mut session, "f", ""));
    assert!(session.is_pending(request_id));
    assert!(!session.is_pending(request_id + 1));
    session.handle_conduit(&metadata(request_id, 3));
    assert!(!session.is_pending(request_id));
}

#[test]
fn cached_content_can_be_asked_for() {
    let mut session = session();
    assert_eq!(session.cached("f"), None);
    fetch(&mut session, "f", b"abc", 1);
    assert_eq!(session.cached("f"), Some(&b"abc".to_vec()));
    assert_eq!(session.cached("g"), None);
}

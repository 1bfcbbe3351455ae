use fibridge_proxy::range::ServedRange;
use fibridge_proxy::response::{response_head, Header, Reply, ResponseHead};

fn header(name: &str, value: &str) -> Header {
    Header { name: name.to_string(), value: value.to_string() }
}

fn value_of<'a>(head: &'a ResponseHead, name: &str) -> Option<&'a str> {
    head.headers.iter().find(|h| h.name == name).map(|h| h.value.as_str())
}

#[test]
fn served_range_gives_partial_content() {
    let head = response_head(1000, Some(ServedRange { start: 100, end: 200 }));
    assert_eq!(head.status, 206);
    assert_eq!(value_of(&head, "Content-Range"), Some("bytes 100-199/1000"));
    assert_eq!(value_of(&head, "Content-Length"), Some("100"));
    assert_eq!(
        head.headers,
        vec![
            header("Content-Range", "bytes 100-199/1000"),
            header("Content-Length", "100"),
            header("Accept-Ranges", "bytes"),
            header("Content-Type", "application/octet-stream"),
        ]
    );
}

#[test]
fn no_range_gives_the_whole_file() {
    let head = response_head(1000, None);
    assert_eq!(head.status, 200);
    assert_eq!(
        head.headers,
        vec![
            header("Content-Length", "1000"),
            header("Accept-Ranges", "bytes"),
            header("Content-Type", "application/octet-stream"),
        ]
    );
    assert_eq!(value_of(&head, "Content-Range"), None);
}

#[test]
fn content_length_is_the_declared_size() {
    for size in [0u64, 1, 20 * 1024 * 1024, u64::MAX] {
        let head = response_head(size, None);
        assert_eq!(head.status, 200);
        assert_eq!(value_of(&head, "Content-Length"), Some(size.to_string().as_str()));
    }
}

#[test]
fn range_at_the_edges() {
    let head = response_head(10, Some(ServedRange { start: 0, end: 10 }));
    assert_eq!(value_of(&head, "Content-Range"), Some("bytes 0-9/10"));
    assert_eq!(value_of(&head, "Content-Length"), Some("10"));
    let head = response_head(10, Some(ServedRange { start: 9, end: 10 }));
    assert_eq!(value_of(&head, "Content-Range"), Some("bytes 9-9/10"));
    assert_eq!(value_of(&head, "Content-Length"), Some("1"));
    let head = response_head(10, Some(ServedRange { start: 5, end: 5 }));
    assert_eq!(value_of(&head, "Content-Range"), Some("bytes 5-4/10"));
    assert_eq!(value_of(&head, "Content-Length"), Some("0"));
    let head = response_head(u64::MAX, Some(ServedRange { start: 0, end: u64::MAX }));
    assert_eq!(
        value_of(&head, "Content-Range"),
        Some("bytes 0-18446744073709551614/18446744073709551615")
    );
    assert_eq!(value_of(&head, "Content-Length"), Some("18446744073709551615"));
}

#[test]
fn not_found_reply() {
    let reply = Reply::not_found();
    assert_eq!(reply.head.status, 404);
    assert!(reply.head.headers.is_empty());
    assert_eq!(reply.body, b"Not found".to_vec());
}

#[test]
fn bad_range_reply() {
    let reply = Reply::bad_range();
    assert_eq!(reply.head.status, 416);
    assert!(reply.head.headers.is_empty());
    assert!(reply.body.is_empty());
}

#[test]
fn cached_reply_carries_the_content() {
    let reply = Reply::cached(vec![1, 2, 3]);
    assert_eq!(reply.head.status, 200);
    assert!(reply.head.headers.is_empty());
    assert_eq!(reply.body, vec![1, 2, 3]);
}

#[test]
fn failure_reply_carries_the_message() {
    let reply = Reply::failure("no such file: caf\u{e9}");
    assert_eq!(reply.head.status, 404);
    assert!(reply.head.headers.is_empty());
    assert_eq!(reply.body, "no such file: caf\u{e9}".as_bytes().to_vec());
}

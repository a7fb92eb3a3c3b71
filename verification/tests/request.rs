use remote_proxy::request::build;
use remote_proxy::response::split_body;
use remote_proxy::url::ParsedTarget;

fn target(host: &str, port: u16, path: &str) -> ParsedTarget {
    ParsedTarget { host: host.to_string(), port, path: path.to_string() }
}

fn content_length(request: &str) -> usize {
    let head = &request[..request.find("\r\n\r\n").unwrap()];
    let line = head.split("\r\n").find(|l| l.starts_with("Content-Length: ")).unwrap();
    line["Content-Length: ".len()..].parse().unwrap()
}

#[test]
fn request_is_written_exactly() {
    let request = build(&target("localhost", 8080, "/api"), "{\"token\":\"abc\",\"command\":\"status\"}");
    assert_eq!(
        request,
        "POST /api HTTP/1.1\r\nHost: localhost\r\nContent-Type: application/json\r\n\
         Content-Length: 34\r\nConnection: close\r\n\r\n{\"token\":\"abc\",\"command\":\"status\"}"
    );
}

#[test]
fn request_has_five_head_lines_then_a_blank_line_then_the_body() {
    let request = build(&target("example.com", 80, "/run"), "body");
    let (head, body) = request.split_once("\r\n\r\n").unwrap();
    let lines: Vec<&str> = head.split("\r\n").collect();
    assert_eq!(
        lines,
        vec![
            "POST /run HTTP/1.1",
            "Host: example.com",
            "Content-Type: application/json",
            "Content-Length: 4",
            "Connection: close",
        ]
    );
    assert_eq!(body, "body");
}

#[test]
fn host_header_leaves_the_port_out() {
    let request = build(&target("example.com", 8443, "/"), "");
    assert!(request.contains("\r\nHost: example.com\r\n"));
    assert!(!request.contains("8443"));
}

#[test]
fn empty_body_has_length_zero() {
    let request = build(&target("h", 80, "/"), "");
    assert_eq!(
        request,
        "POST / HTTP/1.1\r\nHost: h\r\nContent-Type: application/json\r\nContent-Length: 0\r\n\
         Connection: close\r\n\r\n"
    );
}

#[test]
fn content_length_counts_bytes_of_ascii() {
    for n in [0usize, 1, 9, 10, 11, 99, 100, 101, 999, 1000, 4096, 12345] {
        let payload = "x".repeat(n);
        let request = build(&target("h", 80, "/"), &payload);
        assert_eq!(content_length(&request), n);
        assert!(request.ends_with(&payload));
        assert!(request.contains(&format!("\r\nContent-Length: {}\r\n", n)));
    }
}

#[test]
fn content_length_counts_bytes_not_characters() {
    let payload = "{\"token\":\"é\",\"command\":\"例え\u{1f600}\"}";
    assert_eq!(payload.chars().count(), 29);
    assert_eq!(payload.len(), 37);
    let request = build(&target("h", 80, "/"), payload);
    assert!(request.contains("\r\nContent-Length: 37\r\n"));
    let sent = request.as_bytes();
    assert_eq!(&sent[sent.len() - 37..], payload.as_bytes());
}

#[test]
fn content_length_matches_for_every_width_of_character() {
    for (c, width) in [('a', 1usize), ('\u{7f}', 1), ('\u{80}', 2), ('é', 2), ('\u{7ff}', 2),
        ('\u{800}', 3), ('例', 3), ('\u{ffff}', 3), ('\u{10000}', 4), ('\u{1f600}', 4),
        ('\u{10ffff}', 4)]
    {
        for count in [1usize, 2, 7] {
            let payload: String = std::iter::repeat(c).take(count).collect();
            let request = build(&target("h", 80, "/"), &payload);
            assert_eq!(content_length(&request), width * count, "{:?}", c);
            assert_eq!(content_length(&request), payload.as_bytes().len());
        }
    }
}

#[test]
fn host_and_path_go_in_unchanged() {
    let request = build(&target("bad\r\nX-Injected: 1", 80, "/p q\r\nY: 2"), "b");
    assert_eq!(
        request,
        "POST /p q\r\nY: 2 HTTP/1.1\r\nHost: bad\r\nX-Injected: 1\r\n\
         Content-Type: application/json\r\nContent-Length: 1\r\nConnection: close\r\n\r\nb"
    );
}

#[test]
fn first_blank_line_of_a_request_comes_right_before_the_payload() {
    let payloads = ["", "x", "\r\n\r\n", "\r\n", "\n\r\n", "{\"a\":1}\r\n\r\nmore", "é例"];
    let targets = [("h", "/"), ("example.com", "/a/b?c"), ("", "/"), ("a b", "/p q"), ("é", "/例")];
    for payload in payloads {
        for (host, path) in targets {
            let request = build(&target(host, 80, path), payload);
            assert_eq!(split_body(&request), Ok(payload.to_string()));
        }
    }
}

#[test]
fn line_breaks_in_the_host_can_move_the_first_blank_line() {
    let request = build(&target("h\r\n\r\nX", 80, "/"), "p");
    assert_ne!(split_body(&request), Ok("p".to_string()));
    let request = build(&target("h\r\n", 80, "/"), "p");
    assert_ne!(split_body(&request), Ok("p".to_string()));
}

use remote_proxy::error::Error;
use remote_proxy::response::split_body;

#[test]
fn body_follows_the_blank_line() {
    assert_eq!(
        split_body("HTTP/1.1 200 OK\r\nContent-Length: 5\r\n\r\nhello"),
        Ok("hello".to_string())
    );
}

#[test]
fn later_blank_lines_stay_in_the_body() {
    assert_eq!(
        split_body("HTTP/1.1 200 OK\r\nA: b\r\n\r\nfirst\r\n\r\nsecond\r\n\r\n"),
        Ok("first\r\n\r\nsecond\r\n\r\n".to_string())
    );
    assert_eq!(split_body("\r\n\r\n\r\n\r\n"), Ok("\r\n\r\n".to_string()));
    assert_eq!(split_body("h\r\n\r\n\r\n"), Ok("\r\n".to_string()));
}

#[test]
fn status_is_not_looked_at() {
    assert_eq!(split_body("HTTP/1.1 500 Oops\r\n\r\nfailed"), Ok("failed".to_string()));
    assert_eq!(split_body("garbage\r\n\r\nx"), Ok("x".to_string()));
    assert_eq!(split_body("\r\n\r\nx"), Ok("x".to_string()));
}

#[test]
fn body_may_be_empty() {
    assert_eq!(split_body("HTTP/1.1 204 No Content\r\n\r\n"), Ok(String::new()));
    assert_eq!(split_body("\r\n\r\n"), Ok(String::new()));
}

#[test]
fn response_without_blank_line_is_invalid() {
    assert_eq!(split_body(""), Err(Error::InvalidResponse));
    assert_eq!(split_body("HTTP/1.1 200 OK"), Err(Error::InvalidResponse));
    assert_eq!(split_body("HTTP/1.1 200 OK\r\nA: b\r\n"), Err(Error::InvalidResponse));
    assert_eq!(split_body("\r\n\r"), Err(Error::InvalidResponse));
    assert_eq!(split_body("\r\n"), Err(Error::InvalidResponse));
    assert_eq!(split_body("a\n\nb"), Err(Error::InvalidResponse));
    assert_eq!(split_body("a\r\n\nb"), Err(Error::InvalidResponse));
    assert_eq!(split_body("a\n\r\nb"), Err(Error::InvalidResponse));
    assert_eq!(split_body("a\r\n \r\nb"), Err(Error::InvalidResponse));
    assert_eq!(split_body("a\r\r\n\nb"), Err(Error::InvalidResponse));
}

#[test]
fn delimiter_is_found_after_a_false_start() {
    assert_eq!(split_body("a\r\n\r\r\n\r\nb"), Ok("b".to_string()));
    assert_eq!(split_body("\r\r\n\r\nb"), Ok("b".to_string()));
    assert_eq!(split_body("\r\n\r\r\n\r\n"), Ok(String::new()));
    assert_eq!(split_body("\n\r\n\r\nb"), Ok("b".to_string()));
}

#[test]
fn body_keeps_characters_of_any_width() {
    assert_eq!(
        split_body("X-Naïve: é例\r\n\r\nhéllo 例え \u{1f600}\r\n"),
        Ok("héllo 例え \u{1f600}\r\n".to_string())
    );
}

#[test]
fn split_body_agrees_with_the_standard_library() {
    let pieces = ["", "\r", "\n", "\r\n", "\r\n\r\n", "a", "é", "HTTP/1.1 200 OK"];
    for a in pieces {
        for b in pieces {
            for c in pieces {
                for d in pieces {
                    let raw = format!("{}{}{}{}", a, b, c, d);
                    let expected = match raw.find("\r\n\r\n") {
                        Some(i) => Ok(raw[i + 4..].to_string()),
                        None => Err(Error::InvalidResponse),
                    };
                    assert_eq!(split_body(&raw), expected, "raw {:?}", raw);
                }
            }
        }
    }
}

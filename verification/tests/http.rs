//! Requests and responses.
use realtime_media::request::{
    find_header_end, parse_head, HttpError, HttpRequest, RequestReader, HEAD_LIMIT, READ_SIZE,
};
use realtime_media::response::HttpResponse;

fn read_whole(bytes: &[u8]) -> Result<Option<HttpRequest>, HttpError> {
    RequestReader::new().receive(bytes)
}

fn read_in_pieces(bytes: &[u8], size: usize) -> Result<Option<HttpRequest>, HttpError> {
    let mut reader = RequestReader::new();
    for piece in bytes.chunks(size) {
        match reader.receive(piece)? {
            Some(request) => return Ok(Some(request)),
            None => {}
        }
    }
    Ok(None)
}

#[test]
fn header_end_is_the_first_blank_line() {
    assert_eq!(find_header_end(b"GET / HTTP/1.1\r\n\r\nbody\r\n\r\n"), Some(14));
    assert_eq!(find_header_end(b"\r\n\r\n"), Some(0));
    assert_eq!(find_header_end(b"\r\r\n\r\n"), Some(1));
}

#[test]
fn header_end_may_be_missing() {
    assert_eq!(find_header_end(b""), None);
    assert_eq!(find_header_end(b"\r\n\r"), None);
    assert_eq!(find_header_end(b"GET / HTTP/1.1\r\nHost: a\r\n"), None);
    assert_eq!(find_header_end(b"a\n\nb"), None);
}

#[test]
fn head_gives_method_path_and_length() {
    let head = parse_head("POST /offer HTTP/1.1\r\nHost: x\r\nContent-Length: 42").unwrap();
    assert_eq!(head.method, "POST");
    assert_eq!(head.path, "/offer");
    assert_eq!(head.content_length, 42);
}

#[test]
fn head_takes_any_white_space_between_words() {
    let head = parse_head("  GET\t\u{3000}/index.html").unwrap();
    assert_eq!(head.method, "GET");
    assert_eq!(head.path, "/index.html");
    assert_eq!(head.content_length, 0);
}

#[test]
fn length_is_found_in_any_case() {
    assert_eq!(parse_head("A b\r\ncOnTeNt-LeNgTh:7").unwrap().content_length, 7);
    assert_eq!(parse_head("A b\nCONTENT-LENGTH: \t +8 ").unwrap().content_length, 8);
}

#[test]
fn first_length_counts() {
    let head = parse_head("A b\r\nno colon\r\nContent-Length: 1\r\nContent-Length: 2").unwrap();
    assert_eq!(head.content_length, 1);
}

#[test]
fn length_that_is_no_number_is_zero() {
    for value in ["", "x", "-1", "1 2", "+", "99999999999999999999999"] {
        let head = parse_head(&format!("A b\r\nContent-Length: {value}\r\nContent-Length: 5"));
        assert_eq!(head.unwrap().content_length, 0);
    }
}

#[test]
fn length_name_is_not_trimmed() {
    assert_eq!(parse_head("A b\r\nContent-Length : 3").unwrap().content_length, 0);
    assert_eq!(parse_head("A b\r\n Content-Length: 3").unwrap().content_length, 0);
}

#[test]
fn incomplete_heads_are_refused() {
    assert_eq!(parse_head("").unwrap_err(), HttpError::MissingRequestLine);
    assert_eq!(parse_head("\r\nGET /").unwrap_err(), HttpError::MissingMethod);
    assert_eq!(parse_head("   ").unwrap_err(), HttpError::MissingMethod);
    assert_eq!(parse_head("GET\r\n/").unwrap_err(), HttpError::MissingPath);
}

#[test]
fn last_line_keeps_its_return() {
    assert_eq!(parse_head("GET /\r\nContent-Length: 3\r").unwrap().content_length, 3);
    assert_eq!(parse_head("GET /a\r").unwrap().path, "/a");
}

#[test]
fn request_is_read_whole() {
    let request = read_whole(b"POST /offer HTTP/1.1\r\nContent-Length: 4\r\n\r\nbodymore");
    let request = request.unwrap().unwrap();
    assert_eq!(request.method, "POST");
    assert_eq!(request.path, "/offer");
    assert_eq!(request.body, b"body");
}

#[test]
fn pieces_give_the_same_request() {
    let bytes = b"POST /offer HTTP/1.1\r\nContent-Length: 11\r\n\r\n\r\n\r\n{\"a\":1}";
    for size in 1..bytes.len() {
        let request = read_in_pieces(bytes, size).unwrap().unwrap();
        assert_eq!(request.method, "POST");
        assert_eq!(request.path, "/offer");
        assert_eq!(request.body, b"\r\n\r\n{\"a\":1}");
    }
}

#[test]
fn reader_asks_for_what_is_missing() {
    let mut reader = RequestReader::new();
    assert_eq!(reader.wanted(), READ_SIZE);
    assert!(reader.receive(b"POST /offer HTTP/1.1\r\nContent-Length: 10\r\n").unwrap().is_none());
    assert_eq!(reader.wanted(), 1024);
    assert!(reader.receive(b"\r\nabc").unwrap().is_none());
    assert_eq!(reader.wanted(), 7);
    let request = reader.receive(b"defghij").unwrap().unwrap();
    assert_eq!(request.body, b"abcdefghij");
    assert_eq!(reader.wanted(), 0);
}

#[test]
fn closing_early_is_an_error() {
    assert_eq!(read_whole(b"").unwrap_err(), HttpError::ClosedInHead);
    let mut reader = RequestReader::new();
    assert!(reader.receive(b"GET / HTTP/1.1\r\n").unwrap().is_none());
    assert_eq!(reader.receive(b"").unwrap_err(), HttpError::ClosedInHead);
    let mut reader = RequestReader::new();
    assert!(reader.receive(b"P /o H\r\nContent-Length: 2\r\n\r\nx").unwrap().is_none());
    assert_eq!(reader.receive(b"").unwrap_err(), HttpError::ClosedInBody);
}

#[test]
fn large_heads_are_refused() {
    assert_eq!(HEAD_LIMIT, 128 * 1024);
    let mut reader = RequestReader::new();
    assert!(reader.receive(&vec![b'a'; HEAD_LIMIT]).unwrap().is_none());
    assert_eq!(reader.receive(b"a").unwrap_err(), HttpError::HeadTooLarge);
    let mut head = vec![b'a'; HEAD_LIMIT];
    head.extend_from_slice(b" /p\r\n\r\n");
    assert_eq!(read_whole(&head).unwrap().unwrap().path, "/p");
}

#[test]
fn bad_heads_are_refused_on_arrival() {
    assert_eq!(read_whole(b"\r\n\r\n").unwrap_err(), HttpError::MissingRequestLine);
    assert_eq!(read_whole(b" \r\n\r\n").unwrap_err(), HttpError::MissingMethod);
    assert_eq!(read_whole(b"GET\r\n\r\n").unwrap_err(), HttpError::MissingPath);
}

#[test]
fn body_past_the_end_of_memory_is_refused() {
    let head = format!("A b\r\nContent-Length: {}\r\n\r\n", usize::MAX);
    assert_eq!(read_whole(head.as_bytes()).unwrap_err(), HttpError::LengthOverflow);
}

#[test]
fn bytes_that_are_not_utf8_are_replaced() {
    let request = read_whole(b"GET /\xff\xc3\xa9 HTTP/1.1\r\n\r\n").unwrap().unwrap();
    assert_eq!(request.path, "/\u{fffd}\u{e9}");
}

#[test]
fn plain_request_is_read_back() {
    let body = vec![7u8; 300];
    let mut bytes = format!("PUT /caf\u{e9} HTTP/1.1\r\nContent-Length: {}\r\n\r\n", body.len())
        .into_bytes();
    bytes.extend_from_slice(&body);
    bytes.extend_from_slice(b"GET / HTTP/1.1\r\n\r\n");
    let request = read_in_pieces(&bytes, 97).unwrap().unwrap();
    assert_eq!(request.method, "PUT");
    assert_eq!(request.path, "/caf\u{e9}");
    assert_eq!(request.body, body);
}

#[test]
fn errors_have_messages() {
    assert_eq!(
        HttpError::ClosedInHead.message(),
        "client closed connection before sending a complete HTTP request"
    );
    assert_eq!(HttpError::HeadTooLarge.message(), "HTTP request headers are too large");
    assert_eq!(HttpError::MissingRequestLine.message(), "missing HTTP request line");
    assert_eq!(HttpError::MissingMethod.message(), "missing HTTP method");
    assert_eq!(HttpError::MissingPath.message(), "missing HTTP path");
    assert_eq!(
        HttpError::ClosedInBody.message(),
        "client closed connection before sending complete HTTP body"
    );
    assert_eq!(HttpError::LengthOverflow.message(), "attempt to add with overflow");
}

#[test]
fn response_is_written_out() {
    let response = HttpResponse::new("200 OK", "text/plain", "caf\u{e9}");
    assert_eq!(
        response.render(),
        "HTTP/1.1 200 OK\r\nContent-Type: text/plain\r\nContent-Length: 5\r\nCache-Control: no-store\r\nConnection: close\r\n\r\ncaf\u{e9}"
    );
}

#[test]
fn response_frames_the_body() {
    let body = "\r\n\r\nx\r\n\r\n";
    let out = HttpResponse::new("200 OK", "text/html; charset=utf-8", body).render();
    let end = find_header_end(out.as_bytes()).unwrap();
    assert_eq!(&out[end + 4..], body);
}

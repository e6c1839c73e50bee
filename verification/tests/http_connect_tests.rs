use base64::Engine;
use siren::http_connect::{
    connect_request, first_line_of, judge_response, HttpConnectAction, HttpConnectError,
    HttpConnectHandshake, MAX_HEADER_SIZE,
};
use siren::utf8_text::read_text;

fn login(user: &str, pass: &str) -> Option<(String, String)> {
    Some((user.to_string(), pass.to_string()))
}

/// Runs a handshake on all that the proxy sends: the outcome, and how many bytes were read.
fn run(stream: &[u8]) -> (Result<(), String>, usize) {
    let mut h = HttpConnectHandshake::new();
    let mut at: usize = 0;
    loop {
        let byte = stream.get(at).copied();
        if byte.is_some() {
            at += 1;
        }
        match h.advance(byte) {
            HttpConnectAction::Read => {}
            HttpConnectAction::Done => return (Ok(()), at),
            HttpConnectAction::Fail(e) => return (Err(e.message()), at),
        }
    }
}

#[test]
fn request_without_credentials() {
    assert_eq!(
        connect_request("example.com", 443, &None),
        "CONNECT example.com:443 HTTP/1.1\r\nHost: example.com:443\r\nProxy-Connection: Keep-Alive\r\n\r\n"
    );
}

#[test]
fn request_with_credentials() {
    assert_eq!(
        connect_request("h", 80, &login("user", "pass")),
        "CONNECT h:80 HTTP/1.1\r\nHost: h:80\r\nProxy-Authorization: Basic dXNlcjpwYXNz\r\nProxy-Connection: Keep-Alive\r\n\r\n"
    );
}

fn token(user: &str, pass: &str) -> String {
    let text = connect_request("h", 80, &login(user, pass));
    match text.split("Basic ").nth(1).and_then(|t| t.split("\r\n").next()) {
        Some(t) => t.to_string(),
        None => panic!("no token in {}", text),
    }
}

#[test]
fn tokens_in_the_standard_alphabet() {
    assert_eq!(token("u", ""), "dTo=");
    assert_eq!(token("a", "b?>~~"), "YTpiPz5+fg==");
    assert_eq!(token("\u{e9}", "\u{fc}"), "w6k6w7w=");
}

#[test]
fn token_is_understood() {
    for (user, pass) in [("user", "pass"), ("", ""), ("u", "p:q:"), ("\u{1f600}", "\u{3ff}")] {
        let bytes = match base64::engine::general_purpose::STANDARD.decode(token(user, pass)) {
            Ok(b) => b,
            Err(e) => panic!("{}", e),
        };
        let text = String::from_utf8_lossy(&bytes).into_owned();
        assert_eq!(text.split_once(':'), Some((user, pass)));
    }
}

#[test]
fn header_is_read_exactly() {
    let header = b"HTTP/1.1 200 OK\r\nServer: x\r\n\r\n";
    let mut stream = header.to_vec();
    stream.extend_from_slice(b"payload\r\n\r\n");
    assert_eq!(run(&stream), (Ok(()), header.len()));
}

#[test]
fn old_version_is_accepted() {
    assert_eq!(run(b"HTTP/1.0 200\r\n\r\n").0, Ok(()));
    assert_eq!(run(b"HTTP/1.1 2000\r\n\r\n").0, Ok(()));
}

#[test]
fn refusal_tells_the_first_line() {
    let told = |stream: &[u8]| match run(stream).0 {
        Ok(()) => panic!("connected"),
        Err(e) => e,
    };
    assert_eq!(
        told(b"HTTP/1.1 407 Proxy Authentication Required\r\nX: y\r\n\r\n"),
        "http proxy CONNECT failed: HTTP/1.1 407 Proxy Authentication Required"
    );
    assert_eq!(told(b"HTTP/2 200\r\n\r\n"), "http proxy CONNECT failed: HTTP/2 200");
    assert_eq!(told(b"\r\n\r\n"), "http proxy CONNECT failed: ");
    assert_eq!(told(b" HTTP/1.1 200\n\r\n\r\n"), "http proxy CONNECT failed:  HTTP/1.1 200");
}

#[test]
fn ill_formed_bytes_are_replaced() {
    assert_eq!(
        run(b"HTTP/1.1 500 \xff\xfe!\r\n\r\n").0,
        Err("http proxy CONNECT failed: HTTP/1.1 500 \u{fffd}\u{fffd}!".to_string())
    );
    assert_eq!(
        run("HTTP/1.1 500 \u{e9}\r\n\r\n".as_bytes()).0,
        Err("http proxy CONNECT failed: HTTP/1.1 500 \u{e9}".to_string())
    );
}

#[test]
fn proxy_that_closes() {
    let closed = Err("http proxy closed the connection during CONNECT".to_string());
    assert_eq!(run(b""), (closed.clone(), 0));
    assert_eq!(run(b"HTTP/1.1 200 OK\r\n\r"), (closed.clone(), 18));
    assert_eq!(run(&vec![b'x'; MAX_HEADER_SIZE]), (closed, MAX_HEADER_SIZE));
}

#[test]
fn header_without_end() {
    let large = Err("http proxy response header too large".to_string());
    assert_eq!(run(&vec![b'x'; 10_000]), (large, 8193));
}

#[test]
fn header_that_ends_at_the_limit() {
    let of = |n: usize| {
        let mut stream = b"HTTP/1.1 200 ".to_vec();
        stream.resize(n - 4, b'x');
        stream.extend_from_slice(b"\r\n\r\n");
        run(&stream)
    };
    assert_eq!(of(8192), (Ok(()), 8192));
    assert_eq!(of(8193), (Ok(()), 8193));
    assert_eq!(of(8194), (Err("http proxy response header too large".to_string()), 8193));
}

#[test]
fn first_lines() {
    for t in ["", "a", "a\n", "a\r\n", "a\rb\n", "\n", "\r\n", "a\r\r\nb", "a\r", "\u{e9}\nb"] {
        assert_eq!(first_line_of(t), t.lines().next().unwrap_or(""), "{:?}", t);
    }
}

#[test]
fn verdicts() {
    assert!(matches!(judge_response("HTTP/1.1 200 OK"), HttpConnectAction::Done));
    assert!(matches!(
        judge_response("HTTP/1.1 20"),
        HttpConnectAction::Fail(HttpConnectError::Refused(line)) if line == "HTTP/1.1 20"
    ));
}

#[test]
fn request_has_its_lines() {
    let text = connect_request("::1", 65535, &login("a\nb", "c\r\n\r\nd"));
    let lines: Vec<&str> = text.split('\n').collect();
    assert_eq!(
        lines,
        vec![
            "CONNECT ::1:65535 HTTP/1.1\r", "Host: ::1:65535\r",
            "Proxy-Authorization: Basic YQpiOmMNCg0KZA==\r", "Proxy-Connection: Keep-Alive\r", "\r", "",
        ]
    );
    assert_eq!(connect_request("h", 1, &None).split('\n').count(), 5);
}

#[test]
fn token_of_long_credentials() {
    let long = "x".repeat(100_000);
    assert_eq!(token(&long, &long).len(), 4 * ((200_001 + 2) / 3));
}

#[test]
fn status_decides_whatever_follows() {
    assert_eq!(run(b"HTTP/1.1 200\xff\xfe\r\n\r\n").0, Ok(()));
    assert_eq!(run(b"HTTP/1.0 200 \xe2\x82\r\n\r\n").0, Ok(()));
    assert_eq!(
        run(b"HTTP/1.1 20\xff\r\n\r\n").0,
        Err("http proxy CONNECT failed: HTTP/1.1 20\u{fffd}".to_string())
    );
    assert_eq!(
        run(b"\xffHTTP/1.1 200\r\n\r\n").0,
        Err("http proxy CONNECT failed: \u{fffd}HTTP/1.1 200".to_string())
    );
}

#[test]
fn texts_of_bytes() {
    let cases: [&[u8]; 8] = [
        b"", b"abc", b"\xc3\xa9x", b"\xf0\x9f\x98\x80", b"\xed\xa0\x80", b"a\xc3", b"\xc3(", b"\xf4\x90\x80\x80z",
    ];
    for bytes in cases {
        assert_eq!(read_text(bytes), String::from_utf8_lossy(bytes));
    }
    for bytes in cases {
        if let Err(e) = std::str::from_utf8(bytes) {
            let start = String::from_utf8_lossy(&bytes[..e.valid_up_to()]).into_owned();
            assert!(read_text(bytes).starts_with(&format!("{}\u{fffd}", start)));
        }
    }
}

use siren::socks5::{
    destination_of, Destination, Phase, Socks5Action, Socks5Error, Socks5Handshake,
};

fn login(user: &str, pass: &str) -> Option<(String, String)> {
    Some((user.to_string(), pass.to_string()))
}

fn domain(name: &str) -> Destination {
    Destination::Domain(name.to_string())
}

fn exchange(a: Socks5Action) -> (Vec<u8>, usize) {
    match a {
        Socks5Action::Exchange { send, read } => (send, read),
        Socks5Action::Done => panic!("done"),
        Socks5Action::Fail(e) => panic!("failed: {:?}", e),
    }
}

fn failure(a: Socks5Action) -> Socks5Error {
    match a {
        Socks5Action::Fail(e) => e,
        Socks5Action::Exchange { .. } => panic!("goes on"),
        Socks5Action::Done => panic!("done"),
    }
}

/// Runs a handshake on all that the proxy sends: what was sent, the outcome, and how many bytes
/// were read.
fn run(
    mut h: Socks5Handshake,
    stream: &[u8],
) -> (Vec<Vec<u8>>, Option<Result<(), Socks5Error>>, usize) {
    let mut sent: Vec<Vec<u8>> = Vec::new();
    let mut at: usize = 0;
    let mut action = h.start();
    loop {
        match action {
            Socks5Action::Exchange { send, read } => {
                if !send.is_empty() {
                    sent.push(send);
                }
                if at + read > stream.len() {
                    return (sent, None, at);
                }
                action = h.advance(&stream[at..at + read]);
                at += read;
            }
            Socks5Action::Done => return (sent, Some(Ok(())), at),
            Socks5Action::Fail(e) => return (sent, Some(Err(e)), at),
        }
    }
}

#[test]
fn greeting_offers_what_there_is() {
    let h = Socks5Handshake::new(domain("h"), 1, None);
    assert_eq!(exchange(h.start()), (vec![5, 1, 0], 2));
    let h = Socks5Handshake::new(domain("h"), 1, login("u", "p"));
    assert_eq!(exchange(h.start()), (vec![5, 2, 0, 2], 2));
}

#[test]
fn request_for_a_domain() {
    let mut h = Socks5Handshake::new(domain("ex.com"), 443, None);
    let (send, read) = exchange(h.advance(&[5, 0]));
    assert_eq!(send, vec![5, 1, 0, 3, 6, b'e', b'x', b'.', b'c', b'o', b'm', 1, 187]);
    assert_eq!(read, 4);
    assert_eq!(h.phase, Phase::Connecting);
}

#[test]
fn request_for_addresses() {
    let mut h = Socks5Handshake::new(Destination::V4([1, 2, 3, 4]), 0x1234, None);
    assert_eq!(exchange(h.advance(&[5, 0])).0, vec![5, 1, 0, 1, 1, 2, 3, 4, 0x12, 0x34]);
    let ip = [0x20, 1, 0xd, 0xb8, 0, 0, 0, 0, 0, 0, 0, 0, 0, 0, 0, 1];
    let mut h = Socks5Handshake::new(Destination::V6(ip), 80, None);
    let (send, _) = exchange(h.advance(&[5, 0]));
    assert_eq!(send.len(), 22);
    assert_eq!(send[3], 4);
    assert_eq!(send[4..20], ip);
    assert_eq!(send[20..], [0, 80]);
}

#[test]
fn domain_length_is_counted_in_bytes() {
    let mut h = Socks5Handshake::new(domain("\u{e9}"), 0, None);
    assert_eq!(exchange(h.advance(&[5, 0])).0, vec![5, 1, 0, 3, 2, 0xc3, 0xa9, 0, 0]);
    let mut h = Socks5Handshake::new(domain(&"x".repeat(255)), 0, None);
    assert_eq!(exchange(h.advance(&[5, 0])).0[4], 255);
    let mut h = Socks5Handshake::new(domain(&"x".repeat(256)), 0, None);
    assert_eq!(exchange(h.advance(&[5, 0])).0[4], 0);
}

#[test]
fn credentials_are_sent_behind_their_lengths() {
    let mut h = Socks5Handshake::new(domain("h"), 1, login("us", "\u{e9}"));
    let (send, read) = exchange(h.advance(&[5, 2]));
    assert_eq!(send, vec![1, 2, b'u', b's', 2, 0xc3, 0xa9]);
    assert_eq!(read, 2);
    let (send, read) = exchange(h.advance(&[9, 0]));
    assert_eq!(send, vec![5, 1, 0, 3, 1, b'h', 0, 1]);
    assert_eq!(read, 4);
}

#[test]
fn invalid_greeting() {
    let mut h = Socks5Handshake::new(domain("h"), 1, None);
    assert_eq!(failure(h.advance(&[4, 0])), Socks5Error::InvalidGreeting);
    assert_eq!(h.phase, Phase::Failed(Socks5Error::InvalidGreeting));
}

#[test]
fn authentication_that_there_is_none_for() {
    let mut h = Socks5Handshake::new(domain("h"), 1, None);
    assert_eq!(failure(h.advance(&[5, 2])), Socks5Error::AuthenticationRequired);
}

#[test]
fn credentials_at_the_limit() {
    let long = "x".repeat(256);
    let most = "x".repeat(255);
    for (user, pass) in [(&long, &most), (&most, &long)] {
        let mut h = Socks5Handshake::new(domain("h"), 1, login(user, pass));
        assert_eq!(failure(h.advance(&[5, 2])), Socks5Error::CredentialsTooLong);
    }
    let mut h = Socks5Handshake::new(domain("h"), 1, login(&most, &most));
    let (send, _) = exchange(h.advance(&[5, 2]));
    assert_eq!(send.len(), 3 + 2 * 255);
    assert_eq!((send[0], send[1], send[257]), (1, 255, 255));
}

#[test]
fn authentication_that_fails() {
    let mut h = Socks5Handshake::new(domain("h"), 1, login("u", "p"));
    exchange(h.advance(&[5, 2]));
    assert_eq!(failure(h.advance(&[1, 1])), Socks5Error::AuthenticationFailed);
}

#[test]
fn methods_that_are_not_offered() {
    let mut h = Socks5Handshake::new(domain("h"), 1, None);
    assert_eq!(failure(h.advance(&[5, 255])), Socks5Error::NoAcceptableMethod);
    let mut h = Socks5Handshake::new(domain("h"), 1, None);
    assert_eq!(failure(h.advance(&[5, 1])), Socks5Error::UnsupportedMethod(1));
}

#[test]
fn refusal_is_reported_with_its_code() {
    let mut h = Socks5Handshake::new(domain("h"), 1, None);
    exchange(h.advance(&[5, 0]));
    assert_eq!(failure(h.advance(&[5, 4, 0, 1])), Socks5Error::Refused(4));
}

#[test]
fn address_type_of_a_reply() {
    let mut h = Socks5Handshake::new(domain("h"), 1, None);
    exchange(h.advance(&[5, 0]));
    assert_eq!(failure(h.advance(&[5, 0, 0, 2])), Socks5Error::InvalidAddressType);
}

#[test]
fn payload_is_left() {
    let replies: [&[u8]; 4] = [
        &[5, 0, 0, 1, 9, 9, 9, 9, 0, 1],
        &[5, 0, 0, 3, 2, b'h', b'i', 0, 1],
        &[5, 0, 0, 3, 0, 0, 1],
        &[5, 0, 0, 4, 9, 9, 9, 9, 9, 9, 9, 9, 9, 9, 9, 9, 9, 9, 9, 9, 0, 1],
    ];
    for reply in replies {
        for (greeting, credentials) in
            [(vec![5u8, 0], None), (vec![5u8, 2, 1, 0], login("u", "p"))]
        {
            let mut stream = greeting.clone();
            stream.extend_from_slice(reply);
            let used = stream.len();
            stream.extend_from_slice(b"payload");
            let (sent, outcome, read) =
                run(Socks5Handshake::new(domain("h"), 1, credentials), &stream);
            assert_eq!(outcome, Some(Ok(())));
            assert_eq!(read, used);
            assert_eq!(sent.len(), greeting.len() / 2 + 1);
        }
    }
}

#[test]
fn credentials_go_out_only_when_asked_for() {
    let stream = [5u8, 0, 5, 0, 0, 1, 0, 0, 0, 0, 0, 0];
    let (sent, outcome, _) =
        run(Socks5Handshake::new(domain("h"), 1, login("secretname", "p")), &stream);
    assert_eq!(outcome, Some(Ok(())));
    assert_eq!(sent.len(), 2);
    for bytes in sent {
        assert!(!bytes.windows(10).any(|w| w == b"secretname"));
    }
}

#[test]
fn proxy_that_stops() {
    for n in 0..12 {
        let stream = [5u8, 0, 5, 0, 0, 1, 0, 0, 0, 0, 0, 0];
        let (_, outcome, _) = run(Socks5Handshake::new(domain("h"), 1, None), &stream[..n]);
        assert_eq!(outcome, None);
    }
}

#[test]
fn handshake_takes_at_most_five_replies() {
    let mut h = Socks5Handshake::new(domain("h"), 1, login("u", "p"));
    exchange(h.advance(&[5, 2]));
    exchange(h.advance(&[1, 0]));
    assert_eq!(exchange(h.advance(&[5, 0, 0, 3])), (Vec::new(), 1));
    assert_eq!(exchange(h.advance(&[1])), (Vec::new(), 3));
    assert!(matches!(h.advance(&[b'x', 0, 1]), Socks5Action::Done));
    assert_eq!(h.phase, Phase::Connected);
    assert!(matches!(h.advance(&[]), Socks5Action::Done));
}

#[test]
fn failure_stays() {
    let mut h = Socks5Handshake::new(domain("h"), 1, None);
    failure(h.advance(&[5, 7]));
    assert_eq!(failure(h.advance(&[])), Socks5Error::UnsupportedMethod(7));
}

#[test]
fn socks5_messages() {
    let all = [
        (Socks5Error::InvalidGreeting, "socks5 proxy sent an invalid greeting reply"),
        (
            Socks5Error::AuthenticationRequired,
            "socks5 proxy requires username/password authentication",
        ),
        (
            Socks5Error::CredentialsTooLong,
            "socks5 username/password must each be at most 255 bytes",
        ),
        (Socks5Error::AuthenticationFailed, "socks5 proxy authentication failed"),
        (Socks5Error::NoAcceptableMethod, "socks5 proxy rejected all offered auth methods"),
        (
            Socks5Error::UnsupportedMethod(17),
            "socks5 proxy selected an unsupported auth method (17)",
        ),
        (Socks5Error::Refused(5), "socks5 proxy refused connection (code 5)"),
        (Socks5Error::InvalidAddressType, "socks5 proxy returned an invalid address type"),
    ];
    for (e, message) in all {
        assert_eq!(e.message(), message);
    }
}

#[test]
fn success_only_where_the_proxy_agreed() {
    for version in [4u8, 5] {
        for method in 0..=255u8 {
            for verdict in [0u8, 1] {
                for code in [0u8, 1, 255] {
                    let mut stream = vec![version, method];
                    if method == 2 {
                        stream.extend_from_slice(&[1, verdict]);
                    }
                    stream.extend_from_slice(&[5, code, 0, 1, 0, 0, 0, 0, 0, 0]);
                    for credentials in [None, login("u", "p")] {
                        let agreed = version == 5
                            && code == 0
                            && (method == 0
                                || (method == 2 && verdict == 0 && credentials.is_some()));
                        let h = Socks5Handshake::new(domain("h"), 1, credentials);
                        assert_eq!(run(h, &stream).1 == Some(Ok(())), agreed);
                    }
                }
            }
        }
    }
}

/// The request that a handshake sends for the destination that a text writes.
fn asked_for(addr: &str) -> Vec<u8> {
    let mut h = Socks5Handshake::for_address(addr, 0x0102, None);
    assert_eq!(exchange(h.start()), (vec![5, 1, 0], 2));
    exchange(h.advance(&[5, 0])).0
}

#[test]
fn dotted_text_is_asked_for_as_an_address() {
    assert_eq!(asked_for("1.2.3.4"), vec![5, 1, 0, 1, 1, 2, 3, 4, 1, 2]);
    assert_eq!(asked_for("255.0.10.200"), vec![5, 1, 0, 1, 255, 0, 10, 200, 1, 2]);
}

#[test]
fn ipv6_text_is_asked_for_as_an_address() {
    let cases: [(&str, [u8; 16]); 4] = [
        ("::1", [0, 0, 0, 0, 0, 0, 0, 0, 0, 0, 0, 0, 0, 0, 0, 1]),
        ("::", [0; 16]),
        ("2001:DB8::ff00:42:8329", [0x20, 1, 0xd, 0xb8, 0, 0, 0, 0, 0, 0, 0xff, 0, 0, 0x42, 0x83, 0x29]),
        ("::ffff:1.2.3.4", [0, 0, 0, 0, 0, 0, 0, 0, 0, 0, 0xff, 0xff, 1, 2, 3, 4]),
    ];
    for (text, octets) in cases {
        let mut expected = vec![5u8, 1, 0, 4];
        expected.extend_from_slice(&octets);
        expected.extend_from_slice(&[1, 2]);
        assert_eq!(asked_for(text), expected, "{}", text);
    }
}

#[test]
fn any_other_text_is_asked_for_as_a_domain() {
    for text in [
        "example.com", "", "1.2.3", "1.2.3.4.5", "256.1.1.1", "01.2.3.4", "1.2.3.00", "1.2.3.4 ", "+1.2.3.4",
        "0x1.2.3.4", "1..2.3", "[::1]", "::1%1", "1:2", ":::", "1.2.3.4:80", "\u{661}.2.3.4",
    ] {
        let mut expected = vec![5u8, 1, 0, 3, text.len() as u8];
        expected.extend_from_slice(text.as_bytes());
        expected.extend_from_slice(&[1, 2]);
        assert_eq!(asked_for(text), expected, "{}", text);
    }
}

#[test]
fn handshake_for_an_address_keeps_the_credentials() {
    let mut h = Socks5Handshake::for_address("h", 1, login("u", "p"));
    assert_eq!(exchange(h.start()), (vec![5, 2, 0, 2], 2));
    assert_eq!(exchange(h.advance(&[5, 2])).0, vec![1, 1, b'u', 1, b'p']);
    assert!(matches!(destination_of("9.8.7.6"), Destination::V4([9, 8, 7, 6])));
}

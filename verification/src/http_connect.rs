//! The client's side of an HTTP `CONNECT`: the request, and a machine that takes the response
//! one byte at a time.

use crate::base64_text::{
    base64_bytes, base64_len, base64_standard, encode_standard, law_base64_reads_back,
    lemma_alphabets, lemma_base64_chars,
};
use crate::config::credentials_view;
use crate::text::{
    after_prefix, decimal, decimal_text, is_digit, joined, lacks, lemma_assoc, lemma_decimal,
    lemma_decimal_reads_back, lemma_first_index, lemma_joined, lemma_joined_push, lemma_last_index,
    pieces, split_first, split_last, split_once, strip_prefix, unsigned_value,
};
use crate::utf8_text::{law_ascii_start_is_kept, lemma_utf8_len, read_text, text_of};
use vstd::prelude::*;
use vstd::string::*;
use vstd::utf8::{decode_utf8, encode_utf8, encode_utf8_decode_utf8};

verus! {

/// How many bytes the header of a response may have before it must have ended.
pub const MAX_HEADER_SIZE: usize = 8192;

/// The user's name and password as they stand in the request.
pub open spec fn token_of(user: Seq<char>, pass: Seq<char>) -> Seq<char> {
    base64_standard(encode_utf8(user + ":"@ + pass))
}

/// The line with the credentials, if there are any.
pub open spec fn auth_header(credentials: Option<(Seq<char>, Seq<char>)>) -> Seq<char> {
    match credentials {
        Some((user, pass)) => "Proxy-Authorization: Basic "@ + token_of(user, pass) + "\r\n"@,
        None => Seq::empty(),
    }
}

/// A host and a port, with a `:` between them.
pub open spec fn authority(addr: Seq<char>, port: u16) -> Seq<char> {
    addr + ":"@ + decimal(port as nat)
}

/// The request to connect.
pub open spec fn connect_text(
    addr: Seq<char>,
    port: u16,
    credentials: Option<(Seq<char>, Seq<char>)>,
) -> Seq<char> {
    "CONNECT "@ + authority(addr, port) + " HTTP/1.1\r\nHost: "@ + authority(addr, port) + "\r\n"@
        + auth_header(credentials) + "Proxy-Connection: Keep-Alive\r\n\r\n"@
}

/// The token for the credentials can be allocated.
pub open spec fn token_fits(credentials: Option<(Seq<char>, Seq<char>)>) -> bool {
    credentials matches Some((user, pass)) ==> base64_len(
        encode_utf8(user + ":"@ + pass).len(),
    ) <= isize::MAX
}

/// The request to connect to `addr` at `port`.
pub fn connect_request(
    addr: &str,
    port: u16,
    credentials: &Option<(String, String)>,
) -> (t: String)
    requires
        token_fits(credentials_view(*credentials)),
    ensures
        t@ == connect_text(addr@, port, credentials_view(*credentials)),
{
    let auth: String = match credentials {
        Some((user, pass)) => {
            let plain: String = user.clone().concat(":").concat(pass.as_str());
            let token: String = encode_standard(plain.as_str().as_bytes());
            "Proxy-Authorization: Basic ".to_owned().concat(token.as_str()).concat("\r\n")
        },
        None => String::new(),
    };
    let at: String = addr.to_owned().concat(":").concat(decimal_text(port as u64).as_str());
    let mut t: String = "CONNECT ".to_owned();
    t.append(at.as_str());
    t.append(" HTTP/1.1\r\nHost: ");
    t.append(at.as_str());
    t.append("\r\n");
    t.append(auth.as_str());
    t.append("Proxy-Connection: Keep-Alive\r\n\r\n");
    t
}

/// The token for credentials of at most a million characters can be allocated on any machine.
pub proof fn law_token_can_be_written(user: Seq<char>, pass: Seq<char>)
    requires
        user.len() + pass.len() <= 1_000_000,
    ensures
        token_fits(Some((user, pass))),
{
    reveal_strlit(":");
    lemma_utf8_len(user + ":"@ + pass);
    assert(isize::MAX >= 0x7fff_ffff);
}

/// Whether the last line of `header` is empty.
pub open spec fn ends_header(header: Seq<u8>) -> bool {
    header.len() >= 4 && header.skip(header.len() - 4) == seq![13u8, 10, 13, 10]
}

/// Whether a response says that the proxy is connected.
pub open spec fn is_success(text: Seq<char>) -> bool {
    after_prefix(text, "HTTP/1.1 200"@) is Some || after_prefix(text, "HTTP/1.0 200"@) is Some
}

/// The first line of `text`, without its end.
pub open spec fn first_line(text: Seq<char>) -> Seq<char> {
    match split_first(text, '\n') {
        Some((line, _)) => if line.len() > 0 && line.last() == '\r' {
            line.drop_last()
        } else {
            line
        },
        None => text,
    }
}

/// Why a handshake failed.
#[derive(Debug)]
pub enum HttpConnectError {
    /// The proxy closed the connection.
    Closed,
    /// The header did not end in time.
    HeaderTooLarge,
    /// The proxy did not connect; the first line of its response.
    Refused(String),
}

/// What a [`HttpConnectError`] says.
#[verifier::ext_equal]
pub enum HttpConnectErrorView {
    Closed,
    HeaderTooLarge,
    Refused(Seq<char>),
}

impl View for HttpConnectError {
    type V = HttpConnectErrorView;

    open spec fn view(&self) -> HttpConnectErrorView {
        match *self {
            HttpConnectError::Closed => HttpConnectErrorView::Closed,
            HttpConnectError::HeaderTooLarge => HttpConnectErrorView::HeaderTooLarge,
            HttpConnectError::Refused(line) => HttpConnectErrorView::Refused(line@),
        }
    }
}

/// What an error says.
pub open spec fn http_message(e: HttpConnectErrorView) -> Seq<char> {
    match e {
        HttpConnectErrorView::Closed => "http proxy closed the connection during CONNECT"@,
        HttpConnectErrorView::HeaderTooLarge => "http proxy response header too large"@,
        HttpConnectErrorView::Refused(line) => "http proxy CONNECT failed: "@ + line,
    }
}

impl HttpConnectError {
    /// What the error says.
    pub fn message(&self) -> (t: String)
        ensures
            t@ == http_message(self@),
    {
        match self {
            HttpConnectError::Closed =>
            "http proxy closed the connection during CONNECT".to_owned(),
            HttpConnectError::HeaderTooLarge => "http proxy response header too large".to_owned(),
            HttpConnectError::Refused(line) => "http proxy CONNECT failed: ".to_owned().concat(
                line.as_str(),
            ),
        }
    }
}

/// What to do next.
pub enum HttpConnectAction {
    /// Read one byte.
    Read,
    /// The proxy is connected to the destination.
    Done,
    /// The handshake failed.
    Fail(HttpConnectError),
}

/// What a [`HttpConnectAction`] says.
#[verifier::ext_equal]
pub enum HttpConnectActionView {
    Read,
    Done,
    Fail(HttpConnectErrorView),
}

impl View for HttpConnectAction {
    type V = HttpConnectActionView;

    open spec fn view(&self) -> HttpConnectActionView {
        match *self {
            HttpConnectAction::Read => HttpConnectActionView::Read,
            HttpConnectAction::Done => HttpConnectActionView::Done,
            HttpConnectAction::Fail(e) => HttpConnectActionView::Fail(e@),
        }
    }
}

/// The verdict on a response.
pub open spec fn response_verdict(text: Seq<char>) -> HttpConnectActionView {
    if is_success(text) {
        HttpConnectActionView::Done
    } else {
        HttpConnectActionView::Fail(HttpConnectErrorView::Refused(first_line(text)))
    }
}

/// Whether the bytes of a response start as those of one that says that the proxy is connected.
pub open spec fn starts_connected(header: Seq<u8>) -> bool {
    encode_utf8("HTTP/1.1 200"@).is_prefix_of(header) || encode_utf8(
        "HTTP/1.0 200"@,
    ).is_prefix_of(header)
}

/// Whatever bytes a response holds, well-formed or not, its first twelve decide: it is taken for
/// success if and only if they are `HTTP/1.1 200` or `HTTP/1.0 200`.
pub proof fn law_status_decides(header: Seq<u8>)
    ensures
        response_verdict(text_of(header)) is Done <==> starts_connected(header),
        response_verdict(text_of(header)) is Done <==> {
            ||| encode_utf8("HTTP/1.1 200"@).is_prefix_of(header)
            ||| encode_utf8("HTTP/1.0 200"@).is_prefix_of(header)
        },
{
    reveal_strlit("HTTP/1.1 200");
    reveal_strlit("HTTP/1.0 200");
    law_ascii_start_is_kept(header, "HTTP/1.1 200"@);
    law_ascii_start_is_kept(header, "HTTP/1.0 200"@);
}

/// What to do when `header` has been read.
pub open spec fn http_step(header: Seq<u8>) -> HttpConnectActionView {
    if ends_header(header) {
        response_verdict(text_of(header))
    } else if header.len() > MAX_HEADER_SIZE {
        HttpConnectActionView::Fail(HttpConnectErrorView::HeaderTooLarge)
    } else {
        HttpConnectActionView::Read
    }
}

/// The first line of `text`, without its end.
pub fn first_line_of(text: &str) -> (line: &str)
    ensures
        line@ == first_line(text@),
{
    match split_once(text, '\n') {
        Some((line, _)) => {
            let n: usize = line.unicode_len();
            if n > 0 && line.get_char(n - 1) == '\r' {
                line.substring_char(0, n - 1)
            } else {
                line
            }
        },
        None => text,
    }
}

/// The verdict on the response `text`.
pub fn judge_response(text: &str) -> (a: HttpConnectAction)
    ensures
        a@ == response_verdict(text@),
{
    let ok: bool = strip_prefix(text, "HTTP/1.1 200").is_some() || strip_prefix(
        text,
        "HTTP/1.0 200",
    ).is_some();
    if ok {
        HttpConnectAction::Done
    } else {
        HttpConnectAction::Fail(HttpConnectError::Refused(first_line_of(text).to_owned()))
    }
}

/// A response that is being read.
pub struct HttpConnectHandshake {
    pub header: Vec<u8>,
}

impl HttpConnectHandshake {
    /// Nothing has been read.
    pub fn new() -> (h: Self)
        ensures
            h.header@ == Seq::<u8>::empty(),
    {
        HttpConnectHandshake { header: Vec::new() }
    }

    /// Whether the last line that was read is empty.
    fn at_end(&self) -> (b: bool)
        ensures
            b == ends_header(self.header@),
    {
        let n: usize = self.header.len();
        if n < 4 {
            return false;
        }
        let b: bool = self.header[n - 4] == 13 && self.header[n - 3] == 10 && self.header[n - 2]
            == 13 && self.header[n - 1] == 10;
        proof {
            let tail = self.header@.skip(n - 4);
            if b {
                assert(tail == seq![13u8, 10, 13, 10]);
            } else {
                assert(tail[0] == self.header@[n - 4]);
                assert(tail[1] == self.header@[n - 3]);
                assert(tail[2] == self.header@[n - 2]);
                assert(tail[3] == self.header@[n - 1]);
            }
        }
        b
    }

    /// Takes the next byte; none, if the proxy has closed the connection.
    pub fn advance(&mut self, byte: Option<u8>) -> (a: HttpConnectAction)
        ensures
            match byte {
                None => final(self).header@ == old(self).header@ && a@
                    == HttpConnectActionView::Fail(HttpConnectErrorView::Closed),
                Some(b) => final(self).header@ == old(self).header@.push(b) && a@ == http_step(
                    old(self).header@.push(b),
                ),
            },
            byte is Some && ends_header(final(self).header@) ==> (a@ is Done <==> starts_connected(
                final(self).header@,
            )),
    {
        match byte {
            None => HttpConnectAction::Fail(HttpConnectError::Closed),
            Some(b) => {
                self.header.push(b);
                proof {
                    law_status_decides(self.header@);
                }
                if self.at_end() {
                    judge_response(read_text(self.header.as_slice()).as_str())
                } else if self.header.len() > MAX_HEADER_SIZE {
                    HttpConnectAction::Fail(HttpConnectError::HeaderTooLarge)
                } else {
                    HttpConnectAction::Read
                }
            },
        }
    }
}

/// How a handshake that has read `header` ends on all that the proxy still sends, and what it
/// leaves unread.
pub open spec fn http_outcome(header: Seq<u8>, stream: Seq<u8>) -> (
    HttpConnectActionView,
    Seq<u8>,
)
    decreases stream.len(),
{
    if stream.len() == 0 {
        (HttpConnectActionView::Fail(HttpConnectErrorView::Closed), stream)
    } else {
        let read = header.push(stream[0]);
        let rest = stream.drop_first();
        match http_step(read) {
            HttpConnectActionView::Read => http_outcome(read, rest),
            end => (end, rest),
        }
    }
}

/// No header ends within the first `n` bytes of `stream`.
pub open spec fn open_for(stream: Seq<u8>, n: int) -> bool {
    forall|k: int| 0 <= k <= n ==> !ends_header(#[trigger] stream.take(k))
}

proof fn lemma_http_outcome(stream: Seq<u8>, at: int, n: int)
    requires
        0 <= at <= n <= stream.len(),
        at <= MAX_HEADER_SIZE,
        n <= MAX_HEADER_SIZE + 1,
        open_for(stream, n - 1),
    ensures
        at < n && ends_header(stream.take(n)) ==> http_outcome(stream.take(at), stream.skip(at))
            == (response_verdict(text_of(stream.take(n))), stream.skip(n)),
        !ends_header(stream.take(n)) && n == MAX_HEADER_SIZE + 1 ==> http_outcome(
            stream.take(at),
            stream.skip(at),
        ) == (
            HttpConnectActionView::Fail(HttpConnectErrorView::HeaderTooLarge),
            stream.skip(n),
        ),
        !ends_header(stream.take(n)) && n == stream.len() && n <= MAX_HEADER_SIZE ==> http_outcome(
            stream.take(at),
            stream.skip(at),
        ) == (HttpConnectActionView::Fail(HttpConnectErrorView::Closed), Seq::<u8>::empty()),
    decreases n - at,
{
    if at < n {
        let rest = stream.skip(at);
        assert(stream.take(at).push(rest[0]) == stream.take(at + 1));
        assert(rest.drop_first() == stream.skip(at + 1));
        if at + 1 < n {
            lemma_http_outcome(stream, at + 1, n);
        } else if at + 1 <= MAX_HEADER_SIZE {
            lemma_http_outcome(stream, n, n);
        }
    } else {
        assert(n == stream.len() ==> stream.skip(at) == Seq::<u8>::empty());
    }
}

/// A response is read up to its first empty line and not a byte further, and is judged by what
/// was read: what comes after it is left for the relay.
pub proof fn law_header_is_read_exactly(stream: Seq<u8>, n: int)
    requires
        0 <= n <= stream.len(),
        n <= MAX_HEADER_SIZE + 1,
        open_for(stream, n - 1),
        ends_header(stream.take(n)),
    ensures
        http_outcome(Seq::empty(), stream) == (
            response_verdict(text_of(stream.take(n))),
            stream.skip(n),
        ),
{
    lemma_http_outcome(stream, 0, n);
    assert(stream.take(0) == Seq::<u8>::empty());
    assert(stream.skip(0) == stream);
}

/// A handshake whose response ends within the limit succeeds if and only if the first bytes of
/// the response say so.
pub proof fn law_success_is_by_status(stream: Seq<u8>, n: int)
    requires
        0 <= n <= stream.len(),
        n <= MAX_HEADER_SIZE + 1,
        open_for(stream, n - 1),
        ends_header(stream.take(n)),
    ensures
        http_outcome(Seq::empty(), stream).0 is Done <==> starts_connected(stream.take(n)),
{
    law_header_is_read_exactly(stream, n);
    law_status_decides(stream.take(n));
}

/// A header that has not ended within the limit is given up one byte past it.
pub proof fn law_long_header_is_given_up(stream: Seq<u8>)
    requires
        stream.len() > MAX_HEADER_SIZE,
        open_for(stream, MAX_HEADER_SIZE + 1),
    ensures
        http_outcome(Seq::empty(), stream) == (
            HttpConnectActionView::Fail(HttpConnectErrorView::HeaderTooLarge),
            stream.skip(MAX_HEADER_SIZE + 1),
        ),
{
    lemma_http_outcome(stream, 0, MAX_HEADER_SIZE + 1);
    assert(!ends_header(stream.take(MAX_HEADER_SIZE + 1)));
    assert(stream.take(0) == Seq::<u8>::empty());
    assert(stream.skip(0) == stream);
}

/// A proxy that closes the connection before the header has ended within the limit is reported
/// as closed.
pub proof fn law_short_header_is_closed(stream: Seq<u8>)
    requires
        stream.len() <= MAX_HEADER_SIZE,
        open_for(stream, stream.len() as int),
    ensures
        http_outcome(Seq::empty(), stream) == (
            HttpConnectActionView::Fail(HttpConnectErrorView::Closed),
            Seq::<u8>::empty(),
        ),
{
    lemma_http_outcome(stream, 0, stream.len() as int);
    assert(!ends_header(stream.take(stream.len() as int)));
    assert(stream.take(0) == Seq::<u8>::empty());
    assert(stream.skip(0) == stream);
}

/// The name and password that a proxy reads from a token: what stands before and after the first
/// `:` of the text that it holds.
pub open spec fn token_meaning(token: Seq<char>) -> Option<(Seq<char>, Seq<char>)> {
    split_first(decode_utf8(base64_bytes(token, '+', '/')), ':')
}

/// The proxy reads from the token the name and the password. A name that holds a `:` is left
/// out: the proxy would part it there.
pub proof fn law_token_is_understood(user: Seq<char>, pass: Seq<char>)
    requires
        lacks(user, ':'),
    ensures
        token_meaning(token_of(user, pass)) == Some((user, pass)),
{
    let plain = user + ":"@ + pass;
    reveal_strlit(":");
    lemma_alphabets();
    law_base64_reads_back(encode_utf8(plain), '+', '/');
    encode_utf8_decode_utf8(plain);
    lemma_first_index(plain, ':', user.len() as int);
    assert(plain.take(user.len() as int) == user);
    assert(plain.skip(user.len() as int + 1) == pass);
}

/// The lines of the request to connect, each without the newline behind it.
pub open spec fn connect_lines(
    addr: Seq<char>,
    port: u16,
    credentials: Option<(Seq<char>, Seq<char>)>,
) -> Seq<Seq<char>> {
    let first = "CONNECT "@ + authority(addr, port) + " HTTP/1.1\r"@;
    let host = "Host: "@ + authority(addr, port) + "\r"@;
    let keep = "Proxy-Connection: Keep-Alive\r"@;
    match credentials {
        Some((user, pass)) => seq![
            first,
            host,
            "Proxy-Authorization: Basic "@ + token_of(user, pass) + "\r"@,
            keep,
            "\r"@,
            Seq::empty(),
        ],
        None => seq![first, host, keep, "\r"@, Seq::empty()],
    }
}

proof fn lemma_authority(addr: Seq<char>, port: u16)
    requires
        lacks(addr, '\n'),
    ensures
        lacks(authority(addr, port), '\n'),
{
    let d = decimal(port as nat);
    reveal_strlit(":");
    lemma_decimal(port as nat);
    assert forall|i: int| 0 <= i < authority(addr, port).len() implies authority(addr, port)[i]
        != '\n' by {
        if i > addr.len() {
            assert(is_digit(d[i - addr.len() - 1]));
        }
    }
}

proof fn lemma_token(user: Seq<char>, pass: Seq<char>)
    ensures
        lacks(token_of(user, pass), '\n'),
{
    let bytes = encode_utf8(user + ":"@ + pass);
    assert forall|i: int| 0 <= i < token_of(user, pass).len() implies token_of(user, pass)[i]
        != '\n' by {
        lemma_base64_chars(bytes, '+', '/', i);
    }
}

/// A text that ends in a carriage return and a newline, put behind another.
proof fn lemma_line_end(a: Seq<char>)
    ensures
        a + "\r\n"@ == a + "\r"@ + seq!['\n'],
{
    reveal_strlit("\r");
    reveal_strlit("\r\n");
    assert("\r\n"@ == "\r"@ + seq!['\n']);
    lemma_assoc(a, "\r"@, seq!['\n']);
}

/// The first two lines of the request.
proof fn lemma_first_lines(at: Seq<char>)
    ensures
        "CONNECT "@ + at + " HTTP/1.1\r\nHost: "@ + at + "\r\n"@ == ("CONNECT "@ + at
            + " HTTP/1.1\r"@) + seq!['\n'] + ("Host: "@ + at + "\r"@) + seq!['\n'],
{
    let n = seq!['\n'];
    let x = "CONNECT "@ + at;
    let first = x + " HTTP/1.1\r"@;
    reveal_strlit(" HTTP/1.1\r");
    reveal_strlit("Host: ");
    reveal_strlit(" HTTP/1.1\r\nHost: ");
    assert(" HTTP/1.1\r\nHost: "@ == " HTTP/1.1\r"@ + n + "Host: "@);
    lemma_assoc(x, " HTTP/1.1\r"@ + n, "Host: "@);
    lemma_assoc(x, " HTTP/1.1\r"@, n);
    lemma_assoc(first + n, "Host: "@, at);
    lemma_line_end(first + n + ("Host: "@ + at));
    lemma_assoc(first + n, "Host: "@ + at, "\r"@);
}

/// The last lines of the request, put behind others.
proof fn lemma_last_lines(a: Seq<char>)
    ensures
        a + "Proxy-Connection: Keep-Alive\r\n\r\n"@ == a + "Proxy-Connection: Keep-Alive\r"@ + seq![
            '\n',
        ] + "\r"@ + seq!['\n'],
{
    let n = seq!['\n'];
    let keep = "Proxy-Connection: Keep-Alive\r"@;
    reveal_strlit("\r");
    reveal_strlit("Proxy-Connection: Keep-Alive\r");
    reveal_strlit("Proxy-Connection: Keep-Alive\r\n\r\n");
    assert("Proxy-Connection: Keep-Alive\r\n\r\n"@ == keep + n + "\r"@ + n);
    lemma_assoc(a, keep + n + "\r"@, n);
    lemma_assoc(a, keep + n, "\r"@);
    lemma_assoc(a, keep, n);
}

/// The request is its lines with newlines between them.
proof fn lemma_request_is_joined(
    addr: Seq<char>,
    port: u16,
    credentials: Option<(Seq<char>, Seq<char>)>,
)
    ensures
        connect_text(addr, port, credentials) == joined(
            connect_lines(addr, port, credentials),
            '\n',
        ),
{
    let n = seq!['\n'];
    let none = Seq::<char>::empty();
    let lines = connect_lines(addr, port, credentials);
    let one = seq![lines[0]];
    let two = one.push(lines[1]);
    let head = lines[0] + n + lines[1] + n;
    lemma_first_lines(authority(addr, port));
    lemma_joined_push(one, lines[1], '\n');
    match credentials {
        Some((user, pass)) => {
            let x = "Proxy-Authorization: Basic "@ + token_of(user, pass);
            let three = two.push(lines[2]);
            let four = three.push(lines[3]);
            let five = four.push(lines[4]);
            lemma_line_end(x);
            lemma_assoc(head, x + "\r"@, n);
            lemma_last_lines(head + lines[2] + n);
            lemma_joined_push(two, lines[2], '\n');
            lemma_joined_push(three, lines[3], '\n');
            lemma_joined_push(four, lines[4], '\n');
            lemma_joined_push(five, none, '\n');
            assert(five.push(none) == lines);
            assert(joined(five, '\n') + n + none == joined(five, '\n') + n);
        },
        None => {
            let three = two.push(lines[2]);
            let four = three.push(lines[3]);
            assert(head + none == head);
            lemma_last_lines(head);
            lemma_joined_push(two, lines[2], '\n');
            lemma_joined_push(three, lines[3], '\n');
            lemma_joined_push(four, none, '\n');
            assert(four.push(none) == lines);
            assert(joined(four, '\n') + n + none == joined(four, '\n') + n);
        },
    }
}

/// A proxy that reads the request line by line finds the lines that were meant and an empty one
/// behind them, whatever the name and password are. A newline in the host would part its lines.
pub proof fn law_request_has_its_lines(
    addr: Seq<char>,
    port: u16,
    credentials: Option<(Seq<char>, Seq<char>)>,
)
    requires
        lacks(addr, '\n'),
    ensures
        pieces(connect_text(addr, port, credentials), '\n') == connect_lines(
            addr,
            port,
            credentials,
        ),
{
    let lines = connect_lines(addr, port, credentials);
    lemma_authority(addr, port);
    reveal_strlit("CONNECT ");
    reveal_strlit(" HTTP/1.1\r");
    reveal_strlit("Host: ");
    reveal_strlit("\r");
    reveal_strlit("Proxy-Connection: Keep-Alive\r");
    reveal_strlit("Proxy-Authorization: Basic ");
    if let Some((user, pass)) = credentials {
        lemma_token(user, pass);
    }
    assert forall|i: int| 0 <= i < lines.len() implies lacks(#[trigger] lines[i], '\n') by {}
    lemma_joined(lines, '\n');
    lemma_request_is_joined(addr, port, credentials);
}

/// A target is the whole host and the port: parted at its last `:`, it gives back both.
pub proof fn law_target_is_the_destination(addr: Seq<char>, port: u16)
    ensures
        split_last(authority(addr, port), ':') == Some((addr, decimal(port as nat))),
        unsigned_value(decimal(port as nat), 0xffff) == Some(port as nat),
{
    let s = authority(addr, port);
    let d = decimal(port as nat);
    reveal_strlit(":");
    lemma_decimal(port as nat);
    lemma_decimal_reads_back(port as nat, 0xffff);
    assert forall|i: int| addr.len() < i < s.len() implies s[i] != ':' by {
        assert(s[i] == d[i - addr.len() - 1]);
        assert(is_digit(d[i - addr.len() - 1]));
    }
    lemma_last_index(s, ':', addr.len() as int);
    assert(s.take(addr.len() as int) == addr);
    assert(s.skip(addr.len() as int + 1) == d);
}

/// The request asks for one target, in its first line and in the line `Host`, and that target is
/// the whole host and the port that it is for, whatever they are. With credentials, and only
/// then, it carries a token, which holds the name, a `:` and the password; the last line is empty.
pub proof fn law_request_asks_for_the_destination(
    addr: Seq<char>,
    port: u16,
    credentials: Option<(Seq<char>, Seq<char>)>,
) -> (found: (Seq<char>, Seq<char>))
    ensures
        ({
            let (target, token) = found;
            let auth = match credentials {
                Some(_) => "Proxy-Authorization: Basic "@ + token + "\r\n"@,
                None => Seq::empty(),
            };
            &&& connect_text(addr, port, credentials) == "CONNECT "@ + target
                + " HTTP/1.1\r\nHost: "@ + target + "\r\n"@ + auth
                + "Proxy-Connection: Keep-Alive\r\n\r\n"@
            &&& split_last(target, ':') matches Some((host, t)) && host == addr && unsigned_value(
                t,
                0xffff,
            ) == Some(port as nat) && t == decimal(port as nat)
            &&& credentials matches Some((user, pass)) ==> decode_utf8(
                base64_bytes(token, '+', '/'),
            ) == user + ":"@ + pass
        }),
{
    let target = authority(addr, port);
    law_target_is_the_destination(addr, port);
    match credentials {
        Some((user, pass)) => {
            let plain = user + ":"@ + pass;
            lemma_alphabets();
            law_base64_reads_back(encode_utf8(plain), '+', '/');
            encode_utf8_decode_utf8(plain);
            (target, token_of(user, pass))
        },
        None => (target, Seq::empty()),
    }
}

/// A header ends where its last four bytes are two line ends.
pub proof fn law_header_ends_in_two_line_ends(header: Seq<u8>)
    ensures
        ends_header(header) <==> {
            let n = header.len() as int;
            &&& n >= 4
            &&& header[n - 4] == 13
            &&& header[n - 3] == 10
            &&& header[n - 2] == 13
            &&& header[n - 1] == 10
        },
{
    let n = header.len() as int;
    if n >= 4 {
        let tail = header.skip(n - 4);
        assert(tail[0] == header[n - 4]);
        assert(tail[1] == header[n - 3]);
        assert(tail[2] == header[n - 2]);
        assert(tail[3] == header[n - 1]);
        if header[n - 4] == 13 && header[n - 3] == 10 && header[n - 2] == 13 && header[n - 1]
            == 10 {
            assert(tail == seq![13u8, 10, 13, 10]);
        }
    }
}

/// Reading goes on while the header has not ended and has at most 8192 bytes, is given up when it
/// has more, and ends with a verdict when the header has ended, however long it is.
pub proof fn law_reading_has_a_limit(header: Seq<u8>)
    ensures
        http_step(header) is Read <==> !ends_header(header) && header.len() <= 8192,
        http_step(header) == HttpConnectActionView::Fail(HttpConnectErrorView::HeaderTooLarge)
            <==> !ends_header(header) && header.len() > 8192,
        ends_header(header) ==> (http_step(header) is Done <==> encode_utf8(
            "HTTP/1.1 200"@,
        ).is_prefix_of(header) || encode_utf8("HTTP/1.0 200"@).is_prefix_of(header)),
{
    law_status_decides(header);
}

/// A response that does not say that the proxy is connected is refused with its first line: what
/// stands before the first newline, without a carriage return at its end, or all of it where
/// there is no newline.
pub proof fn law_refusal_tells_the_first_line(text: Seq<char>, line: Seq<char>, rest: Seq<char>)
    requires
        lacks(line, '\n'),
        after_prefix(text, "HTTP/1.1 200"@) is None,
        after_prefix(text, "HTTP/1.0 200"@) is None,
    ensures
        text == line ==> response_verdict(text) == HttpConnectActionView::Fail(
            HttpConnectErrorView::Refused(line),
        ),
        text == line + seq!['\r', '\n'] + rest ==> response_verdict(text)
            == HttpConnectActionView::Fail(HttpConnectErrorView::Refused(line)),
        text == line + seq!['\n'] + rest && (line.len() == 0 || line.last() != '\r')
            ==> response_verdict(text) == HttpConnectActionView::Fail(
            HttpConnectErrorView::Refused(line),
        ),
{
    if text == line {
        lemma_first_index(text, '\n', text.len() as int);
    }
    if text == line + seq!['\r', '\n'] + rest {
        let n = line.len() as int;
        lemma_first_index(text, '\n', n + 1);
        assert(text.take(n + 1) == line.push('\r'));
        assert(line.push('\r').drop_last() == line);
    }
    if text == line + seq!['\n'] + rest {
        let n = line.len() as int;
        lemma_first_index(text, '\n', n);
        assert(text.take(n) == line);
    }
}

/// A response is taken for success if and only if its text starts as one.
pub proof fn law_success_starts_the_text(text: Seq<char>)
    ensures
        response_verdict(text) is Done <==> after_prefix(text, "HTTP/1.1 200"@) is Some
            || after_prefix(text, "HTTP/1.0 200"@) is Some,
        !(response_verdict(text) is Done) ==> response_verdict(text) matches
            HttpConnectActionView::Fail(HttpConnectErrorView::Refused(_)),
{
}

/// The errors say what went wrong, a refusal with the proxy's line.
pub proof fn law_http_errors_are_told(line: Seq<char>)
    ensures
        http_message(HttpConnectErrorView::Refused(line)) == "http proxy CONNECT failed: "@ + line,
        http_message(HttpConnectErrorView::Closed)
            == "http proxy closed the connection during CONNECT"@,
        http_message(HttpConnectErrorView::HeaderTooLarge)
            == "http proxy response header too large"@,
{
}

/// Errors and actions are seen as what they hold.
pub proof fn law_http_actions_are_seen_whole(e: HttpConnectError, a: HttpConnectAction)
    ensures
        e is Closed ==> e@ is Closed,
        e is HeaderTooLarge ==> e@ is HeaderTooLarge,
        e matches HttpConnectError::Refused(line) ==> e@ == HttpConnectErrorView::Refused(line@),
        a is Read ==> a@ is Read,
        a is Done ==> a@ is Done,
        a matches HttpConnectAction::Fail(f) ==> a@ == HttpConnectActionView::Fail(f@),
{
}

/// The first line of a text is what stands before the first newline, without a carriage return at
/// its end, or all of it where there is no newline.
pub proof fn law_first_line_ends_at_the_newline(line: Seq<char>, rest: Seq<char>)
    requires
        lacks(line, '\n'),
    ensures
        first_line(line) == line,
        first_line(line + seq!['\r', '\n'] + rest) == line,
        line.len() == 0 || line.last() != '\r' ==> first_line(line + seq!['\n'] + rest) == line,
{
    let n = line.len() as int;
    let a = line + seq!['\r', '\n'] + rest;
    let b = line + seq!['\n'] + rest;
    lemma_first_index(line, '\n', n);
    lemma_first_index(a, '\n', n + 1);
    assert(a.take(n + 1) == line.push('\r'));
    assert(line.push('\r').drop_last() == line);
    lemma_first_index(b, '\n', n);
    assert(b.take(n) == line);
}

} // verus!

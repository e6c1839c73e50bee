//! The client's side of a SOCKS version 5 handshake, as a machine that is told what the proxy
//! replied and says what to send and how much to read next.

use crate::config::credentials_view;
use crate::ip_text::{dotted_octets, ipv6_octets, is_octet_text, parse_ip, IpOctets};
use crate::text::{
    decimal, decimal_text, is_digit, joined, lacks, lemma_decimal, lemma_joined,
    lemma_no_leading_zero, number_value,
};
use vstd::prelude::*;
use vstd::string::*;
use vstd::utf8::encode_utf8;

verus! {

/// Where the proxy is asked to connect to.
pub enum Destination {
    V4([u8; 4]),
    V6([u8; 16]),
    Domain(String),
}

/// Why a handshake failed.
#[derive(Clone, Copy, Debug, PartialEq, Eq, Structural)]
pub enum Socks5Error {
    InvalidGreeting,
    AuthenticationRequired,
    CredentialsTooLong,
    AuthenticationFailed,
    NoAcceptableMethod,
    UnsupportedMethod(u8),
    Refused(u8),
    InvalidAddressType,
}

/// Which reply of the proxy is awaited.
#[derive(Clone, Copy, Debug, PartialEq, Eq, Structural)]
pub enum Phase {
    /// The method that it selects.
    Greeting,
    /// Its verdict on the credentials.
    Authenticating,
    /// The head of its reply to the request.
    Connecting,
    /// The length of the domain that it is bound to.
    BoundLength,
    /// The address and port that it is bound to, in so many bytes.
    Bound(usize),
    /// None: the proxy is connected.
    Connected,
    /// None: the handshake failed.
    Failed(Socks5Error),
}

/// What to do next.
pub enum Socks5Action {
    /// Send the bytes, then read exactly so many.
    Exchange { send: Vec<u8>, read: usize },
    /// The proxy is connected to the destination.
    Done,
    /// The handshake failed.
    Fail(Socks5Error),
}

/// What a [`Socks5Action`] says.
#[verifier::ext_equal]
pub enum Socks5ActionView {
    Exchange { send: Seq<u8>, read: usize },
    Done,
    Fail(Socks5Error),
}

impl View for Socks5Action {
    type V = Socks5ActionView;

    open spec fn view(&self) -> Socks5ActionView {
        match *self {
            Socks5Action::Exchange { send, read } => Socks5ActionView::Exchange {
                send: send@,
                read,
            },
            Socks5Action::Done => Socks5ActionView::Done,
            Socks5Action::Fail(e) => Socks5ActionView::Fail(e),
        }
    }
}

/// A handshake in progress.
pub struct Socks5Handshake {
    pub destination: Destination,
    pub port: u16,
    pub credentials: Option<(String, String)>,
    pub phase: Phase,
}

/// What a handshake is for.
#[verifier::ext_equal]
pub struct Socks5Request {
    pub destination: Destination,
    pub port: u16,
    pub credentials: Option<(Seq<char>, Seq<char>)>,
}

/// The methods that are offered: none at all, and with credentials also name and password.
pub open spec fn greeting_bytes(with_credentials: bool) -> Seq<u8> {
    if with_credentials {
        seq![5u8, 2, 0, 2]
    } else {
        seq![5u8, 1, 0]
    }
}

/// A name and a password, each behind its length.
pub open spec fn auth_bytes(user: Seq<u8>, pass: Seq<u8>) -> Seq<u8> {
    seq![1u8, user.len() as u8] + user + seq![pass.len() as u8] + pass
}

/// The type of an address, and the address. A domain stands behind its length, of which one
/// byte is sent.
pub open spec fn address_bytes(d: Destination) -> Seq<u8> {
    match d {
        Destination::V4(ip) => seq![1u8] + ip@,
        Destination::V6(ip) => seq![4u8] + ip@,
        Destination::Domain(name) => seq![3u8, (encode_utf8(name@).len() % 256) as u8]
            + encode_utf8(name@),
    }
}

/// A port, the more significant byte first.
pub open spec fn port_bytes(port: u16) -> Seq<u8> {
    seq![(port / 256) as u8, (port % 256) as u8]
}

/// The request to connect.
pub open spec fn connect_bytes(d: Destination, port: u16) -> Seq<u8> {
    seq![5u8, 1, 0] + address_bytes(d) + port_bytes(port)
}

/// How many bytes the awaited reply has.
pub open spec fn awaited_len(phase: Phase) -> nat {
    match phase {
        Phase::Greeting => 2,
        Phase::Authenticating => 2,
        Phase::Connecting => 4,
        Phase::BoundLength => 1,
        Phase::Bound(n) => n as nat,
        Phase::Connected => 0,
        Phase::Failed(_) => 0,
    }
}

/// The handshake ends with an error.
pub open spec fn socks5_fail(e: Socks5Error) -> (Phase, Socks5ActionView) {
    (Phase::Failed(e), Socks5ActionView::Fail(e))
}

/// Some bytes are sent, and the reply of `phase` is awaited.
pub open spec fn socks5_read(phase: Phase, send: Seq<u8>) -> (Phase, Socks5ActionView) {
    (phase, Socks5ActionView::Exchange { send, read: awaited_len(phase) as usize })
}

/// The answer to the method that the proxy selected.
pub open spec fn socks5_after_greeting(r: Socks5Request, reply: Seq<u8>) -> (
    Phase,
    Socks5ActionView,
) {
    if reply[0] != 5 {
        socks5_fail(Socks5Error::InvalidGreeting)
    } else if reply[1] == 0 {
        socks5_read(Phase::Connecting, connect_bytes(r.destination, r.port))
    } else if reply[1] == 2 {
        match r.credentials {
            None => socks5_fail(Socks5Error::AuthenticationRequired),
            Some((user, pass)) => if encode_utf8(user).len() > 255 || encode_utf8(pass).len()
                > 255 {
                socks5_fail(Socks5Error::CredentialsTooLong)
            } else {
                socks5_read(
                    Phase::Authenticating,
                    auth_bytes(encode_utf8(user), encode_utf8(pass)),
                )
            },
        }
    } else if reply[1] == 255 {
        socks5_fail(Socks5Error::NoAcceptableMethod)
    } else {
        socks5_fail(Socks5Error::UnsupportedMethod(reply[1]))
    }
}

/// The answer to the head of the reply to the request.
pub open spec fn socks5_after_head(reply: Seq<u8>) -> (Phase, Socks5ActionView) {
    if reply[1] != 0 {
        socks5_fail(Socks5Error::Refused(reply[1]))
    } else if reply[3] == 1 {
        socks5_read(Phase::Bound(6), Seq::empty())
    } else if reply[3] == 3 {
        socks5_read(Phase::BoundLength, Seq::empty())
    } else if reply[3] == 4 {
        socks5_read(Phase::Bound(18), Seq::empty())
    } else {
        socks5_fail(Socks5Error::InvalidAddressType)
    }
}

/// The answer to each reply.
pub open spec fn socks5_step(r: Socks5Request, phase: Phase, reply: Seq<u8>) -> (
    Phase,
    Socks5ActionView,
) {
    match phase {
        Phase::Greeting => socks5_after_greeting(r, reply),
        Phase::Authenticating => if reply[1] != 0 {
            socks5_fail(Socks5Error::AuthenticationFailed)
        } else {
            socks5_read(Phase::Connecting, connect_bytes(r.destination, r.port))
        },
        Phase::Connecting => socks5_after_head(reply),
        Phase::BoundLength => socks5_read(Phase::Bound((reply[0] + 2) as usize), Seq::empty()),
        Phase::Bound(_) => (Phase::Connected, Socks5ActionView::Done),
        Phase::Connected => (Phase::Connected, Socks5ActionView::Done),
        Phase::Failed(e) => socks5_fail(e),
    }
}

/// Appends `more` to `bytes`.
fn append_bytes(bytes: &mut Vec<u8>, more: &[u8])
    ensures
        final(bytes)@ == old(bytes)@ + more@,
{
    bytes.extend_from_slice(more);
    assert(bytes@ == old(bytes)@ + more@);
}

/// The type and the bytes of the address that a text writes; what writes no IP address is a
/// domain.
pub open spec fn address_of(text: Seq<char>) -> (u8, Seq<u8>) {
    match dotted_octets(text) {
        Some(octets) => (1u8, octets),
        None => match ipv6_octets(text) {
            Some(octets) => (4u8, octets),
            None => (3u8, encode_utf8(text)),
        },
    }
}

/// The destination that a text writes.
pub fn destination_of(addr: &str) -> (d: Destination)
    ensures
        destination_meaning(d) == address_of(addr@),
{
    match parse_ip(addr) {
        Some(IpOctets::V4(ip)) => Destination::V4(ip),
        Some(IpOctets::V6(ip)) => Destination::V6(ip),
        None => Destination::Domain(addr.to_owned()),
    }
}

impl Socks5Handshake {
    /// What this handshake is for.
    pub open spec fn request(self) -> Socks5Request {
        Socks5Request {
            destination: self.destination,
            port: self.port,
            credentials: credentials_view(self.credentials),
        }
    }

    /// A handshake that asks for `destination` at `port`.
    pub fn new(
        destination: Destination,
        port: u16,
        credentials: Option<(String, String)>,
    ) -> (h: Self)
        ensures
            h.request() == (Socks5Request {
                destination,
                port,
                credentials: credentials_view(credentials),
            }),
            h.phase == Phase::Greeting,
    {
        Socks5Handshake { destination, port, credentials, phase: Phase::Greeting }
    }

    /// A handshake that asks for the destination that a text writes.
    pub fn for_address(
        addr: &str,
        port: u16,
        credentials: Option<(String, String)>,
    ) -> (h: Self)
        ensures
            destination_meaning(h.destination) == address_of(addr@),
            h.request() == (Socks5Request {
                destination: h.destination,
                port,
                credentials: credentials_view(credentials),
            }),
            h.phase == Phase::Greeting,
    {
        Self::new(destination_of(addr), port, credentials)
    }

    /// The greeting, which is sent before any reply.
    pub fn start(&self) -> (a: Socks5Action)
        ensures
            a@ == (Socks5ActionView::Exchange {
                send: greeting_bytes(self.request().credentials is Some),
                read: 2,
            }),
    {
        let send: Vec<u8> = if self.credentials.is_some() {
            vec![5u8, 2, 0, 2]
        } else {
            vec![5u8, 1, 0]
        };
        Socks5Action::Exchange { send, read: 2 }
    }

    /// The request to connect.
    fn connect_request(&self) -> (bytes: Vec<u8>)
        ensures
            bytes@ == connect_bytes(self.destination, self.port),
    {
        let mut bytes: Vec<u8> = vec![5u8, 1, 0];
        match &self.destination {
            Destination::V4(ip) => {
                bytes.push(1);
                append_bytes(&mut bytes, ip.as_slice());
            },
            Destination::V6(ip) => {
                bytes.push(4);
                append_bytes(&mut bytes, ip.as_slice());
            },
            Destination::Domain(name) => {
                let name: &[u8] = name.as_str().as_bytes();
                bytes.push(3);
                bytes.push((name.len() % 256) as u8);
                append_bytes(&mut bytes, name);
            },
        }
        bytes.push((self.port / 256) as u8);
        bytes.push((self.port % 256) as u8);
        assert(bytes@ == connect_bytes(self.destination, self.port));
        bytes
    }

    /// Sends the request to connect and awaits the head of the reply.
    fn connect(&mut self) -> (a: Socks5Action)
        ensures
            final(self).request() == old(self).request(),
            (final(self).phase, a@) == socks5_read(
                Phase::Connecting,
                connect_bytes(old(self).destination, old(self).port),
            ),
    {
        let send: Vec<u8> = self.connect_request();
        self.phase = Phase::Connecting;
        Socks5Action::Exchange { send, read: 4 }
    }

    /// Ends the handshake with an error.
    fn fail(&mut self, e: Socks5Error) -> (a: Socks5Action)
        ensures
            final(self).request() == old(self).request(),
            (final(self).phase, a@) == socks5_fail(e),
    {
        self.phase = Phase::Failed(e);
        Socks5Action::Fail(e)
    }

    /// Reads `n` more bytes of the reply to the request.
    fn bound(&mut self, phase: Phase, n: usize) -> (a: Socks5Action)
        requires
            awaited_len(phase) == n,
        ensures
            final(self).request() == old(self).request(),
            (final(self).phase, a@) == socks5_read(phase, Seq::empty()),
    {
        self.phase = phase;
        Socks5Action::Exchange { send: Vec::new(), read: n }
    }

    /// Sends the name and password, if there are any that can be sent.
    fn authenticate(&mut self) -> (a: Socks5Action)
        ensures
            final(self).request() == old(self).request(),
            (final(self).phase, a@) == socks5_after_greeting(old(self).request(), seq![5u8, 2]),
    {
        let send: Vec<u8> = match &self.credentials {
            None => {
                return self.fail(Socks5Error::AuthenticationRequired);
            },
            Some((user, pass)) => {
                let user: &[u8] = user.as_str().as_bytes();
                let pass: &[u8] = pass.as_str().as_bytes();
                if user.len() > 255 || pass.len() > 255 {
                    return self.fail(Socks5Error::CredentialsTooLong);
                }
                let mut bytes: Vec<u8> = vec![1u8, user.len() as u8];
                append_bytes(&mut bytes, user);
                bytes.push(pass.len() as u8);
                append_bytes(&mut bytes, pass);
                assert(bytes@ == auth_bytes(user@, pass@));
                bytes
            },
        };
        self.phase = Phase::Authenticating;
        Socks5Action::Exchange { send, read: 2 }
    }

    /// Takes the awaited reply.
    pub fn advance(&mut self, reply: &[u8]) -> (a: Socks5Action)
        requires
            reply@.len() == awaited_len(old(self).phase),
        ensures
            final(self).request() == old(self).request(),
            (final(self).phase, a@) == socks5_step(old(self).request(), old(self).phase, reply@),
    {
        match self.phase {
            Phase::Greeting => {
                if reply[0] != 5 {
                    return self.fail(Socks5Error::InvalidGreeting);
                }
                assert(reply@ == seq![5u8, reply@[1]]);
                match reply[1] {
                    0 => self.connect(),
                    2 => self.authenticate(),
                    255 => self.fail(Socks5Error::NoAcceptableMethod),
                    other => self.fail(Socks5Error::UnsupportedMethod(other)),
                }
            },
            Phase::Authenticating => {
                if reply[1] != 0 {
                    self.fail(Socks5Error::AuthenticationFailed)
                } else {
                    self.connect()
                }
            },
            Phase::Connecting => {
                if reply[1] != 0 {
                    return self.fail(Socks5Error::Refused(reply[1]));
                }
                match reply[3] {
                    1 => self.bound(Phase::Bound(6), 6),
                    3 => self.bound(Phase::BoundLength, 1),
                    4 => self.bound(Phase::Bound(18), 18),
                    _ => self.fail(Socks5Error::InvalidAddressType),
                }
            },
            Phase::BoundLength => {
                let n: usize = reply[0] as usize + 2;
                self.bound(Phase::Bound(n), n)
            },
            Phase::Bound(_) => {
                self.phase = Phase::Connected;
                Socks5Action::Done
            },
            Phase::Connected => Socks5Action::Done,
            Phase::Failed(e) => Socks5Action::Fail(e),
        }
    }
}

/// What an error says.
pub open spec fn socks5_message(e: Socks5Error) -> Seq<char> {
    match e {
        Socks5Error::InvalidGreeting => "socks5 proxy sent an invalid greeting reply"@,
        Socks5Error::AuthenticationRequired =>
        "socks5 proxy requires username/password authentication"@,
        Socks5Error::CredentialsTooLong =>
        "socks5 username/password must each be at most 255 bytes"@,
        Socks5Error::AuthenticationFailed => "socks5 proxy authentication failed"@,
        Socks5Error::NoAcceptableMethod => "socks5 proxy rejected all offered auth methods"@,
        Socks5Error::UnsupportedMethod(m) => "socks5 proxy selected an unsupported auth method ("@
            + decimal(m as nat) + ")"@,
        Socks5Error::Refused(c) => "socks5 proxy refused connection (code "@ + decimal(c as nat)
            + ")"@,
        Socks5Error::InvalidAddressType => "socks5 proxy returned an invalid address type"@,
    }
}

impl Socks5Error {
    /// What the error says.
    pub fn message(&self) -> (t: String)
        ensures
            t@ == socks5_message(*self),
    {
        match self {
            Socks5Error::InvalidGreeting =>
            "socks5 proxy sent an invalid greeting reply".to_owned(),
            Socks5Error::AuthenticationRequired =>
            "socks5 proxy requires username/password authentication".to_owned(),
            Socks5Error::CredentialsTooLong =>
            "socks5 username/password must each be at most 255 bytes".to_owned(),
            Socks5Error::AuthenticationFailed => "socks5 proxy authentication failed".to_owned(),
            Socks5Error::NoAcceptableMethod =>
            "socks5 proxy rejected all offered auth methods".to_owned(),
            Socks5Error::UnsupportedMethod(m) =>
            "socks5 proxy selected an unsupported auth method (".to_owned().concat(
                decimal_text(*m as u64).as_str(),
            ).concat(")"),
            Socks5Error::Refused(c) => "socks5 proxy refused connection (code ".to_owned().concat(
                decimal_text(*c as u64).as_str(),
            ).concat(")"),
            Socks5Error::InvalidAddressType =>
            "socks5 proxy returned an invalid address type".to_owned(),
        }
    }
}

/// How many replies may still come.
pub open spec fn socks5_rank(phase: Phase) -> nat {
    match phase {
        Phase::Greeting => 5,
        Phase::Authenticating => 4,
        Phase::Connecting => 3,
        Phase::BoundLength => 2,
        Phase::Bound(_) => 1,
        Phase::Connected => 0,
        Phase::Failed(_) => 0,
    }
}

/// How a handshake ends on all that the proxy sends, and what it leaves unread; none, if the
/// proxy stops before the end.
pub open spec fn socks5_outcome(r: Socks5Request, phase: Phase, stream: Seq<u8>) -> Option<
    (Result<(), Socks5Error>, Seq<u8>),
>
    decreases socks5_rank(phase),
{
    match phase {
        Phase::Connected => Some((Ok(()), stream)),
        Phase::Failed(e) => Some((Err(e), stream)),
        _ => {
            let n = awaited_len(phase) as int;
            if stream.len() < n {
                None
            } else {
                socks5_outcome(r, socks5_step(r, phase, stream.take(n)).0, stream.skip(n))
            }
        },
    }
}

/// The address and port that a proxy reads from a request to connect: the type of the address,
/// its bytes, the port.
pub open spec fn connect_meaning(bytes: Seq<u8>) -> Option<(u8, Seq<u8>, int)> {
    if bytes.len() < 5 || bytes.take(3) != seq![5u8, 1, 0] {
        None
    } else {
        let from: int = if bytes[3] == 3 {
            5
        } else {
            4
        };
        let len: int = if bytes[3] == 1 {
            4
        } else if bytes[3] == 4 {
            16
        } else {
            bytes[4] as int
        };
        if !(bytes[3] == 1 || bytes[3] == 3 || bytes[3] == 4) || bytes.len() != from + len + 2 {
            None
        } else {
            Some(
                (
                    bytes[3],
                    bytes.subrange(from, from + len),
                    bytes[from + len] * 256 + bytes[from + len + 1],
                ),
            )
        }
    }
}

/// The name and password that a proxy reads.
pub open spec fn auth_meaning(bytes: Seq<u8>) -> Option<(Seq<u8>, Seq<u8>)> {
    if bytes.len() < 2 || bytes[0] != 1 || bytes.len() < bytes[1] + 3 {
        None
    } else {
        let at = 2 + bytes[1];
        if bytes.len() != at + 1 + bytes[at] {
            None
        } else {
            Some((bytes.subrange(2, at), bytes.skip(at + 1)))
        }
    }
}

/// The type and the bytes of an address.
pub open spec fn destination_meaning(d: Destination) -> (u8, Seq<u8>) {
    match d {
        Destination::V4(ip) => (1u8, ip@),
        Destination::V6(ip) => (4u8, ip@),
        Destination::Domain(name) => (3u8, encode_utf8(name@)),
    }
}

/// The length of a domain fits the one byte that is sent of it.
pub open spec fn destination_fits(d: Destination) -> bool {
    d matches Destination::Domain(name) ==> encode_utf8(name@).len() <= 255
}

/// The proxy reads from the request the destination and the port that it is for.
pub proof fn law_connect_request_is_understood(d: Destination, port: u16)
    requires
        destination_fits(d),
    ensures
        connect_meaning(connect_bytes(d, port)) == Some(
            (destination_meaning(d).0, destination_meaning(d).1, port as int),
        ),
{
    let bytes = connect_bytes(d, port);
    assert(bytes.take(3) == seq![5u8, 1, 0]);
    match d {
        Destination::V4(ip) => {
            assert(bytes.subrange(4, 8) == ip@);
        },
        Destination::V6(ip) => {
            assert(bytes.subrange(4, 20) == ip@);
        },
        Destination::Domain(name) => {
            let n = encode_utf8(name@);
            assert(bytes.subrange(5, (5 + n.len()) as int) == n);
        },
    }
}

/// The proxy reads from the request for the destination that a text writes the type and the bytes
/// of that address: those of an IP address where the text writes one, else the text as a domain.
pub proof fn law_text_is_asked_for(text: Seq<char>, d: Destination, port: u16)
    requires
        destination_meaning(d) == address_of(text),
        address_of(text).1.len() <= 255,
    ensures
        connect_meaning(connect_bytes(d, port)) == Some(
            (address_of(text).0, address_of(text).1, port as int),
        ),
{
    law_connect_request_is_understood(d, port);
}

/// A text that is not in dot-decimal notation and holds no `:` is asked for as a domain.
pub proof fn law_name_is_a_domain(text: Seq<char>)
    requires
        dotted_octets(text) is None,
        lacks(text, ':'),
    ensures
        address_of(text) == (3u8, encode_utf8(text)),
{
}

/// Four octets in dot-decimal notation are asked for as those octets.
pub proof fn law_dotted_text_is_an_address(a: u8, b: u8, c: u8, d: u8)
    ensures
        address_of(
            joined(
                seq![decimal(a as nat), decimal(b as nat), decimal(c as nat), decimal(d as nat)],
                '.',
            ),
        ) == (1u8, seq![a, b, c, d]),
{
    let octets = seq![a, b, c, d];
    let texts = seq![decimal(a as nat), decimal(b as nat), decimal(c as nat), decimal(d as nat)];
    assert forall|i: int| 0 <= i < 4 implies is_octet_text(#[trigger] texts[i]) && lacks(
        texts[i],
        '.',
    ) && number_value(texts[i]) == octets[i] by {
        assert(texts[i] == decimal(octets[i] as nat));
        lemma_decimal(octets[i] as nat);
        lemma_no_leading_zero(octets[i] as nat);
        assert forall|j: int| 0 <= j < texts[i].len() implies texts[i][j] != '.' by {
            assert(is_digit(texts[i][j]));
        }
    }
    lemma_joined(texts, '.');
    assert(texts.map_values(|s: Seq<char>| number_value(s) as u8) == octets);
}

/// The proxy reads from what is sent the name and the password.
pub proof fn law_credentials_are_understood(user: Seq<u8>, pass: Seq<u8>)
    requires
        user.len() <= 255,
        pass.len() <= 255,
    ensures
        auth_meaning(auth_bytes(user, pass)) == Some((user, pass)),
{
    let bytes = auth_bytes(user, pass);
    assert(bytes.subrange(2, (2 + user.len()) as int) == user);
    assert(bytes.skip((3 + user.len()) as int) == pass);
}

/// Each reply brings the handshake nearer to its end: it takes at most five.
pub proof fn law_handshake_ends(r: Socks5Request, phase: Phase, reply: Seq<u8>)
    requires
        !(phase is Connected),
        !(phase is Failed),
    ensures
        socks5_rank(socks5_step(r, phase, reply).0) < socks5_rank(phase),
        socks5_rank(Phase::Greeting) == 5,
{
}

/// The name and password go out only to a proxy that has just asked for them.
pub proof fn law_credentials_only_when_asked(r: Socks5Request, phase: Phase, reply: Seq<u8>)
    ensures
        socks5_step(r, phase, reply).0 is Authenticating ==> phase is Greeting && reply[0] == 5
            && reply[1] == 2 && r.credentials is Some,
{
}

/// A handshake succeeds only if the proxy agreed to a method that was offered, to the
/// credentials where it asked for them, and to the request.
pub proof fn law_success_is_granted(r: Socks5Request, stream: Seq<u8>)
    requires
        socks5_outcome(r, Phase::Greeting, stream) matches Some((Ok(_), _)),
    ensures
        stream.len() >= 6,
        stream[0] == 5,
        stream[1] == 0 || stream[1] == 2,
        stream[1] == 0 ==> stream[3] == 0,
        stream[1] == 2 ==> r.credentials is Some && stream.len() >= 8 && stream[3] == 0 && stream[5]
            == 0,
{
    reveal_with_fuel(socks5_outcome, 6);
}

/// A reply to the request that says where the proxy is bound.
pub open spec fn bound_reply(d: Destination, port: u16) -> Seq<u8> {
    seq![5u8, 0, 0] + address_bytes(d) + port_bytes(port)
}

proof fn lemma_bound_reply(r: Socks5Request, d: Destination, port: u16, rest: Seq<u8>)
    requires
        destination_fits(d),
    ensures
        socks5_outcome(r, Phase::Connecting, bound_reply(d, port) + rest) == Some(
            (Ok::<(), Socks5Error>(()), rest),
        ),
{
    reveal_with_fuel(socks5_outcome, 4);
    let stream = bound_reply(d, port) + rest;
    let after = stream.skip(4);
    match d {
        Destination::V4(ip) => {
            assert(after.skip(6) == rest);
        },
        Destination::V6(ip) => {
            assert(after.skip(18) == rest);
        },
        Destination::Domain(name) => {
            let n = encode_utf8(name@).len() as int;
            assert(after.skip(1).skip(n + 2) == rest);
        },
    }
}

/// A handshake that the proxy grants reads the proxy's replies and not a byte more: what comes
/// after them is left for the relay. The proxy may ask for the credentials first.
pub proof fn law_payload_is_left(
    r: Socks5Request,
    d: Destination,
    port: u16,
    payload: Seq<u8>,
    version: u8,
)
    requires
        destination_fits(d),
    ensures
        socks5_outcome(r, Phase::Greeting, seq![5u8, 0] + bound_reply(d, port) + payload) == Some(
            (Ok::<(), Socks5Error>(()), payload),
        ),
        r.credentials matches Some((user, pass)) && encode_utf8(user).len() <= 255 && encode_utf8(
            pass,
        ).len() <= 255 ==> socks5_outcome(
            r,
            Phase::Greeting,
            seq![5u8, 2, version, 0] + bound_reply(d, port) + payload,
        ) == Some((Ok::<(), Socks5Error>(()), payload)),
{
    let reply = bound_reply(d, port) + payload;
    lemma_bound_reply(r, d, port, payload);
    let plain = seq![5u8, 0] + bound_reply(d, port) + payload;
    assert(plain.skip(2) == reply);
    assert(plain.take(2) == seq![5u8, 0]);
    let asked = seq![5u8, 2, version, 0] + bound_reply(d, port) + payload;
    assert(asked.take(2) == seq![5u8, 2]);
    assert(asked.skip(2).take(2) == seq![version, 0u8]);
    assert(asked.skip(2).skip(2) == reply);
    reveal_with_fuel(socks5_outcome, 3);
}

/// A refusal is answered with the proxy's own code.
pub proof fn law_refusal_is_reported(r: Socks5Request, head: Seq<u8>, rest: Seq<u8>)
    requires
        head.len() == 4,
        head[1] != 0,
    ensures
        socks5_outcome(r, Phase::Connecting, head + rest) == Some(
            (Err::<(), Socks5Error>(Socks5Error::Refused(head[1])), rest),
        ),
{
    reveal_with_fuel(socks5_outcome, 2);
    assert((head + rest).take(4) == head);
    assert((head + rest).skip(4) == rest);
}

/// What an action sends; nothing, where the handshake has ended.
pub open spec fn sent_by(a: Socks5ActionView) -> Seq<u8> {
    match a {
        Socks5ActionView::Exchange { send, .. } => send,
        _ => Seq::empty(),
    }
}

/// How many bytes an action reads; none, where the handshake has ended.
pub open spec fn read_by(a: Socks5ActionView) -> nat {
    match a {
        Socks5ActionView::Exchange { read, .. } => read as nat,
        _ => 0,
    }
}

/// Whichever reply leads to it, what is sent when the request's turn comes is read by the proxy
/// as the destination and the port that the handshake is for, and four bytes of reply are
/// awaited.
pub proof fn law_sent_request_is_understood(r: Socks5Request, phase: Phase, reply: Seq<u8>)
    requires
        destination_fits(r.destination),
        socks5_step(r, phase, reply).0 is Connecting,
    ensures
        ({
            let action = socks5_step(r, phase, reply).1;
            let (kind, bytes) = match r.destination {
                Destination::V4(ip) => (1u8, ip@),
                Destination::V6(ip) => (4u8, ip@),
                Destination::Domain(name) => (3u8, encode_utf8(name@)),
            };
            &&& connect_meaning(sent_by(action)) == Some((kind, bytes, r.port as int))
            &&& read_by(action) == 4
        }),
{
    law_connect_request_is_understood(r.destination, r.port);
}

/// The request for a domain of any length holds all its bytes, behind the length modulo 256, and
/// ends in the port.
pub proof fn law_domain_is_sent_whole(r: Socks5Request, phase: Phase, reply: Seq<u8>)
    requires
        socks5_step(r, phase, reply).0 is Connecting,
    ensures
        r.destination matches Destination::Domain(name) ==> {
            let sent = sent_by(socks5_step(r, phase, reply).1);
            let n = encode_utf8(name@).len() as int;
            &&& sent.len() == n + 7
            &&& sent.take(4) == seq![5u8, 1, 0, 3]
            &&& sent[4] == n % 256
            &&& sent.subrange(5, 5 + n) == encode_utf8(name@)
            &&& sent[5 + n] * 256 + sent[6 + n] == r.port
        },
{
    if let Destination::Domain(name) = r.destination {
        let sent = sent_by(socks5_step(r, phase, reply).1);
        let n = encode_utf8(name@).len() as int;
        assert(sent == connect_bytes(r.destination, r.port));
        assert(sent.take(4) == seq![5u8, 1, 0, 3]);
        assert(sent.subrange(5, 5 + n) == encode_utf8(name@));
    }
}

/// What is sent when the credentials' turn comes is read by the proxy as the user's name and
/// password, and two bytes of reply are awaited.
pub proof fn law_sent_credentials_are_understood(r: Socks5Request, phase: Phase, reply: Seq<u8>)
    requires
        socks5_step(r, phase, reply).0 is Authenticating,
    ensures
        ({
            let action = socks5_step(r, phase, reply).1;
            &&& r.credentials matches Some((user, pass)) && auth_meaning(sent_by(action)) == Some(
                (encode_utf8(user), encode_utf8(pass)),
            )
            &&& read_by(action) == 2
        }),
{
    let (user, pass) = r.credentials.unwrap();
    law_credentials_are_understood(encode_utf8(user), encode_utf8(pass));
}

/// The greeting names version 5 and counts the methods behind it: none at all is always offered,
/// name and password if and only if there are credentials, and no other method ever.
pub proof fn law_greeting_offers_what_there_is(with_credentials: bool)
    ensures
        ({
            let g = greeting_bytes(with_credentials);
            &&& g.len() >= 2
            &&& g[0] == 5
            &&& g[1] == g.len() - 2
            &&& g.skip(2).contains(0)
            &&& g.skip(2).contains(2) <==> with_credentials
            &&& forall|i: int| 2 <= i < g.len() ==> #[trigger] g[i] == 0 || g[i] == 2
        }),
{
    let g = greeting_bytes(with_credentials);
    assert(g.skip(2)[0] == 0);
    if with_credentials {
        assert(g.skip(2)[1] == 2);
    }
}

/// The proxy's choice of a method is answered: without one by the request, with name and password
/// by those, where there are any that one byte can count. Every other choice fails for a reason
/// of its own.
pub proof fn law_method_is_answered(r: Socks5Request, reply: Seq<u8>)
    requires
        reply.len() == 2,
    ensures
        ({
            let (next, action) = socks5_step(r, Phase::Greeting, reply);
            if reply[0] != 5 {
                next == Phase::Failed(Socks5Error::InvalidGreeting)
            } else if reply[1] == 0 {
                next is Connecting
            } else if reply[1] == 2 {
                match r.credentials {
                    None => next == Phase::Failed(Socks5Error::AuthenticationRequired),
                    Some((user, pass)) => if encode_utf8(user).len() <= 255 && encode_utf8(
                        pass,
                    ).len() <= 255 {
                        next is Authenticating
                    } else {
                        next == Phase::Failed(Socks5Error::CredentialsTooLong)
                    },
                }
            } else if reply[1] == 255 {
                next == Phase::Failed(Socks5Error::NoAcceptableMethod)
            } else {
                next == Phase::Failed(Socks5Error::UnsupportedMethod(reply[1]))
            }
        }),
{
}

/// Credentials that the proxy accepts are followed by the request; any other verdict than zero
/// ends the handshake.
pub proof fn law_verdict_is_answered(r: Socks5Request, reply: Seq<u8>)
    requires
        reply.len() == 2,
    ensures
        reply[1] == 0 ==> socks5_step(r, Phase::Authenticating, reply).0 is Connecting,
        reply[1] != 0 ==> socks5_step(r, Phase::Authenticating, reply).0 == Phase::Failed(
            Socks5Error::AuthenticationFailed,
        ),
{
}

/// A granted request is followed by reading the address and the port that the proxy is bound to,
/// in as many bytes as its type has, and nothing is sent. Any other reply ends the handshake.
pub proof fn law_grant_is_read_to_its_end(r: Socks5Request, head: Seq<u8>, len: Seq<u8>)
    requires
        head.len() == 4,
        len.len() == 1,
    ensures
        ({
            let (next, action) = socks5_step(r, Phase::Connecting, head);
            &&& sent_by(action).len() == 0
            &&& head[1] != 0 ==> next == Phase::Failed(Socks5Error::Refused(head[1]))
            &&& head[1] == 0 && head[3] == 1 ==> next == Phase::Bound(6) && read_by(action) == 6
            &&& head[1] == 0 && head[3] == 3 ==> next is BoundLength && read_by(action) == 1
            &&& head[1] == 0 && head[3] == 4 ==> next == Phase::Bound(18) && read_by(action) == 18
            &&& head[1] == 0 && head[3] != 1 && head[3] != 3 && head[3] != 4 ==> next
                == Phase::Failed(Socks5Error::InvalidAddressType)
        }),
        ({
            let (next, action) = socks5_step(r, Phase::BoundLength, len);
            next == Phase::Bound((len[0] + 2) as usize) && read_by(action) == len[0] + 2 && sent_by(
                action,
            ).len() == 0
        }),
{
}

/// What a step says is where it leads: it fails with the error that the handshake failed with, is
/// done where the proxy is connected, and goes on reading as many bytes as are awaited elsewhere.
/// A handshake that has ended stays as it is.
pub proof fn law_action_fits_the_phase(r: Socks5Request, phase: Phase, reply: Seq<u8>)
    ensures
        ({
            let (next, action) = socks5_step(r, phase, reply);
            &&& next matches Phase::Failed(e) ==> action == Socks5ActionView::Fail(e)
            &&& next is Connected ==> action is Done
            &&& !(next is Failed) && !(next is Connected) ==> action is Exchange && read_by(action)
                == awaited_len(next)
            &&& phase is Connected || phase is Failed ==> next == phase
            &&& phase is Bound ==> next is Connected
        }),
        awaited_len(Phase::Greeting) == 2,
        awaited_len(Phase::Authenticating) == 2,
        awaited_len(Phase::Connecting) == 4,
        awaited_len(Phase::BoundLength) == 1,
        awaited_len(Phase::Connected) == 0,
        phase matches Phase::Bound(n) ==> awaited_len(phase) == n,
        phase is Failed ==> awaited_len(phase) == 0,
{
}

/// A text is a destination of the type and with the bytes that it writes: four octets in
/// dot-decimal notation, sixteen of an IPv6 address, or else its own bytes as a domain.
pub proof fn law_text_has_its_type(text: Seq<char>)
    ensures
        dotted_octets(text) matches Some(octets) ==> address_of(text) == (1u8, octets),
        dotted_octets(text) is None && ipv6_octets(text) is None ==> address_of(text) == (
            3u8,
            encode_utf8(text),
        ),
        dotted_octets(text) is None ==> (ipv6_octets(text) matches Some(octets) ==> address_of(text)
            == (4u8, octets)),
{
}

/// A destination is its type and its bytes.
pub proof fn law_destination_is_its_bytes(d: Destination)
    ensures
        d matches Destination::V4(ip) ==> destination_meaning(d) == (1u8, ip@),
        d matches Destination::V6(ip) ==> destination_meaning(d) == (4u8, ip@),
        d matches Destination::Domain(name) ==> destination_meaning(d) == (3u8, encode_utf8(name@)),
{
}

/// A handshake is for what its fields say, and an action is seen as what it holds.
pub proof fn law_handshake_is_seen_whole(h: Socks5Handshake, a: Socks5Action)
    ensures
        h.request().destination == h.destination,
        h.request().port == h.port,
        h.credentials is None ==> h.request().credentials is None,
        h.credentials matches Some((user, pass)) ==> h.request().credentials == Some(
            (user@, pass@),
        ),
        a matches Socks5Action::Exchange { send, read } ==> a@ == (Socks5ActionView::Exchange {
            send: send@,
            read,
        }),
        a is Done ==> a@ is Done,
        a matches Socks5Action::Fail(e) ==> a@ == Socks5ActionView::Fail(e),
{
}

/// The errors that carry a code tell it, in decimal.
pub proof fn law_codes_are_told(code: u8)
    ensures
        socks5_message(Socks5Error::Refused(code)) == "socks5 proxy refused connection (code "@
            + decimal(code as nat) + ")"@,
        socks5_message(Socks5Error::UnsupportedMethod(code))
            == "socks5 proxy selected an unsupported auth method ("@ + decimal(code as nat) + ")"@,
{
}

} // verus!

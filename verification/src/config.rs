//! Proxies, how they are written in a configuration text, and how one of a
//! pool is picked for a client.

use crate::text::{
    after_prefix, decimal, is_blank, is_digit, is_white_space, lacks, law_prefix_and_rest,
    law_split_first, law_split_last, lemma_decimal, lemma_decimal_reads_back, lemma_first_index,
    lemma_last_index, lemma_one_piece, lemma_pieces_join, lemma_trimmed_between, parse_u16, pieces, rsplit_once, split, split_first, split_last,
    split_once, strip_prefix, text_or_default, text_or_empty, text_view, trim, trimmed,
    unsigned_value,
};
use crate::url_text::{host_of, url_host};
use crate::uuid_text::{law_uuid_reads_back, parse_uuid, uuid_of, uuid_text};
use vstd::prelude::*;
use vstd::string::*;
use vstd::utf8::encode_utf8;

verus! {

/// How a proxy is spoken to.
#[derive(Clone, Copy, Debug, PartialEq, Eq, Structural)]
pub enum ProxyType {
    /// It relays the bytes as they are.
    Direct,
    /// It is asked to connect by SOCKS version 5.
    Socks5,
    /// It is asked to connect by the HTTP method `CONNECT`.
    Http,
}

/// The protocol that a client speaks inside its websocket.
#[derive(Clone, Copy, Debug, PartialEq, Eq, Structural)]
pub enum Protocol {
    Vless,
    Vmess,
    Trojan,
}

/// A proxy to reach a destination by.
#[derive(Debug)]
pub struct ProxyEntry {
    pub proxy_type: ProxyType,
    pub addr: String,
    pub port: u16,
    pub credentials: Option<(String, String)>,
}

/// What a [`ProxyEntry`] says.
#[verifier::ext_equal]
pub struct ProxyEntryView {
    pub proxy_type: ProxyType,
    pub addr: Seq<char>,
    pub port: u16,
    pub credentials: Option<(Seq<char>, Seq<char>)>,
}

/// A user's name and password, as texts.
pub open spec fn credentials_view(c: Option<(String, String)>) -> Option<(Seq<char>, Seq<char>)> {
    match c {
        Some((user, pass)) => Some((user@, pass@)),
        None => None,
    }
}

impl View for ProxyEntry {
    type V = ProxyEntryView;

    open spec fn view(&self) -> ProxyEntryView {
        ProxyEntryView {
            proxy_type: self.proxy_type,
            addr: self.addr@,
            port: self.port,
            credentials: credentials_view(self.credentials),
        }
    }
}

/// A copy of a user's name and password.
pub fn clone_credentials(c: &Option<(String, String)>) -> (r: Option<(String, String)>)
    ensures
        r == *c,
{
    match c {
        Some((user, pass)) => Some((user.clone(), pass.clone())),
        None => None,
    }
}

impl Clone for ProxyEntry {
    fn clone(&self) -> (r: Self)
        ensures
            r == *self,
    {
        ProxyEntry {
            proxy_type: self.proxy_type,
            addr: self.addr.clone(),
            port: self.port,
            credentials: clone_credentials(&self.credentials),
        }
    }
}

/// What the entries of a pool say, in order.
pub open spec fn pool_view(pool: Seq<ProxyEntry>) -> Seq<ProxyEntryView> {
    pool.map_values(|e: ProxyEntry| e@)
}

/// The type that a proxy's text starts with, and what follows it.
pub open spec fn scheme_of(s: Seq<char>) -> (ProxyType, Seq<char>) {
    if let Some(rest) = after_prefix(s, "socks://"@) {
        (ProxyType::Socks5, rest)
    } else if let Some(rest) = after_prefix(s, "http://"@) {
        (ProxyType::Http, rest)
    } else {
        (ProxyType::Direct, s)
    }
}

/// A user's name and password, written with a `:` between them; the password may be left out.
pub open spec fn user_of(userinfo: Seq<char>) -> (Seq<char>, Seq<char>) {
    match split_first(userinfo, ':') {
        Some(parts) => parts,
        None => (userinfo, Seq::empty()),
    }
}

/// The credentials in front of the last `@`, and the host and port behind it. A proxy that is
/// not asked anything takes no credentials.
pub open spec fn credentials_of(proxy_type: ProxyType, rest: Seq<char>) -> (
    Option<(Seq<char>, Seq<char>)>,
    Seq<char>,
) {
    match split_last(rest, '@') {
        Some((userinfo, hostport)) if proxy_type != ProxyType::Direct => (
            Some(user_of(userinfo)),
            hostport,
        ),
        _ => (None, rest),
    }
}

/// The proxy that `raw` describes: an optional `socks://` or `http://`, with one of them an
/// optional `user:password@`, then a host that is not empty, a `:` and a port.
pub open spec fn proxy_of(raw: Seq<char>) -> Option<ProxyEntryView> {
    let (proxy_type, rest) = scheme_of(trimmed(raw));
    let (credentials, hostport) = credentials_of(proxy_type, rest);
    match split_last(hostport, ':') {
        None => None,
        Some((addr, port)) => match unsigned_value(port, 0xffff) {
            Some(n) if addr.len() > 0 => Some(
                ProxyEntryView { proxy_type, addr, port: n as u16, credentials },
            ),
            _ => None,
        },
    }
}

/// The proxies that some of the texts describe, in order.
pub open spec fn proxies_of(texts: Seq<Seq<char>>) -> Seq<ProxyEntryView>
    decreases texts.len(),
{
    if texts.len() == 0 {
        Seq::empty()
    } else {
        match proxy_of(texts.last()) {
            Some(e) => proxies_of(texts.drop_last()).push(e),
            None => proxies_of(texts.drop_last()),
        }
    }
}

/// The proxies in a list with commas between them; what is no proxy is passed over.
pub open spec fn pool_of(raw: Seq<char>) -> Seq<ProxyEntryView> {
    proxies_of(pieces(raw, ','))
}

/// Reads one proxy.
pub fn parse_proxyip(raw: &str) -> (r: Option<ProxyEntry>)
    ensures
        match r {
            Some(e) => proxy_of(raw@) == Some(e@),
            None => proxy_of(raw@) is None,
        },
{
    let raw: &str = trim(raw);
    let (proxy_type, rest): (ProxyType, &str) = if let Some(rest) = strip_prefix(raw, "socks://") {
        (ProxyType::Socks5, rest)
    } else if let Some(rest) = strip_prefix(raw, "http://") {
        (ProxyType::Http, rest)
    } else {
        (ProxyType::Direct, raw)
    };

    let (credentials, hostport): (Option<(String, String)>, &str) = if proxy_type
        == ProxyType::Direct {
        (None, rest)
    } else if let Some((userinfo, hostport)) = rsplit_once(rest, '@') {
        let (user, pass): (String, String) = match split_once(userinfo, ':') {
            Some((u, p)) => (u.to_owned(), p.to_owned()),
            None => (userinfo.to_owned(), String::new()),
        };
        (Some((user, pass)), hostport)
    } else {
        (None, rest)
    };

    match rsplit_once(hostport, ':') {
        None => None,
        Some((addr, port_str)) => {
            if addr.is_empty() {
                return None;
            }
            match parse_u16(port_str) {
                None => None,
                Some(port) => Some(
                    ProxyEntry { proxy_type, addr: addr.to_owned(), port, credentials },
                ),
            }
        },
    }
}

/// Reads a list of proxies.
pub fn parse_proxyip_pool(raw: &str) -> (pool: Vec<ProxyEntry>)
    ensures
        pool_view(pool@) == pool_of(raw@),
{
    let parts: Vec<&str> = split(raw, ',');
    let ghost texts = parts@.map_values(|p: &str| p@);
    let mut pool: Vec<ProxyEntry> = Vec::new();
    let mut i: usize = 0;
    assert(texts.take(0) == Seq::<Seq<char>>::empty());
    while i < parts.len()
        invariant
            i <= parts.len(),
            texts == parts@.map_values(|p: &str| p@),
            pool_view(pool@) == proxies_of(texts.take(i as int)),
        decreases parts.len() - i,
    {
        let ghost before = pool@;
        assert(texts.take(i + 1).drop_last() == texts.take(i as int));
        assert(texts.take(i + 1).last() == parts@[i as int]@);
        if let Some(e) = parse_proxyip(parts[i]) {
            pool.push(e);
            assert(pool_view(pool@) == pool_view(before).push(e@));
        }
        i = i + 1;
    }
    assert(texts.take(i as int) == texts);
    pool
}

/// The FNV-1a hash of `bytes`, 64 bits wide.
pub open spec fn fnv1a(bytes: Seq<u8>) -> u64
    decreases bytes.len(),
{
    if bytes.len() == 0 {
        0xcbf29ce484222325
    } else {
        (((fnv1a(bytes.drop_last()) ^ (bytes.last() as u64)) * 0x100000001b3)
            % 0x1_0000_0000_0000_0000) as u64
    }
}

/// The FNV-1a hash of a text's UTF-8 bytes.
pub fn fnv1a_hash(s: &str) -> (hash: u64)
    ensures
        hash == fnv1a(encode_utf8(s@)),
{
    let bytes: &[u8] = s.as_bytes();
    let mut hash: u64 = 0xcbf29ce484222325;
    let mut i: usize = 0;
    assert(bytes@.take(0) == Seq::<u8>::empty());
    while i < bytes.len()
        invariant
            i <= bytes@.len(),
            hash == fnv1a(bytes@.take(i as int)),
        decreases bytes@.len() - i,
    {
        assert(bytes@.take(i + 1).drop_last() == bytes@.take(i as int));
        hash = hash ^ (bytes[i] as u64);
        hash = hash.wrapping_mul(0x100000001b3);
        i = i + 1;
    }
    assert(bytes@.take(i as int) == bytes@);
    hash
}

/// Where in a pool of `len` proxies the one for `key` stands.
pub open spec fn sticky_index(key: Seq<char>, len: nat) -> int {
    (fnv1a(encode_utf8(key)) as usize) as int % len as int
}

/// The proxy of `pool` for `key`.
pub fn pick_sticky<'a>(pool: &'a [ProxyEntry], key: &str) -> (r: Option<&'a ProxyEntry>)
    ensures
        r is None <==> pool@.len() == 0,
        r matches Some(e) ==> 0 <= sticky_index(key@, pool@.len()) < pool@.len() && *e
            == pool@[sticky_index(key@, pool@.len())],
{
    if pool.is_empty() {
        return None;
    }
    let index: usize = (fnv1a_hash(key) as usize) % pool.len();
    Some(&pool[index])
}

/// What the service is set up with, and the proxy that is chosen for a client.
pub struct Config {
    pub uuid: u128,
    pub host: String,
    pub proxy_addr: String,
    pub proxy_port: u16,
    pub proxy_type: ProxyType,
    pub proxy_credentials: Option<(String, String)>,
    pub proxy_pool: Vec<ProxyEntry>,
    pub main_page_url: String,
    pub sub_page_url: String,
}

/// The identifier that a text writes; where it writes none, the one that is all zeros.
pub open spec fn uuid_or_nil(text: Seq<char>) -> u128 {
    match uuid_of(text) {
        Some(id) => id,
        None => 0,
    }
}

/// No proxy: one without an address.
pub open spec fn no_proxy() -> ProxyEntryView {
    ProxyEntryView {
        proxy_type: ProxyType::Direct,
        addr: Seq::empty(),
        port: 0,
        credentials: None,
    }
}

impl Config {
    /// The chosen proxy; with no address, none is chosen.
    pub open spec fn proxy(self) -> ProxyEntryView {
        ProxyEntryView {
            proxy_type: self.proxy_type,
            addr: self.proxy_addr@,
            port: self.proxy_port,
            credentials: credentials_view(self.proxy_credentials),
        }
    }

    /// All but the chosen proxy is as in `other`.
    pub open spec fn same_setup(self, other: Config) -> bool {
        &&& self.uuid == other.uuid
        &&& self.host == other.host
        &&& self.proxy_pool == other.proxy_pool
        &&& self.main_page_url == other.main_page_url
        &&& self.sub_page_url == other.sub_page_url
    }

    /// The setup from the texts that it is written in. No proxy is chosen.
    pub fn new(
        uuid: &str,
        host: String,
        proxyip: &str,
        main_page_url: String,
        sub_page_url: String,
    ) -> (c: Config)
        ensures
            c.uuid == uuid_or_nil(uuid@),
            c.host@ == host@,
            c.proxy() == no_proxy(),
            pool_view(c.proxy_pool@) == pool_of(proxyip@),
            c.main_page_url@ == main_page_url@,
            c.sub_page_url@ == sub_page_url@,
    {
        let uuid: u128 = match parse_uuid(uuid) {
            Some(id) => id,
            None => 0,
        };
        Config {
            uuid,
            host,
            proxy_addr: String::new(),
            proxy_port: 0,
            proxy_type: ProxyType::Direct,
            proxy_credentials: None,
            proxy_pool: parse_proxyip_pool(proxyip),
            main_page_url,
            sub_page_url,
        }
    }

    /// The setup for a request: its host is that of the request's URL, or empty where the URL
    /// has none, and the pool is empty where no proxies are written down. None, if the URL is no
    /// URL.
    pub fn for_request(
        uuid: &str,
        url: &str,
        proxyip: Option<String>,
        main_page_url: String,
        sub_page_url: String,
    ) -> (c: Option<Config>)
        ensures
            match (c, url_host(url@)) {
                (Some(c), Some(host)) => {
                    &&& c.uuid == uuid_or_nil(uuid@)
                    &&& c.host@ == text_or_empty(host)
                    &&& c.proxy() == no_proxy()
                    &&& pool_view(c.proxy_pool@) == pool_of(text_or_empty(text_view(proxyip)))
                    &&& c.main_page_url@ == main_page_url@
                    &&& c.sub_page_url@ == sub_page_url@
                },
                (None, None) => true,
                _ => false,
            },
    {
        match host_of(url) {
            None => None,
            Some(host) => {
                let host: String = text_or_default(host);
                let proxyip: String = text_or_default(proxyip);
                Some(Config::new(uuid, host, proxyip.as_str(), main_page_url, sub_page_url))
            },
        }
    }
}

/// A proxy that can be dialled: it has a host, and credentials only where it is asked to connect.
pub open spec fn is_valid_proxy(e: ProxyEntryView) -> bool {
    &&& e.addr.len() > 0
    &&& e.proxy_type == ProxyType::Direct ==> e.credentials is None
}

/// A proxy that is read can be dialled.
pub proof fn law_proxy_is_valid(raw: Seq<char>)
    ensures
        proxy_of(raw) matches Some(e) ==> is_valid_proxy(e),
{
}

proof fn lemma_proxies_are_valid(texts: Seq<Seq<char>>)
    ensures
        forall|i: int|
            0 <= i < proxies_of(texts).len() ==> is_valid_proxy(#[trigger] proxies_of(texts)[i]),
    decreases texts.len(),
{
    if texts.len() > 0 {
        let rest = proxies_of(texts.drop_last());
        lemma_proxies_are_valid(texts.drop_last());
        law_proxy_is_valid(texts.last());
        assert forall|i: int| 0 <= i < proxies_of(texts).len() implies is_valid_proxy(
            #[trigger] proxies_of(texts)[i],
        ) by {
            if i < rest.len() {
                assert(proxies_of(texts)[i] == rest[i]);
            }
        }
    }
}

/// Each proxy of a pool that is read can be dialled.
pub proof fn law_pool_is_valid(raw: Seq<char>)
    ensures
        forall|i: int| 0 <= i < pool_of(raw).len() ==> is_valid_proxy(#[trigger] pool_of(raw)[i]),
{
    lemma_proxies_are_valid(pieces(raw, ','));
}

/// White space around a proxy's text does not matter.
pub proof fn law_white_space_is_ignored(before: Seq<char>, raw: Seq<char>, after: Seq<char>)
    requires
        is_blank(before),
        is_blank(after),
    ensures
        proxy_of(before + raw + after) == proxy_of(raw),
{
    lemma_trimmed_between(before, raw, after);
}

proof fn lemma_proxies_join(a: Seq<Seq<char>>, b: Seq<Seq<char>>)
    ensures
        proxies_of(a + b) == proxies_of(a) + proxies_of(b),
    decreases b.len(),
{
    if b.len() == 0 {
        assert(a + b == a);
    } else {
        lemma_proxies_join(a, b.drop_last());
        assert((a + b).drop_last() == a + b.drop_last());
        assert((a + b).last() == b.last());
    }
}

/// Two lists with a comma between them hold the proxies of the first and those of the second:
/// what stands on one side of a comma does not change what is read on the other.
pub proof fn law_pools_join(a: Seq<char>, b: Seq<char>)
    ensures
        pool_of(a + seq![','] + b) == pool_of(a) + pool_of(b),
{
    lemma_pieces_join(a, b, ',');
    lemma_proxies_join(pieces(a, ','), pieces(b, ','));
}

/// What a proxy's text starts with.
pub open spec fn scheme_text(proxy_type: ProxyType) -> Seq<char> {
    match proxy_type {
        ProxyType::Direct => Seq::empty(),
        ProxyType::Socks5 => "socks://"@,
        ProxyType::Http => "http://"@,
    }
}

/// The text of a host and a port.
pub open spec fn hostport_text(addr: Seq<char>, port: u16) -> Seq<char> {
    addr + seq![':'] + decimal(port as nat)
}

/// The text of what follows the type.
pub open spec fn rest_text(e: ProxyEntryView) -> Seq<char> {
    match e.credentials {
        Some((user, pass)) => user + seq![':'] + pass + seq!['@'] + hostport_text(e.addr, e.port),
        None => hostport_text(e.addr, e.port),
    }
}

/// The text of a proxy.
pub open spec fn proxy_text(e: ProxyEntryView) -> Seq<char> {
    scheme_text(e.proxy_type) + rest_text(e)
}

/// A proxy that its text describes: it has a host, of which no part is taken for something else,
/// and the user's name holds no `:`. Of the password nothing is asked.
pub open spec fn is_writable(e: ProxyEntryView) -> bool {
    &&& e.addr.len() > 0
    &&& e.proxy_type == ProxyType::Direct ==> {
        &&& e.credentials is None
        &&& !is_white_space(e.addr[0])
        &&& scheme_of(proxy_text(e)).0 == ProxyType::Direct
    }
    &&& e.proxy_type != ProxyType::Direct ==> !e.addr.contains('@')
    &&& e.credentials matches Some((user, _)) ==> !user.contains(':')
}

proof fn lemma_hostport(addr: Seq<char>, port: u16)
    ensures
        split_last(hostport_text(addr, port), ':') == Some((addr, decimal(port as nat))),
        unsigned_value(decimal(port as nat), 0xffff) == Some(port as nat),
        is_digit(decimal(port as nat).last()),
        forall|i: int|
            addr.len() < i < hostport_text(addr, port).len() ==> is_digit(
                #[trigger] hostport_text(addr, port)[i],
            ),
{
    let d = decimal(port as nat);
    let s = hostport_text(addr, port);
    lemma_decimal(port as nat);
    lemma_decimal_reads_back(port as nat, 0xffff);
    assert forall|i: int| addr.len() < i < s.len() implies is_digit(#[trigger] s[i]) by {
        assert(s[i] == d[i - addr.len() - 1]);
    }
    lemma_last_index(s, ':', addr.len() as int);
    assert(s.take(addr.len() as int) == addr);
    assert(s.skip(addr.len() as int + 1) == d);
}

proof fn lemma_rest(e: ProxyEntryView)
    requires
        is_writable(e),
    ensures
        credentials_of(e.proxy_type, rest_text(e)) == (
            e.credentials,
            hostport_text(e.addr, e.port),
        ),
{
    let h = hostport_text(e.addr, e.port);
    let rest = rest_text(e);
    lemma_hostport(e.addr, e.port);
    if e.proxy_type != ProxyType::Direct {
        assert forall|i: int| 0 <= i < h.len() implies h[i] != '@' by {
            if i < e.addr.len() {
                assert(h[i] == e.addr[i]);
            } else if i > e.addr.len() {
                assert(is_digit(h[i]));
            }
        }
        match e.credentials {
            None => {
                lemma_last_index(rest, '@', -1);
            },
            Some((user, pass)) => {
                let info = user + seq![':'] + pass;
                let n = info.len() as int;
                assert forall|j: int| n < j < rest.len() implies rest[j] != '@' by {
                    assert(rest[j] == h[j - n - 1]);
                }
                lemma_last_index(rest, '@', n);
                assert(rest.take(n) == info);
                assert(rest.skip(n + 1) == h);
                lemma_first_index(info, ':', user.len() as int);
                assert(info.take(user.len() as int) == user);
                assert(info.skip(user.len() as int + 1) == pass);
            },
        }
    }
}

/// The text of a proxy is read as that proxy. The host may hold a `:`, and the password any
/// character at all.
pub proof fn law_proxy_reads_back(e: ProxyEntryView)
    requires
        is_writable(e),
    ensures
        proxy_of(proxy_text(e)) == Some(e),
{
    let s = proxy_text(e);
    let rest = rest_text(e);
    let h = hostport_text(e.addr, e.port);
    reveal_strlit("socks://");
    reveal_strlit("http://");
    lemma_hostport(e.addr, e.port);
    lemma_rest(e);
    assert(s.last() == h.last());
    assert(h.last() == decimal(e.port as nat).last());
    assert(e.proxy_type == ProxyType::Direct ==> s[0] == e.addr[0]);
    assert(trimmed(s) == s);
    match e.proxy_type {
        ProxyType::Direct => {
            assert(s == rest);
        },
        ProxyType::Socks5 => {
            assert(s.take(8) == "socks://"@);
            assert(s.skip(8) == rest);
        },
        ProxyType::Http => {
            assert(s[0] != "socks://"@[0]);
            assert(s.take(7) == "http://"@);
            assert(s.skip(7) == rest);
        },
    }
}

/// A user's name and password as they stand in a text: parted by the first `:`, or the name alone
/// and no password.
pub open spec fn names_user(info: Seq<char>, user: Seq<char>, pass: Seq<char>) -> bool {
    ||| lacks(user, ':') && info == user + seq![':'] + pass
    ||| lacks(info, ':') && user == info && pass.len() == 0
}

/// The text `t` writes the proxy `e`: its type, then `info` and a `@` where there are credentials,
/// then its host, a `:` and the port as `port_text`.
pub open spec fn describes(
    t: Seq<char>,
    e: ProxyEntryView,
    info: Option<Seq<char>>,
    port_text: Seq<char>,
) -> bool {
    let hostport = e.addr + seq![':'] + port_text;
    let rest = match info {
        Some(i) => i + seq!['@'] + hostport,
        None => hostport,
    };
    &&& e.addr.len() > 0
    &&& unsigned_value(port_text, 0xffff) == Some(e.port as nat)
    &&& match e.proxy_type {
        ProxyType::Direct => {
            &&& t == rest
            &&& info is None
            &&& after_prefix(t, "socks://"@) is None
            &&& after_prefix(t, "http://"@) is None
        },
        ProxyType::Socks5 => t == "socks://"@ + rest && lacks(e.addr, '@'),
        ProxyType::Http => t == "http://"@ + rest && lacks(e.addr, '@'),
    }
    &&& match (info, e.credentials) {
        (Some(i), Some((user, pass))) => names_user(i, user, pass),
        (None, None) => true,
        _ => false,
    }
}

proof fn lemma_port_chars(s: Seq<char>)
    requires
        unsigned_value(s, 0xffff) is Some,
    ensures
        lacks(s, ':'),
        lacks(s, '@'),
{
    let digits = if s.len() > 0 && s[0] == '+' {
        s.skip(1)
    } else {
        s
    };
    assert forall|i: int| 0 <= i < s.len() implies s[i] != ':' && s[i] != '@' by {
        if s[0] == '+' {
            if i > 0 {
                assert(s[i] == digits[i - 1]);
                assert(is_digit(digits[i - 1]));
            }
        } else {
            assert(is_digit(digits[i]));
        }
    }
}

/// A text that describes a proxy, with white space around it or not, is read as that proxy.
pub proof fn law_described_proxy_is_read(
    raw: Seq<char>,
    e: ProxyEntryView,
    info: Option<Seq<char>>,
    port_text: Seq<char>,
)
    requires
        describes(trimmed(raw), e, info, port_text),
    ensures
        proxy_of(raw) == Some(e),
{
    let t = trimmed(raw);
    let h = e.addr + seq![':'] + port_text;
    let rest = match info {
        Some(i) => i + seq!['@'] + h,
        None => h,
    };
    lemma_port_chars(port_text);
    assert forall|j: int| e.addr.len() < j < h.len() implies h[j] != ':' by {
        assert(h[j] == port_text[j - e.addr.len() - 1]);
    }
    lemma_last_index(h, ':', e.addr.len() as int);
    assert(h.take(e.addr.len() as int) == e.addr);
    assert(h.skip(e.addr.len() as int + 1) == port_text);
    reveal_strlit("socks://");
    reveal_strlit("http://");
    law_prefix_and_rest(t, "socks://"@, rest);
    law_prefix_and_rest(t, "http://"@, rest);
    if e.proxy_type == ProxyType::Http {
        assert(t[0] == 'h');
        assert(t.take("socks://"@.len() as int) != "socks://"@) by {
            if t.take("socks://"@.len() as int) == "socks://"@ {
                assert(t.take("socks://"@.len() as int)[0] == 's');
            }
        }
        law_prefix_and_rest(t, "socks://"@, Seq::empty());
    }
    assert(scheme_of(t) == (e.proxy_type, rest));
    if e.proxy_type != ProxyType::Direct {
        assert forall|j: int| 0 <= j < h.len() implies h[j] != '@' by {
            if j < e.addr.len() {
                assert(h[j] == e.addr[j]);
            } else if j > e.addr.len() {
                assert(h[j] == port_text[j - e.addr.len() - 1]);
            }
        }
        match info {
            None => {
                lemma_last_index(rest, '@', -1);
            },
            Some(i) => {
                let n = i.len() as int;
                assert forall|j: int| n < j < rest.len() implies rest[j] != '@' by {
                    assert(rest[j] == h[j - n - 1]);
                }
                lemma_last_index(rest, '@', n);
                assert(rest.take(n) == i);
                assert(rest.skip(n + 1) == h);
                let (user, pass) = e.credentials.unwrap();
                if lacks(user, ':') && i == user + seq![':'] + pass {
                    lemma_first_index(i, ':', user.len() as int);
                    assert(i.take(user.len() as int) == user);
                    assert(i.skip(user.len() as int + 1) == pass);
                } else {
                    lemma_first_index(i, ':', n);
                    assert(pass == Seq::<char>::empty());
                }
            },
        }
    }
    assert(credentials_of(e.proxy_type, rest) == (e.credentials, h));
}

/// A proxy that is read is the one that the text describes: what stands for the credentials, and
/// the port's text, are found.
pub proof fn law_read_proxy_is_described(raw: Seq<char>, e: ProxyEntryView) -> (found: (
    Option<Seq<char>>,
    Seq<char>,
))
    requires
        proxy_of(raw) == Some(e),
    ensures
        describes(trimmed(raw), e, found.0, found.1),
{
    let t = trimmed(raw);
    let (proxy_type, rest) = scheme_of(t);
    law_prefix_and_rest(t, "socks://"@, rest);
    law_prefix_and_rest(t, "http://"@, rest);
    let (credentials, h) = credentials_of(proxy_type, rest);
    law_split_last(rest, '@');
    law_split_last(h, ':');
    let (addr, port_text) = split_last(h, ':').unwrap();
    assert(h == addr + seq![':'] + port_text);
    if proxy_type == ProxyType::Direct {
        (None, port_text)
    } else {
        assert(lacks(h, '@'));
        assert forall|j: int| 0 <= j < addr.len() implies addr[j] != '@' by {
            assert(h[j] == addr[j]);
        }
        match split_last(rest, '@') {
            Some((info, _)) => {
                law_split_first(info, ':');
                (Some(info), port_text)
            },
            None => (None, port_text),
        }
    }
}

/// A list without a comma holds the one proxy that it describes, if it describes one.
pub proof fn law_pool_of_one(raw: Seq<char>)
    requires
        lacks(raw, ','),
    ensures
        proxy_of(raw) matches Some(e) ==> pool_of(raw) == seq![e],
        proxy_of(raw) is None ==> pool_of(raw).len() == 0,
{
    lemma_one_piece(raw, ',');
    reveal_with_fuel(proxies_of, 2);
    assert(seq![raw].drop_last() == Seq::<Seq<char>>::empty());
    if let Some(e) = proxy_of(raw) {
        assert(Seq::<ProxyEntryView>::empty().push(e) == seq![e]);
    }
}

/// Hashing starts at the offset basis, and each byte is mixed in and multiplied by the prime, in
/// 64 bits.
pub proof fn law_hash_by_byte(bytes: Seq<u8>, b: u8)
    ensures
        fnv1a(Seq::empty()) == 14695981039346656037,
        fnv1a(bytes.push(b)) as int == ((fnv1a(bytes) ^ (b as u64)) * 1099511628211)
            % 18446744073709551616,
{
    assert(bytes.push(b).drop_last() == bytes);
}

/// The place in a pool for a key is the hash of its bytes, as the machine's word, modulo how many
/// proxies there are.
pub proof fn law_place_is_by_the_hash(key: Seq<char>, len: nat)
    requires
        len > 0,
    ensures
        sticky_index(key, len) == (fnv1a(encode_utf8(key)) as usize) as int % len as int,
        0 <= sticky_index(key, len) < len,
{
}

/// An identifier's text sets it up; a text that writes none sets up the one of zeros.
pub proof fn law_identifier_is_set_up(id: u128, text: Seq<char>)
    ensures
        uuid_or_nil(uuid_text(id)) == id,
        uuid_of(text) is None ==> uuid_or_nil(text) == 0,
        uuid_of(text) is Some ==> uuid_of(text) == Some(uuid_or_nil(text)),
{
    law_uuid_reads_back(id);
}

/// The chosen proxy of a setup is what its four fields say, and two setups are the same where all
/// their other fields are. No proxy is one without an address.
pub proof fn law_setup_says_what_it_holds(c: Config, other: Config)
    ensures
        c.proxy().proxy_type == c.proxy_type,
        c.proxy().addr == c.proxy_addr@,
        c.proxy().port == c.proxy_port,
        c.proxy_credentials is None ==> c.proxy().credentials is None,
        c.proxy_credentials matches Some((user, pass)) ==> c.proxy().credentials == Some(
            (user@, pass@),
        ),
        c.same_setup(other) <==> c.uuid == other.uuid && c.host == other.host && c.proxy_pool
            == other.proxy_pool && c.main_page_url == other.main_page_url && c.sub_page_url
            == other.sub_page_url,
        no_proxy().addr.len() == 0,
        no_proxy().port == 0,
        no_proxy().proxy_type == ProxyType::Direct,
        no_proxy().credentials is None,
{
}

/// A proxy and a pool are seen as what they hold.
pub proof fn law_pool_is_seen_whole(pool: Seq<ProxyEntry>, i: int)
    requires
        0 <= i < pool.len(),
    ensures
        pool_view(pool).len() == pool.len(),
        pool_view(pool)[i].proxy_type == pool[i].proxy_type,
        pool_view(pool)[i].addr == pool[i].addr@,
        pool_view(pool)[i].port == pool[i].port,
        pool[i].credentials is None ==> pool_view(pool)[i].credentials is None,
        pool[i].credentials matches Some((user, pass)) ==> pool_view(pool)[i].credentials == Some(
            (user@, pass@),
        ),
{
}

} // verus!

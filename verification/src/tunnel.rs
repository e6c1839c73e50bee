//! What a request for a tunnel decides: which proxy the client gets, and whether it gets a
//! websocket.

use crate::config::{
    fnv1a, is_valid_proxy, law_place_is_by_the_hash, law_pool_is_valid, parse_proxyip_pool,
    pick_sticky, pool_of, pool_view, sticky_index, Config, Protocol, ProxyEntry, ProxyEntryView,
};
use crate::text::{same_text, text_or_default, text_or_empty, text_view};
use crate::url_text::{pairs_view, query_of, url_query};
use vstd::prelude::*;
use vstd::string::*;
use vstd::utf8::encode_utf8;

verus! {

/// The value that the last pair with this name has.
pub open spec fn last_value(pairs: Seq<(Seq<char>, Seq<char>)>, name: Seq<char>) -> Option<
    Seq<char>,
>
    decreases pairs.len(),
{
    if pairs.len() == 0 {
        None
    } else if pairs.last().0 == name {
        Some(pairs.last().1)
    } else {
        last_value(pairs.drop_last(), name)
    }
}

/// What a request says about the proxy that it wants.
pub struct TunnelQuery {
    /// A pool to pick from in place of the default one.
    pub override_pool: Option<Vec<ProxyEntry>>,
    /// What to pick by in place of the client's address.
    pub sticky_override: Option<String>,
}

/// What a [`TunnelQuery`] says.
#[verifier::ext_equal]
pub struct TunnelQueryView {
    pub override_pool: Option<Seq<ProxyEntryView>>,
    pub sticky_override: Option<Seq<char>>,
}

impl View for TunnelQuery {
    type V = TunnelQueryView;

    open spec fn view(&self) -> TunnelQueryView {
        TunnelQueryView {
            override_pool: match self.override_pool {
                Some(pool) => Some(pool_view(pool@)),
                None => None,
            },
            sticky_override: text_view(self.sticky_override),
        }
    }
}

/// What the names and values of a query say: the last `proxyip` and the last `sid` count.
pub open spec fn tunnel_query(pairs: Seq<(Seq<char>, Seq<char>)>) -> TunnelQueryView {
    TunnelQueryView {
        override_pool: match last_value(pairs, "proxyip"@) {
            Some(list) => Some(pool_of(list)),
            None => None,
        },
        sticky_override: last_value(pairs, "sid"@),
    }
}

/// Reads the names and values of a query.
pub fn read_query(pairs: &Vec<(String, String)>) -> (q: TunnelQuery)
    ensures
        q@ == tunnel_query(pairs_view(pairs@)),
{
    let ghost view = pairs_view(pairs@);
    let mut q: TunnelQuery = TunnelQuery { override_pool: None, sticky_override: None };
    let mut i: usize = 0;
    proof {
        reveal_strlit("proxyip");
        reveal_strlit("sid");
        assert("proxyip"@.len() != "sid"@.len());
        assert(view.take(0) == Seq::<(Seq<char>, Seq<char>)>::empty());
    }
    while i < pairs.len()
        invariant
            i <= pairs.len(),
            view == pairs_view(pairs@),
            q@ == tunnel_query(view.take(i as int)),
            "proxyip"@ != "sid"@,
        decreases pairs.len() - i,
    {
        let pair: &(String, String) = &pairs[i];
        assert(view.take(i + 1).drop_last() == view.take(i as int));
        assert(view.take(i + 1).last() == (pair.0@, pair.1@));
        if same_text(pair.0.as_str(), "proxyip") {
            q.override_pool = Some(parse_proxyip_pool(pair.1.as_str()));
        } else if same_text(pair.0.as_str(), "sid") {
            q.sticky_override = Some(pair.1.clone());
        }
        i = i + 1;
    }
    assert(view.take(i as int) == view);
    q
}

/// The names and values in the query of a request; none, where its URL is not known.
pub open spec fn request_pairs(url: Option<Seq<char>>) -> Seq<(Seq<char>, Seq<char>)> {
    match url {
        Some(u) => match url_query(u) {
            Some(pairs) => pairs,
            None => Seq::empty(),
        },
        None => Seq::empty(),
    }
}

/// Reads the query of a request.
pub fn query_of_request(url: &Option<String>) -> (q: TunnelQuery)
    ensures
        q@ == tunnel_query(request_pairs(text_view(*url))),
{
    let pairs: Vec<(String, String)> = match url {
        Some(u) => match query_of(u.as_str()) {
            Some(pairs) => pairs,
            None => Vec::new(),
        },
        None => Vec::new(),
    };
    assert(pairs_view(pairs@) == request_pairs(text_view(*url)));
    read_query(&pairs)
}

/// What a protocol is called.
pub open spec fn tag_of(protocol: Protocol) -> Seq<char> {
    match protocol {
        Protocol::Vless => "vless"@,
        Protocol::Vmess => "vmess"@,
        Protocol::Trojan => "trojan"@,
    }
}

/// What a protocol is called.
pub fn protocol_tag(protocol: Protocol) -> (t: &'static str)
    ensures
        t@ == tag_of(protocol),
{
    match protocol {
        Protocol::Vless => "vless",
        Protocol::Vmess => "vmess",
        Protocol::Trojan => "trojan",
    }
}

/// The client's address, as the header `CF-Connecting-IP` gives it.
pub fn client_ip(header: Option<String>) -> (ip: String)
    ensures
        ip@ == text_or_empty(text_view(header)),
{
    text_or_default(header)
}

/// What a proxy is picked by: the session that the client names, else its address, and the
/// protocol.
pub open spec fn sticky_key(
    session: Option<Seq<char>>,
    client: Seq<char>,
    protocol: Protocol,
) -> Seq<char> {
    let id = match session {
        Some(sid) => sid,
        None => client,
    };
    id + ":"@ + tag_of(protocol)
}

/// The proxy of `pool` for `key`.
pub open spec fn sticky_pick(pool: Seq<ProxyEntryView>, key: Seq<char>) -> Option<ProxyEntryView> {
    if pool.len() == 0 {
        None
    } else {
        Some(pool[sticky_index(key, pool.len())])
    }
}

/// The pool that counts: the one that the client names, even if it is empty, else the default
/// one.
pub open spec fn pool_for(
    default_pool: Seq<ProxyEntryView>,
    query: TunnelQueryView,
) -> Seq<ProxyEntryView> {
    match query.override_pool {
        Some(pool) => pool,
        None => default_pool,
    }
}

/// The proxy for a client, from the pool that counts. An empty pool leaves the one that was
/// chosen before.
pub open spec fn chosen_proxy(
    before: ProxyEntryView,
    default_pool: Seq<ProxyEntryView>,
    query: TunnelQueryView,
    client: Seq<char>,
    protocol: Protocol,
) -> ProxyEntryView {
    let pool = pool_for(default_pool, query);
    match sticky_pick(pool, sticky_key(query.sticky_override, client, protocol)) {
        Some(e) => e,
        None => before,
    }
}

impl Config {
    /// Chooses the proxy for a client.
    pub fn choose_proxy(&mut self, query: &TunnelQuery, client: &str, protocol: Protocol)
        ensures
            final(self).same_setup(*old(self)),
            final(self).proxy() == chosen_proxy(
                old(self).proxy(),
                pool_view(old(self).proxy_pool@),
                query@,
                client@,
                protocol,
            ),
    {
        let id: &str = match &query.sticky_override {
            Some(sid) => sid.as_str(),
            None => client,
        };
        let key: String = id.to_owned().concat(":").concat(protocol_tag(protocol));
        let pool: &[ProxyEntry] = match &query.override_pool {
            Some(pool) => pool.as_slice(),
            None => self.proxy_pool.as_slice(),
        };
        let picked: Option<ProxyEntry> = match pick_sticky(pool, key.as_str()) {
            Some(e) => Some(e.clone()),
            None => None,
        };
        if let Some(entry) = picked {
            self.proxy_type = entry.proxy_type;
            self.proxy_addr = entry.addr;
            self.proxy_port = entry.port;
            self.proxy_credentials = entry.credentials;
        }
    }
}

/// Whether the header `Upgrade` asks for a websocket.
pub open spec fn asks_for_websocket(upgrade: Option<Seq<char>>) -> bool {
    upgrade == Some("websocket"@)
}

/// Whether the header `Upgrade` asks for a websocket.
pub fn wants_websocket(upgrade: &Option<String>) -> (b: bool)
    ensures
        b == asks_for_websocket(text_view(*upgrade)),
{
    match upgrade {
        Some(u) => same_text(u.as_str(), "websocket"),
        None => false,
    }
}

/// Takes a request for a tunnel: chooses the client's proxy, and says whether the client gets a
/// websocket.
pub fn tunnel(
    config: &mut Config,
    url: &Option<String>,
    client_header: Option<String>,
    upgrade: &Option<String>,
    protocol: Protocol,
) -> (websocket: bool)
    ensures
        websocket == asks_for_websocket(text_view(*upgrade)),
        final(config).same_setup(*old(config)),
        final(config).proxy() == chosen_proxy(
            old(config).proxy(),
            pool_view(old(config).proxy_pool@),
            tunnel_query(request_pairs(text_view(*url))),
            text_or_empty(text_view(client_header)),
            protocol,
        ),
{
    let query: TunnelQuery = query_of_request(url);
    let client: String = client_ip(client_header);
    config.choose_proxy(&query, client.as_str(), protocol);
    wants_websocket(upgrade)
}

/// A client that names its session keeps its proxy, whatever address it comes from and
/// whatever proxy was chosen before, as long as the pool is the same and not empty.
pub proof fn law_session_keeps_its_proxy(
    default_pool: Seq<ProxyEntryView>,
    query: TunnelQueryView,
    one: Seq<char>,
    other: Seq<char>,
    before_one: ProxyEntryView,
    before_other: ProxyEntryView,
    protocol: Protocol,
)
    requires
        query.sticky_override is Some,
        pool_for(default_pool, query).len() > 0,
    ensures
        chosen_proxy(before_one, default_pool, query, one, protocol) == chosen_proxy(
            before_other,
            default_pool,
            query,
            other,
            protocol,
        ),
{
}

/// A client that names no session keeps its proxy as long as it comes from the same address and
/// the pool is the same and not empty.
pub proof fn law_client_keeps_its_proxy(
    default_pool: Seq<ProxyEntryView>,
    query: TunnelQueryView,
    client: Seq<char>,
    before_one: ProxyEntryView,
    before_other: ProxyEntryView,
    protocol: Protocol,
)
    requires
        query.sticky_override is None,
        pool_for(default_pool, query).len() > 0,
    ensures
        chosen_proxy(before_one, default_pool, query, client, protocol) == chosen_proxy(
            before_other,
            default_pool,
            query,
            client,
            protocol,
        ),
{
}

/// What is chosen is a member of the pool that counts; from an empty one nothing is chosen.
pub proof fn law_choice_is_from_the_pool(
    before: ProxyEntryView,
    default_pool: Seq<ProxyEntryView>,
    query: TunnelQueryView,
    client: Seq<char>,
    protocol: Protocol,
)
    ensures
        ({
            let pool = pool_for(default_pool, query);
            let chosen = chosen_proxy(before, default_pool, query, client, protocol);
            if pool.len() == 0 {
                chosen == before
            } else {
                pool.contains(chosen)
            }
        }),
{
    let pool = pool_for(default_pool, query);
    if pool.len() > 0 {
        let i = sticky_index(sticky_key(query.sticky_override, client, protocol), pool.len());
        assert(0 <= i < pool.len());
        assert(pool.contains(pool[i]));
    }
}

/// Whatever a request says, the proxy that its client gets is the one from before or one that can
/// be dialled; where the pool that counts is not empty, it is one that can be dialled.
pub proof fn law_chosen_proxy_is_valid(
    before: ProxyEntryView,
    proxyip: Seq<char>,
    pairs: Seq<(Seq<char>, Seq<char>)>,
    client: Seq<char>,
    protocol: Protocol,
)
    ensures
        ({
            let query = tunnel_query(pairs);
            let chosen = chosen_proxy(before, pool_of(proxyip), query, client, protocol);
            if pool_for(pool_of(proxyip), query).len() == 0 {
                chosen == before
            } else {
                is_valid_proxy(chosen)
            }
        }),
{
    let query = tunnel_query(pairs);
    let pool = pool_for(pool_of(proxyip), query);
    law_pool_is_valid(proxyip);
    if let Some(list) = last_value(pairs, "proxyip"@) {
        law_pool_is_valid(list);
    }
    if pool.len() > 0 {
        let i = sticky_index(sticky_key(query.sticky_override, client, protocol), pool.len());
        assert(0 <= i < pool.len());
    }
}

/// The value of a name is that of its last pair: no pair behind that one has the name. A name that
/// no pair has is given no value.
pub proof fn law_last_pair_counts(pairs: Seq<(Seq<char>, Seq<char>)>, name: Seq<char>, i: int)
    requires
        -1 <= i < pairs.len(),
        i >= 0 ==> pairs[i].0 == name,
        forall|j: int| i < j < pairs.len() ==> (#[trigger] pairs[j]).0 != name,
    ensures
        i >= 0 ==> last_value(pairs, name) == Some(pairs[i].1),
        i == -1 ==> last_value(pairs, name) is None,
    decreases pairs.len(),
{
    if pairs.len() > 0 && i < pairs.len() - 1 {
        let rest = pairs.drop_last();
        assert(pairs[pairs.len() - 1].0 != name);
        assert forall|j: int| i < j < rest.len() implies (#[trigger] rest[j]).0 != name by {
            assert(rest[j] == pairs[j]);
        }
        law_last_pair_counts(rest, name, i);
    }
}

/// A client's proxy is one of the pool that its request names with `proxyip`, whatever the default
/// pool is; where it names none, it is one of the default pool. An empty pool leaves the proxy
/// from before, also where the request names it.
pub proof fn law_named_pool_counts(
    before: ProxyEntryView,
    default_pool: Seq<ProxyEntryView>,
    pairs: Seq<(Seq<char>, Seq<char>)>,
    client: Seq<char>,
    protocol: Protocol,
)
    ensures
        ({
            let chosen = chosen_proxy(before, default_pool, tunnel_query(pairs), client, protocol);
            match last_value(pairs, "proxyip"@) {
                Some(list) => if pool_of(list).len() > 0 {
                    pool_of(list).contains(chosen)
                } else {
                    chosen == before
                },
                None => if default_pool.len() > 0 {
                    default_pool.contains(chosen)
                } else {
                    chosen == before
                },
            }
        }),
{
    let pool = match last_value(pairs, "proxyip"@) {
        Some(list) => pool_of(list),
        None => default_pool,
    };
    let key = sticky_key(last_value(pairs, "sid"@), client, protocol);
    if pool.len() > 0 {
        law_place_is_by_the_hash(key, pool.len());
        assert(pool.contains(pool[sticky_index(key, pool.len())]));
    }
}

/// Which proxy of the pool that counts a client gets is decided by the hash of the session that
/// its request names with `sid`, else of its address, with a `:` and the protocol's name behind.
pub proof fn law_choice_is_by_session_or_client(
    before: ProxyEntryView,
    default_pool: Seq<ProxyEntryView>,
    pairs: Seq<(Seq<char>, Seq<char>)>,
    client: Seq<char>,
    protocol: Protocol,
)
    ensures
        ({
            let chosen = chosen_proxy(before, default_pool, tunnel_query(pairs), client, protocol);
            let pool = match last_value(pairs, "proxyip"@) {
                Some(list) => pool_of(list),
                None => default_pool,
            };
            let id = match last_value(pairs, "sid"@) {
                Some(session) => session,
                None => client,
            };
            let name = match protocol {
                Protocol::Vless => "vless"@,
                Protocol::Vmess => "vmess"@,
                Protocol::Trojan => "trojan"@,
            };
            let hash = fnv1a(encode_utf8(id + ":"@ + name));
            pool.len() > 0 ==> chosen == pool[(hash as usize) as int % pool.len() as int]
        }),
{
}

/// What a request says is read from its query: the pool that `proxyip` lists, and the session.
pub proof fn law_query_is_read(pairs: Seq<(Seq<char>, Seq<char>)>)
    ensures
        tunnel_query(pairs).sticky_override == last_value(pairs, "sid"@),
        last_value(pairs, "proxyip"@) is None ==> tunnel_query(pairs).override_pool is None,
        last_value(pairs, "proxyip"@) matches Some(list) ==> tunnel_query(pairs).override_pool
            == Some(pool_of(list)),
{
}

/// The pairs of a request are those of its URL's query; without a URL there are none.
pub proof fn law_pairs_are_those_of_the_url(url: Seq<char>)
    ensures
        url_query(url) matches Some(pairs) ==> request_pairs(Some(url)) == pairs,
        url_query(url) is None ==> request_pairs(Some(url)).len() == 0,
        request_pairs(None).len() == 0,
{
}

/// A websocket is given for the header `websocket`, for no other and not without one.
pub proof fn law_websocket_is_asked_for(upgrade: Option<Seq<char>>)
    ensures
        upgrade is None ==> !asks_for_websocket(upgrade),
        upgrade matches Some(u) ==> (asks_for_websocket(upgrade) <==> u == "websocket"@),
{
}

/// The protocols are called `vless`, `vmess` and `trojan`.
pub proof fn law_protocols_are_named()
    ensures
        tag_of(Protocol::Vless) == "vless"@,
        tag_of(Protocol::Vmess) == "vmess"@,
        tag_of(Protocol::Trojan) == "trojan"@,
{
}

/// A query is seen as the pool and the session that it holds.
pub proof fn law_query_is_seen_whole(q: TunnelQuery)
    ensures
        q.override_pool is None ==> q@.override_pool is None,
        q.override_pool matches Some(pool) ==> q@.override_pool == Some(pool_view(pool@)),
        q.sticky_override is None ==> q@.sticky_override is None,
        q.sticky_override matches Some(session) ==> q@.sticky_override == Some(session@),
{
}

} // verus!

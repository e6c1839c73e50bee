use siren::config::{parse_proxyip_pool, Config, Protocol, ProxyType};
use siren::tunnel::{
    client_ip, protocol_tag, query_of_request, read_query, tunnel, wants_websocket, TunnelQuery,
};

fn setup(proxyip: &str) -> Config {
    Config::new("", "h".to_string(), proxyip, "main".to_string(), "sub".to_string())
}

fn text(t: &str) -> Option<String> {
    Some(t.to_string())
}

fn pairs(list: &[(&str, &str)]) -> Vec<(String, String)> {
    list.iter().map(|(a, b)| (a.to_string(), b.to_string())).collect()
}

fn hosts(q: &TunnelQuery) -> Option<Vec<String>> {
    q.override_pool.as_ref().map(|p| p.iter().map(|e| e.addr.clone()).collect())
}

#[test]
fn last_values_of_a_query_count() {
    let q = read_query(&pairs(&[
        ("proxyip", "a:1"), ("sid", "one"), ("x", "y"), ("proxyip", "b:2,c:3"), ("sid", "two"),
    ]));
    assert_eq!(hosts(&q), Some(vec!["b".to_string(), "c".to_string()]));
    assert_eq!(q.sticky_override, text("two"));
}

#[test]
fn query_that_says_nothing() {
    let q = read_query(&pairs(&[("Sid", "x"), ("proxy", "a:1")]));
    assert!(q.override_pool.is_none());
    assert!(q.sticky_override.is_none());
}

#[test]
fn query_that_names_an_empty_pool() {
    let q = read_query(&pairs(&[("proxyip", "nonsense"), ("sid", "")]));
    assert_eq!(hosts(&q), Some(Vec::new()));
    assert_eq!(q.sticky_override, text(""));
}

#[test]
fn query_of_a_url_is_decoded() {
    let q = query_of_request(&text("https://h/vless?proxyip=socks%3A%2F%2Fu%3Ap%40x%3A1&sid=a+b"));
    assert_eq!(hosts(&q), Some(vec!["x".to_string()]));
    assert_eq!(q.sticky_override, text("a b"));
}

#[test]
fn query_of_no_url() {
    for url in [None, text("no url"), text("https://h/vless")] {
        let q = query_of_request(&url);
        assert!(q.override_pool.is_none());
        assert!(q.sticky_override.is_none());
    }
}

#[test]
fn tags() {
    assert_eq!(protocol_tag(Protocol::Vless), "vless");
    assert_eq!(protocol_tag(Protocol::Vmess), "vmess");
    assert_eq!(protocol_tag(Protocol::Trojan), "trojan");
}

#[test]
fn address_of_the_client() {
    assert_eq!(client_ip(text("10.0.0.1")), "10.0.0.1");
    assert_eq!(client_ip(None), "");
}

#[test]
fn websocket_where_it_is_asked_for() {
    assert!(wants_websocket(&text("websocket")));
    assert!(!wants_websocket(&text("WebSocket")));
    assert!(!wants_websocket(&text("")));
    assert!(!wants_websocket(&None));
}

fn chosen(config: &mut Config, url: &str, client: Option<String>, protocol: Protocol) -> String {
    tunnel(config, &text(url), client, &None, protocol);
    config.proxy_addr.clone()
}

#[test]
fn proxy_is_picked_by_client_and_protocol() {
    let names = ["a", "b", "c"];
    let mut c = setup("a:1,b:2,c:3");
    let got = chosen(&mut c, "https://h/vless", text("10.0.0.1"), Protocol::Vless);
    assert_eq!(got, names[(0xdc69a10aa8a908ccu64 as usize) % 3]);
    let got = chosen(&mut c, "https://h/vmess", text("10.0.0.1"), Protocol::Vmess);
    assert_eq!(got, names[(0xa42c2504d1af50f1u64 as usize) % 3]);
    let got = chosen(&mut c, "https://h/vless", None, Protocol::Vless);
    assert_eq!(got, names[(0x30e1c6d934a57b64u64 as usize) % 3]);
    let got = chosen(&mut c, "https://h/vless?sid=s1", text("10.0.0.1"), Protocol::Vless);
    assert_eq!(got, names[(0xe601c28a38349e30u64 as usize) % 3]);
}

#[test]
fn session_keeps_its_proxy() {
    let mut one = setup("a:1,b:2,c:3");
    let mut other = setup("a:1,b:2,c:3");
    other.proxy_addr = "before".to_string();
    let url = "https://h/vless?sid=session";
    let a = chosen(&mut one, url, text("10.0.0.1"), Protocol::Vless);
    let b = chosen(&mut other, url, text("192.168.0.7"), Protocol::Vless);
    assert_eq!(a, b);
}

#[test]
fn client_keeps_its_proxy() {
    let mut one = setup("a:1,b:2,c:3,d:4,e:5");
    let mut other = setup("a:1,b:2,c:3,d:4,e:5");
    other.proxy_addr = "before".to_string();
    let a = chosen(&mut one, "https://h/vless", text("10.9.8.7"), Protocol::Trojan);
    let b = chosen(&mut other, "https://h/vless?x=y", text("10.9.8.7"), Protocol::Trojan);
    assert_eq!(a, b);
}

#[test]
fn choice_is_from_the_pool_that_counts() {
    let mut c = setup("a:1,b:2");
    let got = chosen(&mut c, "https://h/vless?proxyip=x:7", text("1.1.1.1"), Protocol::Vless);
    assert_eq!(got, "x");
    assert_eq!(c.proxy_port, 7);
    assert_eq!(c.proxy_pool.len(), 2);
}

#[test]
fn empty_pool_leaves_what_was_chosen() {
    let mut c = setup("a:1");
    c.proxy_addr = "before".to_string();
    c.proxy_port = 9;
    let got = chosen(&mut c, "https://h/vless?proxyip=", text("1.1.1.1"), Protocol::Vless);
    assert_eq!(got, "before");
    assert_eq!(c.proxy_port, 9);
    let mut c = setup("");
    assert_eq!(chosen(&mut c, "https://h/vless", None, Protocol::Vless), "");
}

#[test]
fn chosen_proxy_can_be_dialled() {
    let mut c = setup("");
    for list in ["u:p@h:1", "socks://u:p@x:2", "http://@:3,http://y:4", ":5,z:6"] {
        let pool = parse_proxyip_pool(list);
        let url = format!("https://h/vless?proxyip={}", list);
        let got = chosen(&mut c, &url, text("1.1.1.1"), Protocol::Vless);
        assert_eq!(pool.len(), 1);
        assert_eq!(got, pool[0].addr);
        assert!(!got.is_empty());
    }
}

#[test]
fn tunnel_sets_all_of_the_proxy_and_nothing_else() {
    let mut c = setup("socks://user:pass@x:1080");
    let websocket = tunnel(
        &mut c,
        &text("https://h/vless"),
        text("1.1.1.1"),
        &text("websocket"),
        Protocol::Vless,
    );
    assert!(websocket);
    assert_eq!(c.proxy_type, ProxyType::Socks5);
    assert_eq!(c.proxy_addr, "x");
    assert_eq!(c.proxy_port, 1080);
    assert_eq!(c.proxy_credentials, Some(("user".to_string(), "pass".to_string())));
    assert_eq!(c.host, "h");
    assert_eq!(c.main_page_url, "main");
    assert_eq!(c.sub_page_url, "sub");
    assert_eq!(c.proxy_pool.len(), 1);
}

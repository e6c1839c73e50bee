use base64::Engine;
use siren::config::Config;
use siren::link::{link, link_if_it_fits};

const ID: &str = "67e55044-10b1-426f-9247-bb680e5fe0c8";

fn links(host: &str) -> String {
    link(&Config::new(ID, host.to_string(), "", String::new(), String::new()))
}

#[test]
fn links_of_a_host() {
    let expected = "vmess://eyJhZGQiOiJleGFtcGxlLmNvbSIsImFpZCI6IjAiLCJhbHBuIjoiIiwiaG9zdCI6ImV4YW1wbGUuY29tIiwiaWQiOiI2N2U1NTA0NC0xMGIxLTQyNmYtOTI0Ny1iYjY4MGU1ZmUwYzgiLCJuZXQiOiJ3cyIsInBhdGgiOiIvdm1lc3MiLCJwb3J0IjoiNDQzIiwicHMiOiJzaXJlbiB2bWVzcyIsInNjeSI6Inplcm8iLCJzbmkiOiJleGFtcGxlLmNvbSIsInRscyI6InRscyIsInR5cGUiOiJub25lIiwidiI6IjIifQ==\nvless://67e55044-10b1-426f-9247-bb680e5fe0c8@example.com:443?encryption=none&type=ws&host=example.com&path=%2Fvless&security=tls&sni=example.com#siren vless\ntrojan://67e55044-10b1-426f-9247-bb680e5fe0c8@example.com:443?encryption=none&type=ws&host=example.com&path=%2Ftrojan&security=tls&sni=example.com#siren trojan";
    assert_eq!(links("example.com"), expected);
}

#[test]
fn vmess_link_escapes_and_is_url_safe() {
    let text = links("a\"\\\n\t\u{1}\u{e9}>?~");
    let first = text.split('\n').next();
    assert_eq!(
        first,
        Some("vmess://eyJhZGQiOiJhXCJcXFxuXHRcdTAwMDHDqT4_fiIsImFpZCI6IjAiLCJhbHBuIjoiIiwiaG9zdCI6ImFcIlxcXG5cdFx1MDAwMcOpPj9-IiwiaWQiOiI2N2U1NTA0NC0xMGIxLTQyNmYtOTI0Ny1iYjY4MGU1ZmUwYzgiLCJuZXQiOiJ3cyIsInBhdGgiOiIvdm1lc3MiLCJwb3J0IjoiNDQzIiwicHMiOiJzaXJlbiB2bWVzcyIsInNjeSI6Inplcm8iLCJzbmkiOiJhXCJcXFxuXHRcdTAwMDHDqT4_fiIsInRscyI6InRscyIsInR5cGUiOiJub25lIiwidiI6IjIifQ==")
    );
}

#[test]
fn one_link_per_line() {
    let text = links("h");
    let lines: Vec<&str> = text.split('\n').collect();
    assert_eq!(lines.len(), 3);
    assert!(lines[0].starts_with("vmess://"));
    assert!(lines[1].starts_with("vless://"));
    assert!(lines[2].starts_with("trojan://"));
}

#[test]
fn vmess_link_holds_the_setup() {
    let text = links("h\u{8}\u{c}\r\u{7f}/");
    let coded = match text.split('\n').next().and_then(|l| l.strip_prefix("vmess://")) {
        Some(c) => c.to_string(),
        None => panic!("no link"),
    };
    let bytes = match base64::engine::general_purpose::URL_SAFE.decode(coded) {
        Ok(b) => b,
        Err(e) => panic!("{}", e),
    };
    let value: serde_json::Value = match serde_json::from_slice(&bytes) {
        Ok(v) => v,
        Err(e) => panic!("{}", e),
    };
    for (name, expected) in [
        ("ps", "siren vmess"), ("v", "2"), ("add", "h\u{8}\u{c}\r\u{7f}/"), ("port", "443"), ("id", ID),
        ("aid", "0"), ("scy", "zero"), ("net", "ws"), ("type", "none"), ("host", "h\u{8}\u{c}\r\u{7f}/"),
        ("path", "/vmess"), ("tls", "tls"), ("sni", "h\u{8}\u{c}\r\u{7f}/"), ("alpn", ""),
    ] {
        assert_eq!(value[name], expected);
    }
}

#[test]
fn identifier_reads_back_from_a_link() {
    let text = links("h");
    let id = match text.split("vless://").nth(1).and_then(|t| t.split('@').next()) {
        Some(t) => t.to_string(),
        None => panic!("no link"),
    };
    assert_eq!(id, ID);
    let again = Config::new(&id, String::new(), "", String::new(), String::new());
    assert_eq!(again.uuid, 0x67e55044_10b1_426f_9247_bb680e5fe0c8);
}

#[test]
fn identifier_of_zeros() {
    let text = link(&Config::new("none", "h".to_string(), "", String::new(), String::new()));
    assert!(text.contains("vless://00000000-0000-0000-0000-000000000000@h:443?"));
}

#[test]
fn links_of_a_long_host() {
    let host = "x".repeat(100_000);
    let text = links(&host);
    assert_eq!(text.split('\n').count(), 3);
    assert_eq!(text.matches(host.as_str()).count(), 6);
}

#[test]
fn links_that_fit_are_the_links() {
    let config = Config::new(ID, "example.com".to_string(), "", String::new(), String::new());
    assert_eq!(link_if_it_fits(&config), Some(link(&config)));
}

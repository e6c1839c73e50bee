use siren::config::{parse_proxyip, Config};
use siren::outbound::{TcpAction, TcpOutbound, TcpPhase};
use siren::stream::ProxyStream;

const NO_PROXY: &str = "direct connection failed and no proxyip is configured";

fn outbound(proxy: &str) -> TcpOutbound {
    let mut c = Config::new("", String::new(), "", String::new(), String::new());
    if let Some(e) = parse_proxyip(proxy) {
        c.proxy_type = e.proxy_type;
        c.proxy_addr = e.addr;
        c.proxy_port = e.port;
        c.proxy_credentials = e.credentials;
    }
    ProxyStream::new(c).handle_tcp_outbound("dest".to_string(), 443)
}

fn told(a: TcpAction) -> String {
    let login = |c: Option<(String, String)>| match c {
        Some((user, pass)) => format!(" {} {}", user, pass),
        None => String::new(),
    };
    match a {
        TcpAction::Dial { addr, port } => format!("dial {} {}", addr, port),
        TcpAction::Socks5 { addr, port, credentials } => {
            format!("socks {} {}{}", addr, port, login(credentials))
        }
        TcpAction::HttpConnect { addr, port, credentials } => {
            format!("http {} {}{}", addr, port, login(credentials))
        }
        TcpAction::Relay { addr, port } => format!("relay {} {}", addr, port),
        TcpAction::Finish(Ok(())) => "ok".to_string(),
        TcpAction::Finish(Err(e)) => format!("error {}", e),
    }
}

/// What is done on each of some results.
fn run(mut t: TcpOutbound, results: &[Result<(), &str>]) -> Vec<String> {
    let mut all = vec![told(t.start())];
    for r in results {
        all.push(told(t.advance(r.map_err(|e| e.to_string()))));
    }
    all
}

#[test]
fn direct_comes_first() {
    assert_eq!(
        run(outbound("p:1"), &[Ok(()), Ok(())]),
        vec!["dial dest 443", "relay dest 443", "ok"]
    );
    assert_eq!(
        run(outbound("p:1"), &[Ok(()), Err("reset")]),
        vec!["dial dest 443", "relay dest 443", "error reset"]
    );
}

#[test]
fn no_proxy_to_fall_back_on() {
    assert_eq!(
        run(outbound(""), &[Err("refused")]),
        vec!["dial dest 443".to_string(), format!("error {}", NO_PROXY)]
    );
}

#[test]
fn direct_proxy_takes_the_traffic_as_it_is() {
    assert_eq!(
        run(outbound("p:1"), &[Err("x"), Ok(()), Ok(())]),
        vec!["dial dest 443", "dial p 1", "relay p 1", "ok"]
    );
}

#[test]
fn socks_proxy_is_asked_for_the_destination() {
    assert_eq!(
        run(outbound("socks://u:p@s:2"), &[Err("x"), Ok(()), Ok(()), Ok(())]),
        vec!["dial dest 443", "dial s 2", "socks dest 443 u p", "relay dest 443", "ok"]
    );
}

#[test]
fn http_proxy_is_asked_for_the_destination() {
    assert_eq!(
        run(outbound("http://h:3"), &[Err("x"), Ok(()), Ok(()), Ok(())]),
        vec!["dial dest 443", "dial h 3", "http dest 443", "relay dest 443", "ok"]
    );
}

#[test]
fn failure_is_reported() {
    assert_eq!(
        run(outbound("http://h:3"), &[Err("x"), Err("down")]),
        vec!["dial dest 443", "dial h 3", "error down"]
    );
    assert_eq!(
        run(outbound("socks://h:3"), &[Err("x"), Ok(()), Err("no")]),
        vec!["dial dest 443", "dial h 3", "socks dest 443", "error no"]
    );
    assert_eq!(
        run(outbound("p:1"), &[Err("x"), Ok(()), Err("reset")]),
        vec!["dial dest 443", "dial p 1", "relay p 1", "error reset"]
    );
}

#[test]
fn outcome_is_known_after_four_results() {
    for proxy in ["", "p:1", "socks://p:1", "http://p:1"] {
        for bits in 0..16 {
            let results: Vec<Result<(), &str>> =
                (0..4).map(|i| if bits >> i & 1 == 1 { Ok(()) } else { Err("e") }).collect();
            let mut t = outbound(proxy);
            let mut last = told(t.start());
            for r in results {
                last = told(t.advance(r.map_err(|e| e.to_string())));
            }
            assert!(last == "ok" || last.starts_with("error"), "{}", last);
            assert_eq!(t.phase, TcpPhase::Finished);
        }
    }
}

#[test]
fn relay_only_where_it_is_granted() {
    for proxy in ["", "p:1", "socks://p:1", "http://p:1"] {
        for bits in 0..16 {
            let mut t = outbound(proxy);
            let mut done: Vec<bool> = Vec::new();
            for i in 0..4 {
                let ok = bits >> i & 1 == 1;
                done.push(ok);
                let a = t.advance(if ok { Ok(()) } else { Err("e".to_string()) });
                if let TcpAction::Relay { .. } = a {
                    assert!(ok);
                    assert!(done.len() == 1 || (!done[0] && done[1]));
                    assert!(done.len() == 1 || proxy == "p:1" || done.len() == 3);
                }
            }
        }
    }
}

#[test]
fn start_tries_the_destination() {
    let t = outbound("p:1");
    assert_eq!(t.phase, TcpPhase::Direct);
    assert!(matches!(t.start(), TcpAction::Dial { addr, port: 443 } if addr == "dest"));
}

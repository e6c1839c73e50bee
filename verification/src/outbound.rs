//! How a client's traffic gets out: the order in which a destination and a proxy are tried for
//! TCP, and the one exchange for UDP.

use crate::config::{clone_credentials, credentials_view, ProxyEntryView, ProxyType};
use crate::stats::{report_text, report_url};
use crate::stream::ProxyStream;
use crate::text::text_view;
use vstd::prelude::*;
use vstd::string::*;

verus! {

/// The longest datagram.
pub const MAX_DATAGRAM_SIZE: usize = 65535;

/// What to do next for a TCP destination. Each but the last is answered by whether it succeeded.
pub enum TcpAction {
    /// Open a connection.
    Dial { addr: String, port: u16 },
    /// Ask the proxy for the destination, by SOCKS version 5.
    Socks5 { addr: String, port: u16, credentials: Option<(String, String)> },
    /// Ask the proxy for the destination, by HTTP `CONNECT`.
    HttpConnect { addr: String, port: u16, credentials: Option<(String, String)> },
    /// Relay bytes both ways until one side ends; the traffic counts as traffic of this address.
    Relay { addr: String, port: u16 },
    /// Stop, with this result.
    Finish(Result<(), String>),
}

/// What a [`TcpAction`] says.
#[verifier::ext_equal]
pub enum TcpActionView {
    Dial { addr: Seq<char>, port: u16 },
    Socks5 { addr: Seq<char>, port: u16, credentials: Option<(Seq<char>, Seq<char>)> },
    HttpConnect { addr: Seq<char>, port: u16, credentials: Option<(Seq<char>, Seq<char>)> },
    Relay { addr: Seq<char>, port: u16 },
    Finish(Result<(), Seq<char>>),
}

/// A result whose error is a text.
pub open spec fn result_view(r: Result<(), String>) -> Result<(), Seq<char>> {
    match r {
        Ok(_) => Ok(()),
        Err(e) => Err(e@),
    }
}

impl View for TcpAction {
    type V = TcpActionView;

    open spec fn view(&self) -> TcpActionView {
        match *self {
            TcpAction::Dial { addr, port } => TcpActionView::Dial { addr: addr@, port },
            TcpAction::Socks5 { addr, port, credentials } => TcpActionView::Socks5 {
                addr: addr@,
                port,
                credentials: credentials_view(credentials),
            },
            TcpAction::HttpConnect { addr, port, credentials } => TcpActionView::HttpConnect {
                addr: addr@,
                port,
                credentials: credentials_view(credentials),
            },
            TcpAction::Relay { addr, port } => TcpActionView::Relay { addr: addr@, port },
            TcpAction::Finish(r) => TcpActionView::Finish(result_view(r)),
        }
    }
}

/// Whose result is awaited.
#[derive(Clone, Copy, Debug, PartialEq, Eq, Structural)]
pub enum TcpPhase {
    /// The connection to the destination itself.
    Direct,
    /// The connection to the proxy.
    Proxy,
    /// The proxy's handshake.
    Handshake,
    /// The relay.
    Relaying,
    /// None: the outcome is known.
    Finished,
}

/// The way to a TCP destination.
pub struct TcpOutbound {
    pub remote_addr: String,
    pub remote_port: u16,
    pub proxy_addr: String,
    pub proxy_port: u16,
    pub proxy_type: ProxyType,
    pub proxy_credentials: Option<(String, String)>,
    pub phase: TcpPhase,
}

/// What a [`TcpOutbound`] is for.
#[verifier::ext_equal]
pub struct TcpRoute {
    pub addr: Seq<char>,
    pub port: u16,
    pub proxy: ProxyEntryView,
}

/// The error where there is no other way to a destination.
pub open spec fn no_proxy_message() -> Seq<char> {
    "direct connection failed and no proxyip is configured"@
}

/// What to do when the connection to the proxy is open. A proxy that is not asked anything
/// takes the traffic as it is.
pub open spec fn ask_proxy(r: TcpRoute) -> (TcpPhase, TcpActionView) {
    match r.proxy.proxy_type {
        ProxyType::Direct => (
            TcpPhase::Relaying,
            TcpActionView::Relay { addr: r.proxy.addr, port: r.proxy.port },
        ),
        ProxyType::Socks5 => (
            TcpPhase::Handshake,
            TcpActionView::Socks5 {
                addr: r.addr,
                port: r.port,
                credentials: r.proxy.credentials,
            },
        ),
        ProxyType::Http => (
            TcpPhase::Handshake,
            TcpActionView::HttpConnect {
                addr: r.addr,
                port: r.port,
                credentials: r.proxy.credentials,
            },
        ),
    }
}

/// What to do after the awaited result.
pub open spec fn tcp_step(r: TcpRoute, phase: TcpPhase, result: Result<(), Seq<char>>) -> (
    TcpPhase,
    TcpActionView,
) {
    match (phase, result) {
        (TcpPhase::Direct, Ok(_)) => (
            TcpPhase::Relaying,
            TcpActionView::Relay { addr: r.addr, port: r.port },
        ),
        (TcpPhase::Direct, Err(_)) => if r.proxy.addr.len() == 0 {
            (TcpPhase::Finished, TcpActionView::Finish(Err(no_proxy_message())))
        } else {
            (TcpPhase::Proxy, TcpActionView::Dial { addr: r.proxy.addr, port: r.proxy.port })
        },
        (TcpPhase::Proxy, Ok(_)) => ask_proxy(r),
        (TcpPhase::Handshake, Ok(_)) => (
            TcpPhase::Relaying,
            TcpActionView::Relay { addr: r.addr, port: r.port },
        ),
        (_, result) => (TcpPhase::Finished, TcpActionView::Finish(result)),
    }
}

impl TcpOutbound {
    /// What this is for.
    pub open spec fn route(self) -> TcpRoute {
        TcpRoute {
            addr: self.remote_addr@,
            port: self.remote_port,
            proxy: ProxyEntryView {
                proxy_type: self.proxy_type,
                addr: self.proxy_addr@,
                port: self.proxy_port,
                credentials: credentials_view(self.proxy_credentials),
            },
        }
    }

    /// The first thing to do: to try the destination itself.
    pub fn start(&self) -> (a: TcpAction)
        ensures
            a@ == (TcpActionView::Dial { addr: self.route().addr, port: self.route().port }),
    {
        TcpAction::Dial { addr: self.remote_addr.clone(), port: self.remote_port }
    }

    /// Relays under the name of the destination.
    fn relay(&mut self) -> (a: TcpAction)
        ensures
            final(self).route() == old(self).route(),
            final(self).phase == TcpPhase::Relaying,
            a@ == (TcpActionView::Relay { addr: old(self).route().addr, port: old(self).route().port }),
    {
        self.phase = TcpPhase::Relaying;
        TcpAction::Relay { addr: self.remote_addr.clone(), port: self.remote_port }
    }

    /// Goes on when the connection to the proxy is open.
    fn ask(&mut self) -> (a: TcpAction)
        ensures
            final(self).route() == old(self).route(),
            (final(self).phase, a@) == ask_proxy(old(self).route()),
    {
        match self.proxy_type {
            ProxyType::Direct => {
                self.phase = TcpPhase::Relaying;
                TcpAction::Relay { addr: self.proxy_addr.clone(), port: self.proxy_port }
            },
            ProxyType::Socks5 => {
                self.phase = TcpPhase::Handshake;
                TcpAction::Socks5 {
                    addr: self.remote_addr.clone(),
                    port: self.remote_port,
                    credentials: clone_credentials(&self.proxy_credentials),
                }
            },
            ProxyType::Http => {
                self.phase = TcpPhase::Handshake;
                TcpAction::HttpConnect {
                    addr: self.remote_addr.clone(),
                    port: self.remote_port,
                    credentials: clone_credentials(&self.proxy_credentials),
                }
            },
        }
    }

    /// Takes the awaited result.
    pub fn advance(&mut self, result: Result<(), String>) -> (a: TcpAction)
        ensures
            final(self).route() == old(self).route(),
            (final(self).phase, a@) == tcp_step(
                old(self).route(),
                old(self).phase,
                result_view(result),
            ),
    {
        match (self.phase, result) {
            (TcpPhase::Direct, Ok(_)) => self.relay(),
            (TcpPhase::Direct, Err(_)) => {
                if self.proxy_addr.as_str().is_empty() {
                    self.phase = TcpPhase::Finished;
                    return TcpAction::Finish(
                        Err("direct connection failed and no proxyip is configured".to_owned()),
                    );
                }
                self.phase = TcpPhase::Proxy;
                TcpAction::Dial { addr: self.proxy_addr.clone(), port: self.proxy_port }
            },
            (TcpPhase::Proxy, Ok(_)) => self.ask(),
            (TcpPhase::Handshake, Ok(_)) => self.relay(),
            (_, result) => {
                self.phase = TcpPhase::Finished;
                TcpAction::Finish(result)
            },
        }
    }
}

impl ProxyStream {
    /// The way to a TCP destination, with the client's proxy to fall back on.
    pub fn handle_tcp_outbound(&self, remote_addr: String, remote_port: u16) -> (t: TcpOutbound)
        ensures
            t.route() == (TcpRoute {
                addr: remote_addr@,
                port: remote_port,
                proxy: self.config.proxy(),
            }),
            t.phase == TcpPhase::Direct,
    {
        TcpOutbound {
            remote_addr,
            remote_port,
            proxy_addr: self.config.proxy_addr.clone(),
            proxy_port: self.config.proxy_port,
            proxy_type: self.config.proxy_type,
            proxy_credentials: clone_credentials(&self.config.proxy_credentials),
            phase: TcpPhase::Direct,
        }
    }

    /// What comes of a relay that has ended: the URL by which its bytes are reported, where it
    /// did not fail, and the outcome, which does not depend on the report.
    pub fn relay(result: Result<(u64, u64), String>) -> (r: (Option<String>, Result<(), String>))
        ensures
            match result {
                Ok((up, down)) => text_view(r.0) == Some(report_text(up, down)) && r.1 is Ok,
                Err(e) => r.0 is None && result_view(r.1) == Err::<(), Seq<char>>(e@),
            },
    {
        match result {
            Ok((up, down)) => (Some(report_url(up, down)), Ok(())),
            Err(e) => (None, Err(e)),
        }
    }

    /// The query that a client's datagram is, of which `n` bytes were read into `buff`.
    pub fn handle_udp_outbound(buff: Vec<u8>, n: usize) -> (query: Vec<u8>)
        ensures
            query@ == if n <= buff@.len() {
                buff@.take(n as int)
            } else {
                buff@
            },
    {
        let mut query: Vec<u8> = buff;
        query.truncate(n);
        query
    }
}

/// The phase after some results.
pub open spec fn phase_after(r: TcpRoute, results: Seq<Result<(), Seq<char>>>) -> TcpPhase
    decreases results.len(),
{
    if results.len() == 0 {
        TcpPhase::Direct
    } else {
        tcp_step(r, phase_after(r, results.drop_last()), results.last()).0
    }
}

/// What is done after some results; first of all the destination is tried.
pub open spec fn action_after(r: TcpRoute, results: Seq<Result<(), Seq<char>>>) -> TcpActionView {
    if results.len() == 0 {
        TcpActionView::Dial { addr: r.addr, port: r.port }
    } else {
        tcp_step(r, phase_after(r, results.drop_last()), results.last()).1
    }
}

/// After at most four results the outcome is known.
pub proof fn law_outbound_ends(r: TcpRoute, results: Seq<Result<(), Seq<char>>>)
    requires
        results.len() >= 4,
    ensures
        action_after(r, results) is Finish,
        phase_after(r, results) is Finished,
    decreases results.len(),
{
    reveal_with_fuel(phase_after, 5);
    if results.len() > 4 {
        law_outbound_ends(r, results.drop_last());
    }
}

/// Where the destination itself answers, the traffic goes straight to it and the outcome is that
/// of the relay: the proxy is not touched.
pub proof fn law_direct_comes_first(r: TcpRoute, relayed: Result<(), Seq<char>>)
    ensures
        action_after(r, Seq::empty()) == (TcpActionView::Dial { addr: r.addr, port: r.port }),
        action_after(r, seq![Ok(())]) == (TcpActionView::Relay { addr: r.addr, port: r.port }),
        action_after(r, seq![Ok(()), relayed]) == TcpActionView::Finish(relayed),
{
    reveal_with_fuel(phase_after, 3);
    assert(seq![Ok(()), relayed].drop_last() == seq![Ok::<(), Seq<char>>(())]);
    assert(seq![Ok::<(), Seq<char>>(())].drop_last() == Seq::<Result<(), Seq<char>>>::empty());
}

/// Where the destination does not answer and no proxy is chosen, that is the outcome.
pub proof fn law_no_proxy_to_fall_back_on(r: TcpRoute, e: Seq<char>)
    requires
        r.proxy.addr.len() == 0,
    ensures
        action_after(r, seq![Err(e)]) == TcpActionView::Finish(
            Err("direct connection failed and no proxyip is configured"@),
        ),
{
    assert(seq![Err::<(), Seq<char>>(e)].drop_last() == Seq::<Result<(), Seq<char>>>::empty());
}

/// Where the destination does not answer and a proxy is chosen, that proxy is dialled. One that is
/// not asked anything then takes the traffic; any other is asked for the destination, with its
/// credentials, and takes the traffic when it grants that. The outcome is that of the relay.
pub proof fn law_proxy_is_tried(r: TcpRoute, e: Seq<char>, relayed: Result<(), Seq<char>>)
    requires
        r.proxy.addr.len() > 0,
    ensures
        action_after(r, seq![Err(e)]) == (TcpActionView::Dial {
            addr: r.proxy.addr,
            port: r.proxy.port,
        }),
        r.proxy.proxy_type == ProxyType::Direct ==> action_after(r, seq![Err(e), Ok(())]) == (
        TcpActionView::Relay { addr: r.proxy.addr, port: r.proxy.port }),
        r.proxy.proxy_type == ProxyType::Socks5 ==> action_after(r, seq![Err(e), Ok(())]) == (
        TcpActionView::Socks5 { addr: r.addr, port: r.port, credentials: r.proxy.credentials }),
        r.proxy.proxy_type == ProxyType::Http ==> action_after(r, seq![Err(e), Ok(())]) == (
        TcpActionView::HttpConnect { addr: r.addr, port: r.port, credentials: r.proxy.credentials }),
        r.proxy.proxy_type == ProxyType::Direct ==> action_after(r, seq![Err(e), Ok(()), relayed])
            == TcpActionView::Finish(relayed),
        r.proxy.proxy_type != ProxyType::Direct ==> {
            &&& action_after(r, seq![Err(e), Ok(()), Ok(())]) == (TcpActionView::Relay {
                addr: r.addr,
                port: r.port,
            })
            &&& action_after(r, seq![Err(e), Ok(()), Ok(()), relayed]) == TcpActionView::Finish(
                relayed,
            )
        },
{
    reveal_with_fuel(phase_after, 5);
    let none = Seq::<Result<(), Seq<char>>>::empty();
    let one = none.push(Err(e));
    let two = one.push(Ok(()));
    let three = two.push(Ok(()));
    assert(one.drop_last() == none);
    assert(two.drop_last() == one);
    assert(three.drop_last() == two);
    assert(seq![Err::<(), Seq<char>>(e)] == one);
    assert(seq![Err::<(), Seq<char>>(e), Ok(())] == two);
    assert(seq![Err::<(), Seq<char>>(e), Ok(()), Ok(())] == three);
    assert(seq![Err::<(), Seq<char>>(e), Ok(()), relayed] == two.push(relayed));
    assert(two.push(relayed).drop_last() == two);
    assert(seq![Err::<(), Seq<char>>(e), Ok(()), Ok(()), relayed] == three.push(relayed));
    assert(three.push(relayed).drop_last() == three);
}

/// A connection to the proxy is opened only after the destination did not answer, and only to a
/// proxy that is chosen.
pub proof fn law_proxy_is_the_fallback(r: TcpRoute, results: Seq<Result<(), Seq<char>>>)
    requires
        results.len() > 0,
        action_after(r, results) is Dial,
    ensures
        results.len() == 1,
        results[0] is Err,
        r.proxy.addr.len() > 0,
        action_after(r, results) == (TcpActionView::Dial {
            addr: r.proxy.addr,
            port: r.proxy.port,
        }),
{
    if results.len() > 1 {
        lemma_direct_is_first(r, results.drop_last());
    }
}

proof fn lemma_direct_is_first(r: TcpRoute, results: Seq<Result<(), Seq<char>>>)
    requires
        results.len() > 0,
    ensures
        phase_after(r, results) != TcpPhase::Direct,
{
}

/// Bytes are relayed only over a connection that was opened, and through a proxy that is asked
/// for the destination only after it granted that.
pub proof fn law_relay_is_granted(r: TcpRoute, results: Seq<Result<(), Seq<char>>>)
    requires
        action_after(r, results) is Relay,
    ensures
        results.len() > 0,
        results.last() is Ok,
        results.len() > 1 ==> results[0] is Err && results[1] is Ok,
        results.len() > 1 && r.proxy.proxy_type != ProxyType::Direct ==> results.len() == 3,
{
    reveal_with_fuel(phase_after, 5);
    if results.len() >= 4 {
        law_outbound_ends(r, results);
    } else if results.len() == 3 {
        assert(results.drop_last().drop_last().drop_last() == Seq::<
            Result<(), Seq<char>>,
        >::empty());
        assert(results.drop_last().last() == results[1]);
        assert(results.drop_last().drop_last().last() == results[0]);
    } else if results.len() == 2 {
        assert(results.drop_last().last() == results[0]);
    }
}

/// What goes wrong with the proxy, in its handshake or in the relay is the outcome.
pub proof fn law_failure_is_reported(r: TcpRoute, results: Seq<Result<(), Seq<char>>>, e: Seq<char>)
    requires
        results.len() > 0,
    ensures
        action_after(r, results.push(Err(e))) == TcpActionView::Finish(Err(e)),
{
    lemma_direct_is_first(r, results);
    assert(results.push(Err(e)).drop_last() == results);
}

/// Each result is answered by one step, which depends on what was awaited, on the result and on
/// what the way is for: a connection that is open is relayed over, or its proxy is asked; a
/// destination that does not answer is given up for the proxy; anything else is the outcome.
pub proof fn law_result_is_answered(r: TcpRoute, phase: TcpPhase, result: Result<(), Seq<char>>)
    ensures
        ({
            let (next, action) = tcp_step(r, phase, result);
            &&& action is Dial <==> phase is Direct && result is Err && r.proxy.addr.len() > 0
            &&& action is Dial ==> next is Proxy && action == (TcpActionView::Dial {
                addr: r.proxy.addr,
                port: r.proxy.port,
            })
            &&& action is Socks5 <==> phase is Proxy && result is Ok && r.proxy.proxy_type
                == ProxyType::Socks5
            &&& action is Socks5 ==> next is Handshake && action == (TcpActionView::Socks5 {
                addr: r.addr,
                port: r.port,
                credentials: r.proxy.credentials,
            })
            &&& action is HttpConnect <==> phase is Proxy && result is Ok && r.proxy.proxy_type
                == ProxyType::Http
            &&& action is HttpConnect ==> next is Handshake && action == (
            TcpActionView::HttpConnect {
                addr: r.addr,
                port: r.port,
                credentials: r.proxy.credentials,
            })
            &&& action is Relay <==> result is Ok && (phase is Direct || phase is Handshake || (
            phase is Proxy && r.proxy.proxy_type == ProxyType::Direct))
            &&& action is Relay ==> next is Relaying && action == if phase is Proxy {
                TcpActionView::Relay { addr: r.proxy.addr, port: r.proxy.port }
            } else {
                TcpActionView::Relay { addr: r.addr, port: r.port }
            }
            &&& action is Finish ==> next is Finished && action == TcpActionView::Finish(
                if phase is Direct {
                    Err("direct connection failed and no proxyip is configured"@)
                } else {
                    result
                },
            )
        }),
{
}

/// A way is for what its fields say, and an action is seen as what it holds.
pub proof fn law_way_is_seen_whole(t: TcpOutbound, a: TcpAction)
    ensures
        t.route().addr == t.remote_addr@,
        t.route().port == t.remote_port,
        t.route().proxy.proxy_type == t.proxy_type,
        t.route().proxy.addr == t.proxy_addr@,
        t.route().proxy.port == t.proxy_port,
        t.route().proxy.credentials == credentials_view(t.proxy_credentials),
        a matches TcpAction::Dial { addr, port } ==> a@ == (TcpActionView::Dial {
            addr: addr@,
            port,
        }),
        a matches TcpAction::Socks5 { addr, port, credentials } ==> a@ == (TcpActionView::Socks5 {
            addr: addr@,
            port,
            credentials: credentials_view(credentials),
        }),
        a matches TcpAction::HttpConnect { addr, port, credentials } ==> a@ == (
        TcpActionView::HttpConnect {
            addr: addr@,
            port,
            credentials: credentials_view(credentials),
        }),
        a matches TcpAction::Relay { addr, port } ==> a@ == (TcpActionView::Relay {
            addr: addr@,
            port,
        }),
        a matches TcpAction::Finish(Ok(_)) ==> a@ == TcpActionView::Finish(Ok(())),
        a matches TcpAction::Finish(Err(e)) ==> a@ == TcpActionView::Finish(Err(e@)),
{
}

/// A result is seen as whether it is one, and as its error's text; a datagram has at most 65535
/// bytes.
pub proof fn law_result_is_seen_whole(r: Result<(), String>)
    ensures
        r is Ok ==> result_view(r) == Ok::<(), Seq<char>>(()),
        r matches Err(e) ==> result_view(r) == Err::<(), Seq<char>>(e@),
        MAX_DATAGRAM_SIZE == 65535,
{
}

/// Credentials are seen as the user's name and password that they hold.
pub proof fn law_credentials_are_seen_whole(c: Option<(String, String)>)
    ensures
        c is None ==> credentials_view(c) is None,
        c matches Some((user, pass)) ==> credentials_view(c) == Some((user@, pass@)),
{
}

} // verus!

//! The per-connection tunnel: its states, and what it does on each event.
//! The caller owns the sockets; this state machine tells it which upstream to
//! dial and what to write where.
use vstd::prelude::*;
use crate::config::{no_proxy_matches, NoProxySpec, NoProxyValue, ProxyConfig, ProxyConfigSpec};
use crate::sniff::{parse_host_from_request, sniff, RequestType};
use crate::text::{decimal_string, dec_text};

verus! {

/// How to reach a target: directly, or through a proxy given as `host:port`.
#[derive(Clone, Debug, PartialEq, Eq)]
pub enum Route {
    Direct(String),
    ViaProxy { proxy: String, target: String },
}

/// A route, as the contracts see it.
pub enum RouteSpec {
    Direct(Seq<char>),
    ViaProxy { proxy: Seq<char>, target: Seq<char> },
}

impl View for Route {
    type V = RouteSpec;

    open spec fn view(&self) -> RouteSpec {
        match self {
            Route::Direct(t) => RouteSpec::Direct(t@),
            Route::ViaProxy { proxy, target } => RouteSpec::ViaProxy { proxy: proxy@, target: target@ },
        }
    }
}

/// Whether any NO_PROXY entry matches the target.
pub open spec fn bypasses(no_proxy: Seq<NoProxySpec>, target: Seq<char>) -> bool {
    exists|i: int| 0 <= i < no_proxy.len() && no_proxy_matches(#[trigger] no_proxy[i], target)
}

/// The proxy authority `host:port`.
pub open spec fn authority_text(host: Seq<char>, port: u32) -> Seq<char> {
    host + ":"@ + dec_text(port as nat)
}

/// The route that a policy gives a target: `Direct` dials it directly; a
/// proxy policy dials it directly where a NO_PROXY entry matches it, and
/// through the proxy otherwise.
pub open spec fn route_spec(policy: ProxyConfigSpec, target: Seq<char>) -> RouteSpec {
    match policy {
        ProxyConfigSpec::Direct => RouteSpec::Direct(target),
        ProxyConfigSpec::Proxy { host, port, no_proxy } => if bypasses(no_proxy, target) {
            RouteSpec::Direct(target)
        } else {
            RouteSpec::ViaProxy { proxy: authority_text(host, port), target }
        },
    }
}

/// The authority `host:port` of a proxy.
pub fn proxy_authority(host: &str, port: u32) -> (r: String)
    ensures
        r@ == authority_text(host@, port),
{
    let mut r = host.to_owned();
    r.append(":");
    let digits = decimal_string(port);
    r.append(digits.as_str());
    r
}

/// Whether any entry of `no_proxy` matches `target`.
pub fn any_matches(no_proxy: &Vec<NoProxyValue>, target: &str) -> (r: bool)
    ensures
        r == bypasses(crate::config::entries_view(no_proxy@), target@),
{
    let ghost entries = crate::config::entries_view(no_proxy@);
    let mut i: usize = 0;
    while i < no_proxy.len()
        invariant
            entries == crate::config::entries_view(no_proxy@),
            i <= no_proxy@.len(),
            forall|j: int| 0 <= j < i ==> !no_proxy_matches(#[trigger] entries[j], target@),
        decreases no_proxy@.len() - i,
    {
        if no_proxy[i].matches_host(target) {
            assert(no_proxy_matches(entries[i as int], target@));
            return true;
        }
        i = i + 1;
    }
    false
}

/// The route that `policy` gives `target`.
pub fn route_for(policy: &ProxyConfig, target: &str) -> (r: Route)
    ensures
        r@ == route_spec(policy@, target@),
{
    match policy {
        ProxyConfig::Direct => Route::Direct(target.to_owned()),
        ProxyConfig::Proxy { host, port, no_proxy } => {
            if any_matches(no_proxy, target) {
                Route::Direct(target.to_owned())
            } else {
                Route::ViaProxy { proxy: proxy_authority(host.as_str(), *port), target: target.to_owned() }
            }
        },
    }
}

/// The answer to a client's `CONNECT` once the upstream is open.
pub open spec fn established_text() -> Seq<char> {
    "HTTP/1.1 200 Connection established\r\n\r\n"@
}

/// The answer to a client's `CONNECT` once the upstream is open.
pub fn established_reply() -> (r: String)
    ensures
        r@ == established_text(),
{
    "HTTP/1.1 200 Connection established\r\n\r\n".to_owned()
}

/// A tunnel's state: waiting for the client's first bytes, or relaying to a
/// target that stays fixed for the tunnel's life.
#[derive(Clone, Debug, PartialEq, Eq)]
pub enum TunnelState {
    Initializing,
    Forwarding(String),
}

/// A tunnel's state, as the contracts see it.
pub enum TunnelSpec {
    Initializing,
    Forwarding(Seq<char>),
}

impl View for TunnelState {
    type V = TunnelSpec;

    open spec fn view(&self) -> TunnelSpec {
        match self {
            TunnelState::Initializing => TunnelSpec::Initializing,
            TunnelState::Forwarding(t) => TunnelSpec::Forwarding(t@),
        }
    }
}

/// What to do once the upstream of a new tunnel is open.
#[derive(Clone, Copy, Debug, PartialEq, Eq, Structural)]
pub enum AfterDial {
    /// Write the `200 Connection established` answer to the client; the
    /// `CONNECT` line goes nowhere.
    ReplyEstablished,
    /// Write the client's first bytes, unchanged, to the upstream.
    ForwardRequest,
}

/// What to do with bytes that the client sent.
#[derive(Clone, Debug, PartialEq, Eq)]
pub enum ClientStep {
    /// End the tunnel: the client closed, or its first bytes name no target.
    Close,
    /// Dial `route` for `target`; once the dial succeeds, report it with
    /// `on_dialed` and do `then`. A failed dial ends the tunnel.
    Establish { target: String, route: Route, then: AfterDial },
    /// Write the bytes to the upstream.
    Forward,
}

impl TunnelState {
    /// A new tunnel: no upstream yet, nothing written to the client.
    pub fn new() -> (r: TunnelState)
        ensures
            r@ == TunnelSpec::Initializing,
    {
        TunnelState::Initializing
    }

    /// Takes the bytes that one read from the client gave (none where it
    /// closed). The first bytes name the target, which `policy` routes; the
    /// tunnel stays `Initializing` until the dial succeeds. Later bytes go to
    /// the upstream.
    pub fn on_client_data(
        &mut self,
        data: &[u8],
        server_name: &Option<String>,
        policy: &ProxyConfig,
    ) -> (r: ClientStep)
        ensures
            data@.len() == 0 ==> r is Close && final(self)@ == old(self)@,
            data@.len() > 0 && old(self)@ is Forwarding ==> r is Forward && final(self)@ == old(self)@,
            data@.len() > 0 && old(self)@ is Initializing ==> match sniff(data@, server_name.deep_view()) {
                Err(_) => r is Close && final(self)@ is Initializing,
                Ok((kind, target)) => {
                    &&& final(self)@ is Initializing
                    &&& r matches ClientStep::Establish { target: t, route, then }
                    &&& t@ == target
                    &&& route@ == route_spec(policy@, target)
                    &&& then == (if kind == RequestType::Connect {
                        AfterDial::ReplyEstablished
                    } else {
                        AfterDial::ForwardRequest
                    })
                },
            },
    {
        if data.len() == 0 {
            return ClientStep::Close;
        }
        match self {
            TunnelState::Forwarding(_) => ClientStep::Forward,
            TunnelState::Initializing => {
                match parse_host_from_request(data, server_name) {
                    Err(_) => ClientStep::Close,
                    Ok((kind, target)) => {
                        let route = route_for(policy, target.as_str());
                        let then = match kind {
                            RequestType::Connect => AfterDial::ReplyEstablished,
                            RequestType::Other => AfterDial::ForwardRequest,
                        };
                        ClientStep::Establish { target, route, then }
                    },
                }
            },
        }
    }

    /// Takes the news that the first dial for `target` succeeded: a tunnel
    /// that was waiting now relays to `target`. A relaying tunnel keeps its
    /// target, which is fixed for its life.
    pub fn on_dialed(&mut self, target: String)
        ensures
            old(self)@ is Initializing ==> final(self)@ == TunnelSpec::Forwarding(target@),
            old(self)@ is Forwarding ==> final(self)@ == old(self)@,
    {
        if let TunnelState::Initializing = self {
            *self = TunnelState::Forwarding(target);
        }
    }

    /// Takes a new policy. A relaying tunnel drops its upstream and dials the
    /// route that the new policy gives its target; a tunnel still waiting for
    /// its first bytes has nothing to do.
    pub fn on_policy_change(&self, policy: &ProxyConfig) -> (r: Option<Route>)
        ensures
            self@ is Initializing ==> r is None,
            self@ matches TunnelSpec::Forwarding(t) ==> (r matches Some(route) && route@ == route_spec(
                policy@,
                t,
            )),
    {
        match self {
            TunnelState::Initializing => None,
            TunnelState::Forwarding(target) => Some(route_for(policy, target.as_str())),
        }
    }
}

} // verus!

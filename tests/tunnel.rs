use dagproxy::config::{NoProxyValue, ProxyConfig};
use dagproxy::tunnel::{
    established_reply, proxy_authority, route_for, AfterDial, ClientStep, Route, TunnelState,
};
use dagproxy::upstream::{connect_request, on_connect_reply, service_principal, HandshakeStep};

fn corporate(no_proxy: Vec<NoProxyValue>) -> ProxyConfig {
    ProxyConfig::Proxy { host: "p.corp".to_string(), port: 8888, no_proxy }
}

#[test]
fn connect_direct_scenario() {
    let mut tunnel = TunnelState::new();
    let data = b"CONNECT example.com:443 HTTP/1.1\r\nHost: example.com:443\r\n\r\n";
    let step = tunnel.on_client_data(data, &None, &ProxyConfig::Direct);
    assert_eq!(
        step,
        ClientStep::Establish {
            target: "example.com:443".to_string(),
            route: Route::Direct("example.com:443".to_string()),
            then: AfterDial::ReplyEstablished,
        }
    );
    assert_eq!(tunnel, TunnelState::Initializing);
    tunnel.on_dialed("example.com:443".to_string());
    assert_eq!(established_reply(), "HTTP/1.1 200 Connection established\r\n\r\n");
    assert_eq!(tunnel, TunnelState::Forwarding("example.com:443".to_string()));
    assert_eq!(tunnel.on_client_data(b"\x16\x03\x01", &None, &ProxyConfig::Direct), ClientStep::Forward);
    assert_eq!(tunnel.on_client_data(b"", &None, &ProxyConfig::Direct), ClientStep::Close);
}

#[test]
fn http_without_port_scenario() {
    let mut tunnel = TunnelState::new();
    let data = b"GET /index.html HTTP/1.1\r\nHost: example.com\r\n\r\n";
    let step = tunnel.on_client_data(data, &None, &ProxyConfig::Direct);
    assert_eq!(
        step,
        ClientStep::Establish {
            target: "example.com:80".to_string(),
            route: Route::Direct("example.com:80".to_string()),
            then: AfterDial::ForwardRequest,
        }
    );
    tunnel.on_dialed("example.com:80".to_string());
    assert_eq!(tunnel, TunnelState::Forwarding("example.com:80".to_string()));
}

#[test]
fn failed_dial_leaves_the_tunnel_waiting() {
    let mut tunnel = TunnelState::new();
    let data = b"CONNECT a.com:443 HTTP/1.1\r\n\r\n";
    let step = tunnel.on_client_data(data, &None, &ProxyConfig::Direct);
    assert!(matches!(step, ClientStep::Establish { .. }));
    assert_eq!(tunnel, TunnelState::Initializing);
    assert_eq!(tunnel.on_policy_change(&ProxyConfig::Direct), None);
}

#[test]
fn target_stays_fixed_once_forwarding() {
    let mut tunnel = TunnelState::new();
    tunnel.on_dialed("a.com:443".to_string());
    tunnel.on_dialed("b.com:443".to_string());
    assert_eq!(tunnel, TunnelState::Forwarding("a.com:443".to_string()));
}

#[test]
fn unreadable_first_bytes_close_the_tunnel() {
    let mut tunnel = TunnelState::new();
    let step = tunnel.on_client_data(b"GET / HTTP/1.1\r\n\r\n", &None, &ProxyConfig::Direct);
    assert_eq!(step, ClientStep::Close);
    assert_eq!(tunnel, TunnelState::Initializing);
}

#[test]
fn proxied_with_kerberos_scenario() {
    let mut tunnel = TunnelState::new();
    let data = b"CONNECT a.com:443 HTTP/1.1\r\nHost: a.com:443\r\n\r\n";
    let step = tunnel.on_client_data(data, &None, &corporate(Vec::new()));
    let route = Route::ViaProxy { proxy: "p.corp:8888".to_string(), target: "a.com:443".to_string() };
    assert_eq!(
        step,
        ClientStep::Establish { target: "a.com:443".to_string(), route, then: AfterDial::ReplyEstablished }
    );
    assert_eq!(connect_request("a.com:443"), "CONNECT a.com:443 HTTP/1.1\r\nHost: a.com:443\r\n\r\n");
    assert_eq!(on_connect_reply(false, b"HTTP/1.1 407 Proxy Authentication Required\r\n\r\n"), HandshakeStep::Negotiate);
    assert_eq!(service_principal("p.corp:8888"), "HTTP/p.corp");
    assert_eq!(on_connect_reply(true, b"HTTP/1.1 200 Connection established\r\n\r\n"), HandshakeStep::Established);
    assert_eq!(
        on_connect_reply(true, b"HTTP/1.1 407 Proxy Authentication Required\r\n\r\n"),
        HandshakeStep::AuthFailed(b"HTTP/1.1 407 Proxy Authentication Required".to_vec())
    );
}

#[test]
fn no_proxy_substring_scenario() {
    let policy = corporate(vec![NoProxyValue::from_str("google.com").unwrap()]);
    assert_eq!(route_for(&policy, "mail.google.com:443"), Route::Direct("mail.google.com:443".to_string()));
    assert_eq!(
        route_for(&policy, "example.com:443"),
        Route::ViaProxy { proxy: "p.corp:8888".to_string(), target: "example.com:443".to_string() }
    );
}

#[test]
fn no_proxy_subnet_routes_direct() {
    let policy = corporate(vec![NoProxyValue::from_str("10.0.0.0/8").unwrap()]);
    assert_eq!(route_for(&policy, "10.2.3.4"), Route::Direct("10.2.3.4".to_string()));
    assert_eq!(
        route_for(&policy, "10.2.3.4:80"),
        Route::ViaProxy { proxy: "p.corp:8888".to_string(), target: "10.2.3.4:80".to_string() }
    );
}

#[test]
fn policy_flip_scenario() {
    let mut tunnel = TunnelState::new();
    assert_eq!(tunnel.on_policy_change(&corporate(Vec::new())), None);
    let data = b"GET / HTTP/1.1\r\nHost: a.com\r\n\r\n";
    let step = tunnel.on_client_data(data, &None, &ProxyConfig::Direct);
    assert_eq!(
        step,
        ClientStep::Establish {
            target: "a.com:80".to_string(),
            route: Route::Direct("a.com:80".to_string()),
            then: AfterDial::ForwardRequest,
        }
    );
    tunnel.on_dialed("a.com:80".to_string());
    let rerouted = tunnel.on_policy_change(&corporate(Vec::new()));
    assert_eq!(
        rerouted,
        Some(Route::ViaProxy { proxy: "p.corp:8888".to_string(), target: "a.com:80".to_string() })
    );
    let bypass = corporate(vec![NoProxyValue::from_str("a.com").unwrap()]);
    assert_eq!(tunnel.on_policy_change(&bypass), Some(Route::Direct("a.com:80".to_string())));
    assert_eq!(tunnel.on_client_data(b"more", &None, &ProxyConfig::Direct), ClientStep::Forward);
}

#[test]
fn authority_joins_host_and_port() {
    assert_eq!(proxy_authority("p.corp", 8888), "p.corp:8888");
    assert_eq!(proxy_authority("h", 0), "h:0");
    assert_eq!(proxy_authority("h", 4294967295), "h:4294967295");
}

use dagproxy::upstream::{
    connect_request, first_line, negotiate_request, negotiate_request_for_token, on_connect_reply,
    on_negotiate_reply, service_principal, HandshakeStep, NegotiateOutcome,
};

#[test]
fn connect_request_text() {
    assert_eq!(
        connect_request("a.com:443"),
        "CONNECT a.com:443 HTTP/1.1\r\nHost: a.com:443\r\n\r\n"
    );
}

#[test]
fn success_reply_opens_the_tunnel() {
    assert_eq!(on_connect_reply(false, b"HTTP/1.1 200 Connection established\r\n\r\n"), HandshakeStep::Established);
    assert_eq!(on_connect_reply(true, b"HTTP/1.1 204 No Content\r\n\r\n"), HandshakeStep::Established);
}

#[test]
fn auth_required_then_success() {
    assert_eq!(
        on_connect_reply(false, b"HTTP/1.1 407 Proxy Authentication Required\r\nProxy-Authenticate: Negotiate\r\n\r\n"),
        HandshakeStep::Negotiate
    );
    assert_eq!(service_principal("p.corp:8888"), "HTTP/p.corp");
    assert_eq!(on_connect_reply(true, b"HTTP/1.1 200 OK\r\n\r\n"), HandshakeStep::Established);
}

#[test]
fn second_auth_required_fails() {
    assert_eq!(
        on_connect_reply(true, b"HTTP/1.1 407 Proxy Authentication Required\r\n\r\n"),
        HandshakeStep::AuthFailed(b"HTTP/1.1 407 Proxy Authentication Required".to_vec())
    );
    assert_eq!(on_connect_reply(true, b""), HandshakeStep::AuthFailed(Vec::new()));
}

#[test]
fn other_replies_fail() {
    assert_eq!(
        on_connect_reply(false, b"HTTP/1.1 502 Bad Gateway\r\nX: y\r\n\r\n"),
        HandshakeStep::Rejected(b"HTTP/1.1 502 Bad Gateway".to_vec())
    );
    assert_eq!(
        on_connect_reply(false, b"HTTP/1.1 403 Forbidden\n"),
        HandshakeStep::Rejected(b"HTTP/1.1 403 Forbidden".to_vec())
    );
    assert_eq!(on_connect_reply(false, b""), HandshakeStep::Closed);
}

#[test]
fn service_principal_drops_the_port() {
    assert_eq!(service_principal("proxygate.onemrva.priv:8888"), "HTTP/proxygate.onemrva.priv");
    assert_eq!(service_principal("plainhost"), "HTTP/plainhost");
    assert_eq!(service_principal(""), "HTTP/");
}

#[test]
fn negotiate_request_carries_the_token() {
    assert_eq!(
        negotiate_request("dG9rZW4="),
        "GET http://google.com HTTP/1.1\r\nHost: google.com\r\nProxy-Authorization: Negotiate dG9rZW4=\r\n\r\n"
    );
    assert_eq!(
        negotiate_request_for_token(b"token"),
        "GET http://google.com HTTP/1.1\r\nHost: google.com\r\nProxy-Authorization: Negotiate dG9rZW4=\r\n\r\n"
    );
}

#[test]
fn negotiate_replies() {
    assert_eq!(on_negotiate_reply(b"HTTP/1.1 200 OK\r\n\r\n"), NegotiateOutcome::Primed);
    assert_eq!(on_negotiate_reply(b"HTTP/1.1 301 Moved\r\n\r\n"), NegotiateOutcome::Primed);
    assert_eq!(
        on_negotiate_reply(b"HTTP/1.1 407 Denied\r\n\r\n"),
        NegotiateOutcome::Rejected(b"HTTP/1.1 407 Denied".to_vec())
    );
    assert_eq!(
        on_negotiate_reply(b"HTTP/1.1 500 Oops\r\n"),
        NegotiateOutcome::Rejected(b"HTTP/1.1 500 Oops".to_vec())
    );
    assert_eq!(on_negotiate_reply(b"SSH-2.0\r\n"), NegotiateOutcome::Unexpected(b"SSH-2.0".to_vec()));
    assert_eq!(on_negotiate_reply(b""), NegotiateOutcome::Unexpected(Vec::new()));
}

#[test]
fn first_line_stops_at_line_break() {
    assert_eq!(first_line(b"abc\r\ndef"), b"abc".to_vec());
    assert_eq!(first_line(b"abc"), b"abc".to_vec());
    assert_eq!(first_line(b"\nabc"), Vec::<u8>::new());
}

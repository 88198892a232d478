//! Talking to an upstream proxy: the `CONNECT` handshake, and the SPNEGO
//! pre-authentication request that primes the credential cache after a 407.
use vstd::prelude::*;
use vstd::slice::{slice_subrange, slice_to_vec};
use crate::text::{bytes_start_with, starts_with};

verus! {

/// The request that opens a tunnel to `target` through a proxy.
pub open spec fn connect_request_text(target: Seq<char>) -> Seq<char> {
    "CONNECT "@ + target + " HTTP/1.1\r\nHost: "@ + target + "\r\n\r\n"@
}

/// The request that opens a tunnel to `target` through a proxy.
pub fn connect_request(target: &str) -> (r: String)
    ensures
        r@ == connect_request_text(target@),
{
    let mut r = "CONNECT ".to_owned();
    r.append(target);
    r.append(" HTTP/1.1\r\nHost: ");
    r.append(target);
    r.append("\r\n\r\n");
    r
}

/// `HTTP/1.1` in ASCII.
pub open spec fn http11() -> Seq<u8> {
    seq![72u8, 84, 84, 80, 47, 49, 46, 49]
}

/// The start of a status line with the given first status digits.
pub open spec fn status_prefix(digits: Seq<u8>) -> Seq<u8> {
    http11() + seq![32u8] + digits
}

/// The start of a success status line, `HTTP/1.1 2`.
pub open spec fn success_prefix() -> Seq<u8> {
    status_prefix(seq![50u8])
}

/// The start of a `407 Proxy Authentication Required` status line.
pub open spec fn auth_required_prefix() -> Seq<u8> {
    status_prefix(seq![52u8, 48, 55])
}

/// The first position at or after `k` that holds a CR or an LF, or the end.
pub open spec fn line_end(b: Seq<u8>, k: int) -> int
    decreases b.len() - k,
{
    if 0 <= k < b.len() && b[k] != 13 && b[k] != 10 {
        line_end(b, k + 1)
    } else {
        k
    }
}

/// The first line of an answer, without its line break.
pub open spec fn status_line(b: Seq<u8>) -> Seq<u8> {
    b.subrange(0, line_end(b, 0))
}

/// The first line of an answer, without its line break.
pub fn first_line(b: &[u8]) -> (r: Vec<u8>)
    ensures
        r@ == status_line(b@),
{
    let n = b.len();
    let mut k: usize = 0;
    while k < n && b[k] != 13 && b[k] != 10
        invariant
            n == b@.len(),
            k <= n,
            line_end(b@, k as int) == line_end(b@, 0),
        decreases n - k,
    {
        k = k + 1;
    }
    slice_to_vec(slice_subrange(b, 0, k))
}

/// What a proxy's answer to `CONNECT` calls for.
#[derive(Clone, Debug, PartialEq, Eq)]
pub enum HandshakeStep {
    /// A 2xx answer: the tunnel is open.
    Established,
    /// A 407 answer to the first `CONNECT`: negotiate credentials, dial the
    /// proxy again and send `CONNECT` once more.
    Negotiate,
    /// The proxy closed the connection without an answer.
    Closed,
    /// Any other answer to the first `CONNECT`, with its status line.
    Rejected(Vec<u8>),
    /// An answer other than 2xx to the `CONNECT` sent after negotiating,
    /// with its status line.
    AuthFailed(Vec<u8>),
}

/// The step for an answer, as the contracts see it.
pub enum HandshakeSpec {
    Established,
    Negotiate,
    Closed,
    Rejected(Seq<u8>),
    AuthFailed(Seq<u8>),
}

impl View for HandshakeStep {
    type V = HandshakeSpec;

    open spec fn view(&self) -> HandshakeSpec {
        match self {
            HandshakeStep::Established => HandshakeSpec::Established,
            HandshakeStep::Negotiate => HandshakeSpec::Negotiate,
            HandshakeStep::Closed => HandshakeSpec::Closed,
            HandshakeStep::Rejected(l) => HandshakeSpec::Rejected(l@),
            HandshakeStep::AuthFailed(l) => HandshakeSpec::AuthFailed(l@),
        }
    }
}

/// The step for the answer `reply` to a `CONNECT`; `negotiated` tells
/// whether credentials were negotiated before it was sent. Credentials are
/// negotiated at most once per tunnel.
pub open spec fn handshake_step(negotiated: bool, reply: Seq<u8>) -> HandshakeSpec {
    if starts_with(reply, success_prefix()) {
        HandshakeSpec::Established
    } else if negotiated {
        HandshakeSpec::AuthFailed(status_line(reply))
    } else if starts_with(reply, auth_required_prefix()) {
        HandshakeSpec::Negotiate
    } else if reply.len() == 0 {
        HandshakeSpec::Closed
    } else {
        HandshakeSpec::Rejected(status_line(reply))
    }
}

/// What the answer `reply` to a `CONNECT` calls for: a 2xx opens the tunnel;
/// a 407 to the first `CONNECT` calls for negotiating credentials; any
/// other answer, and any answer but 2xx after negotiating, fails the dial.
pub fn on_connect_reply(negotiated: bool, reply: &[u8]) -> (r: HandshakeStep)
    ensures
        r@ == handshake_step(negotiated, reply@),
{
    let success: [u8; 10] = [72, 84, 84, 80, 47, 49, 46, 49, 32, 50];
    let auth_required: [u8; 12] = [72, 84, 84, 80, 47, 49, 46, 49, 32, 52, 48, 55];
    assert(success@ =~= success_prefix());
    assert(auth_required@ =~= auth_required_prefix());
    if bytes_start_with(reply, &success) {
        HandshakeStep::Established
    } else if negotiated {
        HandshakeStep::AuthFailed(first_line(reply))
    } else if bytes_start_with(reply, &auth_required) {
        HandshakeStep::Negotiate
    } else if reply.len() == 0 {
        HandshakeStep::Closed
    } else {
        HandshakeStep::Rejected(first_line(reply))
    }
}

/// The part of a `host:port` authority before its first `:`.
pub open spec fn colon_at(s: Seq<char>, k: int) -> int
    decreases s.len() - k,
{
    if 0 <= k < s.len() && s[k] != ':' {
        colon_at(s, k + 1)
    } else {
        k
    }
}

/// The service principal name of a proxy: `HTTP/` and its host, without the port.
pub open spec fn spn_text(proxy: Seq<char>) -> Seq<char> {
    "HTTP/"@ + proxy.subrange(0, colon_at(proxy, 0))
}

/// The service principal name of a proxy given as `host:port`.
pub fn service_principal(proxy: &str) -> (r: String)
    ensures
        r@ == spn_text(proxy@),
{
    let n = proxy.unicode_len();
    let mut k: usize = 0;
    while k < n && proxy.get_char(k) != ':'
        invariant
            n == proxy@.len(),
            k <= n,
            colon_at(proxy@, k as int) == colon_at(proxy@, 0),
        decreases n - k,
    {
        k = k + 1;
    }
    let mut r = "HTTP/".to_owned();
    r.append(proxy.substring_char(0, k));
    r
}

/// What `base64`'s standard engine makes of some bytes.
pub uninterp spec fn base64_of(b: Seq<u8>) -> Seq<char>;

/// Relies on `base64::engine::general_purpose::STANDARD.encode`: the
/// standard alphabet with padding, as a function of the bytes alone.
#[verifier::external_body]
fn encode_base64(b: &[u8]) -> (r: String)
    ensures
        r@ == base64_of(b@),
{
    base64::Engine::encode(&base64::engine::general_purpose::STANDARD, b)
}

/// The request that primes the credential cache: a `GET` that carries the
/// SPNEGO token, already in base 64.
pub open spec fn negotiate_request_text(token_b64: Seq<char>) -> Seq<char> {
    "GET http://google.com HTTP/1.1\r\nHost: google.com\r\nProxy-Authorization: Negotiate "@
        + token_b64 + "\r\n\r\n"@
}

/// The request that primes the credential cache, for a token already in base 64.
pub fn negotiate_request(token_b64: &str) -> (r: String)
    ensures
        r@ == negotiate_request_text(token_b64@),
{
    let mut r =
        "GET http://google.com HTTP/1.1\r\nHost: google.com\r\nProxy-Authorization: Negotiate ".to_owned();
    r.append(token_b64);
    r.append("\r\n\r\n");
    r
}

/// The request that primes the credential cache, for a SPNEGO token.
pub fn negotiate_request_for_token(token: &[u8]) -> (r: String)
    ensures
        r@ == negotiate_request_text(base64_of(token@)),
{
    let encoded = encode_base64(token);
    negotiate_request(encoded.as_str())
}

/// An answer that starts with a status line starts with `HTTP/1.1`.
proof fn lemma_status_is_http11(b: Seq<u8>, digits: Seq<u8>)
    ensures
        starts_with(b, status_prefix(digits)) ==> starts_with(b, http11()),
{
    let p = status_prefix(digits);
    if starts_with(b, p) {
        assert(p.subrange(0, 8) =~= http11());
        assert(b.subrange(0, 8) =~= b.subrange(0, p.len() as int).subrange(0, 8));
    }
}

/// How a proxy answered the request that primes the credential cache.
#[derive(Clone, Debug, PartialEq, Eq)]
pub enum NegotiateOutcome {
    /// An HTTP answer that is no error: the credential cache is primed.
    Primed,
    /// A 4xx or 5xx answer, with its status line.
    Rejected(Vec<u8>),
    /// An answer that is no HTTP/1.1 status line, with its first line.
    Unexpected(Vec<u8>),
}

/// What an answer to the priming request means: 4xx and 5xx fail, another
/// HTTP/1.1 answer succeeds, anything else is unexpected.
pub fn on_negotiate_reply(reply: &[u8]) -> (r: NegotiateOutcome)
    ensures
        (starts_with(reply@, status_prefix(seq![52u8])) || starts_with(reply@, status_prefix(seq![53u8])))
            ==> (r matches NegotiateOutcome::Rejected(l) && l@ == status_line(reply@)),
        !(starts_with(reply@, status_prefix(seq![52u8])) || starts_with(reply@, status_prefix(seq![53u8])))
            && starts_with(reply@, http11()) ==> r is Primed,
        !starts_with(reply@, http11()) ==> (r matches NegotiateOutcome::Unexpected(l) && l@ == status_line(
            reply@,
        )),
{
    let client_error: [u8; 10] = [72, 84, 84, 80, 47, 49, 46, 49, 32, 52];
    let server_error: [u8; 10] = [72, 84, 84, 80, 47, 49, 46, 49, 32, 53];
    let version: [u8; 8] = [72, 84, 84, 80, 47, 49, 46, 49];
    assert(client_error@ =~= status_prefix(seq![52u8]));
    assert(server_error@ =~= status_prefix(seq![53u8]));
    assert(version@ =~= http11());
    if bytes_start_with(reply, &client_error) || bytes_start_with(reply, &server_error) {
        proof {
            lemma_status_is_http11(reply@, seq![52u8]);
            lemma_status_is_http11(reply@, seq![53u8]);
        }
        NegotiateOutcome::Rejected(first_line(reply))
    } else if bytes_start_with(reply, &version) {
        NegotiateOutcome::Primed
    } else {
        NegotiateOutcome::Unexpected(first_line(reply))
    }
}

} // verus!

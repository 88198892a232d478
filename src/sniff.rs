//! Finding the target host in the first bytes that a client sends.
use vstd::prelude::*;
use crate::text::{bytes_start_with, chars_of, decode_lossy, has_char, starts_with, utf8_lossy_of};

verus! {

/// How a client asked for its target: with `CONNECT`, or otherwise.
#[derive(Clone, Copy, Debug, PartialEq, Eq, Structural)]
pub enum RequestType {
    Connect,
    Other,
}

/// Why no target could be found.
#[derive(Clone, Copy, Debug, PartialEq, Eq, Structural)]
pub enum SniffError {
    /// A `CONNECT` line without a target.
    MissingTarget,
    /// A TLS ClientHello without a server name.
    NoServerName,
    /// Bytes that are no HTTP request.
    MalformedRequest,
    /// An HTTP request without a `Host` header.
    NoHostHeader,
}

/// `CONNECT ` in ASCII.
pub open spec fn connect_prefix() -> Seq<u8> {
    seq![67u8, 79, 78, 78, 69, 67, 84, 32]
}

/// The record type of a TLS handshake.
pub const TLS_HANDSHAKE_RECORD_TYPE: u8 = 0x16;

/// The white space of `char::is_whitespace`: the characters with the
/// Unicode `White_Space` property.
pub open spec fn is_ws(c: char) -> bool {
    let u = c as u32;
    ||| 0x09 <= u <= 0x0d
    ||| u == 0x20
    ||| u == 0x85
    ||| u == 0xa0
    ||| u == 0x1680
    ||| 0x2000 <= u <= 0x200a
    ||| u == 0x2028
    ||| u == 0x2029
    ||| u == 0x202f
    ||| u == 0x205f
    ||| u == 0x3000
}

/// The first position at or after `k` that holds no white space.
pub open spec fn skip_ws(t: Seq<char>, k: int) -> int
    decreases t.len() - k,
{
    if 0 <= k < t.len() && is_ws(t[k]) {
        skip_ws(t, k + 1)
    } else {
        k
    }
}

/// The first position at or after `k` that holds white space, or the end.
pub open spec fn token_end(t: Seq<char>, k: int) -> int
    decreases t.len() - k,
{
    if 0 <= k < t.len() && !is_ws(t[k]) {
        token_end(t, k + 1)
    } else {
        k
    }
}

/// The second white-space separated word of a text, as
/// `split_whitespace().nth(1)` finds it; in a `CONNECT` line, the word after
/// `CONNECT`.
pub open spec fn connect_target(t: Seq<char>) -> Option<Seq<char>> {
    let first = skip_ws(t, 0);
    let second = skip_ws(t, token_end(t, first));
    if 0 <= second < t.len() {
        Some(t.subrange(second, token_end(t, second)))
    } else {
        None
    }
}

/// What `httparse::Request::parse` makes of a buffer, with room for sixteen
/// headers: nothing where it reports an error, else the request target if it
/// was read and the header slots as it leaves them.
pub uninterp spec fn http_head_of(b: Seq<u8>) -> Option<(Option<Seq<char>>, Seq<(Seq<char>, Seq<u8>)>)>;

/// Whether a header name is `Host`, in any case.
pub open spec fn is_host_name(n: Seq<char>) -> bool {
    &&& n.len() == 4
    &&& (n[0] == 'H' || n[0] == 'h')
    &&& (n[1] == 'O' || n[1] == 'o')
    &&& (n[2] == 'S' || n[2] == 's')
    &&& (n[3] == 'T' || n[3] == 't')
}

/// The value of the first `Host` header at or after `k`.
pub open spec fn host_value_from(hs: Seq<(Seq<char>, Seq<u8>)>, k: int) -> Option<Seq<u8>>
    decreases hs.len() - k,
{
    if 0 <= k < hs.len() {
        if is_host_name(hs[k].0) {
            Some(hs[k].1)
        } else {
            host_value_from(hs, k + 1)
        }
    } else {
        None
    }
}

/// The port suffix for a request target: `:443` where it starts with
/// `https`, `:80` otherwise.
pub open spec fn default_port_suffix(path: Option<Seq<char>>) -> Seq<char> {
    if path matches Some(p) && starts_with(p, "https"@) {
        ":443"@
    } else {
        ":80"@
    }
}

/// The target of an HTTP request: its `Host` value, with the default port
/// added where the value names none.
pub open spec fn http_target(path: Option<Seq<char>>, hs: Seq<(Seq<char>, Seq<u8>)>) -> Option<Seq<char>> {
    match host_value_from(hs, 0) {
        None => None,
        Some(v) => {
            let h = utf8_lossy_of(v);
            Some(
                if h.contains(':') {
                    h
                } else {
                    h + default_port_suffix(path)
                },
            )
        },
    }
}

/// The target of a TLS ClientHello with the given server name.
pub open spec fn tls_target(server_name: Option<Seq<char>>) -> Result<(RequestType, Seq<char>), SniffError> {
    match server_name {
        Some(n) => Ok((RequestType::Other, n + ":443"@)),
        None => Err(SniffError::NoServerName),
    }
}

/// What the first bytes of a client ask for.
pub open spec fn sniff(b: Seq<u8>, server_name: Option<Seq<char>>) -> Result<(RequestType, Seq<char>), SniffError> {
    if starts_with(b, connect_prefix()) {
        match connect_target(utf8_lossy_of(b)) {
            Some(t) => Ok((RequestType::Connect, t)),
            None => Err(SniffError::MissingTarget),
        }
    } else if b.len() > 0 && b[0] == TLS_HANDSHAKE_RECORD_TYPE {
        tls_target(server_name)
    } else {
        match http_head_of(b) {
            None => Err(SniffError::MalformedRequest),
            Some((path, hs)) => match http_target(path, hs) {
                Some(t) => Ok((RequestType::Other, t)),
                None => Err(SniffError::NoHostHeader),
            },
        }
    }
}

/// Sniffing goes by the first bytes. A buffer that starts with `CONNECT `
/// gives a `Connect` target, and does so exactly when the line names one; a
/// buffer that starts with a TLS handshake record gives an `Other` target
/// with port 443; any other buffer is read as HTTP and gives an `Other`
/// target exactly when the parser finds a `Host` header in it.
pub proof fn lemma_sniff_kinds(b: Seq<u8>, server_name: Option<Seq<char>>)
    ensures
        starts_with(b, connect_prefix()) ==> (sniff(b, server_name) is Ok <==> connect_target(
            utf8_lossy_of(b),
        ) is Some),
        starts_with(b, connect_prefix()) ==> (sniff(b, server_name) matches Ok((k, _)) ==> k
            == RequestType::Connect),
        b.len() > 0 && b[0] == TLS_HANDSHAKE_RECORD_TYPE ==> (sniff(b, server_name) matches Ok((k, t))
            ==> k == RequestType::Other && t.len() >= 4 && t.subrange(t.len() - 4, t.len() as int)
            == ":443"@),
        !starts_with(b, connect_prefix()) && !(b.len() > 0 && b[0] == TLS_HANDSHAKE_RECORD_TYPE) ==> (
        sniff(b, server_name) is Ok <==> (http_head_of(b) matches Some((p, hs)) && host_value_from(
            hs,
            0,
        ) is Some)),
        !starts_with(b, connect_prefix()) ==> (sniff(b, server_name) matches Ok((k, _)) ==> k
            == RequestType::Other),
{
    if b.len() > 0 && b[0] == TLS_HANDSHAKE_RECORD_TYPE {
        if starts_with(b, connect_prefix()) {
            assert(b.subrange(0, 8)[0] == b[0]);
        }
        if let Some(n) = server_name {
            lemma_port_suffix(n);
        }
    }
}

proof fn lemma_port_suffix(n: Seq<char>)
    ensures
        ":443"@.len() == 4,
        (n + ":443"@).subrange(n.len() as int, n.len() + 4int) == ":443"@,
{
    reveal_strlit(":443");
    assert((n + ":443"@).subrange(n.len() as int, n.len() + 4int) =~= ":443"@);
}

/// A sniffing result, as the contracts see it.
pub open spec fn sniffed_view(r: Result<(RequestType, String), SniffError>) -> Result<(RequestType, Seq<char>), SniffError> {
    match r {
        Ok((k, t)) => Ok((k, t@)),
        Err(e) => Err(e),
    }
}

/// Relies on `httparse::Request::parse`: reads the request line and up to
/// sixteen headers; on a complete or a partial parse the header slots are
/// handed back as it leaves them.
#[verifier::external_body]
fn parse_http_head(data: &[u8]) -> (r: Option<(Option<String>, Vec<(String, Vec<u8>)>)>)
    ensures
        r.deep_view() == http_head_of(data@),
{
    let mut headers = [httparse::EMPTY_HEADER; 16];
    let mut req = httparse::Request::new(&mut headers);
    match req.parse(data) {
        Ok(_) => Some((
            req.path.map(|p| p.to_owned()),
            req.headers.iter().map(|h| (h.name.to_owned(), h.value.to_vec())).collect(),
        )),
        Err(_) => None,
    }
}

/// Whether `s` starts with `https`.
fn starts_with_https(s: &str) -> (r: bool)
    ensures
        r == starts_with(s@, "https"@),
{
    proof {
        reveal_strlit("https");
    }
    let n = s.unicode_len();
    if n < 5 {
        return false;
    }
    let c0 = s.get_char(0);
    let c1 = s.get_char(1);
    let c2 = s.get_char(2);
    let c3 = s.get_char(3);
    let c4 = s.get_char(4);
    let r = c0 == 'h' && c1 == 't' && c2 == 't' && c3 == 'p' && c4 == 's';
    proof {
        let head = s@.subrange(0, 5);
        if r {
            assert(head =~= "https"@);
        } else if head == "https"@ {
            assert(head[0] == 'h' && head[1] == 't' && head[2] == 't' && head[3] == 'p' && head[4]
                == 's');
        }
    }
    r
}

/// The target of an HTTP request, from what the request parser read: the
/// value of the first `Host` header, with `:443` added where it names no
/// port and the request target starts with `https`, `:80` otherwise.
pub fn target_from_http_head(path: &Option<String>, headers: &Vec<(String, Vec<u8>)>) -> (r: Result<
    (RequestType, String),
    SniffError,
>)
    ensures
        sniffed_view(r) == match http_target(path.deep_view(), headers.deep_view()) {
            Some(t) => Ok((RequestType::Other, t)),
            None => Err(SniffError::NoHostHeader),
        },
{
    let ghost hs = headers.deep_view();
    let mut k: usize = 0;
    while k < headers.len()
        invariant
            hs == headers.deep_view(),
            k <= headers@.len(),
            host_value_from(hs, k as int) == host_value_from(hs, 0),
        decreases headers@.len() - k,
    {
        let name = &headers[k].0;
        assert(hs[k as int].0 == name@);
        let is_host = name.unicode_len() == 4 && {
            let c0 = name.as_str().get_char(0);
            let c1 = name.as_str().get_char(1);
            let c2 = name.as_str().get_char(2);
            let c3 = name.as_str().get_char(3);
            (c0 == 'H' || c0 == 'h') && (c1 == 'O' || c1 == 'o') && (c2 == 'S' || c2 == 's') && (c3
                == 'T' || c3 == 't')
        };
        if is_host {
            let mut host = decode_lossy(headers[k].1.as_slice());
            assert(hs[k as int].1 == headers@[k as int].1@);
            if !has_char(host.as_str(), ':') {
                let https = match path {
                    Some(p) => starts_with_https(p.as_str()),
                    None => false,
                };
                if https {
                    host.append(":443");
                } else {
                    host.append(":80");
                }
            }
            return Ok((RequestType::Other, host));
        }
        k = k + 1;
    }
    Err(SniffError::NoHostHeader)
}

/// The target of a TLS ClientHello: the server name that it carries, with
/// port 443.
pub fn target_from_server_name(server_name: &Option<String>) -> (r: Result<(RequestType, String), SniffError>)
    ensures
        sniffed_view(r) == tls_target(server_name.deep_view()),
{
    match server_name {
        Some(n) => {
            let mut t = n.clone();
            t.append(":443");
            Ok((RequestType::Other, t))
        },
        None => Err(SniffError::NoServerName),
    }
}

/// The target of a plain HTTP request: the value of its `Host` header, with
/// the default port added where it names none.
pub fn parse_host_from_http_request(data: &[u8]) -> (r: Result<(RequestType, String), SniffError>)
    ensures
        sniffed_view(r) == match http_head_of(data@) {
            None => Err(SniffError::MalformedRequest),
            Some((path, hs)) => match http_target(path, hs) {
                Some(t) => Ok((RequestType::Other, t)),
                None => Err(SniffError::NoHostHeader),
            },
        },
{
    match parse_http_head(data) {
        Some((path, headers)) => target_from_http_head(&path, &headers),
        None => Err(SniffError::MalformedRequest),
    }
}

/// Whether `c` is white space, as `char::is_whitespace` has it.
pub fn is_whitespace_char(c: char) -> (r: bool)
    ensures
        r == is_ws(c),
{
    let u = c as u32;
    (0x09 <= u && u <= 0x0d) || u == 0x20 || u == 0x85 || u == 0xa0 || u == 0x1680 || (0x2000 <= u
        && u <= 0x200a) || u == 0x2028 || u == 0x2029 || u == 0x202f || u == 0x205f || u == 0x3000
}

/// The first position at or after `k` in `t` that holds no white space.
fn skip_white_space(t: &Vec<char>, k: usize) -> (r: usize)
    requires
        k <= t@.len(),
    ensures
        r == skip_ws(t@, k as int),
{
    let mut i = k;
    while i < t.len() && is_whitespace_char(t[i])
        invariant
            k <= i <= t@.len(),
            skip_ws(t@, i as int) == skip_ws(t@, k as int),
        decreases t@.len() - i,
    {
        i = i + 1;
    }
    i
}

/// The first position at or after `k` in `t` that holds white space, or the end.
fn skip_word(t: &Vec<char>, k: usize) -> (r: usize)
    requires
        k <= t@.len(),
    ensures
        r == token_end(t@, k as int),
{
    let mut i = k;
    while i < t.len() && !is_whitespace_char(t[i])
        invariant
            k <= i <= t@.len(),
            token_end(t@, i as int) == token_end(t@, k as int),
        decreases t@.len() - i,
    {
        i = i + 1;
    }
    i
}

proof fn lemma_skips_stay_in_bounds(t: Seq<char>, k: int)
    requires
        0 <= k <= t.len(),
    ensures
        k <= skip_ws(t, k) <= t.len(),
        k <= token_end(t, k) <= t.len(),
    decreases t.len() - k,
{
    if k < t.len() {
        lemma_skips_stay_in_bounds(t, k + 1);
    }
}

/// The target of a `CONNECT` line: the second word of its text.
fn connect_target_of(data: &[u8]) -> (r: Result<(RequestType, String), SniffError>)
    ensures
        sniffed_view(r) == match connect_target(utf8_lossy_of(data@)) {
            Some(t) => Ok((RequestType::Connect, t)),
            None => Err(SniffError::MissingTarget),
        },
{
    let text = decode_lossy(data);
    let chars = chars_of(text.as_str());
    proof {
        lemma_skips_stay_in_bounds(chars@, 0);
    }
    let first = skip_white_space(&chars, 0);
    proof {
        lemma_skips_stay_in_bounds(chars@, first as int);
    }
    let first_end = skip_word(&chars, first);
    proof {
        lemma_skips_stay_in_bounds(chars@, first_end as int);
    }
    let second = skip_white_space(&chars, first_end);
    if second >= chars.len() {
        return Err(SniffError::MissingTarget);
    }
    proof {
        lemma_skips_stay_in_bounds(chars@, second as int);
    }
    let second_end = skip_word(&chars, second);
    let target = text.as_str().substring_char(second, second_end).to_owned();
    Ok((RequestType::Connect, target))
}

/// The target that the first bytes of a client ask for. A `CONNECT` line
/// names it as its second word; a TLS handshake record names it as the
/// server name, which a ClientHello parser found in `data` and hands in as
/// `server_name` (it is read only for such a record), with port 443; any
/// other bytes are read as an HTTP request with a `Host` header.
pub fn parse_host_from_request(data: &[u8], server_name: &Option<String>) -> (r: Result<
    (RequestType, String),
    SniffError,
>)
    ensures
        sniffed_view(r) == sniff(data@, server_name.deep_view()),
        starts_with(data@, connect_prefix()) ==> (r is Ok <==> connect_target(utf8_lossy_of(data@))
            is Some),
        starts_with(data@, connect_prefix()) ==> (r matches Ok((k, _)) ==> k == RequestType::Connect),
{
    let prefix: [u8; 8] = [67, 79, 78, 78, 69, 67, 84, 32];
    assert(prefix@ == connect_prefix());
    if bytes_start_with(data, &prefix) {
        connect_target_of(data)
    } else if data.len() > 0 && data[0] == TLS_HANDSHAKE_RECORD_TYPE {
        target_from_server_name(server_name)
    } else {
        parse_host_from_http_request(data)
    }
}

} // verus!
